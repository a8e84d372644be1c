//! Strings made of normal, superscript and subscript runs of text, rendered either with
//! Unicode superscript and subscript characters or with HTML tags.
use vstd::prelude::*;
use vstd::string::*;
use vstd::std_specs::iter::IteratorSpec;
use crate::utils::{decimal, digit_char};

verus! {

broadcast use vstd::string::group_string_axioms;

/// How a run of text is typeset.
#[derive(Clone, Copy, PartialEq, Eq, Debug, Structural)]
pub enum SupSubKind {
    /// Normal text.
    Normal,
    /// Superscript text.
    Superscript,
    /// Subscript text.
    Subscript,
}

/// The output format of a [`SupSubString`].
#[derive(Clone, Copy, PartialEq, Eq, Debug, Structural)]
pub enum SupSubFormat {
    /// Superscripts and subscripts as Unicode superscript and subscript characters.
    Unicode,
    /// Superscripts and subscripts as the HTML tags `<sup></sup>` and `<sub></sub>`.
    Html,
}

/// A string made of runs of normal, superscript and subscript text.
#[derive(Clone, Debug)]
pub struct SupSubString {
    segments: Vec<(SupSubKind, String)>,
}

impl View for SupSubString {
    type V = Seq<(SupSubKind, Seq<char>)>;

    closed spec fn view(&self) -> Seq<(SupSubKind, Seq<char>)> {
        self.segments@.map_values(|p: (SupSubKind, String)| (p.0, p.1@))
    }
}

/// The Unicode superscript form of `c`, for the digits, `+`, `-`, `=`, `(` and `)`.
pub open spec fn superscript_of(c: char) -> Option<Seq<char>> {
    if c == '0' { Some("⁰"@) }
    else if c == '1' { Some("¹"@) }
    else if c == '2' { Some("²"@) }
    else if c == '3' { Some("³"@) }
    else if c == '4' { Some("⁴"@) }
    else if c == '5' { Some("⁵"@) }
    else if c == '6' { Some("⁶"@) }
    else if c == '7' { Some("⁷"@) }
    else if c == '8' { Some("⁸"@) }
    else if c == '9' { Some("⁹"@) }
    else if c == '+' { Some("⁺"@) }
    else if c == '-' { Some("⁻"@) }
    else if c == '=' { Some("⁼"@) }
    else if c == '(' { Some("⁽"@) }
    else if c == ')' { Some("⁾"@) }
    else { None }
}

/// The Unicode subscript form of `c`, for the digits, `+`, `-`, `=`, `(` and `)`.
pub open spec fn subscript_of(c: char) -> Option<Seq<char>> {
    if c == '0' { Some("₀"@) }
    else if c == '1' { Some("₁"@) }
    else if c == '2' { Some("₂"@) }
    else if c == '3' { Some("₃"@) }
    else if c == '4' { Some("₄"@) }
    else if c == '5' { Some("₅"@) }
    else if c == '6' { Some("₆"@) }
    else if c == '7' { Some("₇"@) }
    else if c == '8' { Some("₈"@) }
    else if c == '9' { Some("₉"@) }
    else if c == '+' { Some("₊"@) }
    else if c == '-' { Some("₋"@) }
    else if c == '=' { Some("₌"@) }
    else if c == '(' { Some("₍"@) }
    else if c == ')' { Some("₎"@) }
    else { None }
}

/// The character-wise Unicode form of a superscript (`sup`) or subscript run, or `None` when
/// some character has no such form.
pub open spec fn unicode_run(t: Seq<char>, sup: bool) -> Option<Seq<char>>
    decreases t.len(),
{
    if t.len() == 0 {
        Some(Seq::empty())
    } else {
        let c = t.last();
        let mapped = if sup {
            superscript_of(c)
        } else {
            subscript_of(c)
        };
        match (unicode_run(t.drop_last(), sup), mapped) {
            (Some(prefix), Some(tail)) => Some(prefix + tail),
            _ => None,
        }
    }
}

/// A single run in the given format.
pub open spec fn render_run(kind: SupSubKind, t: Seq<char>, fmt: SupSubFormat) -> Option<Seq<char>> {
    match kind {
        SupSubKind::Normal => Some(t),
        SupSubKind::Superscript => match fmt {
            SupSubFormat::Unicode => unicode_run(t, true),
            SupSubFormat::Html => Some("<sup>"@ + t + "</sup>"@),
        },
        SupSubKind::Subscript => match fmt {
            SupSubFormat::Unicode => unicode_run(t, false),
            SupSubFormat::Html => Some("<sub>"@ + t + "</sub>"@),
        },
    }
}

/// The runs in the given format, concatenated; `None` when some run cannot be rendered.
pub open spec fn render(s: Seq<(SupSubKind, Seq<char>)>, fmt: SupSubFormat) -> Option<Seq<char>>
    decreases s.len(),
{
    if s.len() == 0 {
        Some(Seq::empty())
    } else {
        match (render(s.drop_last(), fmt), render_run(s.last().0, s.last().1, fmt)) {
            (Some(prefix), Some(tail)) => Some(prefix + tail),
            _ => None,
        }
    }
}

/// The text of all runs concatenated, typeset normally.
pub open spec fn plain_text(s: Seq<(SupSubKind, Seq<char>)>) -> Seq<char>
    decreases s.len(),
{
    if s.len() == 0 {
        Seq::empty()
    } else {
        plain_text(s.drop_last()) + s.last().1
    }
}

/// Rendering two strings one after the other renders each of them.
pub proof fn lemma_render_add(
    x: Seq<(SupSubKind, Seq<char>)>,
    y: Seq<(SupSubKind, Seq<char>)>,
    fmt: SupSubFormat,
)
    ensures
        render(x + y, fmt) == match (render(x, fmt), render(y, fmt)) {
            (Some(a), Some(b)) => Some(a + b),
            _ => None,
        },
    decreases y.len(),
{
    if y.len() == 0 {
        assert(x + y =~= x);
        if let Some(a) = render(x, fmt) {
            assert(a + Seq::<char>::empty() =~= a);
        }
    } else {
        lemma_render_add(x, y.drop_last(), fmt);
        assert((x + y).drop_last() =~= x + y.drop_last());
        assert((x + y).last() == y.last());
        if let (Some(a), Some(b)) = (render(x, fmt), render(y.drop_last(), fmt)) {
            if let Some(t) = render_run(y.last().0, y.last().1, fmt) {
                assert(a + b + t =~= a + (b + t));
            }
        }
    }
}

/// Decimal digits always have a Unicode superscript form.
pub proof fn lemma_unicode_superscript_decimal(x: nat)
    ensures
        unicode_run(decimal(x), true) is Some,
    decreases x,
{
    let d = digit_char(x % 10);
    assert(superscript_of(d) is Some);
    if x >= 10 {
        lemma_unicode_superscript_decimal(x / 10);
        assert(decimal(x).drop_last() =~= decimal(x / 10));
        assert(decimal(x).last() == d);
    } else {
        assert(x % 10 == x);
        assert(decimal(x).drop_last() =~= Seq::<char>::empty());
        assert(decimal(x).last() == d);
        assert(unicode_run(Seq::<char>::empty(), true) is Some);
    }
    assert(decimal(x).len() > 0);
}

fn superscript_str(c: char) -> (r: Option<&'static str>)
    ensures
        r matches Some(s) ==> superscript_of(c) == Some(s@),
        r is None ==> superscript_of(c) is None,
{
    match c {
        '0' => Some("⁰"),
        '1' => Some("¹"),
        '2' => Some("²"),
        '3' => Some("³"),
        '4' => Some("⁴"),
        '5' => Some("⁵"),
        '6' => Some("⁶"),
        '7' => Some("⁷"),
        '8' => Some("⁸"),
        '9' => Some("⁹"),
        '+' => Some("⁺"),
        '-' => Some("⁻"),
        '=' => Some("⁼"),
        '(' => Some("⁽"),
        ')' => Some("⁾"),
        _ => None,
    }
}

fn subscript_str(c: char) -> (r: Option<&'static str>)
    ensures
        r matches Some(s) ==> subscript_of(c) == Some(s@),
        r is None ==> subscript_of(c) is None,
{
    match c {
        '0' => Some("₀"),
        '1' => Some("₁"),
        '2' => Some("₂"),
        '3' => Some("₃"),
        '4' => Some("₄"),
        '5' => Some("₅"),
        '6' => Some("₆"),
        '7' => Some("₇"),
        '8' => Some("₈"),
        '9' => Some("₉"),
        '+' => Some("₊"),
        '-' => Some("₋"),
        '=' => Some("₌"),
        '(' => Some("₍"),
        ')' => Some("₎"),
        _ => None,
    }
}

/// A run that cannot be rendered stays unrenderable when extended.
proof fn lemma_unicode_run_none_extends(t: Seq<char>, k: int, sup: bool)
    requires
        0 <= k <= t.len(),
        unicode_run(t.take(k), sup) is None,
    ensures
        unicode_run(t, sup) is None,
    decreases t.len() - k,
{
    if k < t.len() {
        let u = t.take(k + 1);
        assert(u.drop_last() =~= t.take(k));
        assert(unicode_run(u, sup) is None);
        lemma_unicode_run_none_extends(t, k + 1, sup);
    } else {
        assert(t.take(k) =~= t);
    }
}

/// Append the Unicode superscript (`sup`) or subscript form of `t` to `out`; `false` when
/// some character has no such form.
fn push_unicode_run(out: &mut String, t: &str, sup: bool) -> (ok: bool)
    ensures
        ok <==> unicode_run(t@, sup) is Some,
        ok ==> final(out)@ == old(out)@ + unicode_run(t@, sup)->0,
{
    let mut chars = t.chars();
    let ghost mut done: int = 0;
    proof {
        assert(t@.skip(0) =~= t@);
        assert(t@.take(0) =~= Seq::<char>::empty());
    }
    loop
        invariant
            0 <= done <= t@.len(),
            chars.remaining() == t@.skip(done),
            unicode_run(t@.take(done), sup) is Some,
            out@ == old(out)@ + unicode_run(t@.take(done), sup)->0,
        ensures
            done == t@.len(),
        decreases t@.len() - done,
    {
        match chars.next() {
            None => {
                proof {
                    assert(t@.skip(done).len() == 0);
                }
                break;
            },
            Some(c) => {
                proof {
                    assert(c == t@[done]);
                    assert(t@.skip(done).drop_first() =~= t@.skip(done + 1));
                    assert(t@.take(done + 1).drop_last() =~= t@.take(done));
                    assert(t@.take(done + 1).last() == c);
                }
                let mapped = if sup {
                    superscript_str(c)
                } else {
                    subscript_str(c)
                };
                match mapped {
                    None => {
                        proof {
                            lemma_unicode_run_none_extends(t@, done + 1, sup);
                        }
                        return false;
                    },
                    Some(m) => {
                        out.append(m);
                    },
                }
                proof {
                    done = done + 1;
                }
            },
        }
    }
    proof {
        assert(t@.take(done) =~= t@);
    }
    true
}

/// A string that cannot be rendered stays unrenderable when runs are appended.
proof fn lemma_render_none_extends(s: Seq<(SupSubKind, Seq<char>)>, k: int, fmt: SupSubFormat)
    requires
        0 <= k <= s.len(),
        render(s.take(k), fmt) is None,
    ensures
        render(s, fmt) is None,
    decreases s.len() - k,
{
    if k < s.len() {
        let u = s.take(k + 1);
        assert(u.drop_last() =~= s.take(k));
        assert(render(u, fmt) is None);
        lemma_render_none_extends(s, k + 1, fmt);
    } else {
        assert(s.take(k) =~= s);
    }
}

impl SupSubString {
    /// An empty string.
    pub fn new() -> (r: Self)
        ensures
            r@ == Seq::<(SupSubKind, Seq<char>)>::empty(),
    {
        let r = Self { segments: Vec::new() };
        proof {
            assert(r@ =~= Seq::<(SupSubKind, Seq<char>)>::empty());
        }
        r
    }

    /// A string made of one run of normal text.
    pub fn from_normal(s: &str) -> (r: Self)
        ensures
            r@ == seq![(SupSubKind::Normal, s@)],
    {
        let mut r = Self::new();
        r.push_nrm(s);
        proof {
            assert(r@ =~= seq![(SupSubKind::Normal, s@)]);
        }
        r
    }

    fn push_run(&mut self, kind: SupSubKind, s: &str)
        ensures
            final(self)@ == old(self)@.push((kind, s@)),
    {
        let ghost before = self.segments@;
        let text = String::from_str(s);
        let ghost pair = (kind, text);
        self.segments.push((kind, text));
        proof {
            assert(self.segments@ =~= before.push(pair));
            assert(self@ =~= old(self)@.push((kind, s@)));
        }
    }

    /// Append a run of normal text.
    pub fn push_nrm(&mut self, s: &str)
        ensures
            final(self)@ == old(self)@.push((SupSubKind::Normal, s@)),
    {
        self.push_run(SupSubKind::Normal, s);
    }

    /// Append a run of superscript text.
    pub fn push_sup(&mut self, s: &str)
        ensures
            final(self)@ == old(self)@.push((SupSubKind::Superscript, s@)),
    {
        self.push_run(SupSubKind::Superscript, s);
    }

    /// Append a run of subscript text.
    pub fn push_sub(&mut self, s: &str)
        ensures
            final(self)@ == old(self)@.push((SupSubKind::Subscript, s@)),
    {
        self.push_run(SupSubKind::Subscript, s);
    }

    /// Append all runs of `other`.
    pub fn extend(&mut self, other: SupSubString)
        ensures
            final(self)@ == old(self)@ + other@,
    {
        let ghost before = self.segments@;
        let ghost added = other.segments@;
        let ghost other_view = other@;
        let mut other = other;
        self.segments.append(&mut other.segments);
        proof {
            assert(self.segments@ =~= before + added);
            assert(self@ =~= old(self)@ + other_view);
        }
    }

    /// The runs of the string, in order.
    pub fn len(&self) -> (r: usize)
        ensures
            r == self@.len(),
    {
        self.segments.len()
    }

    /// Render the string in the given format; `None` when a superscript or subscript run
    /// holds a character with no Unicode superscript or subscript form.
    pub fn format(&self, fmt: SupSubFormat) -> (r: Option<String>)
        ensures
            r is Some <==> render(self@, fmt) is Some,
            r matches Some(text) ==> text@ == render(self@, fmt)->0,
    {
        let mut out = String::new();
        let mut i: usize = 0;
        while i < self.segments.len()
            invariant
                i <= self@.len(),
                self@.len() == self.segments@.len(),
                render(self@.take(i as int), fmt) is Some,
                out@ == render(self@.take(i as int), fmt)->0,
            decreases self@.len() - i,
        {
            let kind = self.segments[i].0;
            let text = self.segments[i].1.as_str();
            proof {
                assert(self@.take(i + 1).drop_last() =~= self@.take(i as int));
                assert(self@[i as int] == (kind, text@));
            }
            match kind {
                SupSubKind::Normal => {
                    out.append(text);
                },
                SupSubKind::Superscript => match fmt {
                    SupSubFormat::Unicode => {
                        if !push_unicode_run(&mut out, text, true) {
                            proof {
                                lemma_render_none_extends(self@, i + 1, fmt);
                            }
                            return None;
                        }
                    },
                    SupSubFormat::Html => {
                        out.append("<sup>");
                        out.append(text);
                        out.append("</sup>");
                    },
                },
                SupSubKind::Subscript => match fmt {
                    SupSubFormat::Unicode => {
                        if !push_unicode_run(&mut out, text, false) {
                            proof {
                                lemma_render_none_extends(self@, i + 1, fmt);
                            }
                            return None;
                        }
                    },
                    SupSubFormat::Html => {
                        out.append("<sub>");
                        out.append(text);
                        out.append("</sub>");
                    },
                },
            }
            i = i + 1;
        }
        proof {
            assert(self@.take(i as int) =~= self@);
        }
        Some(out)
    }

    /// The text of all runs concatenated, typeset normally.
    pub fn plain(&self) -> (r: String)
        ensures
            r@ == plain_text(self@),
    {
        let mut out = String::new();
        let mut i: usize = 0;
        while i < self.segments.len()
            invariant
                i <= self@.len(),
                self@.len() == self.segments@.len(),
                out@ == plain_text(self@.take(i as int)),
            decreases self@.len() - i,
        {
            proof {
                assert(self@.take(i + 1).drop_last() =~= self@.take(i as int));
            }
            out.append(self.segments[i].1.as_str());
            i = i + 1;
        }
        proof {
            assert(self@.take(i as int) =~= self@);
        }
        out
    }

    /// Render the string in the given format, or, where that is not possible, typeset all runs
    /// normally.
    pub fn format_or_normal(&self, fmt: SupSubFormat) -> (r: String)
        ensures
            render(self@, fmt) matches Some(text) ==> r@ == text,
            render(self@, fmt) is None ==> r@ == plain_text(self@),
    {
        match self.format(fmt) {
            Some(text) => text,
            None => self.plain(),
        }
    }
}

} // verus!
