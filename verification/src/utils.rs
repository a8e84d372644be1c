//! Decimal rendering of integers and replacement of text, used to build orbital names.
use vstd::prelude::*;
use vstd::string::*;
use vstd::std_specs::iter::IteratorSpec;

pub mod sup_sub_string;

verus! {

/// The decimal digit character for `d < 10`.
pub open spec fn digit_char(d: nat) -> char {
    if d == 0 {
        '0'
    } else if d == 1 {
        '1'
    } else if d == 2 {
        '2'
    } else if d == 3 {
        '3'
    } else if d == 4 {
        '4'
    } else if d == 5 {
        '5'
    } else if d == 6 {
        '6'
    } else if d == 7 {
        '7'
    } else if d == 8 {
        '8'
    } else {
        '9'
    }
}

/// The decimal representation of a natural number, without leading zeros.
pub open spec fn decimal(x: nat) -> Seq<char>
    decreases x,
{
    if x < 10 {
        seq![digit_char(x)]
    } else {
        decimal(x / 10).push(digit_char(x % 10))
    }
}

/// The decimal representation of an integer, with a leading `-` when negative.
pub open spec fn signed_decimal(x: int) -> Seq<char> {
    if x < 0 {
        seq!['-'] + decimal((-x) as nat)
    } else {
        decimal(x as nat)
    }
}

fn digit_str(d: u64) -> (r: &'static str)
    requires
        d < 10,
    ensures
        r@ == seq![digit_char(d as nat)],
{
    if d == 0 {
        proof { reveal_strlit("0"); }
        "0"
    } else if d == 1 {
        proof { reveal_strlit("1"); }
        "1"
    } else if d == 2 {
        proof { reveal_strlit("2"); }
        "2"
    } else if d == 3 {
        proof { reveal_strlit("3"); }
        "3"
    } else if d == 4 {
        proof { reveal_strlit("4"); }
        "4"
    } else if d == 5 {
        proof { reveal_strlit("5"); }
        "5"
    } else if d == 6 {
        proof { reveal_strlit("6"); }
        "6"
    } else if d == 7 {
        proof { reveal_strlit("7"); }
        "7"
    } else if d == 8 {
        proof { reveal_strlit("8"); }
        "8"
    } else {
        proof { reveal_strlit("9"); }
        "9"
    }
}

/// Append the decimal representation of `x` to `s`.
pub fn push_decimal(s: &mut String, x: u64)
    ensures
        final(s)@ == old(s)@ + decimal(x as nat),
    decreases x,
{
    if x >= 10 {
        push_decimal(s, x / 10);
    }
    s.append(digit_str(x % 10));
    proof {
        if x >= 10 {
            assert(old(s)@ + decimal(x as nat) =~= old(s)@ + decimal((x / 10) as nat) + seq![
                digit_char((x % 10) as nat),
            ]);
        }
    }
}

/// Append the decimal representation of `x` to `s`, with a leading `-` when negative.
pub fn push_signed_decimal(s: &mut String, x: i64)
    ensures
        final(s)@ == old(s)@ + signed_decimal(x as int),
{
    if x < 0 {
        proof { reveal_strlit("-"); }
        s.append("-");
        let magnitude: u64 = if x == i64::MIN {
            0x8000_0000_0000_0000u64
        } else {
            (-x) as u64
        };
        push_decimal(s, magnitude);
        assert(final(s)@ =~= old(s)@ + signed_decimal(x as int));
    } else {
        push_decimal(s, x as u64);
    }
}

/// The characters of `text`.
pub fn chars_of(text: &str) -> (r: Vec<char>)
    ensures
        r@ == text@,
{
    let mut out: Vec<char> = Vec::new();
    let mut chars = text.chars();
    let ghost mut done: int = 0;
    proof {
        assert(text@.skip(0) =~= text@);
    }
    loop
        invariant
            0 <= done <= text@.len(),
            chars.remaining() == text@.skip(done),
            out@ == text@.take(done),
        ensures
            out@ == text@,
        decreases text@.len() - done,
    {
        match chars.next() {
            None => {
                proof {
                    assert(text@.skip(done).len() == 0);
                    assert(text@.take(done) =~= text@);
                }
                break;
            },
            Some(c) => {
                proof {
                    assert(c == text@[done]);
                    assert(text@.skip(done).drop_first() =~= text@.skip(done + 1));
                    assert(text@.take(done + 1) =~= text@.take(done).push(c));
                }
                out.push(c);
                proof {
                    done = done + 1;
                }
            },
        }
    }
    out
}

/// `s` with every occurrence of the non-empty `pat` replaced by `rep`, the occurrences found
/// from left to right without overlapping.
pub open spec fn replaced(s: Seq<char>, pat: Seq<char>, rep: Seq<char>) -> Seq<char>
    decreases s.len(),
{
    if pat.len() == 0 || s.len() < pat.len() {
        s
    } else if s.take(pat.len() as int) == pat {
        rep + replaced(s.skip(pat.len() as int), pat, rep)
    } else {
        seq![s[0]] + replaced(s.skip(1), pat, rep)
    }
}

/// Whether `pat` occurs in `cs` at position `i`.
fn occurs_at(cs: &Vec<char>, pat: &Vec<char>, i: usize) -> (r: bool)
    requires
        i + pat@.len() <= cs@.len(),
    ensures
        r == (cs@.skip(i as int).take(pat@.len() as int) == pat@),
{
    let n = cs.len();
    let mut k: usize = 0;
    while k < pat.len()
        invariant
            k <= pat@.len(),
            n == cs@.len(),
            i + pat@.len() <= cs@.len(),
            forall|j: int| 0 <= j < k ==> cs@[i + j] == pat@[j],
        decreases pat@.len() - k,
    {
        if cs[i + k] != pat[k] {
            proof {
                assert(cs@.skip(i as int).take(pat@.len() as int)[k as int] != pat@[k as int]);
            }
            return false;
        }
        k = k + 1;
    }
    proof {
        assert(cs@.skip(i as int).take(pat@.len() as int) =~= pat@);
    }
    true
}

/// Replace every occurrence of the non-empty `pat` in `s` by `rep` (see [`replaced`]).
pub fn replace_all(s: &str, pat: &str, rep: &str) -> (r: String)
    requires
        pat@.len() > 0,
    ensures
        r@ == replaced(s@, pat@, rep@),
{
    let cs = chars_of(s);
    let ps = chars_of(pat);
    let ghost whole = replaced(s@, pat@, rep@);
    let plen = ps.len();
    let mut out = String::new();
    let mut start: usize = 0;
    let mut i: usize = 0;
    proof {
        assert(s@.skip(0) =~= s@);
        assert(s@.subrange(0, 0) =~= Seq::<char>::empty());
    }
    while plen <= cs.len() - i
        invariant
            cs@ == s@,
            ps@ == pat@,
            plen == pat@.len(),
            plen > 0,
            start <= i <= cs@.len(),
            whole == replaced(s@, pat@, rep@),
            out@ + s@.subrange(start as int, i as int) + replaced(s@.skip(i as int), pat@, rep@)
                == whole,
        decreases cs@.len() - i,
    {
        let ghost t = s@.skip(i as int);
        if occurs_at(&cs, &ps, i) {
            proof {
                assert(t.take(plen as int) == pat@);
                assert(t.skip(plen as int) =~= s@.skip(i + plen));
            }
            let pending = s.substring_char(start, i);
            out.append(pending);
            out.append(rep);
            i = i + plen;
            start = i;
            proof {
                assert(s@.subrange(start as int, i as int) =~= Seq::<char>::empty());
                assert(out@ + s@.subrange(start as int, i as int) + replaced(
                    s@.skip(i as int),
                    pat@,
                    rep@,
                ) =~= whole);
            }
        } else {
            proof {
                assert(t.skip(1) =~= s@.skip(i + 1));
                assert(t[0] == s@[i as int]);
                assert(s@.subrange(start as int, i + 1) =~= s@.subrange(start as int, i as int)
                    + seq![s@[i as int]]);
                assert(out@ + s@.subrange(start as int, i + 1) + replaced(
                    s@.skip(i + 1),
                    pat@,
                    rep@,
                ) =~= whole);
            }
            i = i + 1;
        }
    }
    proof {
        assert(replaced(s@.skip(i as int), pat@, rep@) == s@.skip(i as int));
        assert(s@.subrange(start as int, i as int) + s@.skip(i as int) =~= s@.subrange(
            start as int,
            s@.len() as int,
        ));
    }
    let rest = s.substring_char(start, cs.len());
    out.append(rest);
    out
}

} // verus!
