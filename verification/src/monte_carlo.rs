//! Sampling qualities for Monte Carlo simulations and plots of orbitals.
use vstd::prelude::*;
use vstd::string::*;
use crate::utils::chars_of;

verus! {

/// A set of predefined qualities (i.e., number of points computed) for sampling orbitals, either
/// for Monte Carlo simulations or plotting.
///
/// These values have been empirically observed to produce reasonable results.
#[derive(Clone, Copy, PartialEq, Eq, Debug, Structural)]
pub enum Quality {
    Minimum,
    Low,
    Medium,
    High,
    VeryHigh,
    Extreme,
}

/// The number of points of each quality: `2^12` for [`Quality::Minimum`], doubling at each
/// step up to `2^17` for [`Quality::Extreme`].
pub open spec fn quality_points(q: Quality) -> nat {
    match q {
        Quality::Minimum => 4096,
        Quality::Low => 8192,
        Quality::Medium => 16384,
        Quality::High => 32768,
        Quality::VeryHigh => 65536,
        Quality::Extreme => 131072,
    }
}

/// `g = ⌊(3/4)·√q⌋`, stated exactly on integers: `(4g)^2 <= 9q < (4(g+1))^2`.
pub open spec fn is_grid_base(g: nat, q: nat) -> bool {
    16 * g * g <= 9 * q < 16 * (g + 1) * (g + 1)
}

/// `c = ⌊∛(4q)⌋`, stated exactly on integers: `c^3 <= 4q < (c+1)^3`.
pub open spec fn is_isosurface_base(c: nat, q: nat) -> bool {
    c * c * c <= 4 * q < (c + 1) * (c + 1) * (c + 1)
}

/// The odd number among `x` and `x + 1`.
pub open spec fn make_odd(x: nat) -> nat {
    if x % 2 == 0 {
        x + 1
    } else {
        x
    }
}

/// The name of the variant.
pub open spec fn quality_name(q: Quality) -> Seq<char> {
    match q {
        Quality::Minimum => seq!['M', 'i', 'n', 'i', 'm', 'u', 'm'],
        Quality::Low => seq!['L', 'o', 'w'],
        Quality::Medium => seq!['M', 'e', 'd', 'i', 'u', 'm'],
        Quality::High => seq!['H', 'i', 'g', 'h'],
        Quality::VeryHigh => seq!['V', 'e', 'r', 'y', 'H', 'i', 'g', 'h'],
        Quality::Extreme => seq!['E', 'x', 't', 'r', 'e', 'm', 'e'],
    }
}

/// The human-readable name: the variant's name, except `"Very high"` for
/// [`Quality::VeryHigh`].
pub open spec fn quality_text(q: Quality) -> Seq<char> {
    match q {
        Quality::VeryHigh => seq!['V', 'e', 'r', 'y', ' ', 'h', 'i', 'g', 'h'],
        _ => quality_name(q),
    }
}

fn odd_at_least(x: usize) -> (r: usize)
    requires
        x < usize::MAX,
    ensures
        r == make_odd(x as nat),
{
    let r = x | 1;
    proof {
        assert(x % 2 == 0 ==> x | 1 == x + 1) by (bit_vector);
        assert(x % 2 == 1 ==> x | 1 == x) by (bit_vector);
    }
    r
}

fn sixteen_times_square(x: usize) -> (r: usize)
    requires
        x <= 301,
    ensures
        r == 16 * x * x,
{
    proof {
        assert(16 * x * x <= 16 * 301 * 301) by (nonlinear_arith)
            requires
                x <= 301,
        ;
    }
    16 * x * x
}

fn cube(x: usize) -> (r: usize)
    requires
        x <= 101,
    ensures
        r == x * x * x,
{
    proof {
        assert(x * x <= 101 * 101) by (nonlinear_arith)
            requires
                x <= 101,
        ;
        assert(x * x * x <= 101 * 101 * 101) by (nonlinear_arith)
            requires
                x <= 101,
        ;
    }
    x * x * x
}

impl Default for Quality {
    fn default() -> (r: Self)
        ensures
            r == Quality::Low,
    {
        Quality::Low
    }
}

impl Quality {
    /// The number of points of this quality.
    pub fn points(self) -> (r: usize)
        ensures
            r == quality_points(self),
    {
        match self {
            Quality::Minimum => 4096,
            Quality::Low => 8192,
            Quality::Medium => 16384,
            Quality::High => 32768,
            Quality::VeryHigh => 65536,
            Quality::Extreme => 131072,
        }
    }

    /// All qualities, from lowest to highest.
    pub fn iter() -> (r: Vec<Quality>)
        ensures
            r@ == seq![
                Quality::Minimum,
                Quality::Low,
                Quality::Medium,
                Quality::High,
                Quality::VeryHigh,
                Quality::Extreme,
            ],
    {
        let r = vec![
            Quality::Minimum,
            Quality::Low,
            Quality::Medium,
            Quality::High,
            Quality::VeryHigh,
            Quality::Extreme,
        ];
        proof {
            assert(r@ =~= seq![
                Quality::Minimum,
                Quality::Low,
                Quality::Medium,
                Quality::High,
                Quality::VeryHigh,
                Quality::Extreme,
            ]);
        }
        r
    }

    /// The name of the variant (ex. `VeryHigh`).
    pub fn to_string(self) -> (r: String)
        ensures
            r@ == quality_name(self),
    {
        let s = match self {
            Quality::Minimum => {
                proof {
                    reveal_strlit("Minimum");
                }
                "Minimum"
            },
            Quality::Low => {
                proof {
                    reveal_strlit("Low");
                }
                "Low"
            },
            Quality::Medium => {
                proof {
                    reveal_strlit("Medium");
                }
                "Medium"
            },
            Quality::High => {
                proof {
                    reveal_strlit("High");
                }
                "High"
            },
            Quality::VeryHigh => {
                proof {
                    reveal_strlit("VeryHigh");
                }
                "VeryHigh"
            },
            Quality::Extreme => {
                proof {
                    reveal_strlit("Extreme");
                }
                "Extreme"
            },
        };
        String::from_str(s)
    }

    /// The human-readable name of the quality (ex. `Very high`).
    pub fn to_text(self) -> (r: String)
        ensures
            r@ == quality_text(self),
    {
        match self {
            Quality::VeryHigh => {
                proof {
                    reveal_strlit("Very high");
                }
                String::from_str("Very high")
            },
            quality => quality.to_string(),
        }
    }

    /// Get the number of points that should be sampled for a plane/cross-section plot:
    /// `⌊(3/4)·√points⌋`, made odd.
    pub fn for_grid(self) -> (r: usize)
        ensures
            exists|g: nat| is_grid_base(g, quality_points(self)) && r == make_odd(g),
            r % 2 == 1,
    {
        let q = self.points();
        let mut g: usize = 0;
        while sixteen_times_square(g + 1) <= 9 * q
            invariant
                q == quality_points(self),
                q <= 131072,
                16 * g * g <= 9 * q,
                g <= 300,
            decreases 300 - g,
        {
            proof {
                assert(g * g < (g + 1) * (g + 1)) by (nonlinear_arith);
                assert(g + 1 <= 300) by (nonlinear_arith)
                    requires
                        16 * (g + 1) * (g + 1) <= 9 * q,
                        q <= 131072,
                ;
            }
            g = g + 1;
        }
        proof {
            assert(is_grid_base(g as nat, q as nat));
        }
        odd_at_least(g)
    }

    /// Get the number of points that should be sampled for an isosurface plot:
    /// `⌊∛(4·points)⌋`, made odd.
    pub fn for_isosurface(self) -> (r: usize)
        ensures
            exists|c: nat| is_isosurface_base(c, quality_points(self)) && r == make_odd(c),
            r % 2 == 1,
    {
        let q = self.points();
        let mut c: usize = 0;
        while cube(c + 1) <= 4 * q
            invariant
                q == quality_points(self),
                q <= 131072,
                c * c * c <= 4 * q,
                c <= 100,
            decreases 100 - c,
        {
            proof {
                assert(c * c * c < (c + 1) * (c + 1) * (c + 1)) by (nonlinear_arith);
                assert(c + 1 <= 100) by (nonlinear_arith)
                    requires
                        (c + 1) * (c + 1) * (c + 1) <= 4 * q,
                        q <= 131072,
                ;
            }
            c = c + 1;
        }
        proof {
            assert(is_isosurface_base(c as nat, q as nat));
        }
        odd_at_least(c)
    }
}

/// Error type for a text that names no [`Quality`].
#[derive(Clone, Copy, PartialEq, Eq, Debug, Structural)]
pub struct ParseQualityError;

/// Whether the characters `a` are those of `b`.
fn same_chars(a: &Vec<char>, b: &str) -> (r: bool)
    ensures
        r == (a@ == b@),
{
    let bs = chars_of(b);
    if a.len() != bs.len() {
        return false;
    }
    let mut i: usize = 0;
    while i < a.len()
        invariant
            i <= a@.len(),
            a@.len() == bs@.len(),
            bs@ == b@,
            forall|j: int| 0 <= j < i ==> a@[j] == bs@[j],
        decreases a@.len() - i,
    {
        if a[i] != bs[i] {
            return false;
        }
        i = i + 1;
    }
    proof {
        assert(a@ =~= bs@);
    }
    true
}

impl Quality {
    /// The quality whose variant is named `s` (ex. `VeryHigh`), or `None` when `s` names none.
    pub fn from_name(s: &str) -> (r: Option<Quality>)
        ensures
            match r {
                Some(q) => quality_name(q) == s@,
                None => forall|q: Quality| quality_name(q) != s@,
            },
    {
        let cs = chars_of(s);
        proof {
            reveal_strlit("Minimum");
            reveal_strlit("Low");
            reveal_strlit("Medium");
            reveal_strlit("High");
            reveal_strlit("VeryHigh");
            reveal_strlit("Extreme");
            assert("Minimum"@ =~= quality_name(Quality::Minimum));
            assert("Low"@ =~= quality_name(Quality::Low));
            assert("Medium"@ =~= quality_name(Quality::Medium));
            assert("High"@ =~= quality_name(Quality::High));
            assert("VeryHigh"@ =~= quality_name(Quality::VeryHigh));
            assert("Extreme"@ =~= quality_name(Quality::Extreme));
        }
        if same_chars(&cs, "Minimum") {
            Some(Quality::Minimum)
        } else if same_chars(&cs, "Low") {
            Some(Quality::Low)
        } else if same_chars(&cs, "Medium") {
            Some(Quality::Medium)
        } else if same_chars(&cs, "High") {
            Some(Quality::High)
        } else if same_chars(&cs, "VeryHigh") {
            Some(Quality::VeryHigh)
        } else if same_chars(&cs, "Extreme") {
            Some(Quality::Extreme)
        } else {
            proof {
                assert forall|q: Quality| quality_name(q) != s@ by {
                    match q {
                        Quality::Minimum => {},
                        Quality::Low => {},
                        Quality::Medium => {},
                        Quality::High => {},
                        Quality::VeryHigh => {},
                        Quality::Extreme => {},
                    }
                }
            }
            None
        }
    }
}

impl std::str::FromStr for Quality {
    type Err = ParseQualityError;

    /// The quality whose variant is named `s` (see [`Quality::from_name`]).
    fn from_str(s: &str) -> Result<Quality, ParseQualityError> {
        match Quality::from_name(s) {
            Some(q) => Ok(q),
            None => Err(ParseQualityError),
        }
    }
}

} // verus!
