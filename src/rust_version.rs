//! The minimum toolchain version: a version of one to three numbers,
//! without a pre-release or build suffix.

use vstd::prelude::*;

use crate::value::{all_digits, digits_value, nat_text, nat_to_text, ConfigValue, DecodeError};

verus! {

/// The message for a text that is not a minimum toolchain version.
pub const RUST_VERSION_EXPECTING: &'static str =
    "expected a version like \"1.32\", without a pre-release or build suffix";

/// A minimum toolchain version such as `1`, `1.32` or `1.32.0`.
#[derive(Debug, Clone, Copy, PartialEq, Eq, Structural, PartialOrd, Ord, Hash)]
pub struct RustVersion {
    pub major: u64,
    pub minor: Option<u64>,
    pub patch: Option<u64>,
}

/// The parts of a text between its dots.
pub open spec fn split_dots(s: Seq<char>) -> Seq<Seq<char>>
    decreases s.len(),
{
    if s.len() == 0 {
        seq![Seq::empty()]
    } else {
        let p = split_dots(s.drop_last());
        if s.last() == '.' {
            p.push(Seq::empty())
        } else {
            p.update(p.len() - 1, p.last().push(s.last()))
        }
    }
}

/// A version number: digits without a leading zero, that fit in 64 bits.
pub open spec fn is_number(s: Seq<char>) -> bool {
    s.len() > 0 && all_digits(s) && (s.len() == 1 || s[0] != '0') && digits_value(s) <= u64::MAX
}

/// The text is one to three numbers joined by dots.
pub open spec fn rust_version_ok(s: Seq<char>) -> bool {
    let p = split_dots(s);
    1 <= p.len() <= 3 && forall|i: int| 0 <= i < p.len() ==> is_number(#[trigger] p[i])
}

/// The version that a valid text denotes.
pub open spec fn rust_version_of(s: Seq<char>) -> RustVersion {
    let p = split_dots(s);
    RustVersion {
        major: digits_value(p[0]) as u64,
        minor: if p.len() > 1 {
            Some(digits_value(p[1]) as u64)
        } else {
            None
        },
        patch: if p.len() > 2 {
            Some(digits_value(p[2]) as u64)
        } else {
            None
        },
    }
}

proof fn lemma_split_dots_len(s: Seq<char>)
    ensures
        split_dots(s).len() >= 1,
    decreases s.len(),
{
    if s.len() > 0 {
        lemma_split_dots_len(s.drop_last());
    }
}

impl RustVersion {
    /// Parses a minimum toolchain version; a pre-release or build suffix,
    /// or anything but one to three numbers joined by dots, is refused.
    pub fn parse(s: &str) -> (r: Result<RustVersion, DecodeError>)
        ensures
            r is Ok <==> rust_version_ok(s@),
            r is Ok ==> r->Ok_0 == rust_version_of(s@),
            r is Err ==> (r->Err_0 matches DecodeError::InvalidVersionFormat(m) && m@
                == RUST_VERSION_EXPECTING@),
    {
        let n = s.unicode_len();
        // Numbers of the parts that are complete.
        let mut values: Vec<u64> = Vec::new();
        let mut good = true;
        // The part being read.
        let mut cur_val: u64 = 0;
        let mut cur_len: usize = 0;
        let mut cur_digits = true;
        let mut cur_over = false;
        let mut cur_first: char = ' ';
        let mut i: usize = 0;
        while i < n
            invariant
                n == s@.len(),
                0 <= i <= n,
                values@.len() + 1 == split_dots(s@.subrange(0, i as int)).len(),
                good <==> forall|j: int|
                    0 <= j < values@.len() ==> is_number(#[trigger] split_dots(s@.subrange(0, i as int))[j]),
                good ==> forall|j: int|
                    0 <= j < values@.len() ==> #[trigger] values@[j] == digits_value(split_dots(s@.subrange(0, i as int))[j]),
                cur_len <= i,
                cur_len == split_dots(s@.subrange(0, i as int)).last().len(),
                cur_digits == all_digits(split_dots(s@.subrange(0, i as int)).last()),
                cur_len > 0 ==> cur_first == split_dots(s@.subrange(0, i as int)).last()[0],
                cur_digits && !cur_over ==> cur_val == digits_value(split_dots(s@.subrange(0, i as int)).last()),
                cur_digits && cur_over ==> digits_value(split_dots(s@.subrange(0, i as int)).last()) > u64::MAX,
            decreases n - i,
        {
            let c = s.get_char(i);
            let ghost pre = s@.subrange(0, i as int);
            let ghost p = split_dots(pre);
            proof {
                lemma_split_dots_len(pre);
                assert(s@.subrange(0, i + 1).drop_last() =~= pre);
            }
            if c == '.' {
                let complete = cur_len > 0 && cur_digits && !cur_over && (cur_len == 1 || cur_first != '0');
                proof {
                    let q = split_dots(s@.subrange(0, i + 1));
                    assert(q == p.push(Seq::empty()));
                    assert(complete ==> is_number(p.last()));
                    if cur_digits && cur_over {
                        assert(!is_number(p.last()));
                    }
                    assert(!complete ==> !is_number(p.last()));
                }
                values.push(if complete { cur_val } else { 0 });
                good = good && complete;
                cur_val = 0;
                cur_len = 0;
                cur_digits = true;
                cur_over = false;
                proof {
                    let q = split_dots(s@.subrange(0, i + 1));
                    assert forall|j: int| 0 <= j < values@.len() - 1 implies q[j] == p[j] by {}
                    assert(q[values@.len() - 1] == p.last());
                    assert(q.last() =~= Seq::<char>::empty());
                    assert(all_digits(q.last()));
                }
            } else {
                let ghost last = p.last();
                proof {
                    let q = split_dots(s@.subrange(0, i + 1));
                    assert(q == p.update(p.len() - 1, last.push(c)));
                    assert(q.last() == last.push(c));
                    assert(last.push(c).drop_last() =~= last);
                    assert forall|j: int| 0 <= j < values@.len() implies q[j] == p[j] by {}
                }
                if cur_len == 0 {
                    cur_first = c;
                }
                let is_digit = '0' <= c && c <= '9';
                if cur_digits && is_digit {
                    if !cur_over {
                        let d = (c as u32 - '0' as u32) as u64;
                        if cur_val <= (u64::MAX - d) / 10 {
                            assert(cur_val * 10 + d <= u64::MAX) by (nonlinear_arith)
                                requires cur_val <= (u64::MAX - d) / 10, d <= 9;
                            cur_val = cur_val * 10 + d;
                        } else {
                            assert(cur_val * 10 + d > u64::MAX) by (nonlinear_arith)
                                requires cur_val > (u64::MAX - d) / 10, d <= 9;
                            cur_over = true;
                        }
                    } else {
                        assert(digits_value(last.push(c)) >= digits_value(last)) by (nonlinear_arith)
                            requires
                                digits_value(last.push(c)) == digits_value(last) * 10 + (c as int - '0' as int),
                                digits_value(last) >= 0,
                                '0' <= c;
                    }
                } else {
                    cur_digits = false;
                    proof {
                        assert(!all_digits(last.push(c)) ) by {
                            if !is_digit {
                                assert(last.push(c)[last.len() as int] == c);
                            } else {
                                let k = choose|k: int| 0 <= k < last.len() && !('0' <= last[k] && last[k] <= '9');
                                assert(last.push(c)[k] == last[k]);
                            }
                        }
                    }
                }
                cur_len = cur_len + 1;
                proof {
                    let q = split_dots(s@.subrange(0, i + 1));
                    if cur_digits {
                        assert forall|k: int| 0 <= k < q.last().len() implies '0' <= #[trigger] q.last()[k] && q.last()[k] <= '9' by {
                            if k < last.len() {
                                assert(q.last()[k] == last[k]);
                            }
                        }
                    }
                    assert(q.last()[0] == if last.len() > 0 { last[0] } else { c });
                }
            }
            i = i + 1;
        }
        proof {
            assert(s@.subrange(0, n as int) =~= s@);
            lemma_split_dots_len(s@);
        }
        let last_ok = cur_len > 0 && cur_digits && !cur_over && (cur_len == 1 || cur_first != '0');
        proof {
            let p = split_dots(s@);
            assert(last_ok <==> is_number(p.last()));
        }
        if !good || !last_ok || values.len() > 2 {
            proof {
                let p = split_dots(s@);
                if !good {
                    let j = choose|j: int| 0 <= j < values@.len() && !is_number(#[trigger] split_dots(s@)[j]);
                    assert(!is_number(p[j]));
                }
                if !last_ok {
                    assert(!is_number(p[p.len() - 1]));
                }
            }
            return Err(DecodeError::InvalidVersionFormat(RUST_VERSION_EXPECTING.to_string()));
        }
        proof {
            let p = split_dots(s@);
            assert forall|j: int| 0 <= j < p.len() implies is_number(#[trigger] p[j]) by {
                if j < values@.len() {
                } else {
                    assert(j == p.len() - 1);
                }
            }
        }
        let major = if values.len() > 0 { values[0] } else { cur_val };
        let minor = if values.len() > 1 {
            Some(values[1])
        } else if values.len() == 1 {
            Some(cur_val)
        } else {
            None
        };
        let patch = if values.len() == 2 { Some(cur_val) } else { None };
        Ok(RustVersion { major, minor, patch })
    }

    /// Decodes a minimum toolchain version from a string.
    pub fn decode(v: &ConfigValue) -> (r: Result<RustVersion, DecodeError>)
        ensures
            r is Ok <==> (v matches ConfigValue::Str(s) && rust_version_ok(s@)),
            r is Ok ==> r->Ok_0 == rust_version_of(v->Str_0@),
            r is Err ==> (match *v {
                ConfigValue::Str(_) => (r->Err_0 matches DecodeError::InvalidVersionFormat(m) && m@
                    == RUST_VERSION_EXPECTING@),
                _ => (r->Err_0 matches DecodeError::ShapeMismatch(m) && m@ == "SemVer version"@),
            }),
    {
        match v {
            ConfigValue::Str(s) => RustVersion::parse(s.as_str()),
            _ => Err(crate::value::shape_error("SemVer version")),
        }
    }
}

/// The text of a version: its numbers joined by dots.
pub open spec fn rust_version_text(v: RustVersion) -> Seq<char> {
    nat_text(v.major as nat) + match v.minor {
        Some(m) => "."@ + nat_text(m as nat) + match v.patch {
            Some(p) => "."@ + nat_text(p as nat),
            None => Seq::empty(),
        },
        None => Seq::empty(),
    }
}

impl RustVersion {
    /// The version as text, such as `1.32`.
    pub fn to_text(&self) -> (r: String)
        ensures
            r@ == rust_version_text(*self),
    {
        let r = nat_to_text(self.major);
        match self.minor {
            Some(m) => {
                let r = r.concat(".");
                let r = r.concat(nat_to_text(m).as_str());
                match self.patch {
                    Some(p) => {
                        let r = r.concat(".");
                        let r2 = r.concat(nat_to_text(p).as_str());
                        assert(r2@ =~= rust_version_text(*self));
                        r2
                    },
                    None => {
                        assert(r@ =~= rust_version_text(*self));
                        r
                    },
                }
            },
            None => {
                assert(r@ =~= rust_version_text(*self));
                r
            },
        }
    }
}

impl RustVersion {
    /// Encodes the version as its text.
    pub fn encode(&self) -> (r: ConfigValue)
        ensures
            r matches ConfigValue::Str(s) && s@ == rust_version_text(*self),
    {
        ConfigValue::Str(self.to_text())
    }
}

} // verus!
