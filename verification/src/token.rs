//! Parsing a token's text into a typed value.
//!
//! The reader's typed read hands the accumulated token text to
//! [`FromToken::from_token`]. The integer implementations follow the standard
//! textual grammar for Rust's integers: an optional leading sign (`-` only
//! for the signed types), then one or more ASCII digits, and the value must
//! fit the type's range.

use vstd::prelude::*;
use crate::stream::push_char;

verus! {

/// A type whose values can be parsed from a token's text.
///
/// `token_of(text, r)` is the parse relation: it holds exactly when parsing
/// `text` yields `r`. `from_token` decides it.
pub trait FromToken: Sized {
    spec fn token_of(text: Seq<char>, r: Option<Self>) -> bool;

    fn from_token(text: &Vec<char>) -> (r: Option<Self>)
        ensures
            Self::token_of(text@, r),
    ;
}

/// An ASCII decimal digit.
pub open spec fn digit_char(c: char) -> bool {
    48 <= c as int <= 57
}

/// The digit's numeric value.
pub open spec fn digit_of(c: char) -> int {
    c as int - 48
}

/// Whether every character of `s` is an ASCII decimal digit.
pub open spec fn all_digits(s: Seq<char>) -> bool {
    forall|i: int| 0 <= i < s.len() ==> digit_char(#[trigger] s[i])
}

/// The value of a digit string, most significant digit first.
pub open spec fn digits_value(s: Seq<char>) -> int
    decreases s.len(),
{
    if s.len() == 0 {
        0
    } else {
        digits_value(s.drop_last()) * 10 + digit_of(s.last())
    }
}

/// The value of a signed decimal token: an optional `+` or `-`, then one or
/// more digits; anything else has no value.
pub open spec fn int_token_value(s: Seq<char>) -> Option<int> {
    if s.len() == 0 {
        None
    } else {
        let body = if s[0] == '-' || s[0] == '+' {
            s.skip(1)
        } else {
            s
        };
        if body.len() == 0 || !all_digits(body) {
            None
        } else if s[0] == '-' {
            Some(-digits_value(body))
        } else {
            Some(digits_value(body))
        }
    }
}

/// The value of an unsigned decimal token: as the signed one, but `-` is
/// not accepted.
pub open spec fn uint_token_value(s: Seq<char>) -> Option<int> {
    if s.len() == 0 {
        None
    } else {
        let body = if s[0] == '+' {
            s.skip(1)
        } else {
            s
        };
        if body.len() == 0 || !all_digits(body) {
            None
        } else {
            Some(digits_value(body))
        }
    }
}

/// A digit string's value never goes negative.
proof fn lemma_digits_value_nonneg(s: Seq<char>)
    requires
        all_digits(s),
    ensures
        digits_value(s) >= 0,
    decreases s.len(),
{
    if s.len() > 0 {
        assert(all_digits(s.drop_last()));
        lemma_digits_value_nonneg(s.drop_last());
    }
}

/// Extending a digit string never shrinks its value.
proof fn lemma_digits_value_mono(s: Seq<char>, i: int)
    requires
        all_digits(s),
        0 <= i <= s.len(),
    ensures
        digits_value(s.take(i)) <= digits_value(s),
    decreases s.len(),
{
    if i == s.len() {
        assert(s.take(i) =~= s);
    } else {
        assert(all_digits(s.drop_last()));
        assert(s.take(i) =~= s.drop_last().take(i));
        lemma_digits_value_mono(s.drop_last(), i);
        lemma_digits_value_nonneg(s.drop_last());
        assert(digits_value(s.drop_last()) * 10 >= digits_value(s.drop_last()));
    }
}

/// The character's scalar value, as a number.
fn char_code(c: char) -> (r: u32)
    ensures
        r as int == c as int,
{
    c as u32
}

/// Parses `text[from..]` as a run of digits into a magnitude, yielding
/// nothing when the run is empty, holds a non-digit, or exceeds `u64::MAX`.
fn digits_to_u64(text: &Vec<char>, from: usize) -> (r: Option<u64>)
    requires
        from <= text@.len(),
    ensures
        ({
            let body = text@.skip(from as int);
            if body.len() > 0 && all_digits(body) && digits_value(body) <= u64::MAX {
                r matches Some(m) && m == digits_value(body)
            } else {
                r is None
            }
        }),
{
    let ghost body = text@.skip(from as int);
    let n = text.len();
    if from == n {
        return None;
    }
    let mut i = from;
    let mut acc: u64 = 0;
    while i < n
        invariant
            from <= i <= n,
            n == text@.len(),
            body == text@.skip(from as int),
            all_digits(body.take(i - from)),
            acc == digits_value(body.take(i - from)),
        decreases n - i,
    {
        let c = text[i];
        let cv = char_code(c);
        if cv < 48 || cv > 57 {
            proof {
                assert(body[i - from] == text@[i as int]);
                assert(!digit_char(body[i - from]));
            }
            return None;
        }
        let d = (cv - 48) as u64;
        proof {
            assert(body.take(i + 1 - from).drop_last() =~= body.take(i - from));
            assert(body.take(i + 1 - from).last() == text@[i as int]);
        }
        if acc > (u64::MAX - d) / 10 {
            proof {
                let pre = body.take(i + 1 - from);
                assert(acc * 10 + d > u64::MAX) by (nonlinear_arith)
                    requires
                        acc > (u64::MAX - d) / 10,
                        d <= 9,
                ;
                assert(digits_value(pre) > u64::MAX);
                if all_digits(body) {
                    lemma_digits_value_mono(body, i + 1 - from);
                }
            }
            return None;
        }
        proof {
            assert(acc * 10 + d <= u64::MAX) by (nonlinear_arith)
                requires
                    acc <= (u64::MAX - d) / 10,
                    d <= 9,
            ;
        }
        acc = acc * 10 + d;
        i += 1;
    }
    proof {
        assert(body.take(n - from) =~= body);
    }
    Some(acc)
}

impl FromToken for u64 {
    /// Parsing yields the token's value exactly when it is an unsigned
    /// decimal token whose value fits.
    open spec fn token_of(text: Seq<char>, r: Option<u64>) -> bool {
        r == (match uint_token_value(text) {
            Some(v) => if v <= u64::MAX {
                Some(v as u64)
            } else {
                None::<u64>
            },
            None => None::<u64>,
        })
    }

    fn from_token(text: &Vec<char>) -> (r: Option<u64>) {
        if text.len() == 0 {
            return None;
        }
        let from: usize = if text[0] == '+' {
            1
        } else {
            0
        };
        let r = digits_to_u64(text, from);
        proof {
            if from == 0 {
                assert(text@.skip(0) =~= text@);
            }
            let body = text@.skip(from as int);
            if body.len() > 0 && all_digits(body) {
                lemma_digits_value_nonneg(body);
            }
        }
        r
    }
}

impl FromToken for i64 {
    /// Parsing yields the token's value exactly when it is a signed decimal
    /// token whose value fits.
    open spec fn token_of(text: Seq<char>, r: Option<i64>) -> bool {
        r == (match int_token_value(text) {
            Some(v) => if i64::MIN <= v <= i64::MAX {
                Some(v as i64)
            } else {
                None::<i64>
            },
            None => None::<i64>,
        })
    }

    fn from_token(text: &Vec<char>) -> (r: Option<i64>) {
        if text.len() == 0 {
            return None;
        }
        let c0 = text[0];
        let neg = c0 == '-';
        let from: usize = if c0 == '-' || c0 == '+' {
            1
        } else {
            0
        };
        proof {
            if from == 0 {
                assert(text@.skip(0) =~= text@);
            }
            let body = text@.skip(from as int);
            if body.len() > 0 && all_digits(body) {
                lemma_digits_value_nonneg(body);
            }
        }
        let m = match digits_to_u64(text, from) {
            None => {
                return None;
            },
            Some(m) => m,
        };
        if neg {
            if m <= 9223372036854775808u64 {
                if m == 9223372036854775808u64 {
                    Some(i64::MIN)
                } else {
                    Some(-(m as i64))
                }
            } else {
                None
            }
        } else {
            if m <= 9223372036854775807u64 {
                Some(m as i64)
            } else {
                None
            }
        }
    }
}

impl FromToken for u32 {
    /// Parsing yields the token's value exactly when it is an unsigned
    /// decimal token whose value fits.
    open spec fn token_of(text: Seq<char>, r: Option<u32>) -> bool {
        r == (match uint_token_value(text) {
            Some(v) => if v <= u32::MAX {
                Some(v as u32)
            } else {
                None::<u32>
            },
            None => None::<u32>,
        })
    }

    fn from_token(text: &Vec<char>) -> (r: Option<u32>) {
        if text.len() == 0 {
            return None;
        }
        let from: usize = if text[0] == '+' {
            1
        } else {
            0
        };
        proof {
            if from == 0 {
                assert(text@.skip(0) =~= text@);
            }
            let body = text@.skip(from as int);
            if body.len() > 0 && all_digits(body) {
                lemma_digits_value_nonneg(body);
            }
        }
        let m = match digits_to_u64(text, from) {
            None => {
                return None;
            },
            Some(m) => m,
        };
        if m <= 4294967295u64 {
            Some(m as u32)
        } else {
            None
        }
    }
}

impl FromToken for i32 {
    /// Parsing yields the token's value exactly when it is a signed decimal
    /// token whose value fits.
    open spec fn token_of(text: Seq<char>, r: Option<i32>) -> bool {
        r == (match int_token_value(text) {
            Some(v) => if i32::MIN <= v <= i32::MAX {
                Some(v as i32)
            } else {
                None::<i32>
            },
            None => None::<i32>,
        })
    }

    fn from_token(text: &Vec<char>) -> (r: Option<i32>) {
        if text.len() == 0 {
            return None;
        }
        let c0 = text[0];
        let neg = c0 == '-';
        let from: usize = if c0 == '-' || c0 == '+' {
            1
        } else {
            0
        };
        proof {
            if from == 0 {
                assert(text@.skip(0) =~= text@);
            }
            let body = text@.skip(from as int);
            if body.len() > 0 && all_digits(body) {
                lemma_digits_value_nonneg(body);
            }
        }
        let m = match digits_to_u64(text, from) {
            None => {
                return None;
            },
            Some(m) => m,
        };
        if neg {
            if m <= 2147483648u64 {
                if m == 2147483648u64 {
                    Some(i32::MIN)
                } else {
                    Some(-(m as i32))
                }
            } else {
                None
            }
        } else {
            if m <= 2147483647u64 {
                Some(m as i32)
            } else {
                None
            }
        }
    }
}

impl FromToken for String {
    /// Parsing a token as text always succeeds and keeps it as it stands.
    open spec fn token_of(text: Seq<char>, r: Option<String>) -> bool {
        &&& r is Some
        &&& (r matches Some(s) ==> s@ == text)
    }

    fn from_token(text: &Vec<char>) -> (r: Option<String>) {
        let mut s = String::new();
        let mut i: usize = 0;
        while i < text.len()
            invariant
                0 <= i <= text@.len(),
                s@ == text@.take(i as int),
            decreases text@.len() - i,
        {
            push_char(&mut s, text[i]);
            proof {
                assert(text@.take(i + 1) =~= text@.take(i as int).push(text@[i as int]));
            }
            i += 1;
        }
        proof {
            assert(text@.take(text@.len() as int) =~= text@);
        }
        Some(s)
    }
}

impl FromToken for char {
    /// Parsing yields the character exactly when the token is one character
    /// long.
    open spec fn token_of(text: Seq<char>, r: Option<char>) -> bool {
        r == (if text.len() == 1 {
            Some(text[0])
        } else {
            None::<char>
        })
    }

    fn from_token(text: &Vec<char>) -> (r: Option<char>) {
        if text.len() == 1 {
            Some(text[0])
        } else {
            None
        }
    }
}

} // verus!
