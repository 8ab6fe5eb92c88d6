//! Decimal numerals for option values, read the way std's `FromStr` for
//! `usize` and `isize` reads them: an optional sign, then one or more ASCII
//! digits, with a value that fits the type.
use vstd::prelude::*;

verus! {

pub open spec fn is_digit(c: char) -> bool {
    '0' <= c && c <= '9'
}

pub open spec fn digit_value(c: char) -> int {
    c as int - '0' as int
}

pub open spec fn all_digits(s: Seq<char>) -> bool {
    forall|i: int| 0 <= i < s.len() ==> is_digit(#[trigger] s[i])
}

/// Value of a string of digits, most significant first.
pub open spec fn digits_value(s: Seq<char>) -> int
    decreases s.len(),
{
    if s.len() == 0 {
        0
    } else {
        digits_value(s.drop_last()) * 10 + digit_value(s.last())
    }
}

/// One or more digits and nothing else.
pub open spec fn is_numeral(s: Seq<char>) -> bool {
    s.len() > 0 && all_digits(s)
}

/// The text with one leading `+` taken off, if it has one.
pub open spec fn without_plus(s: Seq<char>) -> Seq<char> {
    if s.len() > 0 && s[0] == '+' {
        s.drop_first()
    } else {
        s
    }
}

/// The unsigned integer that `s` denotes, if any.
pub open spec fn usize_of(s: Seq<char>) -> Option<usize> {
    let body = without_plus(s);
    if is_numeral(body) && digits_value(body) <= usize::MAX {
        Some(digits_value(body) as usize)
    } else {
        None
    }
}

/// The signed integer that `s` denotes, if any.
pub open spec fn isize_of(s: Seq<char>) -> Option<isize> {
    if s.len() > 0 && s[0] == '-' {
        let body = s.drop_first();
        if is_numeral(body) && digits_value(body) <= isize::MAX + 1 {
            Some((-digits_value(body)) as isize)
        } else {
            None
        }
    } else {
        let body = without_plus(s);
        if is_numeral(body) && digits_value(body) <= isize::MAX {
            Some(digits_value(body) as isize)
        } else {
            None
        }
    }
}

proof fn lemma_digits_value_nonneg(s: Seq<char>)
    requires
        all_digits(s),
    ensures
        digits_value(s) >= 0,
    decreases s.len(),
{
    if s.len() > 0 {
        assert(is_digit(s[s.len() - 1]));
        lemma_digits_value_nonneg(s.drop_last());
    }
}

/// Reads the digits of `s` from position `start` to its end. `Some` holds
/// their value when they are all digits, at least one, and the value is at
/// most `limit`.
fn read_digits(s: &str, start: usize, limit: usize) -> (r: Option<usize>)
    requires
        start <= s@.len(),
    ensures
        ({
            let body = s@.subrange(start as int, s@.len() as int);
            r == if is_numeral(body) && digits_value(body) <= limit {
                Some(digits_value(body) as usize)
            } else {
                None
            }
        }),
        r is Some ==> r->0 as int == digits_value(s@.subrange(start as int, s@.len() as int)),
{
    let n = s.unicode_len();
    if start == n {
        return None;
    }
    let mut acc: usize = 0;
    let mut over: bool = false;
    let mut i: usize = start;
    while i < n
        invariant
            start <= i <= n,
            n == s@.len(),
            all_digits(s@.subrange(start as int, i as int)),
            !over ==> acc == digits_value(s@.subrange(start as int, i as int)) && acc <= limit,
            over ==> digits_value(s@.subrange(start as int, i as int)) > limit,
        decreases n - i,
    {
        let c = s.get_char(i);
        let ghost prev = s@.subrange(start as int, i as int);
        let ghost next = s@.subrange(start as int, i + 1);
        assert(next.drop_last() =~= prev);
        if c < '0' || c > '9' {
            assert(!all_digits(s@.subrange(start as int, s@.len() as int))) by {
                assert(s@.subrange(start as int, s@.len() as int)[i - start] == c);
            }
            return None;
        }
        let d: usize = (c as u32 - '0' as u32) as usize;
        assert(all_digits(next)) by {
            assert forall|k: int| 0 <= k < next.len() implies is_digit(#[trigger] next[k]) by {
                if k < prev.len() {
                    assert(next[k] == prev[k]);
                }
            }
        }
        proof {
            lemma_digits_value_nonneg(prev);
        }
        if !over {
            if d > limit || acc > (limit - d) / 10 {
                over = true;
                assert(digits_value(next) > limit) by (nonlinear_arith)
                    requires
                        digits_value(next) == acc * 10 + d,
                        acc > (limit - d) / 10 || d > limit,
                        d >= 0,
                        acc >= 0,
                ;
            } else {
                assert(acc * 10 + d <= limit) by (nonlinear_arith)
                    requires
                        acc <= (limit - d) / 10,
                        d <= limit,
                        acc >= 0,
                ;
                acc = acc * 10 + d;
            }
        } else {
            assert(digits_value(next) > limit) by (nonlinear_arith)
                requires
                    digits_value(next) == digits_value(prev) * 10 + (next.last() as int - '0' as int),
                    digits_value(prev) > limit,
                    is_digit(next.last()),
                    limit >= 0,
            ;
        }
        i = i + 1;
    }
    assert(s@.subrange(start as int, n as int).len() > 0);
    proof {
        lemma_digits_value_nonneg(s@.subrange(start as int, n as int));
    }
    if over {
        None
    } else {
        Some(acc)
    }
}

/// Integer types that an option value can be read into.
pub trait DecimalInt: Sized {
    /// The value that the text denotes, if it is a valid numeral of the type.
    spec fn spec_from_decimal(s: Seq<char>) -> Option<Self>;

    fn from_decimal(s: &str) -> (r: Option<Self>)
        ensures
            r == Self::spec_from_decimal(s@),
    ;
}

impl DecimalInt for usize {
    open spec fn spec_from_decimal(s: Seq<char>) -> Option<usize> {
        usize_of(s)
    }

    fn from_decimal(s: &str) -> (r: Option<usize>) {
        let n = s.unicode_len();
        let start: usize = if n > 0 && s.get_char(0) == '+' { 1 } else { 0 };
        let r = read_digits(s, start, usize::MAX);
        assert(s@.subrange(start as int, s@.len() as int) =~= without_plus(s@));
        r
    }
}

impl DecimalInt for isize {
    open spec fn spec_from_decimal(s: Seq<char>) -> Option<isize> {
        isize_of(s)
    }

    fn from_decimal(s: &str) -> (r: Option<isize>) {
        let n = s.unicode_len();
        if n > 0 && s.get_char(0) == '-' {
            let limit: usize = isize::MAX as usize + 1;
            let r = read_digits(s, 1, limit);
            let ghost body = s@.drop_first();
            assert(s@.subrange(1, s@.len() as int) =~= body);
            match r {
                Some(m) => {
                    assert(m as int == digits_value(body) && m <= limit);
                    if m == limit {
                        Some(isize::MIN)
                    } else {
                        Some(-(m as isize))
                    }
                },
                None => None,
            }
        } else {
            let start: usize = if n > 0 && s.get_char(0) == '+' { 1 } else { 0 };
            let r = read_digits(s, start, isize::MAX as usize);
            let ghost body = without_plus(s@);
            assert(s@.subrange(start as int, s@.len() as int) =~= body);
            match r {
                Some(m) => {
                    assert(m as int == digits_value(body) && m <= isize::MAX);
                    Some(m as isize)
                },
                None => None,
            }
        }
    }
}

} // verus!
