use vstd::prelude::*;
use vstd::string::*;

verus! {

pub open spec fn is_digit(c: char) -> bool {
    '0' <= c <= '9'
}

pub open spec fn digit_value(c: char) -> nat {
    (c as nat - '0' as nat) as nat
}

/// The number that decimal digits stand for.
pub open spec fn decimal_value(digits: Seq<char>) -> nat
    decreases digits.len(),
{
    if digits.len() == 0 {
        0
    } else {
        decimal_value(digits.drop_last()) * 10 + digit_value(digits.last())
    }
}

pub open spec fn all_digits(digits: Seq<char>) -> bool {
    forall|i: int| 0 <= i < digits.len() ==> is_digit(#[trigger] digits[i])
}

/// The count that a setting stands for: decimal digits, a `+` before them
/// allowed, that give a number from 1 up to the largest count the machine
/// has. Any other text gives none.
pub open spec fn positive_count(text: Seq<char>) -> Option<usize> {
    let digits = if text.len() > 0 && text[0] == '+' {
        text.skip(1)
    } else {
        text
    };
    if digits.len() > 0 && all_digits(digits) && 0 < decimal_value(digits) <= usize::MAX {
        Some(decimal_value(digits) as usize)
    } else {
        None
    }
}

/// The number of workers: what the setting asks for, the number of
/// processors where there is no setting or it gives no count.
pub open spec fn worker_count_of(setting: Option<Seq<char>>, cpus: usize) -> usize {
    match setting {
        Some(text) => match positive_count(text) {
            Some(n) => n,
            None => cpus,
        },
        None => cpus,
    }
}

proof fn decimal_value_grows(digits: Seq<char>, n: int)
    requires
        0 <= n <= digits.len(),
    ensures
        decimal_value(digits.take(n)) <= decimal_value(digits),
    decreases digits.len() - n,
{
    if n == digits.len() {
        assert(digits.take(n) =~= digits);
    } else {
        decimal_value_grows(digits, n + 1);
        assert(digits.take(n + 1).drop_last() =~= digits.take(n));
    }
}

/// Reads a setting as a count.
pub fn parse_positive(text: &str) -> (count: Option<usize>)
    ensures
        count == positive_count(text@),
{
    let len = text.unicode_len();
    let start: usize = if len > 0 && text.get_char(0) == '+' {
        1
    } else {
        0
    };
    let ghost digits = if text@.len() > 0 && text@[0] == '+' {
        text@.skip(1)
    } else {
        text@
    };
    proof {
        assert(digits =~= text@.skip(start as int));
    }
    if start == len {
        return None;
    }
    let mut acc: usize = 0;
    let mut i: usize = start;
    proof {
        assert(digits.take(0) =~= Seq::<char>::empty());
    }
    while i < len
        invariant
            start <= i <= len,
            len == text@.len(),
            digits == text@.skip(start as int),
            digits == if text@.len() > 0 && text@[0] == '+' {
                text@.skip(1)
            } else {
                text@
            },
            all_digits(digits.take(i - start)),
            acc == decimal_value(digits.take(i - start)),
        decreases len - i,
    {
        let c = text.get_char(i);
        if c < '0' || c > '9' {
            proof {
                assert(digits[i - start] == c);
            }
            return None;
        }
        let d: usize = (c as u32 - '0' as u32) as usize;
        let ghost seen = digits.take(i - start);
        let ghost more = digits.take(i - start + 1);
        proof {
            assert(more.drop_last() =~= seen);
            assert(more.last() == c);
            assert(d == digit_value(c));
            assert(decimal_value(more) == acc * 10 + d);
        }
        if acc > (usize::MAX - d) / 10 {
            proof {
                decimal_value_grows(digits, i - start + 1);
                assert(acc * 10 + d > usize::MAX);
            }
            return None;
        }
        acc = acc * 10 + d;
        proof {
            assert forall|j: int| 0 <= j < more.len() implies is_digit(#[trigger] more[j]) by {
                if j < i - start {
                    assert(seen[j] == more[j]);
                }
            }
        }
        i += 1;
    }
    proof {
        assert(digits.take(len - start) =~= digits);
    }
    if acc == 0 {
        None
    } else {
        Some(acc)
    }
}

/// Picks the number of workers from the setting and the number of
/// processors.
pub fn worker_count(setting: Option<&str>, cpus: usize) -> (n: usize)
    ensures
        n == worker_count_of(
            match setting {
                Some(text) => Some(text@),
                None => None,
            },
            cpus,
        ),
{
    match setting {
        Some(text) => match parse_positive(text) {
            Some(n) => n,
            None => cpus,
        },
        None => cpus,
    }
}

/// Asks `num_cpus::get` for the number of logical processors.
///
/// Trusted: the number is never 0, as the crate documents. It depends on the
/// machine, so nothing more is said of it.
#[verifier::external_body]
pub(crate) fn logical_cpus() -> (n: usize)
    ensures
        n >= 1,
{
    num_cpus::get()
}

/// A setting never gives the count 0: with `0`, as with a text that is no
/// number, the number of processors is taken.
pub proof fn zero_is_no_count(text: Seq<char>, cpus: usize)
    ensures
        positive_count(text) matches Some(n) ==> n > 0,
        positive_count(text) is None ==> worker_count_of(Some(text), cpus) == cpus,
        positive_count(seq!['0']) is None,
        worker_count_of(None, cpus) == cpus,
{
    let zero = seq!['0'];
    assert(zero.drop_last() =~= Seq::<char>::empty());
    assert(decimal_value(zero.drop_last()) == 0);
    assert(zero.last() == '0');
    assert(decimal_value(zero) == 0);
}

} // verus!
