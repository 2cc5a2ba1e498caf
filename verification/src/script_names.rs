//! The file names of schema scripts: `<id>_<description>.sql`, where the
//! id is an unsigned number.

use vstd::prelude::*;
use crate::text::characters;

verus! {

/// The number of leading characters of `s` that differ from `stop`: the
/// index of the first `stop`, or the length of `s` where there is none.
pub open spec fn span_before(s: Seq<char>, stop: char) -> int
    decreases s.len(),
{
    if s.len() == 0 || s[0] == stop {
        0
    } else {
        1 + span_before(s.drop_first(), stop)
    }
}

/// Every character is one of the ten decimal digits.
pub open spec fn all_digits(s: Seq<char>) -> bool {
    forall|i: int| 0 <= i < s.len() ==> '0' <= #[trigger] s[i] <= '9'
}

/// The number that a string of decimal digits writes.
pub open spec fn decimal(digits: Seq<char>) -> nat
    decreases digits.len(),
{
    if digits.len() == 0 {
        0
    } else {
        (10 * decimal(digits.drop_last()) + (digits.last() as int - '0' as int)) as nat
    }
}

/// The unsigned 32-bit number that a text writes: an optional plus sign,
/// then one or more decimal digits whose value fits. Anything else writes
/// no number.
pub open spec fn unsigned_of(s: Seq<char>) -> Option<u32> {
    let digits = if s.len() > 0 && s[0] == '+' {
        s.drop_first()
    } else {
        s
    };
    if digits.len() > 0 && all_digits(digits) && decimal(digits) <= u32::MAX {
        Some(decimal(digits) as u32)
    } else {
        None
    }
}

/// The version id that a script's file name declares: the part before the
/// first underscore, read as an unsigned number.
pub open spec fn declared_id(name: Seq<char>) -> Option<u32> {
    unsigned_of(name.take(span_before(name, '_')))
}

/// A file is a script when its name ends in `.sql` and has something
/// before that ending.
pub open spec fn is_script_name(name: Seq<char>) -> bool {
    name.len() > 4 && name.subrange(name.len() - 4, name.len() as int) == seq!['.', 's', 'q', 'l']
}

proof fn lemma_span_before(s: Seq<char>, stop: char)
    ensures
        0 <= span_before(s, stop) <= s.len(),
        forall|i: int| 0 <= i < span_before(s, stop) ==> s[i] != stop,
        span_before(s, stop) < s.len() ==> s[span_before(s, stop)] == stop,
    decreases s.len(),
{
    if s.len() == 0 || s[0] == stop {
    } else {
        lemma_span_before(s.drop_first(), stop);
        assert forall|i: int| 0 <= i < span_before(s, stop) implies s[i] != stop by {
            if i > 0 {
                assert(s.drop_first()[i - 1] == s[i]);
            }
        }
    }
}

proof fn lemma_span_found(s: Seq<char>, stop: char, k: int)
    requires
        0 <= k <= s.len(),
        forall|i: int| 0 <= i < k ==> s[i] != stop,
        k < s.len() ==> s[k] == stop,
    ensures
        span_before(s, stop) == k,
{
    lemma_span_before(s, stop);
    let n = span_before(s, stop);
    if n < k {
        assert(s[n] == stop);
    } else if n > k {
        assert(s[k] != stop);
    }
}

proof fn lemma_decimal_grows(digits: Seq<char>, k: int)
    requires
        all_digits(digits),
        0 <= k <= digits.len(),
    ensures
        decimal(digits.take(k)) <= decimal(digits),
    decreases digits.len() - k,
{
    if k < digits.len() {
        lemma_decimal_grows(digits, k + 1);
        assert(digits.take(k + 1).drop_last() =~= digits.take(k));
        assert(digits.take(k + 1).last() == digits[k]);
    } else {
        assert(digits.take(k) =~= digits);
    }
}

/// The first index of `s` at which `stop` stands, or the length of `s`.
fn find_first(s: &Vec<char>, stop: char) -> (k: usize)
    ensures
        k == span_before(s@, stop),
{
    let mut k: usize = 0;
    while k < s.len() && s[k] != stop
        invariant
            k <= s.len(),
            forall|i: int| 0 <= i < k ==> s@[i] != stop,
        decreases s.len() - k,
    {
        k += 1;
    }
    proof {
        lemma_span_found(s@, stop, k as int);
    }
    k
}

/// Reads the first `to` characters of `s` as an unsigned number: an
/// optional plus sign and then digits.
fn read_unsigned(s: &Vec<char>, to: usize) -> (r: Option<u32>)
    requires
        to <= s.len(),
    ensures
        r == unsigned_of(s@.take(to as int)),
{
    let ghost text = s@.take(to as int);
    let start: usize = if to > 0 && s[0] == '+' {
        1
    } else {
        0
    };
    let ghost digits = if text.len() > 0 && text[0] == '+' {
        text.drop_first()
    } else {
        text
    };
    assert(digits =~= s@.subrange(start as int, to as int));
    if start == to {
        return None;
    }
    let mut value: u64 = 0;
    let mut i: usize = start;
    assert(digits.take(0) =~= Seq::<char>::empty());
    while i < to
        invariant
            start <= i <= to <= s.len(),
            digits == s@.subrange(start as int, to as int),
            text == s@.take(to as int),
            digits == if text.len() > 0 && text[0] == '+' {
                text.drop_first()
            } else {
                text
            },
            all_digits(digits.take(i - start)),
            value == decimal(digits.take(i - start)),
            value <= u32::MAX,
        decreases to - i,
    {
        let c: char = s[i];
        if c < '0' || c > '9' {
            assert(!('0' <= digits[i - start] <= '9'));
            return None;
        }
        let digit: u64 = (c as u64) - ('0' as u64);
        let next: u64 = value * 10 + digit;
        proof {
            let grown = digits.take(i - start + 1);
            assert(grown.drop_last() =~= digits.take(i - start));
            assert(grown.last() == c);
            assert(next == decimal(grown));
            assert forall|k: int| 0 <= k < grown.len() implies '0' <= #[trigger] grown[k]
                <= '9' by {
                if k < i - start {
                    assert(digits.take(i - start)[k] == grown[k]);
                }
            }
        }
        if next > 0xffff_ffff {
            proof {
                if all_digits(digits) {
                    lemma_decimal_grows(digits, i - start + 1);
                }
            }
            return None;
        }
        value = next;
        i += 1;
    }
    assert(digits.take(to - start) =~= digits);
    Some(value as u32)
}

/// Reads the version id that a script's file name declares.
pub fn parse_id(name: &str) -> (id: Option<u32>)
    ensures
        id == declared_id(name@),
{
    let chars = characters(name);
    let end = find_first(&chars, '_');
    proof {
        lemma_span_before(chars@, '_');
    }
    read_unsigned(&chars, end)
}

/// Whether a file name is that of a script.
pub fn script_name(name: &str) -> (b: bool)
    ensures
        b == is_script_name(name@),
{
    let chars = characters(name);
    let n = chars.len();
    if n <= 4 {
        return false;
    }
    let b = chars[n - 4] == '.' && chars[n - 3] == 's' && chars[n - 2] == 'q' && chars[n - 1]
        == 'l';
    proof {
        let tail = chars@.subrange(n - 4, n as int);
        let ending = seq!['.', 's', 'q', 'l'];
        if b {
            assert(tail =~= ending);
        } else {
            assert(tail[0] == chars@[n - 4] && tail[1] == chars@[n - 3] && tail[2] == chars@[n
                - 2] && tail[3] == chars@[n - 1]);
            assert(ending[0] == '.' && ending[1] == 's' && ending[2] == 'q' && ending[3] == 'l');
        }
    }
    b
}

} // verus!
