//! The daily interaction counter as it is stored: decimal text, read back
//! as an unsigned 32-bit count.
use vstd::prelude::*;
use vstd::string::StringSliceAdditionalSpecFns;

verus! {

/// Whether `b` is an ASCII decimal digit.
pub open spec fn is_digit(b: u8) -> bool {
    48 <= b <= 57
}

/// Whether every byte of `s` is a decimal digit.
pub open spec fn all_digits(s: Seq<u8>) -> bool {
    forall|i: int| 0 <= i < s.len() ==> is_digit(#[trigger] s[i])
}

/// The number that the digits `s` denote.
pub open spec fn digits_value(s: Seq<u8>) -> nat
    decreases s.len(),
{
    if s.len() == 0 {
        0
    } else {
        digits_value(s.drop_last()) * 10 + (s.last() - 48) as nat
    }
}

/// The digits of a count text: all of it, less one leading `+`.
pub open spec fn count_digits(s: Seq<u8>) -> Seq<u8> {
    if s.len() > 0 && s[0] == 43 {
        s.drop_first()
    } else {
        s
    }
}

/// Whether `s` is the text of a count: an optional `+` and at least one
/// digit, denoting a number that fits in 32 bits.
pub open spec fn is_count_text(s: Seq<u8>) -> bool {
    let d = count_digits(s);
    d.len() > 0 && all_digits(d) && digits_value(d) <= u32::MAX
}

/// The count that a stored text gives: its value, or 0 for any other text.
pub open spec fn stored_count(s: Seq<u8>) -> nat {
    if is_count_text(s) {
        digits_value(count_digits(s))
    } else {
        0
    }
}

/// A longer run of digits denotes at least as much as its prefix.
proof fn lemma_prefix_value(s: Seq<u8>, i: int)
    requires
        0 <= i <= s.len(),
        all_digits(s),
    ensures
        digits_value(s.subrange(0, i)) <= digits_value(s),
    decreases s.len() - i,
{
    if i < s.len() {
        lemma_prefix_value(s, i + 1);
        assert(s.subrange(0, i + 1).drop_last() =~= s.subrange(0, i));
        assert(is_digit(s[i]));
    } else {
        assert(s.subrange(0, i) =~= s);
    }
}

/// Reads a stored interaction count: the number that the text denotes,
/// or 0 where the text is not a count.
pub fn parse_interaction_count(text: &str) -> (r: u32)
    ensures
        r == stored_count(text.spec_bytes()),
{
    let s = text.as_bytes();
    let ghost all = s@;
    let mut start: usize = 0;
    if s.len() > 0 && s[0] == 43 {
        start = 1;
    }
    let ghost d = count_digits(all);
    assert(d =~= all.subrange(start as int, all.len() as int));
    if start == s.len() {
        return 0;
    }
    let mut acc: u32 = 0;
    let mut i: usize = start;
    while i < s.len()
        invariant
            s@ == all,
            d == all.subrange(start as int, all.len() as int),
            d == count_digits(all),
            all == text.spec_bytes(),
            start <= i <= all.len(),
            all_digits(all.subrange(start as int, i as int)),
            acc == digits_value(all.subrange(start as int, i as int)),
        decreases all.len() - i,
    {
        let b = s[i];
        let ghost prev = all.subrange(start as int, i as int);
        let ghost next = all.subrange(start as int, i as int + 1);
        assert(next.drop_last() =~= prev);
        if b < 48 || b > 57 {
            assert(!is_digit(d[i - start]));
            return 0;
        }
        let digit: u32 = (b - 48) as u32;
        if acc > 429496729 || (acc == 429496729 && digit > 5) {
            proof {
                assert(digits_value(next) == acc * 10 + digit);
                assert(acc * 10 + digit > u32::MAX) by (nonlinear_arith)
                    requires
                        acc > 429496729 || (acc == 429496729 && digit > 5),
                ;
                if all_digits(d) {
                    assert(d.subrange(0, i + 1 - start) =~= next);
                    lemma_prefix_value(d, i + 1 - start);
                }
            }
            return 0;
        }
        acc = acc * 10 + digit;
        i = i + 1;
    }
    assert(all.subrange(start as int, i as int) =~= d);
    acc
}

} // verus!
