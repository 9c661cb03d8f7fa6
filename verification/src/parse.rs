//! Reading an id out of one line of user input. A line addresses an item
//! only when the whole string is a decimal integer (an optional leading
//! plus sign, then digits) whose value fits in `usize`; every other line
//! means "no action", never an error.

use vstd::prelude::*;

verus! {

/// Whether `c` is a decimal digit.
pub open spec fn is_dec_digit(c: char) -> bool {
    48 <= c as int <= 57
}

/// The numeric value of the digit `c`.
pub open spec fn digit_val(c: char) -> int {
    c as int - 48
}

/// The value of a digit string, most significant digit first.
pub open spec fn digits_val(s: Seq<char>) -> int
    decreases s.len(),
{
    if s.len() == 0 {
        0
    } else {
        digits_val(s.drop_last()) * 10 + digit_val(s.last())
    }
}

/// The digits of `s`, once an optional leading plus sign is dropped.
pub open spec fn digits_of(s: Seq<char>) -> Seq<char> {
    if s.len() > 0 && s[0] == '+' {
        s.subrange(1, s.len() as int)
    } else {
        s
    }
}

/// Whether `s` is a decimal integer string: an optional leading plus sign,
/// then one or more digits.
pub open spec fn is_int_string(s: Seq<char>) -> bool {
    &&& digits_of(s).len() > 0
    &&& forall|i: int| 0 <= i < digits_of(s).len() ==> is_dec_digit(#[trigger] digits_of(s)[i])
}

/// The value a decimal integer string denotes.
pub open spec fn int_string_val(s: Seq<char>) -> int {
    digits_val(digits_of(s))
}

/// Whether `s` denotes a value that fits in `usize`.
pub open spec fn parses_as_usize(s: Seq<char>) -> bool {
    is_int_string(s) && int_string_val(s) <= usize::MAX
}

/// A digit string's value is never negative.
proof fn lemma_digits_val_nonneg(s: Seq<char>)
    requires
        forall|i: int| 0 <= i < s.len() ==> is_dec_digit(#[trigger] s[i]),
    ensures
        digits_val(s) >= 0,
    decreases s.len(),
{
    if s.len() > 0 {
        assert forall|i: int| 0 <= i < s.drop_last().len() implies is_dec_digit(
            #[trigger] s.drop_last()[i],
        ) by {
            assert(s.drop_last()[i] == s[i]);
        }
        lemma_digits_val_nonneg(s.drop_last());
    }
}

/// Extending a digit string never shrinks its value.
proof fn lemma_digits_val_prefix_le(s: Seq<char>, m: int)
    requires
        forall|i: int| 0 <= i < s.len() ==> is_dec_digit(#[trigger] s[i]),
        0 <= m <= s.len(),
    ensures
        digits_val(s.subrange(0, m)) <= digits_val(s),
    decreases s.len() - m,
{
    if m < s.len() {
        let pre = s.subrange(0, m);
        let post = s.subrange(0, m + 1);
        assert(post.drop_last() =~= pre);
        assert(post.last() == s[m]);
        assert forall|i: int| 0 <= i < pre.len() implies is_dec_digit(#[trigger] pre[i]) by {
            assert(pre[i] == s[i]);
        }
        lemma_digits_val_nonneg(pre);
        assert(digits_val(post) == digits_val(pre) * 10 + digit_val(s[m]));
        assert(digits_val(pre) * 10 >= digits_val(pre)) by (nonlinear_arith)
            requires
                digits_val(pre) >= 0,
        ;
        lemma_digits_val_prefix_le(s, m + 1);
    } else {
        assert(s.subrange(0, m) =~= s);
    }
}

/// Parses one input line as an id, exactly the way the pages need it: the
/// result is the line's value when the line is an integer string whose
/// value fits in `usize`, and nothing otherwise.
pub fn parse_usize(input: &str) -> (r: Option<usize>)
    ensures
        parses_as_usize(input@) ==> r == Some(int_string_val(input@) as usize),
        !parses_as_usize(input@) ==> r is None,
{
    let len = input.unicode_len();
    let mut start: usize = 0;
    if len > 0 && input.get_char(0) == '+' {
        start = 1;
    }
    if start >= len {
        return None;
    }
    let ghost digits = digits_of(input@);
    proof {
        assert(digits =~= input@.subrange(start as int, len as int));
    }
    let mut acc: usize = 0;
    let mut i: usize = start;
    while i < len
        invariant
            start <= i <= len,
            len == input@.len(),
            start <= 1,
            digits == digits_of(input@),
            digits =~= input@.subrange(start as int, len as int),
            digits.len() == len - start,
            forall|k: int| 0 <= k < i - start ==> is_dec_digit(#[trigger] digits[k]),
            acc == digits_val(digits.subrange(0, i - start)),
        decreases len - i,
    {
        let c = input.get_char(i);
        let cv = c as u32;
        if !(48 <= cv && cv <= 57) {
            proof {
                assert(digits[i - start] == input@[i as int]);
                assert(!is_dec_digit(digits[i - start]));
            }
            return None;
        }
        let digit = (cv - 48) as usize;
        proof {
            assert(digits[i - start] == c);
            assert(is_dec_digit(c));
            assert(digit == digit_val(c));
            let pre = digits.subrange(0, i - start);
            let post = digits.subrange(0, i - start + 1);
            assert(post.drop_last() =~= pre);
            assert(post.last() == c);
            assert(digits_val(post) == acc * 10 + digit_val(c));
        }
        if acc > (usize::MAX - digit) / 10 {
            proof {
                let bound = (usize::MAX - digit) as int;
                assert(acc * 10 + digit > usize::MAX) by (nonlinear_arith)
                    requires
                        acc > bound / 10,
                        bound == usize::MAX - digit,
                        0 <= digit <= 9,
                ;
                if parses_as_usize(input@) {
                    lemma_digits_val_prefix_le(digits, i - start + 1);
                    assert(digits_val(digits.subrange(0, i - start + 1)) > usize::MAX);
                    assert(int_string_val(input@) > usize::MAX);
                }
            }
            return None;
        }
        proof {
            let bound = (usize::MAX - digit) as int;
            assert(acc * 10 + digit <= usize::MAX) by (nonlinear_arith)
                requires
                    acc <= bound / 10,
                    bound == usize::MAX - digit,
                    0 <= digit <= 9,
            ;
        }
        acc = acc * 10 + digit;
        i = i + 1;
    }
    proof {
        assert(digits.subrange(0, len - start) =~= digits);
        assert(acc == digits_val(digits));
        assert(is_int_string(input@));
        assert(parses_as_usize(input@));
    }
    Some(acc)
}

} // verus!
