//! Decimal text of integers: rendering, and parsing with the rules of
//! `str::parse` for unsigned integers.

use vstd::prelude::*;

use crate::text::{chars_of, is_digit_char, string_from_chars, strip_prefix};

verus! {

/// The character of a decimal digit `d` (`0 <= d < 10`).
pub open spec fn digit_char(d: int) -> char {
    (d + 48) as char
}

/// The value of a decimal digit character.
pub open spec fn digit_value(c: char) -> int {
    (c as int) - 48
}

/// The shortest decimal text of `n`: no sign, no leading zero (but `"0"`).
pub open spec fn nat_text(n: nat) -> Seq<char>
    decreases n,
{
    if n < 10 {
        seq![digit_char(n as int)]
    } else {
        nat_text(n / 10).push(digit_char((n % 10) as int))
    }
}

/// The decimal text of `n`, with a `-` in front when it is negative.
pub open spec fn int_text(n: int) -> Seq<char> {
    if n < 0 {
        seq!['-'] + nat_text((-n) as nat)
    } else {
        nat_text(n as nat)
    }
}

/// Every character of `s` is an ASCII digit.
pub open spec fn all_digits(s: Seq<char>) -> bool {
    forall|i: int| 0 <= i < s.len() ==> is_digit_char(#[trigger] s[i])
}

/// The number that the digits `s` spell, most significant first.
pub open spec fn digits_value(s: Seq<char>) -> nat
    decreases s.len(),
{
    if s.len() == 0 {
        0
    } else {
        (digits_value(s.drop_last()) * 10 + digit_value(s.last())) as nat
    }
}

/// The digits of an unsigned number's text: a single leading `+` is
/// dropped.
pub open spec fn unsigned_digits(s: Seq<char>) -> Seq<char> {
    if s.len() > 0 && s[0] == '+' {
        s.drop_first()
    } else {
        s
    }
}

/// What `str::parse` gives for an unsigned integer type whose largest value
/// is `max`: an optional `+`, then one or more ASCII digits whose value is
/// at most `max`. Anything else (empty text, a sign alone, a `-`, any other
/// character, a value out of range) is refused.
pub open spec fn parsed_unsigned(s: Seq<char>, max: nat) -> Option<nat> {
    let d = unsigned_digits(s);
    if d.len() > 0 && all_digits(d) && digits_value(d) <= max {
        Some(digits_value(d))
    } else {
        None
    }
}

/// A longer run of digits never spells a smaller number.
proof fn lemma_digits_value_prefix(s: Seq<char>, i: int, j: int)
    requires
        all_digits(s),
        0 <= i <= j <= s.len(),
    ensures
        digits_value(s.take(i)) <= digits_value(s.take(j)),
    decreases j - i,
{
    if i < j {
        lemma_digits_value_prefix(s, i, j - 1);
        assert(s.take(j).drop_last() =~= s.take(j - 1));
        assert(is_digit_char(s[j - 1]));
    }
}

/// The decimal text of `n` is a nonempty run of digits that spells `n`.
pub proof fn lemma_nat_text(n: nat)
    ensures
        nat_text(n).len() > 0,
        all_digits(nat_text(n)),
        digits_value(nat_text(n)) == n,
        nat_text(n)[0] != '+',
        nat_text(n)[0] != '-',
    decreases n,
{
    if n < 10 {
        let t = nat_text(n);
        assert(t =~= seq![digit_char(n as int)]);
        assert(t.drop_last() =~= Seq::<char>::empty());
        assert(digits_value(t.drop_last()) == 0);
        assert(t.last() == digit_char(n as int));
        assert(digit_value(digit_char(n as int)) == n);
        assert(digits_value(t) == (digits_value(t.drop_last()) * 10 + digit_value(t.last())) as nat);
    } else {
        lemma_nat_text(n / 10);
        let t = nat_text(n / 10);
        assert(nat_text(n).drop_last() =~= t);
        assert(digit_value(digit_char((n % 10) as int)) == n % 10);
        assert(digits_value(nat_text(n)) == digits_value(t) * 10 + n % 10);
        assert(nat_text(n)[0] == t[0]);
        assert forall|i: int| 0 <= i < nat_text(n).len() implies is_digit_char(
            #[trigger] nat_text(n)[i],
        ) by {
            if i < t.len() {
                assert(nat_text(n)[i] == t[i]);
            }
        }
    }
}

/// Parsing the decimal text of a number gives the number back.
pub proof fn lemma_parse_renders(n: nat, max: nat)
    requires
        n <= max,
    ensures
        parsed_unsigned(nat_text(n), max) == Some(n),
{
    lemma_nat_text(n);
}

fn digit_of(d: u64) -> (c: char)
    requires
        d < 10,
    ensures
        c == digit_char(d as int),
{
    let b: u8 = 48u8 + (d as u8);
    b as char
}

fn push_nat_text(n: u64, out: &mut Vec<char>)
    ensures
        final(out)@ == old(out)@ + nat_text(n as nat),
    decreases n,
{
    if n >= 10 {
        push_nat_text(n / 10, out);
    }
    out.push(digit_of(n % 10));
    proof {
        if n >= 10 {
            assert(nat_text(n as nat) == nat_text((n / 10) as nat).push(digit_char((n % 10) as int)));
        }
    }
    assert(final(out)@ =~= old(out)@ + nat_text(n as nat));
}

/// The decimal text of `n`.
pub fn u64_to_text(n: u64) -> (s: String)
    ensures
        s@ == nat_text(n as nat),
{
    let mut v: Vec<char> = Vec::new();
    push_nat_text(n, &mut v);
    assert(v@ =~= nat_text(n as nat));
    string_from_chars(v.as_slice())
}

/// The decimal text of `n`, with `-` in front when it is negative.
pub fn i64_to_text(n: i64) -> (s: String)
    ensures
        s@ == int_text(n as int),
{
    let mut v: Vec<char> = Vec::new();
    if n < 0 {
        v.push('-');
        let magnitude: u64 = ((-(n + 1)) as u64) + 1;
        push_nat_text(magnitude, &mut v);
        assert(v@ =~= int_text(n as int));
    } else {
        push_nat_text(n as u64, &mut v);
        assert(v@ =~= int_text(n as int));
    }
    string_from_chars(v.as_slice())
}

/// The decimal text of `n`, with `-` in front when it is negative.
pub fn i32_to_text(n: i32) -> (s: String)
    ensures
        s@ == int_text(n as int),
{
    i64_to_text(n as i64)
}

/// `str::parse::<u64>`: `None` where the standard library refuses the text.
pub fn parse_u64(s: &str) -> (r: Option<u64>)
    ensures
        match r {
            Some(v) => parsed_unsigned(s@, u64::MAX as nat) == Some(v as nat),
            None => parsed_unsigned(s@, u64::MAX as nat) is None,
        },
{
    let v = chars_of(s);
    let start: usize = if v.len() > 0 && v[0] == '+' { 1 } else { 0 };
    let ghost d = unsigned_digits(s@);
    assert(d =~= v@.subrange(start as int, v@.len() as int));
    if start >= v.len() {
        return None;
    }
    let mut value: u64 = 0;
    let mut i: usize = start;
    while i < v.len()
        invariant
            start <= i <= v@.len(),
            start < v@.len(),
            v@ == s@,
            d == unsigned_digits(s@),
            d == v@.subrange(start as int, v@.len() as int),
            all_digits(d.take(i - start)),
            value as nat == digits_value(d.take(i - start)),
        decreases v@.len() - i,
    {
        let c = v[i];
        if !('0' <= c && c <= '9') {
            assert(d[i - start] == c);
            assert(!is_digit_char(d[i - start]));
            return None;
        }
        let digit: u64 = (c as u64) - 48;
        let ghost k: int = i - start;
        assert(d.take(k + 1).drop_last() =~= d.take(k));
        assert(d.take(k + 1).last() == c);
        assert(digits_value(d.take(k + 1)) == value * 10 + digit);
        match value.checked_mul(10) {
            None => {
                proof {
                    assert(all_digits(d.take(k + 1))) by {
                        assert forall|m: int| 0 <= m < k + 1 implies is_digit_char(
                            #[trigger] d.take(k + 1)[m],
                        ) by {
                            if m < k {
                                assert(d.take(k + 1)[m] == d.take(k)[m]);
                            }
                        }
                    }
                    reject_long(d, k + 1);
                }
                return None;
            },
            Some(tens) => match tens.checked_add(digit) {
                None => {
                    proof {
                        assert(all_digits(d.take(k + 1))) by {
                            assert forall|m: int| 0 <= m < k + 1 implies is_digit_char(
                                #[trigger] d.take(k + 1)[m],
                            ) by {
                                if m < k {
                                    assert(d.take(k + 1)[m] == d.take(k)[m]);
                                }
                            }
                        }
                        reject_long(d, k + 1);
                    }
                    return None;
                },
                Some(next) => {
                    value = next;
                    assert forall|m: int| 0 <= m < k + 1 implies is_digit_char(
                        #[trigger] d.take(k + 1)[m],
                    ) by {
                        if m < k {
                            assert(d.take(k + 1)[m] == d.take(k)[m]);
                        }
                    }
                },
            },
        }
        i = i + 1;
    }
    assert(d.take(v@.len() - start) =~= d);
    Some(value)
}

/// Once a prefix of the digits is out of range, so is the whole run.
proof fn reject_long(d: Seq<char>, k: int)
    requires
        0 < k <= d.len(),
        all_digits(d.take(k)),
        digits_value(d.take(k)) > u64::MAX,
    ensures
        !(all_digits(d) && digits_value(d) <= u64::MAX),
{
    if all_digits(d) {
        lemma_digits_value_prefix(d, k, d.len() as int);
        assert(d.take(d.len() as int) =~= d);
    }
}

/// `str::parse::<u16>`: `None` where the standard library refuses the text.
pub fn parse_u16(s: &str) -> (r: Option<u16>)
    ensures
        match r {
            Some(v) => parsed_unsigned(s@, u16::MAX as nat) == Some(v as nat),
            None => parsed_unsigned(s@, u16::MAX as nat) is None,
        },
{
    match parse_u64(s) {
        Some(v) => {
            if v <= 65535 {
                Some(v as u16)
            } else {
                None
            }
        },
        None => {
            proof {
                let d = unsigned_digits(s@);
                if d.len() > 0 && all_digits(d) && digits_value(d) <= u16::MAX {
                    assert(parsed_unsigned(s@, u64::MAX as nat) is Some);
                }
            }
            None
        },
    }
}

/// What `str::parse::<i64>` gives: an optional `+` or `-`, then one or more
/// ASCII digits, the value within the `i64` range.
pub open spec fn parsed_signed(s: Seq<char>) -> Option<int> {
    if s.len() > 0 && s[0] == '-' {
        let d = s.drop_first();
        if d.len() > 0 && all_digits(d) && digits_value(d) <= 0x8000_0000_0000_0000 {
            Some(-digits_value(d))
        } else {
            None
        }
    } else {
        match parsed_unsigned(s, i64::MAX as nat) {
            Some(v) => Some(v as int),
            None => None,
        }
    }
}

/// `str::parse::<i64>`: `None` where the standard library refuses the text.
pub fn parse_i64(s: &str) -> (r: Option<i64>)
    ensures
        match r {
            Some(v) => parsed_signed(s@) == Some(v as int),
            None => parsed_signed(s@) is None,
        },
{
    match strip_prefix(s, "-") {
        Some(rest) => {
            proof {
                reveal_strlit("-");
                assert(s@.take(1)[0] == s@[0]);
                assert(s@.drop_first() =~= rest@);
            }
            let plus = strip_prefix(rest.as_str(), "+");
            if plus.is_some() {
                proof {
                    reveal_strlit("+");
                    assert(rest@.take(1)[0] == rest@[0]);
                    assert(!is_digit_char(rest@[0]));
                }
                return None;
            }
            proof {
                reveal_strlit("+");
                if rest@.len() > 0 && rest@[0] == '+' {
                    assert(rest@.take(1) =~= "+"@);
                }
                assert(unsigned_digits(rest@) == rest@);
            }
            match parse_u64(rest.as_str()) {
                Some(v) => {
                    assert(s@.drop_first() == rest@);
                    assert(parsed_unsigned(rest@, u64::MAX as nat) == Some(v as nat));
                    assert(digits_value(rest@) == v);
                    assert(s@.len() > 0 && s@[0] == '-');
                    assert(parsed_signed(s@) == if v <= 0x8000_0000_0000_0000 {
                        Some(-(v as int))
                    } else {
                        None::<int>
                    });
                    if v < 0x8000_0000_0000_0000 {
                        Some(-(v as i64))
                    } else if v == 0x8000_0000_0000_0000 {
                        Some(i64::MIN)
                    } else {
                        None
                    }
                },
                None => None,
            }
        },
        None => {
            proof {
                reveal_strlit("-");
                if s@.len() > 0 && s@[0] == '-' {
                    assert(s@.take(1) =~= "-"@);
                }
            }
            match parse_u64(s) {
                Some(v) => {
                    assert(!(s@.len() > 0 && s@[0] == '-'));
                    if v <= 0x7fff_ffff_ffff_ffff {
                        assert(parsed_unsigned(s@, i64::MAX as nat) == Some(v as nat));
                        assert(parsed_signed(s@) == Some(v as int));
                        Some(v as i64)
                    } else {
                        None
                    }
                },
                None => None,
            }
        },
    }
}

} // verus!
