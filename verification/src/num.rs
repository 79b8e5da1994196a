use vstd::prelude::*;

verus! {

use crate::elem::str_eq;

/// Textual form of a boolean field.
pub open spec fn bool_text(b: bool) -> Seq<char> {
    if b {
        "true"@
    } else {
        "false"@
    }
}

/// Boolean value of a field's text, if it is one.
pub open spec fn parse_bool(s: Seq<char>) -> Option<bool> {
    if s == "true"@ {
        Some(true)
    } else if s == "false"@ {
        Some(false)
    } else {
        None
    }
}

/// Writing a boolean and reading it back gives the boolean again.
pub proof fn lemma_bool_round_trip(b: bool)
    ensures
        parse_bool(bool_text(b)) == Some(b),
{
    reveal_strlit("true");
    reveal_strlit("false");
    assert("true"@.len() != "false"@.len());
}

/// Boolean value of a field's text, if it is one.
pub fn parse_bool_str(s: &str) -> (r: Option<bool>)
    ensures
        r == parse_bool(s@),
{
    if str_eq(s, "true") {
        Some(true)
    } else if str_eq(s, "false") {
        Some(false)
    } else {
        None
    }
}

/// Textual form of a boolean field.
pub fn bool_string(b: bool) -> (r: String)
    ensures
        r@ == bool_text(b),
{
    if b {
        String::from_str("true")
    } else {
        String::from_str("false")
    }
}

/// The decimal digit character for `d`.
pub open spec fn digit_char(d: nat) -> char {
    if d == 0 {
        '0'
    } else if d == 1 {
        '1'
    } else if d == 2 {
        '2'
    } else if d == 3 {
        '3'
    } else if d == 4 {
        '4'
    } else if d == 5 {
        '5'
    } else if d == 6 {
        '6'
    } else if d == 7 {
        '7'
    } else if d == 8 {
        '8'
    } else {
        '9'
    }
}

/// The value of a decimal digit character, if it is one.
pub open spec fn char_digit(c: char) -> Option<nat> {
    if c == '0' {
        Some(0 as nat)
    } else if c == '1' {
        Some(1 as nat)
    } else if c == '2' {
        Some(2 as nat)
    } else if c == '3' {
        Some(3 as nat)
    } else if c == '4' {
        Some(4 as nat)
    } else if c == '5' {
        Some(5 as nat)
    } else if c == '6' {
        Some(6 as nat)
    } else if c == '7' {
        Some(7 as nat)
    } else if c == '8' {
        Some(8 as nat)
    } else if c == '9' {
        Some(9 as nat)
    } else {
        None
    }
}

/// Decimal digits of `n`, most significant first.
pub open spec fn u64_digits(n: nat) -> Seq<char>
    decreases n,
{
    if n < 10 {
        seq![digit_char(n)]
    } else {
        u64_digits(n / 10).push(digit_char(n % 10))
    }
}

/// One step of reading a decimal number from the front of `s` with
/// accumulator `acc`; unsigned overflow of the accumulator rejects the text.
pub open spec fn parse_u64_loop(s: Seq<char>, acc: u64) -> Option<u64>
    decreases s.len(),
{
    if s.len() == 0 {
        Some(acc)
    } else {
        match char_digit(s.first()) {
            None => None,
            Some(d) => if acc * 10 + d > u64::MAX {
                None
            } else {
                parse_u64_loop(s.drop_first(), (acc * 10 + d) as u64)
            },
        }
    }
}

/// Unsigned value of a decimal numeral, if the text is one and it fits.
pub open spec fn parse_u64(s: Seq<char>) -> Option<u64> {
    if s.len() == 0 {
        None
    } else {
        parse_u64_loop(s, 0)
    }
}

/// Textual form of a signed number.
pub open spec fn i64_text(n: i64) -> Seq<char> {
    if n >= 0 {
        u64_digits(n as nat)
    } else {
        seq!['-'] + u64_digits((0 - n as int) as nat)
    }
}

/// Signed value of a decimal numeral with optional leading minus sign, if the
/// text is one and it fits.
pub open spec fn parse_i64(s: Seq<char>) -> Option<i64> {
    if s.len() >= 1 && s.first() == '-' {
        match parse_u64(s.drop_first()) {
            Some(m) => if m <= 0x8000_0000_0000_0000u64 {
                Some((0 - m as int) as i64)
            } else {
                None
            },
            None => None,
        }
    } else {
        match parse_u64(s) {
            Some(m) => if m <= i64::MAX as u64 {
                Some(m as i64)
            } else {
                None
            },
            None => None,
        }
    }
}

proof fn lemma_digit_inverse(d: nat)
    requires
        d < 10,
    ensures
        char_digit(digit_char(d)) == Some(d),
{
}

proof fn lemma_digit_not_minus(d: nat)
    requires
        d < 10,
    ensures
        digit_char(d) != '-',
{
}

/// Appending one digit to a numeral multiplies its value by ten and adds the
/// digit, as long as nothing overflows.
proof fn lemma_parse_push(s: Seq<char>, acc: u64, d: nat)
    requires
        d < 10,
    ensures
        parse_u64_loop(s.push(digit_char(d)), acc) == match parse_u64_loop(s, acc) {
            Some(v) => if v * 10 + d > u64::MAX {
                None
            } else {
                Some((v * 10 + d) as u64)
            },
            None => None,
        },
    decreases s.len(),
{
    lemma_digit_inverse(d);
    let t = s.push(digit_char(d));
    if s.len() == 0 {
        assert(t.len() == 1);
        assert(t.first() == digit_char(d));
        assert(t.drop_first() =~= Seq::<char>::empty());
        assert(parse_u64_loop(s, acc) == Some(acc));
        if acc * 10 + d > u64::MAX {
            assert(parse_u64_loop(t, acc) is None);
        } else {
            assert(parse_u64_loop(t, acc) == parse_u64_loop(
                t.drop_first(),
                (acc * 10 + d) as u64,
            ));
            assert(parse_u64_loop(t.drop_first(), (acc * 10 + d) as u64) == Some(
                (acc * 10 + d) as u64,
            ));
        }
    } else {
        assert(t.first() == s.first());
        assert(t.drop_first() =~= s.drop_first().push(digit_char(d)));
        match char_digit(s.first()) {
            None => {
                assert(parse_u64_loop(t, acc) is None);
                assert(parse_u64_loop(s, acc) is None);
            },
            Some(d0) => {
                if acc * 10 + d0 <= u64::MAX {
                    let acc2 = (acc * 10 + d0) as u64;
                    lemma_parse_push(s.drop_first(), acc2, d);
                    assert(parse_u64_loop(t, acc) == parse_u64_loop(
                        s.drop_first().push(digit_char(d)),
                        acc2,
                    ));
                    assert(parse_u64_loop(s, acc) == parse_u64_loop(s.drop_first(), acc2));
                } else {
                    assert(parse_u64_loop(t, acc) is None);
                    assert(parse_u64_loop(s, acc) is None);
                }
            },
        }
    }
}

/// The numeral of `n` is never empty and never starts with a minus sign.
proof fn lemma_u64_digits_shape(n: nat)
    ensures
        u64_digits(n).len() >= 1,
        u64_digits(n).first() != '-',
    decreases n,
{
    if n < 10 {
        lemma_digit_not_minus(n);
    } else {
        lemma_u64_digits_shape(n / 10);
        assert(u64_digits(n).first() == u64_digits(n / 10).first());
    }
}

/// Reading back the numeral of an unsigned number gives the number again.
pub proof fn lemma_u64_round_trip(n: u64)
    ensures
        parse_u64(u64_digits(n as nat)) == Some(n),
    decreases n,
{
    lemma_u64_digits_shape(n as nat);
    if n < 10 {
        lemma_digit_inverse(n as nat);
        assert(u64_digits(n as nat) =~= Seq::<char>::empty().push(digit_char(n as nat)));
        lemma_parse_push(Seq::<char>::empty(), 0, n as nat);
    } else {
        lemma_u64_round_trip(n / 10);
        vstd::arithmetic::div_mod::lemma_fundamental_div_mod(n as int, 10);
        lemma_parse_push(u64_digits((n / 10) as nat), 0, (n % 10) as nat);
    }
}

/// Reading back the numeral of a signed number gives the number again.
pub proof fn lemma_i64_round_trip(n: i64)
    ensures
        parse_i64(i64_text(n)) == Some(n),
{
    if n >= 0 {
        lemma_u64_round_trip(n as u64);
        lemma_u64_digits_shape(n as nat);
    } else {
        let m = (0 - n as int) as u64;
        lemma_u64_round_trip(m);
        lemma_u64_digits_shape(m as nat);
        assert(i64_text(n).first() == '-');
        assert(i64_text(n).drop_first() =~= u64_digits(m as nat));
    }
}

/// Unsigned value of a decimal numeral, if the text is one and it fits.
pub fn parse_u64_str(s: &str) -> (r: Option<u64>)
    ensures
        r == parse_u64(s@),
{
    let n = s.unicode_len();
    if n == 0 {
        return None;
    }
    proof {
        assert(s@.skip(0) =~= s@);
    }
    let mut acc: u64 = 0;
    let mut i: usize = 0;
    while i < n
        invariant
            0 <= i <= n,
            n == s@.len(),
            parse_u64_loop(s@, 0) == parse_u64_loop(s@.skip(i as int), acc),
        decreases n - i,
    {
        let c = s.get_char(i);
        proof {
            assert(s@.skip(i as int).first() == s@[i as int]);
            assert(s@.skip(i as int).drop_first() =~= s@.skip(i + 1));
        }
        let d: u64 = if c == '0' {
            0
        } else if c == '1' {
            1
        } else if c == '2' {
            2
        } else if c == '3' {
            3
        } else if c == '4' {
            4
        } else if c == '5' {
            5
        } else if c == '6' {
            6
        } else if c == '7' {
            7
        } else if c == '8' {
            8
        } else if c == '9' {
            9
        } else {
            return None;
        };
        acc = match acc.checked_mul(10) {
            Some(t) => match t.checked_add(d) {
                Some(v) => v,
                None => {
                    return None;
                },
            },
            None => {
                return None;
            },
        };
        i += 1;
    }
    proof {
        assert(s@.skip(i as int).len() == 0);
    }
    Some(acc)
}

/// Signed value of a decimal numeral, if the text is one and it fits.
pub fn parse_i64_str(s: &str) -> (r: Option<i64>)
    ensures
        r == parse_i64(s@),
{
    let n = s.unicode_len();
    if n >= 1 && s.get_char(0) == '-' {
        let rest = s.substring_char(1, n);
        proof {
            assert(rest@ =~= s@.drop_first());
        }
        match parse_u64_str(rest) {
            Some(m) => if m <= 0x8000_0000_0000_0000u64 {
                Some((-(m as i128)) as i64)
            } else {
                None
            },
            None => None,
        }
    } else {
        match parse_u64_str(s) {
            Some(m) => if m <= i64::MAX as u64 {
                Some(m as i64)
            } else {
                None
            },
            None => None,
        }
    }
}

/// One decimal digit as text.
fn digit_str(d: u64) -> (r: &'static str)
    requires
        d < 10,
    ensures
        r@ =~= seq![digit_char(d as nat)],
{
    proof {
        reveal_strlit("0");
        reveal_strlit("1");
        reveal_strlit("2");
        reveal_strlit("3");
        reveal_strlit("4");
        reveal_strlit("5");
        reveal_strlit("6");
        reveal_strlit("7");
        reveal_strlit("8");
        reveal_strlit("9");
    }
    if d == 0 {
        "0"
    } else if d == 1 {
        "1"
    } else if d == 2 {
        "2"
    } else if d == 3 {
        "3"
    } else if d == 4 {
        "4"
    } else if d == 5 {
        "5"
    } else if d == 6 {
        "6"
    } else if d == 7 {
        "7"
    } else if d == 8 {
        "8"
    } else {
        "9"
    }
}

/// Decimal numeral of an unsigned number.
pub fn u64_string(n: u64) -> (r: String)
    ensures
        r@ == u64_digits(n as nat),
    decreases n,
{
    let mut s = if n < 10 {
        String::new()
    } else {
        u64_string(n / 10)
    };
    s.append(digit_str(n % 10));
    proof {
        if n < 10 {
            assert(Seq::<char>::empty() + seq![digit_char(n as nat)] =~= seq![
                digit_char(n as nat),
            ]);
            assert(u64_digits(n as nat) =~= seq![digit_char(n as nat)]);
        } else {
            assert(u64_digits((n / 10) as nat) + seq![digit_char((n % 10) as nat)] =~= u64_digits(
                (n / 10) as nat,
            ).push(digit_char((n % 10) as nat)));
        }
    }
    s
}

/// Decimal numeral of a signed number.
pub fn i64_string(n: i64) -> (r: String)
    ensures
        r@ == i64_text(n),
{
    if n >= 0 {
        u64_string(n as u64)
    } else {
        let m: u64 = (-(n as i128)) as u64;
        let mut s = String::from_str("-");
        let digits = u64_string(m);
        s.append(digits.as_str());
        proof {
            reveal_strlit("-");
            assert("-"@ =~= seq!['-']);
            assert(s@ == seq!['-'] + u64_digits(m as nat));
        }
        s
    }
}

} // verus!
