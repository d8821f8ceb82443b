//! Conversions of text values: timestamps, booleans and hexadecimal colors.
use vstd::prelude::*;
use crate::text::{lemma_utf8_len_single, utf8_len, lemma_utf8_len_concat, lemma_utf8_len_at_least_len, chars_of, find_char, find_char_from, find_char_exec, lemma_find_char_from};

verus! {

/// An ASCII decimal digit.
pub open spec fn is_digit(c: char) -> bool {
    '0' <= c && c <= '9'
}

/// Every character is an ASCII decimal digit.
pub open spec fn all_digits(s: Seq<char>) -> bool {
    forall|i: int| 0 <= i < s.len() ==> is_digit(#[trigger] s[i])
}

/// The value of a decimal digit.
pub open spec fn digit_value(c: char) -> nat {
    (c as u32 - '0' as u32) as nat
}

/// The value of a string of decimal digits (0 for the empty string).
pub open spec fn decimal_value(s: Seq<char>) -> nat
    decreases s.len(),
{
    if s.len() == 0 {
        0
    } else {
        decimal_value(s.drop_last()) * 10 + digit_value(s.last())
    }
}

/// Hours field of a timestamp: `\d{0,2}`.
pub open spec fn hours_field(s: Seq<char>) -> bool {
    s.len() <= 2 && all_digits(s)
}

/// Minutes or seconds field of a timestamp: `[0-5]?\d?`.
pub open spec fn sexagesimal_field(s: Seq<char>) -> bool {
    ||| s.len() <= 1 && all_digits(s)
    ||| s.len() == 2 && '0' <= s[0] && s[0] <= '5' && is_digit(s[1])
}

/// Milliseconds field of a timestamp: `\d{0,3}`.
pub open spec fn millis_field(s: Seq<char>) -> bool {
    s.len() <= 3 && all_digits(s)
}

/// The part of a timestamp after its last colon: `([0-5]?\d?\.)?\d{0,3}`, in milliseconds.
pub open spec fn seconds_part(r: Seq<char>) -> Option<nat> {
    match find_char(r, '.') {
        None => if millis_field(r) {
            Some(decimal_value(r))
        } else {
            None
        },
        Some(k) => if sexagesimal_field(r.take(k)) && millis_field(r.skip(k + 1)) {
            Some(decimal_value(r.take(k)) * 1000 + decimal_value(r.skip(k + 1)))
        } else {
            None
        },
    }
}

/// The time in milliseconds that a timestamp denotes, or `None` for an invalid one.
///
/// A timestamp is `[H:M:][M:][S.]MS` (at most one of the two prefixes): `H` has up to two
/// digits, `M` and `S` are one digit or two digits starting with 0 to 5, `MS` has up to three
/// digits; every field may be empty and then counts as zero.
pub open spec fn timestamp_ms(s: Seq<char>) -> Option<nat> {
    match find_char(s, ':') {
        None => seconds_part(s),
        Some(i) => match find_char_from(s, ':', i + 1) {
            None => if sexagesimal_field(s.take(i)) {
                match seconds_part(s.skip(i + 1)) {
                    Some(v) => Some(decimal_value(s.take(i)) * 60_000 + v),
                    None => None,
                }
            } else {
                None
            },
            Some(j) => if hours_field(s.take(i)) && sexagesimal_field(s.subrange(i + 1, j)) {
                match seconds_part(s.skip(j + 1)) {
                    Some(v) => Some(
                        decimal_value(s.take(i)) * 3_600_000 + decimal_value(s.subrange(i + 1, j))
                            * 60_000 + v,
                    ),
                    None => None,
                }
            } else {
                None
            },
        },
    }
}

proof fn lemma_decimal_value_bound(s: Seq<char>)
    requires
        all_digits(s),
    ensures
        s.len() == 0 ==> decimal_value(s) == 0,
        s.len() == 1 ==> decimal_value(s) <= 9,
        s.len() == 2 ==> decimal_value(s) <= 99,
        s.len() == 2 && s[0] <= '5' ==> decimal_value(s) <= 59,
        s.len() == 3 ==> decimal_value(s) <= 999,
    decreases s.len(),
{
    if s.len() > 0 {
        assert(is_digit(s[s.len() - 1]));
        assert(all_digits(s.drop_last())) by {
            assert forall|i: int| 0 <= i < s.drop_last().len() implies is_digit(
                #[trigger] s.drop_last()[i],
            ) by {
                assert(s.drop_last()[i] == s[i]);
            }
        }
        lemma_decimal_value_bound(s.drop_last());
        if s.len() == 2 {
            assert(is_digit(s[0]));
            assert(s.drop_last() =~= seq![s[0]]);
            assert(decimal_value(seq![s[0]].drop_last()) == 0) by {
                assert(seq![s[0]].drop_last() =~= Seq::<char>::empty());
            }
        }
    }
}

proof fn lemma_sexagesimal_bound(s: Seq<char>)
    requires
        sexagesimal_field(s),
    ensures
        decimal_value(s) <= 59,
{
    if s.len() == 2 {
        assert(all_digits(s)) by {
            assert forall|i: int| 0 <= i < s.len() implies is_digit(#[trigger] s[i]) by {
                if i == 0 {
                    assert(is_digit(s[0]));
                }
            }
        }
    }
    lemma_decimal_value_bound(s);
}

proof fn lemma_seconds_part_bound(r: Seq<char>)
    ensures
        seconds_part(r) matches Some(v) ==> v <= 59_999,
{
    match find_char(r, '.') {
        None => if millis_field(r) {
            lemma_decimal_value_bound(r);
        },
        Some(k) => if sexagesimal_field(r.take(k)) && millis_field(r.skip(k + 1)) {
            lemma_sexagesimal_bound(r.take(k));
            lemma_decimal_value_bound(r.skip(k + 1));
        },
    }
}

/// A timestamp denotes less than 100 hours: at most 359,999,999 milliseconds.
pub proof fn lemma_timestamp_ms_bound(s: Seq<char>)
    ensures
        timestamp_ms(s) matches Some(v) ==> v <= 359_999_999,
{
    match find_char(s, ':') {
        None => lemma_seconds_part_bound(s),
        Some(i) => match find_char_from(s, ':', i + 1) {
            None => if sexagesimal_field(s.take(i)) {
                lemma_sexagesimal_bound(s.take(i));
                lemma_seconds_part_bound(s.skip(i + 1));
            },
            Some(j) => if hours_field(s.take(i)) && sexagesimal_field(s.subrange(i + 1, j)) {
                lemma_decimal_value_bound(s.take(i));
                lemma_sexagesimal_bound(s.subrange(i + 1, j));
                lemma_seconds_part_bound(s.skip(j + 1));
            },
        },
    }
}

/// The value of the decimal digits `v[from..to]`, which are at most three.
fn decimal_value_exec(v: &Vec<char>, from: usize, to: usize) -> (n: u32)
    requires
        from <= to <= v@.len(),
        to - from <= 3,
        all_digits(v@.subrange(from as int, to as int)),
    ensures
        n == decimal_value(v@.subrange(from as int, to as int)),
        n <= 999,
{
    let mut n: u32 = 0;
    let mut i = from;
    proof {
        lemma_decimal_value_bound(v@.subrange(from as int, to as int));
    }
    while i < to
        invariant
            from <= i <= to <= v@.len(),
            to - from <= 3,
            all_digits(v@.subrange(from as int, to as int)),
            n == decimal_value(v@.subrange(from as int, i as int)),
            n <= 99 || i == to,
            i - from <= 1 ==> n <= 9,
            i == from ==> n == 0,
        decreases to - i,
    {
        let c = v[i];
        assert(v@.subrange(from as int, to as int)[i - from] == c);
        assert(v@.subrange(from as int, i + 1).drop_last() =~= v@.subrange(from as int, i as int));
        n = n * 10 + (c as u32 - '0' as u32);
        i = i + 1;
    }
    n
}

/// Whether `v[from..to]` consists of ASCII decimal digits only.
pub(crate) fn all_digits_exec(v: &Vec<char>, from: usize, to: usize) -> (r: bool)
    requires
        from <= to <= v@.len(),
    ensures
        r == all_digits(v@.subrange(from as int, to as int)),
{
    let mut i = from;
    while i < to
        invariant
            from <= i <= to <= v@.len(),
            forall|j: int| from <= j < i ==> is_digit(v@[j]),
        decreases to - i,
    {
        if !(v[i] >= '0' && v[i] <= '9') {
            assert(!is_digit(v@.subrange(from as int, to as int)[i - from]));
            return false;
        }
        i = i + 1;
    }
    assert forall|j: int| 0 <= j < to - from implies is_digit(
        #[trigger] v@.subrange(from as int, to as int)[j],
    ) by {
        assert(v@.subrange(from as int, to as int)[j] == v@[from + j]);
    }
    true
}

fn sexagesimal_field_exec(v: &Vec<char>, from: usize, to: usize) -> (r: bool)
    requires
        from <= to <= v@.len(),
    ensures
        r == sexagesimal_field(v@.subrange(from as int, to as int)),
{
    let ok = all_digits_exec(v, from, to);
    if to - from <= 1 {
        ok
    } else if to - from == 2 {
        proof {
            if ok {
                assert(is_digit(v@.subrange(from as int, to as int)[1]));
            }
        }
        ok && v[from] <= '5'
    } else {
        false
    }
}

/// `seconds_part` of `v[from..]`, computed.
fn seconds_part_exec(v: &Vec<char>, from: usize) -> (r: Option<u32>)
    requires
        from <= v@.len(),
    ensures
        match r {
            Some(n) => seconds_part(v@.skip(from as int)) == Some(n as nat) && n <= 59_999,
            None => seconds_part(v@.skip(from as int)) is None,
        },
{
    let ghost r = v@.skip(from as int);
    match find_char_exec(v, '.', from) {
        None => {
            proof {
                lemma_find_char_from(v@, '.', from as int);
                lemma_find_char_from(r, '.', 0);
                assert forall|j: int| 0 <= j < r.len() implies r[j] != '.' by {
                    assert(r[j] == v@[from + j]);
                }
            }
            assert(v@.subrange(from as int, v@.len() as int) =~= r);
            if v.len() - from <= 3 && all_digits_exec(v, from, v.len()) {
                Some(decimal_value_exec(v, from, v.len()))
            } else {
                None
            }
        },
        Some(k) => {
            proof {
                lemma_find_char_from(v@, '.', from as int);
                lemma_find_char_from(r, '.', 0);
                assert(r[k - from] == '.');
                assert forall|j: int| 0 <= j < k - from implies r[j] != '.' by {
                    assert(r[j] == v@[from + j]);
                }
                assert(find_char(r, '.') == Some(k - from));
            }
            assert(v@.subrange(from as int, k as int) =~= r.take(k - from));
            assert(v@.subrange(k + 1, v@.len() as int) =~= r.skip(k - from + 1));
            if sexagesimal_field_exec(v, from, k) && v.len() - (k + 1) <= 3 && all_digits_exec(
                v,
                k + 1,
                v.len(),
            ) {
                proof {
                    lemma_decimal_value_bound(v@.subrange(from as int, k as int));
                }
                let s = decimal_value_exec(v, from, k);
                let ms = decimal_value_exec(v, k + 1, v.len());
                Some(s * 1000 + ms)
            } else {
                None
            }
        },
    }
}

/// Converts a timestamp (`[H:M:][M:][S.]MS`, see `timestamp_ms`) to milliseconds.
pub fn parse_timestamp(timestamp: &str) -> (r: Result<u32, ()>)
    ensures
        match r {
            Ok(ms) => timestamp_ms(timestamp@) == Some(ms as nat),
            Err(()) => timestamp_ms(timestamp@) is None,
        },
{
    let v = chars_of(timestamp);
    let ghost s = v@;
    match find_char_exec(&v, ':', 0) {
        None => match seconds_part_exec(&v, 0) {
            Some(n) => {
                assert(s.skip(0) =~= s);
                Ok(n)
            },
            None => {
                assert(s.skip(0) =~= s);
                Err(())
            },
        },
        Some(i) => match find_char_exec(&v, ':', i + 1) {
            None => {
                assert(s.subrange(0, i as int) =~= s.take(i as int));
                if !sexagesimal_field_exec(&v, 0, i) {
                    return Err(());
                }
                match seconds_part_exec(&v, i + 1) {
                    Some(n) => {
                        proof {
                            lemma_decimal_value_bound(s.take(i as int));
                        }
                        let m = decimal_value_exec(&v, 0, i);
                        Ok(m * 60_000 + n)
                    },
                    None => Err(()),
                }
            },
            Some(j) => {
                assert(s.subrange(0, i as int) =~= s.take(i as int));
                if !(i <= 2 && all_digits_exec(&v, 0, i)) {
                    return Err(());
                }
                if !sexagesimal_field_exec(&v, i + 1, j) {
                    return Err(());
                }
                match seconds_part_exec(&v, j + 1) {
                    Some(n) => {
                        proof {
                            lemma_decimal_value_bound(s.take(i as int));
                            lemma_decimal_value_bound(s.subrange(i + 1, j as int));
                        }
                        let h = decimal_value_exec(&v, 0, i);
                        let m = decimal_value_exec(&v, i + 1, j);
                        Ok(h * 3_600_000 + m * 60_000 + n)
                    },
                    None => Err(()),
                }
            },
        },
    }
}

/// Converts `y` to `true` and `n` to `false`.
pub fn bool_from_str(text: &str) -> (r: Result<bool, ()>)
    ensures
        r == (if text@ == seq!['y'] {
            Ok(true)
        } else if text@ == seq!['n'] {
            Ok(false)
        } else {
            Err(())
        }),
{
    let v = chars_of(text);
    if v.len() == 1 && v[0] == 'y' {
        assert(v@ =~= seq!['y']);
        Ok(true)
    } else if v.len() == 1 && v[0] == 'n' {
        assert(v@ =~= seq!['n']);
        Ok(false)
    } else {
        Err(())
    }
}

/// An ASCII hexadecimal digit.
pub open spec fn is_hex_digit(c: char) -> bool {
    ('0' <= c && c <= '9') || ('a' <= c && c <= 'f') || ('A' <= c && c <= 'F')
}

/// The value of a hexadecimal digit.
pub open spec fn hex_digit_value(c: char) -> nat {
    if '0' <= c && c <= '9' {
        (c as u32 - '0' as u32) as nat
    } else if 'a' <= c && c <= 'f' {
        (c as u32 - 'a' as u32 + 10) as nat
    } else {
        (c as u32 - 'A' as u32 + 10) as nat
    }
}

/// The value of a string of hexadecimal digits.
pub open spec fn hex_value(s: Seq<char>) -> nat
    decreases s.len(),
{
    if s.len() == 0 {
        0
    } else {
        hex_value(s.drop_last()) * 16 + hex_digit_value(s.last())
    }
}

/// Every character is a hexadecimal digit.
pub open spec fn all_hex(s: Seq<char>) -> bool {
    forall|i: int| 0 <= i < s.len() ==> is_hex_digit(#[trigger] s[i])
}

/// What `from_str_radix(s, 16)` gives for an unsigned integer type that is wide enough:
/// an optional `+` sign followed by at least one hexadecimal digit.
pub open spec fn radix16(s: Seq<char>) -> Option<nat> {
    if s.len() > 0 && s[0] == '+' {
        if s.len() > 1 && all_hex(s.skip(1)) {
            Some(hex_value(s.skip(1)))
        } else {
            None
        }
    } else if s.len() > 0 && all_hex(s) {
        Some(hex_value(s))
    } else {
        None
    }
}

proof fn lemma_hex_value_bound(s: Seq<char>)
    requires
        all_hex(s),
    ensures
        hex_value(s) < pow16(s.len()),
    decreases s.len(),
{
    if s.len() > 0 {
        assert(is_hex_digit(s[s.len() - 1]));
        assert(all_hex(s.drop_last())) by {
            assert forall|i: int| 0 <= i < s.drop_last().len() implies is_hex_digit(
                #[trigger] s.drop_last()[i],
            ) by {
                assert(s.drop_last()[i] == s[i]);
            }
        }
        lemma_hex_value_bound(s.drop_last());
    }
}

/// Sixteen to the power `n`.
pub open spec fn pow16(n: nat) -> nat
    decreases n,
{
    if n == 0 {
        1
    } else {
        16 * pow16((n - 1) as nat)
    }
}

/// Every character of a string of hexadecimal digits takes one byte.
proof fn lemma_hex_utf8_len(s: Seq<char>)
    requires
        all_hex(s),
    ensures
        utf8_len(s) == s.len(),
    decreases s.len(),
{
    if s.len() > 0 {
        assert(is_hex_digit(s[s.len() - 1]));
        assert(all_hex(s.drop_last())) by {
            assert forall|i: int| 0 <= i < s.drop_last().len() implies is_hex_digit(
                #[trigger] s.drop_last()[i],
            ) by {
                assert(s.drop_last()[i] == s[i]);
            }
        }
        lemma_hex_utf8_len(s.drop_last());
    }
}

/// A string that `radix16` accepts is ASCII, so its byte length is its length.
proof fn lemma_radix16_utf8_len(s: Seq<char>)
    requires
        radix16(s) is Some,
    ensures
        utf8_len(s) == s.len(),
{
    if s[0] == '+' {
        lemma_hex_utf8_len(s.skip(1));
        lemma_utf8_len_concat(seq!['+'], s.skip(1));
        assert(seq!['+'] + s.skip(1) =~= s);
        lemma_utf8_len_single('+');
        assert(('+' as u32) < 0x80);
    } else {
        lemma_hex_utf8_len(s);
    }
}

/// `radix16` of a string of at most six characters, computed.
fn radix16_exec(v: &Vec<char>) -> (r: Option<u32>)
    requires
        v@.len() <= 6,
    ensures
        match r {
            Some(n) => radix16(v@) == Some(n as nat),
            None => radix16(v@) is None,
        },
        r matches Some(n) ==> n < pow16(6),
{
    if v.len() == 0 {
        return None;
    }
    let start: usize = if v[0] == '+' { 1 } else { 0 };
    if start == 1 && v.len() == 1 {
        return None;
    }
    let ghost digits = v@.skip(start as int);
    let mut n: u32 = 0;
    let mut i = start;
    while i < v.len()
        invariant
            start <= i <= v@.len() <= 6,
            start <= 1,
            v@.len() > 0,
            (start == 1) == (v@[0] == '+'),
            start == 1 ==> v@.len() > 1,
            digits == v@.skip(start as int),
            forall|j: int| start <= j < i ==> is_hex_digit(v@[j]),
            all_hex(v@.subrange(start as int, i as int)),
            n == hex_value(v@.subrange(start as int, i as int)),
        decreases v.len() - i,
    {
        let c = v[i];
        let d: u32 = if c >= '0' && c <= '9' {
            c as u32 - '0' as u32
        } else if c >= 'a' && c <= 'f' {
            c as u32 - 'a' as u32 + 10
        } else if c >= 'A' && c <= 'F' {
            c as u32 - 'A' as u32 + 10
        } else {
            assert(!all_hex(digits)) by {
                assert(digits[i - start] == c);
            }
            assert(start == 0 ==> digits =~= v@);
            return None;
        };
        proof {
            lemma_hex_value_bound(v@.subrange(start as int, i as int));
            reveal_with_fuel(pow16, 7);
            assert(v@.subrange(start as int, i + 1).drop_last() =~= v@.subrange(
                start as int,
                i as int,
            ));
            assert forall|j: int| 0 <= j < i + 1 - start implies is_hex_digit(
                #[trigger] v@.subrange(start as int, i + 1)[j],
            ) by {
                assert(v@.subrange(start as int, i + 1)[j] == v@[start + j]);
            }
        }
        n = n * 16 + d;
        i = i + 1;
    }
    proof {
        assert(v@.subrange(start as int, v@.len() as int) =~= digits);
        lemma_hex_value_bound(digits);
        reveal_with_fuel(pow16, 7);
        if start == 0 {
            assert(digits =~= v@);
        }
    }
    Some(n)
}

/// Converts one or two hexadecimal digits (optionally signed with `+`) to an alpha value.
pub fn alpha_from_str(text: &str) -> (r: Result<u8, ()>)
    ensures
        match r {
            Ok(a) => 1 <= utf8_len(text@) <= 2 && radix16(text@) == Some(a as nat),
            Err(()) => !(1 <= utf8_len(text@) <= 2 && radix16(text@) is Some),
        },
{
    let v = chars_of(text);
    if v.len() < 1 || v.len() > 2 {
        proof {
            lemma_utf8_len_at_least_len(text@);
            if radix16(text@) is Some {
                lemma_radix16_utf8_len(text@);
            }
        }
        return Err(());
    }
    match radix16_exec(&v) {
        Some(n) => {
            proof {
                lemma_radix16_utf8_len(text@);
                if v@[0] == '+' {
                    lemma_hex_value_bound(v@.skip(1));
                } else {
                    lemma_hex_value_bound(v@);
                }
                reveal_with_fuel(pow16, 3);
            }
            Ok(n as u8)
        },
        None => Err(()),
    }
}

/// The color channels (red, green, blue) of a 24-bit value.
pub open spec fn rgb_of(n: nat) -> [u8; 3] {
    [((n / 65536) % 256) as u8, ((n / 256) % 256) as u8, (n % 256) as u8]
}

/// The channels of a 24-bit color are its bytes from the highest: red, green and blue, each
/// below 256, make up the value again as `red * 65536 + green * 256 + blue`.
pub proof fn law_rgb_channels(n: nat)
    requires
        n < 0x100_0000,
    ensures
        rgb_of(n)[0] * 65536 + rgb_of(n)[1] * 256 + rgb_of(n)[2] == n,
{
    let r = (n / 65536) % 256;
    let g = (n / 256) % 256;
    let b = n % 256;
    assert(n / 65536 < 256) by (nonlinear_arith)
        requires
            n < 0x100_0000,
    ;
    assert(r * 65536 + g * 256 + b == n) by (nonlinear_arith)
        requires
            n < 0x100_0000,
            n / 65536 < 256,
            r == (n / 65536) % 256,
            g == (n / 256) % 256,
            b == n % 256,
    ;
}

/// Converts up to six hexadecimal digits (optionally signed with `+`) to a color.
pub fn rgb_from_str(text: &str) -> (r: Result<[u8; 3], ()>)
    ensures
        match r {
            Ok(rgb) => 1 <= utf8_len(text@) <= 6 && radix16(text@) is Some && rgb == rgb_of(
                radix16(text@)->0,
            ),
            Err(()) => !(1 <= utf8_len(text@) <= 6 && radix16(text@) is Some),
        },
{
    let v = chars_of(text);
    if v.len() < 1 || v.len() > 6 {
        proof {
            lemma_utf8_len_at_least_len(text@);
            if radix16(text@) is Some {
                lemma_radix16_utf8_len(text@);
            }
        }
        return Err(());
    }
    match radix16_exec(&v) {
        Some(n) => {
            proof {
                lemma_radix16_utf8_len(text@);
            }
            let rgb = [((n / 65536) % 256) as u8, ((n / 256) % 256) as u8, (n % 256) as u8];
            assert(rgb =~= rgb_of(n as nat));
            Ok(rgb)
        },
        None => Err(()),
    }
}

} // verus!
