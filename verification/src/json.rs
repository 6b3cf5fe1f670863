//! The JSON wire codec of the protocol's data types: serialization to the
//! canonical form (fields in declaration order, `null` for absent options)
//! and parsing. The parsers recognize the canonical form directly and take
//! everything else — members in any order, whitespace, absent optional
//! fields, extra scalar members, duplicate keys (the last one wins) —
//! through a member scan. Serializing and then parsing a value gives the
//! value back, which is proved for every wire shape.
//!
//! The parser reads `\uXXXX` escapes only in the form `\u00XX`, the one
//! the serializer emits; strings are otherwise parsed in full.
use vstd::prelude::*;

use crate::device::{DeviceType, ProtocolType};
use crate::dto::{MulticastDtoView, RegisterDtoView};
use crate::text::{dec_of, digit_char};

verus! {

/// A lowercase hexadecimal digit.
pub open spec fn hex_digit(d: int) -> char {
    if d < 10 {
        digit_char(d)
    } else {
        ((d + 87) as u8) as char
    }
}

/// The numeric value of a hexadecimal digit, or -1.
pub open spec fn hex_val(c: char) -> int {
    if 48 <= c as int <= 57 {
        c as int - 48
    } else if 97 <= c as int <= 102 {
        c as int - 87
    } else if 65 <= c as int <= 70 {
        c as int - 55
    } else {
        -1
    }
}

/// How one character is written inside a JSON string: quotes and
/// backslashes escaped, control characters as `\b`, `\t`, `\n`, `\f`,
/// `\r` or `\u00XX`, everything else as itself.
pub open spec fn esc_char(c: char) -> Seq<char> {
    if c == '"' {
        seq!['\\', '"']
    } else if c == '\\' {
        seq!['\\', '\\']
    } else if c == '\u{8}' {
        seq!['\\', 'b']
    } else if c == '\u{9}' {
        seq!['\\', 't']
    } else if c == '\u{A}' {
        seq!['\\', 'n']
    } else if c == '\u{C}' {
        seq!['\\', 'f']
    } else if c == '\u{D}' {
        seq!['\\', 'r']
    } else if (c as int) < 0x20 {
        seq!['\\', 'u', '0', '0', hex_digit(c as int / 16), hex_digit(c as int % 16)]
    } else {
        seq![c]
    }
}

/// A character sequence escaped for a JSON string.
pub open spec fn esc_string(s: Seq<char>) -> Seq<char>
    decreases s.len(),
{
    if s.len() == 0 {
        Seq::empty()
    } else {
        esc_char(s[0]) + esc_string(s.drop_first())
    }
}

/// A JSON string: the escaped characters between quotes.
pub open spec fn sj_string(s: Seq<char>) -> Seq<char> {
    seq!['"'] + esc_string(s) + seq!['"']
}

/// An optional JSON string: `null` when absent.
pub open spec fn sj_opt_string(s: Option<Seq<char>>) -> Seq<char> {
    match s {
        Some(x) => sj_string(x),
        None => "null"@,
    }
}

/// A JSON boolean.
pub open spec fn sj_bool(b: bool) -> Seq<char> {
    if b {
        "true"@
    } else {
        "false"@
    }
}

/// Parses the inside of a JSON string up to the closing quote, returning
/// the unescaped characters and what follows the quote.
pub open spec fn sp_string_body(s: Seq<char>) -> Option<(Seq<char>, Seq<char>)>
    decreases s.len(),
{
    if s.len() == 0 {
        None
    } else if s[0] == '"' {
        Some((Seq::empty(), s.skip(1)))
    } else if s[0] == '\\' {
        if s.len() < 2 {
            None
        } else {
            let c = s[1];
            if c == 'u' {
                if s.len() < 6 || s[2] != '0' || s[3] != '0' || hex_val(s[4]) < 0 || hex_val(s[5])
                    < 0 {
                    None
                } else {
                    let v = hex_val(s[4]) * 16 + hex_val(s[5]);
                    match sp_string_body(s.skip(6)) {
                        Some((tail, rest)) => Some((seq![((v as u8) as char)] + tail, rest)),
                        None => None,
                    }
                }
            } else {
                let decoded: char = if c == '"' {
                    '"'
                } else if c == '\\' {
                    '\\'
                } else if c == '/' {
                    '/'
                } else if c == 'b' {
                    '\u{8}'
                } else if c == 't' {
                    '\u{9}'
                } else if c == 'n' {
                    '\u{A}'
                } else if c == 'f' {
                    '\u{C}'
                } else if c == 'r' {
                    '\u{D}'
                } else {
                    ' '
                };
                if c == '"' || c == '\\' || c == '/' || c == 'b' || c == 't' || c == 'n' || c == 'f'
                    || c == 'r' {
                    match sp_string_body(s.skip(2)) {
                        Some((tail, rest)) => Some((seq![decoded] + tail, rest)),
                        None => None,
                    }
                } else {
                    None
                }
            }
        }
    } else if (s[0] as int) < 0x20 {
        None
    } else {
        match sp_string_body(s.skip(1)) {
            Some((tail, rest)) => Some((seq![s[0]] + tail, rest)),
            None => None,
        }
    }
}

/// Parses a JSON string.
pub open spec fn sp_string(s: Seq<char>) -> Option<(Seq<char>, Seq<char>)> {
    if s.len() > 0 && s[0] == '"' {
        sp_string_body(s.skip(1))
    } else {
        None
    }
}

/// Consumes the exact literal `lit` from the front of `s`.
pub open spec fn sp_lit(s: Seq<char>, lit: Seq<char>) -> Option<Seq<char>> {
    if lit.len() <= s.len() && s.take(lit.len() as int) == lit {
        Some(s.skip(lit.len() as int))
    } else {
        None
    }
}

/// Whether `c` is a decimal digit.
pub open spec fn is_digit(c: char) -> bool {
    48 <= c as int <= 57
}

/// Accumulates leading decimal digits; fails on overflow past `u64`.
pub open spec fn sp_u64_rec(s: Seq<char>, acc: int) -> Option<(int, Seq<char>)>
    decreases s.len(),
{
    if s.len() > 0 && is_digit(s[0]) {
        let acc2 = acc * 10 + (s[0] as int - 48);
        if acc2 > u64::MAX as int {
            None
        } else {
            sp_u64_rec(s.skip(1), acc2)
        }
    } else {
        Some((acc, s))
    }
}

/// Parses a JSON unsigned number into a `u64`.
pub open spec fn sp_u64(s: Seq<char>) -> Option<(u64, Seq<char>)> {
    if s.len() > 0 && is_digit(s[0]) {
        match sp_u64_rec(s, 0) {
            Some((v, rest)) => Some((v as u64, rest)),
            None => None,
        }
    } else {
        None
    }
}

/// The law of literal consumption: a literal placed in front is consumed
/// exactly.
pub proof fn lemma_lit_roundtrip(lit: Seq<char>, rest: Seq<char>)
    ensures
        sp_lit(lit + rest, lit) == Some(rest),
{
    assert((lit + rest).take(lit.len() as int) =~= lit);
    assert((lit + rest).skip(lit.len() as int) =~= rest);
}

proof fn lemma_char_bounds(c: char)
    ensures
        0 <= c as int,
        c as int == (c as u32) as int,
{
    vstd::utf8::char_is_scalar(c);
    assert(c as u32 >= 0);
}

proof fn lemma_hex_digit_val(d: int)
    requires
        0 <= d < 16,
    ensures
        hex_val(hex_digit(d)) == d,
{
    if d < 10 {
        assert(hex_digit(d) as int == d + 48);
    } else {
        assert(hex_digit(d) as int == d + 87);
    }
}

proof fn lemma_string_body_roundtrip(s: Seq<char>, rest: Seq<char>)
    ensures
        sp_string_body(esc_string(s) + seq!['"'] + rest) == Some((s, rest)),
    decreases s.len(),
{
    if s.len() == 0 {
        assert(esc_string(s) + seq!['"'] + rest =~= seq!['"'] + rest);
        let x = seq!['"'] + rest;
        assert(x[0] == '"');
        assert(x.skip(1) =~= rest);
        assert(sp_string_body(x) == Some((Seq::<char>::empty(), rest)));
        assert(Seq::<char>::empty() =~= s);
    } else {
        let c = s[0];
        let s1 = s.drop_first();
        let t = esc_string(s1) + seq!['"'] + rest;
        let x = esc_string(s) + seq!['"'] + rest;
        assert(esc_string(s) == esc_char(c) + esc_string(s1));
        assert(x =~= esc_char(c) + t);
        lemma_string_body_roundtrip(s1, rest);
        if c == '"' || c == '\\' {
            let e: char = if c == '"' {
                '"'
            } else {
                '\\'
            };
            assert(esc_char(c) =~= seq!['\\', e]);
            assert(x[0] == '\\' && x[1] == e);
            assert(x.skip(2) =~= t);
            assert(seq![c] + s1 =~= s);
        } else if c == '\u{8}' || c == '\u{9}' || c == '\u{A}' || c == '\u{C}' || c == '\u{D}' {
            let e: char = if c == '\u{8}' {
                'b'
            } else if c == '\u{9}' {
                't'
            } else if c == '\u{A}' {
                'n'
            } else if c == '\u{C}' {
                'f'
            } else {
                'r'
            };
            assert(esc_char(c) =~= seq!['\\', e]);
            assert(x[0] == '\\' && x[1] == e);
            assert(x.skip(2) =~= t);
            assert(seq![c] + s1 =~= s);
        } else if (c as int) < 0x20 {
            let hi = c as int / 16;
            let lo = c as int % 16;
            lemma_char_bounds(c);
            assert(c as int >= 0);
            assert(0 <= hi < 16 && 0 <= lo < 16 && hi * 16 + lo == c as int) by (nonlinear_arith)
                requires
                    0 <= (c as int) && (c as int) < 32,
                    hi == (c as int) / 16,
                    lo == (c as int) % 16,
            ;
            assert(esc_char(c) =~= seq!['\\', 'u', '0', '0', hex_digit(hi), hex_digit(lo)]);
            assert(x[0] == '\\' && x[1] == 'u' && x[2] == '0' && x[3] == '0');
            assert(x[4] == hex_digit(hi) && x[5] == hex_digit(lo));
            lemma_hex_digit_val(hi);
            lemma_hex_digit_val(lo);
            assert(hex_val(x[4]) == hi && hex_val(x[5]) == lo);
            assert(hex_val(x[4]) >= 0 && hex_val(x[5]) >= 0);
            let v = hex_val(x[4]) * 16 + hex_val(x[5]);
            assert(v == c as int);
            assert(x.skip(6) =~= t);
            assert(((v as u8) as char) == c);
            assert(seq![c] + s1 =~= s);
        } else {
            assert(esc_char(c) =~= seq![c]);
            assert(x[0] == c);
            assert(c != '"' && c != '\\' && !((c as int) < 0x20));
            assert(x.skip(1) =~= t);
            assert(seq![c] + s1 =~= s);
        }
    }
}

/// The law of string encoding: a serialized string placed in front of any
/// remainder parses back to the original characters.
pub proof fn lemma_string_roundtrip(s: Seq<char>, rest: Seq<char>)
    ensures
        sp_string(sj_string(s) + rest) == Some((s, rest)),
{
    let x = sj_string(s) + rest;
    assert(x =~= seq!['"'] + (esc_string(s) + seq!['"'] + rest));
    assert(x[0] == '"');
    assert(x.skip(1) =~= esc_string(s) + seq!['"'] + rest);
    lemma_string_body_roundtrip(s, rest);
}

/// Powers of ten.
pub open spec fn pow10(k: nat) -> int
    decreases k,
{
    if k == 0 {
        1
    } else {
        10 * pow10((k - 1) as nat)
    }
}

/// The value of a digit string, most significant digit first.
pub open spec fn dec_val(ds: Seq<char>) -> int
    decreases ds.len(),
{
    if ds.len() == 0 {
        0
    } else {
        dec_val(ds.drop_last()) * 10 + (ds.last() as int - 48)
    }
}

/// All characters are decimal digits.
pub open spec fn all_digits(ds: Seq<char>) -> bool {
    forall|i: int| 0 <= i < ds.len() ==> is_digit(#[trigger] ds[i])
}

proof fn lemma_dec_val_bounds(ds: Seq<char>)
    requires
        all_digits(ds),
    ensures
        0 <= dec_val(ds) < pow10(ds.len()),
    decreases ds.len(),
{
    if ds.len() > 0 {
        assert(all_digits(ds.drop_last())) by {
            assert(forall|i: int| 0 <= i < ds.len() - 1 ==> is_digit(#[trigger] ds[i]));
        }
        lemma_dec_val_bounds(ds.drop_last());
        assert(is_digit(ds.last()));
        assert(dec_val(ds) < pow10(ds.len())) by (nonlinear_arith)
            requires
                dec_val(ds) == dec_val(ds.drop_last()) * 10 + (ds.last() as int - 48),
                0 <= dec_val(ds.drop_last()) < pow10((ds.len() - 1) as nat),
                ds.last() as int - 48 <= 9,
                pow10(ds.len()) == 10 * pow10((ds.len() - 1) as nat),
        ;
    }
}

proof fn lemma_dec_val_split(ds: Seq<char>)
    requires
        ds.len() > 0,
    ensures
        dec_val(ds) == (ds[0] as int - 48) * pow10((ds.len() - 1) as nat) + dec_val(ds.skip(1)),
    decreases ds.len(),
{
    if ds.len() == 1 {
        assert(ds.skip(1).len() == 0);
        assert(ds.drop_last().len() == 0);
        assert(ds.last() == ds[0]);
        assert(dec_val(ds.drop_last()) == 0);
        assert(dec_val(ds.skip(1)) == 0);
        assert(pow10(0) == 1);
        assert(dec_val(ds) == (ds[0] as int - 48));
        assert((ds[0] as int - 48) * pow10(0) == (ds[0] as int - 48)) by (nonlinear_arith)
            requires
                pow10(0) == 1,
        ;
    } else {
        lemma_dec_val_split(ds.drop_last());
        assert(ds.drop_last()[0] == ds[0]);
        assert(ds.skip(1).drop_last() =~= ds.drop_last().skip(1));
        assert(ds.skip(1).last() == ds.last());
        assert(dec_val(ds.skip(1)) == dec_val(ds.skip(1).drop_last()) * 10 + (ds.skip(
            1,
        ).last() as int - 48));
        assert(dec_val(ds) == dec_val(ds.drop_last()) * 10 + (ds.last() as int - 48));
        assert(dec_val(ds.drop_last()) == (ds[0] as int - 48) * pow10((ds.len() - 2) as nat)
            + dec_val(ds.drop_last().skip(1)));
        assert(dec_val(ds) == (ds[0] as int - 48) * pow10((ds.len() - 1) as nat) + dec_val(
            ds.skip(1),
        )) by (nonlinear_arith)
            requires
                dec_val(ds) == dec_val(ds.drop_last()) * 10 + (ds.last() as int - 48),
                dec_val(ds.drop_last()) == (ds[0] as int - 48) * pow10((ds.len() - 2) as nat)
                    + dec_val(ds.drop_last().skip(1)),
                dec_val(ds.skip(1)) == dec_val(ds.skip(1).drop_last()) * 10 + (ds.last() as int
                    - 48),
                dec_val(ds.skip(1).drop_last()) == dec_val(ds.drop_last().skip(1)),
                pow10((ds.len() - 1) as nat) == 10 * pow10((ds.len() - 2) as nat),
        ;
    }
}

proof fn lemma_parse_digits(ds: Seq<char>, rest: Seq<char>, acc: int)
    requires
        all_digits(ds),
        acc >= 0,
        rest.len() == 0 || !is_digit(rest[0]),
        acc * pow10(ds.len()) + dec_val(ds) <= u64::MAX as int,
    ensures
        sp_u64_rec(ds + rest, acc) == Some((acc * pow10(ds.len()) + dec_val(ds), rest)),
    decreases ds.len(),
{
    let x = ds + rest;
    if ds.len() == 0 {
        assert(x =~= rest);
        if rest.len() > 0 {
            assert(!is_digit(rest[0]));
        }
        assert(sp_u64_rec(x, acc) == Some((acc, rest)));
        assert(acc * pow10(0) + dec_val(ds) == acc) by (nonlinear_arith)
            requires
                pow10(0) == 1,
                dec_val(ds) == 0,
        ;
    } else {
        assert(x[0] == ds[0]);
        assert(is_digit(x[0]));
        let d0 = ds[0] as int - 48;
        let acc2 = acc * 10 + d0;
        lemma_dec_val_split(ds);
        lemma_dec_val_bounds(ds);
        assert(all_digits(ds.skip(1))) by {
            assert(forall|i: int| 0 <= i < ds.skip(1).len() ==> ds.skip(1)[i] == ds[i + 1]);
        }
        lemma_dec_val_bounds(ds.skip(1));
        assert(acc2 * pow10(ds.skip(1).len()) + dec_val(ds.skip(1)) == acc * pow10(ds.len())
            + dec_val(ds)) by (nonlinear_arith)
            requires
                acc2 == acc * 10 + d0,
                ds.len() >= 1,
                ds.skip(1).len() == ds.len() - 1,
                pow10(ds.len()) == 10 * pow10((ds.len() - 1) as nat),
                dec_val(ds) == d0 * pow10((ds.len() - 1) as nat) + dec_val(ds.skip(1)),
        ;
        assert(acc2 >= 0);
        assert(acc2 <= u64::MAX as int) by (nonlinear_arith)
            requires
                acc2 * pow10(ds.skip(1).len()) + dec_val(ds.skip(1)) <= u64::MAX as int,
                pow10(ds.skip(1).len()) >= 1,
                dec_val(ds.skip(1)) >= 0,
                acc2 >= 0,
        ;
        assert(x.skip(1) =~= ds.skip(1) + rest);
        lemma_parse_digits(ds.skip(1), rest, acc2);
        assert(pow10(ds.skip(1).len()) >= 1) by {
            lemma_pow10_pos(ds.skip(1).len());
        }
    }
}

proof fn lemma_pow10_pos(k: nat)
    ensures
        pow10(k) >= 1,
    decreases k,
{
    if k > 0 {
        lemma_pow10_pos((k - 1) as nat);
    }
}

/// The decimal rendering consists of digits, is nonempty, and reads back
/// to the number itself — so it is injective.
pub proof fn lemma_dec_of_digits(n: nat)
    ensures
        all_digits(dec_of(n)),
        dec_of(n).len() >= 1,
        dec_val(dec_of(n)) == n,
    decreases n,
{
    if n < 10 {
        assert(dec_of(n) =~= seq![digit_char(n as int)]);
        assert(n as int + 48 < 256);
        assert(digit_char(n as int) as int == n + 48);
        assert(is_digit(digit_char(n as int)));
        assert(dec_of(n).drop_last().len() == 0);
        assert(dec_val(dec_of(n).drop_last()) == 0);
        assert(dec_val(dec_of(n)) == digit_char(n as int) as int - 48);
    } else {
        lemma_dec_of_digits(n / 10);
        let ds = dec_of(n);
        assert(ds == dec_of(n / 10).push(digit_char((n % 10) as int)));
        assert(ds.drop_last() =~= dec_of(n / 10));
        assert(ds.last() == digit_char((n % 10) as int));
        assert(is_digit(ds.last()));
        assert(all_digits(ds)) by {
            assert(forall|i: int|
                0 <= i < ds.len() - 1 ==> ds[i] == dec_of(n / 10)[i] && is_digit(#[trigger] ds[i]));
        }
        assert(dec_val(ds) == dec_val(dec_of(n / 10)) * 10 + (n % 10));
        assert((n / 10) * 10 + (n % 10) == n) by (nonlinear_arith);
    }
}

/// The law of number encoding: a number written in decimal and placed in
/// front of anything that does not begin with a digit parses back to the
/// same number.
pub proof fn lemma_u64_roundtrip(n: u64, rest: Seq<char>)
    requires
        rest.len() == 0 || !is_digit(rest[0]),
    ensures
        sp_u64(dec_of(n as nat) + rest) == Some((n, rest)),
{
    lemma_dec_of_digits(n as nat);
    lemma_pow10_pos(dec_of(n as nat).len());
    assert(0 * pow10(dec_of(n as nat).len()) + dec_val(dec_of(n as nat)) == n as int)
        by (nonlinear_arith)
        requires
            dec_val(dec_of(n as nat)) == n as int,
    ;
    lemma_parse_digits(dec_of(n as nat), rest, 0);
    let x = dec_of(n as nat) + rest;
    assert(x[0] == dec_of(n as nat)[0]);
    assert(is_digit(x[0]));
}


/// The wire name of a device type.
pub open spec fn sj_device_type_name(t: DeviceType) -> Seq<char> {
    match t {
        DeviceType::Mobile => "mobile"@,
        DeviceType::Desktop => "desktop"@,
        DeviceType::Web => "web"@,
        DeviceType::Headless => "headless"@,
        DeviceType::Server => "server"@,
    }
}

/// The device type a wire name stands for.
pub open spec fn sp_device_type_of(s: Seq<char>) -> Option<DeviceType> {
    if s == "mobile"@ {
        Some(DeviceType::Mobile)
    } else if s == "desktop"@ {
        Some(DeviceType::Desktop)
    } else if s == "web"@ {
        Some(DeviceType::Web)
    } else if s == "headless"@ {
        Some(DeviceType::Headless)
    } else if s == "server"@ {
        Some(DeviceType::Server)
    } else {
        None
    }
}

/// The wire name of a transport scheme.
pub open spec fn sj_protocol_name(p: ProtocolType) -> Seq<char> {
    match p {
        ProtocolType::Http => "http"@,
        ProtocolType::Https => "https"@,
    }
}

/// The transport scheme a wire name stands for.
pub open spec fn sp_protocol_of(s: Seq<char>) -> Option<ProtocolType> {
    if s == "http"@ {
        Some(ProtocolType::Http)
    } else if s == "https"@ {
        Some(ProtocolType::Https)
    } else {
        None
    }
}

/// An optional device type: its quoted name, or `null`.
pub open spec fn sj_opt_device_type(t: Option<DeviceType>) -> Seq<char> {
    match t {
        Some(x) => sj_string(sj_device_type_name(x)),
        None => "null"@,
    }
}

/// An optional transport scheme: its quoted name, or `null`.
pub open spec fn sj_opt_protocol(p: Option<ProtocolType>) -> Seq<char> {
    match p {
        Some(x) => sj_string(sj_protocol_name(x)),
        None => "null"@,
    }
}

/// An optional number: its decimal digits, or `null`.
pub open spec fn sj_opt_u16(p: Option<u16>) -> Seq<char> {
    match p {
        Some(x) => dec_of(x as nat),
        None => "null"@,
    }
}

/// An optional boolean: `true`, `false` or `null`.
pub open spec fn sj_opt_bool(b: Option<bool>) -> Seq<char> {
    match b {
        Some(x) => sj_bool(x),
        None => "null"@,
    }
}

/// An optional string field under `key`: the value when the key is there,
/// absent otherwise.
pub open spec fn sp_opt_str_field(s: Seq<char>, key: Seq<char>) -> Option<
    (Option<Seq<char>>, Seq<char>),
> {
    match sp_lit(s, key) {
        Some(s1) => match sp_lit(s1, "null"@) {
            Some(s2) => Some((None, s2)),
            None => match sp_string(s1) {
                Some((v, s2)) => Some((Some(v), s2)),
                None => None,
            },
        },
        None => Some((None, s)),
    }
}

/// An optional device-type field under `key`.
pub open spec fn sp_opt_device_type_field(s: Seq<char>, key: Seq<char>) -> Option<
    (Option<DeviceType>, Seq<char>),
> {
    match sp_lit(s, key) {
        Some(s1) => match sp_lit(s1, "null"@) {
            Some(s2) => Some((None, s2)),
            None => match sp_string(s1) {
                Some((v, s2)) => match sp_device_type_of(v) {
                    Some(t) => Some((Some(t), s2)),
                    None => None,
                },
                None => None,
            },
        },
        None => Some((None, s)),
    }
}

/// An optional transport-scheme field under `key`.
pub open spec fn sp_opt_protocol_field(s: Seq<char>, key: Seq<char>) -> Option<
    (Option<ProtocolType>, Seq<char>),
> {
    match sp_lit(s, key) {
        Some(s1) => match sp_lit(s1, "null"@) {
            Some(s2) => Some((None, s2)),
            None => match sp_string(s1) {
                Some((v, s2)) => match sp_protocol_of(v) {
                    Some(t) => Some((Some(t), s2)),
                    None => None,
                },
                None => None,
            },
        },
        None => Some((None, s)),
    }
}

/// An optional port field under `key`.
pub open spec fn sp_opt_u16_field(s: Seq<char>, key: Seq<char>) -> Option<
    (Option<u16>, Seq<char>),
> {
    match sp_lit(s, key) {
        Some(s1) => match sp_lit(s1, "null"@) {
            Some(s2) => Some((None, s2)),
            None => match sp_u64(s1) {
                Some((v, s2)) => if v <= u16::MAX as u64 {
                    Some((Some(v as u16), s2))
                } else {
                    None
                },
                None => None,
            },
        },
        None => Some((None, s)),
    }
}

/// An optional boolean field under `key`.
pub open spec fn sp_opt_bool_field(s: Seq<char>, key: Seq<char>) -> Option<
    (Option<bool>, Seq<char>),
> {
    match sp_lit(s, key) {
        Some(s1) => match sp_lit(s1, "null"@) {
            Some(s2) => Some((None, s2)),
            None => match sp_lit(s1, "true"@) {
                Some(s2) => Some((Some(true), s2)),
                None => match sp_lit(s1, "false"@) {
                    Some(s2) => Some((Some(false), s2)),
                    None => None,
                },
            },
        },
        None => Some((None, s)),
    }
}

proof fn lemma_lit_mismatch(x: Seq<char>, lit: Seq<char>, i: int)
    requires
        0 <= i < lit.len(),
        i < x.len(),
        x[i] != lit[i],
    ensures
        sp_lit(x, lit) is None,
{
    if lit.len() <= x.len() {
        assert(x.take(lit.len() as int)[i] == x[i]);
    }
}

proof fn lemma_opt_str_field_roundtrip(key: Seq<char>, v: Option<Seq<char>>, rest: Seq<char>)
    ensures
        sp_opt_str_field(key + sj_opt_string(v) + rest, key) == Some((v, rest)),
{
    let x = key + sj_opt_string(v) + rest;
    assert(x =~= key + (sj_opt_string(v) + rest));
    lemma_lit_roundtrip(key, sj_opt_string(v) + rest);
    let s1 = sj_opt_string(v) + rest;
    match v {
        None => {
            assert(s1 =~= "null"@ + rest);
            lemma_lit_roundtrip("null"@, rest);
        },
        Some(sv) => {
            assert(s1 =~= sj_string(sv) + rest);
            assert(s1[0] == '"');
            reveal_strlit("null");
            lemma_lit_mismatch(s1, "null"@, 0);
            lemma_string_roundtrip(sv, rest);
        },
    }
}

proof fn lemma_opt_device_type_field_roundtrip(
    key: Seq<char>,
    v: Option<DeviceType>,
    rest: Seq<char>,
)
    ensures
        sp_opt_device_type_field(key + sj_opt_device_type(v) + rest, key) == Some((v, rest)),
{
    let x = key + sj_opt_device_type(v) + rest;
    assert(x =~= key + (sj_opt_device_type(v) + rest));
    lemma_lit_roundtrip(key, sj_opt_device_type(v) + rest);
    let s1 = sj_opt_device_type(v) + rest;
    match v {
        None => {
            assert(s1 =~= "null"@ + rest);
            lemma_lit_roundtrip("null"@, rest);
        },
        Some(t) => {
            assert(s1 =~= sj_string(sj_device_type_name(t)) + rest);
            assert(s1[0] == '"');
            reveal_strlit("null");
            lemma_lit_mismatch(s1, "null"@, 0);
            lemma_string_roundtrip(sj_device_type_name(t), rest);
            lemma_device_type_name_of();
        },
    }
}

proof fn lemma_device_type_name_of()
    ensures
        forall|t: DeviceType| sp_device_type_of(#[trigger] sj_device_type_name(t)) == Some(t),
{
    reveal_strlit("mobile");
    reveal_strlit("desktop");
    reveal_strlit("web");
    reveal_strlit("headless");
    reveal_strlit("server");
    assert forall|t: DeviceType| sp_device_type_of(#[trigger] sj_device_type_name(t)) == Some(
        t,
    ) by {
        assert("mobile"@.len() == 6 && "desktop"@.len() == 7 && "web"@.len() == 3 && "headless"@.len()
            == 8 && "server"@.len() == 6);
        assert("mobile"@[0] == 'm' && "server"@[0] == 's');
        match t {
            DeviceType::Mobile => {
                assert(sj_device_type_name(t) == "mobile"@);
            },
            DeviceType::Desktop => {
                assert(sj_device_type_name(t) == "desktop"@);
            },
            DeviceType::Web => {
                assert(sj_device_type_name(t) == "web"@);
            },
            DeviceType::Headless => {
                assert(sj_device_type_name(t) == "headless"@);
            },
            DeviceType::Server => {
                assert(sj_device_type_name(t) == "server"@);
                assert("server"@ != "mobile"@);
            },
        }
    }
}

proof fn lemma_protocol_name_of()
    ensures
        forall|p: ProtocolType| sp_protocol_of(#[trigger] sj_protocol_name(p)) == Some(p),
{
    reveal_strlit("http");
    reveal_strlit("https");
    assert forall|p: ProtocolType| sp_protocol_of(#[trigger] sj_protocol_name(p)) == Some(p) by {
        assert("http"@.len() == 4 && "https"@.len() == 5);
        match p {
            ProtocolType::Http => {
                assert(sj_protocol_name(p) == "http"@);
            },
            ProtocolType::Https => {
                assert(sj_protocol_name(p) == "https"@);
            },
        }
    }
}

proof fn lemma_opt_protocol_field_roundtrip(key: Seq<char>, v: Option<ProtocolType>, rest: Seq<char>)
    ensures
        sp_opt_protocol_field(key + sj_opt_protocol(v) + rest, key) == Some((v, rest)),
{
    let x = key + sj_opt_protocol(v) + rest;
    assert(x =~= key + (sj_opt_protocol(v) + rest));
    lemma_lit_roundtrip(key, sj_opt_protocol(v) + rest);
    let s1 = sj_opt_protocol(v) + rest;
    match v {
        None => {
            assert(s1 =~= "null"@ + rest);
            lemma_lit_roundtrip("null"@, rest);
        },
        Some(p) => {
            assert(s1 =~= sj_string(sj_protocol_name(p)) + rest);
            assert(s1[0] == '"');
            reveal_strlit("null");
            lemma_lit_mismatch(s1, "null"@, 0);
            lemma_string_roundtrip(sj_protocol_name(p), rest);
            lemma_protocol_name_of();
        },
    }
}

proof fn lemma_opt_u16_field_roundtrip(key: Seq<char>, v: Option<u16>, rest: Seq<char>)
    requires
        rest.len() > 0 && !is_digit(rest[0]),
    ensures
        sp_opt_u16_field(key + sj_opt_u16(v) + rest, key) == Some((v, rest)),
{
    let x = key + sj_opt_u16(v) + rest;
    assert(x =~= key + (sj_opt_u16(v) + rest));
    lemma_lit_roundtrip(key, sj_opt_u16(v) + rest);
    let s1 = sj_opt_u16(v) + rest;
    match v {
        None => {
            assert(s1 =~= "null"@ + rest);
            lemma_lit_roundtrip("null"@, rest);
        },
        Some(p) => {
            assert(s1 =~= dec_of(p as nat) + rest);
            lemma_dec_of_digits(p as nat);
            assert(s1[0] == dec_of(p as nat)[0]);
            assert(is_digit(s1[0]));
            reveal_strlit("null");
            assert(!is_digit('n'));
            lemma_lit_mismatch(s1, "null"@, 0);
            lemma_u64_roundtrip(p as u64, rest);
        },
    }
}

proof fn lemma_opt_bool_field_roundtrip(key: Seq<char>, v: Option<bool>, rest: Seq<char>)
    ensures
        sp_opt_bool_field(key + sj_opt_bool(v) + rest, key) == Some((v, rest)),
{
    let x = key + sj_opt_bool(v) + rest;
    assert(x =~= key + (sj_opt_bool(v) + rest));
    lemma_lit_roundtrip(key, sj_opt_bool(v) + rest);
    let s1 = sj_opt_bool(v) + rest;
    reveal_strlit("null");
    reveal_strlit("true");
    reveal_strlit("false");
    match v {
        None => {
            assert(s1 =~= "null"@ + rest);
            lemma_lit_roundtrip("null"@, rest);
        },
        Some(b) => {
            if b {
                assert(s1 =~= "true"@ + rest);
                assert(s1[0] == 't' && "null"@[0] == 'n');
                lemma_lit_mismatch(s1, "null"@, 0);
                lemma_lit_roundtrip("true"@, rest);
            } else {
                assert(s1 =~= "false"@ + rest);
                assert(s1[0] == 'f' && "null"@[0] == 'n' && "true"@[0] == 't');
                lemma_lit_mismatch(s1, "null"@, 0);
                lemma_lit_mismatch(s1, "true"@, 0);
                lemma_lit_roundtrip("false"@, rest);
            }
        },
    }
}


/// The canonical JSON form of a multicast announcement.
pub open spec fn sj_multicast(d: MulticastDtoView) -> Seq<char> {
    "{\"alias\":"@ + sj_string(d.alias)
        + ",\"version\":"@ + sj_opt_string(d.version)
        + ",\"deviceModel\":"@ + sj_opt_string(d.device_model)
        + ",\"deviceType\":"@ + sj_opt_device_type(d.device_type)
        + ",\"fingerprint\":"@ + sj_string(d.fingerprint)
        + ",\"port\":"@ + sj_opt_u16(d.port)
        + ",\"protocol\":"@ + sj_opt_protocol(d.protocol)
        + ",\"download\":"@ + sj_opt_bool(d.download)
        + ",\"announcement\":"@ + sj_opt_bool(d.announcement)
        + ",\"announce\":"@ + sj_opt_bool(d.announce)
        + "}"@
}

/// Parses the JSON form of a multicast announcement.
pub open spec fn sp_multicast(s: Seq<char>) -> Option<(MulticastDtoView, Seq<char>)> {
    match sp_lit(s, "{\"alias\":"@) {
        Some(s_a) => match sp_string(s_a) {
        Some((alias, r0)) => match sp_opt_str_field(r0, ",\"version\":"@) {
        Some((version, r1)) => match sp_opt_str_field(r1, ",\"deviceModel\":"@) {
        Some((device_model, r2)) => match sp_opt_device_type_field(r2, ",\"deviceType\":"@) {
        Some((device_type, r3)) => match sp_lit(r3, ",\"fingerprint\":"@) {
        Some(s_lit_fingerprint) => match sp_string(s_lit_fingerprint) {
        Some((fingerprint, r4)) => match sp_opt_u16_field(r4, ",\"port\":"@) {
        Some((port, r5)) => match sp_opt_protocol_field(r5, ",\"protocol\":"@) {
        Some((protocol, r6)) => match sp_opt_bool_field(r6, ",\"download\":"@) {
        Some((download, r7)) => match sp_opt_bool_field(r7, ",\"announcement\":"@) {
        Some((announcement, r8)) => match sp_opt_bool_field(r8, ",\"announce\":"@) {
        Some((announce, r9)) => match sp_lit(r9, "}"@) {
        Some(rest) => Some((MulticastDtoView { alias, version, device_model, device_type, fingerprint, port, protocol, download, announcement, announce }, rest)), None => None, }, None => None, }, None => None, }, None => None, }, None => None, }, None => None, }, None => None, }, None => None, }, None => None, }, None => None, }, None => None, }, None => None, }, None => None, }
}

proof fn lemma_concat3_flip(a: Seq<char>, b: Seq<char>, c: Seq<char>)
    ensures
        a + b + c == a + (b + c),
{
    vstd::seq_lib::lemma_concat_associative(a, b, c);
}

#[verifier::spinoff_prover]
proof fn lemma_multicast_parse(d: MulticastDtoView, rest: Seq<char>)
    ensures
        sp_multicast(sj_multicast(d) + rest) == Some((d, rest)),
{
    broadcast use vstd::seq_lib::group_seq_lib_default;
    let p1 = "{\"alias\":"@;
    let p2 = sj_string(d.alias);
    let p3 = ",\"version\":"@;
    let p4 = sj_opt_string(d.version);
    let p5 = ",\"deviceModel\":"@;
    let p6 = sj_opt_string(d.device_model);
    let p7 = ",\"deviceType\":"@;
    let p8 = sj_opt_device_type(d.device_type);
    let p9 = ",\"fingerprint\":"@;
    let p10 = sj_string(d.fingerprint);
    let p11 = ",\"port\":"@;
    let p12 = sj_opt_u16(d.port);
    let p13 = ",\"protocol\":"@;
    let p14 = sj_opt_protocol(d.protocol);
    let p15 = ",\"download\":"@;
    let p16 = sj_opt_bool(d.download);
    let p17 = ",\"announcement\":"@;
    let p18 = sj_opt_bool(d.announcement);
    let p19 = ",\"announce\":"@;
    let p20 = sj_opt_bool(d.announce);
    let p21 = "}"@;
    let s2 = p1 + p2;
    let s3 = s2 + p3;
    let s4 = s3 + p4;
    let s5 = s4 + p5;
    let s6 = s5 + p6;
    let s7 = s6 + p7;
    let s8 = s7 + p8;
    let s9 = s8 + p9;
    let s10 = s9 + p10;
    let s11 = s10 + p11;
    let s12 = s11 + p12;
    let s13 = s12 + p13;
    let s14 = s13 + p14;
    let s15 = s14 + p15;
    let s16 = s15 + p16;
    let s17 = s16 + p17;
    let s18 = s17 + p18;
    let s19 = s18 + p19;
    let s20 = s19 + p20;
    let s21 = s20 + p21;
    assert(sj_multicast(d) == s21);
    let x = sj_multicast(d) + rest;
    let t9 = p21 + rest;
    let t8 = p19 + p20 + t9;
    let t7 = p17 + p18 + t8;
    let t6 = p15 + p16 + t7;
    let t5 = p13 + p14 + t6;
    let t4 = p11 + p12 + t5;
    let t3 = p9 + p10 + t4;
    let t2 = p7 + p8 + t3;
    let t1 = p5 + p6 + t2;
    let t0 = p3 + p4 + t1;
    vstd::seq_lib::lemma_concat_associative(s20, p21, rest);
    assert(x == s20 + t9);
    vstd::seq_lib::lemma_concat_associative(s19, p20, t9);
    vstd::seq_lib::lemma_concat_associative(s18, p19, p20 + t9);
    vstd::seq_lib::lemma_concat_associative(p19, p20, t9);
    assert(s20 + t9 == s18 + t8);
    vstd::seq_lib::lemma_concat_associative(s17, p18, t8);
    vstd::seq_lib::lemma_concat_associative(s16, p17, p18 + t8);
    vstd::seq_lib::lemma_concat_associative(p17, p18, t8);
    assert(s18 + t8 == s16 + t7);
    vstd::seq_lib::lemma_concat_associative(s15, p16, t7);
    vstd::seq_lib::lemma_concat_associative(s14, p15, p16 + t7);
    vstd::seq_lib::lemma_concat_associative(p15, p16, t7);
    assert(s16 + t7 == s14 + t6);
    vstd::seq_lib::lemma_concat_associative(s13, p14, t6);
    vstd::seq_lib::lemma_concat_associative(s12, p13, p14 + t6);
    vstd::seq_lib::lemma_concat_associative(p13, p14, t6);
    assert(s14 + t6 == s12 + t5);
    vstd::seq_lib::lemma_concat_associative(s11, p12, t5);
    vstd::seq_lib::lemma_concat_associative(s10, p11, p12 + t5);
    vstd::seq_lib::lemma_concat_associative(p11, p12, t5);
    assert(s12 + t5 == s10 + t4);
    vstd::seq_lib::lemma_concat_associative(s9, p10, t4);
    vstd::seq_lib::lemma_concat_associative(s8, p9, p10 + t4);
    vstd::seq_lib::lemma_concat_associative(p9, p10, t4);
    assert(s10 + t4 == s8 + t3);
    vstd::seq_lib::lemma_concat_associative(s7, p8, t3);
    vstd::seq_lib::lemma_concat_associative(s6, p7, p8 + t3);
    vstd::seq_lib::lemma_concat_associative(p7, p8, t3);
    assert(s8 + t3 == s6 + t2);
    vstd::seq_lib::lemma_concat_associative(s5, p6, t2);
    vstd::seq_lib::lemma_concat_associative(s4, p5, p6 + t2);
    vstd::seq_lib::lemma_concat_associative(p5, p6, t2);
    assert(s6 + t2 == s4 + t1);
    vstd::seq_lib::lemma_concat_associative(s3, p4, t1);
    vstd::seq_lib::lemma_concat_associative(s2, p3, p4 + t1);
    vstd::seq_lib::lemma_concat_associative(p3, p4, t1);
    assert(s4 + t1 == s2 + t0);
    vstd::seq_lib::lemma_concat_associative(p1, p2, t0);
    assert(x == p1 + (p2 + t0));
    lemma_lit_roundtrip(p1, p2 + t0);
    assert(sp_lit(x, p1) == Some(p2 + t0));
    lemma_string_roundtrip(d.alias, t0);
    lemma_opt_str_field_roundtrip(",\"version\":"@, d.version, t1);
    lemma_opt_str_field_roundtrip(",\"deviceModel\":"@, d.device_model, t2);
    lemma_opt_device_type_field_roundtrip(",\"deviceType\":"@, d.device_type, t3);
    lemma_concat3_flip(",\"fingerprint\":"@, sj_string(d.fingerprint), t4);
    lemma_lit_roundtrip(",\"fingerprint\":"@, sj_string(d.fingerprint) + t4);
    assert(sp_lit(t3, ",\"fingerprint\":"@) == Some(sj_string(d.fingerprint) + t4));
    lemma_string_roundtrip(d.fingerprint, t4);
    reveal_strlit(",\"protocol\":");
    assert(t5.len() > 0 && t5[0] == ',');
    assert(!is_digit(','));
    lemma_opt_u16_field_roundtrip(",\"port\":"@, d.port, t5);
    lemma_opt_protocol_field_roundtrip(",\"protocol\":"@, d.protocol, t6);
    lemma_opt_bool_field_roundtrip(",\"download\":"@, d.download, t7);
    lemma_opt_bool_field_roundtrip(",\"announcement\":"@, d.announcement, t8);
    lemma_opt_bool_field_roundtrip(",\"announce\":"@, d.announce, t9);
    lemma_lit_roundtrip(p21, rest);
    assert(sp_lit(t9, p21) == Some(rest));
}

/// The canonical JSON form of a registration.
pub open spec fn sj_register(d: RegisterDtoView) -> Seq<char> {
    "{\"alias\":"@ + sj_string(d.alias)
        + ",\"version\":"@ + sj_opt_string(d.version)
        + ",\"deviceModel\":"@ + sj_opt_string(d.device_model)
        + ",\"deviceType\":"@ + sj_opt_device_type(d.device_type)
        + ",\"fingerprint\":"@ + sj_string(d.fingerprint)
        + ",\"port\":"@ + sj_opt_u16(d.port)
        + ",\"protocol\":"@ + sj_opt_protocol(d.protocol)
        + ",\"download\":"@ + sj_opt_bool(d.download)
        + "}"@
}

/// Parses the JSON form of a registration.
pub open spec fn sp_register(s: Seq<char>) -> Option<(RegisterDtoView, Seq<char>)> {
    match sp_lit(s, "{\"alias\":"@) {
        Some(s_a) => match sp_string(s_a) {
        Some((alias, r0)) => match sp_opt_str_field(r0, ",\"version\":"@) {
        Some((version, r1)) => match sp_opt_str_field(r1, ",\"deviceModel\":"@) {
        Some((device_model, r2)) => match sp_opt_device_type_field(r2, ",\"deviceType\":"@) {
        Some((device_type, r3)) => match sp_lit(r3, ",\"fingerprint\":"@) {
        Some(s_lit_fingerprint) => match sp_string(s_lit_fingerprint) {
        Some((fingerprint, r4)) => match sp_opt_u16_field(r4, ",\"port\":"@) {
        Some((port, r5)) => match sp_opt_protocol_field(r5, ",\"protocol\":"@) {
        Some((protocol, r6)) => match sp_opt_bool_field(r6, ",\"download\":"@) {
        Some((download, r7)) => match sp_lit(r7, "}"@) {
        Some(rest) => Some((RegisterDtoView { alias, version, device_model, device_type, fingerprint, port, protocol, download }, rest)), None => None, }, None => None, }, None => None, }, None => None, }, None => None, }, None => None, }, None => None, }, None => None, }, None => None, }, None => None, }, None => None, }
}

#[verifier::spinoff_prover]
proof fn lemma_register_parse(d: RegisterDtoView, rest: Seq<char>)
    ensures
        sp_register(sj_register(d) + rest) == Some((d, rest)),
{
    broadcast use vstd::seq_lib::group_seq_lib_default;
    let p1 = "{\"alias\":"@;
    let p2 = sj_string(d.alias);
    let p3 = ",\"version\":"@;
    let p4 = sj_opt_string(d.version);
    let p5 = ",\"deviceModel\":"@;
    let p6 = sj_opt_string(d.device_model);
    let p7 = ",\"deviceType\":"@;
    let p8 = sj_opt_device_type(d.device_type);
    let p9 = ",\"fingerprint\":"@;
    let p10 = sj_string(d.fingerprint);
    let p11 = ",\"port\":"@;
    let p12 = sj_opt_u16(d.port);
    let p13 = ",\"protocol\":"@;
    let p14 = sj_opt_protocol(d.protocol);
    let p15 = ",\"download\":"@;
    let p16 = sj_opt_bool(d.download);
    let p17 = "}"@;
    let s2 = p1 + p2;
    let s3 = s2 + p3;
    let s4 = s3 + p4;
    let s5 = s4 + p5;
    let s6 = s5 + p6;
    let s7 = s6 + p7;
    let s8 = s7 + p8;
    let s9 = s8 + p9;
    let s10 = s9 + p10;
    let s11 = s10 + p11;
    let s12 = s11 + p12;
    let s13 = s12 + p13;
    let s14 = s13 + p14;
    let s15 = s14 + p15;
    let s16 = s15 + p16;
    let s17 = s16 + p17;
    assert(sj_register(d) == s17);
    let x = sj_register(d) + rest;
    let t7 = p17 + rest;
    let t6 = p15 + p16 + t7;
    let t5 = p13 + p14 + t6;
    let t4 = p11 + p12 + t5;
    let t3 = p9 + p10 + t4;
    let t2 = p7 + p8 + t3;
    let t1 = p5 + p6 + t2;
    let t0 = p3 + p4 + t1;
    vstd::seq_lib::lemma_concat_associative(s16, p17, rest);
    assert(x == s16 + t7);
    vstd::seq_lib::lemma_concat_associative(s15, p16, t7);
    vstd::seq_lib::lemma_concat_associative(s14, p15, p16 + t7);
    vstd::seq_lib::lemma_concat_associative(p15, p16, t7);
    assert(s16 + t7 == s14 + t6);
    vstd::seq_lib::lemma_concat_associative(s13, p14, t6);
    vstd::seq_lib::lemma_concat_associative(s12, p13, p14 + t6);
    vstd::seq_lib::lemma_concat_associative(p13, p14, t6);
    assert(s14 + t6 == s12 + t5);
    vstd::seq_lib::lemma_concat_associative(s11, p12, t5);
    vstd::seq_lib::lemma_concat_associative(s10, p11, p12 + t5);
    vstd::seq_lib::lemma_concat_associative(p11, p12, t5);
    assert(s12 + t5 == s10 + t4);
    vstd::seq_lib::lemma_concat_associative(s9, p10, t4);
    vstd::seq_lib::lemma_concat_associative(s8, p9, p10 + t4);
    vstd::seq_lib::lemma_concat_associative(p9, p10, t4);
    assert(s10 + t4 == s8 + t3);
    vstd::seq_lib::lemma_concat_associative(s7, p8, t3);
    vstd::seq_lib::lemma_concat_associative(s6, p7, p8 + t3);
    vstd::seq_lib::lemma_concat_associative(p7, p8, t3);
    assert(s8 + t3 == s6 + t2);
    vstd::seq_lib::lemma_concat_associative(s5, p6, t2);
    vstd::seq_lib::lemma_concat_associative(s4, p5, p6 + t2);
    vstd::seq_lib::lemma_concat_associative(p5, p6, t2);
    assert(s6 + t2 == s4 + t1);
    vstd::seq_lib::lemma_concat_associative(s3, p4, t1);
    vstd::seq_lib::lemma_concat_associative(s2, p3, p4 + t1);
    vstd::seq_lib::lemma_concat_associative(p3, p4, t1);
    assert(s4 + t1 == s2 + t0);
    vstd::seq_lib::lemma_concat_associative(p1, p2, t0);
    assert(x == p1 + (p2 + t0));
    lemma_lit_roundtrip(p1, p2 + t0);
    assert(sp_lit(x, p1) == Some(p2 + t0));
    lemma_string_roundtrip(d.alias, t0);
    lemma_opt_str_field_roundtrip(",\"version\":"@, d.version, t1);
    lemma_opt_str_field_roundtrip(",\"deviceModel\":"@, d.device_model, t2);
    lemma_opt_device_type_field_roundtrip(",\"deviceType\":"@, d.device_type, t3);
    lemma_concat3_flip(",\"fingerprint\":"@, sj_string(d.fingerprint), t4);
    lemma_lit_roundtrip(",\"fingerprint\":"@, sj_string(d.fingerprint) + t4);
    assert(sp_lit(t3, ",\"fingerprint\":"@) == Some(sj_string(d.fingerprint) + t4));
    lemma_string_roundtrip(d.fingerprint, t4);
    reveal_strlit(",\"protocol\":");
    assert(t5.len() > 0 && t5[0] == ',');
    assert(!is_digit(','));
    lemma_opt_u16_field_roundtrip(",\"port\":"@, d.port, t5);
    lemma_opt_protocol_field_roundtrip(",\"protocol\":"@, d.protocol, t6);
    lemma_opt_bool_field_roundtrip(",\"download\":"@, d.download, t7);
    lemma_lit_roundtrip(p17, rest);
    assert(sp_lit(t7, p17) == Some(rest));
}


/// The canonical JSON form of a file descriptor.
pub open spec fn sj_file(f: crate::dto::FileDtoView) -> Seq<char> {
    "{\"id\":"@ + sj_string(f.id) + ",\"fileName\":"@ + sj_string(f.file_name) + ",\"size\":"@
        + dec_of(f.size as nat) + ",\"fileType\":"@ + sj_string(
        crate::dto::spec_file_type_name(f.file_type),
    ) + ",\"hash\":"@ + sj_opt_string(f.hash) + ",\"preview\":"@ + sj_opt_string(f.preview) + "}"@
}

/// Parses the JSON form of a file descriptor; the category is derived from
/// the `fileType` string as a MIME name.
pub open spec fn sp_file(s: Seq<char>) -> Option<(crate::dto::FileDtoView, Seq<char>)> {
    match sp_lit(s, "{\"id\":"@) {
        Some(s_a) => match sp_string(s_a) {
            Some((id, r0)) => match sp_lit(r0, ",\"fileName\":"@) {
                Some(s_b) => match sp_string(s_b) {
                    Some((file_name, r1)) => match sp_lit(r1, ",\"size\":"@) {
                        Some(s_c) => match sp_u64(s_c) {
                            Some((size, r2)) => match sp_lit(r2, ",\"fileType\":"@) {
                                Some(s_d) => match sp_string(s_d) {
                                    Some((tname, r3)) => match sp_opt_str_field(
                                        r3,
                                        ",\"hash\":"@,
                                    ) {
                                        Some((hash, r4)) => match sp_opt_str_field(
                                            r4,
                                            ",\"preview\":"@,
                                        ) {
                                            Some((preview, r5)) => match sp_lit(r5, "}"@) {
                                                Some(rest) => Some(
                                                    (
                                                        crate::dto::FileDtoView {
                                                            id,
                                                            file_name,
                                                            size,
                                                            file_type: crate::dto::spec_file_type_of_mime(
                                                                tname,
                                                            ),
                                                            hash,
                                                            preview,
                                                        },
                                                        rest,
                                                    ),
                                                ),
                                                None => None,
                                            },
                                            None => None,
                                        },
                                        None => None,
                                    },
                                    None => None,
                                },
                                None => None,
                            },
                            None => None,
                        },
                        None => None,
                    },
                    None => None,
                },
                None => None,
            },
            None => None,
        },
        None => None,
    }
}

/// The category named by a category's own wire name is that category.
pub proof fn lemma_file_type_name_of()
    ensures
        forall|t: crate::dto::FileType|
            crate::dto::spec_file_type_of_mime(#[trigger] crate::dto::spec_file_type_name(t)) == t,
{
    reveal_strlit("image");
    reveal_strlit("video");
    reveal_strlit("pdf");
    reveal_strlit("text");
    reveal_strlit("apk");
    reveal_strlit("other");
    reveal_strlit("image/");
    reveal_strlit("video/");
    reveal_strlit("text/");
    reveal_strlit("application/pdf");
    reveal_strlit("application/vnd.android.package-archive");
    assert forall|t: crate::dto::FileType|
        crate::dto::spec_file_type_of_mime(#[trigger] crate::dto::spec_file_type_name(t))
            == t by {
        assert("image"@.len() == 5 && "video"@.len() == 5 && "pdf"@.len() == 3 && "text"@.len() == 4
            && "apk"@.len() == 3 && "other"@.len() == 5);
        assert("image/"@.len() == 6 && "video/"@.len() == 6 && "text/"@.len() == 5
            && "application/pdf"@.len() == 15 && "application/vnd.android.package-archive"@.len()
            == 39);
        match t {
            crate::dto::FileType::Image => {
                assert(crate::dto::spec_file_type_name(t) == "image"@);
            },
            crate::dto::FileType::Video => {
                assert(crate::dto::spec_file_type_name(t) == "video"@);
                assert("video"@[0] == 'v' && "image"@[0] == 'i');
            },
            crate::dto::FileType::Pdf => {
                assert(crate::dto::spec_file_type_name(t) == "pdf"@);
                assert("pdf"@[0] == 'p' && "image"@[0] == 'i' && "video"@[0] == 'v');
            },
            crate::dto::FileType::Text => {
                assert(crate::dto::spec_file_type_name(t) == "text"@);
            },
            crate::dto::FileType::Apk => {
                assert(crate::dto::spec_file_type_name(t) == "apk"@);
                assert("apk"@[0] == 'a' && "pdf"@[0] == 'p' && "image"@[0] == 'i' && "video"@[0]
                    == 'v');
            },
            crate::dto::FileType::Other => {
                assert(crate::dto::spec_file_type_name(t) == "other"@);
                assert("other"@[0] == 'o' && "image"@[0] == 'i' && "video"@[0] == 'v' && "text"@[0]
                    == 't');
                assert(!"text/"@.is_prefix_of("other"@)) by {
                    assert("other"@.subrange(0, 5)[0] == 'o');
                    assert("text/"@[0] == 't');
                }
            },
        }
    }
}

#[verifier::spinoff_prover]
proof fn lemma_file_parse(f: crate::dto::FileDtoView, rest: Seq<char>)
    ensures
        sp_file(sj_file(f) + rest) == Some((f, rest)),
{
    let p1 = "{\"id\":"@;
    let p2 = sj_string(f.id);
    let p3 = ",\"fileName\":"@;
    let p4 = sj_string(f.file_name);
    let p5 = ",\"size\":"@;
    let p6 = dec_of(f.size as nat);
    let p7 = ",\"fileType\":"@;
    let p8 = sj_string(crate::dto::spec_file_type_name(f.file_type));
    let p9 = ",\"hash\":"@;
    let p10 = sj_opt_string(f.hash);
    let p11 = ",\"preview\":"@;
    let p12 = sj_opt_string(f.preview);
    let p13 = "}"@;
    let s2 = p1 + p2;
    let s3 = s2 + p3;
    let s4 = s3 + p4;
    let s5 = s4 + p5;
    let s6 = s5 + p6;
    let s7 = s6 + p7;
    let s8 = s7 + p8;
    let s9 = s8 + p9;
    let s10 = s9 + p10;
    let s11 = s10 + p11;
    let s12 = s11 + p12;
    let s13 = s12 + p13;
    assert(sj_file(f) == s13);
    let x = sj_file(f) + rest;
    let t6 = p13 + rest;
    let t5 = p11 + p12 + t6;
    let t4 = p9 + p10 + t5;
    let t3 = p7 + p8 + t4;
    let t2 = p5 + p6 + t3;
    let t1 = p3 + p4 + t2;
    vstd::seq_lib::lemma_concat_associative(s12, p13, rest);
    assert(x == s12 + t6);
    vstd::seq_lib::lemma_concat_associative(s11, p12, t6);
    vstd::seq_lib::lemma_concat_associative(s10, p11, p12 + t6);
    vstd::seq_lib::lemma_concat_associative(p11, p12, t6);
    assert(s12 + t6 == s10 + t5);
    vstd::seq_lib::lemma_concat_associative(s9, p10, t5);
    vstd::seq_lib::lemma_concat_associative(s8, p9, p10 + t5);
    vstd::seq_lib::lemma_concat_associative(p9, p10, t5);
    assert(s10 + t5 == s8 + t4);
    vstd::seq_lib::lemma_concat_associative(s7, p8, t4);
    vstd::seq_lib::lemma_concat_associative(s6, p7, p8 + t4);
    vstd::seq_lib::lemma_concat_associative(p7, p8, t4);
    assert(s8 + t4 == s6 + t3);
    vstd::seq_lib::lemma_concat_associative(s5, p6, t3);
    vstd::seq_lib::lemma_concat_associative(s4, p5, p6 + t3);
    vstd::seq_lib::lemma_concat_associative(p5, p6, t3);
    assert(s6 + t3 == s4 + t2);
    vstd::seq_lib::lemma_concat_associative(s3, p4, t2);
    vstd::seq_lib::lemma_concat_associative(s2, p3, p4 + t2);
    vstd::seq_lib::lemma_concat_associative(p3, p4, t2);
    assert(s4 + t2 == s2 + t1);
    vstd::seq_lib::lemma_concat_associative(p1, p2, t1);
    assert(x == p1 + (p2 + t1));
    lemma_lit_roundtrip(p1, p2 + t1);
    assert(sp_lit(x, p1) == Some(p2 + t1));
    lemma_string_roundtrip(f.id, t1);
    lemma_concat3_flip(p3, p4, t2);
    lemma_lit_roundtrip(p3, p4 + t2);
    assert(sp_lit(t1, p3) == Some(p4 + t2));
    lemma_string_roundtrip(f.file_name, t2);
    lemma_concat3_flip(p5, p6, t3);
    lemma_lit_roundtrip(p5, p6 + t3);
    assert(sp_lit(t2, p5) == Some(p6 + t3));
    reveal_strlit(",\"fileType\":");
    assert(t3.len() > 0 && t3[0] == ',');
    assert(!is_digit(','));
    lemma_u64_roundtrip(f.size, t3);
    lemma_concat3_flip(p7, p8, t4);
    lemma_lit_roundtrip(p7, p8 + t4);
    assert(sp_lit(t3, p7) == Some(p8 + t4));
    lemma_string_roundtrip(crate::dto::spec_file_type_name(f.file_type), t4);
    lemma_file_type_name_of();
    lemma_opt_str_field_roundtrip(p9, f.hash, t5);
    lemma_opt_str_field_roundtrip(p11, f.preview, t6);
    lemma_lit_roundtrip(p13, rest);
    assert(sp_lit(t6, p13) == Some(rest));
}

/// Parses a complete multicast announcement: the whole input must be the
/// one JSON object.
pub open spec fn sp_multicast_full(s: Seq<char>) -> Option<MulticastDtoView> {
    match sp_multicast(s) {
        Some((d, rest)) => if rest.len() == 0 {
            Some(d)
        } else {
            None
        },
        None => None,
    }
}

/// Parses a complete registration.
pub open spec fn sp_register_full(s: Seq<char>) -> Option<RegisterDtoView> {
    match sp_register(s) {
        Some((d, rest)) => if rest.len() == 0 {
            Some(d)
        } else {
            None
        },
        None => None,
    }
}

/// Parses a complete file descriptor.
pub open spec fn sp_file_full(s: Seq<char>) -> Option<crate::dto::FileDtoView> {
    match sp_file(s) {
        Some((d, rest)) => if rest.len() == 0 {
            Some(d)
        } else {
            None
        },
        None => None,
    }
}

/// The law of the multicast round trip: serializing any announcement and
/// parsing the result gives the announcement back.
pub proof fn lemma_multicast_roundtrip(d: MulticastDtoView)
    ensures
        sp_multicast_full(sj_multicast(d)) == Some(d),
{
    lemma_multicast_parse(d, Seq::empty());
    assert(sj_multicast(d) + Seq::<char>::empty() =~= sj_multicast(d));
}

/// The law of the registration round trip: serializing any registration
/// and parsing the result gives the registration back.
pub proof fn lemma_register_roundtrip(d: RegisterDtoView)
    ensures
        sp_register_full(sj_register(d)) == Some(d),
{
    lemma_register_parse(d, Seq::empty());
    assert(sj_register(d) + Seq::<char>::empty() =~= sj_register(d));
}

/// The law of the file-descriptor round trip: serializing any descriptor
/// and parsing the result gives the descriptor back.
pub proof fn lemma_file_roundtrip(f: crate::dto::FileDtoView)
    ensures
        sp_file_full(sj_file(f)) == Some(f),
{
    lemma_file_parse(f, Seq::empty());
    assert(sj_file(f) + Seq::<char>::empty() =~= sj_file(f));
}


/// The members of a token map: `"file_id":"token"` pairs.
pub open spec fn sj_token_pairs(files: Seq<(Seq<char>, Seq<char>)>) -> Seq<char>
    decreases files.len(),
{
    if files.len() == 0 {
        Seq::empty()
    } else if files.len() == 1 {
        sj_string(files[0].0) + ":"@ + sj_string(files[0].1)
    } else {
        sj_token_pairs(files.drop_last()) + ","@ + sj_string(files.last().0) + ":"@ + sj_string(
            files.last().1,
        )
    }
}

/// A token map: the version 1 prepare-upload response body.
pub open spec fn sj_token_map(files: Seq<(Seq<char>, Seq<char>)>) -> Seq<char> {
    "{"@ + sj_token_pairs(files) + "}"@
}

/// The version 2 prepare-upload response body.
pub open spec fn sj_prepare_response(d: crate::dto::PrepareUploadResponseDtoView) -> Seq<char> {
    "{\"sessionId\":"@ + sj_string(d.session_id) + ",\"files\":"@ + sj_token_map(d.files) + "}"@
}

/// Parses the members of a token map, at most `fuel` of them.
pub open spec fn sp_token_pairs(s: Seq<char>, fuel: nat) -> Option<
    (Seq<(Seq<char>, Seq<char>)>, Seq<char>),
>
    decreases fuel,
{
    if fuel == 0 {
        None
    } else {
        match sp_string(s) {
            Some((k, r1)) => match sp_lit(r1, ":"@) {
                Some(r2) => match sp_string(r2) {
                    Some((v, r3)) => if r3.len() > 0 && r3[0] == ',' {
                        match sp_token_pairs(r3.skip(1), (fuel - 1) as nat) {
                            Some((tail, rest)) => Some((seq![(k, v)] + tail, rest)),
                            None => None,
                        }
                    } else {
                        Some((seq![(k, v)], r3))
                    },
                    None => None,
                },
                None => None,
            },
            None => None,
        }
    }
}

/// Parses a token map.
pub open spec fn sp_token_map(s: Seq<char>) -> Option<(Seq<(Seq<char>, Seq<char>)>, Seq<char>)> {
    match sp_lit(s, "{"@) {
        Some(s1) => match sp_lit(s1, "}"@) {
            Some(s2) => Some((Seq::empty(), s2)),
            None => match sp_token_pairs(s1, s1.len()) {
                Some((pairs, r)) => match sp_lit(r, "}"@) {
                    Some(rest) => Some((pairs, rest)),
                    None => None,
                },
                None => None,
            },
        },
        None => None,
    }
}

/// Parses a complete token map.
pub open spec fn sp_token_map_full(s: Seq<char>) -> Option<Seq<(Seq<char>, Seq<char>)>> {
    match sp_token_map(s) {
        Some((pairs, rest)) => if rest.len() == 0 {
            Some(pairs)
        } else {
            None
        },
        None => None,
    }
}

/// Parses a version 2 prepare-upload response.
pub open spec fn sp_prepare_response(s: Seq<char>) -> Option<
    (crate::dto::PrepareUploadResponseDtoView, Seq<char>),
> {
    match sp_lit(s, "{\"sessionId\":"@) {
        Some(s1) => match sp_string(s1) {
            Some((sid, r1)) => match sp_lit(r1, ",\"files\":"@) {
                Some(r2) => match sp_token_map(r2) {
                    Some((pairs, r3)) => match sp_lit(r3, "}"@) {
                        Some(rest) => Some(
                            (
                                crate::dto::PrepareUploadResponseDtoView {
                                    session_id: sid,
                                    files: pairs,
                                },
                                rest,
                            ),
                        ),
                        None => None,
                    },
                    None => None,
                },
                None => None,
            },
            None => None,
        },
        None => None,
    }
}

/// Parses a complete version 2 prepare-upload response.
pub open spec fn sp_prepare_response_full(s: Seq<char>) -> Option<
    crate::dto::PrepareUploadResponseDtoView,
> {
    match sp_prepare_response(s) {
        Some((d, rest)) => if rest.len() == 0 {
            Some(d)
        } else {
            None
        },
        None => None,
    }
}

/// The members of a file map: `"file_id":{...}` pairs, keyed by each
/// file's own id.
pub open spec fn sj_file_pairs(files: Seq<crate::dto::FileDtoView>) -> Seq<char>
    decreases files.len(),
{
    if files.len() == 0 {
        Seq::empty()
    } else if files.len() == 1 {
        sj_string(files[0].id) + ":"@ + sj_file(files[0])
    } else {
        sj_file_pairs(files.drop_last()) + ","@ + sj_string(files.last().id) + ":"@ + sj_file(
            files.last(),
        )
    }
}

/// The prepare-upload request body.
pub open spec fn sj_prepare_request(d: crate::dto::PrepareUploadRequestDtoView) -> Seq<char> {
    "{\"info\":"@ + sj_register(d.info) + ",\"files\":{"@ + sj_file_pairs(d.files) + "}}"@
}

/// Parses the members of a file map, at most `fuel` of them; the keys are
/// dropped, each descriptor carries its id.
pub open spec fn sp_file_pairs(s: Seq<char>, fuel: nat) -> Option<
    (Seq<crate::dto::FileDtoView>, Seq<char>),
>
    decreases fuel,
{
    if fuel == 0 {
        None
    } else {
        match sp_string(s) {
            Some((k, r1)) => match sp_lit(r1, ":"@) {
                Some(r2) => match sp_file(r2) {
                    Some((f, r3)) => if r3.len() > 0 && r3[0] == ',' {
                        match sp_file_pairs(r3.skip(1), (fuel - 1) as nat) {
                            Some((tail, rest)) => Some((seq![f] + tail, rest)),
                            None => None,
                        }
                    } else {
                        Some((seq![f], r3))
                    },
                    None => None,
                },
                None => None,
            },
            None => None,
        }
    }
}

/// Parses a prepare-upload request.
pub open spec fn sp_prepare_request(s: Seq<char>) -> Option<
    (crate::dto::PrepareUploadRequestDtoView, Seq<char>),
> {
    match sp_lit(s, "{\"info\":"@) {
        Some(s1) => match sp_register(s1) {
            Some((info, r1)) => match sp_lit(r1, ",\"files\":{"@) {
                Some(r2) => match (if r2.len() > 0 && r2[0] == '}' {
                    Some((Seq::<crate::dto::FileDtoView>::empty(), r2.skip(1)))
                } else {
                    sp_file_pairs(r2, r2.len())
                }) {
                    Some((files, r3)) => match (if files.len() == 0 {
                        Some(r3)
                    } else {
                        sp_lit(r3, "}"@)
                    }) {
                        Some(r4) => match sp_lit(r4, "}"@) {
                            Some(rest) => Some(
                                (
                                    crate::dto::PrepareUploadRequestDtoView { info, files },
                                    rest,
                                ),
                            ),
                            None => None,
                        },
                        None => None,
                    },
                    None => None,
                },
                None => None,
            },
            None => None,
        },
        None => None,
    }
}

/// Parses a complete prepare-upload request.
pub open spec fn sp_prepare_request_full(s: Seq<char>) -> Option<
    crate::dto::PrepareUploadRequestDtoView,
> {
    match sp_prepare_request(s) {
        Some((d, rest)) => if rest.len() == 0 {
            Some(d)
        } else {
            None
        },
        None => None,
    }
}


proof fn lemma_esc_string_snoc(p: Seq<char>, c: char)
    ensures
        esc_string(p.push(c)) == esc_string(p) + esc_char(c),
    decreases p.len(),
{
    if p.len() == 0 {
        assert(p.push(c)[0] == c);
        assert(p.push(c).drop_first() =~= Seq::<char>::empty());
        assert(esc_string(p.push(c)) == esc_char(c) + esc_string(Seq::<char>::empty()));
        assert(esc_char(c) + Seq::<char>::empty() =~= esc_char(c));
        assert(esc_string(p) + esc_char(c) =~= esc_char(c));
    } else {
        assert(p.push(c)[0] == p[0]);
        assert(p.push(c).drop_first() =~= p.drop_first().push(c));
        lemma_esc_string_snoc(p.drop_first(), c);
        assert(esc_string(p.push(c)) == esc_char(p[0]) + (esc_string(p.drop_first()) + esc_char(
            c,
        )));
        vstd::seq_lib::lemma_concat_associative(esc_char(p[0]), esc_string(p.drop_first()), esc_char(c));
    }
}

/// A hexadecimal digit character.
fn hex_digit_char(d: u8) -> (r: char)
    requires
        d < 16,
    ensures
        r == hex_digit(d as int),
{
    if d < 10 {
        (48 + d) as char
    } else {
        (87 + d) as char
    }
}

/// Appends one character in its escaped form.
fn append_escaped_char(out: &mut String, c: char)
    ensures
        final(out)@ == old(out)@ + esc_char(c),
{
    let ghost start = out@;
    if c == '"' {
        crate::text::push_char(out, '\\');
        crate::text::push_char(out, '"');
        proof {
            assert(out@ =~= start + esc_char(c));
        }
    } else if c == '\\' {
        crate::text::push_char(out, '\\');
        crate::text::push_char(out, '\\');
        proof {
            assert(out@ =~= start + esc_char(c));
        }
    } else if c == '\u{8}' || c == '\u{9}' || c == '\u{A}' || c == '\u{C}' || c == '\u{D}' {
        let e: char = if c == '\u{8}' {
            'b'
        } else if c == '\u{9}' {
            't'
        } else if c == '\u{A}' {
            'n'
        } else if c == '\u{C}' {
            'f'
        } else {
            'r'
        };
        crate::text::push_char(out, '\\');
        crate::text::push_char(out, e);
        proof {
            assert(out@ =~= start + esc_char(c));
        }
    } else {
        let code: u32 = c as u32;
        proof {
            lemma_char_bounds(c);
        }
        if code < 0x20 {
            crate::text::push_char(out, '\\');
            crate::text::push_char(out, 'u');
            crate::text::push_char(out, '0');
            crate::text::push_char(out, '0');
            let hi: u8 = (code / 16) as u8;
            let lo: u8 = (code % 16) as u8;
            crate::text::push_char(out, hex_digit_char(hi));
            crate::text::push_char(out, hex_digit_char(lo));
            proof {
                assert(hi as int == c as int / 16 && lo as int == c as int % 16);
                assert(out@ =~= start + esc_char(c));
            }
        } else {
            crate::text::push_char(out, c);
            proof {
                assert(out@ =~= start + esc_char(c));
            }
        }
    }
}

/// Appends a JSON string: the value escaped, between quotes.
pub fn append_json_string(out: &mut String, s: &str)
    ensures
        final(out)@ == old(out)@ + sj_string(s@),
{
    let ghost start = out@;
    crate::text::push_char(out, '"');
    let n = s.unicode_len();
    let mut i: usize = 0;
    while i < n
        invariant
            i <= n,
            n == s@.len(),
            out@ == start.push('"') + esc_string(s@.take(i as int)),
        decreases n - i,
    {
        let c = s.get_char(i);
        proof {
            assert(esc_string(s@.take(i as int)) + esc_char(c) == esc_string(
                s@.take(i as int).push(c),
            )) by {
                lemma_esc_string_snoc(s@.take(i as int), c);
            }
            assert(s@.take(i as int).push(c) =~= s@.take(i + 1));
            vstd::seq_lib::lemma_concat_associative(
                start.push('"'),
                esc_string(s@.take(i as int)),
                esc_char(c),
            );
        }
        append_escaped_char(out, c);
        i += 1;
    }
    proof {
        assert(s@.take(n as int) =~= s@);
    }
    crate::text::push_char(out, '"');
    proof {
        assert(out@ =~= start + sj_string(s@));
    }
}

/// Appends an optional JSON string, `null` when absent.
fn append_opt_json_string(out: &mut String, s: &Option<String>)
    ensures
        final(out)@ == old(out)@ + sj_opt_string(s.deep_view()),
{
    match s {
        Some(x) => append_json_string(out, x.as_str()),
        None => out.append("null"),
    }
}

/// Appends an optional number, `null` when absent.
fn append_opt_u16(out: &mut String, p: &Option<u16>)
    ensures
        final(out)@ == old(out)@ + sj_opt_u16(*p),
{
    match p {
        Some(x) => crate::text::append_u64(out, *x as u64),
        None => out.append("null"),
    }
}

/// Appends an optional boolean, `null` when absent.
fn append_opt_bool(out: &mut String, b: &Option<bool>)
    ensures
        final(out)@ == old(out)@ + sj_opt_bool(*b),
{
    match b {
        Some(true) => out.append("true"),
        Some(false) => out.append("false"),
        None => out.append("null"),
    }
}

/// The wire name of a device type.
pub fn device_type_wire_name(t: &DeviceType) -> (r: &'static str)
    ensures
        r@ == sj_device_type_name(*t),
{
    match t {
        DeviceType::Mobile => "mobile",
        DeviceType::Desktop => "desktop",
        DeviceType::Web => "web",
        DeviceType::Headless => "headless",
        DeviceType::Server => "server",
    }
}

/// Appends an optional device type, as its quoted name.
fn append_opt_device_type(out: &mut String, t: &Option<DeviceType>)
    ensures
        final(out)@ == old(out)@ + sj_opt_device_type(*t),
{
    match t {
        Some(x) => append_json_string(out, device_type_wire_name(x)),
        None => out.append("null"),
    }
}

/// Appends an optional transport scheme, as its quoted name.
fn append_opt_protocol(out: &mut String, p: &Option<ProtocolType>)
    ensures
        final(out)@ == old(out)@ + sj_opt_protocol(*p),
{
    match p {
        Some(ProtocolType::Http) => append_json_string(out, "http"),
        Some(ProtocolType::Https) => append_json_string(out, "https"),
        None => out.append("null"),
    }
}

/// Serializes a multicast announcement to its canonical JSON form.
pub fn serialize_multicast(d: &crate::dto::MulticastDto) -> (r: String)
    ensures
        r@ == sj_multicast(d@),
{
    let mut out = String::new();
    out.append("{\"alias\":");
    proof {
        assert(out@ =~= "{\"alias\":"@);
    }
    append_json_string(&mut out, d.alias.as_str());
    out.append(",\"version\":");
    append_opt_json_string(&mut out, &d.version);
    out.append(",\"deviceModel\":");
    append_opt_json_string(&mut out, &d.device_model);
    out.append(",\"deviceType\":");
    append_opt_device_type(&mut out, &d.device_type);
    out.append(",\"fingerprint\":");
    append_json_string(&mut out, d.fingerprint.as_str());
    out.append(",\"port\":");
    append_opt_u16(&mut out, &d.port);
    out.append(",\"protocol\":");
    append_opt_protocol(&mut out, &d.protocol);
    out.append(",\"download\":");
    append_opt_bool(&mut out, &d.download);
    out.append(",\"announcement\":");
    append_opt_bool(&mut out, &d.announcement);
    out.append(",\"announce\":");
    append_opt_bool(&mut out, &d.announce);
    out.append("}");
    out
}

/// Serializes a registration to its canonical JSON form.
pub fn serialize_register(d: &crate::dto::RegisterDto) -> (r: String)
    ensures
        r@ == sj_register(d@),
{
    let mut out = String::new();
    out.append("{\"alias\":");
    proof {
        assert(out@ =~= "{\"alias\":"@);
    }
    append_json_string(&mut out, d.alias.as_str());
    out.append(",\"version\":");
    append_opt_json_string(&mut out, &d.version);
    out.append(",\"deviceModel\":");
    append_opt_json_string(&mut out, &d.device_model);
    out.append(",\"deviceType\":");
    append_opt_device_type(&mut out, &d.device_type);
    out.append(",\"fingerprint\":");
    append_json_string(&mut out, d.fingerprint.as_str());
    out.append(",\"port\":");
    append_opt_u16(&mut out, &d.port);
    out.append(",\"protocol\":");
    append_opt_protocol(&mut out, &d.protocol);
    out.append(",\"download\":");
    append_opt_bool(&mut out, &d.download);
    out.append("}");
    out
}

/// Appends a file descriptor in its canonical JSON form.
fn append_file(out: &mut String, f: &crate::dto::FileDto)
    ensures
        final(out)@ == old(out)@ + sj_file(f@),
{
    let ghost start = out@;
    out.append("{\"id\":");
    append_json_string(out, f.id.as_str());
    out.append(",\"fileName\":");
    append_json_string(out, f.file_name.as_str());
    out.append(",\"size\":");
    crate::text::append_u64(out, f.size);
    out.append(",\"fileType\":");
    append_json_string(out, f.file_type.wire_name());
    out.append(",\"hash\":");
    append_opt_json_string(out, &f.hash);
    out.append(",\"preview\":");
    append_opt_json_string(out, &f.preview);
    out.append("}");
    proof {
        assert(out@ == start + ("{\"id\":"@ + sj_string(f@.id) + ",\"fileName\":"@ + sj_string(
            f@.file_name,
        ) + ",\"size\":"@ + dec_of(f@.size as nat) + ",\"fileType\":"@ + sj_string(
            crate::dto::spec_file_type_name(f@.file_type),
        ) + ",\"hash\":"@ + sj_opt_string(f@.hash) + ",\"preview\":"@ + sj_opt_string(f@.preview)
            + "}"@)) by {
            assert(out@ =~= start + sj_file(f@));
        }
    }
}

/// Serializes a file descriptor to its canonical JSON form.
pub fn serialize_file(f: &crate::dto::FileDto) -> (r: String)
    ensures
        r@ == sj_file(f@),
{
    let mut out = String::new();
    append_file(&mut out, f);
    proof {
        assert(out@ =~= sj_file(f@));
    }
    out
}

/// Serializes a token map: the version 1 prepare-upload response body.
pub fn serialize_token_map(files: &Vec<(String, String)>) -> (r: String)
    ensures
        r@ == sj_token_map(files.deep_view()),
{
    let ghost fv = files.deep_view();
    let mut pairs = String::new();
    let mut i: usize = 0;
    while i < files.len()
        invariant
            i <= files.len(),
            fv == files.deep_view(),
            fv.len() == files.len(),
            pairs@ == sj_token_pairs(fv.take(i as int)),
        decreases files.len() - i,
    {
        proof {
            assert(fv[i as int] == (files@[i as int].0@, files@[i as int].1@));
        }
        if i > 0 {
            pairs.append(",");
        }
        append_json_string(&mut pairs, files[i].0.as_str());
        pairs.append(":");
        append_json_string(&mut pairs, files[i].1.as_str());
        proof {
            assert(fv.take(i + 1).drop_last() =~= fv.take(i as int));
            assert(fv.take(i + 1).last() == fv[i as int]);
            if i == 0 {
                assert(fv.take(1).len() == 1);
                assert(fv.take(1)[0] == fv[0]);
                assert(Seq::<char>::empty() + sj_string(fv[0].0) =~= sj_string(fv[0].0));
            }
            assert(pairs@ == sj_token_pairs(fv.take(i + 1)));
        }
        i += 1;
    }
    proof {
        assert(fv.take(files.len() as int) =~= fv);
    }
    let mut out = String::new();
    out.append("{");
    proof {
        assert(out@ =~= "{"@);
    }
    out.append(pairs.as_str());
    out.append("}");
    out
}

/// Serializes a version 2 prepare-upload response.
pub fn serialize_prepare_response(d: &crate::dto::PrepareUploadResponseDto) -> (r: String)
    ensures
        r@ == sj_prepare_response(d@),
{
    let mut out = String::new();
    out.append("{\"sessionId\":");
    proof {
        assert(out@ =~= "{\"sessionId\":"@);
    }
    append_json_string(&mut out, d.session_id.as_str());
    out.append(",\"files\":");
    let m = serialize_token_map(&d.files);
    out.append(m.as_str());
    out.append("}");
    out
}

/// Serializes a prepare-upload request.
pub fn serialize_prepare_request(d: &crate::dto::PrepareUploadRequestDto) -> (r: String)
    ensures
        r@ == sj_prepare_request(d@),
{
    let ghost fv = d.files.deep_view();
    let mut pairs = String::new();
    let mut i: usize = 0;
    while i < d.files.len()
        invariant
            i <= d.files.len(),
            fv == d.files.deep_view(),
            fv.len() == d.files.len(),
            pairs@ == sj_file_pairs(fv.take(i as int)),
        decreases d.files.len() - i,
    {
        proof {
            assert(fv[i as int] == d.files@[i as int]@);
        }
        if i > 0 {
            pairs.append(",");
        }
        append_json_string(&mut pairs, d.files[i].id.as_str());
        pairs.append(":");
        append_file(&mut pairs, &d.files[i]);
        proof {
            assert(fv.take(i + 1).drop_last() =~= fv.take(i as int));
            assert(fv.take(i + 1).last() == fv[i as int]);
            if i == 0 {
                assert(fv.take(1).len() == 1);
                assert(fv.take(1)[0] == fv[0]);
                assert(Seq::<char>::empty() + sj_string(fv[0].id) =~= sj_string(fv[0].id));
            }
            assert(pairs@ == sj_file_pairs(fv.take(i + 1)));
        }
        i += 1;
    }
    proof {
        assert(fv.take(d.files.len() as int) =~= fv);
    }
    let mut out = String::new();
    out.append("{\"info\":");
    proof {
        assert(out@ =~= "{\"info\":"@);
    }
    let reg = serialize_register(&d.info);
    out.append(reg.as_str());
    out.append(",\"files\":{");
    out.append(pairs.as_str());
    out.append("}}");
    out
}


/// The characters of a string slice.
pub fn chars_of(s: &str) -> (v: Vec<char>)
    ensures
        v@ == s@,
{
    let n = s.unicode_len();
    let mut v: Vec<char> = Vec::new();
    let mut i: usize = 0;
    while i < n
        invariant
            i <= n,
            n == s@.len(),
            v@ =~= s@.take(i as int),
        decreases n - i,
    {
        v.push(s.get_char(i));
        proof {
            assert(v@ =~= s@.take(i + 1));
        }
        i += 1;
    }
    proof {
        assert(s@.take(n as int) =~= s@);
    }
    v
}

/// Consumes the literal `lit` at `pos`.
fn px_lit(v: &Vec<char>, pos: usize, lit: &str) -> (r: Option<usize>)
    requires
        pos <= v@.len(),
    ensures
        match r {
            Some(p2) => pos <= p2 <= v@.len() && sp_lit(v@.skip(pos as int), lit@) == Some(
                v@.skip(p2 as int),
            ),
            None => sp_lit(v@.skip(pos as int), lit@) is None,
        },
{
    let ghost s = v@.skip(pos as int);
    let n = lit.unicode_len();
    let vlen = v.len();
    if n > vlen - pos {
        return None;
    }
    let mut i: usize = 0;
    while i < n
        invariant
            i <= n,
            n == lit@.len(),
            pos <= v@.len(),
            vlen == v@.len(),
            n <= vlen - pos,
            s == v@.skip(pos as int),
            forall|j: int| 0 <= j < i ==> s[j] == lit@[j],
        decreases n - i,
    {
        if v[pos + i] != lit.get_char(i) {
            proof {
                assert(s[i as int] == v@[pos + i]);
                assert(s.take(n as int)[i as int] == s[i as int]);
            }
            return None;
        }
        proof {
            assert(s[i as int] == v@[pos + i]);
        }
        i += 1;
    }
    proof {
        assert(s.take(n as int) =~= lit@);
        assert(s.skip(n as int) =~= v@.skip(pos + n));
    }
    Some(pos + n)
}

/// The numeric value of a hexadecimal digit character, or -1.
fn px_hex_val(c: char) -> (r: i32)
    ensures
        r as int == hex_val(c),
{
    proof {
        lemma_char_bounds(c);
    }
    let code = c as u32;
    if 48 <= code && code <= 57 {
        (code - 48) as i32
    } else if 97 <= code && code <= 102 {
        (code - 87) as i32
    } else if 65 <= code && code <= 70 {
        (code - 55) as i32
    } else {
        -1
    }
}

/// Parses the inside of a JSON string after the opening quote.
fn px_string_body(v: &Vec<char>, pos: usize) -> (r: Option<(String, usize)>)
    requires
        pos <= v@.len(),
    ensures
        match r {
            Some(p) => pos <= p.1 <= v@.len() && sp_string_body(v@.skip(pos as int)) == Some(
                (p.0@, v@.skip(p.1 as int)),
            ),
            None => sp_string_body(v@.skip(pos as int)) is None,
        },
    decreases v@.len() - pos,
{
    let ghost s = v@.skip(pos as int);
    if pos == v.len() {
        return None;
    }
    let c = v[pos];
    proof {
        assert(s[0] == c);
    }
    if c == '"' {
        proof {
            assert(s.skip(1) =~= v@.skip(pos + 1));
        }
        return Some((String::new(), pos + 1));
    }
    if c == '\\' {
        if pos + 1 == v.len() {
            return None;
        }
        let e = v[pos + 1];
        proof {
            assert(s[1] == e);
        }
        if e == 'u' {
            if v.len() - pos < 6 {
                return None;
            }
            if v[pos + 2] != '0' || v[pos + 3] != '0' {
                proof {
                    assert(s[2] == v@[pos + 2] && s[3] == v@[pos + 3]);
                }
                return None;
            }
            let h1 = px_hex_val(v[pos + 4]);
            let h2 = px_hex_val(v[pos + 5]);
            proof {
                assert(s[2] == v@[pos + 2] && s[3] == v@[pos + 3]);
                assert(s[4] == v@[pos + 4] && s[5] == v@[pos + 5]);
            }
            if h1 < 0 || h2 < 0 {
                return None;
            }
            let val: u8 = (h1 * 16 + h2) as u8;
            let ch = val as char;
            proof {
                assert(s.skip(6) =~= v@.skip(pos + 6));
            }
            match px_string_body(v, pos + 6) {
                Some((tail, p2)) => {
                    let mut out = String::new();
                    crate::text::push_char(&mut out, ch);
                    out.append(tail.as_str());
                    proof {
                        assert(out@ =~= seq![ch] + tail@);
                    }
                    Some((out, p2))
                },
                None => None,
            }
        } else {
            let decoded: char = if e == '"' {
                '"'
            } else if e == '\\' {
                '\\'
            } else if e == '/' {
                '/'
            } else if e == 'b' {
                '\u{8}'
            } else if e == 't' {
                '\u{9}'
            } else if e == 'n' {
                '\u{A}'
            } else if e == 'f' {
                '\u{C}'
            } else if e == 'r' {
                '\u{D}'
            } else {
                ' '
            };
            if e == '"' || e == '\\' || e == '/' || e == 'b' || e == 't' || e == 'n' || e == 'f'
                || e == 'r' {
                proof {
                    assert(s.skip(2) =~= v@.skip(pos + 2));
                }
                match px_string_body(v, pos + 2) {
                    Some((tail, p2)) => {
                        let mut out = String::new();
                        crate::text::push_char(&mut out, decoded);
                        out.append(tail.as_str());
                        proof {
                            assert(out@ =~= seq![decoded] + tail@);
                        }
                        Some((out, p2))
                    },
                    None => None,
                }
            } else {
                None
            }
        }
    } else {
        proof {
            lemma_char_bounds(c);
        }
        let code = c as u32;
        if code < 0x20 {
            return None;
        }
        proof {
            assert(!((s[0] as int) < 0x20));
            assert(s.skip(1) =~= v@.skip(pos + 1));
        }
        match px_string_body(v, pos + 1) {
            Some((tail, p2)) => {
                let mut out = String::new();
                crate::text::push_char(&mut out, c);
                out.append(tail.as_str());
                proof {
                    assert(out@ =~= seq![c] + tail@);
                }
                Some((out, p2))
            },
            None => None,
        }
    }
}

/// Parses a JSON string at `pos`.
fn px_string(v: &Vec<char>, pos: usize) -> (r: Option<(String, usize)>)
    requires
        pos <= v@.len(),
    ensures
        match r {
            Some(p) => pos <= p.1 <= v@.len() && sp_string(v@.skip(pos as int)) == Some(
                (p.0@, v@.skip(p.1 as int)),
            ),
            None => sp_string(v@.skip(pos as int)) is None,
        },
{
    let ghost s = v@.skip(pos as int);
    if pos == v.len() {
        return None;
    }
    if v[pos] != '"' {
        proof {
            assert(s[0] == v@[pos as int]);
        }
        return None;
    }
    proof {
        assert(s[0] == v@[pos as int]);
        assert(s.skip(1) =~= v@.skip(pos + 1));
    }
    px_string_body(v, pos + 1)
}

fn px_u64_rec(v: &Vec<char>, pos: usize, acc: u64) -> (r: Option<(u64, usize)>)
    requires
        pos <= v@.len(),
    ensures
        match r {
            Some(p) => pos <= p.1 <= v@.len() && sp_u64_rec(v@.skip(pos as int), acc as int)
                == Some((p.0 as int, v@.skip(p.1 as int))),
            None => sp_u64_rec(v@.skip(pos as int), acc as int) is None,
        },
    decreases v@.len() - pos,
{
    let ghost s = v@.skip(pos as int);
    if pos == v.len() {
        return Some((acc, pos));
    }
    let c = v[pos];
    proof {
        assert(s[0] == c);
        lemma_char_bounds(c);
    }
    let code = c as u32;
    if !(48 <= code && code <= 57) {
        return Some((acc, pos));
    }
    let d: u64 = (code - 48) as u64;
    if acc > (u64::MAX - d) / 10 {
        proof {
            let m = (u64::MAX - d) as int;
            assert(acc as int * 10 + d > u64::MAX as int) by (nonlinear_arith)
                requires
                    acc as int > m / 10,
                    m == 10 * (m / 10) + m % 10,
                    0 <= m % 10 < 10,
                    m == u64::MAX as int - d,
            ;
        }
        return None;
    }
    proof {
        let m = (u64::MAX - d) as int;
        assert(acc as int * 10 + d <= u64::MAX as int) by (nonlinear_arith)
            requires
                acc as int <= m / 10,
                m == 10 * (m / 10) + m % 10,
                0 <= m % 10 < 10,
                m == u64::MAX as int - d,
        ;
    }
    let acc2: u64 = acc * 10 + d;
    proof {
        assert(s.skip(1) =~= v@.skip(pos + 1));
    }
    px_u64_rec(v, pos + 1, acc2)
}

/// Parses a JSON unsigned number at `pos`.
fn px_u64(v: &Vec<char>, pos: usize) -> (r: Option<(u64, usize)>)
    requires
        pos <= v@.len(),
    ensures
        match r {
            Some(p) => pos <= p.1 <= v@.len() && sp_u64(v@.skip(pos as int)) == Some(
                (p.0, v@.skip(p.1 as int)),
            ),
            None => sp_u64(v@.skip(pos as int)) is None,
        },
{
    let ghost s = v@.skip(pos as int);
    if pos == v.len() {
        return None;
    }
    let c = v[pos];
    proof {
        assert(s[0] == c);
        lemma_char_bounds(c);
    }
    let code = c as u32;
    if !(48 <= code && code <= 57) {
        return None;
    }
    px_u64_rec(v, pos, 0)
}


/// Parses an optional string field under `key` at `pos`.
fn px_opt_str_field(v: &Vec<char>, pos: usize, key: &str) -> (r: Option<(Option<String>, usize)>)
    requires
        pos <= v@.len(),
    ensures
        match r {
            Some(p) => pos <= p.1 <= v@.len() && sp_opt_str_field(v@.skip(pos as int), key@)
                == Some((p.0.deep_view(), v@.skip(p.1 as int))),
            None => sp_opt_str_field(v@.skip(pos as int), key@) is None,
        },
{
    match px_lit(v, pos, key) {
        None => Some((None, pos)),
        Some(p1) => match px_lit(v, p1, "null") {
            Some(p2) => Some((None, p2)),
            None => match px_string(v, p1) {
                Some((x, p2)) => Some((Some(x), p2)),
                None => None,
            },
        },
    }
}

/// The device type named by a wire string.
fn px_device_type_of(x: &String) -> (r: Option<DeviceType>)
    ensures
        r == sp_device_type_of(x@),
{
    if crate::text::str_eq(x.as_str(), "mobile") {
        Some(DeviceType::Mobile)
    } else if crate::text::str_eq(x.as_str(), "desktop") {
        Some(DeviceType::Desktop)
    } else if crate::text::str_eq(x.as_str(), "web") {
        Some(DeviceType::Web)
    } else if crate::text::str_eq(x.as_str(), "headless") {
        Some(DeviceType::Headless)
    } else if crate::text::str_eq(x.as_str(), "server") {
        Some(DeviceType::Server)
    } else {
        None
    }
}

/// Parses an optional device-type field under `key` at `pos`.
fn px_opt_device_type_field(v: &Vec<char>, pos: usize, key: &str) -> (r: Option<
    (Option<DeviceType>, usize),
>)
    requires
        pos <= v@.len(),
    ensures
        match r {
            Some(p) => pos <= p.1 <= v@.len() && sp_opt_device_type_field(
                v@.skip(pos as int),
                key@,
            ) == Some((p.0, v@.skip(p.1 as int))),
            None => sp_opt_device_type_field(v@.skip(pos as int), key@) is None,
        },
{
    match px_lit(v, pos, key) {
        None => Some((None, pos)),
        Some(p1) => match px_lit(v, p1, "null") {
            Some(p2) => Some((None, p2)),
            None => match px_string(v, p1) {
                Some((x, p2)) => match px_device_type_of(&x) {
                    Some(t) => Some((Some(t), p2)),
                    None => None,
                },
                None => None,
            },
        },
    }
}

/// The transport scheme named by a wire string.
fn px_protocol_of(x: &String) -> (r: Option<ProtocolType>)
    ensures
        r == sp_protocol_of(x@),
{
    if crate::text::str_eq(x.as_str(), "http") {
        Some(ProtocolType::Http)
    } else if crate::text::str_eq(x.as_str(), "https") {
        Some(ProtocolType::Https)
    } else {
        None
    }
}

/// Parses an optional transport-scheme field under `key` at `pos`.
fn px_opt_protocol_field(v: &Vec<char>, pos: usize, key: &str) -> (r: Option<
    (Option<ProtocolType>, usize),
>)
    requires
        pos <= v@.len(),
    ensures
        match r {
            Some(p) => pos <= p.1 <= v@.len() && sp_opt_protocol_field(v@.skip(pos as int), key@)
                == Some((p.0, v@.skip(p.1 as int))),
            None => sp_opt_protocol_field(v@.skip(pos as int), key@) is None,
        },
{
    match px_lit(v, pos, key) {
        None => Some((None, pos)),
        Some(p1) => match px_lit(v, p1, "null") {
            Some(p2) => Some((None, p2)),
            None => match px_string(v, p1) {
                Some((x, p2)) => match px_protocol_of(&x) {
                    Some(t) => Some((Some(t), p2)),
                    None => None,
                },
                None => None,
            },
        },
    }
}

/// Parses an optional port field under `key` at `pos`.
fn px_opt_u16_field(v: &Vec<char>, pos: usize, key: &str) -> (r: Option<(Option<u16>, usize)>)
    requires
        pos <= v@.len(),
    ensures
        match r {
            Some(p) => pos <= p.1 <= v@.len() && sp_opt_u16_field(v@.skip(pos as int), key@)
                == Some((p.0, v@.skip(p.1 as int))),
            None => sp_opt_u16_field(v@.skip(pos as int), key@) is None,
        },
{
    match px_lit(v, pos, key) {
        None => Some((None, pos)),
        Some(p1) => match px_lit(v, p1, "null") {
            Some(p2) => Some((None, p2)),
            None => match px_u64(v, p1) {
                Some((x, p2)) => if x <= 65535 {
                    Some((Some(x as u16), p2))
                } else {
                    None
                },
                None => None,
            },
        },
    }
}

/// Parses an optional boolean field under `key` at `pos`.
fn px_opt_bool_field(v: &Vec<char>, pos: usize, key: &str) -> (r: Option<(Option<bool>, usize)>)
    requires
        pos <= v@.len(),
    ensures
        match r {
            Some(p) => pos <= p.1 <= v@.len() && sp_opt_bool_field(v@.skip(pos as int), key@)
                == Some((p.0, v@.skip(p.1 as int))),
            None => sp_opt_bool_field(v@.skip(pos as int), key@) is None,
        },
{
    match px_lit(v, pos, key) {
        None => Some((None, pos)),
        Some(p1) => match px_lit(v, p1, "null") {
            Some(p2) => Some((None, p2)),
            None => match px_lit(v, p1, "true") {
                Some(p2) => Some((Some(true), p2)),
                None => match px_lit(v, p1, "false") {
                    Some(p2) => Some((Some(false), p2)),
                    None => None,
                },
            },
        },
    }
}

/// Parses a multicast announcement at `pos`.
fn px_multicast(v: &Vec<char>, pos: usize) -> (r: Option<(crate::dto::MulticastDto, usize)>)
    requires
        pos <= v@.len(),
    ensures
        match r {
            Some(p) => pos <= p.1 <= v@.len() && sp_multicast(v@.skip(pos as int)) == Some(
                (p.0@, v@.skip(p.1 as int)),
            ),
            None => sp_multicast(v@.skip(pos as int)) is None,
        },
{
    let p0 = match px_lit(v, pos, "{\"alias\":") {
        Some(p) => p,
        None => {
            return None;
        },
    };
    let (alias, p1) = match px_string(v, p0) {
        Some(x) => x,
        None => {
            return None;
        },
    };
    let (version, p2) = match px_opt_str_field(v, p1, ",\"version\":") {
        Some(x) => x,
        None => {
            return None;
        },
    };
    let (device_model, p3) = match px_opt_str_field(v, p2, ",\"deviceModel\":") {
        Some(x) => x,
        None => {
            return None;
        },
    };
    let (device_type, p4) = match px_opt_device_type_field(v, p3, ",\"deviceType\":") {
        Some(x) => x,
        None => {
            return None;
        },
    };
    let p5 = match px_lit(v, p4, ",\"fingerprint\":") {
        Some(p) => p,
        None => {
            return None;
        },
    };
    let (fingerprint, p6) = match px_string(v, p5) {
        Some(x) => x,
        None => {
            return None;
        },
    };
    let (port, p7) = match px_opt_u16_field(v, p6, ",\"port\":") {
        Some(x) => x,
        None => {
            return None;
        },
    };
    let (protocol, p8) = match px_opt_protocol_field(v, p7, ",\"protocol\":") {
        Some(x) => x,
        None => {
            return None;
        },
    };
    let (download, p9) = match px_opt_bool_field(v, p8, ",\"download\":") {
        Some(x) => x,
        None => {
            return None;
        },
    };
    let (announcement, p10) = match px_opt_bool_field(v, p9, ",\"announcement\":") {
        Some(x) => x,
        None => {
            return None;
        },
    };
    let (announce, p11) = match px_opt_bool_field(v, p10, ",\"announce\":") {
        Some(x) => x,
        None => {
            return None;
        },
    };
    let p12 = match px_lit(v, p11, "}") {
        Some(p) => p,
        None => {
            return None;
        },
    };
    Some(
        (
            crate::dto::MulticastDto {
                alias,
                version,
                device_model,
                device_type,
                fingerprint,
                port,
                protocol,
                download,
                announcement,
                announce,
            },
            p12,
        ),
    )
}

/// Parses a registration at `pos`.
fn px_register(v: &Vec<char>, pos: usize) -> (r: Option<(crate::dto::RegisterDto, usize)>)
    requires
        pos <= v@.len(),
    ensures
        match r {
            Some(p) => pos <= p.1 <= v@.len() && sp_register(v@.skip(pos as int)) == Some(
                (p.0@, v@.skip(p.1 as int)),
            ),
            None => sp_register(v@.skip(pos as int)) is None,
        },
{
    let p0 = match px_lit(v, pos, "{\"alias\":") {
        Some(p) => p,
        None => {
            return None;
        },
    };
    let (alias, p1) = match px_string(v, p0) {
        Some(x) => x,
        None => {
            return None;
        },
    };
    let (version, p2) = match px_opt_str_field(v, p1, ",\"version\":") {
        Some(x) => x,
        None => {
            return None;
        },
    };
    let (device_model, p3) = match px_opt_str_field(v, p2, ",\"deviceModel\":") {
        Some(x) => x,
        None => {
            return None;
        },
    };
    let (device_type, p4) = match px_opt_device_type_field(v, p3, ",\"deviceType\":") {
        Some(x) => x,
        None => {
            return None;
        },
    };
    let p5 = match px_lit(v, p4, ",\"fingerprint\":") {
        Some(p) => p,
        None => {
            return None;
        },
    };
    let (fingerprint, p6) = match px_string(v, p5) {
        Some(x) => x,
        None => {
            return None;
        },
    };
    let (port, p7) = match px_opt_u16_field(v, p6, ",\"port\":") {
        Some(x) => x,
        None => {
            return None;
        },
    };
    let (protocol, p8) = match px_opt_protocol_field(v, p7, ",\"protocol\":") {
        Some(x) => x,
        None => {
            return None;
        },
    };
    let (download, p9) = match px_opt_bool_field(v, p8, ",\"download\":") {
        Some(x) => x,
        None => {
            return None;
        },
    };
    let p10 = match px_lit(v, p9, "}") {
        Some(p) => p,
        None => {
            return None;
        },
    };
    Some(
        (
            crate::dto::RegisterDto {
                alias,
                version,
                device_model,
                device_type,
                fingerprint,
                port,
                protocol,
                download,
            },
            p10,
        ),
    )
}

/// Parses a file descriptor at `pos`.
fn px_file(v: &Vec<char>, pos: usize) -> (r: Option<(crate::dto::FileDto, usize)>)
    requires
        pos <= v@.len(),
    ensures
        match r {
            Some(p) => pos <= p.1 <= v@.len() && sp_file(v@.skip(pos as int)) == Some(
                (p.0@, v@.skip(p.1 as int)),
            ),
            None => sp_file(v@.skip(pos as int)) is None,
        },
{
    let p0 = match px_lit(v, pos, "{\"id\":") {
        Some(p) => p,
        None => {
            return None;
        },
    };
    let (id, p1) = match px_string(v, p0) {
        Some(x) => x,
        None => {
            return None;
        },
    };
    let p2 = match px_lit(v, p1, ",\"fileName\":") {
        Some(p) => p,
        None => {
            return None;
        },
    };
    let (file_name, p3) = match px_string(v, p2) {
        Some(x) => x,
        None => {
            return None;
        },
    };
    let p4 = match px_lit(v, p3, ",\"size\":") {
        Some(p) => p,
        None => {
            return None;
        },
    };
    let (size, p5) = match px_u64(v, p4) {
        Some(x) => x,
        None => {
            return None;
        },
    };
    let p6 = match px_lit(v, p5, ",\"fileType\":") {
        Some(p) => p,
        None => {
            return None;
        },
    };
    let (tname, p7) = match px_string(v, p6) {
        Some(x) => x,
        None => {
            return None;
        },
    };
    let file_type = crate::dto::FileType::from_mime(tname.as_str());
    let (hash, p8) = match px_opt_str_field(v, p7, ",\"hash\":") {
        Some(x) => x,
        None => {
            return None;
        },
    };
    let (preview, p9) = match px_opt_str_field(v, p8, ",\"preview\":") {
        Some(x) => x,
        None => {
            return None;
        },
    };
    let p10 = match px_lit(v, p9, "}") {
        Some(p) => p,
        None => {
            return None;
        },
    };
    Some((crate::dto::FileDto { id, file_name, size, file_type, hash, preview }, p10))
}


/// Parses the members of a token map at `pos`, with at most `fuel` members.
fn px_token_pairs(v: &Vec<char>, pos: usize, fuel: usize) -> (r: Option<
    (Vec<(String, String)>, usize),
>)
    requires
        pos <= v@.len(),
    ensures
        match r {
            Some(p) => pos <= p.1 <= v@.len() && sp_token_pairs(v@.skip(pos as int), fuel as nat)
                == Some((p.0.deep_view(), v@.skip(p.1 as int))),
            None => sp_token_pairs(v@.skip(pos as int), fuel as nat) is None,
        },
    decreases fuel,
{
    let ghost s = v@.skip(pos as int);
    if fuel == 0 {
        return None;
    }
    let (k, p1) = match px_string(v, pos) {
        Some(x) => x,
        None => {
            return None;
        },
    };
    let p2 = match px_lit(v, p1, ":") {
        Some(p) => p,
        None => {
            return None;
        },
    };
    let (val, p3) = match px_string(v, p2) {
        Some(x) => x,
        None => {
            return None;
        },
    };
    let ghost r3 = v@.skip(p3 as int);
    if p3 < v.len() && v[p3] == ',' {
        proof {
            assert(r3[0] == v@[p3 as int]);
            assert(r3.skip(1) =~= v@.skip(p3 + 1));
        }
        match px_token_pairs(v, p3 + 1, fuel - 1) {
            Some((tail, p4)) => {
                let mut out: Vec<(String, String)> = Vec::new();
                out.push((k, val));
                let mut tail = tail;
                let ghost tv = tail.deep_view();
                out.append(&mut tail);
                proof {
                    assert(out.deep_view() =~= seq![(out@[0].0@, out@[0].1@)] + tv);
                }
                Some((out, p4))
            },
            None => None,
        }
    } else {
        proof {
            if r3.len() > 0 {
                assert(r3[0] == v@[p3 as int]);
            }
        }
        let mut out: Vec<(String, String)> = Vec::new();
        out.push((k, val));
        proof {
            assert(out.deep_view() =~= seq![(out@[0].0@, out@[0].1@)]);
        }
        Some((out, p3))
    }
}

/// Parses a token map at `pos`.
fn px_token_map(v: &Vec<char>, pos: usize) -> (r: Option<(Vec<(String, String)>, usize)>)
    requires
        pos <= v@.len(),
    ensures
        match r {
            Some(p) => pos <= p.1 <= v@.len() && sp_token_map(v@.skip(pos as int)) == Some(
                (p.0.deep_view(), v@.skip(p.1 as int)),
            ),
            None => sp_token_map(v@.skip(pos as int)) is None,
        },
{
    let p1 = match px_lit(v, pos, "{") {
        Some(p) => p,
        None => {
            return None;
        },
    };
    match px_lit(v, p1, "}") {
        Some(p2) => {
            let out: Vec<(String, String)> = Vec::new();
            proof {
                assert(out.deep_view() =~= Seq::<(Seq<char>, Seq<char>)>::empty());
            }
            Some((out, p2))
        },
        None => {
            proof {
                assert(v@.skip(p1 as int).len() == v@.len() - p1);
            }
            match px_token_pairs(v, p1, v.len() - p1) {
                Some((pairs, p2)) => match px_lit(v, p2, "}") {
                    Some(p3) => Some((pairs, p3)),
                    None => None,
                },
                None => None,
            }
        },
    }
}

/// Parses a complete token map, the version 1 prepare-upload response
/// body: the canonical form is recognized directly, any other member order
/// or whitespace through the member scan.
pub fn parse_token_map(s: &str) -> (r: Option<Vec<(String, String)>>)
    ensures
        match r {
            Some(pairs) => sp_token_map_any(s@) == Some(pairs.deep_view()),
            None => sp_token_map_any(s@) is None,
        },
{
    let v = chars_of(s);
    proof {
        assert(v@.skip(0) =~= s@);
    }
    match px_token_map(&v, 0) {
        Some((pairs, p)) => {
            if p == v.len() {
                proof {
                    assert(v@.skip(p as int).len() == 0);
                }
                return Some(pairs);
            }
            proof {
                assert(v@.skip(p as int).len() > 0);
            }
        },
        None => (),
    }
    let (pairs, p) = match px_token_map_loose(&v, 0) {
        Some(x) => x,
        None => {
            return None;
        },
    };
    let p2 = px_ws(&v, p);
    if p2 == v.len() {
        proof {
            assert(v@.skip(p2 as int).len() == 0);
        }
        Some(pairs)
    } else {
        proof {
            assert(v@.skip(p2 as int).len() > 0);
        }
        None
    }
}

/// Parses the canonical version 2 prepare-upload response.
fn px_response_canonical(v: &Vec<char>) -> (r: Option<crate::dto::PrepareUploadResponseDto>)
    ensures
        match r {
            Some(d) => sp_prepare_response_full(v@) == Some(d@),
            None => sp_prepare_response_full(v@) is None,
        },
{
    proof {
        assert(v@.skip(0) =~= v@);
    }
    let p0 = match px_lit(v, 0, "{\"sessionId\":") {
        Some(p) => p,
        None => {
            return None;
        },
    };
    let (sid, p1) = match px_string(v, p0) {
        Some(x) => x,
        None => {
            return None;
        },
    };
    let p2 = match px_lit(v, p1, ",\"files\":") {
        Some(p) => p,
        None => {
            return None;
        },
    };
    let (pairs, p3) = match px_token_map(v, p2) {
        Some(x) => x,
        None => {
            return None;
        },
    };
    let p4 = match px_lit(v, p3, "}") {
        Some(p) => p,
        None => {
            return None;
        },
    };
    if p4 == v.len() {
        proof {
            assert(v@.skip(p4 as int).len() == 0);
        }
        Some(crate::dto::PrepareUploadResponseDto { session_id: sid, files: pairs })
    } else {
        proof {
            assert(v@.skip(p4 as int).len() > 0);
        }
        None
    }
}

/// Parses a loose version 2 prepare-upload response: whitespace, either
/// member order.
fn px_response_loose(v: &Vec<char>) -> (r: Option<crate::dto::PrepareUploadResponseDto>)
    ensures
        match r {
            Some(d) => sp_prepare_response_loose(v@) == Some(d@),
            None => sp_prepare_response_loose(v@) is None,
        },
{
    proof {
        assert(v@.skip(0) =~= v@);
    }
    let p0 = px_ws(v, 0);
    let p1 = match px_lit(v, p0, "{") {
        Some(p) => p,
        None => {
            return None;
        },
    };
    let p1b = px_ws(v, p1);
    let (k1, p2) = match px_string(v, p1b) {
        Some(x) => x,
        None => {
            return None;
        },
    };
    let p2b = px_ws(v, p2);
    let p3 = match px_lit(v, p2b, ":") {
        Some(p) => p,
        None => {
            return None;
        },
    };
    if crate::text::str_eq(k1.as_str(), "sessionId") {
        let (sid, p4) = match px_string(v, px_ws(v, p3)) {
            Some(x) => x,
            None => {
                return None;
            },
        };
        let p5 = match px_lit(v, px_ws(v, p4), ",") {
            Some(p) => p,
            None => {
                return None;
            },
        };
        let (k2, p6) = match px_string(v, px_ws(v, p5)) {
            Some(x) => x,
            None => {
                return None;
            },
        };
        if !crate::text::str_eq(k2.as_str(), "files") {
            return None;
        }
        let p7 = match px_lit(v, px_ws(v, p6), ":") {
            Some(p) => p,
            None => {
                return None;
            },
        };
        let (files, p8) = match px_token_map_loose(v, p7) {
            Some(x) => x,
            None => {
                return None;
            },
        };
        let p9 = match px_lit(v, px_ws(v, p8), "}") {
            Some(p) => p,
            None => {
                return None;
            },
        };
        let p10 = px_ws(v, p9);
        if p10 == v.len() {
            proof {
                assert(v@.skip(p10 as int).len() == 0);
            }
            Some(crate::dto::PrepareUploadResponseDto { session_id: sid, files })
        } else {
            proof {
                assert(v@.skip(p10 as int).len() > 0);
            }
            None
        }
    } else if crate::text::str_eq(k1.as_str(), "files") {
        let (files, p4) = match px_token_map_loose(v, p3) {
            Some(x) => x,
            None => {
                return None;
            },
        };
        let p5 = match px_lit(v, px_ws(v, p4), ",") {
            Some(p) => p,
            None => {
                return None;
            },
        };
        let (k2, p6) = match px_string(v, px_ws(v, p5)) {
            Some(x) => x,
            None => {
                return None;
            },
        };
        if !crate::text::str_eq(k2.as_str(), "sessionId") {
            return None;
        }
        let p7 = match px_lit(v, px_ws(v, p6), ":") {
            Some(p) => p,
            None => {
                return None;
            },
        };
        let (sid, p8) = match px_string(v, px_ws(v, p7)) {
            Some(x) => x,
            None => {
                return None;
            },
        };
        let p9 = match px_lit(v, px_ws(v, p8), "}") {
            Some(p) => p,
            None => {
                return None;
            },
        };
        let p10 = px_ws(v, p9);
        if p10 == v.len() {
            proof {
                assert(v@.skip(p10 as int).len() == 0);
            }
            Some(crate::dto::PrepareUploadResponseDto { session_id: sid, files })
        } else {
            proof {
                assert(v@.skip(p10 as int).len() > 0);
            }
            None
        }
    } else {
        None
    }
}

/// Parses a complete version 2 prepare-upload response: the canonical form
/// is recognized directly, any other member order or whitespace through
/// the loose grammar.
pub fn parse_prepare_response(s: &str) -> (r: Option<crate::dto::PrepareUploadResponseDto>)
    ensures
        match r {
            Some(d) => sp_prepare_response_any(s@) == Some(d@),
            None => sp_prepare_response_any(s@) is None,
        },
{
    let v = chars_of(s);
    match px_response_canonical(&v) {
        Some(d) => Some(d),
        None => px_response_loose(&v),
    }
}

/// Parses the members of a file map at `pos`, with at most `fuel` members.
fn px_file_pairs(v: &Vec<char>, pos: usize, fuel: usize) -> (r: Option<
    (Vec<crate::dto::FileDto>, usize),
>)
    requires
        pos <= v@.len(),
    ensures
        match r {
            Some(p) => pos <= p.1 <= v@.len() && sp_file_pairs(v@.skip(pos as int), fuel as nat)
                == Some((p.0.deep_view(), v@.skip(p.1 as int))),
            None => sp_file_pairs(v@.skip(pos as int), fuel as nat) is None,
        },
    decreases fuel,
{
    if fuel == 0 {
        return None;
    }
    let (_k, p1) = match px_string(v, pos) {
        Some(x) => x,
        None => {
            return None;
        },
    };
    let p2 = match px_lit(v, p1, ":") {
        Some(p) => p,
        None => {
            return None;
        },
    };
    let (f, p3) = match px_file(v, p2) {
        Some(x) => x,
        None => {
            return None;
        },
    };
    let ghost r3 = v@.skip(p3 as int);
    if p3 < v.len() && v[p3] == ',' {
        proof {
            assert(r3[0] == v@[p3 as int]);
            assert(r3.skip(1) =~= v@.skip(p3 + 1));
        }
        match px_file_pairs(v, p3 + 1, fuel - 1) {
            Some((tail, p4)) => {
                let mut out: Vec<crate::dto::FileDto> = Vec::new();
                out.push(f);
                let mut tail = tail;
                let ghost tv = tail.deep_view();
                out.append(&mut tail);
                proof {
                    assert(out.deep_view() =~= seq![out@[0]@] + tv);
                }
                Some((out, p4))
            },
            None => None,
        }
    } else {
        proof {
            if r3.len() > 0 {
                assert(r3[0] == v@[p3 as int]);
            }
        }
        let mut out: Vec<crate::dto::FileDto> = Vec::new();
        out.push(f);
        proof {
            assert(out.deep_view() =~= seq![out@[0]@]);
        }
        Some((out, p3))
    }
}

/// Parses a loose registration object at `pos`.
fn px_register_loose(v: &Vec<char>, pos: usize) -> (r: Option<(crate::dto::RegisterDto, usize)>)
    requires
        pos <= v@.len(),
    ensures
        match r {
            Some(p) => pos <= p.1 <= v@.len() && sp_register_loose(v@.skip(pos as int)) == Some(
                (p.0@, v@.skip(p.1 as int)),
            ),
            None => sp_register_loose(v@.skip(pos as int)) is None,
        },
{
    let (pairs, p1) = match px_scalar_object(v, pos) {
        Some(x) => x,
        None => {
            return None;
        },
    };
    match register_from_pairs(&pairs) {
        Some(d) => Some((d, p1)),
        None => None,
    }
}

/// Parses the canonical prepare-upload request.
fn px_request_canonical(v: &Vec<char>) -> (r: Option<crate::dto::PrepareUploadRequestDto>)
    ensures
        match r {
            Some(d) => sp_prepare_request_full(v@) == Some(d@),
            None => sp_prepare_request_full(v@) is None,
        },
{
    proof {
        assert(v@.skip(0) =~= v@);
    }
    let p0 = match px_lit(v, 0, "{\"info\":") {
        Some(p) => p,
        None => {
            return None;
        },
    };
    let (info, p1) = match px_register(v, p0) {
        Some(x) => x,
        None => {
            return None;
        },
    };
    let p2 = match px_lit(v, p1, ",\"files\":{") {
        Some(p) => p,
        None => {
            return None;
        },
    };
    let ghost r2 = v@.skip(p2 as int);
    let (files, p3) = if p2 < v.len() && v[p2] == '}' {
        proof {
            assert(r2[0] == v@[p2 as int]);
            assert(r2.skip(1) =~= v@.skip(p2 + 1));
        }
        (Vec::new(), p2 + 1)
    } else {
        proof {
            if r2.len() > 0 {
                assert(r2[0] == v@[p2 as int]);
            }
            assert(r2.len() == v@.len() - p2);
        }
        match px_file_pairs(v, p2, v.len() - p2) {
            Some(x) => x,
            None => {
                return None;
            },
        }
    };
    proof {
        if files.deep_view().len() == 0 {
            assert(files.deep_view() =~= Seq::<crate::dto::FileDtoView>::empty());
        }
    }
    let p4 = if files.len() == 0 {
        p3
    } else {
        match px_lit(v, p3, "}") {
            Some(p) => p,
            None => {
                return None;
            },
        }
    };
    let p5 = match px_lit(v, p4, "}") {
        Some(p) => p,
        None => {
            return None;
        },
    };
    if p5 == v.len() {
        proof {
            assert(v@.skip(p5 as int).len() == 0);
        }
        Some(crate::dto::PrepareUploadRequestDto { info, files })
    } else {
        proof {
            assert(v@.skip(p5 as int).len() > 0);
        }
        None
    }
}

/// Parses a loose prepare-upload request: whitespace, either member order,
/// loose member order inside the registration and the file objects.
fn px_request_loose(v: &Vec<char>) -> (r: Option<crate::dto::PrepareUploadRequestDto>)
    ensures
        match r {
            Some(d) => sp_prepare_request_loose(v@) == Some(d@),
            None => sp_prepare_request_loose(v@) is None,
        },
{
    proof {
        assert(v@.skip(0) =~= v@);
    }
    let p0 = px_ws(v, 0);
    let p1 = match px_lit(v, p0, "{") {
        Some(p) => p,
        None => {
            return None;
        },
    };
    let p1b = px_ws(v, p1);
    let (k1, p2) = match px_string(v, p1b) {
        Some(x) => x,
        None => {
            return None;
        },
    };
    let p2b = px_ws(v, p2);
    let p3 = match px_lit(v, p2b, ":") {
        Some(p) => p,
        None => {
            return None;
        },
    };
    if crate::text::str_eq(k1.as_str(), "info") {
        let (info, p4) = match px_register_loose(v, p3) {
            Some(x) => x,
            None => {
                return None;
            },
        };
        let p5 = match px_lit(v, px_ws(v, p4), ",") {
            Some(p) => p,
            None => {
                return None;
            },
        };
        let (k2, p6) = match px_string(v, px_ws(v, p5)) {
            Some(x) => x,
            None => {
                return None;
            },
        };
        if !crate::text::str_eq(k2.as_str(), "files") {
            return None;
        }
        let p7 = match px_lit(v, px_ws(v, p6), ":") {
            Some(p) => p,
            None => {
                return None;
            },
        };
        let (files, p8) = match px_file_map_loose(v, p7) {
            Some(x) => x,
            None => {
                return None;
            },
        };
        let p9 = match px_lit(v, px_ws(v, p8), "}") {
            Some(p) => p,
            None => {
                return None;
            },
        };
        let p10 = px_ws(v, p9);
        if p10 == v.len() {
            proof {
                assert(v@.skip(p10 as int).len() == 0);
            }
            Some(crate::dto::PrepareUploadRequestDto { info, files })
        } else {
            proof {
                assert(v@.skip(p10 as int).len() > 0);
            }
            None
        }
    } else if crate::text::str_eq(k1.as_str(), "files") {
        let (files, p4) = match px_file_map_loose(v, p3) {
            Some(x) => x,
            None => {
                return None;
            },
        };
        let p5 = match px_lit(v, px_ws(v, p4), ",") {
            Some(p) => p,
            None => {
                return None;
            },
        };
        let (k2, p6) = match px_string(v, px_ws(v, p5)) {
            Some(x) => x,
            None => {
                return None;
            },
        };
        if !crate::text::str_eq(k2.as_str(), "info") {
            return None;
        }
        let p7 = match px_lit(v, px_ws(v, p6), ":") {
            Some(p) => p,
            None => {
                return None;
            },
        };
        let (info, p8) = match px_register_loose(v, p7) {
            Some(x) => x,
            None => {
                return None;
            },
        };
        let p9 = match px_lit(v, px_ws(v, p8), "}") {
            Some(p) => p,
            None => {
                return None;
            },
        };
        let p10 = px_ws(v, p9);
        if p10 == v.len() {
            proof {
                assert(v@.skip(p10 as int).len() == 0);
            }
            Some(crate::dto::PrepareUploadRequestDto { info, files })
        } else {
            proof {
                assert(v@.skip(p10 as int).len() > 0);
            }
            None
        }
    } else {
        None
    }
}

/// Parses a complete prepare-upload request: the canonical form is
/// recognized directly, any other member order or whitespace through the
/// loose grammar.
pub fn parse_prepare_request(s: &str) -> (r: Option<crate::dto::PrepareUploadRequestDto>)
    ensures
        match r {
            Some(d) => sp_prepare_request_any(s@) == Some(d@),
            None => sp_prepare_request_any(s@) is None,
        },
{
    let v = chars_of(s);
    match px_request_canonical(&v) {
        Some(d) => Some(d),
        None => px_request_loose(&v),
    }
}

/// Parses a complete multicast announcement: the canonical form is
/// recognized directly; any other member order, whitespace, or extra
/// scalar members go through the member scan, later duplicate keys
/// overwriting earlier ones.
pub fn parse_multicast(s: &str) -> (r: Option<crate::dto::MulticastDto>)
    ensures
        match r {
            Some(d) => sp_multicast_any(s@) == Some(d@),
            None => sp_multicast_any(s@) is None,
        },
{
    let v = chars_of(s);
    proof {
        assert(v@.skip(0) =~= s@);
    }
    match px_multicast(&v, 0) {
        Some((d, p)) => {
            if p == v.len() {
                proof {
                    assert(v@.skip(p as int).len() == 0);
                }
                return Some(d);
            }
            proof {
                assert(v@.skip(p as int).len() > 0);
            }
        },
        None => (),
    }
    let (pairs, p) = match px_scalar_object(&v, 0) {
        Some(x) => x,
        None => {
            return None;
        },
    };
    let p2 = px_ws(&v, p);
    if p2 != v.len() {
        proof {
            assert(v@.skip(p2 as int).len() > 0);
        }
        return None;
    }
    proof {
        assert(v@.skip(p2 as int).len() == 0);
    }
    let alias = match dx_req_str(member_lookup(&pairs, "alias")) {
        Some(x) => x,
        None => {
            return None;
        },
    };
    let version = match dx_opt_str(member_lookup(&pairs, "version")) {
        Some(x) => x,
        None => {
            return None;
        },
    };
    let device_model = match dx_opt_str(member_lookup(&pairs, "deviceModel")) {
        Some(x) => x,
        None => {
            return None;
        },
    };
    let device_type = match dx_opt_device_type(member_lookup(&pairs, "deviceType")) {
        Some(x) => x,
        None => {
            return None;
        },
    };
    let fingerprint = match dx_req_str(member_lookup(&pairs, "fingerprint")) {
        Some(x) => x,
        None => {
            return None;
        },
    };
    let port = match dx_opt_u16(member_lookup(&pairs, "port")) {
        Some(x) => x,
        None => {
            return None;
        },
    };
    let protocol = match dx_opt_protocol(member_lookup(&pairs, "protocol")) {
        Some(x) => x,
        None => {
            return None;
        },
    };
    let download = match dx_opt_bool(member_lookup(&pairs, "download")) {
        Some(x) => x,
        None => {
            return None;
        },
    };
    let announcement = match dx_opt_bool(member_lookup(&pairs, "announcement")) {
        Some(x) => x,
        None => {
            return None;
        },
    };
    let announce = match dx_opt_bool(member_lookup(&pairs, "announce")) {
        Some(x) => x,
        None => {
            return None;
        },
    };
    Some(
        crate::dto::MulticastDto {
            alias,
            version,
            device_model,
            device_type,
            fingerprint,
            port,
            protocol,
            download,
            announcement,
            announce,
        },
    )
}

/// Parses a complete registration: the canonical form is recognized
/// directly; any other member order, whitespace, or extra scalar members
/// go through the member scan, later duplicate keys overwriting earlier
/// ones.
pub fn parse_register(s: &str) -> (r: Option<crate::dto::RegisterDto>)
    ensures
        match r {
            Some(d) => sp_register_any(s@) == Some(d@),
            None => sp_register_any(s@) is None,
        },
{
    let v = chars_of(s);
    proof {
        assert(v@.skip(0) =~= s@);
    }
    match px_register(&v, 0) {
        Some((d, p)) => {
            if p == v.len() {
                proof {
                    assert(v@.skip(p as int).len() == 0);
                }
                return Some(d);
            }
            proof {
                assert(v@.skip(p as int).len() > 0);
            }
        },
        None => (),
    }
    let (pairs, p) = match px_scalar_object(&v, 0) {
        Some(x) => x,
        None => {
            return None;
        },
    };
    let p2 = px_ws(&v, p);
    if p2 != v.len() {
        proof {
            assert(v@.skip(p2 as int).len() > 0);
        }
        return None;
    }
    proof {
        assert(v@.skip(p2 as int).len() == 0);
    }
    let alias = match dx_req_str(member_lookup(&pairs, "alias")) {
        Some(x) => x,
        None => {
            return None;
        },
    };
    let version = match dx_opt_str(member_lookup(&pairs, "version")) {
        Some(x) => x,
        None => {
            return None;
        },
    };
    let device_model = match dx_opt_str(member_lookup(&pairs, "deviceModel")) {
        Some(x) => x,
        None => {
            return None;
        },
    };
    let device_type = match dx_opt_device_type(member_lookup(&pairs, "deviceType")) {
        Some(x) => x,
        None => {
            return None;
        },
    };
    let fingerprint = match dx_req_str(member_lookup(&pairs, "fingerprint")) {
        Some(x) => x,
        None => {
            return None;
        },
    };
    let port = match dx_opt_u16(member_lookup(&pairs, "port")) {
        Some(x) => x,
        None => {
            return None;
        },
    };
    let protocol = match dx_opt_protocol(member_lookup(&pairs, "protocol")) {
        Some(x) => x,
        None => {
            return None;
        },
    };
    let download = match dx_opt_bool(member_lookup(&pairs, "download")) {
        Some(x) => x,
        None => {
            return None;
        },
    };
    Some(
        crate::dto::RegisterDto {
            alias,
            version,
            device_model,
            device_type,
            fingerprint,
            port,
            protocol,
            download,
        },
    )
}

/// Parses a complete file descriptor: the canonical form is recognized
/// directly; any other member order, whitespace, or extra scalar members
/// go through the member scan, later duplicate keys overwriting earlier
/// ones.
pub fn parse_file(s: &str) -> (r: Option<crate::dto::FileDto>)
    ensures
        match r {
            Some(d) => sp_file_any(s@) == Some(d@),
            None => sp_file_any(s@) is None,
        },
{
    let v = chars_of(s);
    proof {
        assert(v@.skip(0) =~= s@);
    }
    match px_file(&v, 0) {
        Some((d, p)) => {
            if p == v.len() {
                proof {
                    assert(v@.skip(p as int).len() == 0);
                }
                return Some(d);
            }
            proof {
                assert(v@.skip(p as int).len() > 0);
            }
        },
        None => (),
    }
    let (pairs, p) = match px_scalar_object(&v, 0) {
        Some(x) => x,
        None => {
            return None;
        },
    };
    let p2 = px_ws(&v, p);
    if p2 != v.len() {
        proof {
            assert(v@.skip(p2 as int).len() > 0);
        }
        return None;
    }
    proof {
        assert(v@.skip(p2 as int).len() == 0);
    }
    let id = match dx_req_str(member_lookup(&pairs, "id")) {
        Some(x) => x,
        None => {
            return None;
        },
    };
    let file_name = match dx_req_str(member_lookup(&pairs, "fileName")) {
        Some(x) => x,
        None => {
            return None;
        },
    };
    let size = match dx_req_u64(member_lookup(&pairs, "size")) {
        Some(x) => x,
        None => {
            return None;
        },
    };
    let tname = match dx_req_str(member_lookup(&pairs, "fileType")) {
        Some(x) => x,
        None => {
            return None;
        },
    };
    let file_type = crate::dto::FileType::from_mime(tname.as_str());
    let hash = match dx_opt_str(member_lookup(&pairs, "hash")) {
        Some(x) => x,
        None => {
            return None;
        },
    };
    let preview = match dx_opt_str(member_lookup(&pairs, "preview")) {
        Some(x) => x,
        None => {
            return None;
        },
    };
    Some(crate::dto::FileDto { id, file_name, size, file_type, hash, preview })
}


proof fn lemma_sj_token_pairs_front(files: Seq<(Seq<char>, Seq<char>)>)
    requires
        files.len() >= 2,
    ensures
        sj_token_pairs(files) =~= sj_string(files[0].0) + ":"@ + sj_string(files[0].1) + ","@
            + sj_token_pairs(files.drop_first()),
    decreases files.len(),
{
    if files.len() == 2 {
        assert(files.drop_last() =~= seq![files[0]]);
        assert(files.drop_first() =~= seq![files[1]]);
        assert(sj_token_pairs(seq![files[0]]) == sj_string(files[0].0) + ":"@ + sj_string(
            files[0].1,
        ));
        assert(sj_token_pairs(seq![files[1]]) == sj_string(files[1].0) + ":"@ + sj_string(
            files[1].1,
        ));
    } else {
        lemma_sj_token_pairs_front(files.drop_last());
        assert(files.drop_last()[0] == files[0]);
        assert(files.drop_last().drop_first() =~= files.drop_first().drop_last());
        assert(files.drop_first().len() >= 2);
        assert(files.drop_first().last() == files.last());
        assert(sj_token_pairs(files.drop_first()) == sj_token_pairs(files.drop_first().drop_last())
            + ","@ + sj_string(files.drop_first().last().0) + ":"@ + sj_string(
            files.drop_first().last().1,
        ));
    }
}

proof fn lemma_sj_token_pairs_len(files: Seq<(Seq<char>, Seq<char>)>)
    ensures
        sj_token_pairs(files).len() >= files.len(),
    decreases files.len(),
{
    if files.len() > 0 {
        lemma_sj_token_pairs_len(files.drop_last());
    }
}

proof fn lemma_token_pairs_parse(files: Seq<(Seq<char>, Seq<char>)>, rest: Seq<char>, fuel: nat)
    requires
        files.len() >= 1,
        fuel >= files.len(),
        rest.len() == 0 || rest[0] != ',',
    ensures
        sp_token_pairs(sj_token_pairs(files) + rest, fuel) == Some((files, rest)),
    decreases files.len(),
{
    let k = files[0].0;
    let v = files[0].1;
    let x = sj_token_pairs(files) + rest;
    if files.len() == 1 {
        let p1 = sj_string(k);
        let p2 = ":"@;
        let p3 = sj_string(v);
        assert(sj_token_pairs(files) == p1 + p2 + p3);
        vstd::seq_lib::lemma_concat_associative(p1 + p2, p3, rest);
        vstd::seq_lib::lemma_concat_associative(p1, p2, p3 + rest);
        assert(x == p1 + (p2 + (p3 + rest)));
        lemma_string_roundtrip(k, p2 + (p3 + rest));
        lemma_lit_roundtrip(p2, p3 + rest);
        lemma_string_roundtrip(v, rest);
        if rest.len() > 0 {
            assert(rest[0] != ',');
        }
        assert(seq![(k, v)] =~= files);
    } else {
        lemma_sj_token_pairs_front(files);
        let p1 = sj_string(k);
        let p2 = ":"@;
        let p3 = sj_string(v);
        let p4 = ","@;
        let p5 = sj_token_pairs(files.drop_first());
        assert(sj_token_pairs(files) == p1 + p2 + p3 + p4 + p5);
        let u5 = p5 + rest;
        let u4 = p4 + u5;
        let u3 = p3 + u4;
        vstd::seq_lib::lemma_concat_associative(p1 + p2 + p3 + p4, p5, rest);
        vstd::seq_lib::lemma_concat_associative(p1 + p2 + p3, p4, u5);
        vstd::seq_lib::lemma_concat_associative(p1 + p2, p3, u4);
        vstd::seq_lib::lemma_concat_associative(p1, p2, u3);
        assert(x == p1 + (p2 + u3));
        lemma_string_roundtrip(k, p2 + u3);
        lemma_lit_roundtrip(p2, u3);
        lemma_string_roundtrip(v, u4);
        reveal_strlit(",");
        assert(u4[0] == ',');
        assert(u4.skip(1) =~= u5);
        lemma_token_pairs_parse(files.drop_first(), rest, (fuel - 1) as nat);
        assert(seq![(k, v)] + files.drop_first() =~= files);
    }
}

proof fn lemma_token_map_parse(files: Seq<(Seq<char>, Seq<char>)>, rest: Seq<char>)
    ensures
        sp_token_map(sj_token_map(files) + rest) == Some((files, rest)),
{
    let x = sj_token_map(files) + rest;
    assert(x =~= "{"@ + (sj_token_pairs(files) + ("}"@ + rest)));
    lemma_lit_roundtrip("{"@, sj_token_pairs(files) + ("}"@ + rest));
    let s1 = sj_token_pairs(files) + ("}"@ + rest);
    if files.len() == 0 {
        assert(s1 =~= "}"@ + rest);
        lemma_lit_roundtrip("}"@, rest);
        assert(files =~= Seq::<(Seq<char>, Seq<char>)>::empty());
    } else {
        reveal_strlit("}");
        assert(sj_token_pairs(files).len() > 0) by {
            lemma_sj_token_pairs_len(files);
        }
        assert(s1[0] == sj_token_pairs(files)[0]);
        if files.len() == 1 {
            assert(sj_token_pairs(files)[0] == '"');
        } else {
            lemma_sj_token_pairs_front(files);
            assert(sj_token_pairs(files)[0] == '"');
        }
        lemma_lit_mismatch(s1, "}"@, 0);
        lemma_sj_token_pairs_len(files);
        assert(s1.len() >= files.len());
        reveal_strlit(",");
        assert(("}"@ + rest)[0] == '}');
        lemma_token_pairs_parse(files, "}"@ + rest, s1.len());
        lemma_lit_roundtrip("}"@, rest);
    }
}

/// The law of the response round trip: the token map or enveloped
/// response a receiver serializes parses back on the sender to the same
/// value.
pub proof fn lemma_token_map_roundtrip(files: Seq<(Seq<char>, Seq<char>)>)
    ensures
        sp_token_map_full(sj_token_map(files)) == Some(files),
{
    lemma_token_map_parse(files, Seq::empty());
    assert(sj_token_map(files) + Seq::<char>::empty() =~= sj_token_map(files));
}

/// The law of the enveloped response round trip.
pub proof fn lemma_prepare_response_roundtrip(d: crate::dto::PrepareUploadResponseDtoView)
    ensures
        sp_prepare_response_full(sj_prepare_response(d)) == Some(d),
{
    let x = sj_prepare_response(d);
    let t2 = "}"@;
    let t1 = ",\"files\":"@ + (sj_token_map(d.files) + t2);
    assert(x =~= "{\"sessionId\":"@ + (sj_string(d.session_id) + t1));
    lemma_lit_roundtrip("{\"sessionId\":"@, sj_string(d.session_id) + t1);
    lemma_string_roundtrip(d.session_id, t1);
    lemma_lit_roundtrip(",\"files\":"@, sj_token_map(d.files) + t2);
    lemma_token_map_parse(d.files, t2);
    lemma_lit_roundtrip("}"@, Seq::empty());
    assert(t2 =~= "}"@ + Seq::<char>::empty());
}


proof fn lemma_sj_file_pairs_front(files: Seq<crate::dto::FileDtoView>)
    requires
        files.len() >= 2,
    ensures
        sj_file_pairs(files) =~= sj_string(files[0].id) + ":"@ + sj_file(files[0]) + ","@
            + sj_file_pairs(files.drop_first()),
    decreases files.len(),
{
    if files.len() == 2 {
        assert(files.drop_last() =~= seq![files[0]]);
        assert(files.drop_first() =~= seq![files[1]]);
        assert(sj_file_pairs(seq![files[0]]) == sj_string(files[0].id) + ":"@ + sj_file(files[0]));
        assert(sj_file_pairs(seq![files[1]]) == sj_string(files[1].id) + ":"@ + sj_file(files[1]));
    } else {
        lemma_sj_file_pairs_front(files.drop_last());
        assert(files.drop_last()[0] == files[0]);
        assert(files.drop_last().drop_first() =~= files.drop_first().drop_last());
        assert(files.drop_first().len() >= 2);
        assert(files.drop_first().last() == files.last());
        assert(sj_file_pairs(files.drop_first()) == sj_file_pairs(files.drop_first().drop_last())
            + ","@ + sj_string(files.drop_first().last().id) + ":"@ + sj_file(
            files.drop_first().last(),
        ));
    }
}

proof fn lemma_sj_file_pairs_first_char(files: Seq<crate::dto::FileDtoView>)
    requires
        files.len() >= 1,
    ensures
        sj_file_pairs(files).len() >= files.len(),
        sj_file_pairs(files)[0] == '"',
    decreases files.len(),
{
    if files.len() == 1 {
        assert(sj_file_pairs(files) == sj_string(files[0].id) + ":"@ + sj_file(files[0]));
        assert(sj_string(files[0].id)[0] == '"');
    } else {
        lemma_sj_file_pairs_front(files);
        assert(sj_string(files[0].id)[0] == '"');
        lemma_sj_file_pairs_first_char(files.drop_last());
        assert(sj_file_pairs(files).len() >= files.len());
    }
}

#[verifier::rlimit(50)]
#[verifier::spinoff_prover]
proof fn lemma_file_pairs_parse(files: Seq<crate::dto::FileDtoView>, rest: Seq<char>, fuel: nat)
    requires
        files.len() >= 1,
        fuel >= files.len(),
        rest.len() == 0 || rest[0] != ',',
    ensures
        sp_file_pairs(sj_file_pairs(files) + rest, fuel) == Some((files, rest)),
    decreases files.len(),
{
    let f = files[0];
    let x = sj_file_pairs(files) + rest;
    if files.len() == 1 {
        let p1 = sj_string(f.id);
        let p2 = ":"@;
        let p3 = sj_file(f);
        assert(sj_file_pairs(files) == p1 + p2 + p3);
        vstd::seq_lib::lemma_concat_associative(p1 + p2, p3, rest);
        vstd::seq_lib::lemma_concat_associative(p1, p2, p3 + rest);
        assert(x == p1 + (p2 + (p3 + rest)));
        lemma_string_roundtrip(f.id, p2 + (p3 + rest));
        lemma_lit_roundtrip(p2, p3 + rest);
        lemma_file_parse(f, rest);
        if rest.len() > 0 {
            assert(rest[0] != ',');
        }
        assert(seq![f] =~= files);
    } else {
        lemma_sj_file_pairs_front(files);
        let p1 = sj_string(f.id);
        let p2 = ":"@;
        let p3 = sj_file(f);
        let p4 = ","@;
        let p5 = sj_file_pairs(files.drop_first());
        assert(sj_file_pairs(files) == p1 + p2 + p3 + p4 + p5);
        let u5 = p5 + rest;
        let u4 = p4 + u5;
        let u3 = p3 + u4;
        vstd::seq_lib::lemma_concat_associative(p1 + p2 + p3 + p4, p5, rest);
        vstd::seq_lib::lemma_concat_associative(p1 + p2 + p3, p4, u5);
        vstd::seq_lib::lemma_concat_associative(p1 + p2, p3, u4);
        vstd::seq_lib::lemma_concat_associative(p1, p2, u3);
        assert(x == p1 + (p2 + u3));
        lemma_string_roundtrip(f.id, p2 + u3);
        lemma_lit_roundtrip(p2, u3);
        lemma_file_parse(f, u4);
        reveal_strlit(",");
        assert(u4[0] == ',');
        assert(u4.skip(1) =~= u5);
        lemma_file_pairs_parse(files.drop_first(), rest, (fuel - 1) as nat);
        assert(seq![f] + files.drop_first() =~= files);
    }
}

/// The law of the request round trip: the prepare-upload request a sender
/// serializes parses back on the receiver to the same value.
#[verifier::rlimit(60)]
#[verifier::spinoff_prover]
pub proof fn lemma_prepare_request_roundtrip(d: crate::dto::PrepareUploadRequestDtoView)
    ensures
        sp_prepare_request_full(sj_prepare_request(d)) == Some(d),
{
    let x = sj_prepare_request(d);
    reveal_strlit("}}");
    reveal_strlit("}");
    assert("}}"@ =~= "}"@ + "}"@);
    let t2 = "}"@ + "}"@;
    let t1 = ",\"files\":{"@ + (sj_file_pairs(d.files) + t2);
    let p1 = "{\"info\":"@;
    let p2 = sj_register(d.info);
    let p3 = ",\"files\":{"@;
    let p4 = sj_file_pairs(d.files);
    let p5 = "}}"@;
    assert(x == p1 + p2 + p3 + p4 + p5);
    vstd::seq_lib::lemma_concat_associative(p1 + p2 + p3, p4, p5);
    vstd::seq_lib::lemma_concat_associative(p1 + p2, p3, p4 + p5);
    vstd::seq_lib::lemma_concat_associative(p1, p2, p3 + (p4 + p5));
    assert(x == p1 + (p2 + (p3 + (p4 + p5))));
    lemma_lit_roundtrip(p1, p2 + (p3 + (p4 + p5)));
    lemma_register_parse(d.info, p3 + (p4 + p5));
    lemma_lit_roundtrip(p3, p4 + p5);
    let r2 = p4 + p5;
    assert(p5 == t2);
    if d.files.len() == 0 {
        assert(r2 =~= "}"@ + "}"@);
        assert(r2[0] == '}');
        assert(r2.skip(1) =~= "}"@);
        lemma_lit_roundtrip("}"@, Seq::empty());
        assert("}"@ =~= "}"@ + Seq::<char>::empty());
        assert(d.files =~= Seq::<crate::dto::FileDtoView>::empty());
    } else {
        lemma_sj_file_pairs_first_char(d.files);
        assert(r2[0] == p4[0]);
        assert(r2[0] == '"');
        assert(r2.len() >= d.files.len());
        vstd::seq_lib::lemma_concat_associative(p4, "}"@, "}"@);
        assert(r2 == p4 + ("}"@ + "}"@));
        assert(("}"@ + "}"@)[0] == '}');
        reveal_strlit(",");
        lemma_file_pairs_parse(d.files, "}"@ + "}"@, r2.len());
        lemma_lit_roundtrip("}"@, "}"@);
        lemma_lit_roundtrip("}"@, Seq::empty());
        assert("}"@ =~= "}"@ + Seq::<char>::empty());
    }
}


/// JSON whitespace.
pub open spec fn is_ws(c: char) -> bool {
    c == ' ' || c == '\t' || c == '\n' || c == '\r'
}

/// The input with its leading whitespace removed.
pub open spec fn sp_ws(s: Seq<char>) -> Seq<char>
    decreases s.len(),
{
    if s.len() > 0 && is_ws(s[0]) {
        sp_ws(s.skip(1))
    } else {
        s
    }
}

/// A scalar JSON value: the member values our wire shapes use.
pub ghost enum SVal {
    Null,
    Bool(bool),
    Num(u64),
    Str(Seq<char>),
}

/// Parses one scalar value, dispatched on the first character.
pub open spec fn sp_scalar(s: Seq<char>) -> Option<(SVal, Seq<char>)> {
    if s.len() == 0 {
        None
    } else if s[0] == '"' {
        match sp_string(s) {
            Some((v, r)) => Some((SVal::Str(v), r)),
            None => None,
        }
    } else if s[0] == 't' {
        match sp_lit(s, "true"@) {
            Some(r) => Some((SVal::Bool(true), r)),
            None => None,
        }
    } else if s[0] == 'f' {
        match sp_lit(s, "false"@) {
            Some(r) => Some((SVal::Bool(false), r)),
            None => None,
        }
    } else if s[0] == 'n' {
        match sp_lit(s, "null"@) {
            Some(r) => Some((SVal::Null, r)),
            None => None,
        }
    } else {
        match sp_u64(s) {
            Some((v, r)) => Some((SVal::Num(v), r)),
            None => None,
        }
    }
}

/// Parses the members of an object whose values are scalars, in any order
/// and with any whitespace, at most `fuel` of them.
pub open spec fn sp_scalar_members(s: Seq<char>, fuel: nat) -> Option<
    (Seq<(Seq<char>, SVal)>, Seq<char>),
>
    decreases fuel,
{
    if fuel == 0 {
        None
    } else {
        match sp_string(sp_ws(s)) {
            Some((k, r1)) => match sp_lit(sp_ws(r1), ":"@) {
                Some(r2) => match sp_scalar(sp_ws(r2)) {
                    Some((v, r3)) => {
                        let r3b = sp_ws(r3);
                        if r3b.len() > 0 && r3b[0] == ',' {
                            match sp_scalar_members(r3b.skip(1), (fuel - 1) as nat) {
                                Some((tail, rest)) => Some((seq![(k, v)] + tail, rest)),
                                None => None,
                            }
                        } else {
                            Some((seq![(k, v)], r3b))
                        }
                    },
                    None => None,
                },
                None => None,
            },
            None => None,
        }
    }
}

/// Parses an object of scalar members into its `(key, value)` pairs.
pub open spec fn sp_scalar_object(s: Seq<char>) -> Option<(Seq<(Seq<char>, SVal)>, Seq<char>)> {
    match sp_lit(sp_ws(s), "{"@) {
        Some(s1) => {
            let s1b = sp_ws(s1);
            if s1b.len() > 0 && s1b[0] == '}' {
                Some((Seq::empty(), s1b.skip(1)))
            } else {
                match sp_scalar_members(s1b, s1b.len()) {
                    Some((pairs, r)) => match sp_lit(sp_ws(r), "}"@) {
                        Some(rest) => Some((pairs, rest)),
                        None => None,
                    },
                    None => None,
                }
            }
        },
        None => None,
    }
}

/// The value stored under `key`: the last member with that key, as a JSON
/// map whose duplicate keys overwrite earlier ones would store it.
pub open spec fn lookup_member(pairs: Seq<(Seq<char>, SVal)>, key: Seq<char>) -> Option<SVal>
    decreases pairs.len(),
{
    if pairs.len() == 0 {
        None
    } else if pairs.last().0 == key {
        Some(pairs.last().1)
    } else {
        lookup_member(pairs.drop_last(), key)
    }
}

/// A required string member.
pub open spec fn dec_req_str(v: Option<SVal>) -> Option<Seq<char>> {
    match v {
        Some(SVal::Str(x)) => Some(x),
        _ => None,
    }
}

/// An optional string member: absent and null both stand for nothing.
pub open spec fn dec_opt_str(v: Option<SVal>) -> Option<Option<Seq<char>>> {
    match v {
        None => Some(None),
        Some(SVal::Null) => Some(None),
        Some(SVal::Str(x)) => Some(Some(x)),
        _ => None,
    }
}

/// An optional port member.
pub open spec fn dec_opt_u16(v: Option<SVal>) -> Option<Option<u16>> {
    match v {
        None => Some(None),
        Some(SVal::Null) => Some(None),
        Some(SVal::Num(n)) => if n <= u16::MAX as u64 {
            Some(Some(n as u16))
        } else {
            None
        },
        _ => None,
    }
}

/// An optional boolean member.
pub open spec fn dec_opt_bool(v: Option<SVal>) -> Option<Option<bool>> {
    match v {
        None => Some(None),
        Some(SVal::Null) => Some(None),
        Some(SVal::Bool(b)) => Some(Some(b)),
        _ => None,
    }
}

/// An optional device-type member, by its wire name.
pub open spec fn dec_opt_device_type(v: Option<SVal>) -> Option<Option<DeviceType>> {
    match v {
        None => Some(None),
        Some(SVal::Null) => Some(None),
        Some(SVal::Str(x)) => match sp_device_type_of(x) {
            Some(t) => Some(Some(t)),
            None => None,
        },
        _ => None,
    }
}

/// An optional transport-scheme member, by its wire name.
pub open spec fn dec_opt_protocol(v: Option<SVal>) -> Option<Option<ProtocolType>> {
    match v {
        None => Some(None),
        Some(SVal::Null) => Some(None),
        Some(SVal::Str(x)) => match sp_protocol_of(x) {
            Some(p) => Some(Some(p)),
            None => None,
        },
        _ => None,
    }
}

/// A required number member.
pub open spec fn dec_req_u64(v: Option<SVal>) -> Option<u64> {
    match v {
        Some(SVal::Num(n)) => Some(n),
        _ => None,
    }
}

/// The registration read from an object's members, fields in any order.
pub open spec fn sp_register_members(pairs: Seq<(Seq<char>, SVal)>) -> Option<RegisterDtoView> {
    if dec_req_str(lookup_member(pairs, "alias"@)) is Some && dec_opt_str(
        lookup_member(pairs, "version"@),
    ) is Some && dec_opt_str(lookup_member(pairs, "deviceModel"@)) is Some && dec_opt_device_type(
        lookup_member(pairs, "deviceType"@),
    ) is Some && dec_req_str(lookup_member(pairs, "fingerprint"@)) is Some && dec_opt_u16(
        lookup_member(pairs, "port"@),
    ) is Some && dec_opt_protocol(lookup_member(pairs, "protocol"@)) is Some && dec_opt_bool(
        lookup_member(pairs, "download"@),
    ) is Some {
        Some(
            RegisterDtoView {
                alias: dec_req_str(lookup_member(pairs, "alias"@))->Some_0,
                version: dec_opt_str(lookup_member(pairs, "version"@))->Some_0,
                device_model: dec_opt_str(lookup_member(pairs, "deviceModel"@))->Some_0,
                device_type: dec_opt_device_type(lookup_member(pairs, "deviceType"@))->Some_0,
                fingerprint: dec_req_str(lookup_member(pairs, "fingerprint"@))->Some_0,
                port: dec_opt_u16(lookup_member(pairs, "port"@))->Some_0,
                protocol: dec_opt_protocol(lookup_member(pairs, "protocol"@))->Some_0,
                download: dec_opt_bool(lookup_member(pairs, "download"@))->Some_0,
            },
        )
    } else {
        None
    }
}

/// The announcement read from an object's members, fields in any order.
pub open spec fn sp_multicast_members(pairs: Seq<(Seq<char>, SVal)>) -> Option<MulticastDtoView> {
    match sp_register_members(pairs) {
        Some(reg) => if dec_opt_bool(lookup_member(pairs, "announcement"@)) is Some && dec_opt_bool(
            lookup_member(pairs, "announce"@),
        ) is Some {
            Some(
                MulticastDtoView {
                    alias: reg.alias,
                    version: reg.version,
                    device_model: reg.device_model,
                    device_type: reg.device_type,
                    fingerprint: reg.fingerprint,
                    port: reg.port,
                    protocol: reg.protocol,
                    download: reg.download,
                    announcement: dec_opt_bool(lookup_member(pairs, "announcement"@))->Some_0,
                    announce: dec_opt_bool(lookup_member(pairs, "announce"@))->Some_0,
                },
            )
        } else {
            None
        },
        None => None,
    }
}

/// The file descriptor read from an object's members, fields in any order;
/// the category derived from the `fileType` string as a MIME name.
pub open spec fn sp_file_members(pairs: Seq<(Seq<char>, SVal)>) -> Option<crate::dto::FileDtoView> {
    if dec_req_str(lookup_member(pairs, "id"@)) is Some && dec_req_str(
        lookup_member(pairs, "fileName"@),
    ) is Some && dec_req_u64(lookup_member(pairs, "size"@)) is Some && dec_req_str(
        lookup_member(pairs, "fileType"@),
    ) is Some && dec_opt_str(lookup_member(pairs, "hash"@)) is Some && dec_opt_str(
        lookup_member(pairs, "preview"@),
    ) is Some {
        Some(
            crate::dto::FileDtoView {
                id: dec_req_str(lookup_member(pairs, "id"@))->Some_0,
                file_name: dec_req_str(lookup_member(pairs, "fileName"@))->Some_0,
                size: dec_req_u64(lookup_member(pairs, "size"@))->Some_0,
                file_type: crate::dto::spec_file_type_of_mime(
                    dec_req_str(lookup_member(pairs, "fileType"@))->Some_0,
                ),
                hash: dec_opt_str(lookup_member(pairs, "hash"@))->Some_0,
                preview: dec_opt_str(lookup_member(pairs, "preview"@))->Some_0,
            },
        )
    } else {
        None
    }
}

/// A registration in any member order, with whitespace.
pub open spec fn sp_register_loose(s: Seq<char>) -> Option<(RegisterDtoView, Seq<char>)> {
    match sp_scalar_object(s) {
        Some((pairs, rest)) => match sp_register_members(pairs) {
            Some(d) => Some((d, rest)),
            None => None,
        },
        None => None,
    }
}

/// A complete registration: the canonical form, else the member scan.
pub open spec fn sp_register_any(s: Seq<char>) -> Option<RegisterDtoView> {
    match sp_register_full(s) {
        Some(d) => Some(d),
        None => match sp_register_loose(s) {
            Some((d, rest)) => if sp_ws(rest).len() == 0 {
                Some(d)
            } else {
                None
            },
            None => None,
        },
    }
}

/// A complete announcement: the canonical form, else the member scan.
pub open spec fn sp_multicast_any(s: Seq<char>) -> Option<MulticastDtoView> {
    match sp_multicast_full(s) {
        Some(d) => Some(d),
        None => match sp_scalar_object(s) {
            Some((pairs, rest)) => if sp_ws(rest).len() == 0 {
                sp_multicast_members(pairs)
            } else {
                None
            },
            None => None,
        },
    }
}

/// A complete file descriptor: the canonical form, else the member scan.
pub open spec fn sp_file_any(s: Seq<char>) -> Option<crate::dto::FileDtoView> {
    match sp_file_full(s) {
        Some(d) => Some(d),
        None => match sp_scalar_object(s) {
            Some((pairs, rest)) => if sp_ws(rest).len() == 0 {
                sp_file_members(pairs)
            } else {
                None
            },
            None => None,
        },
    }
}


/// A scalar member value.
pub enum JsonScalar {
    Null,
    Bool(bool),
    Num(u64),
    Str(String),
}

impl View for JsonScalar {
    type V = SVal;

    open spec fn view(&self) -> SVal {
        match self {
            JsonScalar::Null => SVal::Null,
            JsonScalar::Bool(b) => SVal::Bool(*b),
            JsonScalar::Num(n) => SVal::Num(*n),
            JsonScalar::Str(x) => SVal::Str(x@),
        }
    }
}

impl DeepView for JsonScalar {
    type V = SVal;

    open spec fn deep_view(&self) -> SVal {
        self.view()
    }
}

impl Clone for JsonScalar {
    fn clone(&self) -> (r: Self)
        ensures
            r@ == self@,
    {
        match self {
            JsonScalar::Null => JsonScalar::Null,
            JsonScalar::Bool(b) => JsonScalar::Bool(*b),
            JsonScalar::Num(n) => JsonScalar::Num(*n),
            JsonScalar::Str(x) => JsonScalar::Str(x.clone()),
        }
    }
}

/// Skips whitespace at `pos`.
fn px_ws(v: &Vec<char>, pos: usize) -> (p2: usize)
    requires
        pos <= v@.len(),
    ensures
        pos <= p2 <= v@.len(),
        sp_ws(v@.skip(pos as int)) == v@.skip(p2 as int),
    decreases v@.len() - pos,
{
    if pos == v.len() {
        return pos;
    }
    let c = v[pos];
    proof {
        assert(v@.skip(pos as int)[0] == c);
    }
    if c == ' ' || c == '\t' || c == '\n' || c == '\r' {
        proof {
            assert(v@.skip(pos as int).skip(1) =~= v@.skip(pos + 1));
        }
        px_ws(v, pos + 1)
    } else {
        pos
    }
}

/// Parses one scalar value at `pos`.
fn px_scalar(v: &Vec<char>, pos: usize) -> (r: Option<(JsonScalar, usize)>)
    requires
        pos <= v@.len(),
    ensures
        match r {
            Some(p) => pos <= p.1 <= v@.len() && sp_scalar(v@.skip(pos as int)) == Some(
                (p.0@, v@.skip(p.1 as int)),
            ),
            None => sp_scalar(v@.skip(pos as int)) is None,
        },
{
    if pos == v.len() {
        return None;
    }
    let c = v[pos];
    proof {
        assert(v@.skip(pos as int)[0] == c);
    }
    if c == '"' {
        match px_string(v, pos) {
            Some((x, p)) => Some((JsonScalar::Str(x), p)),
            None => None,
        }
    } else if c == 't' {
        match px_lit(v, pos, "true") {
            Some(p) => Some((JsonScalar::Bool(true), p)),
            None => None,
        }
    } else if c == 'f' {
        match px_lit(v, pos, "false") {
            Some(p) => Some((JsonScalar::Bool(false), p)),
            None => None,
        }
    } else if c == 'n' {
        match px_lit(v, pos, "null") {
            Some(p) => Some((JsonScalar::Null, p)),
            None => None,
        }
    } else {
        match px_u64(v, pos) {
            Some((n, p)) => Some((JsonScalar::Num(n), p)),
            None => None,
        }
    }
}

/// Parses scalar members at `pos`, at most `fuel` of them.
fn px_scalar_members(v: &Vec<char>, pos: usize, fuel: usize) -> (r: Option<
    (Vec<(String, JsonScalar)>, usize),
>)
    requires
        pos <= v@.len(),
    ensures
        match r {
            Some(p) => pos <= p.1 <= v@.len() && sp_scalar_members(
                v@.skip(pos as int),
                fuel as nat,
            ) == Some((p.0.deep_view(), v@.skip(p.1 as int))),
            None => sp_scalar_members(v@.skip(pos as int), fuel as nat) is None,
        },
    decreases fuel,
{
    if fuel == 0 {
        return None;
    }
    let p0 = px_ws(v, pos);
    let (k, p1) = match px_string(v, p0) {
        Some(x) => x,
        None => {
            return None;
        },
    };
    let p1b = px_ws(v, p1);
    let p2 = match px_lit(v, p1b, ":") {
        Some(p) => p,
        None => {
            return None;
        },
    };
    let p2b = px_ws(v, p2);
    let (val, p3) = match px_scalar(v, p2b) {
        Some(x) => x,
        None => {
            return None;
        },
    };
    let p3b = px_ws(v, p3);
    let ghost r3b = v@.skip(p3b as int);
    if p3b < v.len() && v[p3b] == ',' {
        proof {
            assert(r3b[0] == v@[p3b as int]);
            assert(r3b.skip(1) =~= v@.skip(p3b + 1));
        }
        match px_scalar_members(v, p3b + 1, fuel - 1) {
            Some((tail, p4)) => {
                let mut out: Vec<(String, JsonScalar)> = Vec::new();
                out.push((k, val));
                let mut tail = tail;
                let ghost tv = tail.deep_view();
                out.append(&mut tail);
                proof {
                    assert(out.deep_view() =~= seq![(out@[0].0@, out@[0].1@)] + tv);
                }
                Some((out, p4))
            },
            None => None,
        }
    } else {
        proof {
            if r3b.len() > 0 {
                assert(r3b[0] == v@[p3b as int]);
            }
        }
        let mut out: Vec<(String, JsonScalar)> = Vec::new();
        out.push((k, val));
        proof {
            assert(out.deep_view() =~= seq![(out@[0].0@, out@[0].1@)]);
        }
        Some((out, p3b))
    }
}

/// Parses an object of scalar members at `pos`.
fn px_scalar_object(v: &Vec<char>, pos: usize) -> (r: Option<(Vec<(String, JsonScalar)>, usize)>)
    requires
        pos <= v@.len(),
    ensures
        match r {
            Some(p) => pos <= p.1 <= v@.len() && sp_scalar_object(v@.skip(pos as int)) == Some(
                (p.0.deep_view(), v@.skip(p.1 as int)),
            ),
            None => sp_scalar_object(v@.skip(pos as int)) is None,
        },
{
    let p0 = px_ws(v, pos);
    let p1 = match px_lit(v, p0, "{") {
        Some(p) => p,
        None => {
            return None;
        },
    };
    let p1b = px_ws(v, p1);
    let ghost s1b = v@.skip(p1b as int);
    if p1b < v.len() && v[p1b] == '}' {
        proof {
            assert(s1b[0] == v@[p1b as int]);
            assert(s1b.skip(1) =~= v@.skip(p1b + 1));
        }
        let out: Vec<(String, JsonScalar)> = Vec::new();
        proof {
            assert(out.deep_view() =~= Seq::<(Seq<char>, SVal)>::empty());
        }
        return Some((out, p1b + 1));
    }
    proof {
        if s1b.len() > 0 {
            assert(s1b[0] == v@[p1b as int]);
        }
        assert(s1b.len() == v@.len() - p1b);
    }
    match px_scalar_members(v, p1b, v.len() - p1b) {
        Some((pairs, p2)) => {
            let p2b = px_ws(v, p2);
            match px_lit(v, p2b, "}") {
                Some(p3) => Some((pairs, p3)),
                None => None,
            }
        },
        None => None,
    }
}

/// The value of the last member under `key`, if any.
fn member_lookup(pairs: &Vec<(String, JsonScalar)>, key: &str) -> (r: Option<JsonScalar>)
    ensures
        r.deep_view() == lookup_member(pairs.deep_view(), key@),
{
    let ghost pv = pairs.deep_view();
    let mut best: Option<JsonScalar> = None;
    let mut i: usize = 0;
    while i < pairs.len()
        invariant
            i <= pairs.len(),
            pv == pairs.deep_view(),
            pv.len() == pairs.len(),
            best.deep_view() == lookup_member(pv.take(i as int), key@),
        decreases pairs.len() - i,
    {
        proof {
            assert(pv.take(i + 1).drop_last() =~= pv.take(i as int));
            assert(pv.take(i + 1).last() == pv[i as int]);
            assert(pv[i as int] == (pairs@[i as int].0@, pairs@[i as int].1@));
        }
        if crate::text::str_eq(pairs[i].0.as_str(), key) {
            best = Some(pairs[i].1.clone());
        }
        i += 1;
    }
    proof {
        assert(pv.take(pairs.len() as int) =~= pv);
    }
    best
}

/// Decodes a required string member.
fn dx_req_str(v: Option<JsonScalar>) -> (r: Option<String>)
    ensures
        match r {
            Some(x) => dec_req_str(v.deep_view()) == Some(x@),
            None => dec_req_str(v.deep_view()) is None,
        },
{
    match v {
        Some(JsonScalar::Str(x)) => Some(x),
        _ => None,
    }
}

/// Decodes an optional string member.
fn dx_opt_str(v: Option<JsonScalar>) -> (r: Option<Option<String>>)
    ensures
        match r {
            Some(x) => dec_opt_str(v.deep_view()) == Some(x.deep_view()),
            None => dec_opt_str(v.deep_view()) is None,
        },
{
    match v {
        None => Some(None),
        Some(JsonScalar::Null) => Some(None),
        Some(JsonScalar::Str(x)) => Some(Some(x)),
        _ => None,
    }
}

/// Decodes an optional port member.
fn dx_opt_u16(v: Option<JsonScalar>) -> (r: Option<Option<u16>>)
    ensures
        match r {
            Some(x) => dec_opt_u16(v.deep_view()) == Some(x),
            None => dec_opt_u16(v.deep_view()) is None,
        },
{
    match v {
        None => Some(None),
        Some(JsonScalar::Null) => Some(None),
        Some(JsonScalar::Num(n)) => if n <= 65535 {
            Some(Some(n as u16))
        } else {
            None
        },
        _ => None,
    }
}

/// Decodes an optional boolean member.
fn dx_opt_bool(v: Option<JsonScalar>) -> (r: Option<Option<bool>>)
    ensures
        match r {
            Some(x) => dec_opt_bool(v.deep_view()) == Some(x),
            None => dec_opt_bool(v.deep_view()) is None,
        },
{
    match v {
        None => Some(None),
        Some(JsonScalar::Null) => Some(None),
        Some(JsonScalar::Bool(b)) => Some(Some(b)),
        _ => None,
    }
}

/// Decodes an optional device-type member.
fn dx_opt_device_type(v: Option<JsonScalar>) -> (r: Option<Option<DeviceType>>)
    ensures
        match r {
            Some(x) => dec_opt_device_type(v.deep_view()) == Some(x),
            None => dec_opt_device_type(v.deep_view()) is None,
        },
{
    match v {
        None => Some(None),
        Some(JsonScalar::Null) => Some(None),
        Some(JsonScalar::Str(x)) => match px_device_type_of(&x) {
            Some(t) => Some(Some(t)),
            None => None,
        },
        _ => None,
    }
}

/// Decodes an optional transport-scheme member.
fn dx_opt_protocol(v: Option<JsonScalar>) -> (r: Option<Option<ProtocolType>>)
    ensures
        match r {
            Some(x) => dec_opt_protocol(v.deep_view()) == Some(x),
            None => dec_opt_protocol(v.deep_view()) is None,
        },
{
    match v {
        None => Some(None),
        Some(JsonScalar::Null) => Some(None),
        Some(JsonScalar::Str(x)) => match px_protocol_of(&x) {
            Some(p) => Some(Some(p)),
            None => None,
        },
        _ => None,
    }
}

/// Decodes a required number member.
fn dx_req_u64(v: Option<JsonScalar>) -> (r: Option<u64>)
    ensures
        match r {
            Some(x) => dec_req_u64(v.deep_view()) == Some(x),
            None => dec_req_u64(v.deep_view()) is None,
        },
{
    match v {
        Some(JsonScalar::Num(n)) => Some(n),
        _ => None,
    }
}


/// Builds a registration from scanned members.
fn register_from_pairs(pairs: &Vec<(String, JsonScalar)>) -> (r: Option<crate::dto::RegisterDto>)
    ensures
        match r {
            Some(d) => sp_register_members(pairs.deep_view()) == Some(d@),
            None => sp_register_members(pairs.deep_view()) is None,
        },
{
    let alias = match dx_req_str(member_lookup(pairs, "alias")) {
        Some(x) => x,
        None => {
            return None;
        },
    };
    let version = match dx_opt_str(member_lookup(pairs, "version")) {
        Some(x) => x,
        None => {
            return None;
        },
    };
    let device_model = match dx_opt_str(member_lookup(pairs, "deviceModel")) {
        Some(x) => x,
        None => {
            return None;
        },
    };
    let device_type = match dx_opt_device_type(member_lookup(pairs, "deviceType")) {
        Some(x) => x,
        None => {
            return None;
        },
    };
    let fingerprint = match dx_req_str(member_lookup(pairs, "fingerprint")) {
        Some(x) => x,
        None => {
            return None;
        },
    };
    let port = match dx_opt_u16(member_lookup(pairs, "port")) {
        Some(x) => x,
        None => {
            return None;
        },
    };
    let protocol = match dx_opt_protocol(member_lookup(pairs, "protocol")) {
        Some(x) => x,
        None => {
            return None;
        },
    };
    let download = match dx_opt_bool(member_lookup(pairs, "download")) {
        Some(x) => x,
        None => {
            return None;
        },
    };
    Some(
        crate::dto::RegisterDto {
            alias,
            version,
            device_model,
            device_type,
            fingerprint,
            port,
            protocol,
            download,
        },
    )
}

/// Builds a file descriptor from scanned members.
fn file_from_pairs(pairs: &Vec<(String, JsonScalar)>) -> (r: Option<crate::dto::FileDto>)
    ensures
        match r {
            Some(d) => sp_file_members(pairs.deep_view()) == Some(d@),
            None => sp_file_members(pairs.deep_view()) is None,
        },
{
    let id = match dx_req_str(member_lookup(pairs, "id")) {
        Some(x) => x,
        None => {
            return None;
        },
    };
    let file_name = match dx_req_str(member_lookup(pairs, "fileName")) {
        Some(x) => x,
        None => {
            return None;
        },
    };
    let size = match dx_req_u64(member_lookup(pairs, "size")) {
        Some(x) => x,
        None => {
            return None;
        },
    };
    let tname = match dx_req_str(member_lookup(pairs, "fileType")) {
        Some(x) => x,
        None => {
            return None;
        },
    };
    let file_type = crate::dto::FileType::from_mime(tname.as_str());
    let hash = match dx_opt_str(member_lookup(pairs, "hash")) {
        Some(x) => x,
        None => {
            return None;
        },
    };
    let preview = match dx_opt_str(member_lookup(pairs, "preview")) {
        Some(x) => x,
        None => {
            return None;
        },
    };
    Some(crate::dto::FileDto { id, file_name, size, file_type, hash, preview })
}


/// A file descriptor in any member order, with whitespace, and what
/// follows it.
pub open spec fn sp_file_loose(s: Seq<char>) -> Option<(crate::dto::FileDtoView, Seq<char>)> {
    match sp_scalar_object(s) {
        Some((pairs, rest)) => match sp_file_members(pairs) {
            Some(d) => Some((d, rest)),
            None => None,
        },
        None => None,
    }
}

/// The members of a file map, with whitespace and loose file objects, at
/// most `fuel` of them; the keys are dropped, each descriptor carries its
/// id.
pub open spec fn sp_file_pairs_loose(s: Seq<char>, fuel: nat) -> Option<
    (Seq<crate::dto::FileDtoView>, Seq<char>),
>
    decreases fuel,
{
    if fuel == 0 {
        None
    } else {
        match sp_string(sp_ws(s)) {
            Some((_k, r1)) => match sp_lit(sp_ws(r1), ":"@) {
                Some(r2) => match sp_file_loose(r2) {
                    Some((f, r3)) => {
                        let r3b = sp_ws(r3);
                        if r3b.len() > 0 && r3b[0] == ',' {
                            match sp_file_pairs_loose(r3b.skip(1), (fuel - 1) as nat) {
                                Some((tail, rest)) => Some((seq![f] + tail, rest)),
                                None => None,
                            }
                        } else {
                            Some((seq![f], r3b))
                        }
                    },
                    None => None,
                },
                None => None,
            },
            None => None,
        }
    }
}

/// The files map with whitespace and loose file objects.
pub open spec fn sp_file_map_loose(s: Seq<char>) -> Option<
    (Seq<crate::dto::FileDtoView>, Seq<char>),
> {
    match sp_lit(sp_ws(s), "{"@) {
        Some(s1) => {
            let s1b = sp_ws(s1);
            if s1b.len() > 0 && s1b[0] == '}' {
                Some((Seq::empty(), s1b.skip(1)))
            } else {
                match sp_file_pairs_loose(s1b, s1b.len()) {
                    Some((fs, r)) => match sp_lit(sp_ws(r), "}"@) {
                        Some(rest) => Some((fs, rest)),
                        None => None,
                    },
                    None => None,
                }
            }
        },
        None => None,
    }
}

/// Scanned members read as a token map: every value must be a string.
pub open spec fn token_pairs_of(pairs: Seq<(Seq<char>, SVal)>) -> Option<
    Seq<(Seq<char>, Seq<char>)>,
>
    decreases pairs.len(),
{
    if pairs.len() == 0 {
        Some(Seq::empty())
    } else {
        match token_pairs_of(pairs.drop_last()) {
            Some(init) => match pairs.last().1 {
                SVal::Str(t) => Some(init.push((pairs.last().0, t))),
                _ => None,
            },
            None => None,
        }
    }
}

/// A token map with whitespace, in any member order.
pub open spec fn sp_token_map_loose(s: Seq<char>) -> Option<
    (Seq<(Seq<char>, Seq<char>)>, Seq<char>),
> {
    match sp_scalar_object(s) {
        Some((pairs, rest)) => match token_pairs_of(pairs) {
            Some(tp) => Some((tp, rest)),
            None => None,
        },
        None => None,
    }
}

/// A prepare-upload request with whitespace, its two members in either
/// order, and loose member order inside the registration and the file
/// objects.
pub open spec fn sp_prepare_request_loose(s: Seq<char>) -> Option<
    crate::dto::PrepareUploadRequestDtoView,
> {
    match sp_lit(sp_ws(s), "{"@) {
        Some(s1) => match sp_string(sp_ws(s1)) {
            Some((k1, r1)) => match sp_lit(sp_ws(r1), ":"@) {
                Some(r2) => if k1 == "info"@ {
                    match sp_register_loose(r2) {
                        Some((info, r3)) => match sp_lit(sp_ws(r3), ","@) {
                            Some(r4) => match sp_string(sp_ws(r4)) {
                                Some((k2, r5)) => if k2 == "files"@ {
                                    match sp_lit(sp_ws(r5), ":"@) {
                                        Some(r6) => match sp_file_map_loose(r6) {
                                            Some((files, r7)) => match sp_lit(sp_ws(r7), "}"@) {
                                                Some(rest) => if sp_ws(rest).len() == 0 {
                                                    Some(
                                                        crate::dto::PrepareUploadRequestDtoView {
                                                            info,
                                                            files,
                                                        },
                                                    )
                                                } else {
                                                    None
                                                },
                                                None => None,
                                            },
                                            None => None,
                                        },
                                        None => None,
                                    }
                                } else {
                                    None
                                },
                                None => None,
                            },
                            None => None,
                        },
                        None => None,
                    }
                } else if k1 == "files"@ {
                    match sp_file_map_loose(r2) {
                        Some((files, r3)) => match sp_lit(sp_ws(r3), ","@) {
                            Some(r4) => match sp_string(sp_ws(r4)) {
                                Some((k2, r5)) => if k2 == "info"@ {
                                    match sp_lit(sp_ws(r5), ":"@) {
                                        Some(r6) => match sp_register_loose(r6) {
                                            Some((info, r7)) => match sp_lit(sp_ws(r7), "}"@) {
                                                Some(rest) => if sp_ws(rest).len() == 0 {
                                                    Some(
                                                        crate::dto::PrepareUploadRequestDtoView {
                                                            info,
                                                            files,
                                                        },
                                                    )
                                                } else {
                                                    None
                                                },
                                                None => None,
                                            },
                                            None => None,
                                        },
                                        None => None,
                                    }
                                } else {
                                    None
                                },
                                None => None,
                            },
                            None => None,
                        },
                        None => None,
                    }
                } else {
                    None
                },
                None => None,
            },
            None => None,
        },
        None => None,
    }
}

/// A version 2 prepare-upload response with whitespace, its two members in
/// either order.
pub open spec fn sp_prepare_response_loose(s: Seq<char>) -> Option<
    crate::dto::PrepareUploadResponseDtoView,
> {
    match sp_lit(sp_ws(s), "{"@) {
        Some(s1) => match sp_string(sp_ws(s1)) {
            Some((k1, r1)) => match sp_lit(sp_ws(r1), ":"@) {
                Some(r2) => if k1 == "sessionId"@ {
                    match sp_string(sp_ws(r2)) {
                        Some((sid, r3)) => match sp_lit(sp_ws(r3), ","@) {
                            Some(r4) => match sp_string(sp_ws(r4)) {
                                Some((k2, r5)) => if k2 == "files"@ {
                                    match sp_lit(sp_ws(r5), ":"@) {
                                        Some(r6) => match sp_token_map_loose(r6) {
                                            Some((files, r7)) => match sp_lit(sp_ws(r7), "}"@) {
                                                Some(rest) => if sp_ws(rest).len() == 0 {
                                                    Some(
                                                        crate::dto::PrepareUploadResponseDtoView {
                                                            session_id: sid,
                                                            files,
                                                        },
                                                    )
                                                } else {
                                                    None
                                                },
                                                None => None,
                                            },
                                            None => None,
                                        },
                                        None => None,
                                    }
                                } else {
                                    None
                                },
                                None => None,
                            },
                            None => None,
                        },
                        None => None,
                    }
                } else if k1 == "files"@ {
                    match sp_token_map_loose(r2) {
                        Some((files, r3)) => match sp_lit(sp_ws(r3), ","@) {
                            Some(r4) => match sp_string(sp_ws(r4)) {
                                Some((k2, r5)) => if k2 == "sessionId"@ {
                                    match sp_lit(sp_ws(r5), ":"@) {
                                        Some(r6) => match sp_string(sp_ws(r6)) {
                                            Some((sid, r7)) => match sp_lit(sp_ws(r7), "}"@) {
                                                Some(rest) => if sp_ws(rest).len() == 0 {
                                                    Some(
                                                        crate::dto::PrepareUploadResponseDtoView {
                                                            session_id: sid,
                                                            files,
                                                        },
                                                    )
                                                } else {
                                                    None
                                                },
                                                None => None,
                                            },
                                            None => None,
                                        },
                                        None => None,
                                    }
                                } else {
                                    None
                                },
                                None => None,
                            },
                            None => None,
                        },
                        None => None,
                    }
                } else {
                    None
                },
                None => None,
            },
            None => None,
        },
        None => None,
    }
}

/// A complete request, canonical or loose.
pub open spec fn sp_prepare_request_any(s: Seq<char>) -> Option<
    crate::dto::PrepareUploadRequestDtoView,
> {
    match sp_prepare_request_full(s) {
        Some(d) => Some(d),
        None => sp_prepare_request_loose(s),
    }
}

/// A complete response, canonical or loose.
pub open spec fn sp_prepare_response_any(s: Seq<char>) -> Option<
    crate::dto::PrepareUploadResponseDtoView,
> {
    match sp_prepare_response_full(s) {
        Some(d) => Some(d),
        None => sp_prepare_response_loose(s),
    }
}

/// A complete token map, canonical or loose.
pub open spec fn sp_token_map_any(s: Seq<char>) -> Option<Seq<(Seq<char>, Seq<char>)>> {
    match sp_token_map_full(s) {
        Some(pairs) => Some(pairs),
        None => match sp_token_map_loose(s) {
            Some((pairs, rest)) => if sp_ws(rest).len() == 0 {
                Some(pairs)
            } else {
                None
            },
            None => None,
        },
    }
}


/// Parses a loose file object at `pos`.
fn px_file_loose(v: &Vec<char>, pos: usize) -> (r: Option<(crate::dto::FileDto, usize)>)
    requires
        pos <= v@.len(),
    ensures
        match r {
            Some(p) => pos <= p.1 <= v@.len() && sp_file_loose(v@.skip(pos as int)) == Some(
                (p.0@, v@.skip(p.1 as int)),
            ),
            None => sp_file_loose(v@.skip(pos as int)) is None,
        },
{
    let (pairs, p1) = match px_scalar_object(v, pos) {
        Some(x) => x,
        None => {
            return None;
        },
    };
    match file_from_pairs(&pairs) {
        Some(d) => Some((d, p1)),
        None => None,
    }
}

/// Parses loose file-map members at `pos`, at most `fuel` of them.
fn px_file_pairs_loose(v: &Vec<char>, pos: usize, fuel: usize) -> (r: Option<
    (Vec<crate::dto::FileDto>, usize),
>)
    requires
        pos <= v@.len(),
    ensures
        match r {
            Some(p) => pos <= p.1 <= v@.len() && sp_file_pairs_loose(
                v@.skip(pos as int),
                fuel as nat,
            ) == Some((p.0.deep_view(), v@.skip(p.1 as int))),
            None => sp_file_pairs_loose(v@.skip(pos as int), fuel as nat) is None,
        },
    decreases fuel,
{
    if fuel == 0 {
        return None;
    }
    let p0 = px_ws(v, pos);
    let (_k, p1) = match px_string(v, p0) {
        Some(x) => x,
        None => {
            return None;
        },
    };
    let p1b = px_ws(v, p1);
    let p2 = match px_lit(v, p1b, ":") {
        Some(p) => p,
        None => {
            return None;
        },
    };
    let (f, p3) = match px_file_loose(v, p2) {
        Some(x) => x,
        None => {
            return None;
        },
    };
    let p3b = px_ws(v, p3);
    let ghost r3b = v@.skip(p3b as int);
    if p3b < v.len() && v[p3b] == ',' {
        proof {
            assert(r3b[0] == v@[p3b as int]);
            assert(r3b.skip(1) =~= v@.skip(p3b + 1));
        }
        match px_file_pairs_loose(v, p3b + 1, fuel - 1) {
            Some((tail, p4)) => {
                let mut out: Vec<crate::dto::FileDto> = Vec::new();
                out.push(f);
                let mut tail = tail;
                let ghost tv = tail.deep_view();
                out.append(&mut tail);
                proof {
                    assert(out.deep_view() =~= seq![out@[0]@] + tv);
                }
                Some((out, p4))
            },
            None => None,
        }
    } else {
        proof {
            if r3b.len() > 0 {
                assert(r3b[0] == v@[p3b as int]);
            }
        }
        let mut out: Vec<crate::dto::FileDto> = Vec::new();
        out.push(f);
        proof {
            assert(out.deep_view() =~= seq![out@[0]@]);
        }
        Some((out, p3b))
    }
}

/// Parses a loose files map at `pos`.
fn px_file_map_loose(v: &Vec<char>, pos: usize) -> (r: Option<(Vec<crate::dto::FileDto>, usize)>)
    requires
        pos <= v@.len(),
    ensures
        match r {
            Some(p) => pos <= p.1 <= v@.len() && sp_file_map_loose(v@.skip(pos as int)) == Some(
                (p.0.deep_view(), v@.skip(p.1 as int)),
            ),
            None => sp_file_map_loose(v@.skip(pos as int)) is None,
        },
{
    let p0 = px_ws(v, pos);
    let p1 = match px_lit(v, p0, "{") {
        Some(p) => p,
        None => {
            return None;
        },
    };
    let p1b = px_ws(v, p1);
    let ghost s1b = v@.skip(p1b as int);
    if p1b < v.len() && v[p1b] == '}' {
        proof {
            assert(s1b[0] == v@[p1b as int]);
            assert(s1b.skip(1) =~= v@.skip(p1b + 1));
        }
        let out: Vec<crate::dto::FileDto> = Vec::new();
        proof {
            assert(out.deep_view() =~= Seq::<crate::dto::FileDtoView>::empty());
        }
        return Some((out, p1b + 1));
    }
    proof {
        if s1b.len() > 0 {
            assert(s1b[0] == v@[p1b as int]);
        }
        assert(s1b.len() == v@.len() - p1b);
    }
    match px_file_pairs_loose(v, p1b, v.len() - p1b) {
        Some((fs, p2)) => {
            let p2b = px_ws(v, p2);
            match px_lit(v, p2b, "}") {
                Some(p3) => Some((fs, p3)),
                None => None,
            }
        },
        None => None,
    }
}

proof fn lemma_token_pairs_prefix_none(pairs: Seq<(Seq<char>, SVal)>, j: int)
    requires
        0 <= j <= pairs.len(),
        token_pairs_of(pairs.take(j)) is None,
    ensures
        token_pairs_of(pairs) is None,
    decreases pairs.len() - j,
{
    if j < pairs.len() {
        assert(pairs.take(j + 1).drop_last() =~= pairs.take(j));
        lemma_token_pairs_prefix_none(pairs, j + 1);
    } else {
        assert(pairs.take(j) =~= pairs);
    }
}

/// Reads scanned members as a token map: every value must be a string.
fn token_pairs_from(pairs: Vec<(String, JsonScalar)>) -> (r: Option<Vec<(String, String)>>)
    ensures
        match r {
            Some(tp) => token_pairs_of(pairs.deep_view()) == Some(tp.deep_view()),
            None => token_pairs_of(pairs.deep_view()) is None,
        },
{
    let ghost pv = pairs.deep_view();
    let mut out: Vec<(String, String)> = Vec::new();
    let mut i: usize = 0;
    while i < pairs.len()
        invariant
            i <= pairs.len(),
            pv == pairs.deep_view(),
            pv.len() == pairs.len(),
            token_pairs_of(pv.take(i as int)) == Some(out.deep_view()),
        decreases pairs.len() - i,
    {
        proof {
            assert(pv.take(i + 1).drop_last() =~= pv.take(i as int));
            assert(pv.take(i + 1).last() == pv[i as int]);
            assert(pv[i as int] == (pairs@[i as int].0@, pairs@[i as int].1@));
        }
        match &pairs[i].1 {
            JsonScalar::Str(t) => {
                let ghost before = out.deep_view();
                out.push((pairs[i].0.clone(), t.clone()));
                proof {
                    assert(out.deep_view() =~= before.push(
                        (out@[out@.len() - 1].0@, out@[out@.len() - 1].1@),
                    ));
                }
            },
            _ => {
                proof {
                    lemma_token_pairs_prefix_none(pv, i + 1);
                }
                return None;
            },
        }
        i += 1;
    }
    proof {
        assert(pv.take(pairs.len() as int) =~= pv);
    }
    Some(out)
}

/// Parses a loose token map at `pos`.
fn px_token_map_loose(v: &Vec<char>, pos: usize) -> (r: Option<(Vec<(String, String)>, usize)>)
    requires
        pos <= v@.len(),
    ensures
        match r {
            Some(p) => pos <= p.1 <= v@.len() && sp_token_map_loose(v@.skip(pos as int)) == Some(
                (p.0.deep_view(), v@.skip(p.1 as int)),
            ),
            None => sp_token_map_loose(v@.skip(pos as int)) is None,
        },
{
    let (pairs, p1) = match px_scalar_object(v, pos) {
        Some(x) => x,
        None => {
            return None;
        },
    };
    match token_pairs_from(pairs) {
        Some(tp) => Some((tp, p1)),
        None => None,
    }
}

} // verus!
