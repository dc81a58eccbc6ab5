//! The envelope's wire form: a record serialized under the stable field
//! names `data`, `message` and `status`, with string payloads escaped as
//! JSON requires. Serializing and deserializing are both defined here and
//! proved to round-trip, so the structural triple — not the text — is the
//! boundary contract.

use vstd::prelude::*;
use crate::envelope::CommandData;
use crate::envelope::opt_view;

verus! {

// ---------------------------------------------------------------------
// Escaping one character, and whole strings.
// ---------------------------------------------------------------------

/// The characters the wire form must escape inside a quoted string: the
/// quote, the backslash and the control range.
pub open spec fn needs_escape(c: char) -> bool {
    c == '"' || c == '\\' || (c as u32) < 0x20
}

/// The hexadecimal digit for a value below sixteen.
pub open spec fn hex_digit(n: int) -> char {
    if n == 0 { '0' }
    else if n == 1 { '1' }
    else if n == 2 { '2' }
    else if n == 3 { '3' }
    else if n == 4 { '4' }
    else if n == 5 { '5' }
    else if n == 6 { '6' }
    else if n == 7 { '7' }
    else if n == 8 { '8' }
    else if n == 9 { '9' }
    else if n == 10 { 'a' }
    else if n == 11 { 'b' }
    else if n == 12 { 'c' }
    else if n == 13 { 'd' }
    else if n == 14 { 'e' }
    else { 'f' }
}

/// The value of a hexadecimal digit, or a negative number for any other
/// character.
pub open spec fn hex_val(c: char) -> int {
    if c == '0' { 0 }
    else if c == '1' { 1 }
    else if c == '2' { 2 }
    else if c == '3' { 3 }
    else if c == '4' { 4 }
    else if c == '5' { 5 }
    else if c == '6' { 6 }
    else if c == '7' { 7 }
    else if c == '8' { 8 }
    else if c == '9' { 9 }
    else if c == 'a' || c == 'A' { 10 }
    else if c == 'b' || c == 'B' { 11 }
    else if c == 'c' || c == 'C' { 12 }
    else if c == 'd' || c == 'D' { 13 }
    else if c == 'e' || c == 'E' { 14 }
    else if c == 'f' || c == 'F' { 15 }
    else { -1 }
}

/// The code points a four-digit escape may carry: exactly those of the
/// characters the encoder escapes.
pub open spec fn escape_code_ok(n: int) -> bool {
    0 <= n < 0x20 || n == 0x22 || n == 0x5c
}

/// The character with code `n`.
pub open spec fn code_char(n: int) -> char {
    (n as u32) as char
}

/// The escaped wire form of one character: a six-character `\u00XX`
/// sequence where escaping is needed, the character itself elsewhere.
pub open spec fn esc_char(c: char) -> Seq<char> {
    if needs_escape(c) {
        seq!['\\', 'u', '0', '0', hex_digit((c as u32) as int / 16), hex_digit(
            (c as u32) as int % 16,
        )]
    } else {
        seq![c]
    }
}

/// The escaped wire form of a whole string.
pub open spec fn esc(s: Seq<char>) -> Seq<char>
    decreases s.len(),
{
    if s.len() == 0 {
        Seq::empty()
    } else {
        esc_char(s[0]) + esc(s.skip(1))
    }
}

// ---------------------------------------------------------------------
// Scanning a quoted string back out of the wire form.
// ---------------------------------------------------------------------

/// The code carried by the four hexadecimal digits of an escape sequence
/// standing at the front of `s` (positions two to five).
pub open spec fn hex4(s: Seq<char>) -> int {
    ((hex_val(s[2]) * 16 + hex_val(s[3])) * 16 + hex_val(s[4])) * 16 + hex_val(s[5])
}

/// Scans the body of a quoted string up to its closing quote, decoding
/// escapes onto the accumulator; yields the decoded text and what follows
/// the quote. Fails on malformed escapes, on raw control characters and on
/// a missing quote.
pub open spec fn scan_quoted(s: Seq<char>, acc: Seq<char>) -> Option<(Seq<char>, Seq<char>)>
    decreases s.len(),
{
    if s.len() == 0 {
        None
    } else if s[0] == '"' {
        Some((acc, s.skip(1)))
    } else if s[0] == '\\' {
        if s.len() >= 6 && s[1] == 'u' && hex_val(s[2]) >= 0 && hex_val(s[3]) >= 0 && hex_val(
            s[4],
        ) >= 0 && hex_val(s[5]) >= 0 && escape_code_ok(hex4(s)) {
            scan_quoted(s.skip(6), acc.push(code_char(hex4(s))))
        } else {
            None
        }
    } else if needs_escape(s[0]) {
        None
    } else {
        scan_quoted(s.skip(1), acc.push(s[0]))
    }
}

// ---------------------------------------------------------------------
// The wire form of a whole envelope.
// ---------------------------------------------------------------------

/// The wire form of an envelope: `data` first, an explicit `null` when the
/// payload is absent, then `message` and `status`, under those names.
pub open spec fn encode_spec(data: Option<Seq<char>>, message: Seq<char>, status: bool) -> Seq<
    char,
> {
    "{\"data\":"@ + (match data {
        Some(d) => "\""@ + esc(d) + "\""@,
        None => "null"@,
    }) + ",\"message\":\""@ + esc(message) + "\",\"status\":"@ + (if status {
        "true"@
    } else {
        "false"@
    }) + "}"@
}

/// Whether `p` is a prefix of `s`.
pub open spec fn begins(s: Seq<char>, p: Seq<char>) -> bool {
    p.len() <= s.len() && s.take(p.len() as int) == p
}

/// Reads the wire form back into its triple. Accepts exactly the texts the
/// encoder can produce, up to the case of hexadecimal digits in escapes.
pub open spec fn decode_spec(s: Seq<char>) -> Option<(Option<Seq<char>>, Seq<char>, bool)> {
    if !begins(s, "{\"data\":"@) {
        None
    } else {
        let s1 = s.skip("{\"data\":"@.len() as int);
        let data_part: Option<(Option<Seq<char>>, Seq<char>)> = if begins(s1, "null"@) {
            Some((None, s1.skip(4)))
        } else if s1.len() > 0 && s1[0] == '"' {
            match scan_quoted(s1.skip(1), Seq::empty()) {
                Some((d, r)) => Some((Some(d), r)),
                None => None,
            }
        } else {
            None
        };
        match data_part {
            None => None,
            Some((data, s2)) => {
                if !begins(s2, ",\"message\":\""@) {
                    None
                } else {
                    match scan_quoted(s2.skip(",\"message\":\""@.len() as int), Seq::empty()) {
                        None => None,
                        Some((m, s3)) => {
                            if s3 == ",\"status\":true}"@ {
                                Some((data, m, true))
                            } else if s3 == ",\"status\":false}"@ {
                                Some((data, m, false))
                            } else {
                                None
                            }
                        },
                    }
                }
            },
        }
    }
}

// ---------------------------------------------------------------------
// The round trip.
// ---------------------------------------------------------------------

/// A concatenation begins with its left part, and skipping that part
/// leaves its right part.
proof fn lemma_split(a: Seq<char>, b: Seq<char>)
    ensures
        begins(a + b, a),
        (a + b).skip(a.len() as int) == b,
{
    assert((a + b).take(a.len() as int) =~= a);
    assert((a + b).skip(a.len() as int) =~= b);
}

/// The two hexadecimal digit tables invert each other.
proof fn lemma_hex_digit_val(d: int)
    requires
        0 <= d < 16,
    ensures
        hex_val(hex_digit(d)) == d,
{
}

/// Scanning the escaped form of `m`, a closing quote and a remainder
/// decodes `m` onto the accumulator and leaves the remainder.
proof fn lemma_scan_esc(m: Seq<char>, acc: Seq<char>, rest: Seq<char>)
    ensures
        scan_quoted(esc(m) + seq!['"'] + rest, acc) == Some((acc + m, rest)),
    decreases m.len(),
{
    if m.len() == 0 {
        assert(esc(m) + seq!['"'] + rest =~= seq!['"'] + rest);
        assert((seq!['"'] + rest)[0] == '"');
        assert((seq!['"'] + rest).skip(1) =~= rest);
        assert(acc + m =~= acc);
    } else {
        let c = m[0];
        let s = esc(m) + seq!['"'] + rest;
        let s_next = esc(m.skip(1)) + seq!['"'] + rest;
        assert(esc(m) == esc_char(c) + esc(m.skip(1)));
        if needs_escape(c) {
            let n = (c as u32) as int;
            assert(n == 0x22 || n == 0x5c || 0 <= n < 0x20);
            assert(s.len() >= 6);
            assert(s[0] == '\\');
            assert(s[1] == 'u');
            assert(s[2] == '0');
            assert(s[3] == '0');
            assert(s[4] == hex_digit(n / 16));
            assert(s[5] == hex_digit(n % 16));
            lemma_hex_digit_val(n / 16);
            lemma_hex_digit_val(n % 16);
            assert(hex4(s) == n) by {
                assert(hex_val(s[2]) == 0);
                assert(hex_val(s[3]) == 0);
                assert(hex_val(s[4]) == n / 16);
                assert(hex_val(s[5]) == n % 16);
                assert((n / 16) * 16 + n % 16 == n) by (nonlinear_arith);
            }
            assert(escape_code_ok(n));
            assert(code_char(n) == c) by {
                vstd::utf8::char_u32_cast(c, c as u32);
            }
            assert(s.skip(6) =~= s_next);
            lemma_scan_esc(m.skip(1), acc.push(c), rest);
            assert(acc.push(c) + m.skip(1) =~= acc + m);
        } else {
            assert(s[0] == c);
            assert(s.skip(1) =~= s_next);
            lemma_scan_esc(m.skip(1), acc.push(c), rest);
            assert(acc.push(c) + m.skip(1) =~= acc + m);
        }
    }
}

/// After the data field, decoding continues with the message and the flag:
/// scanning `tail_m` yields the message and the status suffix, and the
/// status suffix picks out the flag.
#[verifier::rlimit(60)]
proof fn lemma_decode_tail(message: Seq<char>, status: bool)
    ensures
        ({
            let rest3 = if status { ",\"status\":true}"@ } else { ",\"status\":false}"@ };
            let tail_m = esc(message) + seq!['"'] + rest3;
            let s2 = ",\"message\":\""@ + tail_m;
            &&& begins(s2, ",\"message\":\""@)
            &&& s2.skip(",\"message\":\""@.len() as int) == tail_m
            &&& scan_quoted(tail_m, Seq::empty()) == Some((message, rest3))
            &&& (status ==> rest3 == ",\"status\":true}"@)
            &&& (!status ==> rest3 != ",\"status\":true}"@ && rest3 == ",\"status\":false}"@)
        }),
{
    reveal_strlit(",\"message\":\"");
    reveal_strlit(",\"status\":true}");
    reveal_strlit(",\"status\":false}");
    let rest3 = if status { ",\"status\":true}"@ } else { ",\"status\":false}"@ };
    let tail_m = esc(message) + seq!['"'] + rest3;
    let p2 = ",\"message\":\""@;
    lemma_split(p2, tail_m);
    lemma_scan_esc(message, Seq::empty(), rest3);
    assert(Seq::<char>::empty() + message =~= message);
    if !status {
        assert(rest3 != ",\"status\":true}"@) by {
            assert(rest3.len() == 16);
            assert(",\"status\":true}"@.len() == 15);
        }
    }
}

/// Law: the wire form round-trips. Reading back the encoding of any
/// triple — payload absent or present — yields that triple.
#[verifier::rlimit(100)]
pub proof fn lemma_wire_round_trip(data: Option<Seq<char>>, message: Seq<char>, status: bool)
    ensures
        decode_spec(encode_spec(data, message, status)) == Some((data, message, status)),
{
    reveal_strlit("{\"data\":");
    reveal_strlit("null");
    reveal_strlit("\"");
    reveal_strlit(",\"message\":\"");
    reveal_strlit("\",\"status\":");
    reveal_strlit("true");
    reveal_strlit("false");
    reveal_strlit("}");
    reveal_strlit(",\"status\":true}");
    reveal_strlit(",\"status\":false}");
    let e = encode_spec(data, message, status);
    let p1 = "{\"data\":"@;
    let p2 = ",\"message\":\""@;
    let rest3 = if status { ",\"status\":true}"@ } else { ",\"status\":false}"@ };
    let tail_m = esc(message) + seq!['"'] + rest3;
    lemma_decode_tail(message, status);
    match data {
        None => {
            let tail1 = "null"@ + (p2 + tail_m);
            assert(e =~= p1 + tail1);
            lemma_split(p1, tail1);
            let s1 = (p1 + tail1).skip(p1.len() as int);
            assert(s1 == tail1);
            assert(begins(s1, "null"@)) by {
                lemma_split("null"@, p2 + tail_m);
            }
            assert(s1.skip(4) == p2 + tail_m) by {
                lemma_split("null"@, p2 + tail_m);
            }
        },
        Some(d) => {
            let tail_d = esc(d) + seq!['"'] + (p2 + tail_m);
            let tail1 = seq!['"'] + tail_d;
            assert(e =~= p1 + tail1);
            lemma_split(p1, tail1);
            let s1 = (p1 + tail1).skip(p1.len() as int);
            assert(s1 == tail1);
            assert(!begins(s1, "null"@)) by {
                assert(s1[0] == '"');
                assert("null"@[0] == 'n');
            }
            assert(s1.len() > 0 && s1[0] == '"');
            assert(s1.skip(1) =~= tail_d);
            lemma_scan_esc(d, Seq::empty(), p2 + tail_m);
            assert(Seq::<char>::empty() + d =~= d);
        },
    }
}

/// Law: an envelope without a payload still carries the `data` field on
/// the wire, as an explicit `null`, on success and on failure alike.
pub proof fn lemma_absent_data_carried_as_null(message: Seq<char>, status: bool)
    ensures
        begins(encode_spec(None, message, status), "{\"data\":null"@),
{
    reveal_strlit("{\"data\":");
    reveal_strlit("null");
    reveal_strlit("{\"data\":null");
    let e = encode_spec(None, message, status);
    assert(e.take(12) =~= "{\"data\":null"@);
}

// ---------------------------------------------------------------------
// Executable serializing.
// ---------------------------------------------------------------------

/// Relies on `String::push` of std: appends the given character to the end
/// of this string.
pub assume_specification[ String::push ](s: &mut String, c: char)
    ensures
        final(s)@ == old(s)@.push(c),
;

/// Relies on `char::from_u32` of std: yields the character with the given
/// code for every Unicode scalar value, and nothing for any other number.
pub assume_specification[ char::from_u32 ](n: u32) -> (r: Option<char>)
    ensures
        (r matches Some(c) ==> c as u32 == n),
        (n < 0xD800 || (0xE000 <= n && n <= 0x10FFFF)) ==> r is Some,
;

/// The digit table, executable.
fn hex_digit_exec(n: u8) -> (c: char)
    requires
        n < 16,
    ensures
        c == hex_digit(n as int),
{
    if n == 0 { '0' }
    else if n == 1 { '1' }
    else if n == 2 { '2' }
    else if n == 3 { '3' }
    else if n == 4 { '4' }
    else if n == 5 { '5' }
    else if n == 6 { '6' }
    else if n == 7 { '7' }
    else if n == 8 { '8' }
    else if n == 9 { '9' }
    else if n == 10 { 'a' }
    else if n == 11 { 'b' }
    else if n == 12 { 'c' }
    else if n == 13 { 'd' }
    else if n == 14 { 'e' }
    else { 'f' }
}

/// The digit value table, executable.
fn hex_val_exec(c: char) -> (r: Option<u8>)
    ensures
        (r matches Some(v) ==> hex_val(c) == v as int && v < 16),
        r is None ==> hex_val(c) < 0,
{
    match c {
        '0' => Some(0),
        '1' => Some(1),
        '2' => Some(2),
        '3' => Some(3),
        '4' => Some(4),
        '5' => Some(5),
        '6' => Some(6),
        '7' => Some(7),
        '8' => Some(8),
        '9' => Some(9),
        'a' => Some(10),
        'b' => Some(11),
        'c' => Some(12),
        'd' => Some(13),
        'e' => Some(14),
        'f' => Some(15),
        'A' => Some(10),
        'B' => Some(11),
        'C' => Some(12),
        'D' => Some(13),
        'E' => Some(14),
        'F' => Some(15),
        _ => None,
    }
}

/// Escaping a string one character at a time, from the right.
proof fn lemma_esc_push(s: Seq<char>, c: char)
    ensures
        esc(s.push(c)) == esc(s) + esc_char(c),
    decreases s.len(),
{
    if s.len() == 0 {
        assert(s.push(c) =~= seq![c]);
        assert(seq![c].skip(1) =~= Seq::<char>::empty());
        assert(esc(s) + esc_char(c) =~= esc_char(c));
        assert(esc_char(c) + esc(seq![c].skip(1)) =~= esc_char(c));
    } else {
        assert(s.push(c)[0] == s[0]);
        assert(s.push(c).skip(1) =~= s.skip(1).push(c));
        lemma_esc_push(s.skip(1), c);
        assert(esc_char(s[0]) + (esc(s.skip(1)) + esc_char(c)) =~= (esc_char(s[0]) + esc(
            s.skip(1),
        )) + esc_char(c));
    }
}

/// Appends the escaped wire form of `s` to `out`.
fn append_escaped(out: &mut String, s: &str)
    ensures
        final(out)@ == old(out)@ + esc(s@),
{
    let sl = s.unicode_len();
    let mut j: usize = 0;
    while j < sl
        invariant
            j <= sl,
            sl == s@.len(),
            out@ == old(out)@ + esc(s@.take(j as int)),
        decreases sl - j,
    {
        let ghost pre = out@;
        let c = s.get_char(j);
        let code = c as u32;
        if c == '"' || c == '\\' || code < 0x20 {
            out.push('\\');
            out.push('u');
            out.push('0');
            out.push('0');
            out.push(hex_digit_exec((code / 16) as u8));
            out.push(hex_digit_exec((code % 16) as u8));
            proof {
                assert(needs_escape(c));
                assert(code / 16 == (c as u32) as int / 16);
                assert(code % 16 == (c as u32) as int % 16);
                assert(out@ =~= pre + esc_char(c));
            }
        } else {
            out.push(c);
            proof {
                assert(!needs_escape(c));
                assert(out@ =~= pre + esc_char(c));
            }
        }
        proof {
            lemma_esc_push(s@.take(j as int), c);
            assert(s@.take(j as int + 1) =~= s@.take(j as int).push(c));
            assert(out@ =~= old(out)@ + esc(s@.take(j as int + 1)));
        }
        j = j + 1;
    }
    proof {
        assert(s@.take(sl as int) =~= s@);
    }
}

/// Serializes an envelope carrying an optional string payload to its wire
/// form.
pub fn to_json(env: &CommandData<String>) -> (r: String)
    ensures
        r@ == encode_spec(opt_view(env.data), env.message@, env.status),
{
    let mut out = String::from_str("{\"data\":");
    match &env.data {
        Some(d) => {
            out.append("\"");
            append_escaped(&mut out, d.as_str());
            out.append("\"");
        },
        None => {
            out.append("null");
        },
    }
    out.append(",\"message\":\"");
    append_escaped(&mut out, env.message.as_str());
    out.append("\",\"status\":");
    if env.status {
        out.append("true");
    } else {
        out.append("false");
    }
    out.append("}");
    proof {
        assert(out@ =~= encode_spec(opt_view(env.data), env.message@, env.status));
    }
    out
}

// ---------------------------------------------------------------------
// Executable deserializing.
// ---------------------------------------------------------------------

/// Whether the text of `s` beginning at `i` starts with `p`.
fn begins_at(s: &str, i: usize, p: &str) -> (r: bool)
    requires
        i <= s@.len(),
    ensures
        r == begins(s@.skip(i as int), p@),
{
    let sl = s.unicode_len();
    let pl = p.unicode_len();
    if pl > sl - i {
        return false;
    }
    let mut j: usize = 0;
    while j < pl
        invariant
            j <= pl,
            i + pl <= sl,
            sl == s@.len(),
            pl == p@.len(),
            forall|k: int| 0 <= k < j ==> s@[i + k] == p@[k],
        decreases pl - j,
    {
        if s.get_char(i + j) != p.get_char(j) {
            proof {
                let sk = s@.skip(i as int);
                if begins(sk, p@) {
                    assert(sk.take(p@.len() as int)[j as int] == p@[j as int]);
                    assert(sk[j as int] == s@[i + j]);
                }
            }
            return false;
        }
        j = j + 1;
    }
    proof {
        assert(s@.skip(i as int).take(p@.len() as int) =~= p@);
    }
    true
}

/// Scans a quoted string body in `s` from `start`, decoding escapes, up to
/// the closing quote; yields the decoded text and the position after the
/// quote.
fn scan_exec(s: &str, start: usize) -> (r: Option<(String, usize)>)
    requires
        start <= s@.len(),
    ensures
        (r matches Some(p) ==> start <= p.1 <= s@.len() && scan_quoted(
            s@.skip(start as int),
            Seq::empty(),
        ) == Some((p.0@, s@.skip(p.1 as int)))),
        r is None ==> scan_quoted(s@.skip(start as int), Seq::empty()) is None,
{
    let sl = s.unicode_len();
    let mut acc = String::new();
    let mut i: usize = start;
    loop
        invariant
            start <= i <= sl,
            sl == s@.len(),
            scan_quoted(s@.skip(start as int), Seq::<char>::empty()) == scan_quoted(
                s@.skip(i as int),
                acc@,
            ),
        decreases sl - i,
    {
        if i == sl {
            return None;
        }
        let c = s.get_char(i);
        proof {
            assert(s@.skip(i as int)[0] == c);
        }
        if c == '"' {
            proof {
                assert(s@.skip(i as int).skip(1) =~= s@.skip(i as int + 1));
            }
            return Some((acc, i + 1));
        }
        if c == '\\' {
            if sl - i < 6 {
                return None;
            }
            proof {
                assert(s@.skip(i as int)[1] == s@[i + 1]);
                assert(s@.skip(i as int)[2] == s@[i + 2]);
                assert(s@.skip(i as int)[3] == s@[i + 3]);
                assert(s@.skip(i as int)[4] == s@[i + 4]);
                assert(s@.skip(i as int)[5] == s@[i + 5]);
            }
            if s.get_char(i + 1) != 'u' {
                return None;
            }
            let h2 = hex_val_exec(s.get_char(i + 2));
            let h3 = hex_val_exec(s.get_char(i + 3));
            let h4 = hex_val_exec(s.get_char(i + 4));
            let h5 = hex_val_exec(s.get_char(i + 5));
            match (h2, h3, h4, h5) {
                (Some(v2), Some(v3), Some(v4), Some(v5)) => {
                    let n: u32 = ((v2 as u32 * 16 + v3 as u32) * 16 + v4 as u32) * 16 + v5 as u32;
                    proof {
                        assert(n as int == hex4(s@.skip(i as int)));
                    }
                    if !(n < 0x20 || n == 0x22 || n == 0x5c) {
                        return None;
                    }
                    let c2 = match char::from_u32(n) {
                        Some(x) => x,
                        None => unreached(),
                    };
                    proof {
                        vstd::utf8::char_u32_cast(c2, n);
                        assert(code_char(n as int) == c2);
                        assert(s@.skip(i as int).skip(6) =~= s@.skip(i as int + 6));
                    }
                    acc.push(c2);
                    i = i + 6;
                },
                _ => {
                    return None;
                },
            }
        } else if (c as u32) < 0x20 {
            return None;
        } else {
            proof {
                assert(!needs_escape(c));
                assert(s@.skip(i as int).skip(1) =~= s@.skip(i as int + 1));
            }
            acc.push(c);
            i = i + 1;
        }
    }
}

/// Reads an envelope back from its wire form. Yields the triple exactly
/// when the text is one the serializer can produce, and nothing on any
/// other text.
pub fn from_json(s: &str) -> (r: Option<CommandData<String>>)
    ensures
        (r matches Some(env) ==> decode_spec(s@) == Some(
            (opt_view(env.data), env.message@, env.status),
        )),
        r is None ==> decode_spec(s@) is None,
{
    proof {
        assert(s@.skip(0) =~= s@);
    }
    if !begins_at(s, 0, "{\"data\":") {
        return None;
    }
    let sl = s.unicode_len();
    let p1l = "{\"data\":".unicode_len();
    let data: Option<String>;
    let i2: usize;
    if begins_at(s, p1l, "null") {
        proof {
            reveal_strlit("null");
            assert(s@.skip(p1l as int).skip(4) =~= s@.skip(p1l as int + 4));
        }
        data = None;
        i2 = p1l + 4;
    } else if p1l < sl && s.get_char(p1l) == '"' {
        proof {
            assert(s@.skip(p1l as int)[0] == s@[p1l as int]);
            assert(s@.skip(p1l as int).skip(1) =~= s@.skip(p1l as int + 1));
        }
        match scan_exec(s, p1l + 1) {
            Some(p) => {
                data = Some(p.0);
                i2 = p.1;
            },
            None => {
                return None;
            },
        }
    } else {
        proof {
            assert(s@.skip(p1l as int).len() == 0 || s@.skip(p1l as int)[0] != '"');
        }
        return None;
    }
    if !begins_at(s, i2, ",\"message\":\"") {
        return None;
    }
    let p2l = ",\"message\":\"".unicode_len();
    proof {
        assert(s@.skip(i2 as int).skip(p2l as int) =~= s@.skip(i2 as int + p2l as int));
    }
    match scan_exec(s, i2 + p2l) {
        None => None,
        Some(p) => {
            let message = p.0;
            let i4 = p.1;
            proof {
                let lit_t = ",\"status\":true}"@;
                let lit_f = ",\"status\":false}"@;
                assert(lit_t.take(lit_t.len() as int) =~= lit_t);
                assert(lit_f.take(lit_f.len() as int) =~= lit_f);
            }
            let status: bool;
            if begins_at(s, i4, ",\"status\":true}") && sl - i4 == ",\"status\":true}".unicode_len() {
                proof {
                    assert(s@.skip(i4 as int) =~= ",\"status\":true}"@);
                }
                status = true;
            } else if begins_at(s, i4, ",\"status\":false}") && sl - i4
                == ",\"status\":false}".unicode_len() {
                proof {
                    assert(s@.skip(i4 as int) =~= ",\"status\":false}"@);
                }
                status = false;
            } else {
                return None;
            }
            Some(CommandData { data, message, status })
        },
    }
}

} // verus!
