//! The interchange payload: a flat record with the keys `id`, `timestamp`,
//! `location` and `temperature`, encoded as one JSON object, and the decoder
//! that reads such a payload back.

use vstd::prelude::*;

use crate::sensor::{TEMP_MAX_CENTI, TEMP_MIN_CENTI};
use crate::text::{append_escaped, escape_text, lemma_scan_escaped, scan_string, scan_string_at};
use crate::trusted::push_char;

verus! {

/// The mathematical content of one decoded payload: the four fields as the
/// payload carries them, the timestamp still as its rendered text.
pub struct JsonRecord {
    pub id: Seq<char>,
    pub timestamp: Seq<char>,
    pub location: Seq<char>,
    pub temperature: u32,
}

/// One decoded payload.
pub struct DecodedReading {
    /// Correlation key, as transmitted.
    pub id: String,
    /// The instant's RFC 3339 text, as transmitted.
    pub timestamp: String,
    /// Sensor label.
    pub location: String,
    /// Temperature in hundredths of a degree Celsius.
    pub temperature: u32,
}

impl View for DecodedReading {
    type V = JsonRecord;

    open spec fn view(&self) -> JsonRecord {
        JsonRecord {
            id: self.id@,
            timestamp: self.timestamp@,
            location: self.location@,
            temperature: self.temperature,
        }
    }
}

/// Character for one decimal digit value.
pub open spec fn digit_char(d: int) -> char {
    if d == 0 {
        '0'
    } else if d == 1 {
        '1'
    } else if d == 2 {
        '2'
    } else if d == 3 {
        '3'
    } else if d == 4 {
        '4'
    } else if d == 5 {
        '5'
    } else if d == 6 {
        '6'
    } else if d == 7 {
        '7'
    } else if d == 8 {
        '8'
    } else if d == 9 {
        '9'
    } else {
        '?'
    }
}

/// Whether a character is a decimal digit.
pub open spec fn is_digit(c: char) -> bool {
    c == '0' || c == '1' || c == '2' || c == '3' || c == '4' || c == '5' || c == '6' || c == '7'
        || c == '8' || c == '9'
}

/// The value of a decimal digit character.
pub open spec fn digit_val(c: char) -> int {
    if c == '0' {
        0
    } else if c == '1' {
        1
    } else if c == '2' {
        2
    } else if c == '3' {
        3
    } else if c == '4' {
        4
    } else if c == '5' {
        5
    } else if c == '6' {
        6
    } else if c == '7' {
        7
    } else if c == '8' {
        8
    } else if c == '9' {
        9
    } else {
        0
    }
}

/// The opening of the payload, up to and including the quote that opens the
/// identifier's value.
pub open spec fn lit_id() -> Seq<char> {
    "{\"id\":\""@
}

/// From the comma after the identifier up to and including the quote that
/// opens the timestamp's value.
pub open spec fn lit_timestamp() -> Seq<char> {
    ",\"timestamp\":\""@
}

/// From the comma after the timestamp up to and including the quote that
/// opens the location's value.
pub open spec fn lit_location() -> Seq<char> {
    ",\"location\":\""@
}

/// From the comma after the location up to and including the colon before
/// the temperature's value.
pub open spec fn lit_temperature() -> Seq<char> {
    ",\"temperature\":"@
}

/// The decimal text of a temperature held in hundredths of a degree: the
/// whole degrees, a point, and the fraction with no trailing zero digit but
/// at least one digit.
pub open spec fn temp_text(t: u32) -> Seq<char> {
    let w = t as int / 100;
    let f = t as int % 100;
    let ip = seq![digit_char(w / 10), digit_char(w % 10), '.'];
    if f % 10 == 0 {
        ip + seq![digit_char(f / 10)]
    } else {
        ip + seq![digit_char(f / 10), digit_char(f % 10)]
    }
}

/// The payload text for the four fields of a reading, `temp` in hundredths
/// of a degree. The timestamp is passed as its rendered text.
pub open spec fn json_of(id: Seq<char>, ts: Seq<char>, loc: Seq<char>, temp: u32) -> Seq<char> {
    lit_id() + escape_text(id) + seq!['"'] + lit_timestamp() + escape_text(ts) + seq!['"']
        + lit_location() + escape_text(loc) + seq!['"'] + lit_temperature() + temp_text(temp)
        + seq!['}']
}

/// Whether `lit` stands in `s` at position `i`.
pub open spec fn match_at(s: Seq<char>, i: int, lit: Seq<char>) -> bool {
    0 <= i && i + lit.len() <= s.len() && s.subrange(i, i + lit.len() as int) == lit
}

/// Reads a temperature value at `i`: two digits of whole degrees, a point,
/// and one or two digits of fraction, as `temp_text` writes it. Yields the
/// value in hundredths of a degree and the position after the last digit.
pub open spec fn parse_temp_at(s: Seq<char>, i: int) -> Option<(u32, int)> {
    if 0 <= i && i + 4 <= s.len() && is_digit(s[i]) && is_digit(s[i + 1]) && s[i + 2] == '.'
        && is_digit(s[i + 3]) {
        let w = digit_val(s[i]) * 10 + digit_val(s[i + 1]);
        if i + 5 <= s.len() && is_digit(s[i + 4]) {
            Some(((w * 100 + digit_val(s[i + 3]) * 10 + digit_val(s[i + 4])) as u32, i + 5))
        } else {
            Some(((w * 100 + digit_val(s[i + 3]) * 10) as u32, i + 4))
        }
    } else {
        None
    }
}

/// Reads a whole payload: the four parts in their fixed order between the
/// braces, nothing after the closing brace.
pub open spec fn parse_reading_text(s: Seq<char>) -> Option<JsonRecord> {
    if match_at(s, 0, lit_id()) {
        match scan_string_at(s, lit_id().len() as int) {
            Some((id, i2)) => if match_at(s, i2, lit_timestamp()) {
                match scan_string_at(s, i2 + lit_timestamp().len()) {
                    Some((ts, i3)) => if match_at(s, i3, lit_location()) {
                        match scan_string_at(s, i3 + lit_location().len()) {
                            Some((loc, i4)) => if match_at(s, i4, lit_temperature()) {
                                match parse_temp_at(s, i4 + lit_temperature().len()) {
                                    Some((t, i5)) => if i5 + 1 == s.len() && s[i5] == '}' {
                                        Some(
                                            JsonRecord {
                                                id,
                                                timestamp: ts,
                                                location: loc,
                                                temperature: t,
                                            },
                                        )
                                    } else {
                                        None
                                    },
                                    None => None,
                                }
                            } else {
                                None
                            },
                            None => None,
                        }
                    } else {
                        None
                    },
                    None => None,
                }
            } else {
                None
            },
            None => None,
        }
    } else {
        None
    }
}

/// The character for a digit value.
fn digit_char_of(d: u32) -> (c: char)
    requires
        d < 10,
    ensures
        c == digit_char(d as int),
{
    if d == 0 {
        '0'
    } else if d == 1 {
        '1'
    } else if d == 2 {
        '2'
    } else if d == 3 {
        '3'
    } else if d == 4 {
        '4'
    } else if d == 5 {
        '5'
    } else if d == 6 {
        '6'
    } else if d == 7 {
        '7'
    } else if d == 8 {
        '8'
    } else {
        '9'
    }
}

/// The value of a digit character, or nothing if it is no digit.
fn digit_value(c: char) -> (r: Option<u32>)
    ensures
        match r {
            Some(v) => is_digit(c) && v == digit_val(c) && v < 10,
            None => !is_digit(c),
        },
{
    if c == '0' {
        Some(0)
    } else if c == '1' {
        Some(1)
    } else if c == '2' {
        Some(2)
    } else if c == '3' {
        Some(3)
    } else if c == '4' {
        Some(4)
    } else if c == '5' {
        Some(5)
    } else if c == '6' {
        Some(6)
    } else if c == '7' {
        Some(7)
    } else if c == '8' {
        Some(8)
    } else if c == '9' {
        Some(9)
    } else {
        None
    }
}

/// Appends the decimal text of a temperature.
fn append_temp(out: &mut String, t: u32)
    requires
        TEMP_MIN_CENTI <= t <= TEMP_MAX_CENTI,
    ensures
        final(out)@ == old(out)@ + temp_text(t),
{
    let whole = t / 100;
    let frac = t % 100;
    push_char(out, digit_char_of(whole / 10));
    push_char(out, digit_char_of(whole % 10));
    push_char(out, '.');
    if frac % 10 == 0 {
        push_char(out, digit_char_of(frac / 10));
    } else {
        push_char(out, digit_char_of(frac / 10));
        push_char(out, digit_char_of(frac % 10));
    }
    assert(out@ =~= old(out)@ + temp_text(t));
}

/// Encodes the four fields of a reading as the payload text. The timestamp
/// is taken already rendered; the temperature is in hundredths of a degree.
pub fn encode_reading(id: &str, timestamp: &str, location: &str, temperature: u32) -> (out:
    String)
    requires
        TEMP_MIN_CENTI <= temperature <= TEMP_MAX_CENTI,
    ensures
        out@ == json_of(id@, timestamp@, location@, temperature),
{
    let mut out = String::new();
    out.append("{\"id\":\"");
    append_escaped(&mut out, id);
    out.append("\"");
    out.append(",\"timestamp\":\"");
    append_escaped(&mut out, timestamp);
    out.append("\"");
    out.append(",\"location\":\"");
    append_escaped(&mut out, location);
    out.append("\"");
    out.append(",\"temperature\":");
    append_temp(&mut out, temperature);
    out.append("}");
    proof {
        reveal_strlit("\"");
        reveal_strlit("}");
        assert("\""@ =~= seq!['"']);
        assert("}"@ =~= seq!['}']);
        assert(out@ =~= json_of(id@, timestamp@, location@, temperature));
    }
    out
}

/// Whether `lit` stands in `s` at position `i`; decides `match_at`.
fn expect_lit(s: &str, i: usize, lit: &str) -> (r: bool)
    ensures
        r == match_at(s@, i as int, lit@),
{
    let slen = s.unicode_len();
    let llen = lit.unicode_len();
    if i > slen || slen - i < llen {
        return false;
    }
    for k in 0..llen
        invariant
            slen == s@.len(),
            llen == lit@.len(),
            i + llen <= slen,
            forall|m: int| 0 <= m < k ==> s@[i + m] == lit@[m],
    {
        if s.get_char(i + k) != lit.get_char(k) {
            proof {
                assert(s@.subrange(i as int, i as int + llen as int)[k as int] == s@[i + k]);
            }
            return false;
        }
    }
    proof {
        assert(s@.subrange(i as int, i as int + llen as int) =~= lit@);
    }
    true
}

/// Reads a temperature value at `i`; decides exactly as `parse_temp_at`.
fn parse_temp(s: &str, i: usize) -> (r: Option<(u32, usize)>)
    ensures
        match r {
            Some((t, j)) => parse_temp_at(s@, i as int) == Some((t, j as int)) && i < j <= s@.len(),
            None => parse_temp_at(s@, i as int) is None,
        },
{
    let len = s.unicode_len();
    if i > len || len - i < 4 {
        return None;
    }
    let d0 = match digit_value(s.get_char(i)) {
        Some(v) => v,
        None => {
            return None;
        },
    };
    let d1 = match digit_value(s.get_char(i + 1)) {
        Some(v) => v,
        None => {
            return None;
        },
    };
    if s.get_char(i + 2) != '.' {
        return None;
    }
    let d3 = match digit_value(s.get_char(i + 3)) {
        Some(v) => v,
        None => {
            return None;
        },
    };
    let w = d0 * 10 + d1;
    if i + 4 < len {
        match digit_value(s.get_char(i + 4)) {
            Some(d4) => {
                return Some((w * 100 + d3 * 10 + d4, i + 5));
            },
            None => {
                return Some((w * 100 + d3 * 10, i + 4));
            },
        }
    }
    Some((w * 100 + d3 * 10, i + 4))
}

/// Decodes a payload; decides exactly as `parse_reading_text`.
pub fn parse_reading(s: &str) -> (r: Option<DecodedReading>)
    ensures
        match r {
            Some(d) => parse_reading_text(s@) == Some(d@),
            None => parse_reading_text(s@) is None,
        },
{
    let len = s.unicode_len();
    let l1 = "{\"id\":\"";
    if !expect_lit(s, 0, l1) {
        return None;
    }
    let p1 = l1.unicode_len();
    let (id, i2) = match scan_string(s, p1) {
        Some(x) => x,
        None => {
            return None;
        },
    };
    let l2 = ",\"timestamp\":\"";
    if !expect_lit(s, i2, l2) {
        return None;
    }
    let p2 = i2 + l2.unicode_len();
    let (ts, i3) = match scan_string(s, p2) {
        Some(x) => x,
        None => {
            return None;
        },
    };
    let l3 = ",\"location\":\"";
    if !expect_lit(s, i3, l3) {
        return None;
    }
    let p3 = i3 + l3.unicode_len();
    let (loc, i4) = match scan_string(s, p3) {
        Some(x) => x,
        None => {
            return None;
        },
    };
    let l4 = ",\"temperature\":";
    if !expect_lit(s, i4, l4) {
        return None;
    }
    let p4 = i4 + l4.unicode_len();
    let (t, i5) = match parse_temp(s, p4) {
        Some(x) => x,
        None => {
            return None;
        },
    };
    if i5 < len && i5 + 1 == len && s.get_char(i5) == '}' {
        return Some(DecodedReading { id, timestamp: ts, location: loc, temperature: t });
    }
    None
}

/// Every digit character reads back as its value.
proof fn lemma_digit_char(d: int)
    requires
        0 <= d < 10,
    ensures
        is_digit(digit_char(d)),
        digit_val(digit_char(d)) == d,
{
}

/// The decimal text of a temperature, followed by anything but a digit,
/// reads back as exactly that temperature.
proof fn lemma_parse_temp_of_text(s: Seq<char>, t: u32, i: int)
    requires
        TEMP_MIN_CENTI <= t <= TEMP_MAX_CENTI,
        0 <= i,
        i + temp_text(t).len() < s.len(),
        s.subrange(i, i + temp_text(t).len() as int) == temp_text(t),
        !is_digit(s[i + temp_text(t).len()]),
    ensures
        parse_temp_at(s, i) == Some((t, i + temp_text(t).len())),
{
    let tt = temp_text(t);
    let w = t as int / 100;
    let f = t as int % 100;
    lemma_digit_char(w / 10);
    lemma_digit_char(w % 10);
    lemma_digit_char(f / 10);
    lemma_digit_char(f % 10);
    assert(s[i] == tt[0] && s[i + 1] == tt[1] && s[i + 2] == tt[2] && s[i + 3] == tt[3]);
    if f % 10 == 0 {
        assert(tt.len() == 4);
        assert(!is_digit(s[i + 4]));
        assert(t as int == w * 100 + (f / 10) * 10);
    } else {
        assert(tt.len() == 5);
        assert(s[i + 4] == tt[4]);
        assert(!is_digit(s[i + 5]));
        assert(t as int == w * 100 + (f / 10) * 10 + f % 10);
    }
}

/// Decoding the encoded payload of a reading's four fields recovers exactly
/// those fields: the round trip over the whole payload, for every identifier
/// text, timestamp text, location and in-range temperature.
pub proof fn lemma_decode_of_encode(id: Seq<char>, ts: Seq<char>, loc: Seq<char>, temp: u32)
    requires
        TEMP_MIN_CENTI <= temp <= TEMP_MAX_CENTI,
    ensures
        parse_reading_text(json_of(id, ts, loc, temp)) == Some(
            JsonRecord { id, timestamp: ts, location: loc, temperature: temp },
        ),
{
    let s = json_of(id, ts, loc, temp);
    let e1 = escape_text(id);
    let e2 = escape_text(ts);
    let e3 = escape_text(loc);
    let tt = temp_text(temp);
    let n1 = lit_id().len() as int;
    let n2 = lit_timestamp().len() as int;
    let n3 = lit_location().len() as int;
    let n4 = lit_temperature().len() as int;
    let i2 = n1 + e1.len() + 1;
    let i3 = i2 + n2 + e2.len() + 1;
    let i4 = i3 + n3 + e3.len() + 1;
    let i5 = i4 + n4 + tt.len();
    assert(s.len() == i5 + 1);

    assert(s.subrange(0, n1) =~= lit_id());
    assert(match_at(s, 0, lit_id()));
    assert(s.subrange(n1, n1 + e1.len() + 1) =~= e1 + seq!['"']);
    lemma_scan_escaped(s, id, n1);

    assert(s.subrange(i2, i2 + n2) =~= lit_timestamp());
    assert(match_at(s, i2, lit_timestamp()));
    assert(s.subrange(i2 + n2, i2 + n2 + e2.len() + 1) =~= e2 + seq!['"']);
    lemma_scan_escaped(s, ts, i2 + n2);

    assert(s.subrange(i3, i3 + n3) =~= lit_location());
    assert(match_at(s, i3, lit_location()));
    assert(s.subrange(i3 + n3, i3 + n3 + e3.len() + 1) =~= e3 + seq!['"']);
    lemma_scan_escaped(s, loc, i3 + n3);

    assert(s.subrange(i4, i4 + n4) =~= lit_temperature());
    assert(match_at(s, i4, lit_temperature()));
    assert(s.subrange(i4 + n4, i4 + n4 + tt.len() as int) =~= tt);
    assert(s[i5] == '}');
    assert(!is_digit('}'));
    lemma_parse_temp_of_text(s, temp, i4 + n4);
}

} // verus!
