//! Escaped JSON string text: how a character sequence stands between quotes
//! in the payload, and how the original sequence is read back.

use vstd::prelude::*;

use vstd::utf8::char_u32_cast;

use crate::trusted::push_char;

verus! {

/// Character for one hexadecimal digit value, lower case.
pub open spec fn hex_char(d: int) -> char {
    if d == 0 {
        '0'
    } else if d == 1 {
        '1'
    } else if d == 2 {
        '2'
    } else if d == 3 {
        '3'
    } else if d == 4 {
        '4'
    } else if d == 5 {
        '5'
    } else if d == 6 {
        '6'
    } else if d == 7 {
        '7'
    } else if d == 8 {
        '8'
    } else if d == 9 {
        '9'
    } else if d == 10 {
        'a'
    } else if d == 11 {
        'b'
    } else if d == 12 {
        'c'
    } else if d == 13 {
        'd'
    } else if d == 14 {
        'e'
    } else if d == 15 {
        'f'
    } else {
        '?'
    }
}

/// Whether a character is a lower-case hexadecimal digit.
pub open spec fn is_hex_digit(c: char) -> bool {
    c == '0' || c == '1' || c == '2' || c == '3' || c == '4' || c == '5' || c == '6' || c == '7'
        || c == '8' || c == '9' || c == 'a' || c == 'b' || c == 'c' || c == 'd' || c == 'e'
        || c == 'f'
}

/// The value of a lower-case hexadecimal digit character.
pub open spec fn hex_val(c: char) -> int {
    if c == '0' {
        0
    } else if c == '1' {
        1
    } else if c == '2' {
        2
    } else if c == '3' {
        3
    } else if c == '4' {
        4
    } else if c == '5' {
        5
    } else if c == '6' {
        6
    } else if c == '7' {
        7
    } else if c == '8' {
        8
    } else if c == '9' {
        9
    } else if c == 'a' {
        10
    } else if c == 'b' {
        11
    } else if c == 'c' {
        12
    } else if c == 'd' {
        13
    } else if c == 'e' {
        14
    } else if c == 'f' {
        15
    } else {
        0
    }
}

/// How one character stands inside a quoted JSON string: the two-character
/// escapes for the quote, the backslash and the common control characters,
/// `\u00..` for the other control characters, the character itself
/// otherwise.
pub open spec fn escape_char(c: char) -> Seq<char> {
    if c == '"' {
        seq!['\\', '"']
    } else if c == '\\' {
        seq!['\\', '\\']
    } else if c == '\n' {
        seq!['\\', 'n']
    } else if c == '\r' {
        seq!['\\', 'r']
    } else if c == '\t' {
        seq!['\\', 't']
    } else if (c as u32) < 32 {
        seq!['\\', 'u', '0', '0', hex_char(c as u32 as int / 16), hex_char(c as u32 as int % 16)]
    } else {
        seq![c]
    }
}

/// The character an escape code stands for, if it is one the codec writes.
pub open spec fn unescape_char(c: char) -> Option<char> {
    if c == '"' {
        Some('"')
    } else if c == '\\' {
        Some('\\')
    } else if c == 'n' {
        Some('\n')
    } else if c == 'r' {
        Some('\r')
    } else if c == 't' {
        Some('\t')
    } else {
        None
    }
}

/// How a whole character sequence stands inside a quoted JSON string.
pub open spec fn escape_text(s: Seq<char>) -> Seq<char>
    decreases s.len(),
{
    if s.len() == 0 {
        Seq::empty()
    } else {
        escape_char(s[0]) + escape_text(s.drop_first())
    }
}

/// Reads a quoted string's content starting at `i`, just after the opening
/// quote: collects characters, resolving escape codes, up to and including
/// the first unescaped closing quote. Yields the content and the position
/// just after that quote.
pub open spec fn scan_string_at(s: Seq<char>, i: int) -> Option<(Seq<char>, int)>
    decreases s.len() - i,
{
    if i < 0 || i >= s.len() {
        None
    } else if s[i] == '"' {
        Some((Seq::empty(), i + 1))
    } else if s[i] == '\\' {
        if i + 1 >= s.len() {
            None
        } else if s[i + 1] == 'u' {
            if i + 6 <= s.len() && s[i + 2] == '0' && s[i + 3] == '0' && is_hex_digit(s[i + 4])
                && is_hex_digit(s[i + 5]) {
                let c = ((hex_val(s[i + 4]) * 16 + hex_val(s[i + 5])) as u8) as char;
                match scan_string_at(s, i + 6) {
                    Some((t, j)) => Some((seq![c] + t, j)),
                    None => None,
                }
            } else {
                None
            }
        } else {
            match unescape_char(s[i + 1]) {
                Some(c) => match scan_string_at(s, i + 2) {
                    Some((t, j)) => Some((seq![c] + t, j)),
                    None => None,
                },
                None => None,
            }
        }
    } else {
        match scan_string_at(s, i + 1) {
            Some((t, j)) => Some((seq![s[i]] + t, j)),
            None => None,
        }
    }
}

/// Escaping distributes over appending one character at the end.
pub proof fn lemma_escape_snoc(s: Seq<char>, c: char)
    ensures
        escape_text(s.push(c)) == escape_text(s) + escape_char(c),
    decreases s.len(),
{
    if s.len() == 0 {
        assert(s.push(c)[0] == c);
        assert(s.push(c).drop_first() =~= Seq::<char>::empty());
        assert(escape_text(Seq::<char>::empty()) == Seq::<char>::empty());
        assert(escape_text(s.push(c)) == escape_char(c) + escape_text(Seq::<char>::empty()));
        assert(s =~= Seq::<char>::empty());
        assert(escape_text(s.push(c)) =~= escape_text(s) + escape_char(c));
    } else {
        assert(s.push(c)[0] == s[0]);
        assert(s.push(c).drop_first() =~= s.drop_first().push(c));
        lemma_escape_snoc(s.drop_first(), c);
        assert(escape_text(s.push(c)) =~= escape_text(s) + escape_char(c));
    }
}

/// Every hexadecimal digit character reads back as its value.
proof fn lemma_hex_char(d: int)
    requires
        0 <= d < 16,
    ensures
        is_hex_digit(hex_char(d)),
        hex_val(hex_char(d)) == d,
{
}

/// Scanning the escaped form of `t`, closed by a quote, recovers exactly `t`
/// and stops just after that quote.
pub proof fn lemma_scan_escaped(s: Seq<char>, t: Seq<char>, i: int)
    requires
        0 <= i,
        i + escape_text(t).len() + 1 <= s.len(),
        s.subrange(i, i + escape_text(t).len() + 1) == escape_text(t) + seq!['"'],
    ensures
        scan_string_at(s, i) == Some((t, i + escape_text(t).len() + 1)),
    decreases t.len(),
{
    let e = escape_text(t);
    let w = s.subrange(i, i + e.len() as int + 1);
    if t.len() == 0 {
        assert(w[0] == s[i]);
        assert(s[i] == '"');
        assert(t =~= Seq::<char>::empty());
    } else {
        let c = t[0];
        let r = t.drop_first();
        let ec = escape_char(c);
        let er = escape_text(r);
        assert(e == ec + er);
        if c == '"' || c == '\\' || c == '\n' || c == '\r' || c == '\t' {
            assert(ec.len() == 2);
            assert(s[i] == w[0] && w[0] == ec[0]);
            assert(s[i + 1] == w[1] && w[1] == ec[1]);
            assert(s[i] == '\\');
            assert(s[i + 1] != 'u');
            assert(unescape_char(s[i + 1]) == Some(c));
            assert forall|k: int| 0 <= k < er.len() + 1 implies s.subrange(
                i + 2,
                i + 2 + er.len() as int + 1,
            )[k] == (er + seq!['"'])[k] by {
                assert(w[k + 2] == s[i + k + 2]);
                assert(w[k + 2] == (er + seq!['"'])[k]);
            }
            assert(s.subrange(i + 2, i + 2 + er.len() as int + 1) =~= er + seq!['"']);
            lemma_scan_escaped(s, r, i + 2);
            assert(seq![c] + r =~= t);
        } else if (c as u32) < 32 {
            let code = c as u32 as int;
            let hi = code / 16;
            let lo = code % 16;
            lemma_hex_char(hi);
            lemma_hex_char(lo);
            assert(ec.len() == 6);
            assert(s[i] == w[0] && w[0] == ec[0]);
            assert(s[i + 1] == w[1] && w[1] == ec[1]);
            assert(s[i + 2] == w[2] && w[2] == ec[2]);
            assert(s[i + 3] == w[3] && w[3] == ec[3]);
            assert(s[i + 4] == w[4] && w[4] == ec[4]);
            assert(s[i + 5] == w[5] && w[5] == ec[5]);
            assert(s[i] == '\\' && s[i + 1] == 'u' && s[i + 2] == '0' && s[i + 3] == '0');
            assert(hex_val(s[i + 4]) * 16 + hex_val(s[i + 5]) == code);
            char_u32_cast(c, c as u32);
            assert(((code as u8) as char) == c);
            assert forall|k: int| 0 <= k < er.len() + 1 implies s.subrange(
                i + 6,
                i + 6 + er.len() as int + 1,
            )[k] == (er + seq!['"'])[k] by {
                assert(w[k + 6] == s[i + k + 6]);
                assert(w[k + 6] == (er + seq!['"'])[k]);
            }
            assert(s.subrange(i + 6, i + 6 + er.len() as int + 1) =~= er + seq!['"']);
            lemma_scan_escaped(s, r, i + 6);
            assert(seq![c] + r =~= t);
        } else {
            assert(ec.len() == 1);
            assert(s[i] == w[0] && w[0] == ec[0]);
            assert(s[i] == c);
            assert forall|k: int| 0 <= k < er.len() + 1 implies s.subrange(
                i + 1,
                i + 1 + er.len() as int + 1,
            )[k] == (er + seq!['"'])[k] by {
                assert(w[k + 1] == s[i + k + 1]);
                assert(w[k + 1] == (er + seq!['"'])[k]);
            }
            assert(s.subrange(i + 1, i + 1 + er.len() as int + 1) =~= er + seq!['"']);
            lemma_scan_escaped(s, r, i + 1);
            assert(seq![s[i]] + r =~= t);
        }
    }
}

/// The character for a hexadecimal digit value, lower case.
fn hex_char_of(d: u32) -> (c: char)
    requires
        d < 16,
    ensures
        c == hex_char(d as int),
{
    if d == 0 {
        '0'
    } else if d == 1 {
        '1'
    } else if d == 2 {
        '2'
    } else if d == 3 {
        '3'
    } else if d == 4 {
        '4'
    } else if d == 5 {
        '5'
    } else if d == 6 {
        '6'
    } else if d == 7 {
        '7'
    } else if d == 8 {
        '8'
    } else if d == 9 {
        '9'
    } else if d == 10 {
        'a'
    } else if d == 11 {
        'b'
    } else if d == 12 {
        'c'
    } else if d == 13 {
        'd'
    } else if d == 14 {
        'e'
    } else {
        'f'
    }
}

/// The value of a hexadecimal digit character, or nothing if it is none.
fn hex_digit_value(c: char) -> (r: Option<u8>)
    ensures
        match r {
            Some(v) => is_hex_digit(c) && v == hex_val(c) && v < 16,
            None => !is_hex_digit(c),
        },
{
    if c == '0' {
        Some(0)
    } else if c == '1' {
        Some(1)
    } else if c == '2' {
        Some(2)
    } else if c == '3' {
        Some(3)
    } else if c == '4' {
        Some(4)
    } else if c == '5' {
        Some(5)
    } else if c == '6' {
        Some(6)
    } else if c == '7' {
        Some(7)
    } else if c == '8' {
        Some(8)
    } else if c == '9' {
        Some(9)
    } else if c == 'a' {
        Some(10)
    } else if c == 'b' {
        Some(11)
    } else if c == 'c' {
        Some(12)
    } else if c == 'd' {
        Some(13)
    } else if c == 'e' {
        Some(14)
    } else if c == 'f' {
        Some(15)
    } else {
        None
    }
}

/// Appends the escaped form of `s` to `out`.
pub fn append_escaped(out: &mut String, s: &str)
    ensures
        final(out)@ == old(out)@ + escape_text(s@),
{
    let len = s.unicode_len();
    assert(s@.subrange(0, 0) =~= Seq::<char>::empty());
    for i in 0..len
        invariant
            len == s@.len(),
            out@ == old(out)@ + escape_text(s@.subrange(0, i as int)),
    {
        let c = s.get_char(i);
        proof {
            lemma_escape_snoc(s@.subrange(0, i as int), c);
            assert(s@.subrange(0, i as int).push(c) =~= s@.subrange(0, i as int + 1));
        }
        if c == '"' {
            push_char(out, '\\');
            push_char(out, '"');
        } else if c == '\\' {
            push_char(out, '\\');
            push_char(out, '\\');
        } else if c == '\n' {
            push_char(out, '\\');
            push_char(out, 'n');
        } else if c == '\r' {
            push_char(out, '\\');
            push_char(out, 'r');
        } else if c == '\t' {
            push_char(out, '\\');
            push_char(out, 't');
        } else if (c as u32) < 32 {
            let code = c as u32;
            push_char(out, '\\');
            push_char(out, 'u');
            push_char(out, '0');
            push_char(out, '0');
            push_char(out, hex_char_of(code / 16));
            push_char(out, hex_char_of(code % 16));
        } else {
            push_char(out, c);
        }
        assert(out@ =~= old(out)@ + escape_text(s@.subrange(0, i as int + 1)));
    }
    assert(s@.subrange(0, len as int) =~= s@);
}

/// Reads a quoted string's content from `s`, starting just after the opening
/// quote at `start`; decides exactly as `scan_string_at`.
pub fn scan_string(s: &str, start: usize) -> (r: Option<(String, usize)>)
    ensures
        match r {
            Some((t, j)) => {
                &&& scan_string_at(s@, start as int) == Some((t@, j as int))
                &&& start < j <= s@.len()
            },
            None => scan_string_at(s@, start as int) is None,
        },
{
    let len = s.unicode_len();
    if start >= len {
        return None;
    }
    let mut i = start;
    let mut acc = String::new();
    loop
        invariant
            len == s@.len(),
            start <= i,
            i <= len,
            scan_string_at(s@, start as int) == (match scan_string_at(s@, i as int) {
                Some((t, j)) => Some((acc@ + t, j)),
                None => None::<(Seq<char>, int)>,
            }),
        decreases len - i,
    {
        if i >= len {
            return None;
        }
        let c = s.get_char(i);
        if c == '"' {
            assert(acc@ + Seq::<char>::empty() =~= acc@);
            return Some((acc, i + 1));
        } else if c == '\\' {
            if i + 1 >= len {
                return None;
            }
            let e = s.get_char(i + 1);
            if e == 'u' {
                if len - i < 6 {
                    return None;
                }
                if s.get_char(i + 2) != '0' || s.get_char(i + 3) != '0' {
                    return None;
                }
                let h = match hex_digit_value(s.get_char(i + 4)) {
                    Some(v) => v,
                    None => {
                        return None;
                    },
                };
                let l = match hex_digit_value(s.get_char(i + 5)) {
                    Some(v) => v,
                    None => {
                        return None;
                    },
                };
                let u = (h * 16 + l) as char;
                proof {
                    if let Some((t, j)) = scan_string_at(s@, i as int + 6) {
                        assert(acc@ + (seq![u] + t) =~= (acc@ + seq![u]) + t);
                    }
                }
                push_char(&mut acc, u);
                i = i + 6;
            } else {
                let u: char;
                if e == '"' {
                    u = '"';
                } else if e == '\\' {
                    u = '\\';
                } else if e == 'n' {
                    u = '\n';
                } else if e == 'r' {
                    u = '\r';
                } else if e == 't' {
                    u = '\t';
                } else {
                    return None;
                }
                proof {
                    assert(unescape_char(s@[i as int + 1]) == Some(u));
                    if let Some((t, j)) = scan_string_at(s@, i as int + 2) {
                        assert(acc@ + (seq![u] + t) =~= (acc@ + seq![u]) + t);
                    }
                }
                push_char(&mut acc, u);
                i = i + 2;
            }
        } else {
            proof {
                if let Some((t, j)) = scan_string_at(s@, i as int + 1) {
                    assert(acc@ + (seq![c] + t) =~= (acc@ + seq![c]) + t);
                }
            }
            push_char(&mut acc, c);
            i = i + 1;
        }
    }
}

} // verus!
