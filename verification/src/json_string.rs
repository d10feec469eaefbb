//! JSON string literals in canonical form.
//!
//! A character is written as itself, except for the quotation mark, the
//! reverse solidus and the control characters below U+0020. Those are written
//! as a two character escape where JSON has one, and as `\u00` with two lower
//! case hexadecimal digits where it has none. Nothing else is canonical: the
//! reader refuses every other way to write the same character.

use vstd::prelude::*;

use crate::hex::{hex_digit, hex_digit_of, hex_value, hex_value_of, is_lower_hex_digit};
use crate::text::has_at;

verus! {

/// The canonical way to write `c` inside a JSON string literal.
pub open spec fn escape_char(c: char) -> Seq<char> {
    if c == '"' {
        seq!['\\', '"']
    } else if c == '\\' {
        seq!['\\', '\\']
    } else if c == '\u{08}' {
        seq!['\\', 'b']
    } else if c == '\u{0c}' {
        seq!['\\', 'f']
    } else if c == '\n' {
        seq!['\\', 'n']
    } else if c == '\r' {
        seq!['\\', 'r']
    } else if c == '\t' {
        seq!['\\', 't']
    } else if c <= '\u{1f}' {
        seq!['\\', 'u', '0', '0', hex_digit(c as int / 16), hex_digit(c as int % 16)]
    } else {
        seq![c]
    }
}

/// The characters of `s`, each written in the canonical way.
pub open spec fn escaped(s: Seq<char>) -> Seq<char>
    decreases s.len(),
{
    if s.len() == 0 {
        Seq::<char>::empty()
    } else {
        escape_char(s[0]) + escaped(s.skip(1))
    }
}

/// The canonical JSON string literal for `s`.
pub open spec fn quoted(s: Seq<char>) -> Seq<char> {
    seq!['"'] + escaped(s) + seq!['"']
}

/// Reads the one character that is written at `pos`: the character and the
/// position behind what stands for it.
pub open spec fn parse_char(s: Seq<char>, pos: int) -> Option<(char, int)> {
    if pos < 0 || pos >= s.len() {
        None
    } else if s[pos] == '"' {
        None
    } else if s[pos] == '\\' {
        if pos + 1 >= s.len() {
            None
        } else if s[pos + 1] == '"' {
            Some(('"', pos + 2))
        } else if s[pos + 1] == '\\' {
            Some(('\\', pos + 2))
        } else if s[pos + 1] == 'b' {
            Some(('\u{08}', pos + 2))
        } else if s[pos + 1] == 'f' {
            Some(('\u{0c}', pos + 2))
        } else if s[pos + 1] == 'n' {
            Some(('\n', pos + 2))
        } else if s[pos + 1] == 'r' {
            Some(('\r', pos + 2))
        } else if s[pos + 1] == 't' {
            Some(('\t', pos + 2))
        } else if s[pos + 1] == 'u' {
            if pos + 6 <= s.len() && s[pos + 2] == '0' && s[pos + 3] == '0' && is_lower_hex_digit(
                s[pos + 4],
            ) && is_lower_hex_digit(s[pos + 5]) {
                let v = 16 * hex_value(s[pos + 4]) + hex_value(s[pos + 5]);
                if v < 0x20 && v != 8 && v != 9 && v != 10 && v != 12 && v != 13 {
                    Some((v as char, pos + 6))
                } else {
                    None
                }
            } else {
                None
            }
        } else {
            None
        }
    } else if s[pos] <= '\u{1f}' {
        None
    } else {
        Some((s[pos], pos + 1))
    }
}

/// Reads characters from `pos` up to the closing quotation mark: the
/// characters and the position behind that mark.
pub open spec fn parse_chars(s: Seq<char>, pos: int) -> Option<(Seq<char>, int)>
    decreases s.len() - pos,
{
    if pos < 0 || pos >= s.len() {
        None
    } else if s[pos] == '"' {
        Some((Seq::<char>::empty(), pos + 1))
    } else {
        match parse_char(s, pos) {
            None => None,
            Some((c, next)) => match parse_chars(s, next) {
                None => None,
                Some((rest, end)) => Some((seq![c] + rest, end)),
            },
        }
    }
}

/// Reads the string literal that starts at `pos`: the string and the position
/// behind the literal.
pub open spec fn parse_quoted(s: Seq<char>, pos: int) -> Option<(Seq<char>, int)> {
    if 0 <= pos < s.len() && s[pos] == '"' {
        parse_chars(s, pos + 1)
    } else {
        None
    }
}

/// What `parse_char` reads is the canonical way to write the character it
/// gives.
pub proof fn lemma_parse_char_sound(s: Seq<char>, pos: int)
    ensures
        match parse_char(s, pos) {
            Some((c, next)) => pos < next <= s.len() && s.subrange(pos, next) == escape_char(c),
            None => true,
        },
{
    if let Some((c, next)) = parse_char(s, pos) {
        if s[pos] == '\\' && s[pos + 1] == 'u' {
            let h = s[pos + 4];
            let l = s[pos + 5];
            let v = 16 * hex_value(h) + hex_value(l);
            assert(c as int == v);
            assert(v / 16 == hex_value(h) && v % 16 == hex_value(l));
            assert(hex_digit(hex_value(h)) == h);
            assert(hex_digit(hex_value(l)) == l);
        }
        assert(s.subrange(pos, next) =~= escape_char(c));
    }
}

/// Where the canonical way to write `c` stands at `pos`, `parse_char` reads
/// `c`.
pub proof fn lemma_parse_char_complete(s: Seq<char>, pos: int, c: char)
    requires
        has_at(s, pos, escape_char(c)),
    ensures
        parse_char(s, pos) == Some((c, pos + escape_char(c).len())),
        s[pos] != '"',
{
    let e = escape_char(c);
    let sub = s.subrange(pos, pos + e.len());
    assert(sub[0] == s[pos]);
    if e.len() >= 2 {
        assert(sub[1] == s[pos + 1]);
    }
    if e.len() == 6 {
        assert(sub[2] == s[pos + 2]);
        assert(sub[3] == s[pos + 3]);
        assert(sub[4] == s[pos + 4]);
        assert(sub[5] == s[pos + 5]);
        let v = c as int;
        assert(0 <= v / 16 < 16 && 0 <= v % 16 < 16);
        assert(hex_value(hex_digit(v / 16)) == v / 16);
        assert(hex_value(hex_digit(v % 16)) == v % 16);
        assert(16 * (v / 16) + v % 16 == v);
        assert(v as char == c);
    }
}

/// What `parse_chars` reads is the canonical text of the string it gives,
/// and the closing quotation mark.
pub proof fn lemma_parse_chars_sound(s: Seq<char>, pos: int)
    ensures
        match parse_chars(s, pos) {
            Some((x, end)) => pos < end <= s.len() && s.subrange(pos, end) == escaped(x) + seq![
                '"',
            ],
            None => true,
        },
    decreases s.len() - pos,
{
    if let Some((x, end)) = parse_chars(s, pos) {
        if s[pos] == '"' {
            assert(escaped(x) =~= Seq::<char>::empty());
            assert(s.subrange(pos, end) =~= escaped(x) + seq!['"']);
        } else {
            let (c, next) = parse_char(s, pos)->0;
            let (rest, _) = parse_chars(s, next)->0;
            lemma_parse_char_sound(s, pos);
            lemma_parse_chars_sound(s, next);
            assert(x == seq![c] + rest);
            assert(x[0] == c);
            assert(x.skip(1) =~= rest);
            assert(s.subrange(pos, end) =~= s.subrange(pos, next) + s.subrange(next, end));
            assert(escape_char(c) + (escaped(rest) + seq!['"']) =~= escaped(x) + seq!['"']);
        }
    }
}

/// Where the canonical text of `x` and a quotation mark stand at `pos`,
/// `parse_chars` reads `x`.
pub proof fn lemma_parse_chars_complete(s: Seq<char>, pos: int, x: Seq<char>)
    requires
        has_at(s, pos, escaped(x) + seq!['"']),
    ensures
        parse_chars(s, pos) == Some((x, pos + escaped(x).len() + 1)),
    decreases x.len(),
{
    let t = escaped(x) + seq!['"'];
    let sub = s.subrange(pos, pos + t.len());
    if x.len() == 0 {
        assert(sub[0] == s[pos]);
    } else {
        let c = x[0];
        let rest = x.skip(1);
        let e = escape_char(c);
        assert(t =~= e + (escaped(rest) + seq!['"']));
        assert(s.subrange(pos, pos + e.len()) =~= sub.subrange(0, e.len() as int));
        assert(sub.subrange(0, e.len() as int) =~= e);
        lemma_parse_char_complete(s, pos, c);
        let next = pos + e.len();
        assert(s.subrange(next, next + escaped(rest).len() + 1) =~= sub.subrange(
            e.len() as int,
            t.len() as int,
        ));
        assert(sub.subrange(e.len() as int, t.len() as int) =~= escaped(rest) + seq!['"']);
        lemma_parse_chars_complete(s, next, rest);
        assert(seq![c] + rest =~= x);
    }
}

/// What `parse_quoted` reads is the canonical literal of the string it gives.
pub proof fn lemma_parse_quoted_sound(s: Seq<char>, pos: int)
    ensures
        match parse_quoted(s, pos) {
            Some((x, end)) => 0 <= pos < end <= s.len() && s.subrange(pos, end) == quoted(x),
            None => true,
        },
{
    if let Some((x, end)) = parse_quoted(s, pos) {
        lemma_parse_chars_sound(s, pos + 1);
        assert(s.subrange(pos, end) =~= seq!['"'] + s.subrange(pos + 1, end));
        assert(quoted(x) =~= seq!['"'] + (escaped(x) + seq!['"']));
    }
}

/// Where the canonical literal of `x` stands at `pos`, `parse_quoted` reads
/// `x`.
pub proof fn lemma_parse_quoted_complete(s: Seq<char>, pos: int, x: Seq<char>)
    requires
        has_at(s, pos, quoted(x)),
    ensures
        parse_quoted(s, pos) == Some((x, pos + quoted(x).len())),
{
    let q = quoted(x);
    let sub = s.subrange(pos, pos + q.len());
    assert(sub[0] == s[pos]);
    assert(q[0] == '"');
    assert(s.subrange(pos + 1, pos + q.len()) =~= sub.subrange(1, q.len() as int));
    assert(sub.subrange(1, q.len() as int) =~= escaped(x) + seq!['"']);
    lemma_parse_chars_complete(s, pos + 1, x);
}

/// The canonical text of a string that ends in `c` is that of the string
/// before `c`, and the canonical way to write `c`.
pub proof fn lemma_escaped_push(s: Seq<char>, c: char)
    ensures
        escaped(s.push(c)) == escaped(s) + escape_char(c),
    decreases s.len(),
{
    let t = s.push(c);
    if s.len() == 0 {
        assert(t.skip(1) =~= Seq::<char>::empty());
        assert(escaped(t.skip(1)) =~= Seq::<char>::empty());
        assert(escaped(t) =~= escape_char(c));
        assert(escaped(s) + escape_char(c) =~= escape_char(c));
    } else {
        assert(t[0] == s[0]);
        assert(t.skip(1) =~= s.skip(1).push(c));
        lemma_escaped_push(s.skip(1), c);
        assert(escape_char(s[0]) + (escaped(s.skip(1)) + escape_char(c)) =~= (escape_char(s[0])
            + escaped(s.skip(1))) + escape_char(c));
    }
}

/// Appends the canonical way to write `c` to `out`.
pub fn push_escaped_char(out: &mut Vec<char>, c: char)
    ensures
        final(out)@ == old(out)@ + escape_char(c),
{
    let ghost before = out@;
    if c == '"' {
        out.push('\\');
        out.push('"');
    } else if c == '\\' {
        out.push('\\');
        out.push('\\');
    } else if c == '\u{08}' {
        out.push('\\');
        out.push('b');
    } else if c == '\u{0c}' {
        out.push('\\');
        out.push('f');
    } else if c == '\n' {
        out.push('\\');
        out.push('n');
    } else if c == '\r' {
        out.push('\\');
        out.push('r');
    } else if c == '\t' {
        out.push('\\');
        out.push('t');
    } else if c <= '\u{1f}' {
        let v: u8 = c as u32 as u8;
        out.push('\\');
        out.push('u');
        out.push('0');
        out.push('0');
        out.push(hex_digit_of(v / 16));
        out.push(hex_digit_of(v % 16));
    } else {
        out.push(c);
    }
    assert(out@ =~= before + escape_char(c));
}

/// Appends the canonical JSON string literal for `s` to `out`.
pub fn push_quoted(out: &mut Vec<char>, s: &Vec<char>)
    ensures
        final(out)@ == old(out)@ + quoted(s@),
{
    let ghost before = out@;
    out.push('"');
    let mut i: usize = 0;
    while i < s.len()
        invariant
            i <= s.len(),
            out@ == before + seq!['"'] + escaped(s@.take(i as int)),
        decreases s.len() - i,
    {
        push_escaped_char(out, s[i]);
        proof {
            lemma_escaped_push(s@.take(i as int), s@[i as int]);
            assert(s@.take(i + 1) =~= s@.take(i as int).push(s@[i as int]));
            assert(out@ =~= before + seq!['"'] + escaped(s@.take(i + 1)));
        }
        i += 1;
    }
    out.push('"');
    proof {
        assert(s@.take(s.len() as int) =~= s@);
        assert(out@ =~= before + quoted(s@));
    }
}

/// Reads the one character that is written at `pos`.
pub fn parse_char_at(s: &Vec<char>, pos: usize) -> (r: Option<(char, usize)>)
    ensures
        match r {
            Some((c, next)) => parse_char(s@, pos as int) == Some((c, next as int)),
            None => parse_char(s@, pos as int) is None,
        },
{
    if pos >= s.len() {
        return None;
    }
    let c = s[pos];
    if c == '"' {
        None
    } else if c == '\\' {
        if pos + 1 >= s.len() {
            return None;
        }
        let e = s[pos + 1];
        if e == '"' {
            Some(('"', pos + 2))
        } else if e == '\\' {
            Some(('\\', pos + 2))
        } else if e == 'b' {
            Some(('\u{08}', pos + 2))
        } else if e == 'f' {
            Some(('\u{0c}', pos + 2))
        } else if e == 'n' {
            Some(('\n', pos + 2))
        } else if e == 'r' {
            Some(('\r', pos + 2))
        } else if e == 't' {
            Some(('\t', pos + 2))
        } else if e == 'u' {
            if s.len() - pos < 6 {
                return None;
            }
            if s[pos + 2] != '0' || s[pos + 3] != '0' {
                return None;
            }
            let h = s[pos + 4];
            let l = s[pos + 5];
            if !(('0' <= h && h <= '9') || ('a' <= h && h <= 'f')) {
                return None;
            }
            if !(('0' <= l && l <= '9') || ('a' <= l && l <= 'f')) {
                return None;
            }
            let hv = match hex_value_of(h) {
                Some(n) => n,
                None => {
                    return None;
                },
            };
            let lv = match hex_value_of(l) {
                Some(n) => n,
                None => {
                    return None;
                },
            };
            let v: u8 = 16 * hv + lv;
            if v < 0x20 && v != 8 && v != 9 && v != 10 && v != 12 && v != 13 {
                Some((v as char, pos + 6))
            } else {
                None
            }
        } else {
            None
        }
    } else if c <= '\u{1f}' {
        None
    } else {
        Some((c, pos + 1))
    }
}

/// Reads the string literal that starts at `pos`.
pub fn parse_quoted_at(s: &Vec<char>, pos: usize) -> (r: Option<(Vec<char>, usize)>)
    ensures
        match r {
            Some((x, end)) => parse_quoted(s@, pos as int) == Some((x@, end as int)),
            None => parse_quoted(s@, pos as int) is None,
        },
{
    if pos >= s.len() || s[pos] != '"' {
        return None;
    }
    let mut acc: Vec<char> = Vec::new();
    let mut i: usize = pos + 1;
    loop
        invariant
            pos < i <= s.len(),
            s@[pos as int] == '"',
            parse_chars(s@, pos + 1) == match parse_chars(s@, i as int) {
                None => None::<(Seq<char>, int)>,
                Some((rest, end)) => Some((acc@ + rest, end)),
            },
        decreases s.len() - i,
    {
        if i >= s.len() {
            return None;
        }
        if s[i] == '"' {
            proof {
                assert(parse_chars(s@, i as int) == Some((Seq::<char>::empty(), i + 1)));
                assert(acc@ + Seq::<char>::empty() =~= acc@);
            }
            return Some((acc, i + 1));
        }
        match parse_char_at(s, i) {
            None => {
                return None;
            },
            Some((c, next)) => {
                proof {
                    lemma_parse_char_sound(s@, i as int);
                    match parse_chars(s@, next as int) {
                        None => {},
                        Some((rest, end)) => {
                            assert(acc@ + (seq![c] + rest) =~= acc@.push(c) + rest);
                        },
                    }
                }
                acc.push(c);
                i = next;
            },
        }
    }
}

} // verus!
