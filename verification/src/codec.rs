//! Building blocks of the canonical JSON texts: byte strings in hexadecimal
//! and lists. Each block has a writer, a reader, and the two facts that make
//! the reader the writer's inverse: what it reads is what the writer writes,
//! and what the writer writes it reads.

use vstd::prelude::*;

use crate::decimal::{
    decimal, is_digit, lemma_decimal_is_decimal, lemma_parse_decimal_complete,
    lemma_parse_decimal_sound, parse_decimal, parse_decimal_at, push_decimal,
};
use crate::hex::{
    bytes_of_hex, hex_digit, hex_digit_of, hex_of_bytes, hex_value, hex_value_of,
    is_lower_hex_digit, is_lower_hex_text, lemma_hex_is_lower, lemma_hex_round_trip,
};
use crate::json_string::{
    lemma_parse_quoted_complete, lemma_parse_quoted_sound, parse_quoted, parse_quoted_at,
    push_quoted, quoted,
};
use crate::text::{
    chars_of, has_at, lemma_has_at_concat, lemma_has_at_first, string_from_chars, strings_view,
};

verus! {

/// Reads `count` bytes written as lower case hexadecimal digits at `pos`: the
/// bytes and the position behind them.
pub open spec fn parse_hex_bytes(s: Seq<char>, pos: int, count: nat) -> Option<(Seq<u8>, int)> {
    if 0 <= pos && pos + 2 * count <= s.len() && is_lower_hex_text(
        s.subrange(pos, pos + 2 * count),
    ) {
        Some((bytes_of_hex(s.subrange(pos, pos + 2 * count)), pos + 2 * count))
    } else {
        None
    }
}

/// What `parse_hex_bytes` reads is the hexadecimal text of the bytes it gives.
#[verifier::rlimit(60)]
pub proof fn lemma_parse_hex_bytes_sound(s: Seq<char>, pos: int, count: nat)
    ensures
        match parse_hex_bytes(s, pos, count) {
            Some((bytes, end)) => {
                &&& bytes.len() == count
                &&& end == pos + 2 * count
                &&& 0 <= pos <= end <= s.len()
                &&& s.subrange(pos, end) == hex_of_bytes(bytes)
            },
            None => true,
        },
{
    if let Some((bytes, end)) = parse_hex_bytes(s, pos, count) {
        let t = s.subrange(pos, end);
        let h = hex_of_bytes(bytes);
        assert(t.len() / 2 == count);
        assert forall|i: int| 0 <= i < t.len() implies t[i] == h[i] by {
            let k = i / 2;
            let hi = t[2 * k];
            let lo = t[2 * k + 1];
            assert(is_lower_hex_digit(hi) && is_lower_hex_digit(lo));
            let b = 16 * hex_value(hi) + hex_value(lo);
            assert(bytes[k] == b as u8);
            assert(0 <= b < 256);
            assert(b / 16 == hex_value(hi) && b % 16 == hex_value(lo));
            assert(hex_digit(hex_value(hi)) == hi);
            assert(hex_digit(hex_value(lo)) == lo);
        }
        assert(t =~= h);
    }
}

/// Where the hexadecimal text of `bytes` stands at `pos`, `parse_hex_bytes`
/// reads `bytes`.
#[verifier::rlimit(60)]
pub proof fn lemma_parse_hex_bytes_complete(s: Seq<char>, pos: int, bytes: Seq<u8>)
    requires
        has_at(s, pos, hex_of_bytes(bytes)),
    ensures
        parse_hex_bytes(s, pos, bytes.len()) == Some((bytes, pos + 2 * bytes.len())),
{
    let h = hex_of_bytes(bytes);
    let end = pos + 2 * bytes.len();
    lemma_hex_round_trip(bytes);
    lemma_hex_is_lower(bytes);
    assert(s.subrange(pos, end) == h);
}

/// Appends the lower case hexadecimal text of `bytes` to `out`.
pub fn push_hex(out: &mut Vec<char>, bytes: &[u8])
    ensures
        final(out)@ == old(out)@ + hex_of_bytes(bytes@),
{
    let ghost before = out@;
    let mut i: usize = 0;
    while i < bytes.len()
        invariant
            i <= bytes.len(),
            out@ == before + hex_of_bytes(bytes@.take(i as int)),
        decreases bytes.len() - i,
    {
        let b = bytes[i];
        out.push(hex_digit_of(b / 16));
        out.push(hex_digit_of(b % 16));
        assert(out@ =~= before + hex_of_bytes(bytes@.take(i + 1)));
        i += 1;
    }
    assert(bytes@.take(bytes.len() as int) =~= bytes@);
}

/// Reads `count` bytes written as lower case hexadecimal digits at `pos`.
pub fn parse_hex_at(s: &Vec<char>, pos: usize, count: usize) -> (r: Option<(Vec<u8>, usize)>)
    ensures
        match r {
            Some((bytes, end)) => parse_hex_bytes(s@, pos as int, count as nat) == Some(
                (bytes@, end as int),
            ),
            None => parse_hex_bytes(s@, pos as int, count as nat) is None,
        },
{
    if pos > s.len() || count > (s.len() - pos) / 2 {
        return None;
    }
    let mut bytes: Vec<u8> = Vec::new();
    let mut k: usize = 0;
    while k < count
        invariant
            k <= count,
            pos + 2 * count <= s.len(),
            is_lower_hex_text(s@.subrange(pos as int, pos + 2 * k)),
            bytes@ == bytes_of_hex(s@.subrange(pos as int, pos + 2 * k)),
        decreases count - k,
    {
        let hi = s[pos + 2 * k];
        let lo = s[pos + 2 * k + 1];
        if !(('0' <= hi && hi <= '9') || ('a' <= hi && hi <= 'f')) {
            assert(s@.subrange(pos as int, pos + 2 * count)[2 * k] == hi);
            return None;
        }
        if !(('0' <= lo && lo <= '9') || ('a' <= lo && lo <= 'f')) {
            assert(s@.subrange(pos as int, pos + 2 * count)[2 * k + 1] == lo);
            return None;
        }
        let hv = match hex_value_of(hi) {
            Some(n) => n,
            None => {
                return None;
            },
        };
        let lv = match hex_value_of(lo) {
            Some(n) => n,
            None => {
                return None;
            },
        };
        bytes.push(16 * hv + lv);
        proof {
            let shorter = s@.subrange(pos as int, pos + 2 * k);
            let longer = s@.subrange(pos as int, pos + 2 * (k + 1));
            assert forall|i: int| 0 <= i < k implies bytes_of_hex(longer)[i] == bytes_of_hex(
                shorter,
            )[i] by {
                assert(longer[2 * i] == shorter[2 * i]);
                assert(longer[2 * i + 1] == shorter[2 * i + 1]);
            }
            assert(longer[2 * k] == hi && longer[2 * k + 1] == lo);
            assert forall|i: int| 0 <= i < longer.len() implies is_lower_hex_digit(
                #[trigger] longer[i],
            ) by {
                if i < 2 * k {
                    assert(longer[i] == shorter[i]);
                }
            }
            assert(bytes@ =~= bytes_of_hex(longer));
        }
        k += 1;
    }
    Some((bytes, pos + 2 * count))
}

/// The items, with a comma between each two.
pub open spec fn joined(items: Seq<Seq<char>>) -> Seq<char>
    decreases items.len(),
{
    if items.len() == 0 {
        Seq::<char>::empty()
    } else if items.len() == 1 {
        items[0]
    } else {
        items[0] + seq![','] + joined(items.skip(1))
    }
}

/// The JSON array of the items, each of which is JSON text already.
pub open spec fn list_text(items: Seq<Seq<char>>) -> Seq<char> {
    seq!['['] + joined(items) + seq![']']
}

/// Joining one more item puts a comma before it, unless it is the first.
pub proof fn lemma_joined_push(items: Seq<Seq<char>>, x: Seq<char>)
    ensures
        joined(items.push(x)) == if items.len() == 0 {
            x
        } else {
            joined(items) + seq![','] + x
        },
    decreases items.len(),
{
    let t = items.push(x);
    if items.len() == 0 {
        assert(t[0] == x);
    } else {
        assert(t[0] == items[0]);
        assert(t.skip(1) =~= items.skip(1).push(x));
        lemma_joined_push(items.skip(1), x);
        if items.len() == 1 {
            assert(joined(items.skip(1)) =~= Seq::<char>::empty());
            assert(joined(t) =~= items[0] + seq![','] + x);
        } else {
            assert(joined(t) =~= items[0] + seq![','] + (joined(items.skip(1)) + seq![','] + x));
            assert(joined(t) =~= joined(items) + seq![','] + x);
        }
    }
}

/// The canonical string literal of each of `strings`.
pub open spec fn quoted_all(strings: Seq<Seq<char>>) -> Seq<Seq<char>> {
    Seq::new(strings.len(), |i: int| quoted(strings[i]))
}

/// The canonical JSON array of strings.
pub open spec fn strings_json(strings: Seq<Seq<char>>) -> Seq<char> {
    list_text(quoted_all(strings))
}

/// Reads string literals with commas between them, up to the closing
/// bracket: the strings and the position behind the bracket.
pub open spec fn parse_strings_rest(s: Seq<char>, pos: int) -> Option<(Seq<Seq<char>>, int)>
    decreases s.len() - pos,
{
    match parse_quoted(s, pos) {
        None => None,
        Some((x, next)) => if next <= pos || next >= s.len() {
            None
        } else if s[next] == ']' {
            Some((seq![x], next + 1))
        } else if s[next] == ',' {
            match parse_strings_rest(s, next + 1) {
                None => None,
                Some((rest, end)) => Some((seq![x] + rest, end)),
            }
        } else {
            None
        },
    }
}

/// Reads the array of strings that starts at `pos`: the strings and the
/// position behind the array.
pub open spec fn parse_strings(s: Seq<char>, pos: int) -> Option<(Seq<Seq<char>>, int)> {
    if pos < 0 || pos + 1 >= s.len() || s[pos] != '[' {
        None
    } else if s[pos + 1] == ']' {
        Some((Seq::<Seq<char>>::empty(), pos + 2))
    } else {
        parse_strings_rest(s, pos + 1)
    }
}

/// What `parse_strings_rest` reads is the joined literals of the strings it
/// gives, and the closing bracket.
pub proof fn lemma_parse_strings_rest_sound(s: Seq<char>, pos: int)
    ensures
        match parse_strings_rest(s, pos) {
            Some((xs, end)) => {
                &&& xs.len() > 0
                &&& 0 <= pos < end <= s.len()
                &&& s.subrange(pos, end) == joined(quoted_all(xs)) + seq![']']
            },
            None => true,
        },
    decreases s.len() - pos,
{
    if let Some((xs, end)) = parse_strings_rest(s, pos) {
        let (x, next) = parse_quoted(s, pos)->0;
        lemma_parse_quoted_sound(s, pos);
        if s[next] == ']' {
            assert(quoted_all(xs)[0] == quoted(x));
            assert(s.subrange(pos, end) =~= s.subrange(pos, next) + seq![']']);
        } else {
            let (rest, _) = parse_strings_rest(s, next + 1)->0;
            lemma_parse_strings_rest_sound(s, next + 1);
            assert(xs == seq![x] + rest);
            let q = quoted_all(xs);
            assert(q[0] == quoted(x));
            assert(q.skip(1) =~= quoted_all(rest));
            assert(s.subrange(pos, end) =~= s.subrange(pos, next) + seq![','] + s.subrange(
                next + 1,
                end,
            ));
            assert(quoted(x) + seq![','] + (joined(quoted_all(rest)) + seq![']']) =~= (quoted(x)
                + seq![','] + joined(quoted_all(rest))) + seq![']']);
        }
    }
}

/// Where the joined literals of `xs` and a closing bracket stand at `pos`,
/// `parse_strings_rest` reads `xs`.
pub proof fn lemma_parse_strings_rest_complete(s: Seq<char>, pos: int, xs: Seq<Seq<char>>)
    requires
        xs.len() > 0,
        has_at(s, pos, joined(quoted_all(xs)) + seq![']']),
    ensures
        parse_strings_rest(s, pos) == Some((xs, pos + joined(quoted_all(xs)).len() + 1)),
    decreases xs.len(),
{
    let q = quoted_all(xs);
    let x = xs[0];
    assert(q[0] == quoted(x));
    if xs.len() == 1 {
        lemma_has_at_concat(s, pos, quoted(x), seq![']']);
        lemma_parse_quoted_complete(s, pos, x);
        lemma_has_at_first(s, pos + quoted(x).len(), seq![']']);
        assert(seq![x] =~= xs);
    } else {
        let rest = xs.skip(1);
        assert(q.skip(1) =~= quoted_all(rest));
        let tail = joined(quoted_all(rest)) + seq![']'];
        assert(joined(q) + seq![']'] =~= quoted(x) + (seq![','] + tail));
        lemma_has_at_concat(s, pos, quoted(x), seq![','] + tail);
        lemma_has_at_concat(s, pos + quoted(x).len(), seq![','], tail);
        lemma_parse_quoted_complete(s, pos, x);
        lemma_has_at_first(s, pos + quoted(x).len(), seq![',']);
        lemma_parse_strings_rest_complete(s, pos + quoted(x).len() + 1, rest);
        assert(seq![x] + rest =~= xs);
    }
}

/// What `parse_strings` reads is the canonical array of the strings it gives.
pub proof fn lemma_parse_strings_sound(s: Seq<char>, pos: int)
    ensures
        match parse_strings(s, pos) {
            Some((xs, end)) => 0 <= pos < end <= s.len() && s.subrange(pos, end) == strings_json(
                xs,
            ),
            None => true,
        },
{
    if let Some((xs, end)) = parse_strings(s, pos) {
        if s[pos + 1] == ']' {
            assert(joined(quoted_all(xs)) =~= Seq::<char>::empty());
            assert(s.subrange(pos, end) =~= strings_json(xs));
        } else {
            lemma_parse_strings_rest_sound(s, pos + 1);
            assert(s.subrange(pos, end) =~= seq!['['] + s.subrange(pos + 1, end));
            assert(strings_json(xs) =~= seq!['['] + (joined(quoted_all(xs)) + seq![']']));
        }
    }
}

/// Where the canonical array of `xs` stands at `pos`, `parse_strings` reads
/// `xs`.
pub proof fn lemma_parse_strings_complete(s: Seq<char>, pos: int, xs: Seq<Seq<char>>)
    requires
        has_at(s, pos, strings_json(xs)),
    ensures
        parse_strings(s, pos) == Some((xs, pos + strings_json(xs).len())),
{
    let body = joined(quoted_all(xs)) + seq![']'];
    assert(strings_json(xs) =~= seq!['['] + body);
    lemma_has_at_concat(s, pos, seq!['['], body);
    lemma_has_at_first(s, pos, seq!['[']);
    lemma_has_at_first(s, pos + 1, body);
    if xs.len() == 0 {
        assert(joined(quoted_all(xs)) =~= Seq::<char>::empty());
        assert(body[0] == ']');
        assert(xs =~= Seq::<Seq<char>>::empty());
    } else {
        assert(quoted_all(xs)[0] == quoted(xs[0]));
        if xs.len() == 1 {
            assert(body[0] == quoted(xs[0])[0]);
        } else {
            assert(body[0] == quoted(xs[0])[0]);
        }
        assert(body[0] == '"');
        lemma_parse_strings_rest_complete(s, pos + 1, xs);
    }
}

/// Appends the canonical JSON array of `strings` to `out`.
pub fn push_strings(out: &mut Vec<char>, strings: &Vec<String>)
    ensures
        final(out)@ == old(out)@ + strings_json(strings_view(strings@)),
{
    let ghost before = out@;
    let ghost xs = strings_view(strings@);
    out.push('[');
    let mut i: usize = 0;
    while i < strings.len()
        invariant
            i <= strings.len(),
            xs == strings_view(strings@),
            out@ == before + seq!['['] + joined(quoted_all(xs.take(i as int))),
        decreases strings.len() - i,
    {
        if i > 0 {
            out.push(',');
        }
        let item = chars_of(strings[i].as_str());
        push_quoted(out, &item);
        proof {
            assert(item@ == xs[i as int]);
            let done = quoted_all(xs.take(i as int));
            lemma_joined_push(done, quoted(xs[i as int]));
            assert(quoted_all(xs.take(i + 1)) =~= done.push(quoted(xs[i as int])));
            assert(out@ =~= before + seq!['['] + joined(quoted_all(xs.take(i + 1))));
        }
        i += 1;
    }
    out.push(']');
    proof {
        assert(xs.take(strings.len() as int) =~= xs);
        assert(out@ =~= before + strings_json(xs));
    }
}

/// Reads the array of strings that starts at `pos`.
pub fn parse_strings_at(s: &Vec<char>, pos: usize) -> (r: Option<(Vec<String>, usize)>)
    ensures
        match r {
            Some((xs, end)) => parse_strings(s@, pos as int) == Some(
                (strings_view(xs@), end as int),
            ),
            None => parse_strings(s@, pos as int) is None,
        },
{
    if pos >= s.len() || s.len() - pos < 2 || s[pos] != '[' {
        return None;
    }
    let mut acc: Vec<String> = Vec::new();
    if s[pos + 1] == ']' {
        assert(strings_view(acc@) =~= Seq::<Seq<char>>::empty());
        return Some((acc, pos + 2));
    }
    let mut i: usize = pos + 1;
    loop
        invariant
            pos < i <= s.len(),
            pos + 1 < s.len(),
            s@[pos as int] == '[',
            s@[pos + 1] != ']',
            parse_strings_rest(s@, pos + 1) == match parse_strings_rest(s@, i as int) {
                None => None::<(Seq<Seq<char>>, int)>,
                Some((rest, end)) => Some((strings_view(acc@) + rest, end)),
            },
        decreases s.len() - i,
    {
        let (x, next) = match parse_quoted_at(s, i) {
            None => {
                return None;
            },
            Some(found) => found,
        };
        proof {
            lemma_parse_quoted_sound(s@, i as int);
        }
        if next >= s.len() {
            return None;
        }
        let ghost before = strings_view(acc@);
        acc.push(string_from_chars(&x));
        proof {
            assert(strings_view(acc@) =~= before.push(x@));
        }
        if s[next] == ']' {
            proof {
                assert(before + seq![x@] =~= strings_view(acc@));
            }
            return Some((acc, next + 1));
        } else if s[next] == ',' {
            proof {
                match parse_strings_rest(s@, next + 1) {
                    None => {},
                    Some((rest, end)) => {
                        assert(before + (seq![x@] + rest) =~= strings_view(acc@) + rest);
                    },
                }
            }
            i = next + 1;
        } else {
            return None;
        }
    }
}

/// The decimal text of each of `units`.
pub open spec fn decimal_all(units: Seq<u32>) -> Seq<Seq<char>> {
    Seq::new(units.len(), |i: int| decimal(units[i] as nat))
}

/// The canonical JSON array of payout units.
pub open spec fn units_json(units: Seq<u32>) -> Seq<char> {
    list_text(decimal_all(units))
}

/// Reads decimal numbers with commas between them, up to the closing
/// bracket: the numbers and the position behind the bracket.
pub open spec fn parse_units_rest(s: Seq<char>, pos: int) -> Option<(Seq<u32>, int)>
    decreases s.len() - pos,
{
    match parse_decimal(s, pos, u32::MAX as nat) {
        None => None,
        Some((v, next)) => if next <= pos || next >= s.len() {
            None
        } else if s[next] == ']' {
            Some((seq![v as u32], next + 1))
        } else if s[next] == ',' {
            match parse_units_rest(s, next + 1) {
                None => None,
                Some((rest, end)) => Some((seq![v as u32] + rest, end)),
            }
        } else {
            None
        },
    }
}

/// Reads the array of payout units that starts at `pos`: the units and the
/// position behind the array.
pub open spec fn parse_units(s: Seq<char>, pos: int) -> Option<(Seq<u32>, int)> {
    if pos < 0 || pos + 1 >= s.len() || s[pos] != '[' {
        None
    } else if s[pos + 1] == ']' {
        Some((Seq::<u32>::empty(), pos + 2))
    } else {
        parse_units_rest(s, pos + 1)
    }
}

/// What `parse_units_rest` reads is the joined decimal texts of the units it
/// gives, and the closing bracket.
pub proof fn lemma_parse_units_rest_sound(s: Seq<char>, pos: int)
    requires
        0 <= pos <= s.len(),
    ensures
        match parse_units_rest(s, pos) {
            Some((xs, end)) => {
                &&& xs.len() > 0
                &&& 0 <= pos < end <= s.len()
                &&& s.subrange(pos, end) == joined(decimal_all(xs)) + seq![']']
            },
            None => true,
        },
    decreases s.len() - pos,
{
    if let Some((xs, end)) = parse_units_rest(s, pos) {
        let (v, next) = parse_decimal(s, pos, u32::MAX as nat)->0;
        lemma_parse_decimal_sound(s, pos, u32::MAX as nat);
        let x = v as u32;
        if s[next] == ']' {
            assert(decimal_all(xs)[0] == decimal(v));
            assert(s.subrange(pos, end) =~= s.subrange(pos, next) + seq![']']);
        } else {
            let (rest, _) = parse_units_rest(s, next + 1)->0;
            lemma_parse_units_rest_sound(s, next + 1);
            assert(xs == seq![x] + rest);
            let q = decimal_all(xs);
            assert(q[0] == decimal(v));
            assert(q.skip(1) =~= decimal_all(rest));
            assert(s.subrange(pos, end) =~= s.subrange(pos, next) + seq![','] + s.subrange(
                next + 1,
                end,
            ));
            assert(decimal(v) + seq![','] + (joined(decimal_all(rest)) + seq![']']) =~= (decimal(v)
                + seq![','] + joined(decimal_all(rest))) + seq![']']);
        }
    }
}

/// Where the joined decimal texts of `xs` and a closing bracket stand at
/// `pos`, `parse_units_rest` reads `xs`.
pub proof fn lemma_parse_units_rest_complete(s: Seq<char>, pos: int, xs: Seq<u32>)
    requires
        xs.len() > 0,
        has_at(s, pos, joined(decimal_all(xs)) + seq![']']),
    ensures
        parse_units_rest(s, pos) == Some((xs, pos + joined(decimal_all(xs)).len() + 1)),
    decreases xs.len(),
{
    let q = decimal_all(xs);
    let x = xs[0];
    let d = decimal(x as nat);
    assert(q[0] == d);
    if xs.len() == 1 {
        lemma_has_at_concat(s, pos, d, seq![']']);
        lemma_has_at_first(s, pos + d.len(), seq![']']);
        lemma_parse_decimal_complete(s, pos, u32::MAX as nat, x as nat);
        assert(seq![x] =~= xs);
    } else {
        let rest = xs.skip(1);
        assert(q.skip(1) =~= decimal_all(rest));
        let tail = joined(decimal_all(rest)) + seq![']'];
        assert(joined(q) + seq![']'] =~= d + (seq![','] + tail));
        lemma_has_at_concat(s, pos, d, seq![','] + tail);
        lemma_has_at_concat(s, pos + d.len(), seq![','], tail);
        lemma_has_at_first(s, pos + d.len(), seq![',']);
        lemma_parse_decimal_complete(s, pos, u32::MAX as nat, x as nat);
        lemma_parse_units_rest_complete(s, pos + d.len() + 1, rest);
        assert(seq![x] + rest =~= xs);
    }
}

/// What `parse_units` reads is the canonical array of the units it gives.
pub proof fn lemma_parse_units_sound(s: Seq<char>, pos: int)
    ensures
        match parse_units(s, pos) {
            Some((xs, end)) => 0 <= pos < end <= s.len() && s.subrange(pos, end) == units_json(xs),
            None => true,
        },
{
    if let Some((xs, end)) = parse_units(s, pos) {
        if s[pos + 1] == ']' {
            assert(joined(decimal_all(xs)) =~= Seq::<char>::empty());
            assert(s.subrange(pos, end) =~= units_json(xs));
        } else {
            lemma_parse_units_rest_sound(s, pos + 1);
            assert(s.subrange(pos, end) =~= seq!['['] + s.subrange(pos + 1, end));
            assert(units_json(xs) =~= seq!['['] + (joined(decimal_all(xs)) + seq![']']));
        }
    }
}

/// Where the canonical array of `xs` stands at `pos`, `parse_units` reads
/// `xs`.
pub proof fn lemma_parse_units_complete(s: Seq<char>, pos: int, xs: Seq<u32>)
    requires
        has_at(s, pos, units_json(xs)),
    ensures
        parse_units(s, pos) == Some((xs, pos + units_json(xs).len())),
{
    let body = joined(decimal_all(xs)) + seq![']'];
    assert(units_json(xs) =~= seq!['['] + body);
    lemma_has_at_concat(s, pos, seq!['['], body);
    lemma_has_at_first(s, pos, seq!['[']);
    lemma_has_at_first(s, pos + 1, body);
    if xs.len() == 0 {
        assert(joined(decimal_all(xs)) =~= Seq::<char>::empty());
        assert(body[0] == ']');
        assert(xs =~= Seq::<u32>::empty());
    } else {
        let d = decimal(xs[0] as nat);
        assert(decimal_all(xs)[0] == d);
        lemma_decimal_is_decimal(xs[0] as nat);
        assert(body[0] == d[0]);
        assert(is_digit(d[0]));
        lemma_parse_units_rest_complete(s, pos + 1, xs);
    }
}

/// Appends the canonical JSON array of `units` to `out`.
pub fn push_units(out: &mut Vec<char>, units: &Vec<u32>)
    ensures
        final(out)@ == old(out)@ + units_json(units@),
{
    let ghost before = out@;
    out.push('[');
    let mut i: usize = 0;
    while i < units.len()
        invariant
            i <= units.len(),
            out@ == before + seq!['['] + joined(decimal_all(units@.take(i as int))),
        decreases units.len() - i,
    {
        if i > 0 {
            out.push(',');
        }
        push_decimal(out, units[i] as u64);
        proof {
            let done = decimal_all(units@.take(i as int));
            lemma_joined_push(done, decimal(units@[i as int] as nat));
            assert(decimal_all(units@.take(i + 1)) =~= done.push(decimal(units@[i as int] as nat)));
            assert(out@ =~= before + seq!['['] + joined(decimal_all(units@.take(i + 1))));
        }
        i += 1;
    }
    out.push(']');
    proof {
        assert(units@.take(units.len() as int) =~= units@);
        assert(out@ =~= before + units_json(units@));
    }
}

/// Reads the array of payout units that starts at `pos`.
pub fn parse_units_at(s: &Vec<char>, pos: usize) -> (r: Option<(Vec<u32>, usize)>)
    ensures
        match r {
            Some((xs, end)) => parse_units(s@, pos as int) == Some((xs@, end as int)),
            None => parse_units(s@, pos as int) is None,
        },
{
    if pos >= s.len() || s.len() - pos < 2 || s[pos] != '[' {
        return None;
    }
    let mut acc: Vec<u32> = Vec::new();
    if s[pos + 1] == ']' {
        return Some((acc, pos + 2));
    }
    let mut i: usize = pos + 1;
    loop
        invariant
            pos < i <= s.len(),
            pos + 1 < s.len(),
            s@[pos as int] == '[',
            s@[pos + 1] != ']',
            parse_units_rest(s@, pos + 1) == match parse_units_rest(s@, i as int) {
                None => None::<(Seq<u32>, int)>,
                Some((rest, end)) => Some((acc@ + rest, end)),
            },
        decreases s.len() - i,
    {
        let (x, next) = match parse_decimal_at(s, i, 0xffff_ffff) {
            None => {
                return None;
            },
            Some(found) => found,
        };
        proof {
            lemma_parse_decimal_sound(s@, i as int, u32::MAX as nat);
        }
        if next >= s.len() {
            return None;
        }
        let ghost before = acc@;
        acc.push(x as u32);
        if s[next] == ']' {
            proof {
                assert(before + seq![x as u32] =~= acc@);
            }
            return Some((acc, next + 1));
        } else if s[next] == ',' {
            proof {
                match parse_units_rest(s@, next + 1) {
                    None => {},
                    Some((rest, end)) => {
                        assert(before + (seq![x as u32] + rest) =~= acc@ + rest);
                    },
                }
            }
            i = next + 1;
        } else {
            return None;
        }
    }
}

} // verus!
