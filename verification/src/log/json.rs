//! Text inside a structured line: how a string is written between double
//! quotes, and how such text is read back.
//!
//! Written text holds no raw control character, no raw double quote and no
//! lone backslash, so a record stays on one line and its strings end where
//! they should. Reading written text gives the text back.

use vstd::prelude::*;

verus! {

/// The character of one hexadecimal digit, in lower case.
pub open spec fn hex_char(d: nat) -> char {
    if d == 0 {
        '0'
    } else if d == 1 {
        '1'
    } else if d == 2 {
        '2'
    } else if d == 3 {
        '3'
    } else if d == 4 {
        '4'
    } else if d == 5 {
        '5'
    } else if d == 6 {
        '6'
    } else if d == 7 {
        '7'
    } else if d == 8 {
        '8'
    } else if d == 9 {
        '9'
    } else if d == 10 {
        'a'
    } else if d == 11 {
        'b'
    } else if d == 12 {
        'c'
    } else if d == 13 {
        'd'
    } else if d == 14 {
        'e'
    } else {
        'f'
    }
}

/// The value of a hexadecimal digit in lower case, if `c` is one.
pub open spec fn hex_value(c: char) -> Option<nat> {
    if c == '0' {
        Some(0)
    } else if c == '1' {
        Some(1)
    } else if c == '2' {
        Some(2)
    } else if c == '3' {
        Some(3)
    } else if c == '4' {
        Some(4)
    } else if c == '5' {
        Some(5)
    } else if c == '6' {
        Some(6)
    } else if c == '7' {
        Some(7)
    } else if c == '8' {
        Some(8)
    } else if c == '9' {
        Some(9)
    } else if c == 'a' {
        Some(10)
    } else if c == 'b' {
        Some(11)
    } else if c == 'c' {
        Some(12)
    } else if c == 'd' {
        Some(13)
    } else if c == 'e' {
        Some(14)
    } else if c == 'f' {
        Some(15)
    } else {
        None
    }
}

/// Computes `hex_char`.
pub fn hex_digit(d: u8) -> (c: char)
    requires
        d < 16,
    ensures
        c == hex_char(d as nat),
{
    if d == 0 {
        '0'
    } else if d == 1 {
        '1'
    } else if d == 2 {
        '2'
    } else if d == 3 {
        '3'
    } else if d == 4 {
        '4'
    } else if d == 5 {
        '5'
    } else if d == 6 {
        '6'
    } else if d == 7 {
        '7'
    } else if d == 8 {
        '8'
    } else if d == 9 {
        '9'
    } else if d == 10 {
        'a'
    } else if d == 11 {
        'b'
    } else if d == 12 {
        'c'
    } else if d == 13 {
        'd'
    } else if d == 14 {
        'e'
    } else {
        'f'
    }
}

/// How one character is written inside a quoted string: the double quote and
/// the backslash behind a backslash, line feed, carriage return and tab by
/// their letters, any other character below the space as `\u00` and two
/// hexadecimal digits, every other character as it is.
pub open spec fn escape_char(c: char) -> Seq<char> {
    if c == '"' {
        seq!['\\', '"']
    } else if c == '\\' {
        seq!['\\', '\\']
    } else if c == '\n' {
        seq!['\\', 'n']
    } else if c == '\r' {
        seq!['\\', 'r']
    } else if c == '\t' {
        seq!['\\', 't']
    } else if (c as u32) < 0x20 {
        seq!['\\', 'u', '0', '0', hex_char((c as u32 / 16) as nat), hex_char((c as u32 % 16) as nat)]
    } else {
        seq![c]
    }
}

/// How a text is written inside a quoted string: character by character.
pub open spec fn escape_text(s: Seq<char>) -> Seq<char>
    decreases s.len(),
{
    if s.len() == 0 {
        Seq::empty()
    } else {
        escape_char(s[0]) + escape_text(s.drop_first())
    }
}

/// A text between double quotes.
pub open spec fn quoted(s: Seq<char>) -> Seq<char> {
    seq!['"'] + escape_text(s) + seq!['"']
}

/// `c` in front of what reading the rest gave.
pub open spec fn prepend(c: char, rest: Option<Seq<char>>) -> Option<Seq<char>> {
    match rest {
        Some(s) => Some(seq![c] + s),
        None => None,
    }
}

/// Reads the inside of a quoted string back. `None` where the text is not
/// what a quoted string may hold: a raw double quote or control character, a
/// backslash without a known letter behind it, or a `\u` without `00` and two
/// hexadecimal digits that name a character below the space.
pub open spec fn unescape_text(t: Seq<char>) -> Option<Seq<char>>
    decreases t.len(),
{
    if t.len() == 0 {
        Some(Seq::empty())
    } else if t[0] == '\\' {
        if t.len() < 2 {
            None
        } else if t[1] == '"' {
            prepend('"', unescape_text(t.skip(2)))
        } else if t[1] == '\\' {
            prepend('\\', unescape_text(t.skip(2)))
        } else if t[1] == 'n' {
            prepend('\n', unescape_text(t.skip(2)))
        } else if t[1] == 'r' {
            prepend('\r', unescape_text(t.skip(2)))
        } else if t[1] == 't' {
            prepend('\t', unescape_text(t.skip(2)))
        } else if t[1] == 'u' && t.len() >= 6 && t[2] == '0' && t[3] == '0' {
            match (hex_value(t[4]), hex_value(t[5])) {
                (Some(high), Some(low)) => if 16 * high + low < 0x20 {
                    prepend(((16 * high + low) as u8) as char, unescape_text(t.skip(6)))
                } else {
                    None
                },
                _ => None,
            }
        } else {
            None
        }
    } else if t[0] == '"' || (t[0] as u32) < 0x20 {
        None
    } else {
        prepend(t[0], unescape_text(t.skip(1)))
    }
}

/// Writing is done piece by piece: the text of `a` followed by `b` is the
/// text of `a` followed by the text of `b`.
pub proof fn lemma_escape_text_concat(a: Seq<char>, b: Seq<char>)
    ensures
        escape_text(a + b) == escape_text(a) + escape_text(b),
    decreases a.len(),
{
    if a.len() == 0 {
        assert(a + b =~= b);
        assert(escape_text(a) + escape_text(b) =~= escape_text(b));
    } else {
        lemma_escape_text_concat(a.drop_first(), b);
        assert((a + b).drop_first() =~= a.drop_first() + b);
        assert((a + b)[0] == a[0]);
        assert(escape_char(a[0]) + (escape_text(a.drop_first()) + escape_text(b)) =~= (escape_char(
            a[0],
        ) + escape_text(a.drop_first())) + escape_text(b));
    }
}

/// Written text with one more character.
pub proof fn lemma_escape_text_push(s: Seq<char>, c: char)
    ensures
        escape_text(s.push(c)) == escape_text(s) + escape_char(c),
{
    lemma_escape_text_concat(s, seq![c]);
    assert(s.push(c) =~= s + seq![c]);
    assert(seq![c].drop_first() =~= Seq::<char>::empty());
    assert(escape_text(Seq::<char>::empty()) =~= Seq::<char>::empty());
    assert(seq![c][0] == c);
    assert(escape_text(seq![c]) =~= escape_char(c));
}

/// Hexadecimal digits read back to their value.
pub proof fn lemma_hex_round_trip(d: nat)
    requires
        d < 16,
    ensures
        hex_value(hex_char(d)) == Some(d),
{
}

/// Reading what was written for one character, followed by more text, gives
/// the character followed by what reading the rest gives.
pub proof fn lemma_unescape_char(c: char, rest: Seq<char>)
    ensures
        unescape_text(escape_char(c) + rest) == prepend(c, unescape_text(rest)),
{
    let t = escape_char(c) + rest;
    if c == '"' || c == '\\' || c == '\n' || c == '\r' || c == '\t' {
        assert(t.skip(2) =~= rest);
    } else if (c as u32) < 0x20 {
        let high = (c as u32 / 16) as nat;
        let low = (c as u32 % 16) as nat;
        lemma_hex_round_trip(high);
        lemma_hex_round_trip(low);
        assert(t.skip(6) =~= rest);
        assert(t[4] == hex_char(high));
        assert(t[5] == hex_char(low));
        assert(16 * high + low == c as u32);
        assert(((16 * high + low) as u8) as char == c);
    } else {
        assert(t.skip(1) =~= rest);
    }
}

/// Reading written text gives the text back, whatever it holds.
pub proof fn law_unescape_escape(s: Seq<char>)
    ensures
        unescape_text(escape_text(s)) == Some(s),
    decreases s.len(),
{
    if s.len() > 0 {
        law_unescape_escape(s.drop_first());
        lemma_unescape_char(s[0], escape_text(s.drop_first()));
        assert(seq![s[0]] + s.drop_first() =~= s);
    }
}

/// What is written for one character holds no control character and no
/// double quote but behind a backslash.
pub proof fn lemma_escape_char_clean(c: char)
    ensures
        forall|i: int|
            0 <= i < escape_char(c).len() ==> (#[trigger] escape_char(c)[i] as u32) >= 0x20,
        escape_char(c).len() >= 1,
{
}

/// Written text holds no control character: neither a line feed nor any
/// other character below the space.
pub proof fn law_escape_text_clean(s: Seq<char>)
    ensures
        forall|i: int| 0 <= i < escape_text(s).len() ==> (#[trigger] escape_text(s)[i] as u32) >= 0x20,
    decreases s.len(),
{
    if s.len() > 0 {
        law_escape_text_clean(s.drop_first());
        lemma_escape_char_clean(s[0]);
        let head = escape_char(s[0]);
        let tail = escape_text(s.drop_first());
        assert forall|i: int| 0 <= i < escape_text(s).len() implies (#[trigger] escape_text(s)[i] as u32)
            >= 0x20 by {
            if i < head.len() {
                assert(escape_text(s)[i] == head[i]);
            } else {
                assert(escape_text(s)[i] == tail[i - head.len()]);
            }
        }
    }
}

/// Appends what is written for one character.
pub fn push_escaped_char(out: &mut Vec<char>, c: char)
    ensures
        final(out)@ == old(out)@ + escape_char(c),
{
    let ghost before = out@;
    if c == '"' {
        out.push('\\');
        out.push('"');
    } else if c == '\\' {
        out.push('\\');
        out.push('\\');
    } else if c == '\n' {
        out.push('\\');
        out.push('n');
    } else if c == '\r' {
        out.push('\\');
        out.push('r');
    } else if c == '\t' {
        out.push('\\');
        out.push('t');
    } else if (c as u32) < 0x20 {
        let code = c as u32;
        out.push('\\');
        out.push('u');
        out.push('0');
        out.push('0');
        out.push(hex_digit((code / 16) as u8));
        out.push(hex_digit((code % 16) as u8));
    } else {
        out.push(c);
    }
    proof {
        assert(out@ =~= before + escape_char(c));
    }
}

/// Appends the written form of `text`.
pub fn push_escaped(out: &mut Vec<char>, text: &Vec<char>)
    ensures
        final(out)@ == old(out)@ + escape_text(text@),
{
    let ghost before = out@;
    let mut i: usize = 0;
    proof {
        assert(out@ =~= before + escape_text(text@.take(0)));
    }
    while i < text.len()
        invariant
            i <= text.len(),
            out@ == before + escape_text(text@.take(i as int)),
        decreases text.len() - i,
    {
        let ghost so_far = out@;
        push_escaped_char(out, text[i]);
        proof {
            lemma_escape_text_push(text@.take(i as int), text@[i as int]);
            assert(text@.take(i as int).push(text@[i as int]) =~= text@.take(i + 1));
            assert(out@ =~= before + escape_text(text@.take(i + 1)));
        }
        i += 1;
    }
    proof {
        assert(text@.take(text.len() as int) =~= text@);
    }
}

/// Appends `text` between double quotes.
pub fn push_quoted(out: &mut Vec<char>, text: &Vec<char>)
    ensures
        final(out)@ == old(out)@ + quoted(text@),
{
    let ghost before = out@;
    out.push('"');
    push_escaped(out, text);
    out.push('"');
    proof {
        assert(out@ =~= before + quoted(text@));
    }
}

} // verus!
