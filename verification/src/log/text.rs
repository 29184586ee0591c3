//! Character-level building blocks of the formatters: copying text, decimal
//! numbers, the last component of a path, and text made safe for one line.

use vstd::prelude::*;

verus! {

/// `String::push` appends one character to the end of the string.
pub assume_specification[ String::push ](s: &mut String, c: char)
    ensures
        final(s)@ == old(s)@.push(c),
;

/// The characters of `s`, in order.
pub fn chars_of(s: &str) -> (out: Vec<char>)
    ensures
        out@ == s@,
{
    let mut out: Vec<char> = Vec::new();
    for c in it: s.chars()
        invariant
            out@ == s@.take(it.index() as int),
            it.seq() == s@,
    {
        out.push(c);
    }
    out
}

/// The string made of the characters of `chars`, in order.
pub fn string_of(chars: &Vec<char>) -> (out: String)
    ensures
        out@ == chars@,
{
    let mut out = String::new();
    let mut i: usize = 0;
    while i < chars.len()
        invariant
            i <= chars.len(),
            out@ == chars@.take(i as int),
        decreases chars.len() - i,
    {
        out.push(chars[i]);
        i += 1;
    }
    out
}

/// Whether two character lists hold the same characters in the same order.
pub fn same_chars(a: &Vec<char>, b: &Vec<char>) -> (r: bool)
    ensures
        r == (a@ == b@),
{
    if a.len() != b.len() {
        return false;
    }
    let mut i: usize = 0;
    while i < a.len()
        invariant
            i <= a.len(),
            a.len() == b.len(),
            forall|j: int| 0 <= j < i ==> a@[j] == b@[j],
        decreases a.len() - i,
    {
        if a[i] != b[i] {
            return false;
        }
        i += 1;
    }
    proof {
        assert(a@ =~= b@);
    }
    true
}

/// Appends the characters of `more` to `out`.
pub fn push_all(out: &mut Vec<char>, more: &Vec<char>)
    ensures
        final(out)@ == old(out)@ + more@,
{
    let ghost before = out@;
    let mut i: usize = 0;
    while i < more.len()
        invariant
            i <= more.len(),
            out@ == before + more@.take(i as int),
        decreases more.len() - i,
    {
        out.push(more[i]);
        i += 1;
        proof {
            assert(out@ =~= before + more@.take(i as int));
        }
    }
    proof {
        assert(more@.take(more.len() as int) =~= more@);
    }
}

/// Appends the characters of `text` to `out`.
pub fn push_str(out: &mut Vec<char>, text: &str)
    ensures
        final(out)@ == old(out)@ + text@,
{
    let chars = chars_of(text);
    push_all(out, &chars);
}

/// The character of one decimal digit.
pub open spec fn digit_char(d: nat) -> char {
    if d == 0 {
        '0'
    } else if d == 1 {
        '1'
    } else if d == 2 {
        '2'
    } else if d == 3 {
        '3'
    } else if d == 4 {
        '4'
    } else if d == 5 {
        '5'
    } else if d == 6 {
        '6'
    } else if d == 7 {
        '7'
    } else if d == 8 {
        '8'
    } else {
        '9'
    }
}

/// Computes `digit_char`.
pub fn digit(d: u8) -> (c: char)
    requires
        d < 10,
    ensures
        c == digit_char(d as nat),
{
    if d == 0 {
        '0'
    } else if d == 1 {
        '1'
    } else if d == 2 {
        '2'
    } else if d == 3 {
        '3'
    } else if d == 4 {
        '4'
    } else if d == 5 {
        '5'
    } else if d == 6 {
        '6'
    } else if d == 7 {
        '7'
    } else if d == 8 {
        '8'
    } else {
        '9'
    }
}

/// The decimal numeral of `n`, without leading zeros.
pub open spec fn decimal(n: nat) -> Seq<char>
    decreases n,
{
    if n < 10 {
        seq![digit_char(n)]
    } else {
        decimal(n / 10).push(digit_char(n % 10))
    }
}

/// The decimal numeral of an integer, with a minus sign where it is negative.
pub open spec fn signed_decimal(i: int) -> Seq<char> {
    if i < 0 {
        seq!['-'] + decimal((-i) as nat)
    } else {
        decimal(i as nat)
    }
}

/// The three digits of a number below one thousand, zeros included.
pub open spec fn three_digits(n: nat) -> Seq<char> {
    seq![digit_char(n / 100 % 10), digit_char(n / 10 % 10), digit_char(n % 10)]
}

/// The value of a decimal digit; 0 for any other character.
pub open spec fn digit_value(c: char) -> nat {
    if c == '1' {
        1
    } else if c == '2' {
        2
    } else if c == '3' {
        3
    } else if c == '4' {
        4
    } else if c == '5' {
        5
    } else if c == '6' {
        6
    } else if c == '7' {
        7
    } else if c == '8' {
        8
    } else if c == '9' {
        9
    } else {
        0
    }
}

/// The number that a row of digits stands for.
pub open spec fn numeral_value(digits: Seq<char>) -> nat
    decreases digits.len(),
{
    if digits.len() == 0 {
        0
    } else {
        numeral_value(digits.drop_last()) * 10 + digit_value(digits.last())
    }
}

/// The integer that a numeral with an optional minus sign stands for.
pub open spec fn signed_value(numeral: Seq<char>) -> int {
    if numeral.len() > 0 && numeral[0] == '-' {
        -(numeral_value(numeral.drop_first()) as int)
    } else {
        numeral_value(numeral) as int
    }
}

/// A decimal numeral reads back to its number: no two numbers share one.
pub proof fn law_decimal_reads_back(n: nat)
    ensures
        numeral_value(decimal(n)) == n,
        decimal(n).len() > 0,
        decimal(n)[0] != '-',
    decreases n,
{
    if n >= 10 {
        law_decimal_reads_back(n / 10);
        assert(decimal(n).drop_last() =~= decimal(n / 10));
        assert(decimal(n)[0] == decimal(n / 10)[0]);
    } else {
        assert(decimal(n).drop_last() =~= Seq::<char>::empty());
        assert(numeral_value(decimal(n).drop_last()) == 0);
    }
}

/// A signed numeral reads back to its integer.
pub proof fn law_signed_decimal_reads_back(i: int)
    ensures
        signed_value(signed_decimal(i)) == i,
{
    if i < 0 {
        law_decimal_reads_back((-i) as nat);
        assert(signed_decimal(i).drop_first() =~= decimal((-i) as nat));
    } else {
        law_decimal_reads_back(i as nat);
    }
}

/// Appends the decimal numeral of `n`.
pub fn push_decimal(out: &mut Vec<char>, n: u64)
    ensures
        final(out)@ == old(out)@ + decimal(n as nat),
    decreases n,
{
    let ghost before = out@;
    if n >= 10 {
        push_decimal(out, n / 10);
    }
    out.push(digit((n % 10) as u8));
    proof {
        assert(out@ =~= before + decimal(n as nat));
    }
}

/// Appends the decimal numeral of a signed number.
pub fn push_signed(out: &mut Vec<char>, i: i64)
    ensures
        final(out)@ == old(out)@ + signed_decimal(i as int),
{
    let ghost before = out@;
    if i < 0 {
        out.push('-');
        let magnitude: u64 = if i == i64::MIN {
            9223372036854775808u64
        } else {
            (-i) as u64
        };
        push_decimal(out, magnitude);
        proof {
            assert(out@ =~= before + signed_decimal(i as int));
        }
    } else {
        push_decimal(out, i as u64);
    }
}

/// Appends the three digits of `n`.
pub fn push_three_digits(out: &mut Vec<char>, n: u64)
    requires
        n < 1000,
    ensures
        final(out)@ == old(out)@ + three_digits(n as nat),
{
    let ghost before = out@;
    out.push(digit((n / 100 % 10) as u8));
    out.push(digit((n / 10 % 10) as u8));
    out.push(digit((n % 10) as u8));
    proof {
        assert(out@ =~= before + three_digits(n as nat));
    }
}

/// A control character: below the space, or the delete character.
pub open spec fn is_control(c: char) -> bool {
    (c as u32) < 0x20 || c == '\u{7f}'
}

/// Decides `is_control`.
pub fn control(c: char) -> (r: bool)
    ensures
        r == is_control(c),
{
    (c as u32) < 0x20 || c == '\u{7f}'
}

/// A character as it stands in a plain line: a space for a control character.
pub open spec fn plain_char(c: char) -> char {
    if is_control(c) {
        ' '
    } else {
        c
    }
}

/// Text as it stands in a plain line: each control character replaced by one
/// space, every other character kept.
pub open spec fn plain_text(s: Seq<char>) -> Seq<char> {
    s.map_values(|c: char| plain_char(c))
}

/// Appends `plain_text` of `text`.
pub fn push_plain(out: &mut Vec<char>, text: &Vec<char>)
    ensures
        final(out)@ == old(out)@ + plain_text(text@),
{
    let ghost before = out@;
    let mut i: usize = 0;
    while i < text.len()
        invariant
            i <= text.len(),
            out@ == before + plain_text(text@).take(i as int),
        decreases text.len() - i,
    {
        let c = text[i];
        if control(c) {
            out.push(' ');
        } else {
            out.push(c);
        }
        i += 1;
        proof {
            assert(out@ =~= before + plain_text(text@).take(i as int));
        }
    }
    proof {
        assert(plain_text(text@).take(text.len() as int) =~= plain_text(text@));
    }
}

/// Length of a path once the separators and the `.` components at its end
/// are left out.
pub open spec fn trimmed_len(path: Seq<char>) -> nat
    decreases path.len(),
{
    if path.len() == 0 {
        0
    } else if path.last() == '/' {
        trimmed_len(path.drop_last())
    } else if path.last() == '.' && (path.len() == 1 || path[path.len() - 2] == '/') {
        trimmed_len(path.drop_last())
    } else {
        path.len()
    }
}

/// Where the last component of a path starts: behind its last separator, or
/// at the beginning where it has none.
pub open spec fn component_start(path: Seq<char>) -> nat
    decreases path.len(),
{
    if path.len() == 0 || path.last() == '/' {
        path.len()
    } else {
        component_start(path.drop_last())
    }
}

/// The last component of a path, empty where the path has none.
pub open spec fn last_component(path: Seq<char>) -> Seq<char> {
    let trimmed = path.take(trimmed_len(path) as int);
    trimmed.skip(component_start(trimmed) as int)
}

/// The file name of a path: its last component. A path without one, or one
/// that ends in `..`, stands for itself.
pub open spec fn base_name(path: Seq<char>) -> Seq<char> {
    let component = last_component(path);
    if component.len() == 0 || component == seq!['.', '.'] {
        path
    } else {
        component
    }
}

/// Computes `base_name`.
pub fn file_name_of(path: &Vec<char>) -> (name: Vec<char>)
    ensures
        name@ == base_name(path@),
{
    let mut end: usize = path.len();
    proof {
        assert(path@.take(end as int) =~= path@);
    }
    while end > 0 && (path[end - 1] == '/' || (path[end - 1] == '.' && (end == 1 || path[end - 2]
        == '/')))
        invariant
            end <= path.len(),
            trimmed_len(path@) == trimmed_len(path@.take(end as int)),
        decreases end,
    {
        proof {
            assert(path@.take(end as int).drop_last() =~= path@.take(end - 1));
        }
        end -= 1;
    }
    let ghost trimmed = path@.take(end as int);
    proof {
        assert(trimmed_len(trimmed) == end);
        assert(trimmed.take(end as int) =~= trimmed);
    }
    let mut start: usize = end;
    while start > 0 && path[start - 1] != '/'
        invariant
            start <= end <= path.len(),
            trimmed == path@.take(end as int),
            component_start(trimmed) == component_start(trimmed.take(start as int)),
        decreases start,
    {
        proof {
            assert(trimmed.take(start as int).drop_last() =~= trimmed.take(start - 1));
        }
        start -= 1;
    }
    proof {
        assert(component_start(trimmed.take(start as int)) == start);
    }
    let mut name: Vec<char> = Vec::new();
    let mut i: usize = start;
    while i < end
        invariant
            start <= i <= end <= path.len(),
            name@ == path@.subrange(start as int, i as int),
        decreases end - i,
    {
        name.push(path[i]);
        i += 1;
        proof {
            assert(name@ =~= path@.subrange(start as int, i as int));
        }
    }
    proof {
        assert(name@ =~= last_component(path@));
    }
    let parent = name.len() == 2 && name[0] == '.' && name[1] == '.';
    proof {
        assert(parent == (name@ == seq!['.', '.'])) by {
            if parent {
                assert(name@ =~= seq!['.', '.']);
            }
        }
    }
    if name.len() == 0 || parent {
        let mut whole: Vec<char> = Vec::new();
        push_all(&mut whole, path);
        proof {
            assert(whole@ =~= path@);
        }
        whole
    } else {
        name
    }
}

} // verus!
