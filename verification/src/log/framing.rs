//! What holds of every rendered line: it is one line, and a structured line
//! is one record.

use vstd::prelude::*;
use crate::log::{AdvancedLogLevel, LogLevel};
use crate::log::event::EventView;
use crate::log::formatter::{
    category_text,
    category_value,
    color_end,
    color_start,
    json_head,
    json_ids,
    json_line,
    json_object,
    json_origin,
    json_payload,
    level_name,
    member,
    painted,
    plain_line,
    plain_origin,
    plain_payload,
    plain_prefix,
    render,
    timestamp_text,
    FieldNamesView,
    FormatterView,
};
use crate::log::json::{escape_text, law_escape_text_clean, law_unescape_escape, quoted, unescape_text};
use crate::log::text::{
    base_name,
    decimal,
    is_control,
    plain_text,
    signed_decimal,
    three_digits,
};

verus! {

/// Text that cannot break a line: no character below the space, but for the
/// escape character where colour is on.
pub open spec fn tame(s: Seq<char>, colored: bool) -> bool {
    forall|i: int|
        0 <= i < s.len() ==> ((#[trigger] s[i]) as u32) >= 0x20 || (colored && s[i] == '\u{1b}')
}

/// Tame text followed by tame text is tame.
pub proof fn lemma_tame_concat(a: Seq<char>, b: Seq<char>, colored: bool)
    requires
        tame(a, colored),
        tame(b, colored),
    ensures
        tame(a + b, colored),
{
    assert forall|i: int| 0 <= i < (a + b).len() implies ((#[trigger] (a + b)[i]) as u32) >= 0x20 || (
    colored && (a + b)[i] == '\u{1b}') by {
        if i < a.len() {
            assert((a + b)[i] == a[i]);
        } else {
            assert((a + b)[i] == b[i - a.len()]);
        }
    }
}

/// Text that is tame without colour is tame with it.
pub proof fn lemma_tame_weaken(a: Seq<char>, colored: bool)
    requires
        tame(a, false),
    ensures
        tame(a, colored),
{
}

/// A decimal numeral is tame.
pub proof fn lemma_decimal_tame(n: nat)
    ensures
        tame(decimal(n), false),
        decimal(n).len() > 0,
    decreases n,
{
    if n >= 10 {
        lemma_decimal_tame(n / 10);
        lemma_tame_concat(decimal(n / 10), seq![crate::log::text::digit_char(n % 10)], false);
        assert(decimal(n) =~= decimal(n / 10) + seq![crate::log::text::digit_char(n % 10)]);
    }
}

/// A signed decimal numeral is tame.
pub proof fn lemma_signed_tame(i: int)
    ensures
        tame(signed_decimal(i), false),
{
    if i < 0 {
        lemma_decimal_tame((-i) as nat);
        lemma_tame_concat(seq!['-'], decimal((-i) as nat), false);
    } else {
        lemma_decimal_tame(i as nat);
    }
}

/// Text made for a plain line is tame and holds no control character.
pub proof fn lemma_plain_text_tame(s: Seq<char>)
    ensures
        tame(plain_text(s), false),
        forall|i: int| 0 <= i < plain_text(s).len() ==> !is_control(#[trigger] plain_text(s)[i]),
{
}

/// Quoted text is tame.
pub proof fn lemma_quoted_tame(s: Seq<char>)
    ensures
        tame(quoted(s), false),
{
    law_escape_text_clean(s);
    assert(tame(escape_text(s), false));
    lemma_tame_concat(seq!['"'], escape_text(s), false);
    lemma_tame_concat(seq!['"'] + escape_text(s), seq!['"'], false);
}

/// The name of a level is tame.
pub proof fn lemma_level_name_tame(level: LogLevel)
    ensures
        tame(level_name(level), false),
        level_name(level).len() > 0,
{
}

/// Painting keeps tame text tame where colour is on, and changes nothing
/// where it is off.
pub proof fn lemma_painted_tame(text: Seq<char>, severity: AdvancedLogLevel, colored: bool)
    requires
        tame(text, false),
    ensures
        tame(painted(text, severity, colored), colored),
{
    if colored {
        assert(tame(color_start(severity), true));
        assert(tame(color_end(severity), true));
        lemma_tame_concat(color_start(severity), text, true);
        lemma_tame_concat(color_start(severity) + text, color_end(severity), true);
    }
}

/// The time of a plain line is tame.
pub proof fn lemma_timestamp_tame(ms: nat)
    ensures
        tame(timestamp_text(ms), false),
{
    lemma_decimal_tame(ms / 1000);
    assert(tame(three_digits(ms % 1000), false));
    lemma_tame_concat(decimal(ms / 1000), seq!['.'], false);
    lemma_tame_concat(decimal(ms / 1000) + seq!['.'], three_digits(ms % 1000), false);
}

/// The start of a plain line is tame.
pub proof fn lemma_plain_prefix_tame(e: EventView)
    ensures
        tame(plain_prefix(e), false),
{
    let a = timestamp_text(e.timestamp_ms);
    let b = a + seq![' '];
    let c = b + signed_decimal(e.process_id);
    let d = c + seq!['('];
    let f = d + signed_decimal(e.thread_id);
    lemma_timestamp_tame(e.timestamp_ms);
    lemma_signed_tame(e.process_id);
    lemma_signed_tame(e.thread_id);
    lemma_tame_concat(a, seq![' '], false);
    lemma_tame_concat(b, signed_decimal(e.process_id), false);
    lemma_tame_concat(c, seq!['('], false);
    lemma_tame_concat(d, signed_decimal(e.thread_id), false);
    lemma_tame_concat(f, seq![')', ' '], false);
}

/// The origin of a plain line is tame.
pub proof fn lemma_plain_origin_tame(e: EventView)
    ensures
        tame(plain_origin(e), false),
{
    let a = seq![' ', '['];
    let b = a + plain_text(category_text(e.category));
    let c = b + seq![']', ' '];
    let d = c + plain_text(base_name(e.file_name));
    let f = d + seq![':'];
    lemma_plain_text_tame(category_text(e.category));
    lemma_plain_text_tame(base_name(e.file_name));
    lemma_decimal_tame(e.line_number);
    lemma_tame_concat(a, plain_text(category_text(e.category)), false);
    lemma_tame_concat(b, seq![']', ' '], false);
    lemma_tame_concat(c, plain_text(base_name(e.file_name)), false);
    lemma_tame_concat(d, seq![':'], false);
    lemma_tame_concat(f, decimal(e.line_number), false);
}

/// The end of a plain line without its line feed.
pub open spec fn plain_payload_body(e: EventView) -> Seq<char> {
    seq![' '] + plain_text(e.function_name) + seq![' '] + plain_text(e.message)
}

/// The end of a plain line is tame up to its line feed, and the character
/// before the line feed is no control character.
pub proof fn lemma_plain_payload_tame(e: EventView)
    ensures
        plain_payload(e) == plain_payload_body(e) + seq!['\n'],
        tame(plain_payload_body(e), false),
        plain_payload_body(e).len() > 0,
        !is_control(plain_payload_body(e).last()),
{
    let a = seq![' '];
    let b = a + plain_text(e.function_name);
    let c = b + seq![' '];
    let body = plain_payload_body(e);
    lemma_plain_text_tame(e.function_name);
    lemma_plain_text_tame(e.message);
    lemma_tame_concat(a, plain_text(e.function_name), false);
    lemma_tame_concat(b, seq![' '], false);
    lemma_tame_concat(c, plain_text(e.message), false);
    let message = plain_text(e.message);
    if message.len() == 0 {
        assert(body.last() == ' ');
    } else {
        assert(body.last() == message[message.len() - 1]);
    }
}

/// A member of an object is tame where its value is.
pub proof fn lemma_member_tame(name: Seq<char>, value: Seq<char>)
    requires
        tame(value, false),
    ensures
        tame(member(name, value), false),
{
    lemma_quoted_tame(name);
    lemma_tame_concat(quoted(name), seq![':'], false);
    lemma_tame_concat(quoted(name) + seq![':'], value, false);
}

/// The object of an event is tame, and it ends with its closing brace.
pub proof fn lemma_json_object_tame(e: EventView, names: FieldNamesView)
    ensures
        tame(json_object(e, names), false),
        json_object(e, names).len() > 0,
        json_object(e, names).last() == '}',
{
    let comma = seq![','];
    lemma_decimal_tame(e.timestamp_ms);
    lemma_decimal_tame(e.line_number);
    lemma_signed_tame(e.process_id);
    lemma_signed_tame(e.thread_id);
    lemma_quoted_tame(level_name(e.level));
    lemma_quoted_tame(base_name(e.file_name));
    lemma_quoted_tame(e.function_name);
    lemma_quoted_tame(e.message);
    match e.category {
        Some(c) => {
            lemma_quoted_tame(c);
        },
        None => {},
    }
    assert(tame(category_value(e.category), false));
    let m1 = member(names.timestamp, decimal(e.timestamp_ms));
    let m2 = member(names.level, quoted(level_name(e.level)));
    let m3 = member(names.pid, signed_decimal(e.process_id));
    let m4 = member(names.tid, signed_decimal(e.thread_id));
    let m5 = member(names.category, category_value(e.category));
    let m6 = member(names.file, quoted(base_name(e.file_name)));
    let m7 = member(names.line, decimal(e.line_number));
    let m8 = member(names.function, quoted(e.function_name));
    let m9 = member(names.message, quoted(e.message));
    lemma_member_tame(names.timestamp, decimal(e.timestamp_ms));
    lemma_member_tame(names.level, quoted(level_name(e.level)));
    lemma_member_tame(names.pid, signed_decimal(e.process_id));
    lemma_member_tame(names.tid, signed_decimal(e.thread_id));
    lemma_member_tame(names.category, category_value(e.category));
    lemma_member_tame(names.file, quoted(base_name(e.file_name)));
    lemma_member_tame(names.line, decimal(e.line_number));
    lemma_member_tame(names.function, quoted(e.function_name));
    lemma_member_tame(names.message, quoted(e.message));
    assert(tame(json_head(e, names), false)) by {
        lemma_tame_concat(seq!['{'], m1, false);
        lemma_tame_concat(seq!['{'] + m1, comma, false);
        lemma_tame_concat(seq!['{'] + m1 + comma, m2, false);
        lemma_tame_concat(seq!['{'] + m1 + comma + m2, comma, false);
    }
    assert(tame(json_ids(e, names), false)) by {
        lemma_tame_concat(m3, comma, false);
        lemma_tame_concat(m3 + comma, m4, false);
        lemma_tame_concat(m3 + comma + m4, comma, false);
    }
    assert(tame(json_origin(e, names), false)) by {
        lemma_tame_concat(m5, comma, false);
        lemma_tame_concat(m5 + comma, m6, false);
        lemma_tame_concat(m5 + comma + m6, comma, false);
        lemma_tame_concat(m5 + comma + m6 + comma, m7, false);
        lemma_tame_concat(m5 + comma + m6 + comma + m7, comma, false);
    }
    assert(tame(json_payload(e, names), false)) by {
        lemma_tame_concat(m8, comma, false);
        lemma_tame_concat(m8 + comma, m9, false);
        lemma_tame_concat(m8 + comma + m9, seq!['}'], false);
    }
    lemma_tame_concat(json_head(e, names), json_ids(e, names), false);
    lemma_tame_concat(json_head(e, names) + json_ids(e, names), json_origin(e, names), false);
    lemma_tame_concat(
        json_head(e, names) + json_ids(e, names) + json_origin(e, names),
        json_payload(e, names),
        false,
    );
    assert(json_payload(e, names).last() == '}');
}

/// Whether a formatter colours its lines.
pub open spec fn colors(formatter: FormatterView) -> bool {
    match formatter {
        FormatterView::Plain { colored } => colored,
        FormatterView::Json { colored, .. } => colored,
    }
}

/// Every rendered line is one line: it ends with a line feed, holds no other
/// line feed nor any other character below the space (but for the escape
/// character of the colour sequences, where the formatter colours), and the
/// character before the line feed is no control character.
pub proof fn law_rendered_line_is_one_line(formatter: FormatterView, e: EventView)
    ensures
        render(formatter, e).len() >= 2,
        render(formatter, e).last() == '\n',
        tame(render(formatter, e).drop_last(), colors(formatter)),
        forall|i: int|
            0 <= i < render(formatter, e).len() - 1 ==> (#[trigger] render(formatter, e)[i]) != '\n',
        !is_control(render(formatter, e)[render(formatter, e).len() - 2]),
{
    let line = render(formatter, e);
    let colored = colors(formatter);
    match formatter {
        FormatterView::Plain { colored } => {
            let level = painted(level_name(e.level), e.severity(), colored);
            let a = plain_prefix(e);
            let b = a + level;
            let c = b + plain_origin(e);
            let body = c + plain_payload_body(e);
            lemma_plain_prefix_tame(e);
            lemma_tame_weaken(plain_prefix(e), colored);
            lemma_level_name_tame(e.level);
            lemma_painted_tame(level_name(e.level), e.severity(), colored);
            lemma_plain_origin_tame(e);
            lemma_tame_weaken(plain_origin(e), colored);
            lemma_plain_payload_tame(e);
            lemma_tame_weaken(plain_payload_body(e), colored);
            lemma_tame_concat(a, level, colored);
            lemma_tame_concat(b, plain_origin(e), colored);
            lemma_tame_concat(c, plain_payload_body(e), colored);
            assert(line =~= body + seq!['\n']);
            assert(line.drop_last() =~= body);
            assert(body.last() == plain_payload_body(e).last());
            assert(line[line.len() - 2] == body.last());
        },
        FormatterView::Json { colored, names } => {
            let object = json_object(e, names);
            let body = painted(object, e.severity(), colored);
            lemma_json_object_tame(e, names);
            lemma_painted_tame(object, e.severity(), colored);
            assert(line =~= body + seq!['\n']);
            assert(line.drop_last() =~= body);
            assert(body.len() > 0);
            assert(body.last() == '}' || body.last() == 'm') by {
                if colored {
                    let end = color_end(e.severity());
                    if end.len() == 0 {
                        assert(body =~= color_start(e.severity()) + object);
                        assert(body.last() == object.last());
                    } else {
                        assert(body.last() == end.last());
                    }
                }
            }
            assert(line[line.len() - 2] == body.last());
        },
    }
    assert forall|i: int| 0 <= i < line.len() - 1 implies (#[trigger] line[i]) != '\n' by {
        assert(line.drop_last()[i] == line[i]);
    }
}

/// One member of a record: its name and the text of its value.
pub struct MemberView {
    pub name: Seq<char>,
    pub value: Seq<char>,
}

/// A string as a record holds it: text between double quotes that reads
/// back to `content`.
pub open spec fn is_string_of(token: Seq<char>, content: Seq<char>) -> bool {
    &&& token.len() >= 2
    &&& token[0] == '"'
    &&& token.last() == '"'
    &&& unescape_text(token.subrange(1, token.len() - 1)) == Some(content)
}

/// A number as a record holds it: the decimal numeral of `value`, which
/// reads back to `value` and to no other number.
pub open spec fn is_number_of(token: Seq<char>, value: int) -> bool {
    token == signed_decimal(value)
}

/// The members of a list, each as its quoted name, a colon and its value,
/// with commas between them.
pub open spec fn members_text(members: Seq<MemberView>) -> Seq<char>
    decreases members.len(),
{
    if members.len() == 0 {
        Seq::empty()
    } else if members.len() == 1 {
        member(members[0].name, members[0].value)
    } else {
        members_text(members.drop_last()) + seq![','] + member(
            members.last().name,
            members.last().value,
        )
    }
}

/// A record: its members between braces.
pub open spec fn record_text(members: Seq<MemberView>) -> Seq<char> {
    seq!['{'] + members_text(members) + seq!['}']
}

/// The members of the record of an event, in the order of the line.
pub open spec fn event_members(e: EventView, names: FieldNamesView) -> Seq<MemberView> {
    seq![
        MemberView { name: names.timestamp, value: decimal(e.timestamp_ms) },
        MemberView { name: names.level, value: quoted(level_name(e.level)) },
        MemberView { name: names.pid, value: signed_decimal(e.process_id) },
        MemberView { name: names.tid, value: signed_decimal(e.thread_id) },
        MemberView { name: names.category, value: category_value(e.category) },
        MemberView { name: names.file, value: quoted(base_name(e.file_name)) },
        MemberView { name: names.line, value: decimal(e.line_number) },
        MemberView { name: names.function, value: quoted(e.function_name) },
        MemberView { name: names.message, value: quoted(e.message) },
    ]
}

/// Quoted text is a string that reads back to what was quoted.
pub proof fn lemma_quoted_is_string(s: Seq<char>)
    ensures
        is_string_of(quoted(s), s),
{
    law_unescape_escape(s);
    let token = quoted(s);
    assert(token.subrange(1, token.len() - 1) =~= escape_text(s));
}

/// A structured line without colour is one record and a line feed. The
/// record holds nine members, in this order: time, level, process id, thread
/// id, category, file, line, function and message, each under the name that
/// the table gives it. Level, file, function and message are strings that
/// read back to the level's name, the last component of the file name, the
/// function name and the message; the category is such a string, or `null`
/// where the event has none; time, ids and line are the numbers of the event.
pub proof fn law_json_line_is_a_record(e: EventView, names: FieldNamesView)
    ensures
        json_line(e, names, false) == record_text(event_members(e, names)) + seq!['\n'],
        event_members(e, names).len() == 9,
        is_number_of(event_members(e, names)[0].value, e.timestamp_ms as int),
        is_string_of(event_members(e, names)[1].value, level_name(e.level)),
        is_number_of(event_members(e, names)[2].value, e.process_id),
        is_number_of(event_members(e, names)[3].value, e.thread_id),
        match e.category {
            Some(c) => is_string_of(event_members(e, names)[4].value, c),
            None => event_members(e, names)[4].value == seq!['n', 'u', 'l', 'l'],
        },
        is_string_of(event_members(e, names)[5].value, base_name(e.file_name)),
        is_number_of(event_members(e, names)[6].value, e.line_number as int),
        is_string_of(event_members(e, names)[7].value, e.function_name),
        is_string_of(event_members(e, names)[8].value, e.message),
        forall|i: int|
            0 <= i < 9 ==> is_string_of(
                quoted((#[trigger] event_members(e, names)[i]).name),
                event_members(e, names)[i].name,
            ),
{
    let members = event_members(e, names);
    lemma_quoted_is_string(level_name(e.level));
    lemma_quoted_is_string(base_name(e.file_name));
    lemma_quoted_is_string(e.function_name);
    lemma_quoted_is_string(e.message);
    match e.category {
        Some(c) => {
            lemma_quoted_is_string(c);
        },
        None => {},
    }
    assert forall|i: int| 0 <= i < 9 implies is_string_of(
        quoted((#[trigger] members[i]).name),
        members[i].name,
    ) by {
        lemma_quoted_is_string(members[i].name);
    }
    lemma_object_is_record(e, names);
}

/// The text of a list with one more member.
proof fn lemma_members_step(members: Seq<MemberView>, k: int)
    requires
        1 <= k < members.len(),
    ensures
        members_text(members.take(k + 1)) == members_text(members.take(k)) + seq![','] + member(
            members[k].name,
            members[k].value,
        ),
{
    assert(members.take(k + 1).drop_last() =~= members.take(k));
    assert(members.take(k + 1).last() == members[k]);
}

/// The text of a list of nine members, written out.
proof fn lemma_members_text_nine(ms: Seq<MemberView>)
    requires
        ms.len() == 9,
    ensures
        members_text(ms) == member(ms[0].name, ms[0].value) + seq![','] + member(
            ms[1].name,
            ms[1].value,
        ) + seq![','] + member(ms[2].name, ms[2].value) + seq![','] + member(
            ms[3].name,
            ms[3].value,
        ) + seq![','] + member(ms[4].name, ms[4].value) + seq![','] + member(
            ms[5].name,
            ms[5].value,
        ) + seq![','] + member(ms[6].name, ms[6].value) + seq![','] + member(
            ms[7].name,
            ms[7].value,
        ) + seq![','] + member(ms[8].name, ms[8].value),
{
    assert(members_text(ms.take(1)) == member(ms[0].name, ms[0].value)) by {
        assert(ms.take(1)[0] == ms[0]);
    }
    lemma_members_step(ms, 1);
    lemma_members_step(ms, 2);
    lemma_members_step(ms, 3);
    lemma_members_step(ms, 4);
    lemma_members_step(ms, 5);
    lemma_members_step(ms, 6);
    lemma_members_step(ms, 7);
    lemma_members_step(ms, 8);
    assert(ms.take(9) =~= ms);
}

/// Brackets may be moved: two members more behind an open list.
proof fn lemma_regroup_two(open: Seq<char>, a: Seq<char>, b: Seq<char>, close: Seq<char>)
    ensures
        open + (a + seq![','] + b + close) == open + a + seq![','] + b + close,
{
    assert(open + (a + seq![','] + b + close) =~= open + a + seq![','] + b + close);
}

/// Brackets may be moved: three members more behind an open list.
proof fn lemma_regroup_three(
    open: Seq<char>,
    a: Seq<char>,
    b: Seq<char>,
    c: Seq<char>,
    close: Seq<char>,
)
    ensures
        open + (a + seq![','] + b + seq![','] + c + close) == open + a + seq![','] + b + seq![',']
            + c + close,
{
    assert(open + (a + seq![','] + b + seq![','] + c + close) =~= open + a + seq![','] + b + seq![',']
        + c + close);
}

/// Brackets may be moved: the brace in front of a list.
proof fn lemma_regroup_front(rest: Seq<char>, tail: Seq<char>)
    ensures
        seq!['{'] + (rest + tail) == seq!['{'] + rest + tail,
{
    assert(seq!['{'] + (rest + tail) =~= seq!['{'] + rest + tail);
}

/// The object of an event is the record of its members.
proof fn lemma_object_is_record(e: EventView, names: FieldNamesView)
    ensures
        json_object(e, names) == record_text(event_members(e, names)),
{
    let ms = event_members(e, names);
    let comma = seq![','];
    let m0 = member(ms[0].name, ms[0].value);
    let m1 = member(ms[1].name, ms[1].value);
    let m2 = member(ms[2].name, ms[2].value);
    let m3 = member(ms[3].name, ms[3].value);
    let m4 = member(ms[4].name, ms[4].value);
    let m5 = member(ms[5].name, ms[5].value);
    let m6 = member(ms[6].name, ms[6].value);
    let m7 = member(ms[7].name, ms[7].value);
    let m8 = member(ms[8].name, ms[8].value);
    lemma_members_text_nine(ms);
    let head = json_head(e, names);
    let ids = json_ids(e, names);
    let origin = json_origin(e, names);
    let payload = json_payload(e, names);
    assert(head == seq!['{'] + m0 + comma + m1 + comma);
    assert(ids == m2 + comma + m3 + comma);
    assert(origin == m4 + comma + m5 + comma + m6 + comma);
    assert(payload == m7 + comma + m8 + seq!['}']);
    lemma_regroup_two(head, m2, m3, comma);
    lemma_regroup_three(head + ids, m4, m5, m6, comma);
    lemma_regroup_two(head + ids + origin, m7, m8, seq!['}']);
    lemma_regroup_inner(m0, m1, m2, m3, m4, m5, m6, m7, m8);
}

/// Brackets may be moved: the brace in front of nine members.
proof fn lemma_regroup_inner(
    m0: Seq<char>,
    m1: Seq<char>,
    m2: Seq<char>,
    m3: Seq<char>,
    m4: Seq<char>,
    m5: Seq<char>,
    m6: Seq<char>,
    m7: Seq<char>,
    m8: Seq<char>,
)
    ensures
        seq!['{'] + (m0 + seq![','] + m1 + seq![','] + m2 + seq![','] + m3 + seq![','] + m4 + seq![
            ',',
        ] + m5 + seq![','] + m6 + seq![','] + m7 + seq![','] + m8) == seq!['{'] + m0 + seq![',']
            + m1 + seq![','] + m2 + seq![','] + m3 + seq![','] + m4 + seq![','] + m5 + seq![',']
            + m6 + seq![','] + m7 + seq![','] + m8,
{
    let c = seq![','];
    let o = seq!['{'];
    lemma_regroup_front(m0, c);
    lemma_regroup_front(m0 + c, m1);
    lemma_regroup_front(m0 + c + m1, c);
    lemma_regroup_front(m0 + c + m1 + c, m2);
    lemma_regroup_front(m0 + c + m1 + c + m2, c);
    lemma_regroup_front(m0 + c + m1 + c + m2 + c, m3);
    lemma_regroup_front(m0 + c + m1 + c + m2 + c + m3, c);
    lemma_regroup_front(m0 + c + m1 + c + m2 + c + m3 + c, m4);
    lemma_regroup_front(m0 + c + m1 + c + m2 + c + m3 + c + m4, c);
    lemma_regroup_front(m0 + c + m1 + c + m2 + c + m3 + c + m4 + c, m5);
    lemma_regroup_front(m0 + c + m1 + c + m2 + c + m3 + c + m4 + c + m5, c);
    lemma_regroup_front(m0 + c + m1 + c + m2 + c + m3 + c + m4 + c + m5 + c, m6);
    lemma_regroup_front(m0 + c + m1 + c + m2 + c + m3 + c + m4 + c + m5 + c + m6, c);
    lemma_regroup_front(m0 + c + m1 + c + m2 + c + m3 + c + m4 + c + m5 + c + m6 + c, m7);
    lemma_regroup_front(m0 + c + m1 + c + m2 + c + m3 + c + m4 + c + m5 + c + m6 + c + m7, c);
    lemma_regroup_front(
        m0 + c + m1 + c + m2 + c + m3 + c + m4 + c + m5 + c + m6 + c + m7 + c,
        m8,
    );
}

} // verus!
