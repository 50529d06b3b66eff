//! The wire format: how a command becomes a line, and how a reply line
//! becomes a value.

use vstd::prelude::*;
use vstd::slice::slice_subrange;
use crate::decimal::{
    all_digits, digits, is_digit, lemma_padded, lemma_padded_five, padded, parse_digits, parse_i32,
    parse_u32, push_digits, push_padded, signed_value, unsigned_value, value,
};
use crate::entity::{
    DeviceInfo, DeviceInfoView, MatchInfo, ParamType, ScreenOrientation, TouchFinger, TouchType,
};
use crate::error::Error;
use crate::message_type::MessageType;
use crate::text::{
    chars_of, fields, fields_from, integer_part, integer_part_of, lemma_next_separator,
    next_separator, separator, separator_at, split_fields, text_of, trim, trimmed,
};

verus! {

/// The two characters that end every command line.
pub open spec fn line_end() -> Seq<char> {
    seq!['\r', '\n']
}

/// The parts of a line, in order, with a separator between each two of them.
pub open spec fn joined(parts: Seq<Seq<char>>) -> Seq<char>
    decreases parts.len(),
{
    if parts.len() == 0 {
        Seq::empty()
    } else if parts.len() == 1 {
        parts[0]
    } else {
        joined(parts.drop_last()) + separator() + parts.last()
    }
}

/// The texts of a list of arguments, in order.
pub open spec fn texts(args: Seq<ParamType>) -> Seq<Seq<char>> {
    Seq::new(args.len(), |i: int| args[i].text())
}

/// The line of a general command: the code of the message type in decimal,
/// then, with nothing in between, the arguments joined by separators, then
/// the line end.
pub open spec fn command_line(message_type: MessageType, parts: Seq<Seq<char>>) -> Seq<char> {
    digits(message_type.spec_code() as nat) + joined(parts) + line_end()
}

/// The line of a single touch event. Its fields have fixed positions and
/// nothing between them: the code of the touch message type, the count `1`,
/// the code of the touch type, the code of the finger, and the two
/// coordinates in tenths, each padded to five digits.
pub open spec fn touch_line(touch_type: TouchType, x: u32, y: u32, finger: TouchFinger) -> Seq<
    char,
> {
    digits(MessageType::PerformTouch.spec_code() as nat) + seq!['1'] + digits(
        touch_type.spec_code() as nat,
    ) + digits(finger.spec_code() as nat) + padded((x * 10) as nat, 5) + padded((y * 10) as nat, 5)
        + line_end()
}

/// The fields of one event of a batch: the code of the touch type, the code
/// of the finger padded to two digits, and the two coordinates in tenths,
/// each padded to five digits.
pub open spec fn touch_event_text(event: (TouchType, u32, u32, TouchFinger)) -> Seq<char> {
    digits(event.0.spec_code() as nat) + padded(event.3.spec_code() as nat, 2) + padded(
        (event.1 * 10) as nat,
        5,
    ) + padded((event.2 * 10) as nat, 5)
}

/// The fields of the events of a batch, one event behind the other.
pub open spec fn touch_events_text(events: Seq<(TouchType, u32, u32, TouchFinger)>) -> Seq<char>
    decreases events.len(),
{
    if events.len() == 0 {
        Seq::empty()
    } else {
        touch_events_text(events.drop_last()) + touch_event_text(events.last())
    }
}

/// The line of a batch of touch events: the code of the touch message type,
/// the number of events in decimal, the fields of the events, the line end.
pub open spec fn touch_events_line(events: Seq<(TouchType, u32, u32, TouchFinger)>) -> Seq<char> {
    digits(MessageType::PerformTouch.spec_code() as nat) + digits(events.len())
        + touch_events_text(events) + line_end()
}

/// The event that a single-touch line carries, with its coordinates in
/// tenths: `None` for a text that is not laid out as such a line.
pub open spec fn touch_of_line(line: Seq<char>) -> Option<(TouchType, u32, u32, TouchFinger)> {
    if line.len() == 17 && line.subrange(0, 3) == seq!['1', '0', '1'] && all_digits(
        line.subrange(3, 15),
    ) && line.subrange(15, 17) == line_end() {
        match (
            TouchType::spec_from_code(line[3] as int - 48),
            TouchFinger::spec_from_code(line[4] as int - 48),
        ) {
            (Some(touch_type), Some(finger)) => Some(
                (
                    touch_type,
                    value(line.subrange(5, 10)) as u32,
                    value(line.subrange(10, 15)) as u32,
                    finger,
                ),
            ),
            _ => None,
        }
    } else {
        None
    }
}

/// The event that the fields of one event of a batch carry, with its
/// coordinates in tenths: `None` for a text that is not laid out as such
/// fields.
pub open spec fn touch_of_event_text(text: Seq<char>) -> Option<
    (TouchType, u32, u32, TouchFinger),
> {
    if text.len() == 13 && all_digits(text) {
        match (
            TouchType::spec_from_code(text[0] as int - 48),
            TouchFinger::spec_from_code(value(text.subrange(1, 3)) as int),
        ) {
            (Some(touch_type), Some(finger)) => Some(
                (
                    touch_type,
                    value(text.subrange(3, 8)) as u32,
                    value(text.subrange(8, 13)) as u32,
                    finger,
                ),
            ),
            _ => None,
        }
    } else {
        None
    }
}

/// The width and height that a screen-size reply carries: the integer parts
/// of its second and third field.
pub open spec fn screen_size_of(reply: Seq<char>) -> Option<(i32, i32)> {
    let f = fields(reply);
    if f.len() >= 3 {
        match (signed_value(integer_part(f[1])), signed_value(integer_part(f[2]))) {
            (Some(width), Some(height)) => Some((width, height)),
            _ => None,
        }
    } else {
        None
    }
}

/// The orientation that an orientation reply carries: the number in its
/// second field, without the white space around it, read as a code.
pub open spec fn screen_orientation_of(reply: Seq<char>) -> Option<ScreenOrientation> {
    let f = fields(reply);
    if f.len() >= 2 {
        match signed_value(trimmed(f[1])) {
            Some(code) => Some(ScreenOrientation::of_code(code)),
            None => None,
        }
    } else {
        None
    }
}

/// The scale that a screen-scale reply carries: the integer part of its
/// second field, without the white space around the field.
pub open spec fn screen_scale_of(reply: Seq<char>) -> Option<i32> {
    let f = fields(reply);
    if f.len() >= 2 {
        signed_value(integer_part(trimmed(f[1])))
    } else {
        None
    }
}

/// The description that a device-info reply carries: its second to sixth
/// field, the last of them without the white space around it.
pub open spec fn device_info_of(reply: Seq<char>) -> Option<DeviceInfoView> {
    let f = fields(reply);
    if f.len() >= 6 {
        Some(
            DeviceInfoView {
                device_name: f[1],
                system_name: f[2],
                system_version: f[3],
                model: f[4],
                identifier_for_vendor: trimmed(f[5]),
            },
        )
    } else {
        None
    }
}

/// The bounding box that an image-search reply carries: the integer parts of
/// its second to fifth field.
pub open spec fn box_of(reply: Seq<char>) -> Option<(u32, u32, u32, u32)> {
    let f = fields(reply);
    if f.len() >= 5 {
        match (
            unsigned_value(integer_part(f[1])),
            unsigned_value(integer_part(f[2])),
            unsigned_value(integer_part(f[3])),
            unsigned_value(integer_part(f[4])),
        ) {
            (Some(x), Some(y), Some(w), Some(h)) => Some((x, y, w, h)),
            _ => None,
        }
    } else {
        None
    }
}

/// Joined parts begin with the first part, a separator, and the rest joined.
proof fn lemma_joined_from_the_front(parts: Seq<Seq<char>>)
    requires
        parts.len() >= 2,
    ensures
        joined(parts) == parts[0] + separator() + joined(parts.skip(1)),
    decreases parts.len(),
{
    let init = parts.drop_last();
    let rest = parts.skip(1);
    if parts.len() == 2 {
        assert(joined(init) == parts[0]);
        assert(joined(rest) == parts[1]);
    } else {
        lemma_joined_from_the_front(init);
        assert(rest.drop_last() =~= init.skip(1));
        assert(joined(parts) =~= parts[0] + separator() + (joined(init.skip(1)) + separator()
            + parts.last()));
    }
}

/// In a text, the separators behind a prefix are where they are in the text
/// without the prefix, moved by the length of the prefix.
proof fn lemma_next_separator_behind_prefix(prefix: Seq<char>, s: Seq<char>, from: int)
    requires
        0 <= from <= s.len(),
    ensures
        next_separator(prefix + s, prefix.len() + from) == prefix.len() + next_separator(s, from),
    decreases s.len() - from,
{
    let whole = prefix + s;
    if from < s.len() {
        assert(separator_at(whole, prefix.len() + from) == separator_at(s, from)) by {
            assert(whole[prefix.len() + from] == s[from]);
            if from + 1 < s.len() {
                assert(whole[prefix.len() + from + 1] == s[from + 1]);
            }
        }
        if !separator_at(s, from) {
            lemma_next_separator_behind_prefix(prefix, s, from + 1);
        }
    }
}

/// The fields of a text behind a prefix are the fields of the text without
/// the prefix.
proof fn lemma_fields_behind_prefix(prefix: Seq<char>, s: Seq<char>, from: int)
    requires
        0 <= from <= s.len(),
    ensures
        fields_from(prefix + s, prefix.len() + from) == fields_from(s, from),
    decreases s.len() - from,
{
    let whole = prefix + s;
    let end = next_separator(s, from);
    lemma_next_separator_behind_prefix(prefix, s, from);
    lemma_next_separator(s, from);
    if end < s.len() {
        lemma_fields_behind_prefix(prefix, s, end + 2);
        assert(whole.subrange(prefix.len() + from, prefix.len() + end) =~= s.subrange(from, end));
    } else {
        assert(whole.subrange(prefix.len() + from, whole.len() as int) =~= s.subrange(
            from,
            s.len() as int,
        ));
    }
}

/// A text without a `';'` from `from` on has no separator there.
proof fn lemma_no_separator(s: Seq<char>, from: int, end: int)
    requires
        0 <= from <= end <= s.len(),
        forall|i: int| from <= i < end ==> s[i] != ';',
    ensures
        next_separator(s, from) == next_separator(s, end),
    decreases end - from,
{
    if from < end {
        lemma_no_separator(s, from + 1, end);
    }
}

/// Splitting undoes joining: the fields of joined parts are the parts
/// themselves, for one part or more, none of which holds a `';'`.
pub proof fn lemma_fields_of_joined(parts: Seq<Seq<char>>)
    requires
        parts.len() >= 1,
        forall|k: int, i: int| 0 <= k < parts.len() && 0 <= i < parts[k].len() ==> parts[k][i] != ';',
    ensures
        fields(joined(parts)) == parts,
    decreases parts.len(),
{
    let first = parts[0];
    if parts.len() == 1 {
        lemma_no_separator(first, 0, first.len() as int);
        assert(first.subrange(0, first.len() as int) =~= first);
        assert(fields(first) =~= parts);
    } else {
        let rest = parts.skip(1);
        let tail = separator() + joined(rest);
        let whole = first + tail;
        lemma_joined_from_the_front(parts);
        assert(joined(parts) =~= whole);
        assert forall|i: int| 0 <= i < first.len() implies whole[i] != ';' by {
            assert(whole[i] == first[i]);
        }
        lemma_no_separator(whole, 0, first.len() as int);
        assert(separator_at(whole, first.len() as int)) by {
            assert(whole[first.len() as int] == tail[0]);
            assert(whole[first.len() as int + 1] == tail[1]);
        }
        assert(next_separator(whole, 0) == first.len());
        assert(whole.subrange(0, first.len() as int) =~= first);
        assert forall|k: int, i: int| 0 <= k < rest.len() && 0 <= i < rest[k].len() implies rest[k][i]
            != ';' by {
            assert(rest[k] == parts[k + 1]);
        }
        lemma_fields_of_joined(rest);
        lemma_fields_behind_prefix(first + separator(), joined(rest), 0);
        assert(first + separator() + joined(rest) =~= whole);
        assert(fields(whole) =~= seq![first] + rest);
        assert(seq![first] + rest =~= parts);
    }
}

/// Encoding a touch event and decoding the line gives back the touch type,
/// the finger and the coordinates in tenths, for every event whose
/// coordinates in tenths fit in five digits.
pub proof fn lemma_touch_round_trip(touch_type: TouchType, x: u32, y: u32, finger: TouchFinger)
    requires
        x * 10 < 100000,
        y * 10 < 100000,
    ensures
        touch_of_line(touch_line(touch_type, x, y, finger)) == Some(
            (touch_type, (x * 10) as u32, (y * 10) as u32, finger),
        ),
{
    let head = digits(MessageType::PerformTouch.spec_code() as nat) + seq!['1'];
    let kind = digits(touch_type.spec_code() as nat);
    let contact = digits(finger.spec_code() as nat);
    let px = padded((x * 10) as nat, 5);
    let py = padded((y * 10) as nat, 5);
    let line = touch_line(touch_type, x, y, finger);
    assert(digits(10) =~= seq!['1', '0']) by {
        reveal_with_fuel(digits, 2);
    }
    assert(head =~= seq!['1', '0', '1']);
    lemma_padded((x * 10) as nat, 5);
    lemma_padded((y * 10) as nat, 5);
    lemma_padded_five((x * 10) as nat);
    lemma_padded_five((y * 10) as nat);
    assert(line =~= head + kind + contact + px + py + line_end());
    assert(line.len() == 17);
    assert(line.subrange(0, 3) =~= head);
    assert(line.subrange(5, 10) =~= px);
    assert(line.subrange(10, 15) =~= py);
    assert(line.subrange(15, 17) =~= line_end());
    assert(all_digits(line.subrange(3, 15))) by {
        assert forall|i: int| 0 <= i < 12 implies is_digit(#[trigger] line.subrange(3, 15)[i]) by {
            if i == 0 {
                assert(line.subrange(3, 15)[i] == kind[0]);
            } else if i == 1 {
                assert(line.subrange(3, 15)[i] == contact[0]);
            } else if i < 7 {
                assert(line.subrange(3, 15)[i] == px[i - 2]);
            } else {
                assert(line.subrange(3, 15)[i] == py[i - 7]);
            }
        }
    }
    assert(line[3] == kind[0]);
    assert(line[4] == contact[0]);
}

/// Writing the fields of one event of a batch and reading them back gives
/// the touch type, the finger and the coordinates in tenths, for every event
/// whose coordinates in tenths fit in five digits.
pub proof fn lemma_touch_event_round_trip(event: (TouchType, u32, u32, TouchFinger))
    requires
        event.1 * 10 < 100000,
        event.2 * 10 < 100000,
    ensures
        touch_of_event_text(touch_event_text(event)) == Some(
            (event.0, (event.1 * 10) as u32, (event.2 * 10) as u32, event.3),
        ),
{
    let kind = digits(event.0.spec_code() as nat);
    let contact = padded(event.3.spec_code() as nat, 2);
    let px = padded((event.1 * 10) as nat, 5);
    let py = padded((event.2 * 10) as nat, 5);
    let text = touch_event_text(event);
    lemma_padded(event.3.spec_code() as nat, 2);
    lemma_padded((event.1 * 10) as nat, 5);
    lemma_padded((event.2 * 10) as nat, 5);
    lemma_padded_five((event.1 * 10) as nat);
    lemma_padded_five((event.2 * 10) as nat);
    assert(contact.len() == 2) by {
        reveal_with_fuel(digits, 2);
    }
    assert(text =~= kind + contact + px + py);
    assert(text.len() == 13);
    assert(text.subrange(1, 3) =~= contact);
    assert(text.subrange(3, 8) =~= px);
    assert(text.subrange(8, 13) =~= py);
    assert(all_digits(text)) by {
        assert forall|i: int| 0 <= i < 13 implies is_digit(#[trigger] text[i]) by {
            if i == 0 {
                assert(text[i] == kind[0]);
            } else if i < 3 {
                assert(text[i] == contact[i - 1]);
            } else if i < 8 {
                assert(text[i] == px[i - 3]);
            } else {
                assert(text[i] == py[i - 8]);
            }
        }
    }
    assert(text[0] == kind[0]);
}

/// Appends a separator to `out`.
fn push_separator(out: &mut String)
    ensures
        final(out)@ == old(out)@ + separator(),
{
    out.push(';');
    out.push(';');
    assert(old(out)@.push(';').push(';') =~= old(out)@ + separator());
}

/// Appends the line end to `out`.
fn push_line_end(out: &mut String)
    ensures
        final(out)@ == old(out)@ + line_end(),
{
    out.push('\r');
    out.push('\n');
    assert(old(out)@.push('\r').push('\n') =~= old(out)@ + line_end());
}

/// Writes the line of a general command.
pub fn encode(message_type: MessageType, args: &[ParamType]) -> (line: String)
    ensures
        line@ == command_line(message_type, texts(args@)),
{
    let mut line = String::new();
    push_digits(&mut line, message_type.code() as u64);
    let ghost head = digits(message_type.spec_code() as nat);
    let ghost parts = texts(args@);
    assert(line@ =~= head);
    assert(parts.take(0) =~= Seq::<Seq<char>>::empty());
    assert(head + joined(parts.take(0)) =~= head);
    let mut i: usize = 0;
    while i < args.len()
        invariant
            0 <= i <= args.len(),
            parts == texts(args@),
            line@ == head + joined(parts.take(i as int)),
        decreases args.len() - i,
    {
        if i > 0 {
            push_separator(&mut line);
        }
        args[i].push_to(&mut line);
        proof {
            let now = parts.take(i + 1);
            assert(now.drop_last() =~= parts.take(i as int));
            assert(now.last() == args@[i as int].text());
            if i == 0 {
                assert(joined(parts.take(0)) =~= Seq::<char>::empty());
                assert(line@ =~= head + joined(now));
            } else {
                assert(line@ =~= head + (joined(parts.take(i as int)) + separator() + now.last()));
            }
        }
        i = i + 1;
    }
    assert(parts.take(i as int) =~= parts);
    push_line_end(&mut line);
    line
}

/// Writes the line of a single touch event at the point (`x`, `y`).
pub fn encode_touch(touch_type: TouchType, x: u32, y: u32, finger: TouchFinger) -> (line: String)
    ensures
        line@ == touch_line(touch_type, x, y, finger),
{
    let mut line = String::new();
    push_digits(&mut line, MessageType::PerformTouch.code() as u64);
    line.push('1');
    push_digits(&mut line, touch_type.code() as u64);
    push_digits(&mut line, finger.code() as u64);
    push_padded(&mut line, x as u64 * 10, 5);
    push_padded(&mut line, y as u64 * 10, 5);
    push_line_end(&mut line);
    assert(line@ =~= touch_line(touch_type, x, y, finger));
    line
}

/// Writes the line of a batch of touch events.
pub fn encode_touch_events(list: &[(TouchType, u32, u32, TouchFinger)]) -> (line: String)
    ensures
        line@ == touch_events_line(list@),
{
    let mut line = String::new();
    push_digits(&mut line, MessageType::PerformTouch.code() as u64);
    push_digits(&mut line, list.len() as u64);
    let ghost head = digits(MessageType::PerformTouch.spec_code() as nat) + digits(list@.len());
    assert(line@ =~= head);
    assert(list@.take(0) =~= Seq::<(TouchType, u32, u32, TouchFinger)>::empty());
    assert(head + touch_events_text(list@.take(0)) =~= head);
    let mut i: usize = 0;
    while i < list.len()
        invariant
            0 <= i <= list.len(),
            line@ == head + touch_events_text(list@.take(i as int)),
        decreases list.len() - i,
    {
        let (touch_type, x, y, finger) = list[i];
        let ghost before = line@;
        push_digits(&mut line, touch_type.code() as u64);
        push_padded(&mut line, finger.code() as u64, 2);
        push_padded(&mut line, x as u64 * 10, 5);
        push_padded(&mut line, y as u64 * 10, 5);
        proof {
            let now = list@.take(i + 1);
            assert(now.drop_last() =~= list@.take(i as int));
            assert(now.last() == list@[i as int]);
            assert(line@ =~= before + touch_event_text(list@[i as int]));
            assert(line@ =~= head + (touch_events_text(list@.take(i as int)) + touch_event_text(
                now.last(),
            )));
        }
        i = i + 1;
    }
    assert(list@.take(i as int) =~= list@);
    push_line_end(&mut line);
    line
}

/// Reads a single-touch line back: the touch type, the coordinates in tenths
/// and the finger.
pub fn decode_touch(line: &str) -> (event: Option<(TouchType, u32, u32, TouchFinger)>)
    ensures
        event == touch_of_line(line@),
{
    let chars = chars_of(line);
    let s = chars.as_slice();
    if s.len() != 17 {
        return None;
    }
    if s[0] != '1' || s[1] != '0' || s[2] != '1' {
        assert(s@.subrange(0, 3)[0] == s@[0]);
        assert(s@.subrange(0, 3)[1] == s@[1]);
        assert(s@.subrange(0, 3)[2] == s@[2]);
        return None;
    }
    assert(s@.subrange(0, 3) =~= seq!['1', '0', '1']);
    if s[15] != '\r' || s[16] != '\n' {
        assert(s@.subrange(15, 17)[0] == s@[15]);
        assert(s@.subrange(15, 17)[1] == s@[16]);
        return None;
    }
    assert(s@.subrange(15, 17) =~= line_end());
    let body = slice_subrange(s, 3, 15);
    if parse_digits(body, 999999999999).is_none() {
        proof {
            if all_digits(body@) {
                lemma_twelve_digits(body@);
            }
        }
        return None;
    }
    assert(all_digits(body@));
    assert(is_digit(body@[0]) && is_digit(body@[1]));
    let touch_type = TouchType::from_code((s[3] as u32 - 48) as u8);
    let finger = TouchFinger::from_code((s[4] as u32 - 48) as u8);
    let xs = slice_subrange(s, 5, 10);
    let ys = slice_subrange(s, 10, 15);
    proof {
        assert forall|i: int| 0 <= i < 5 implies is_digit(#[trigger] xs@[i]) by {
            assert(xs@[i] == body@[i + 2]);
        }
        assert forall|i: int| 0 <= i < 5 implies is_digit(#[trigger] ys@[i]) by {
            assert(ys@[i] == body@[i + 7]);
        }
        lemma_five_digits(xs@);
        lemma_five_digits(ys@);
    }
    let x = parse_digits(xs, 99999);
    let y = parse_digits(ys, 99999);
    match (touch_type, finger, x, y) {
        (Some(touch_type), Some(finger), Some(x), Some(y)) => Some(
            (touch_type, x as u32, y as u32, finger),
        ),
        _ => None,
    }
}

/// Reads the fields of one event of a batch back: the touch type, the
/// coordinates in tenths and the finger.
pub fn decode_touch_event(text: &str) -> (event: Option<(TouchType, u32, u32, TouchFinger)>)
    ensures
        event == touch_of_event_text(text@),
{
    let chars = chars_of(text);
    let s = chars.as_slice();
    if s.len() != 13 {
        return None;
    }
    if parse_digits(s, 9999999999999).is_none() {
        proof {
            if all_digits(s@) {
                lemma_digits_bound(s@, 13);
            }
        }
        return None;
    }
    assert(all_digits(s@));
    assert(is_digit(s@[0]));
    let touch_type = TouchType::from_code((s[0] as u32 - 48) as u8);
    let fs = slice_subrange(s, 1, 3);
    let xs = slice_subrange(s, 3, 8);
    let ys = slice_subrange(s, 8, 13);
    proof {
        assert forall|i: int| 0 <= i < 2 implies is_digit(#[trigger] fs@[i]) by {
            assert(fs@[i] == s@[i + 1]);
        }
        assert forall|i: int| 0 <= i < 5 implies is_digit(#[trigger] xs@[i]) by {
            assert(xs@[i] == s@[i + 3]);
        }
        assert forall|i: int| 0 <= i < 5 implies is_digit(#[trigger] ys@[i]) by {
            assert(ys@[i] == s@[i + 8]);
        }
        lemma_digits_bound(fs@, 2);
        lemma_five_digits(xs@);
        lemma_five_digits(ys@);
    }
    let finger = match parse_digits(fs, 99) {
        Some(code) => TouchFinger::from_code(code as u8),
        None => None,
    };
    let x = parse_digits(xs, 99999);
    let y = parse_digits(ys, 99999);
    match (touch_type, finger, x, y) {
        (Some(touch_type), Some(finger), Some(x), Some(y)) => Some(
            (touch_type, x as u32, y as u32, finger),
        ),
        _ => None,
    }
}

/// Five digits denote a number below 100000.
proof fn lemma_five_digits(s: Seq<char>)
    requires
        s.len() == 5,
        all_digits(s),
    ensures
        value(s) <= 99999,
{
    lemma_digits_bound(s, 5);
}

/// Twelve digits denote a number below 10 to the power 12.
proof fn lemma_twelve_digits(s: Seq<char>)
    requires
        s.len() == 12,
        all_digits(s),
    ensures
        value(s) <= 999999999999,
{
    lemma_digits_bound(s, 12);
}

/// The largest number that `len` digits can denote.
spec fn nines(len: nat) -> nat
    decreases len,
{
    if len == 0 {
        0
    } else {
        nines((len - 1) as nat) * 10 + 9
    }
}

proof fn lemma_digits_bound(s: Seq<char>, len: nat)
    requires
        s.len() == len,
        all_digits(s),
        len <= 13,
    ensures
        value(s) <= nines(len),
        len == 2 ==> nines(len) == 99,
        len == 5 ==> nines(len) == 99999,
        len == 12 ==> nines(len) == 999999999999,
        len == 13 ==> nines(len) == 9999999999999,
    decreases len,
{
    reveal_with_fuel(nines, 14);
    if len > 0 {
        assert(is_digit(s[len - 1]));
        assert forall|i: int| 0 <= i < len - 1 implies is_digit(#[trigger] s.drop_last()[i]) by {
            assert(s.drop_last()[i] == s[i]);
        }
        lemma_digits_bound(s.drop_last(), (len - 1) as nat);
    }
}

/// Reads the reply to a screen-size query.
pub fn decode_screen_size(reply: &str) -> (r: Result<(i32, i32), Error>)
    ensures
        r == match screen_size_of(reply@) {
            Some(size) => Ok::<(i32, i32), Error>(size),
            None => Err(Error::Protocol),
        },
{
    let chars = chars_of(reply);
    let parts = split_fields(chars.as_slice());
    if parts.len() < 3 {
        return Err(Error::Protocol);
    }
    let width = parse_i32(integer_part_of(parts[1]));
    let height = parse_i32(integer_part_of(parts[2]));
    match (width, height) {
        (Some(width), Some(height)) => Ok((width, height)),
        _ => Err(Error::Protocol),
    }
}

/// Reads the reply to a screen-orientation query.
pub fn decode_screen_orientation(reply: &str) -> (r: Result<ScreenOrientation, Error>)
    ensures
        r == match screen_orientation_of(reply@) {
            Some(orientation) => Ok::<ScreenOrientation, Error>(orientation),
            None => Err(Error::Protocol),
        },
{
    let chars = chars_of(reply);
    let parts = split_fields(chars.as_slice());
    if parts.len() < 2 {
        return Err(Error::Protocol);
    }
    match parse_i32(trim(parts[1])) {
        Some(code) => Ok(ScreenOrientation::from(code)),
        None => Err(Error::Protocol),
    }
}

/// Reads the reply to a screen-scale query.
pub fn decode_screen_scale(reply: &str) -> (r: Result<i32, Error>)
    ensures
        r == match screen_scale_of(reply@) {
            Some(scale) => Ok::<i32, Error>(scale),
            None => Err(Error::Protocol),
        },
{
    let chars = chars_of(reply);
    let parts = split_fields(chars.as_slice());
    if parts.len() < 2 {
        return Err(Error::Protocol);
    }
    match parse_i32(integer_part_of(trim(parts[1]))) {
        Some(scale) => Ok(scale),
        None => Err(Error::Protocol),
    }
}

/// Reads the reply to a device-info query.
pub fn decode_device_info(reply: &str) -> (r: Result<DeviceInfo, Error>)
    ensures
        match r {
            Ok(info) => device_info_of(reply@) == Some(info@),
            Err(e) => device_info_of(reply@) is None && e == Error::Protocol,
        },
{
    let chars = chars_of(reply);
    let parts = split_fields(chars.as_slice());
    if parts.len() < 6 {
        return Err(Error::Protocol);
    }
    Ok(
        DeviceInfo {
            device_name: text_of(parts[1]),
            system_name: text_of(parts[2]),
            system_version: text_of(parts[3]),
            model: text_of(parts[4]),
            identifier_for_vendor: text_of(trim(parts[5])),
        },
    )
}

/// Reads the reply to an image search: the match, `None` where the device
/// reports the box of four zeros.
pub fn decode_image_find(reply: &str) -> (r: Result<Option<MatchInfo>, Error>)
    ensures
        r == match box_of(reply@) {
            Some((x, y, w, h)) => Ok::<Option<MatchInfo>, Error>(
                MatchInfo::spec_from_box(x, y, w, h),
            ),
            None => Err(Error::Protocol),
        },
{
    let chars = chars_of(reply);
    let parts = split_fields(chars.as_slice());
    if parts.len() < 5 {
        return Err(Error::Protocol);
    }
    let x = parse_u32(integer_part_of(parts[1]));
    let y = parse_u32(integer_part_of(parts[2]));
    let w = parse_u32(integer_part_of(parts[3]));
    let h = parse_u32(integer_part_of(parts[4]));
    match (x, y, w, h) {
        (Some(x), Some(y), Some(w), Some(h)) => Ok(MatchInfo::from_box(x, y, w, h)),
        _ => Err(Error::Protocol),
    }
}

} // verus!
