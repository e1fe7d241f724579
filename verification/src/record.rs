//! The five kinds of record that a description is made of: how a line is
//! told apart, and what each record says once its fields are extracted.

use crate::model::{
    labels_of, pgn, pgn_of, priority, priority_of, sa, sa_of, ByteOrder, Message, MessageModel,
    Signal, SignalModel,
};
use crate::text::{
    colons_start, parse_unsigned_or, skip_spaces, spans_of, split_tokens, starts_with,
    strip_colons, text_of, to_chars, tokens, trim_start, unsigned_or,
};
use std::collections::HashMap;
use vstd::prelude::*;

verus! {

/// What a message line starts with.
pub const MESSAGE_TAG: &'static str = "BO_";

/// What a signal line starts with, after its leading white space.
pub const SIGNAL_TAG: &'static str = "SG_";

/// What a message comment starts with.
pub const MESSAGE_COMMENT_TAG: &'static str = "CM_ BO_";

/// What a signal comment starts with.
pub const SIGNAL_COMMENT_TAG: &'static str = "CM_ SG_";

/// What a value table starts with.
pub const VALUE_TABLE_TAG: &'static str = "VAL_";

/// The fields of a signal line: name, start bit, length, byte order flag,
/// sign flag, scale, offset, minimum and maximum.
pub const SIGNAL_PATTERN: &'static str =
    r#"SG_\s+(\w+)\s*:\s*(\d+)\|(\d+)@([01])([+-])\s+\(([\d\.\-]+),([\d\.\-]+)\)\s+\[([\d\.\-]+)\|([\d\.\-]+)\]"#;

/// The fields of a message comment: message identifier and text.
pub const MESSAGE_COMMENT_PATTERN: &'static str = r#"CM_\s+BO_\s+(\d+)\s+"([^"]+)""#;

/// The fields of a signal comment: message identifier, signal name and text.
pub const SIGNAL_COMMENT_PATTERN: &'static str = r#"CM_\s+SG_\s+(\d+)\s+(\w+)\s+"([^"]+)""#;

/// The fields of a value table: message identifier, signal name and the
/// run of pairs up to the last semicolon.
pub const VALUE_TABLE_PATTERN: &'static str = r#"VAL_\s+(\d+)\s+(\w+)\s+(.*);"#;

/// One pair of a value table: raw value and label.
pub const VALUE_PAIR_PATTERN: &'static str = r#"(\d+)\s+"([^"]+)""#;

/// The kind of record that a line holds.
#[derive(Clone, Copy, Debug, PartialEq, Eq)]
pub enum LineKind {
    Message,
    Signal,
    MessageComment,
    SignalComment,
    ValueTable,
    Other,
}

/// The kind of `line`. The tests are made in this order, and the first that
/// holds decides.
pub open spec fn kind_of(line: Seq<char>) -> LineKind {
    if MESSAGE_TAG@.is_prefix_of(line) {
        LineKind::Message
    } else if SIGNAL_TAG@.is_prefix_of(trim_start(line)) {
        LineKind::Signal
    } else if MESSAGE_COMMENT_TAG@.is_prefix_of(line) {
        LineKind::MessageComment
    } else if SIGNAL_COMMENT_TAG@.is_prefix_of(line) {
        LineKind::SignalComment
    } else if VALUE_TABLE_TAG@.is_prefix_of(line) {
        LineKind::ValueTable
    } else {
        LineKind::Other
    }
}

/// Tells which kind of record `line` holds.
pub fn classify(line: &[char]) -> (kind: LineKind)
    ensures
        kind == kind_of(line@),
{
    if starts_with(line, MESSAGE_TAG) {
        return LineKind::Message;
    }
    let body: usize = skip_spaces(line, 0);
    assert(line@.subrange(body as int, line@.len() as int) =~= trim_start(line@));
    if starts_with(&line[body..line.len()], SIGNAL_TAG) {
        LineKind::Signal
    } else if starts_with(line, MESSAGE_COMMENT_TAG) {
        LineKind::MessageComment
    } else if starts_with(line, SIGNAL_COMMENT_TAG) {
        LineKind::SignalComment
    } else if starts_with(line, VALUE_TABLE_TAG) {
        LineKind::ValueTable
    } else {
        LineKind::Other
    }
}

/// The message that the tokens of a message line define: identifier, name
/// without its trailing colons, length code and sending node, from the
/// second token on. An identifier that is no number counts as 0, a length
/// code that is none as 8. Fewer than five tokens define no message.
pub open spec fn message_of(tokens: Seq<Seq<char>>) -> Option<MessageModel> {
    if tokens.len() < 5 {
        None
    } else {
        let id = unsigned_or(tokens[1], u32::MAX as nat, 0) as u32;
        Some(
            MessageModel {
                id,
                name: strip_colons(tokens[2]),
                dlc: unsigned_or(tokens[3], u8::MAX as nat, 8) as u8,
                node: tokens[4],
                pgn: pgn_of(id),
                sa: sa_of(id),
                priority: priority_of(id),
                signals: Seq::empty(),
                comment: None,
            },
        )
    }
}

/// Reads the message that a message line defines.
pub fn message_from_line(line: &[char]) -> (r: Option<Message>)
    ensures
        match r {
            Some(m) => message_of(tokens(line@)) == Some(m@),
            None => message_of(tokens(line@)) is None,
        },
{
    let spans = split_tokens(line);
    if spans.len() < 5 {
        return None;
    }
    let ghost parts = tokens(line@);
    assert(parts.len() == spans.len());
    assert forall|k: int| 0 <= k < 5 implies parts[k] == line@.subrange(
        spans[k].0 as int,
        spans[k].1 as int,
    ) by {
        assert(spans_of(line@, spans@)[k] == parts[k]);
    }
    let id: u32 = parse_unsigned_or(&line[spans[1].0..spans[1].1], u32::MAX, 0);
    let named: &[char] = &line[spans[2].0..spans[2].1];
    let name = text_of(&named[0..colons_start(named)]);
    let dlc: u32 = parse_unsigned_or(&line[spans[3].0..spans[3].1], 255, 8);
    let node = text_of(&line[spans[4].0..spans[4].1]);
    let m = Message {
        id,
        name,
        dlc: dlc as u8,
        node,
        pgn: pgn(id),
        sa: sa(id),
        priority: priority(id),
        signals: Vec::new(),
        comment: None,
    };
    assert(m@.signals =~= Seq::empty());
    Some(m)
}

/// Whether the groups 1 to `n` of a match all took part in it.
pub open spec fn has_groups(groups: Seq<Option<Seq<char>>>, n: int) -> bool {
    &&& groups.len() > n
    &&& forall|i: int| 1 <= i <= n ==> (#[trigger] groups[i]) is Some
}

/// The text of group `i`, where that group took part in the match.
fn group(groups: &Vec<Option<String>>, i: usize) -> (r: Option<&String>)
    ensures
        match r {
            Some(t) => i < groups.len() && groups.deep_view()[i as int] == Some(t@),
            None => i >= groups.len() || groups.deep_view()[i as int] is None,
        },
{
    if i < groups.len() {
        match &groups[i] {
            Some(t) => Some(t),
            None => None,
        }
    } else {
        None
    }
}

/// The number that `text` writes, or `default`.
fn number_or(text: &String, max: u32, default: u32) -> (n: u32)
    ensures
        n == unsigned_or(text@, max as nat, default as nat),
{
    let chars = to_chars(text.as_str());
    parse_unsigned_or(chars.as_slice(), max, default)
}

/// Whether `text` is the single character `c`.
fn is_char(text: &String, c: char) -> (b: bool)
    ensures
        b == (text@ == seq![c]),
{
    let chars = to_chars(text.as_str());
    if chars.len() == 1 && chars[0] == c {
        assert(text@ =~= seq![c]);
        true
    } else {
        assert(text@ != seq![c]) by {
            if text@ == seq![c] {
                assert(seq![c].len() == 1);
                assert(seq![c][0] == c);
            }
        }
        false
    }
}

/// The signal that the nine groups of a signal line define. A start bit or
/// a length that is no number counts as 0. The byte order flag `1` means
/// little endian, the sign flag `-` means signed. The signal has no comment
/// and no value table yet.
pub open spec fn signal_of(groups: Seq<Option<Seq<char>>>) -> Option<SignalModel> {
    if has_groups(groups, 9) {
        Some(
            SignalModel {
                name: groups[1].unwrap(),
                start_bit: unsigned_or(groups[2].unwrap(), u32::MAX as nat, 0) as u32,
                length: unsigned_or(groups[3].unwrap(), u32::MAX as nat, 0) as u32,
                byte_order: if groups[4].unwrap() == seq!['1'] {
                    ByteOrder::LittleEndian
                } else {
                    ByteOrder::BigEndian
                },
                is_signed: groups[5].unwrap() == seq!['-'],
                scale: groups[6].unwrap(),
                offset: groups[7].unwrap(),
                min: groups[8].unwrap(),
                max: groups[9].unwrap(),
                comment: None,
                value_descriptions: None,
            },
        )
    } else {
        None
    }
}

/// Builds the signal that the groups of a matched signal line define.
pub fn signal_from_groups(groups: &Vec<Option<String>>) -> (r: Option<Signal>)
    ensures
        match r {
            Some(s) => signal_of(groups.deep_view()) == Some(s@),
            None => signal_of(groups.deep_view()) is None,
        },
{
    let name = match group(groups, 1) {
        Some(t) => t,
        None => { return None; },
    };
    let start = match group(groups, 2) {
        Some(t) => t,
        None => { return None; },
    };
    let length = match group(groups, 3) {
        Some(t) => t,
        None => { return None; },
    };
    let order = match group(groups, 4) {
        Some(t) => t,
        None => { return None; },
    };
    let sign = match group(groups, 5) {
        Some(t) => t,
        None => { return None; },
    };
    let scale = match group(groups, 6) {
        Some(t) => t,
        None => { return None; },
    };
    let offset = match group(groups, 7) {
        Some(t) => t,
        None => { return None; },
    };
    let min = match group(groups, 8) {
        Some(t) => t,
        None => { return None; },
    };
    let max = match group(groups, 9) {
        Some(t) => t,
        None => { return None; },
    };
    assert(has_groups(groups.deep_view(), 9));
    Some(
        Signal {
            name: name.clone(),
            start_bit: number_or(start, u32::MAX, 0),
            length: number_or(length, u32::MAX, 0),
            byte_order: if is_char(order, '1') {
                ByteOrder::LittleEndian
            } else {
                ByteOrder::BigEndian
            },
            is_signed: is_char(sign, '-'),
            scale: scale.clone(),
            offset: offset.clone(),
            min: min.clone(),
            max: max.clone(),
            comment: None,
            value_descriptions: None,
        },
    )
}

/// The number and the text that the two groups of a match give: the target
/// of a message comment with its text, or one pair of a value table. A
/// number that does not fit 32 bits counts as 0.
pub open spec fn number_and_text(groups: Seq<Option<Seq<char>>>) -> Option<(u32, Seq<char>)> {
    if has_groups(groups, 2) {
        Some((unsigned_or(groups[1].unwrap(), u32::MAX as nat, 0) as u32, groups[2].unwrap()))
    } else {
        None
    }
}

/// The number, the name and the text that the three groups of a match give:
/// the target of a signal comment with its text, or the target of a value
/// table with its run of pairs.
pub open spec fn number_name_and_text(groups: Seq<Option<Seq<char>>>) -> Option<
    (u32, Seq<char>, Seq<char>),
> {
    if has_groups(groups, 3) {
        Some(
            (
                unsigned_or(groups[1].unwrap(), u32::MAX as nat, 0) as u32,
                groups[2].unwrap(),
                groups[3].unwrap(),
            ),
        )
    } else {
        None
    }
}

/// Reads the number and the text that a match of two groups gives.
pub fn number_and_text_from_groups(groups: &Vec<Option<String>>) -> (r: Option<(u32, String)>)
    ensures
        match r {
            Some((n, text)) => number_and_text(groups.deep_view()) == Some((n, text@)),
            None => number_and_text(groups.deep_view()) is None,
        },
{
    let number = match group(groups, 1) {
        Some(t) => t,
        None => { return None; },
    };
    let text = match group(groups, 2) {
        Some(t) => t,
        None => { return None; },
    };
    assert(has_groups(groups.deep_view(), 2));
    Some((number_or(number, u32::MAX, 0), text.clone()))
}

/// Reads the number, the name and the text that a match of three groups
/// gives.
pub fn number_name_and_text_from_groups(groups: &Vec<Option<String>>) -> (r: Option<
    (u32, String, String),
>)
    ensures
        match r {
            Some((n, name, text)) => number_name_and_text(groups.deep_view()) == Some(
                (n, name@, text@),
            ),
            None => number_name_and_text(groups.deep_view()) is None,
        },
{
    let number = match group(groups, 1) {
        Some(t) => t,
        None => { return None; },
    };
    let name = match group(groups, 2) {
        Some(t) => t,
        None => { return None; },
    };
    let text = match group(groups, 3) {
        Some(t) => t,
        None => { return None; },
    };
    assert(has_groups(groups.deep_view(), 3));
    Some((number_or(number, u32::MAX, 0), name.clone(), text.clone()))
}

/// The mapping that the pairs of a value table build, taken in order: a
/// later pair replaces an earlier one with the same raw value.
pub open spec fn value_map_of(pairs: Seq<Seq<Option<Seq<char>>>>) -> Map<u32, Seq<char>>
    decreases pairs.len(),
{
    if pairs.len() == 0 {
        Map::empty()
    } else {
        let earlier = value_map_of(pairs.drop_last());
        match number_and_text(pairs.last()) {
            Some((value, label)) => earlier.insert(value, label),
            None => earlier,
        }
    }
}

/// Builds the mapping from raw values to labels out of the matched pairs.
pub fn value_map_from_pairs(pairs: &Vec<Vec<Option<String>>>) -> (labels: HashMap<u32, String>)
    ensures
        labels_of(labels) == value_map_of(pairs.deep_view()),
{
    let mut labels: HashMap<u32, String> = HashMap::new();
    let mut i: usize = 0;
    assert(pairs.deep_view().take(0) =~= Seq::empty());
    assert(labels_of(labels) =~= Map::empty());
    while i < pairs.len()
        invariant
            i <= pairs.len(),
            labels_of(labels) == value_map_of(pairs.deep_view().take(i as int)),
        decreases pairs.len() - i,
    {
        let ghost before = labels_of(labels);
        proof {
            assert(pairs.deep_view().take(i + 1).drop_last() =~= pairs.deep_view().take(i as int));
            assert(pairs.deep_view().take(i + 1).last() == pairs[i as int].deep_view());
        }
        match number_and_text_from_groups(&pairs[i]) {
            Some((value, label)) => {
                let ghost text = label@;
                labels.insert(value, label);
                assert(labels_of(labels) =~= before.insert(value, text));
            },
            None => {},
        }
        i += 1;
    }
    assert(pairs.deep_view().take(i as int) =~= pairs.deep_view());
    labels
}

} // verus!
