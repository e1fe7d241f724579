//! Properties of the reader, proved from the model of the pass.

use crate::model::{pgn_of, priority_of, sa_of, MessageModel, SignalModel};
use crate::parser::{
    message_comment_of_line, message_from, network_of, replace_signal, run, signal_comment_of_line,
    signal_from, signal_of_line, step, target_of, value_table_of_line, with_message_comment,
    with_signal_comment, with_value_descriptions, ParserModel,
};
use crate::record::{kind_of, message_of, number_and_text, value_map_of, LineKind};
use crate::text::{is_space, line_at, line_len, lines, lines_from, tokens, tokens_from, word_at};
use vstd::prelude::*;

verus! {

/// The three derived fields are plain arithmetic on the identifier: the
/// parameter group number is the identifier divided by 2^8, modulo 2^18; the
/// source address is the identifier modulo 2^8; the priority is the
/// identifier divided by 2^26, modulo 8.
pub proof fn lemma_derived_fields(id: u32)
    ensures
        pgn_of(id) == (id / 0x100) % 0x40000,
        sa_of(id) == id % 0x100,
        priority_of(id) == (id / 0x400_0000) % 8,
        pgn_of(id) < 0x40000,
        sa_of(id) < 0x100,
        priority_of(id) < 8,
{
    assert((id >> 8) & 0x3FFFF == (id / 0x100) % 0x40000) by (bit_vector);
    assert(id & 0xFF == id % 0x100) by (bit_vector);
    assert((id >> 26) & 0x7 == (id / 0x400_0000) % 8) by (bit_vector);
}

/// A lookup by identifier finds the first message that has it: no message
/// before the position found has the identifier, and the position is the
/// length exactly when no message has it.
pub proof fn lemma_first_message_is_found(messages: Seq<MessageModel>, id: u32, from: int)
    requires
        0 <= from <= messages.len(),
    ensures
        from <= message_from(messages, id, from) <= messages.len(),
        forall|k: int|
            from <= k < message_from(messages, id, from) ==> (#[trigger] messages[k]).id != id,
        message_from(messages, id, from) < messages.len() ==> messages[message_from(
            messages,
            id,
            from,
        )].id == id,
    decreases messages.len() - from,
{
    if from < messages.len() && messages[from].id != id {
        lemma_first_message_is_found(messages, id, from + 1);
    }
}

/// A lookup by name finds the first signal that has it.
pub proof fn lemma_first_signal_is_found(signals: Seq<SignalModel>, name: Seq<char>, from: int)
    requires
        0 <= from <= signals.len(),
    ensures
        from <= signal_from(signals, name, from) <= signals.len(),
        forall|k: int|
            from <= k < signal_from(signals, name, from) ==> (#[trigger] signals[k]).name != name,
        signal_from(signals, name, from) < signals.len() ==> signals[signal_from(
            signals,
            name,
            from,
        )].name == name,
    decreases signals.len() - from,
{
    if from < signals.len() && signals[from].name != name {
        lemma_first_signal_is_found(signals, name, from + 1);
    }
}

/// A state holds exactly the messages it was built to hold.
pub proof fn lemma_visible_of_holding(messages: Seq<MessageModel>, open: bool)
    ensures
        ParserModel::holding(messages, open).visible() == messages,
        ParserModel::holding(messages, open).current is Some <==> open && messages.len() > 0,
{
    if open && messages.len() > 0 {
        assert(messages.drop_last().push(messages.last()) =~= messages);
    }
}

/// Reading one more line after `lines` is one more step.
pub proof fn lemma_run_push(st: ParserModel, lines: Seq<Seq<char>>, line: Seq<char>)
    ensures
        run(st, lines.push(line)) == step(run(st, lines), line),
    decreases lines.len(),
{
    if lines.len() == 0 {
        assert(lines.push(line).drop_first() =~= Seq::<Seq<char>>::empty());
        assert(run(step(st, line), Seq::<Seq<char>>::empty()) == step(st, line));
    } else {
        assert(lines.push(line).drop_first() =~= lines.drop_first().push(line));
        lemma_run_push(step(st, lines[0]), lines.drop_first(), line);
    }
}

/// Reading `first` and then `second` is reading the two in one go.
pub proof fn lemma_run_concat(st: ParserModel, first: Seq<Seq<char>>, second: Seq<Seq<char>>)
    ensures
        run(st, first + second) == run(run(st, first), second),
    decreases second.len(),
{
    if second.len() == 0 {
        assert(first + second =~= first);
    } else {
        assert(first + second =~= (first + second.drop_last()).push(second.last()));
        assert(second =~= second.drop_last().push(second.last()));
        lemma_run_push(st, first + second.drop_last(), second.last());
        lemma_run_push(run(st, first), second.drop_last(), second.last());
        lemma_run_concat(st, first, second.drop_last());
    }
}

/// The signals that the signal lines `lines` define, in the order of the
/// lines; a line whose fields cannot be extracted defines none.
pub open spec fn signals_of_lines(lines: Seq<Seq<char>>) -> Seq<SignalModel> {
    lines.filter_map(|line: Seq<char>| signal_of_line(line))
}

/// Those of `lines` whose fields can be extracted as a signal.
pub open spec fn matching_lines(lines: Seq<Seq<char>>) -> Seq<Seq<char>> {
    lines.filter(|line: Seq<char>| signal_of_line(line) is Some)
}

/// A message line followed by signal lines gives a message whose signals are
/// those of the lines that match, in the order of the lines, and as many as
/// there are lines that match.
pub proof fn lemma_signals_in_source_order(st: ParserModel, head: Seq<char>, body: Seq<Seq<char>>)
    requires
        kind_of(head) == LineKind::Message,
        message_of(tokens(head)) is Some,
        forall|k: int| 0 <= k < body.len() ==> kind_of(#[trigger] body[k]) == LineKind::Signal,
    ensures
        run(st, seq![head] + body).flushed == st.visible(),
        run(st, seq![head] + body).current == Some(
            MessageModel { signals: signals_of_lines(body), ..message_of(tokens(head)).unwrap() },
        ),
        signals_of_lines(body).len() == matching_lines(body).len(),
    decreases body.len(),
{
    reveal(Seq::filter);
    let m = message_of(tokens(head)).unwrap();
    if body.len() == 0 {
        assert(seq![head] + body =~= Seq::<Seq<char>>::empty().push(head));
        lemma_run_push(st, Seq::empty(), head);
        assert(signals_of_lines(body) =~= m.signals);
    } else {
        let init = body.drop_last();
        let last = body.last();
        assert(seq![head] + body =~= (seq![head] + init).push(last));
        lemma_run_push(st, seq![head] + init, last);
        lemma_signals_in_source_order(st, head, init);
        match signal_of_line(last) {
            Some(signal) => {
                assert(signals_of_lines(body) =~= signals_of_lines(init).push(signal));
            },
            None => {},
        }
    }
}

/// Whether two messages agree on everything that their message line gives:
/// identifier, name, length code, node and the three derived fields.
pub open spec fn same_header(a: MessageModel, b: MessageModel) -> bool {
    &&& a.id == b.id
    &&& a.name == b.name
    &&& a.dlc == b.dlc
    &&& a.node == b.node
    &&& a.pgn == b.pgn
    &&& a.sa == b.sa
    &&& a.priority == b.priority
}

/// Whether `b` holds the messages of `a`, one for one, with the same
/// headers.
pub open spec fn same_headers(a: Seq<MessageModel>, b: Seq<MessageModel>) -> bool {
    &&& a.len() == b.len()
    &&& forall|i: int| 0 <= i < a.len() ==> same_header(#[trigger] a[i], b[i])
}

/// Setting a message comment keeps every header.
pub proof fn lemma_message_comment_keeps_headers(
    messages: Seq<MessageModel>,
    id: u32,
    text: Seq<char>,
)
    ensures
        same_headers(messages, with_message_comment(messages, id, text)),
{
    lemma_first_message_is_found(messages, id, 0);
}

/// Replacing a signal keeps every header.
pub proof fn lemma_replace_signal_keeps_headers(
    messages: Seq<MessageModel>,
    id: u32,
    name: Seq<char>,
    signal: SignalModel,
)
    requires
        target_of(messages, id, name) is Some,
    ensures
        same_headers(
            messages,
            replace_signal(
                messages,
                target_of(messages, id, name).unwrap().0,
                target_of(messages, id, name).unwrap().1,
                signal,
            ),
        ),
{
    lemma_first_message_is_found(messages, id, 0);
}

/// A line that is no message line neither adds nor removes a message, keeps
/// every header, and leaves open what was open.
pub proof fn lemma_only_message_lines_add_messages(st: ParserModel, line: Seq<char>)
    requires
        kind_of(line) != LineKind::Message,
    ensures
        same_headers(st.visible(), step(st, line).visible()),
        step(st, line).current is Some <==> st.current is Some,
{
    let before = st.visible();
    let open = st.current is Some;
    match kind_of(line) {
        LineKind::Signal => {
            match signal_of_line(line) {
                Some(signal) => {
                    match st.current {
                        Some(m) => {
                            let after = st.add_signal(signal).visible();
                            assert forall|i: int| 0 <= i < before.len() implies same_header(
                                #[trigger] before[i],
                                after[i],
                            ) by {}
                        },
                        None => {},
                    }
                },
                None => {},
            }
        },
        LineKind::MessageComment => {
            match message_comment_of_line(line) {
                Some((id, text)) => {
                    lemma_message_comment_keeps_headers(before, id, text);
                    lemma_visible_of_holding(with_message_comment(before, id, text), open);
                },
                None => {},
            }
        },
        LineKind::SignalComment => {
            match signal_comment_of_line(line) {
                Some((id, name, text)) => {
                    match target_of(before, id, name) {
                        Some((i, j)) => {
                            lemma_replace_signal_keeps_headers(
                                before,
                                id,
                                name,
                                SignalModel { comment: Some(text), ..before[i].signals[j] },
                            );
                        },
                        None => {},
                    }
                    lemma_visible_of_holding(with_signal_comment(before, id, name, text), open);
                },
                None => {},
            }
        },
        LineKind::ValueTable => {
            match value_table_of_line(line) {
                Some((id, name, labels)) => {
                    match target_of(before, id, name) {
                        Some((i, j)) => {
                            lemma_replace_signal_keeps_headers(
                                before,
                                id,
                                name,
                                SignalModel {
                                    value_descriptions: Some(labels),
                                    ..before[i].signals[j]
                                },
                            );
                        },
                        None => {},
                    }
                    lemma_visible_of_holding(
                        with_value_descriptions(before, id, name, labels),
                        open,
                    );
                },
                None => {},
            }
        },
        _ => {},
    }
}

/// Lines none of which is a message line neither add nor remove a message.
pub proof fn lemma_messages_stay(st: ParserModel, lines: Seq<Seq<char>>)
    requires
        forall|k: int| 0 <= k < lines.len() ==> kind_of(#[trigger] lines[k]) != LineKind::Message,
    ensures
        same_headers(st.visible(), run(st, lines).visible()),
        run(st, lines).current is Some <==> st.current is Some,
    decreases lines.len(),
{
    if lines.len() > 0 {
        lemma_only_message_lines_add_messages(st, lines[0]);
        assert forall|k: int| 0 <= k < lines.drop_first().len() implies kind_of(
            #[trigger] lines.drop_first()[k],
        ) != LineKind::Message by {
            assert(lines.drop_first()[k] == lines[k + 1]);
        }
        lemma_messages_stay(step(st, lines[0]), lines.drop_first());
    }
}

/// The message of the last message line is part of the network although no
/// message line follows it: it comes last, after all that was read before,
/// and is still open when the text ends.
pub proof fn lemma_trailing_message_is_included(
    st: ParserModel,
    head: Seq<char>,
    rest: Seq<Seq<char>>,
)
    requires
        kind_of(head) == LineKind::Message,
        message_of(tokens(head)) is Some,
        forall|k: int| 0 <= k < rest.len() ==> kind_of(#[trigger] rest[k]) != LineKind::Message,
    ensures
        run(st, seq![head] + rest).visible().len() == st.visible().len() + 1,
        same_header(
            run(st, seq![head] + rest).visible().last(),
            message_of(tokens(head)).unwrap(),
        ),
        run(st, seq![head] + rest).current is Some,
{
    assert((seq![head] + rest).drop_first() =~= rest);
    lemma_messages_stay(step(st, head), rest);
    let opened = step(st, head).visible();
    assert(same_header(opened.last(), run(step(st, head), rest).visible().last()));
}

/// A message comment that comes while its message is still open sets the
/// comment of that message, provided no complete message has the same
/// identifier.
pub proof fn lemma_comment_reaches_open_message(st: ParserModel, line: Seq<char>)
    requires
        kind_of(line) == LineKind::MessageComment,
        message_comment_of_line(line) is Some,
        st.current is Some,
        st.current.unwrap().id == message_comment_of_line(line).unwrap().0,
        forall|k: int|
            0 <= k < st.flushed.len() ==> (#[trigger] st.flushed[k]).id != message_comment_of_line(
                line,
            ).unwrap().0,
    ensures
        step(st, line).flushed == st.flushed,
        step(st, line).current == Some(
            MessageModel {
                comment: Some(message_comment_of_line(line).unwrap().1),
                ..st.current.unwrap()
            },
        ),
{
    let (id, text) = message_comment_of_line(line).unwrap();
    let all = st.visible();
    lemma_first_message_is_found(all, id, 0);
    let i = message_from(all, id, 0);
    if i < st.flushed.len() {
        assert(all[i] == st.flushed[i]);
    }
    assert(i == st.flushed.len());
    assert(with_message_comment(all, id, text).drop_last() =~= st.flushed);
}

/// In a value table the last label listed for a raw value is the one the
/// mapping gives.
pub proof fn lemma_last_label_wins(pairs: Seq<Seq<Option<Seq<char>>>>, i: int)
    requires
        0 <= i < pairs.len(),
        number_and_text(pairs[i]) is Some,
        forall|k: int|
            i < k < pairs.len() && number_and_text(#[trigger] pairs[k]) is Some ==> number_and_text(
                pairs[k],
            ).unwrap().0 != number_and_text(pairs[i]).unwrap().0,
    ensures
        value_map_of(pairs).contains_key(number_and_text(pairs[i]).unwrap().0),
        value_map_of(pairs)[number_and_text(pairs[i]).unwrap().0] == number_and_text(
            pairs[i],
        ).unwrap().1,
    decreases pairs.len(),
{
    if i < pairs.len() - 1 {
        assert(pairs.drop_last()[i] == pairs[i]);
        assert forall|k: int|
            i < k < pairs.drop_last().len() && number_and_text(
                #[trigger] pairs.drop_last()[k],
            ) is Some implies number_and_text(pairs.drop_last()[k]).unwrap().0 != number_and_text(
            pairs[i],
        ).unwrap().0 by {
            assert(pairs.drop_last()[k] == pairs[k]);
        }
        lemma_last_label_wins(pairs.drop_last(), i);
        assert(pairs.last() == pairs[pairs.len() - 1]);
    }
}

/// A value table maps exactly the raw values that its pairs list.
pub proof fn lemma_value_map_keys(pairs: Seq<Seq<Option<Seq<char>>>>, value: u32)
    ensures
        value_map_of(pairs).contains_key(value) <==> exists|k: int|
            0 <= k < pairs.len() && number_and_text(#[trigger] pairs[k]) is Some && number_and_text(
                pairs[k],
            ).unwrap().0 == value,
    decreases pairs.len(),
{
    if pairs.len() > 0 {
        let init = pairs.drop_last();
        lemma_value_map_keys(init, value);
        if value_map_of(pairs).contains_key(value) {
            if value_map_of(init).contains_key(value) {
                let k = choose|k: int|
                    0 <= k < init.len() && number_and_text(#[trigger] init[k]) is Some
                        && number_and_text(init[k]).unwrap().0 == value;
                assert(pairs[k] == init[k]);
            } else {
                assert(number_and_text(pairs[pairs.len() - 1]) is Some);
            }
        }
        if exists|k: int|
            0 <= k < pairs.len() && number_and_text(#[trigger] pairs[k]) is Some && number_and_text(
                pairs[k],
            ).unwrap().0 == value {
            let k = choose|k: int|
                0 <= k < pairs.len() && number_and_text(#[trigger] pairs[k]) is Some
                    && number_and_text(pairs[k]).unwrap().0 == value;
            if k < pairs.len() - 1 {
                assert(init[k] == pairs[k]);
            }
        }
    }
}

/// A signal line that comes while no message is open changes nothing.
pub proof fn lemma_signal_without_open_message(st: ParserModel, line: Seq<char>)
    requires
        kind_of(line) == LineKind::Signal,
        st.current is None,
    ensures
        step(st, line) == st,
{
}

/// Before the first message line nothing is read: signal lines, comments
/// and value tables that come first leave no trace.
pub proof fn lemma_nothing_before_first_message(lines: Seq<Seq<char>>)
    requires
        forall|k: int| 0 <= k < lines.len() ==> kind_of(#[trigger] lines[k]) != LineKind::Message,
    ensures
        run(ParserModel::initial(), lines) == ParserModel::initial(),
{
    lemma_messages_stay(ParserModel::initial(), lines);
    let end = run(ParserModel::initial(), lines);
    assert(end.flushed =~= Seq::<MessageModel>::empty());
}

/// A message line with fewer than five tokens defines no message: it closes
/// the open message and leaves none open.
pub proof fn lemma_short_message_line(st: ParserModel, line: Seq<char>)
    requires
        kind_of(line) == LineKind::Message,
        tokens(line).len() < 5,
    ensures
        step(st, line) == (ParserModel { flushed: st.visible(), current: None }),
{
}

/// A message line with five tokens or more opens the message it defines,
/// whatever came before it, a message line with too few tokens included.
pub proof fn lemma_message_line_opens(st: ParserModel, line: Seq<char>)
    requires
        kind_of(line) == LineKind::Message,
        tokens(line).len() >= 5,
    ensures
        message_of(tokens(line)) is Some,
        step(st, line) == (ParserModel {
            flushed: st.visible(),
            current: message_of(tokens(line)),
        }),
        step(st, line).visible() == st.visible().push(message_of(tokens(line)).unwrap()),
{
}

/// After a message line with too few tokens, a message line with five
/// tokens or more starts its message as if the short line had not been
/// there.
pub proof fn lemma_message_after_short_line(st: ParserModel, short: Seq<char>, line: Seq<char>)
    requires
        kind_of(short) == LineKind::Message,
        tokens(short).len() < 5,
        kind_of(line) == LineKind::Message,
        tokens(line).len() >= 5,
    ensures
        run(st, seq![short, line]) == step(st, line),
{
    let none = Seq::<Seq<char>>::empty();
    assert(seq![short, line] =~= none.push(short).push(line));
    lemma_run_push(st, none.push(short), line);
    lemma_run_push(st, none, short);
}

/// Whether every message has the derived fields that its identifier
/// encodes.
pub open spec fn all_derived(messages: Seq<MessageModel>) -> bool {
    forall|i: int| 0 <= i < messages.len() ==> (#[trigger] messages[i]).derived_from_id()
}

/// A line keeps the derived fields in step with the identifiers.
pub proof fn lemma_step_keeps_derived(st: ParserModel, line: Seq<char>)
    requires
        all_derived(st.visible()),
    ensures
        all_derived(step(st, line).visible()),
{
    if kind_of(line) == LineKind::Message {
    } else {
        lemma_only_message_lines_add_messages(st, line);
        let before = st.visible();
        let after = step(st, line).visible();
        assert forall|i: int| 0 <= i < after.len() implies (#[trigger] after[i]).derived_from_id() by {
            assert(same_header(before[i], after[i]));
            assert(before[i].derived_from_id());
        }
    }
}

/// In every network that is read, the parameter group number, the source
/// address and the priority of each message are those that its identifier
/// encodes.
pub proof fn lemma_network_fields_derived(text: Seq<char>)
    ensures
        all_derived(network_of(text).messages),
{
    lemma_run_keeps_derived(ParserModel::initial(), lines(text));
}

/// Lines keep the derived fields in step with the identifiers.
pub proof fn lemma_run_keeps_derived(st: ParserModel, lines: Seq<Seq<char>>)
    requires
        all_derived(st.visible()),
    ensures
        all_derived(run(st, lines).visible()),
    decreases lines.len(),
{
    if lines.len() > 0 {
        lemma_step_keeps_derived(st, lines[0]);
        lemma_run_keeps_derived(step(st, lines[0]), lines.drop_first());
    }
}

/// A run of characters that are not white space ends inside the text and
/// holds no white space.
pub proof fn lemma_word_holds_no_space(s: Seq<char>, i: int)
    requires
        0 <= i <= s.len(),
    ensures
        i + word_at(s, i) <= s.len(),
        forall|j: int| i <= j < i + word_at(s, i) ==> !is_space(#[trigger] s[j]),
    decreases s.len() - i,
{
    if i < s.len() && !is_space(s[i]) {
        lemma_word_holds_no_space(s, i + 1);
    }
}

/// Whether `t` is at least one character long and holds no white space.
pub open spec fn is_token(t: Seq<char>) -> bool {
    &&& t.len() > 0
    &&& forall|j: int| 0 <= j < t.len() ==> !is_space(#[trigger] t[j])
}

/// Every token is at least one character long and holds no white space.
pub proof fn lemma_tokens_hold_no_space(s: Seq<char>, i: int)
    requires
        0 <= i,
    ensures
        forall|k: int|
            0 <= k < tokens_from(s, i).len() ==> is_token(#[trigger] tokens_from(s, i)[k]),
    decreases
            if i <= s.len() {
                s.len() - i
            } else {
                0
            },
{
    if i < s.len() {
        if is_space(s[i]) {
            lemma_tokens_hold_no_space(s, i + 1);
            assert(tokens_from(s, i) == tokens_from(s, i + 1));
        } else {
            let end = i + 1 + word_at(s, i + 1);
            lemma_word_holds_no_space(s, i + 1);
            lemma_tokens_hold_no_space(s, end);
            let first = s.subrange(i, end);
            assert(is_token(first)) by {
                assert forall|j: int| 0 <= j < first.len() implies !is_space(
                    #[trigger] first[j],
                ) by {
                    assert(first[j] == s[i + j]);
                }
            }
            let all = tokens_from(s, i);
            let later = tokens_from(s, end);
            assert(all == seq![first] + later);
            assert forall|k: int| 0 <= k < all.len() implies is_token(#[trigger] all[k]) by {
                if k > 0 {
                    assert(all[k] == later[k - 1]);
                } else {
                    assert(all[k] == first);
                }
            }
        }
    }
}

/// A line ends inside the text and holds no line feed.
pub proof fn lemma_line_holds_no_line_feed(s: Seq<char>, i: int)
    requires
        0 <= i <= s.len(),
    ensures
        i + line_len(s, i) <= s.len(),
        forall|j: int| i <= j < i + line_len(s, i) ==> #[trigger] s[j] != '\n',
        forall|j: int| 0 <= j < line_at(s, i).len() ==> #[trigger] line_at(s, i)[j] != '\n',
    decreases s.len() - i,
{
    if i < s.len() && s[i] != '\n' {
        lemma_line_holds_no_line_feed(s, i + 1);
    }
    let raw = s.subrange(i, i + line_len(s, i));
    assert forall|j: int| 0 <= j < raw.len() implies #[trigger] raw[j] != '\n' by {
        assert(raw[j] == s[i + j]);
    }
    assert forall|j: int| 0 <= j < line_at(s, i).len() implies #[trigger] line_at(s, i)[j]
        != '\n' by {
        assert(line_at(s, i)[j] == raw[j]);
    }
}

} // verus!
