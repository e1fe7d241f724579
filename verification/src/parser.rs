//! The single pass over the lines of a description.
//!
//! The state of the pass is the sequence of messages that are complete
//! together with the one message, if any, that is still open for signals.
//! Each line takes the state to the next one; the network is what the state
//! holds once the last line is read.

use crate::model::{
    labels_of, messages_view, signals_view, DBCData, Message, MessageModel,
    NetworkModel, Signal, SignalModel,
};
use crate::pattern::{
    all_captures_of, capture_all_groups, capture_groups, captures_of, ParseError,
};
use crate::record::{
    classify, kind_of, message_from_line, message_of, number_and_text,
    number_and_text_from_groups, number_name_and_text, number_name_and_text_from_groups,
    signal_from_groups, signal_of, value_map_from_pairs, value_map_of, LineKind,
    MESSAGE_COMMENT_PATTERN, SIGNAL_COMMENT_PATTERN, SIGNAL_PATTERN, VALUE_PAIR_PATTERN,
    VALUE_TABLE_PATTERN,
};
use crate::text::{lines, lines_from, next_line, skip_spaces, text_of, to_chars, tokens, trim_start};
use std::collections::HashMap;
use vstd::prelude::*;

verus! {

/// The position of the first message of `messages`, at or after `from`,
/// whose identifier is `id`; the length of `messages` where there is none.
pub open spec fn message_from(messages: Seq<MessageModel>, id: u32, from: int) -> int
    decreases messages.len() - from,
{
    if 0 <= from < messages.len() && messages[from].id != id {
        message_from(messages, id, from + 1)
    } else {
        from
    }
}

/// The position of the first signal of `signals`, at or after `from`, whose
/// name is `name`; the length of `signals` where there is none.
pub open spec fn signal_from(signals: Seq<SignalModel>, name: Seq<char>, from: int) -> int
    decreases signals.len() - from,
{
    if 0 <= from < signals.len() && signals[from].name != name {
        signal_from(signals, name, from + 1)
    } else {
        from
    }
}

/// Where the signal `name` of the message `id` stands: the position of the
/// first message with that identifier and, in it, of the first signal with
/// that name. `None` where either is missing.
pub open spec fn target_of(messages: Seq<MessageModel>, id: u32, name: Seq<char>) -> Option<
    (int, int),
> {
    let i = message_from(messages, id, 0);
    if i < messages.len() {
        let j = signal_from(messages[i].signals, name, 0);
        if j < messages[i].signals.len() {
            Some((i, j))
        } else {
            None
        }
    } else {
        None
    }
}

/// `messages` with the signal at position `j` of the message at position
/// `i` replaced by `signal`.
pub open spec fn replace_signal(
    messages: Seq<MessageModel>,
    i: int,
    j: int,
    signal: SignalModel,
) -> Seq<MessageModel> {
    let changed = MessageModel { signals: messages[i].signals.update(j, signal), ..messages[i] };
    messages.update(i, changed)
}

/// `messages` with `text` as the comment of the first message whose
/// identifier is `id`; unchanged where there is no such message.
pub open spec fn with_message_comment(
    messages: Seq<MessageModel>,
    id: u32,
    text: Seq<char>,
) -> Seq<MessageModel> {
    let i = message_from(messages, id, 0);
    if i < messages.len() {
        messages.update(i, MessageModel { comment: Some(text), ..messages[i] })
    } else {
        messages
    }
}

/// `messages` with `text` as the comment of the signal that `id` and `name`
/// point at; unchanged where they point at none.
pub open spec fn with_signal_comment(
    messages: Seq<MessageModel>,
    id: u32,
    name: Seq<char>,
    text: Seq<char>,
) -> Seq<MessageModel> {
    match target_of(messages, id, name) {
        Some((i, j)) => replace_signal(
            messages,
            i,
            j,
            SignalModel { comment: Some(text), ..messages[i].signals[j] },
        ),
        None => messages,
    }
}

/// `messages` with `labels` as the value table of the signal that `id` and
/// `name` point at, in place of any table it had; unchanged where they point
/// at none.
pub open spec fn with_value_descriptions(
    messages: Seq<MessageModel>,
    id: u32,
    name: Seq<char>,
    labels: Map<u32, Seq<char>>,
) -> Seq<MessageModel> {
    match target_of(messages, id, name) {
        Some((i, j)) => replace_signal(
            messages,
            i,
            j,
            SignalModel { value_descriptions: Some(labels), ..messages[i].signals[j] },
        ),
        None => messages,
    }
}

/// The state of the pass.
pub struct ParserModel {
    /// The messages that are complete, in the order in which they appeared.
    pub flushed: Seq<MessageModel>,
    /// The message that signal lines attach to, if one is open.
    pub current: Option<MessageModel>,
}

impl ParserModel {
    /// The state before the first line: no message, none open.
    pub open spec fn initial() -> ParserModel {
        ParserModel { flushed: Seq::empty(), current: None }
    }

    /// The state that holds `messages`, the last of them open if `open` says
    /// so and there is one.
    pub open spec fn holding(messages: Seq<MessageModel>, open: bool) -> ParserModel {
        if open && messages.len() > 0 {
            ParserModel { flushed: messages.drop_last(), current: Some(messages.last()) }
        } else {
            ParserModel { flushed: messages, current: None }
        }
    }

    /// Every message read so far: the complete ones, then the open one. This
    /// is where comments and value tables look for their target, and what
    /// the network holds when the text ends here.
    pub open spec fn visible(self) -> Seq<MessageModel> {
        match self.current {
            Some(m) => self.flushed.push(m),
            None => self.flushed,
        }
    }

    /// A message line: the open message, if any, is complete; `message`, if
    /// the line defines one, is open from now on.
    pub open spec fn open_message(self, message: Option<MessageModel>) -> ParserModel {
        ParserModel { flushed: self.visible(), current: message }
    }

    /// A signal line: `signal` comes last in the open message. Without an
    /// open message nothing changes.
    pub open spec fn add_signal(self, signal: SignalModel) -> ParserModel {
        match self.current {
            Some(m) => ParserModel {
                flushed: self.flushed,
                current: Some(MessageModel { signals: m.signals.push(signal), ..m }),
            },
            None => self,
        }
    }

    /// A message comment.
    pub open spec fn set_message_comment(self, id: u32, text: Seq<char>) -> ParserModel {
        ParserModel::holding(with_message_comment(self.visible(), id, text), self.current is Some)
    }

    /// A signal comment.
    pub open spec fn set_signal_comment(
        self,
        id: u32,
        name: Seq<char>,
        text: Seq<char>,
    ) -> ParserModel {
        ParserModel::holding(
            with_signal_comment(self.visible(), id, name, text),
            self.current is Some,
        )
    }

    /// A value table.
    pub open spec fn set_value_descriptions(
        self,
        id: u32,
        name: Seq<char>,
        labels: Map<u32, Seq<char>>,
    ) -> ParserModel {
        ParserModel::holding(
            with_value_descriptions(self.visible(), id, name, labels),
            self.current is Some,
        )
    }
}

/// The signal that a signal line defines, if its fields can be extracted.
pub open spec fn signal_of_line(line: Seq<char>) -> Option<SignalModel> {
    match captures_of(SIGNAL_PATTERN@, trim_start(line)) {
        Some(groups) => signal_of(groups),
        None => None,
    }
}

/// The message identifier and the text that a message comment gives.
pub open spec fn message_comment_of_line(line: Seq<char>) -> Option<(u32, Seq<char>)> {
    match captures_of(MESSAGE_COMMENT_PATTERN@, line) {
        Some(groups) => number_and_text(groups),
        None => None,
    }
}

/// The message identifier, the signal name and the text that a signal
/// comment gives.
pub open spec fn signal_comment_of_line(line: Seq<char>) -> Option<(u32, Seq<char>, Seq<char>)> {
    match captures_of(SIGNAL_COMMENT_PATTERN@, line) {
        Some(groups) => number_name_and_text(groups),
        None => None,
    }
}

/// The message identifier, the signal name and the mapping that a value
/// table gives.
pub open spec fn value_table_of_line(line: Seq<char>) -> Option<
    (u32, Seq<char>, Map<u32, Seq<char>>),
> {
    match captures_of(VALUE_TABLE_PATTERN@, line) {
        Some(groups) => match number_name_and_text(groups) {
            Some((id, name, pairs)) => Some(
                (id, name, value_map_of(all_captures_of(VALUE_PAIR_PATTERN@, pairs))),
            ),
            None => None,
        },
        None => None,
    }
}

/// The state after `line`, read in the state `st`.
///
/// A message line closes the open message and opens the one it defines. A
/// signal line adds its signal to the open message. A comment or a value
/// table changes the message or signal it names, if that has been read
/// already. A line whose fields cannot be extracted changes nothing.
pub open spec fn step(st: ParserModel, line: Seq<char>) -> ParserModel {
    match kind_of(line) {
        LineKind::Message => st.open_message(message_of(tokens(line))),
        LineKind::Signal => match signal_of_line(line) {
            Some(signal) => st.add_signal(signal),
            None => st,
        },
        LineKind::MessageComment => match message_comment_of_line(line) {
            Some((id, text)) => st.set_message_comment(id, text),
            None => st,
        },
        LineKind::SignalComment => match signal_comment_of_line(line) {
            Some((id, name, text)) => st.set_signal_comment(id, name, text),
            None => st,
        },
        LineKind::ValueTable => match value_table_of_line(line) {
            Some((id, name, labels)) => st.set_value_descriptions(id, name, labels),
            None => st,
        },
        LineKind::Other => st,
    }
}

/// The state after the lines `lines`, read in order from the state `st`.
pub open spec fn run(st: ParserModel, lines: Seq<Seq<char>>) -> ParserModel
    decreases lines.len(),
{
    if lines.len() == 0 {
        st
    } else {
        run(step(st, lines[0]), lines.drop_first())
    }
}

/// The network that the description `text` defines.
pub open spec fn network_of(text: Seq<char>) -> NetworkModel {
    NetworkModel { messages: run(ParserModel::initial(), lines(text)).visible() }
}

/// Whether a line of this kind has its fields extracted by a pattern.
pub open spec fn uses_pattern(kind: LineKind) -> bool {
    kind != LineKind::Message && kind != LineKind::Other
}

/// Whether `line`, read in the state `st`, has its fields extracted by a
/// pattern: a comment and a value table always, a signal line while a message
/// is open.
pub open spec fn needs_pattern(st: ParserModel, line: Seq<char>) -> bool {
    &&& uses_pattern(kind_of(line))
    &&& kind_of(line) == LineKind::Signal ==> st.current is Some
}

/// Whether none of `lines` has its fields extracted by a pattern.
pub open spec fn pattern_free(lines: Seq<Seq<char>>) -> bool {
    forall|k: int| 0 <= k < lines.len() ==> !uses_pattern(kind_of(#[trigger] lines[k]))
}

/// A reader that is fed one line at a time.
pub struct Parser {
    /// Every message read so far, the open one last.
    messages: Vec<Message>,
    /// Whether the last message is open.
    open: bool,
}

impl View for Parser {
    type V = ParserModel;

    closed spec fn view(&self) -> ParserModel {
        ParserModel::holding(messages_view(self.messages@), self.open)
    }
}

/// The position of the first of `messages` whose identifier is `id`, or
/// their number where there is none.
fn find_message(messages: &Vec<Message>, id: u32) -> (i: usize)
    ensures
        i == message_from(messages_view(messages@), id, 0),
        i <= messages.len(),
{
    let mut i: usize = 0;
    while i < messages.len() && messages[i].id != id
        invariant
            i <= messages.len(),
            message_from(messages_view(messages@), id, 0) == message_from(
                messages_view(messages@),
                id,
                i as int,
            ),
        decreases messages.len() - i,
    {
        i += 1;
    }
    i
}

/// The position of the first of `signals` whose name is `name`, or their
/// number where there is none.
fn find_signal(signals: &Vec<Signal>, name: &String) -> (j: usize)
    ensures
        j == signal_from(signals_view(signals@), name@, 0),
        j <= signals.len(),
{
    let mut j: usize = 0;
    while j < signals.len() && signals[j].name != *name
        invariant
            j <= signals.len(),
            signal_from(signals_view(signals@), name@, 0) == signal_from(
                signals_view(signals@),
                name@,
                j as int,
            ),
        decreases signals.len() - j,
    {
        j += 1;
    }
    j
}

/// Where the signal `name` of the message `id` stands among `messages`.
fn find_target(messages: &Vec<Message>, id: u32, name: &String) -> (r: Option<(usize, usize)>)
    ensures
        match r {
            Some((i, j)) => target_of(messages_view(messages@), id, name@) == Some(
                (i as int, j as int),
            ) && i < messages.len() && j < messages[i as int].signals.len(),
            None => target_of(messages_view(messages@), id, name@) is None,
        },
{
    let i: usize = find_message(messages, id);
    if i < messages.len() {
        let j: usize = find_signal(&messages[i].signals, name);
        if j < messages[i].signals.len() {
            Some((i, j))
        } else {
            None
        }
    } else {
        None
    }
}

impl Parser {
    /// A reader that has read nothing yet.
    pub fn new() -> (p: Parser)
        ensures
            p@ == ParserModel::initial(),
    {
        let p = Parser { messages: Vec::new(), open: false };
        assert(messages_view(p.messages@) =~= Seq::empty());
        p
    }

    /// Closes the open message, if any, and opens `message`, if there is
    /// one.
    pub fn open_message(&mut self, message: Option<Message>)
        ensures
            final(self)@ == old(self)@.open_message(
                match message {
                    Some(m) => Some(m@),
                    None => None,
                },
            ),
    {
        assert(old(self)@.visible() =~= messages_view(old(self).messages@));
        match message {
            Some(m) => {
                self.messages.push(m);
                self.open = true;
                assert(messages_view(self.messages@).drop_last() =~= messages_view(
                    old(self).messages@,
                ));
            },
            None => {
                self.open = false;
            },
        }
    }

    /// Appends `signal` to the open message; does nothing where none is
    /// open.
    pub fn add_signal(&mut self, signal: Signal)
        ensures
            final(self)@ == old(self)@.add_signal(signal@),
    {
        if self.open && self.messages.len() > 0 {
            let last: usize = self.messages.len() - 1;
            self.messages[last].signals.push(signal);
            assert(messages_view(self.messages@).drop_last() =~= messages_view(
                old(self).messages@,
            ).drop_last());
            assert(self.messages@.last()@.signals =~= old(self).messages@.last()@.signals.push(
                signal@,
            ));
        }
    }

    /// Whether a message is open.
    pub fn has_open_message(&self) -> (b: bool)
        ensures
            b == (self@.current is Some),
    {
        self.open && self.messages.len() > 0
    }

    /// Sets the comment of the first message whose identifier is `id`, among
    /// all messages read so far; does nothing where there is none.
    pub fn set_message_comment(&mut self, id: u32, text: String)
        ensures
            final(self)@ == old(self)@.set_message_comment(id, text@),
    {
        assert(old(self)@.visible() =~= messages_view(old(self).messages@));
        let i: usize = find_message(&self.messages, id);
        if i < self.messages.len() {
            self.messages[i].comment = Some(text);
            assert(messages_view(self.messages@) =~= with_message_comment(
                messages_view(old(self).messages@),
                id,
                text@,
            ));
        }
    }

    /// Whether a signal `name` of a message `id` has been read.
    pub fn has_signal(&self, id: u32, name: &String) -> (b: bool)
        ensures
            b == (target_of(self@.visible(), id, name@) is Some),
    {
        assert(self@.visible() =~= messages_view(self.messages@));
        find_target(&self.messages, id, name).is_some()
    }

    /// Sets the comment of the signal `name` of the message `id`; does
    /// nothing where no such signal has been read.
    pub fn set_signal_comment(&mut self, id: u32, name: &String, text: String)
        ensures
            final(self)@ == old(self)@.set_signal_comment(id, name@, text@),
    {
        assert(old(self)@.visible() =~= messages_view(old(self).messages@));
        match find_target(&self.messages, id, name) {
            Some((i, j)) => {
                self.messages[i].signals[j].comment = Some(text);
                let ghost before = old(self).messages@[i as int]@.signals;
                let ghost signal = self.messages@[i as int].signals@[j as int]@;
                assert(self.messages@[i as int]@.signals =~= before.update(j as int, signal));
                assert(messages_view(self.messages@) =~= with_signal_comment(
                    messages_view(old(self).messages@),
                    id,
                    name@,
                    text@,
                ));
            },
            None => {},
        }
    }

    /// Sets the value table of the signal `name` of the message `id`, in
    /// place of any it had; does nothing where no such signal has been read.
    pub fn set_value_descriptions(&mut self, id: u32, name: &String, labels: HashMap<u32, String>)
        ensures
            final(self)@ == old(self)@.set_value_descriptions(
                id,
                name@,
                labels_of(labels),
            ),
    {
        assert(old(self)@.visible() =~= messages_view(old(self).messages@));
        match find_target(&self.messages, id, name) {
            Some((i, j)) => {
                self.messages[i].signals[j].value_descriptions = Some(labels);
                let ghost before = old(self).messages@[i as int]@.signals;
                let ghost signal = self.messages@[i as int].signals@[j as int]@;
                assert(self.messages@[i as int]@.signals =~= before.update(j as int, signal));
                assert(messages_view(self.messages@) =~= with_value_descriptions(
                    messages_view(old(self).messages@),
                    id,
                    name@,
                    labels_of(labels),
                ));
            },
            None => {},
        }
    }

    /// The network read so far; the open message is part of it.
    pub fn finish(self) -> (data: DBCData)
        ensures
            data@.messages == self@.visible(),
    {
        assert(self@.visible() =~= messages_view(self.messages@));
        DBCData { messages: self.messages }
    }

    /// Reads one line, given as its characters.
    ///
    /// The line is read in full or, where a pattern it needs is refused, not
    /// at all. A signal line needs its pattern only while a message is open.
    pub fn feed(&mut self, line: &[char]) -> (r: Result<(), ParseError>)
        ensures
            r is Ok ==> final(self)@ == step(old(self)@, line@),
            r is Err ==> final(self)@ == old(self)@ && needs_pattern(old(self)@, line@),
    {
        match classify(line) {
            LineKind::Message => {
                self.open_message(message_from_line(line));
                Ok(())
            },
            LineKind::Signal => {
                if !self.has_open_message() {
                    return Ok(());
                }
                let body: usize = skip_spaces(line, 0);
                assert(line@.subrange(body as int, line@.len() as int) =~= trim_start(line@));
                let text = text_of(&line[body..line.len()]);
                match capture_groups(SIGNAL_PATTERN, text.as_str()) {
                    Err(e) => Err(e),
                    Ok(None) => Ok(()),
                    Ok(Some(groups)) => {
                        match signal_from_groups(&groups) {
                            Some(signal) => self.add_signal(signal),
                            None => {},
                        }
                        Ok(())
                    },
                }
            },
            LineKind::MessageComment => {
                let text = text_of(line);
                match capture_groups(MESSAGE_COMMENT_PATTERN, text.as_str()) {
                    Err(e) => Err(e),
                    Ok(None) => Ok(()),
                    Ok(Some(groups)) => {
                        match number_and_text_from_groups(&groups) {
                            Some((id, comment)) => self.set_message_comment(id, comment),
                            None => {},
                        }
                        Ok(())
                    },
                }
            },
            LineKind::SignalComment => {
                let text = text_of(line);
                match capture_groups(SIGNAL_COMMENT_PATTERN, text.as_str()) {
                    Err(e) => Err(e),
                    Ok(None) => Ok(()),
                    Ok(Some(groups)) => {
                        match number_name_and_text_from_groups(&groups) {
                            Some((id, name, comment)) => self.set_signal_comment(
                                id,
                                &name,
                                comment,
                            ),
                            None => {},
                        }
                        Ok(())
                    },
                }
            },
            LineKind::ValueTable => {
                let text = text_of(line);
                match capture_groups(VALUE_TABLE_PATTERN, text.as_str()) {
                    Err(e) => Err(e),
                    Ok(None) => Ok(()),
                    Ok(Some(groups)) => match number_name_and_text_from_groups(&groups) {
                        Some((id, name, pairs)) => {
                            if !self.has_signal(id, &name) {
                                assert(self@.set_value_descriptions(
                                    id,
                                    name@,
                                    value_map_of(all_captures_of(VALUE_PAIR_PATTERN@, pairs@)),
                                ) == self@) by {
                                    self@.lemma_holding_visible();
                                }
                                return Ok(());
                            }
                            match capture_all_groups(VALUE_PAIR_PATTERN, pairs.as_str()) {
                                Err(e) => Err(e),
                                Ok(found) => {
                                    self.set_value_descriptions(
                                        id,
                                        &name,
                                        value_map_from_pairs(&found),
                                    );
                                    Ok(())
                                },
                            }
                        },
                        None => Ok(()),
                    },
                }
            },
            LineKind::Other => Ok(()),
        }
    }

    /// Reads one line.
    pub fn feed_line(&mut self, line: &str) -> (r: Result<(), ParseError>)
        ensures
            r is Ok ==> final(self)@ == step(old(self)@, line@),
            r is Err ==> final(self)@ == old(self)@ && needs_pattern(old(self)@, line@),
    {
        let chars = to_chars(line);
        self.feed(chars.as_slice())
    }
}

impl ParserModel {
    /// A state is rebuilt from the messages it shows and from whether one is
    /// open.
    pub proof fn lemma_holding_visible(self)
        ensures
            ParserModel::holding(self.visible(), self.current is Some) == self,
    {
        match self.current {
            Some(m) => {
                assert(self.flushed.push(m).drop_last() =~= self.flushed);
            },
            None => {},
        }
    }
}

/// Reads the description `dbc` and returns the network it defines.
///
/// Lines that cannot be read are passed over; the only failure is a pattern
/// that is refused when a line needs it. A description none of whose lines
/// needs a pattern is always read.
pub fn parse_dbc_text(dbc: &str) -> (r: Result<DBCData, ParseError>)
    ensures
        r matches Ok(data) ==> data@ == network_of(dbc@),
        pattern_free(lines(dbc@)) ==> r is Ok,
{
    let chars = to_chars(dbc);
    let text: &[char] = chars.as_slice();
    let mut parser = Parser::new();
    let mut at: usize = 0;
    while at < text.len()
        invariant
            at <= text.len(),
            text@ == dbc@,
            run(parser@, lines_from(text@, at as int)) == run(
                ParserModel::initial(),
                lines(text@),
            ),
            pattern_free(lines(text@)) ==> pattern_free(lines_from(text@, at as int)),
        decreases text.len() - at,
    {
        let (end, next) = next_line(text, at);
        let ghost rest = lines_from(text@, at as int);
        proof {
            assert(rest.drop_first() =~= lines_from(text@, next as int));
            assert(rest[0] == text@.subrange(at as int, end as int));
            if pattern_free(rest) {
                assert forall|k: int| 0 <= k < rest.drop_first().len() implies !uses_pattern(
                    kind_of(#[trigger] rest.drop_first()[k]),
                ) by {
                    assert(rest.drop_first()[k] == rest[k + 1]);
                }
            }
        }
        match parser.feed(&text[at..end]) {
            Ok(()) => {},
            Err(e) => {
                assert(!pattern_free(rest));
                return Err(e);
            },
        }
        at = next;
    }
    let data = parser.finish();
    assert(data@ == network_of(dbc@));
    Ok(data)
}

} // verus!
