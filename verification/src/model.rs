//! The network that a description defines: messages and their signals, as
//! executable types and as the mathematical values that contracts speak of.

use std::collections::HashMap;
use vstd::prelude::*;

verus! {

/// How the bits of a signal are laid out in the frame.
#[derive(Clone, Copy, Debug, PartialEq, Eq)]
pub enum ByteOrder {
    LittleEndian,
    BigEndian,
}

/// The mathematical value of a [`Signal`].
pub struct SignalModel {
    pub name: Seq<char>,
    pub start_bit: u32,
    pub length: u32,
    pub byte_order: ByteOrder,
    pub is_signed: bool,
    pub scale: Seq<char>,
    pub offset: Seq<char>,
    pub min: Seq<char>,
    pub max: Seq<char>,
    pub comment: Option<Seq<char>>,
    pub value_descriptions: Option<Map<u32, Seq<char>>>,
}

/// The mathematical value of a [`Message`].
pub struct MessageModel {
    pub id: u32,
    pub name: Seq<char>,
    pub dlc: u8,
    pub node: Seq<char>,
    pub pgn: u32,
    pub sa: u32,
    pub priority: u32,
    pub signals: Seq<SignalModel>,
    pub comment: Option<Seq<char>>,
}

/// The mathematical value of a [`DBCData`].
pub struct NetworkModel {
    pub messages: Seq<MessageModel>,
}

/// One bit field of a message.
///
/// The four physical-unit parameters `scale`, `offset`, `min` and `max` are
/// kept as the decimal text that the description gives for them.
#[derive(Clone, Debug, PartialEq, Eq)]
pub struct Signal {
    pub name: String,
    pub start_bit: u32,
    pub length: u32,
    pub byte_order: ByteOrder,
    pub is_signed: bool,
    pub scale: String,
    pub offset: String,
    pub min: String,
    pub max: String,
    pub comment: Option<String>,
    pub value_descriptions: Option<HashMap<u32, String>>,
}

/// One frame definition with the signals it carries.
#[derive(Clone, Debug, PartialEq, Eq)]
pub struct Message {
    pub id: u32,
    pub name: String,
    pub dlc: u8,
    pub node: String,
    pub pgn: u32,
    pub sa: u32,
    pub priority: u32,
    pub signals: Vec<Signal>,
    pub comment: Option<String>,
}

/// A whole network: its messages in the order in which the description
/// introduces them.
#[derive(Clone, Debug, PartialEq, Eq)]
pub struct DBCData {
    pub messages: Vec<Message>,
}

/// The characters of an optional text.
pub open spec fn text_view(text: Option<String>) -> Option<Seq<char>> {
    match text {
        Some(t) => Some(t@),
        None => None,
    }
}

/// The labels of a value table, each as its characters.
pub open spec fn labels_of(labels: HashMap<u32, String>) -> Map<u32, Seq<char>> {
    labels@.map_values(|label: String| label@)
}

/// The labels of an optional value table.
pub open spec fn labels_view(labels: Option<HashMap<u32, String>>) -> Option<
    Map<u32, Seq<char>>,
> {
    match labels {
        Some(m) => Some(labels_of(m)),
        None => None,
    }
}

impl View for Signal {
    type V = SignalModel;

    open spec fn view(&self) -> SignalModel {
        SignalModel {
            name: self.name@,
            start_bit: self.start_bit,
            length: self.length,
            byte_order: self.byte_order,
            is_signed: self.is_signed,
            scale: self.scale@,
            offset: self.offset@,
            min: self.min@,
            max: self.max@,
            comment: text_view(self.comment),
            value_descriptions: labels_view(self.value_descriptions),
        }
    }
}

/// The values of a sequence of signals.
pub open spec fn signals_view(signals: Seq<Signal>) -> Seq<SignalModel> {
    signals.map_values(|s: Signal| s@)
}

impl View for Message {
    type V = MessageModel;

    open spec fn view(&self) -> MessageModel {
        MessageModel {
            id: self.id,
            name: self.name@,
            dlc: self.dlc,
            node: self.node@,
            pgn: self.pgn,
            sa: self.sa,
            priority: self.priority,
            signals: signals_view(self.signals@),
            comment: text_view(self.comment),
        }
    }
}

/// The values of a sequence of messages.
pub open spec fn messages_view(messages: Seq<Message>) -> Seq<MessageModel> {
    messages.map_values(|m: Message| m@)
}

impl View for DBCData {
    type V = NetworkModel;

    open spec fn view(&self) -> NetworkModel {
        NetworkModel { messages: messages_view(self.messages@) }
    }
}

/// The parameter group number that the identifier `id` encodes: bits 8 to 25.
pub open spec fn pgn_of(id: u32) -> u32 {
    (id >> 8) & 0x3FFFF
}

/// The source address that the identifier `id` encodes: bits 0 to 7.
pub open spec fn sa_of(id: u32) -> u32 {
    id & 0xFF
}

/// The priority that the identifier `id` encodes: bits 26 to 28.
pub open spec fn priority_of(id: u32) -> u32 {
    (id >> 26) & 0x7
}

impl MessageModel {
    /// Whether the three derived fields are those that `id` encodes.
    pub open spec fn derived_from_id(self) -> bool {
        &&& self.pgn == pgn_of(self.id)
        &&& self.sa == sa_of(self.id)
        &&& self.priority == priority_of(self.id)
    }
}

/// The parameter group number of `id`.
pub fn pgn(id: u32) -> (r: u32)
    ensures
        r == pgn_of(id),
        r == (id / 0x100) % 0x40000,
{
    assert((id >> 8) & 0x3FFFF == (id / 0x100) % 0x40000) by (bit_vector);
    (id >> 8) & 0x3FFFF
}

/// The source address of `id`.
pub fn sa(id: u32) -> (r: u32)
    ensures
        r == sa_of(id),
        r == id % 0x100,
{
    assert(id & 0xFF == id % 0x100) by (bit_vector);
    id & 0xFF
}

/// The priority of `id`.
pub fn priority(id: u32) -> (r: u32)
    ensures
        r == priority_of(id),
        r == (id / 0x400_0000) % 8,
{
    assert((id >> 26) & 0x7 == (id / 0x400_0000) % 8) by (bit_vector);
    (id >> 26) & 0x7
}

} // verus!
