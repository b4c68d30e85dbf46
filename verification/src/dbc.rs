//! Record types for the line-oriented DBC grammar.
//!
//! Each recognised line shape of a DBC file becomes one variant of [`Entry`].
//! Records are ephemeral: the grammar produces them and the merge engine in
//! [`crate::pgn`] consumes them.  Text is carried as bytes of the decoded
//! source, so the grammar and the merge engine stay independent of any
//! character encoding.

use crate::decimal::Decimal;
use vstd::prelude::*;

verus! {

/// A `VERSION` line: the quoted version text.
#[derive(Clone, PartialEq, Debug)]
pub struct Version(pub Vec<u8>);

/// A `BS_:` line: the bus baud rate.
#[derive(Clone, Copy, PartialEq, Eq, Structural, Debug)]
pub struct BusConfiguration(pub u32);

/// A `BO_` line: a message definition.
#[derive(Clone, PartialEq, Debug)]
pub struct MessageDefinition {
    pub id: u32,
    pub name: Vec<u8>,
    pub message_len: u32,
    pub sending_node: Vec<u8>,
}

/// A `CM_ BO_` line: a free-text message description.
#[derive(Clone, PartialEq, Debug)]
pub struct MessageDescription {
    pub id: u32,
    pub signal_name: Vec<u8>,
    pub description: Vec<u8>,
}

/// A `BA_ ... BO_` line: a numeric attribute attached to a message.
#[derive(Clone, PartialEq, Debug)]
pub struct MessageAttribute {
    pub name: Vec<u8>,
    pub signal_name: Vec<u8>,
    pub id: u32,
    pub value: Vec<u8>,
}

/// An `SG_` line: a signal definition inside the preceding message.
#[derive(Clone, PartialEq, Debug)]
pub struct SignalDefinition {
    pub name: Vec<u8>,
    pub start_bit: usize,
    pub bit_len: usize,
    pub little_endian: bool,
    pub signed: bool,
    pub scale: Decimal,
    pub offset: Decimal,
    pub min_value: Decimal,
    pub max_value: Decimal,
    pub units: Vec<u8>,
    pub receiving_node: Vec<u8>,
}

/// A `CM_ SG_` line: a free-text signal description.
#[derive(Clone, PartialEq, Debug)]
pub struct SignalDescription {
    pub id: u32,
    pub signal_name: Vec<u8>,
    pub description: Vec<u8>,
}

/// A `BA_ ... SG_` line: a numeric attribute attached to a signal.
#[derive(Clone, PartialEq, Debug)]
pub struct SignalAttribute {
    pub name: Vec<u8>,
    pub id: u32,
    pub signal_name: Vec<u8>,
    pub value: Vec<u8>,
}

/// One parsed DBC line, as a tagged union over the recognised shapes.
/// A line that matches no grammar is kept verbatim as `Unknown`.
#[derive(Clone, PartialEq, Debug)]
pub enum Entry {
    Version(Version),
    BusConfiguration(BusConfiguration),
    MessageDefinition(MessageDefinition),
    MessageDescription(MessageDescription),
    MessageAttribute(MessageAttribute),
    SignalDefinition(SignalDefinition),
    SignalDescription(SignalDescription),
    SignalAttribute(SignalAttribute),
    Unknown(Vec<u8>),
}

/// The shape of an [`Entry`], without its payload.
#[derive(Clone, Copy, PartialEq, Eq, Structural, Debug)]
pub enum EntryType {
    Version,
    BusConfiguration,
    MessageDefinition,
    MessageDescription,
    MessageAttribute,
    SignalDefinition,
    SignalDescription,
    SignalAttribute,
    Unknown,
}

/// Mathematical view of a [`Version`].
pub struct VersionView {
    pub text: Seq<u8>,
}

/// Mathematical view of a [`MessageDefinition`].
pub struct MessageDefinitionView {
    pub id: u32,
    pub name: Seq<u8>,
    pub message_len: u32,
    pub sending_node: Seq<u8>,
}

/// Mathematical view of a [`MessageDescription`].
pub struct MessageDescriptionView {
    pub id: u32,
    pub signal_name: Seq<u8>,
    pub description: Seq<u8>,
}

/// Mathematical view of a [`MessageAttribute`].
pub struct MessageAttributeView {
    pub name: Seq<u8>,
    pub signal_name: Seq<u8>,
    pub id: u32,
    pub value: Seq<u8>,
}

/// Mathematical view of a [`SignalDefinition`].
pub struct SignalDefinitionView {
    pub name: Seq<u8>,
    pub start_bit: usize,
    pub bit_len: usize,
    pub little_endian: bool,
    pub signed: bool,
    pub scale: Decimal,
    pub offset: Decimal,
    pub min_value: Decimal,
    pub max_value: Decimal,
    pub units: Seq<u8>,
    pub receiving_node: Seq<u8>,
}

/// Mathematical view of a [`SignalDescription`].
pub struct SignalDescriptionView {
    pub id: u32,
    pub signal_name: Seq<u8>,
    pub description: Seq<u8>,
}

/// Mathematical view of a [`SignalAttribute`].
pub struct SignalAttributeView {
    pub name: Seq<u8>,
    pub id: u32,
    pub signal_name: Seq<u8>,
    pub value: Seq<u8>,
}

/// Mathematical view of an [`Entry`].
pub enum EntryView {
    Version(VersionView),
    BusConfiguration(u32),
    MessageDefinition(MessageDefinitionView),
    MessageDescription(MessageDescriptionView),
    MessageAttribute(MessageAttributeView),
    SignalDefinition(SignalDefinitionView),
    SignalDescription(SignalDescriptionView),
    SignalAttribute(SignalAttributeView),
    Unknown(Seq<u8>),
}

impl View for Version {
    type V = VersionView;

    open spec fn view(&self) -> VersionView {
        VersionView { text: self.0@ }
    }
}

impl View for MessageDefinition {
    type V = MessageDefinitionView;

    open spec fn view(&self) -> MessageDefinitionView {
        MessageDefinitionView {
            id: self.id,
            name: self.name@,
            message_len: self.message_len,
            sending_node: self.sending_node@,
        }
    }
}

impl View for MessageDescription {
    type V = MessageDescriptionView;

    open spec fn view(&self) -> MessageDescriptionView {
        MessageDescriptionView {
            id: self.id,
            signal_name: self.signal_name@,
            description: self.description@,
        }
    }
}

impl View for MessageAttribute {
    type V = MessageAttributeView;

    open spec fn view(&self) -> MessageAttributeView {
        MessageAttributeView {
            name: self.name@,
            signal_name: self.signal_name@,
            id: self.id,
            value: self.value@,
        }
    }
}

impl View for SignalDefinition {
    type V = SignalDefinitionView;

    open spec fn view(&self) -> SignalDefinitionView {
        SignalDefinitionView {
            name: self.name@,
            start_bit: self.start_bit,
            bit_len: self.bit_len,
            little_endian: self.little_endian,
            signed: self.signed,
            scale: self.scale,
            offset: self.offset,
            min_value: self.min_value,
            max_value: self.max_value,
            units: self.units@,
            receiving_node: self.receiving_node@,
        }
    }
}

impl View for SignalDescription {
    type V = SignalDescriptionView;

    open spec fn view(&self) -> SignalDescriptionView {
        SignalDescriptionView {
            id: self.id,
            signal_name: self.signal_name@,
            description: self.description@,
        }
    }
}

impl View for SignalAttribute {
    type V = SignalAttributeView;

    open spec fn view(&self) -> SignalAttributeView {
        SignalAttributeView {
            name: self.name@,
            id: self.id,
            signal_name: self.signal_name@,
            value: self.value@,
        }
    }
}

impl View for Entry {
    type V = EntryView;

    open spec fn view(&self) -> EntryView {
        match self {
            Entry::Version(v) => EntryView::Version(v@),
            Entry::BusConfiguration(b) => EntryView::BusConfiguration(b.0),
            Entry::MessageDefinition(m) => EntryView::MessageDefinition(m@),
            Entry::MessageDescription(m) => EntryView::MessageDescription(m@),
            Entry::MessageAttribute(m) => EntryView::MessageAttribute(m@),
            Entry::SignalDefinition(s) => EntryView::SignalDefinition(s@),
            Entry::SignalDescription(s) => EntryView::SignalDescription(s@),
            Entry::SignalAttribute(s) => EntryView::SignalAttribute(s@),
            Entry::Unknown(t) => EntryView::Unknown(t@),
        }
    }
}

/// The [`EntryType`] that belongs to each [`EntryView`] variant.
pub open spec fn spec_entry_type(e: EntryView) -> EntryType {
    match e {
        EntryView::Version(_) => EntryType::Version,
        EntryView::BusConfiguration(_) => EntryType::BusConfiguration,
        EntryView::MessageDefinition(_) => EntryType::MessageDefinition,
        EntryView::MessageDescription(_) => EntryType::MessageDescription,
        EntryView::MessageAttribute(_) => EntryType::MessageAttribute,
        EntryView::SignalDefinition(_) => EntryType::SignalDefinition,
        EntryView::SignalDescription(_) => EntryType::SignalDescription,
        EntryView::SignalAttribute(_) => EntryType::SignalAttribute,
        EntryView::Unknown(_) => EntryType::Unknown,
    }
}

impl Entry {
    /// Returns the shape of this record.
    pub fn get_type(&self) -> (t: EntryType)
        ensures
            t == spec_entry_type(self@),
    {
        match self {
            Entry::Version(_) => EntryType::Version,
            Entry::BusConfiguration(_) => EntryType::BusConfiguration,
            Entry::MessageDefinition(_) => EntryType::MessageDefinition,
            Entry::MessageDescription(_) => EntryType::MessageDescription,
            Entry::MessageAttribute(_) => EntryType::MessageAttribute,
            Entry::SignalDefinition(_) => EntryType::SignalDefinition,
            Entry::SignalDescription(_) => EntryType::SignalDescription,
            Entry::SignalAttribute(_) => EntryType::SignalAttribute,
            Entry::Unknown(_) => EntryType::Unknown,
        }
    }
}

/// Error of the grammar dispatcher: the input holds no complete line, so no
/// record (not even `Unknown`) could be produced.
#[derive(Clone, Copy, PartialEq, Eq, Structural, Debug)]
pub struct ParseEntryError;

impl ParseEntryError {
    /// A short description of the failure.
    pub fn message(&self) -> (r: &'static str)
        ensures
            r@ == "input ended before a line terminator"@,
    {
        "input ended before a line terminator"
    }
}

} // verus!
