//! The definition merge engine.
//!
//! DBC records arrive as partial, cross-referencing fragments.  The
//! [`PgnLibrary`] folds them into complete per-message ([`PgnDefinition`])
//! and per-signal ([`SpnDefinition`]) definitions, keyed by the numeric
//! message id and the signal name.  The engine's view is a map from id to
//! message view, each holding a map from signal name to signal view; every
//! merge step is specified as a pure transition on that view.

use crate::dbc::{
    Entry, EntryType, EntryView, MessageDefinitionView, ParseEntryError, SignalAttribute,
    SignalAttributeView, SignalDefinition, SignalDefinitionView, SignalDescription,
    SignalDescriptionView, spec_entry_type,
};
use crate::decimal::Decimal;
use crate::parser::{entry, SpecParse, spec_entry};
use crate::scan::{digits_value, lemma_scan_digits, spec_scan_digits};
use vstd::prelude::*;

verus! {

/// Suspect Parameter Number definition: one named signal inside a message.
#[derive(Clone, PartialEq, Debug)]
pub struct SpnDefinition {
    pub name: Vec<u8>,
    pub number: usize,
    pub id: u32,
    pub description: Vec<u8>,
    pub start_bit: usize,
    pub bit_len: usize,
    pub little_endian: bool,
    pub signed: bool,
    pub scale: Decimal,
    pub offset: Decimal,
    pub min_value: Decimal,
    pub max_value: Decimal,
    pub units: Vec<u8>,
}

/// Mathematical view of a [`SpnDefinition`].
pub struct SpnView {
    pub name: Seq<u8>,
    pub number: usize,
    pub id: u32,
    pub description: Seq<u8>,
    pub start_bit: usize,
    pub bit_len: usize,
    pub little_endian: bool,
    pub signed: bool,
    pub scale: Decimal,
    pub offset: Decimal,
    pub min_value: Decimal,
    pub max_value: Decimal,
    pub units: Seq<u8>,
}

impl View for SpnDefinition {
    type V = SpnView;

    open spec fn view(&self) -> SpnView {
        SpnView {
            name: self.name@,
            number: self.number,
            id: self.id,
            description: self.description@,
            start_bit: self.start_bit,
            bit_len: self.bit_len,
            little_endian: self.little_endian,
            signed: self.signed,
            scale: self.scale,
            offset: self.offset,
            min_value: self.min_value,
            max_value: self.max_value,
            units: self.units@,
        }
    }
}

impl SpnDefinition {
    /// Builds a signal definition from its parts.
    pub fn new(
        name: Vec<u8>,
        number: usize,
        id: u32,
        description: Vec<u8>,
        start_bit: usize,
        bit_len: usize,
        little_endian: bool,
        signed: bool,
        scale: Decimal,
        offset: Decimal,
        min_value: Decimal,
        max_value: Decimal,
        units: Vec<u8>,
    ) -> (r: Self)
        ensures
            r@ == (SpnView {
                name: name@,
                number,
                id,
                description: description@,
                start_bit,
                bit_len,
                little_endian,
                signed,
                scale,
                offset,
                min_value,
                max_value,
                units: units@,
            }),
    {
        SpnDefinition {
            name,
            number,
            id,
            description,
            start_bit,
            bit_len,
            little_endian,
            signed,
            scale,
            offset,
            min_value,
            max_value,
            units,
        }
    }
}

/// No two signals of one message share a name.
pub open spec fn unique_spn_names(s: Seq<SpnDefinition>) -> bool {
    forall|i: int, j: int| 0 <= i < j < s.len() ==> s[i].name@ != s[j].name@
}

/// The signal map a sequence of definitions stands for, keyed by name.
pub open spec fn spns_map(s: Seq<SpnDefinition>) -> Map<Seq<u8>, SpnView>
    decreases s.len(),
{
    if s.len() == 0 {
        Map::empty()
    } else {
        spns_map(s.drop_last()).insert(s.last().name@, s.last()@)
    }
}

pub proof fn lemma_spns_map_contains(s: Seq<SpnDefinition>, k: Seq<u8>)
    ensures
        spns_map(s).contains_key(k) <==> exists|i: int|
            0 <= i < s.len() && (#[trigger] s[i]).name@ == k,
    decreases s.len(),
{
    if s.len() > 0 {
        lemma_spns_map_contains(s.drop_last(), k);
        if spns_map(s).contains_key(k) {
            if s.last().name@ == k {
                assert(s[s.len() - 1].name@ == k);
            } else {
                let i = choose|i: int| 0 <= i < s.drop_last().len() && (#[trigger] s.drop_last()[
                    i
                ]).name@ == k;
                assert(s[i].name@ == k);
            }
        }
        if exists|i: int| 0 <= i < s.len() && (#[trigger] s[i]).name@ == k {
            let i = choose|i: int| 0 <= i < s.len() && (#[trigger] s[i]).name@ == k;
            if i < s.len() - 1 {
                assert(s.drop_last()[i].name@ == k);
            }
        }
    }
}

pub proof fn lemma_spns_map_index(s: Seq<SpnDefinition>, i: int)
    requires
        unique_spn_names(s),
        0 <= i < s.len(),
    ensures
        spns_map(s).contains_key(s[i].name@),
        spns_map(s)[s[i].name@] == s[i]@,
    decreases s.len(),
{
    if i == s.len() - 1 {
    } else {
        assert(s.drop_last()[i] == s[i]);
        lemma_spns_map_index(s.drop_last(), i);
        assert(s[i].name@ != s.last().name@);
    }
}

pub proof fn lemma_spns_map_update(s: Seq<SpnDefinition>, i: int, v: SpnDefinition)
    requires
        unique_spn_names(s),
        0 <= i < s.len(),
        v.name@ == s[i].name@,
    ensures
        spns_map(s.update(i, v)) == spns_map(s).insert(v.name@, v@),
        unique_spn_names(s.update(i, v)),
    decreases s.len(),
{
    let su = s.update(i, v);
    assert(unique_spn_names(su)) by {
        assert forall|a: int, b: int| 0 <= a < b < su.len() implies su[a].name@ != su[b].name@
            by {
            assert(s[a].name@ != s[b].name@);
        }
    }
    if i == s.len() - 1 {
        assert(su.drop_last() =~= s.drop_last());
        assert(spns_map(su) == spns_map(s.drop_last()).insert(v.name@, v@));
        assert(spns_map(s).insert(v.name@, v@) == spns_map(s.drop_last()).insert(
            s.last().name@,
            s.last()@,
        ).insert(v.name@, v@));
        assert(spns_map(s.drop_last()).insert(s.last().name@, s.last()@).insert(v.name@, v@)
            =~= spns_map(s.drop_last()).insert(v.name@, v@));
    } else {
        assert(su.drop_last() =~= s.drop_last().update(i, v));
        assert(unique_spn_names(s.drop_last())) by {
            assert forall|a: int, b: int|
                0 <= a < b < s.drop_last().len() implies s.drop_last()[a].name@ != s.drop_last()[
                b
            ].name@ by {
                assert(s[a].name@ != s[b].name@);
            }
        }
        assert(s.drop_last()[i] == s[i]);
        lemma_spns_map_update(s.drop_last(), i, v);
        assert(su.last() == s.last());
        assert(spns_map(su) == spns_map(s.drop_last()).insert(v.name@, v@).insert(
            s.last().name@,
            s.last()@,
        ));
        assert(s.last().name@ != v.name@);
        assert(spns_map(s.drop_last()).insert(v.name@, v@).insert(s.last().name@, s.last()@)
            =~= spns_map(s.drop_last()).insert(s.last().name@, s.last()@).insert(v.name@, v@));
    }
}

pub proof fn lemma_spns_map_push(s: Seq<SpnDefinition>, v: SpnDefinition)
    requires
        unique_spn_names(s),
        forall|i: int| 0 <= i < s.len() ==> (#[trigger] s[i]).name@ != v.name@,
    ensures
        spns_map(s.push(v)) == spns_map(s).insert(v.name@, v@),
        unique_spn_names(s.push(v)),
{
    assert(s.push(v).drop_last() =~= s);
    assert(s.push(v).last() == v);
    assert(unique_spn_names(s.push(v))) by {
        assert forall|a: int, b: int|
            0 <= a < b < s.push(v).len() implies s.push(v)[a].name@ != s.push(v)[b].name@ by {
            if b < s.len() {
                assert(s[a].name@ != s[b].name@);
            } else {
                assert(s.push(v)[b] == v);
                assert(s.push(v)[a] == s[a]);
            }
        }
    }
}

} // verus!

verus! {

/// Parameter Group Number definition: one message and its signals.
#[derive(Clone, PartialEq, Debug)]
pub struct PgnDefinition {
    pub id: u32,
    pub name_abbrev: Vec<u8>,
    pub description: Vec<u8>,
    pub length: u32,
    pub spns: Vec<SpnDefinition>,
}

/// Mathematical view of a [`PgnDefinition`]: plain fields plus the signal
/// map.
pub struct PgnView {
    pub id: u32,
    pub name_abbrev: Seq<u8>,
    pub description: Seq<u8>,
    pub length: u32,
    pub spns: Map<Seq<u8>, SpnView>,
}

impl View for PgnDefinition {
    type V = PgnView;

    open spec fn view(&self) -> PgnView {
        PgnView {
            id: self.id,
            name_abbrev: self.name_abbrev@,
            description: self.description@,
            length: self.length,
            spns: spns_map(self.spns@),
        }
    }
}

/// The source address inside a 29-bit CAN id.
pub open spec fn sa_of(id: u32) -> u32 {
    id & 0xFF
}

/// The parameter group number inside a 29-bit CAN id.
pub open spec fn pgn_of(id: u32) -> u32 {
    (id & 0x3FFFF00) >> 8u32
}

impl PgnDefinition {
    /// The message's signal names are unique, so the signal map loses
    /// nothing.
    pub open spec fn wf(&self) -> bool {
        unique_spn_names(self.spns@)
    }

    /// Builds a message definition from its parts.
    pub fn new(
        id: u32,
        name_abbrev: Vec<u8>,
        description: Vec<u8>,
        length: u32,
        spns: Vec<SpnDefinition>,
    ) -> (r: Self)
        requires
            unique_spn_names(spns@),
        ensures
            r.wf(),
            r@ == (PgnView {
                id,
                name_abbrev: name_abbrev@,
                description: description@,
                length,
                spns: spns_map(spns@),
            }),
    {
        PgnDefinition { id, name_abbrev, description, length, spns }
    }

    /// The message's source address.
    pub fn sa(&self) -> (r: u32)
        ensures
            r == sa_of(self.id),
    {
        self.id & 0xFF
    }

    /// The message's parameter group number.
    pub fn pgn(&self) -> (r: u32)
        ensures
            r == pgn_of(self.id),
    {
        (self.id & 0x3FFFF00) >> 8u32
    }
}

/// No two messages of one library share an id.
pub open spec fn unique_pgn_ids(s: Seq<PgnDefinition>) -> bool {
    forall|i: int, j: int| 0 <= i < j < s.len() ==> s[i].id != s[j].id
}

/// The message map a sequence of definitions stands for, keyed by id.
pub open spec fn pgns_map(s: Seq<PgnDefinition>) -> Map<u32, PgnView>
    decreases s.len(),
{
    if s.len() == 0 {
        Map::empty()
    } else {
        pgns_map(s.drop_last()).insert(s.last().id, s.last()@)
    }
}

pub proof fn lemma_pgns_map_contains(s: Seq<PgnDefinition>, k: u32)
    ensures
        pgns_map(s).contains_key(k) <==> exists|i: int|
            0 <= i < s.len() && (#[trigger] s[i]).id == k,
    decreases s.len(),
{
    if s.len() > 0 {
        lemma_pgns_map_contains(s.drop_last(), k);
        if pgns_map(s).contains_key(k) {
            if s.last().id == k {
                assert(s[s.len() - 1].id == k);
            } else {
                let i = choose|i: int| 0 <= i < s.drop_last().len() && (#[trigger] s.drop_last()[
                    i
                ]).id == k;
                assert(s[i].id == k);
            }
        }
        if exists|i: int| 0 <= i < s.len() && (#[trigger] s[i]).id == k {
            let i = choose|i: int| 0 <= i < s.len() && (#[trigger] s[i]).id == k;
            if i < s.len() - 1 {
                assert(s.drop_last()[i].id == k);
            }
        }
    }
}

pub proof fn lemma_pgns_map_index(s: Seq<PgnDefinition>, i: int)
    requires
        unique_pgn_ids(s),
        0 <= i < s.len(),
    ensures
        pgns_map(s).contains_key(s[i].id),
        pgns_map(s)[s[i].id] == s[i]@,
    decreases s.len(),
{
    if i == s.len() - 1 {
    } else {
        assert(s.drop_last()[i] == s[i]);
        lemma_pgns_map_index(s.drop_last(), i);
        assert(s[i].id != s.last().id);
    }
}

pub proof fn lemma_pgns_map_update(s: Seq<PgnDefinition>, i: int, v: PgnDefinition)
    requires
        unique_pgn_ids(s),
        0 <= i < s.len(),
        v.id == s[i].id,
    ensures
        pgns_map(s.update(i, v)) == pgns_map(s).insert(v.id, v@),
        unique_pgn_ids(s.update(i, v)),
    decreases s.len(),
{
    let su = s.update(i, v);
    assert(unique_pgn_ids(su)) by {
        assert forall|a: int, b: int| 0 <= a < b < su.len() implies su[a].id != su[b].id by {
            assert(s[a].id != s[b].id);
        }
    }
    if i == s.len() - 1 {
        assert(su.drop_last() =~= s.drop_last());
        assert(pgns_map(su) == pgns_map(s.drop_last()).insert(v.id, v@));
        assert(pgns_map(s).insert(v.id, v@) == pgns_map(s.drop_last()).insert(
            s.last().id,
            s.last()@,
        ).insert(v.id, v@));
        assert(pgns_map(s.drop_last()).insert(s.last().id, s.last()@).insert(v.id, v@)
            =~= pgns_map(s.drop_last()).insert(v.id, v@));
    } else {
        assert(su.drop_last() =~= s.drop_last().update(i, v));
        assert(unique_pgn_ids(s.drop_last())) by {
            assert forall|a: int, b: int|
                0 <= a < b < s.drop_last().len() implies s.drop_last()[a].id != s.drop_last()[
                b
            ].id by {
                assert(s[a].id != s[b].id);
            }
        }
        assert(s.drop_last()[i] == s[i]);
        lemma_pgns_map_update(s.drop_last(), i, v);
        assert(su.last() == s.last());
        assert(pgns_map(su) == pgns_map(s.drop_last()).insert(v.id, v@).insert(
            s.last().id,
            s.last()@,
        ));
        assert(s.last().id != v.id);
        assert(pgns_map(s.drop_last()).insert(v.id, v@).insert(s.last().id, s.last()@)
            =~= pgns_map(s.drop_last()).insert(s.last().id, s.last()@).insert(v.id, v@));
    }
}

pub proof fn lemma_pgns_map_push(s: Seq<PgnDefinition>, v: PgnDefinition)
    requires
        unique_pgn_ids(s),
        forall|i: int| 0 <= i < s.len() ==> (#[trigger] s[i]).id != v.id,
    ensures
        pgns_map(s.push(v)) == pgns_map(s).insert(v.id, v@),
        unique_pgn_ids(s.push(v)),
{
    assert(s.push(v).drop_last() =~= s);
    assert(s.push(v).last() == v);
    assert(unique_pgn_ids(s.push(v))) by {
        assert forall|a: int, b: int|
            0 <= a < b < s.push(v).len() implies s.push(v)[a].id != s.push(v)[b].id by {
            if b < s.len() {
                assert(s[a].id != s[b].id);
            } else {
                assert(s.push(v)[b] == v);
                assert(s.push(v)[a] == s[a]);
            }
        }
    }
}

} // verus!

verus! {

/// Internal kind of a `*Definition` conversion error.
#[derive(Clone, Copy, PartialEq, Eq, Structural, Debug)]
pub enum DefinitionErrorKind {
    /// The underlying record could not be parsed at all.
    Entry(ParseEntryError),
    /// The record kind contributes nothing to this definition.
    UnusedEntry(EntryType),
    /// An attribute value that must be numeric is not.
    InvalidAttributeValue,
}

impl DefinitionErrorKind {
    /// A short description of the error kind.
    pub fn __description(&self) -> (r: &'static str)
        ensures
            match *self {
                DefinitionErrorKind::Entry(_) => r@ == "internal Entry parsing error"@,
                DefinitionErrorKind::UnusedEntry(_) => r@
                    == "Entry type not applicable in constructing Definition"@,
                DefinitionErrorKind::InvalidAttributeValue => r@
                    == "attribute value is not a valid number"@,
            },
    {
        match self {
            DefinitionErrorKind::Entry(_) => "internal Entry parsing error",
            DefinitionErrorKind::UnusedEntry(_) => {
                "Entry type not applicable in constructing Definition"
            },
            DefinitionErrorKind::InvalidAttributeValue => {
                "attribute value is not a valid number"
            },
        }
    }

    /// The underlying record error, where there is one.
    pub fn __cause(&self) -> (r: Option<&ParseEntryError>)
        ensures
            match *self {
                DefinitionErrorKind::Entry(e) => r matches Some(x) && *x == e,
                _ => r is None,
            },
    {
        match self {
            DefinitionErrorKind::Entry(e) => Some(e),
            DefinitionErrorKind::UnusedEntry(_) => None,
            DefinitionErrorKind::InvalidAttributeValue => None,
        }
    }
}

/// Error returned on failure to convert a record into a `*Definition`.
#[derive(Clone, Copy, PartialEq, Eq, Structural, Debug)]
pub struct ParseDefinitionError {
    pub kind: DefinitionErrorKind,
}

impl ParseDefinitionError {
    /// A short description of the error.
    pub fn __description(&self) -> (r: &'static str)
        ensures
            match self.kind {
                DefinitionErrorKind::Entry(_) => r@ == "internal Entry parsing error"@,
                DefinitionErrorKind::UnusedEntry(_) => r@
                    == "Entry type not applicable in constructing Definition"@,
                DefinitionErrorKind::InvalidAttributeValue => r@
                    == "attribute value is not a valid number"@,
            },
    {
        self.kind.__description()
    }

    /// The underlying record error, where there is one.
    pub fn __cause(&self) -> (r: Option<&ParseEntryError>)
        ensures
            match self.kind {
                DefinitionErrorKind::Entry(e) => r matches Some(x) && *x == e,
                _ => r is None,
            },
    {
        self.kind.__cause()
    }
}

impl From<DefinitionErrorKind> for ParseDefinitionError {
    fn from(kind: DefinitionErrorKind) -> (r: Self) {
        ParseDefinitionError { kind }
    }
}

impl vstd::std_specs::convert::FromSpecImpl<DefinitionErrorKind> for ParseDefinitionError {
    open spec fn obeys_from_spec() -> bool {
        true
    }

    open spec fn from_spec(kind: DefinitionErrorKind) -> Self {
        ParseDefinitionError { kind }
    }
}

/// Error returned by [`PgnLibrary::add_entry`].
#[derive(Clone, Copy, PartialEq, Eq, Structural, Debug)]
pub enum AddEntryError {
    /// The record kind is not applicable to the library.
    Unsupported(EntryType),
    /// A signal definition arrived before any message established an id.
    NoCurrentMessage,
    /// An `SPN` attribute's value is not a representable number.
    BadAttributeValue,
}

impl AddEntryError {
    /// A short description of the error.
    pub fn message(&self) -> (r: &'static str)
        ensures
            match *self {
                AddEntryError::Unsupported(_) => r@ == "unsupported entry type"@,
                AddEntryError::NoCurrentMessage => r@
                    == "tried to add SignalDefinition without last ID"@,
                AddEntryError::BadAttributeValue => r@
                    == "attribute value is not a valid number"@,
            },
    {
        match self {
            AddEntryError::Unsupported(_) => "unsupported entry type",
            AddEntryError::NoCurrentMessage => {
                "tried to add SignalDefinition without last ID"
            },
            AddEntryError::BadAttributeValue => "attribute value is not a valid number",
        }
    }
}

/// The attribute name that carries a signal's numeric index.
pub open spec fn spec_spn_name() -> Seq<u8> {
    seq![83u8, 80u8, 78u8]
}

/// Reports whether an attribute name is exactly `SPN`.
pub fn is_spn_name(name: &Vec<u8>) -> (r: bool)
    ensures
        r == (name@ == spec_spn_name()),
{
    let r = name.len() == 3 && name[0] == 83 && name[1] == 80 && name[2] == 78;
    proof {
        if r {
            assert(name@ =~= spec_spn_name());
        } else {
            if name@.len() == 3 {
                assert(name@ != spec_spn_name()) by {
                    if name@ == spec_spn_name() {
                        assert(name@[0] == 83 && name@[1] == 80 && name@[2] == 78);
                    }
                }
            }
        }
    }
    r
}

/// The numeric value of an attribute's text, when the text is a non-empty
/// digit run whose value fits `usize`.
pub open spec fn spec_attr_number(text: Seq<u8>) -> Option<usize> {
    if text.len() > 0 && spec_scan_digits(text, 0) == text.len() && digits_value(
        text,
        0,
        text.len() as int,
    ) <= usize::MAX {
        Some(digits_value(text, 0, text.len() as int) as usize)
    } else {
        None
    }
}

/// Parses an attribute value as a number.
pub fn attr_number(text: &Vec<u8>) -> (r: Option<usize>)
    ensures
        r == spec_attr_number(text@),
{
    proof {
        lemma_scan_digits(text@, 0);
    }
    match crate::scan::scan_usize(text.as_slice(), 0) {
        None => None,
        Some((v, e)) => {
            if e == text.len() {
                Some(v)
            } else {
                None
            }
        },
    }
}

/// A fresh signal view from a signal definition record: name and geometry
/// from the record; index, owning id and description start empty.
pub open spec fn spn_from_signal_definition(sd: SignalDefinitionView) -> SpnView {
    SpnView {
        name: sd.name,
        number: 0,
        id: 0,
        description: Seq::empty(),
        start_bit: sd.start_bit,
        bit_len: sd.bit_len,
        little_endian: sd.little_endian,
        signed: sd.signed,
        scale: sd.scale,
        offset: sd.offset,
        min_value: sd.min_value,
        max_value: sd.max_value,
        units: sd.units,
    }
}

/// Merging a signal definition updates the geometry, scale, offset, minimum
/// and units; the index, owning id, description and maximum keep their
/// prior values.
pub open spec fn spn_merge_signal_definition(
    old: SpnView,
    sd: SignalDefinitionView,
) -> SpnView {
    SpnView {
        name: sd.name,
        start_bit: sd.start_bit,
        bit_len: sd.bit_len,
        little_endian: sd.little_endian,
        signed: sd.signed,
        scale: sd.scale,
        offset: sd.offset,
        min_value: sd.min_value,
        units: sd.units,
        number: old.number,
        id: old.id,
        description: old.description,
        max_value: old.max_value,
    }
}

/// A fresh signal view from a signal description record.
pub open spec fn spn_from_signal_description(d: SignalDescriptionView) -> SpnView {
    SpnView {
        name: d.signal_name,
        number: 0,
        id: d.id,
        description: d.description,
        start_bit: 0,
        bit_len: 0,
        little_endian: true,
        signed: false,
        scale: Decimal::spec_zero(),
        offset: Decimal::spec_zero(),
        min_value: Decimal::spec_zero(),
        max_value: Decimal::spec_zero(),
        units: Seq::empty(),
    }
}

/// Merging a signal description updates the name, owning id and description.
pub open spec fn spn_merge_signal_description(
    old: SpnView,
    d: SignalDescriptionView,
) -> SpnView {
    SpnView { name: d.signal_name, id: d.id, description: d.description, ..old }
}

/// A fresh signal view from an `SPN` attribute record with parsed value `n`.
pub open spec fn spn_from_signal_attribute(a: SignalAttributeView, n: usize) -> SpnView {
    SpnView {
        name: a.signal_name,
        number: n,
        id: a.id,
        description: Seq::empty(),
        start_bit: 0,
        bit_len: 0,
        little_endian: true,
        signed: false,
        scale: Decimal::spec_zero(),
        offset: Decimal::spec_zero(),
        min_value: Decimal::spec_zero(),
        max_value: Decimal::spec_zero(),
        units: Seq::empty(),
    }
}

/// Merging an `SPN` attribute updates the name, owning id and numeric index.
pub open spec fn spn_merge_signal_attribute(
    old: SpnView,
    a: SignalAttributeView,
    n: usize,
) -> SpnView {
    SpnView { name: a.signal_name, id: a.id, number: n, ..old }
}

/// The transition a record makes on a signal view, or the error it raises.
pub open spec fn spec_spn_merge_entry(
    old: SpnView,
    e: EntryView,
) -> Result<SpnView, DefinitionErrorKind> {
    match e {
        EntryView::SignalDefinition(sd) => Ok(spn_merge_signal_definition(old, sd)),
        EntryView::SignalDescription(d) => Ok(spn_merge_signal_description(old, d)),
        EntryView::SignalAttribute(a) => match spec_attr_number(a.value) {
            Some(n) => Ok(spn_merge_signal_attribute(old, a, n)),
            None => Err(DefinitionErrorKind::InvalidAttributeValue),
        },
        _ => Err(DefinitionErrorKind::UnusedEntry(spec_entry_type(e))),
    }
}

/// The signal view a record creates from scratch, or the error it raises.
pub open spec fn spec_spn_from_entry(e: EntryView) -> Result<SpnView, DefinitionErrorKind> {
    match e {
        EntryView::SignalDefinition(sd) => Ok(spn_from_signal_definition(sd)),
        EntryView::SignalDescription(d) => Ok(spn_from_signal_description(d)),
        EntryView::SignalAttribute(a) => match spec_attr_number(a.value) {
            Some(n) => Ok(spn_from_signal_attribute(a, n)),
            None => Err(DefinitionErrorKind::InvalidAttributeValue),
        },
        _ => Err(DefinitionErrorKind::UnusedEntry(spec_entry_type(e))),
    }
}

} // verus!

verus! {

/// A message view holding nothing but its id.
pub open spec fn blank_pgn(id: u32) -> PgnView {
    PgnView {
        id,
        name_abbrev: Seq::empty(),
        description: Seq::empty(),
        length: 0,
        spns: Map::empty(),
    }
}

/// The transition a supported record makes on a message view: each record
/// kind updates only the fields it carries.
pub open spec fn spec_pgn_merge(p: PgnView, e: EntryView) -> PgnView {
    match e {
        EntryView::MessageDefinition(m) => PgnView { id: m.id, length: m.message_len, ..p },
        EntryView::MessageDescription(m) => PgnView {
            id: m.id,
            description: m.description,
            ..p
        },
        EntryView::MessageAttribute(m) => PgnView { id: m.id, ..p },
        EntryView::SignalDefinition(sd) => PgnView {
            spns: if p.spns.contains_key(sd.name) {
                p.spns.insert(sd.name, spn_merge_signal_definition(p.spns[sd.name], sd))
            } else {
                p.spns.insert(sd.name, spn_from_signal_definition(sd))
            },
            ..p
        },
        EntryView::SignalDescription(d) => PgnView {
            spns: if p.spns.contains_key(d.signal_name) {
                p.spns.insert(d.signal_name, spn_merge_signal_description(
                    p.spns[d.signal_name],
                    d,
                ))
            } else {
                p.spns.insert(d.signal_name, spn_from_signal_description(d))
            },
            ..p
        },
        EntryView::SignalAttribute(a) => {
            if a.name != spec_spn_name() {
                p
            } else {
                match spec_attr_number(a.value) {
                    Some(n) => PgnView {
                        spns: if p.spns.contains_key(a.signal_name) {
                            p.spns.insert(a.signal_name, spn_merge_signal_attribute(
                                p.spns[a.signal_name],
                                a,
                                n,
                            ))
                        } else {
                            p.spns.insert(a.signal_name, spn_from_signal_attribute(a, n))
                        },
                        ..p
                    },
                    None => p,
                }
            }
        },
        _ => p,
    }
}

/// The transition a record makes on a message view, or the error it raises.
/// An attribute whose name is not `SPN` is accepted and discarded.
pub open spec fn spec_pgn_merge_entry(
    p: PgnView,
    e: EntryView,
) -> Result<PgnView, DefinitionErrorKind> {
    match e {
        EntryView::MessageDefinition(_) => Ok(spec_pgn_merge(p, e)),
        EntryView::MessageDescription(_) => Ok(spec_pgn_merge(p, e)),
        EntryView::MessageAttribute(_) => Ok(spec_pgn_merge(p, e)),
        EntryView::SignalDefinition(_) => Ok(spec_pgn_merge(p, e)),
        EntryView::SignalDescription(_) => Ok(spec_pgn_merge(p, e)),
        EntryView::SignalAttribute(a) => {
            if a.name != spec_spn_name() {
                Ok(p)
            } else {
                match spec_attr_number(a.value) {
                    Some(_) => Ok(spec_pgn_merge(p, e)),
                    None => Err(DefinitionErrorKind::InvalidAttributeValue),
                }
            }
        },
        _ => Err(DefinitionErrorKind::UnusedEntry(spec_entry_type(e))),
    }
}

/// The message view a record creates from scratch, or the error it raises.
/// Only message-level records create a definition this way; a message
/// definition contributes its name and byte length, a description its text,
/// an attribute its id alone.
pub open spec fn spec_pgn_from_entry(e: EntryView) -> Result<PgnView, DefinitionErrorKind> {
    match e {
        EntryView::MessageDefinition(m) => Ok(PgnView {
            id: m.id,
            name_abbrev: m.name,
            description: Seq::empty(),
            length: m.message_len,
            spns: Map::empty(),
        }),
        EntryView::MessageDescription(m) => Ok(PgnView {
            id: m.id,
            name_abbrev: Seq::empty(),
            description: m.description,
            length: 0,
            spns: Map::empty(),
        }),
        EntryView::MessageAttribute(m) => Ok(blank_pgn(m.id)),
        _ => Err(DefinitionErrorKind::UnusedEntry(spec_entry_type(e))),
    }
}

/// Compares two byte vectors for equality.
pub fn bytes_eq(a: &Vec<u8>, b: &Vec<u8>) -> (r: bool)
    ensures
        r == (a@ == b@),
{
    if a.len() != b.len() {
        return false;
    }
    let mut i: usize = 0;
    while i < a.len()
        invariant
            i <= a.len(),
            a@.len() == b@.len(),
            forall|k: int| 0 <= k < i ==> a@[k] == b@[k],
        decreases a@.len() - i,
    {
        if a[i] != b[i] {
            return false;
        }
        i = i + 1;
    }
    proof {
        assert(a@ =~= b@);
    }
    true
}

impl PgnDefinition {
    /// Index of the signal with the given name, scanning in order.
    fn find_spn_index(&self, name: &Vec<u8>) -> (r: Option<usize>)
        ensures
            match r {
                Some(i) => i < self.spns@.len() && self.spns@[i as int].name@ == name@,
                None => forall|k: int|
                    0 <= k < self.spns@.len() ==> (#[trigger] self.spns@[k]).name@ != name@,
            },
    {
        let mut i: usize = 0;
        while i < self.spns.len()
            invariant
                i <= self.spns@.len(),
                forall|k: int| 0 <= k < i ==> (#[trigger] self.spns@[k]).name@ != name@,
            decreases self.spns@.len() - i,
        {
            if bytes_eq(&self.spns[i].name, name) {
                return Some(i);
            }
            i = i + 1;
        }
        None
    }

    /// The signal with the given name, if the message holds one.
    pub fn get_spn(&self, name: &Vec<u8>) -> (r: Option<&SpnDefinition>)
        requires
            self.wf(),
        ensures
            match r {
                Some(spn) => self@.spns.contains_key(name@) && self@.spns[name@] == spn@
                    && spn.name@ == name@,
                None => !self@.spns.contains_key(name@),
            },
    {
        proof {
            lemma_spns_map_contains(self.spns@, name@);
        }
        match self.find_spn_index(name) {
            Some(i) => {
                proof {
                    lemma_spns_map_index(self.spns@, i as int);
                }
                Some(&self.spns[i])
            },
            None => None,
        }
    }

    /// Replaces or creates the signal keyed by a signal definition's name.
    fn upsert_signal_definition(&mut self, sd: SignalDefinition)
        requires
            old(self).wf(),
        ensures
            final(self).wf(),
            final(self)@ == spec_pgn_merge(old(self)@, EntryView::SignalDefinition(sd@)),
    {
        let ghost old_spns = self.spns@;
        proof {
            lemma_spns_map_contains(old_spns, sd.name@);
        }
        match self.find_spn_index(&sd.name) {
            Some(i) => {
                proof {
                    lemma_spns_map_index(old_spns, i as int);
                }
                let old_spn = self.spns.remove(i);
                let merged = SpnDefinition {
                    name: sd.name,
                    start_bit: sd.start_bit,
                    bit_len: sd.bit_len,
                    little_endian: sd.little_endian,
                    signed: sd.signed,
                    scale: sd.scale,
                    offset: sd.offset,
                    min_value: sd.min_value,
                    units: sd.units,
                    number: old_spn.number,
                    id: old_spn.id,
                    description: old_spn.description,
                    max_value: old_spn.max_value,
                };
                proof {
                    lemma_spns_map_update(old_spns, i as int, merged);
                }
                self.spns.insert(i, merged);
                proof {
                    assert(self.spns@ =~= old_spns.update(i as int, merged));
                }
            },
            None => {
                let fresh = SpnDefinition {
                    name: sd.name,
                    number: 0,
                    id: 0,
                    description: Vec::new(),
                    start_bit: sd.start_bit,
                    bit_len: sd.bit_len,
                    little_endian: sd.little_endian,
                    signed: sd.signed,
                    scale: sd.scale,
                    offset: sd.offset,
                    min_value: sd.min_value,
                    max_value: sd.max_value,
                    units: sd.units,
                };
                proof {
                    lemma_spns_map_push(old_spns, fresh);
                }
                self.spns.push(fresh);
            },
        }
    }

    /// Replaces or creates the signal keyed by a signal description's name.
    fn upsert_signal_description(&mut self, d: SignalDescription)
        requires
            old(self).wf(),
        ensures
            final(self).wf(),
            final(self)@ == spec_pgn_merge(old(self)@, EntryView::SignalDescription(d@)),
    {
        let ghost old_spns = self.spns@;
        proof {
            lemma_spns_map_contains(old_spns, d.signal_name@);
        }
        match self.find_spn_index(&d.signal_name) {
            Some(i) => {
                proof {
                    lemma_spns_map_index(old_spns, i as int);
                }
                let old_spn = self.spns.remove(i);
                let merged = SpnDefinition {
                    name: d.signal_name,
                    id: d.id,
                    description: d.description,
                    number: old_spn.number,
                    start_bit: old_spn.start_bit,
                    bit_len: old_spn.bit_len,
                    little_endian: old_spn.little_endian,
                    signed: old_spn.signed,
                    scale: old_spn.scale,
                    offset: old_spn.offset,
                    min_value: old_spn.min_value,
                    max_value: old_spn.max_value,
                    units: old_spn.units,
                };
                proof {
                    lemma_spns_map_update(old_spns, i as int, merged);
                }
                self.spns.insert(i, merged);
                proof {
                    assert(self.spns@ =~= old_spns.update(i as int, merged));
                }
            },
            None => {
                let fresh = SpnDefinition {
                    name: d.signal_name,
                    number: 0,
                    id: d.id,
                    description: d.description,
                    start_bit: 0,
                    bit_len: 0,
                    little_endian: true,
                    signed: false,
                    scale: Decimal::zero(),
                    offset: Decimal::zero(),
                    min_value: Decimal::zero(),
                    max_value: Decimal::zero(),
                    units: Vec::new(),
                };
                proof {
                    lemma_spns_map_push(old_spns, fresh);
                }
                self.spns.push(fresh);
            },
        }
    }

    /// Replaces or creates the signal keyed by an `SPN` attribute's signal
    /// name, with its parsed numeric index.
    fn upsert_signal_attribute(&mut self, a: SignalAttribute, n: usize)
        requires
            old(self).wf(),
            a.name@ == spec_spn_name(),
            spec_attr_number(a.value@) == Some(n),
        ensures
            final(self).wf(),
            final(self)@ == spec_pgn_merge(old(self)@, EntryView::SignalAttribute(a@)),
    {
        let ghost old_spns = self.spns@;
        proof {
            lemma_spns_map_contains(old_spns, a.signal_name@);
        }
        match self.find_spn_index(&a.signal_name) {
            Some(i) => {
                proof {
                    lemma_spns_map_index(old_spns, i as int);
                }
                let old_spn = self.spns.remove(i);
                let merged = SpnDefinition {
                    name: a.signal_name,
                    id: a.id,
                    number: n,
                    description: old_spn.description,
                    start_bit: old_spn.start_bit,
                    bit_len: old_spn.bit_len,
                    little_endian: old_spn.little_endian,
                    signed: old_spn.signed,
                    scale: old_spn.scale,
                    offset: old_spn.offset,
                    min_value: old_spn.min_value,
                    max_value: old_spn.max_value,
                    units: old_spn.units,
                };
                proof {
                    lemma_spns_map_update(old_spns, i as int, merged);
                }
                self.spns.insert(i, merged);
                proof {
                    assert(self.spns@ =~= old_spns.update(i as int, merged));
                }
            },
            None => {
                let fresh = SpnDefinition {
                    name: a.signal_name,
                    number: n,
                    id: a.id,
                    description: Vec::new(),
                    start_bit: 0,
                    bit_len: 0,
                    little_endian: true,
                    signed: false,
                    scale: Decimal::zero(),
                    offset: Decimal::zero(),
                    min_value: Decimal::zero(),
                    max_value: Decimal::zero(),
                    units: Vec::new(),
                };
                proof {
                    lemma_spns_map_push(old_spns, fresh);
                }
                self.spns.push(fresh);
            },
        }
    }
}

} // verus!

verus! {

/// Trait for converting [`Entry`] records into a library's own entries.
/// `inv` is the entry type's well-formedness; `from_result` and
/// `merge_result` state, per implementing type, what the conversion did.
pub trait FromDbc where Self: Sized {
    type Err;

    /// Well-formedness that conversions establish and preserve.
    spec fn inv(&self) -> bool;

    /// What [`FromDbc::from_entry`] returns for a record.
    spec fn from_result(entry: Entry, r: Result<Self, Self::Err>) -> bool;

    /// What [`FromDbc::merge_entry`] does to an entry for a record.
    spec fn merge_result(pre: Self, entry: Entry, r: Result<(), Self::Err>, post: Self) -> bool;

    /// Converts a record into a fresh entry.
    fn from_entry(entry: Entry) -> (r: Result<Self, Self::Err>)
        ensures
            Self::from_result(entry, r),
            r matches Ok(v) ==> v.inv();

    /// Folds a record into this entry, updating only the fields the record
    /// kind carries.
    fn merge_entry(&mut self, entry: Entry) -> (r: Result<(), Self::Err>)
        requires
            old(self).inv(),
        ensures
            final(self).inv(),
            Self::merge_result(*old(self), entry, r, *final(self));
}

impl FromDbc for SpnDefinition {
    type Err = ParseDefinitionError;

    open spec fn inv(&self) -> bool {
        true
    }

    open spec fn from_result(entry: Entry, r: Result<Self, ParseDefinitionError>) -> bool {
        match r {
            Ok(v) => spec_spn_from_entry(entry@) == Ok::<SpnView, DefinitionErrorKind>(v@),
            Err(e) => spec_spn_from_entry(entry@) == Err::<SpnView, DefinitionErrorKind>(
                e.kind,
            ),
        }
    }

    open spec fn merge_result(
        pre: Self,
        entry: Entry,
        r: Result<(), ParseDefinitionError>,
        post: Self,
    ) -> bool {
        match r {
            Ok(_) => spec_spn_merge_entry(pre@, entry@) == Ok::<SpnView, DefinitionErrorKind>(
                post@,
            ),
            Err(e) => spec_spn_merge_entry(pre@, entry@) == Err::<
                SpnView,
                DefinitionErrorKind,
            >(e.kind) && post == pre,
        }
    }

    fn from_entry(entry: Entry) -> (r: Result<Self, ParseDefinitionError>) {
        match entry {
            Entry::SignalDefinition(sd) => Ok(SpnDefinition {
                name: sd.name,
                number: 0,
                id: 0,
                description: Vec::new(),
                start_bit: sd.start_bit,
                bit_len: sd.bit_len,
                little_endian: sd.little_endian,
                signed: sd.signed,
                scale: sd.scale,
                offset: sd.offset,
                min_value: sd.min_value,
                max_value: sd.max_value,
                units: sd.units,
            }),
            Entry::SignalDescription(d) => Ok(SpnDefinition {
                name: d.signal_name,
                number: 0,
                id: d.id,
                description: d.description,
                start_bit: 0,
                bit_len: 0,
                little_endian: true,
                signed: false,
                scale: Decimal::zero(),
                offset: Decimal::zero(),
                min_value: Decimal::zero(),
                max_value: Decimal::zero(),
                units: Vec::new(),
            }),
            Entry::SignalAttribute(a) => match attr_number(&a.value) {
                Some(n) => Ok(SpnDefinition {
                    name: a.signal_name,
                    number: n,
                    id: a.id,
                    description: Vec::new(),
                    start_bit: 0,
                    bit_len: 0,
                    little_endian: true,
                    signed: false,
                    scale: Decimal::zero(),
                    offset: Decimal::zero(),
                    min_value: Decimal::zero(),
                    max_value: Decimal::zero(),
                    units: Vec::new(),
                }),
                None => Err(ParseDefinitionError {
                    kind: DefinitionErrorKind::InvalidAttributeValue,
                }),
            },
            _ => Err(ParseDefinitionError {
                kind: DefinitionErrorKind::UnusedEntry(entry.get_type()),
            }),
        }
    }

    fn merge_entry(&mut self, entry: Entry) -> (r: Result<(), ParseDefinitionError>) {
        match entry {
            Entry::SignalDefinition(sd) => {
                self.name = sd.name;
                self.start_bit = sd.start_bit;
                self.bit_len = sd.bit_len;
                self.little_endian = sd.little_endian;
                self.signed = sd.signed;
                self.scale = sd.scale;
                self.offset = sd.offset;
                self.min_value = sd.min_value;
                self.units = sd.units;
                Ok(())
            },
            Entry::SignalDescription(d) => {
                self.name = d.signal_name;
                self.id = d.id;
                self.description = d.description;
                Ok(())
            },
            Entry::SignalAttribute(a) => match attr_number(&a.value) {
                Some(n) => {
                    self.name = a.signal_name;
                    self.id = a.id;
                    self.number = n;
                    Ok(())
                },
                None => Err(ParseDefinitionError {
                    kind: DefinitionErrorKind::InvalidAttributeValue,
                }),
            },
            _ => Err(ParseDefinitionError {
                kind: DefinitionErrorKind::UnusedEntry(entry.get_type()),
            }),
        }
    }
}

impl FromDbc for PgnDefinition {
    type Err = ParseDefinitionError;

    open spec fn inv(&self) -> bool {
        self.wf()
    }

    open spec fn from_result(entry: Entry, r: Result<Self, ParseDefinitionError>) -> bool {
        match r {
            Ok(v) => spec_pgn_from_entry(entry@) == Ok::<PgnView, DefinitionErrorKind>(v@),
            Err(e) => spec_pgn_from_entry(entry@) == Err::<PgnView, DefinitionErrorKind>(
                e.kind,
            ),
        }
    }

    open spec fn merge_result(
        pre: Self,
        entry: Entry,
        r: Result<(), ParseDefinitionError>,
        post: Self,
    ) -> bool {
        match r {
            Ok(_) => spec_pgn_merge_entry(pre@, entry@) == Ok::<PgnView, DefinitionErrorKind>(
                post@,
            ),
            Err(e) => spec_pgn_merge_entry(pre@, entry@) == Err::<
                PgnView,
                DefinitionErrorKind,
            >(e.kind) && post == pre,
        }
    }

    fn from_entry(entry: Entry) -> (r: Result<Self, ParseDefinitionError>) {
        match entry {
            Entry::MessageDefinition(m) => Ok(PgnDefinition {
                id: m.id,
                name_abbrev: m.name,
                description: Vec::new(),
                length: m.message_len,
                spns: Vec::new(),
            }),
            Entry::MessageDescription(m) => Ok(PgnDefinition {
                id: m.id,
                name_abbrev: Vec::new(),
                description: m.description,
                length: 0,
                spns: Vec::new(),
            }),
            Entry::MessageAttribute(m) => Ok(PgnDefinition {
                id: m.id,
                name_abbrev: Vec::new(),
                description: Vec::new(),
                length: 0,
                spns: Vec::new(),
            }),
            _ => Err(ParseDefinitionError {
                kind: DefinitionErrorKind::UnusedEntry(entry.get_type()),
            }),
        }
    }

    fn merge_entry(&mut self, entry: Entry) -> (r: Result<(), ParseDefinitionError>) {
        match entry {
            Entry::MessageDefinition(m) => {
                self.id = m.id;
                self.length = m.message_len;
                Ok(())
            },
            Entry::MessageDescription(m) => {
                self.id = m.id;
                self.description = m.description;
                Ok(())
            },
            Entry::MessageAttribute(m) => {
                self.id = m.id;
                Ok(())
            },
            Entry::SignalDefinition(sd) => {
                self.upsert_signal_definition(sd);
                Ok(())
            },
            Entry::SignalDescription(d) => {
                self.upsert_signal_description(d);
                Ok(())
            },
            Entry::SignalAttribute(a) => {
                if !is_spn_name(&a.name) {
                    return Ok(());
                }
                match attr_number(&a.value) {
                    None => Err(ParseDefinitionError {
                        kind: DefinitionErrorKind::InvalidAttributeValue,
                    }),
                    Some(n) => {
                        self.upsert_signal_attribute(a, n);
                        Ok(())
                    },
                }
            },
            _ => Err(ParseDefinitionError {
                kind: DefinitionErrorKind::UnusedEntry(entry.get_type()),
            }),
        }
    }
}

} // verus!

verus! {

/// A library used to translate CAN signals into desired values.
#[derive(Clone, PartialEq, Debug)]
pub struct PgnLibrary {
    pub last_id: u32,
    pub pgns: Vec<PgnDefinition>,
}

/// Mathematical view of a [`PgnLibrary`]: the id of the last routed record
/// and the message map.
pub struct LibraryView {
    pub last_id: u32,
    pub pgns: Map<u32, PgnView>,
}

impl View for PgnLibrary {
    type V = LibraryView;

    open spec fn view(&self) -> LibraryView {
        LibraryView { last_id: self.last_id, pgns: pgns_map(self.pgns@) }
    }
}

/// Outcome of one merge step: the library view afterwards and the result
/// handed to the caller.
pub struct AddOutcome {
    pub lib: LibraryView,
    pub result: Result<(), AddEntryError>,
}

/// The message view created for an id with no prior entity: message-level
/// records create as [`spec_pgn_from_entry`]; a signal-level record starts
/// from a blank message and merges into it.
pub open spec fn spec_pgn_create(id: u32, e: EntryView) -> PgnView {
    match e {
        EntryView::MessageDefinition(m) => PgnView {
            id: m.id,
            name_abbrev: m.name,
            description: Seq::empty(),
            length: m.message_len,
            spns: Map::empty(),
        },
        EntryView::MessageDescription(m) => PgnView {
            id: m.id,
            name_abbrev: Seq::empty(),
            description: m.description,
            length: 0,
            spns: Map::empty(),
        },
        EntryView::MessageAttribute(m) => blank_pgn(m.id),
        _ => spec_pgn_merge(blank_pgn(id), e),
    }
}

/// Routing a record to an id: the entity there is merged into or created,
/// and the id becomes the library's last id.
pub open spec fn spec_apply(lv: LibraryView, id: u32, e: EntryView) -> LibraryView {
    let p = if lv.pgns.contains_key(id) {
        spec_pgn_merge(lv.pgns[id], e)
    } else {
        spec_pgn_create(id, e)
    };
    LibraryView { last_id: id, pgns: lv.pgns.insert(id, p) }
}

/// The transition one record makes on the whole library.  Message-level
/// records and signal descriptions and attributes carry their own id; a
/// signal definition attaches to the last routed id and is rejected when
/// none has been established; version, bus-configuration and unknown
/// records are not applicable; an `SPN` attribute whose value is not a
/// representable number is rejected.  A rejected record leaves the library
/// unchanged.
pub open spec fn spec_add_entry(lv: LibraryView, e: EntryView) -> AddOutcome {
    match e {
        EntryView::MessageDefinition(m) => AddOutcome {
            lib: spec_apply(lv, m.id, e),
            result: Ok(()),
        },
        EntryView::MessageDescription(m) => AddOutcome {
            lib: spec_apply(lv, m.id, e),
            result: Ok(()),
        },
        EntryView::MessageAttribute(m) => AddOutcome {
            lib: spec_apply(lv, m.id, e),
            result: Ok(()),
        },
        EntryView::SignalDefinition(_) => {
            if lv.last_id == 0 {
                AddOutcome { lib: lv, result: Err(AddEntryError::NoCurrentMessage) }
            } else {
                AddOutcome { lib: spec_apply(lv, lv.last_id, e), result: Ok(()) }
            }
        },
        EntryView::SignalDescription(d) => AddOutcome {
            lib: spec_apply(lv, d.id, e),
            result: Ok(()),
        },
        EntryView::SignalAttribute(a) => {
            if a.name == spec_spn_name() && spec_attr_number(a.value) is None {
                AddOutcome { lib: lv, result: Err(AddEntryError::BadAttributeValue) }
            } else {
                AddOutcome { lib: spec_apply(lv, a.id, e), result: Ok(()) }
            }
        },
        _ => AddOutcome {
            lib: lv,
            result: Err(AddEntryError::Unsupported(spec_entry_type(e))),
        },
    }
}

impl PgnLibrary {
    /// Message ids are unique and each message is well formed, so the
    /// message map loses nothing.
    pub open spec fn wf(&self) -> bool {
        unique_pgn_ids(self.pgns@) && forall|i: int|
            0 <= i < self.pgns@.len() ==> (#[trigger] self.pgns@[i]).wf()
    }

    /// Creates a library over an existing table of message definitions.
    pub fn new(pgns: Vec<PgnDefinition>) -> (r: Self)
        requires
            unique_pgn_ids(pgns@),
            forall|i: int| 0 <= i < pgns@.len() ==> (#[trigger] pgns@[i]).wf(),
        ensures
            r.wf(),
            r@ == (LibraryView { last_id: 0, pgns: pgns_map(pgns@) }),
    {
        PgnLibrary { last_id: 0, pgns }
    }

    /// Index of the message with the given id.
    fn find_pgn_index(&self, id: u32) -> (r: Option<usize>)
        ensures
            match r {
                Some(i) => i < self.pgns@.len() && self.pgns@[i as int].id == id,
                None => forall|k: int|
                    0 <= k < self.pgns@.len() ==> (#[trigger] self.pgns@[k]).id != id,
            },
    {
        let mut i: usize = 0;
        while i < self.pgns.len()
            invariant
                i <= self.pgns@.len(),
                forall|k: int| 0 <= k < i ==> (#[trigger] self.pgns@[k]).id != id,
            decreases self.pgns@.len() - i,
        {
            if self.pgns[i].id == id {
                return Some(i);
            }
            i = i + 1;
        }
        None
    }

    /// Folds one record into the library, routing it by id.
    pub fn add_entry(&mut self, entry: Entry) -> (r: Result<(), AddEntryError>)
        requires
            old(self).wf(),
        ensures
            final(self).wf(),
            spec_add_entry(old(self)@, entry@) == (AddOutcome { lib: final(self)@, result: r }),
    {
        let id: u32 = match &entry {
            Entry::MessageDefinition(m) => m.id,
            Entry::MessageDescription(m) => m.id,
            Entry::MessageAttribute(m) => m.id,
            Entry::SignalDefinition(_) => {
                if self.last_id == 0 {
                    return Err(AddEntryError::NoCurrentMessage);
                }
                self.last_id
            },
            Entry::SignalDescription(d) => d.id,
            Entry::SignalAttribute(a) => {
                if is_spn_name(&a.name) {
                    match attr_number(&a.value) {
                        None => {
                            return Err(AddEntryError::BadAttributeValue);
                        },
                        Some(_) => {},
                    }
                }
                a.id
            },
            _ => {
                return Err(AddEntryError::Unsupported(entry.get_type()));
            },
        };
        self.last_id = id;
        let ghost old_pgns = self.pgns@;
        proof {
            lemma_pgns_map_contains(old_pgns, id);
        }
        match self.find_pgn_index(id) {
            Some(i) => {
                proof {
                    lemma_pgns_map_index(old_pgns, i as int);
                }
                let mut def = self.pgns.remove(i);
                match def.merge_entry(entry) {
                    Ok(()) => {},
                    Err(_) => {
                        // The record kind and, for an SPN attribute, its
                        // value were checked above, so the merge cannot fail.
                        proof {
                            assert(false);
                        }
                        return Err(AddEntryError::NoCurrentMessage);
                    },
                }
                proof {
                    lemma_pgns_map_update(old_pgns, i as int, def);
                }
                self.pgns.insert(i, def);
                proof {
                    assert(self.pgns@ =~= old_pgns.update(i as int, def));
                }
                Ok(())
            },
            None => {
                let def = if matches!(entry, Entry::SignalDefinition(_))
                    || matches!(entry, Entry::SignalDescription(_))
                    || matches!(entry, Entry::SignalAttribute(_)) {
                    let mut d = PgnDefinition {
                        id,
                        name_abbrev: Vec::new(),
                        description: Vec::new(),
                        length: 0,
                        spns: Vec::new(),
                    };
                    match d.merge_entry(entry) {
                        Ok(()) => {},
                        Err(_) => {
                            // Checked above: the merge cannot fail here.
                            proof {
                                assert(false);
                            }
                            return Err(AddEntryError::NoCurrentMessage);
                        },
                    }
                    d
                } else {
                    match PgnDefinition::from_entry(entry) {
                        Ok(d) => d,
                        Err(_) => {
                            // A message-level record always converts.
                            proof {
                                assert(false);
                            }
                            return Err(AddEntryError::NoCurrentMessage);
                        },
                    }
                };
                proof {
                    assert(def.id == id);
                    lemma_pgns_map_push(old_pgns, def);
                }
                self.pgns.push(def);
                Ok(())
            },
        }
    }

    /// The message whose derived parameter group number matches, scanning
    /// in order and returning the first match, if any.
    pub fn get_pgn(&self, id: u32) -> (r: Option<&PgnDefinition>)
        requires
            self.wf(),
        ensures
            match r {
                Some(p) => self@.pgns.contains_key(p.id) && self@.pgns[p.id] == p@ && pgn_of(
                    p.id,
                ) == id,
                None => forall|k: u32|
                    #[trigger] self@.pgns.contains_key(k) ==> pgn_of(k) != id,
            },
            match r {
                Some(p) => exists|i: int|
                    0 <= i < self.pgns@.len() && #[trigger] self.pgns@[i] == *p && (forall|
                        j: int,
                    |
                        0 <= j < i ==> pgn_of((#[trigger] self.pgns@[j]).id) != id),
                None => true,
            },
    {
        let mut i: usize = 0;
        while i < self.pgns.len()
            invariant
                self.wf(),
                i <= self.pgns@.len(),
                forall|k: int| 0 <= k < i ==> pgn_of((#[trigger] self.pgns@[k]).id) != id,
            decreases self.pgns@.len() - i,
        {
            if self.pgns[i].pgn() == id {
                proof {
                    lemma_pgns_map_index(self.pgns@, i as int);
                }
                return Some(&self.pgns[i]);
            }
            i = i + 1;
        }
        proof {
            assert forall|k: u32| #[trigger] self@.pgns.contains_key(k) implies pgn_of(k) != id
                by {
                lemma_pgns_map_contains(self.pgns@, k);
            }
        }
        None
    }

    /// The message with exactly this arbitration id, if any.
    pub fn get_arbitration(&self, arb: u32) -> (r: Option<&PgnDefinition>)
        requires
            self.wf(),
        ensures
            match r {
                Some(p) => self@.pgns.contains_key(arb) && self@.pgns[arb] == p@ && p.id == arb,
                None => !self@.pgns.contains_key(arb),
            },
    {
        proof {
            lemma_pgns_map_contains(self.pgns@, arb);
        }
        match self.find_pgn_index(arb) {
            Some(i) => {
                proof {
                    lemma_pgns_map_index(self.pgns@, i as int);
                }
                Some(&self.pgns[i])
            },
            None => None,
        }
    }

    /// The signal with this name in the first message, in scan order, that
    /// holds one, if any message does.
    pub fn get_spn(&self, name: &Vec<u8>) -> (r: Option<&SpnDefinition>)
        requires
            self.wf(),
        ensures
            match r {
                Some(s) => exists|k: u32|
                    #[trigger] self@.pgns.contains_key(k) && self@.pgns[k].spns.contains_key(
                        name@,
                    ) && self@.pgns[k].spns[name@] == s@,
                None => forall|k: u32|
                    #[trigger] self@.pgns.contains_key(k)
                        ==> !self@.pgns[k].spns.contains_key(name@),
            },
            match r {
                Some(s) => exists|i: int|
                    0 <= i < self.pgns@.len() && spns_map(
                        (#[trigger] self.pgns@[i]).spns@,
                    ).contains_key(name@) && spns_map(self.pgns@[i].spns@)[name@] == s@ && (
                    forall|j: int|
                        0 <= j < i ==> !spns_map(
                            (#[trigger] self.pgns@[j]).spns@,
                        ).contains_key(name@)),
                None => true,
            },
    {
        let mut i: usize = 0;
        while i < self.pgns.len()
            invariant
                self.wf(),
                i <= self.pgns@.len(),
                forall|k: int|
                    0 <= k < i ==> !spns_map((#[trigger] self.pgns@[k]).spns@).contains_key(
                        name@,
                    ),
            decreases self.pgns@.len() - i,
        {
            let found = self.pgns[i].get_spn(name);
            match found {
                Some(spn) => {
                    proof {
                        lemma_pgns_map_index(self.pgns@, i as int);
                        let k = self.pgns@[i as int].id;
                        assert(self@.pgns.contains_key(k) && self@.pgns[k].spns.contains_key(
                            name@,
                        ) && self@.pgns[k].spns[name@] == spn@);
                    }
                    return Some(spn);
                },
                None => {},
            }
            i = i + 1;
        }
        proof {
            assert forall|k: u32| #[trigger] self@.pgns.contains_key(k)
                implies !self@.pgns[k].spns.contains_key(name@) by {
                lemma_pgns_map_contains(self.pgns@, k);
                let i = choose|i: int|
                    0 <= i < self.pgns@.len() && (#[trigger] self.pgns@[i]).id == k;
                lemma_pgns_map_index(self.pgns@, i);
            }
        }
        None
    }
}

impl PgnDefinition {
    /// Converts one terminated DBC line into a fresh message definition: the
    /// line is parsed and the record converted as by [`FromDbc::from_entry`].
    /// A line without a terminator is an incomplete record.
    pub fn from_dbc_line(line: &[u8]) -> (r: Result<PgnDefinition, ParseDefinitionError>)
        ensures
            match spec_entry(line@) {
                SpecParse::Record(e, _) => match r {
                    Ok(d) => spec_pgn_from_entry(e) == Ok::<PgnView, DefinitionErrorKind>(d@),
                    Err(err) => spec_pgn_from_entry(e) == Err::<PgnView, DefinitionErrorKind>(
                        err.kind,
                    ),
                },
                SpecParse::Incomplete => r == Err::<PgnDefinition, ParseDefinitionError>(
                    ParseDefinitionError { kind: DefinitionErrorKind::Entry(ParseEntryError) },
                ),
            },
    {
        match entry(line) {
            Err(_) => Err(
                ParseDefinitionError { kind: DefinitionErrorKind::Entry(ParseEntryError) },
            ),
            Ok((e, _)) => PgnDefinition::from_entry(e),
        }
    }
}

impl core::str::FromStr for PgnDefinition {
    type Err = ParseDefinitionError;

    /// Parses one terminated DBC line into a message definition.
    fn from_str(line: &str) -> Result<PgnDefinition, ParseDefinitionError> {
        PgnDefinition::from_dbc_line(line.as_bytes())
    }
}

impl SpnDefinition {
    /// Converts one terminated DBC line into a fresh signal definition: the
    /// line is parsed and the record converted as by [`FromDbc::from_entry`].
    /// A line without a terminator is an incomplete record.
    pub fn from_dbc_line(line: &[u8]) -> (r: Result<SpnDefinition, ParseDefinitionError>)
        ensures
            match spec_entry(line@) {
                SpecParse::Record(e, _) => match r {
                    Ok(d) => spec_spn_from_entry(e) == Ok::<SpnView, DefinitionErrorKind>(d@),
                    Err(err) => spec_spn_from_entry(e) == Err::<SpnView, DefinitionErrorKind>(
                        err.kind,
                    ),
                },
                SpecParse::Incomplete => r == Err::<SpnDefinition, ParseDefinitionError>(
                    ParseDefinitionError { kind: DefinitionErrorKind::Entry(ParseEntryError) },
                ),
            },
    {
        match entry(line) {
            Err(_) => Err(
                ParseDefinitionError { kind: DefinitionErrorKind::Entry(ParseEntryError) },
            ),
            Ok((e, _)) => SpnDefinition::from_entry(e),
        }
    }
}

impl core::str::FromStr for SpnDefinition {
    type Err = ParseDefinitionError;

    /// Parses one terminated DBC line into a signal definition.
    fn from_str(line: &str) -> Result<SpnDefinition, ParseDefinitionError> {
        SpnDefinition::from_dbc_line(line.as_bytes())
    }
}

impl Default for PgnLibrary {
    /// An empty library: no messages and no last routed id.
    fn default() -> (r: Self)
        ensures
            r.wf(),
            r@ == (LibraryView { last_id: 0, pgns: Map::empty() }),
    {
        PgnLibrary::new(Vec::new())
    }
}

} // verus!

verus! {

/// The library that repeatedly parsing and merging builds from `s`: each
/// parsed record is folded in (per-record failures are ignored), and the
/// load stops at the end of the text or at an incomplete final line.
pub open spec fn spec_load(lv: LibraryView, s: Seq<u8>) -> LibraryView
    decreases s.len(),
{
    if s.len() == 0 {
        lv
    } else {
        match spec_entry(s) {
            SpecParse::Record(e, n) => {
                if 1 <= n <= s.len() {
                    spec_load(spec_add_entry(lv, e).lib, s.skip(n))
                } else {
                    lv
                }
            },
            SpecParse::Incomplete => lv,
        }
    }
}

/// Unfolds one successful parse step of [`spec_load`].
#[verifier::rlimit(100)]
pub proof fn lemma_spec_load_step(lv: LibraryView, s: Seq<u8>, e: EntryView, n: int)
    requires
        s.len() > 0,
        spec_entry(s) == SpecParse::Record(e, n),
        1 <= n <= s.len(),
    ensures
        spec_load(lv, s) == spec_load(spec_add_entry(lv, e).lib, s.skip(n)),
{
}

/// The load keeps the library as it is on empty or incomplete input.
#[verifier::rlimit(100)]
pub proof fn lemma_spec_load_stop(lv: LibraryView, s: Seq<u8>)
    requires
        s.len() == 0 || spec_entry(s) is Incomplete,
    ensures
        spec_load(lv, s) == lv,
{
}

impl PgnLibrary {
    /// Builds a library from decoded DBC text, one record at a time.
    /// Unparseable lines become `Unknown` records and records that do not
    /// apply to the library are skipped; a truncated final line without a
    /// terminator is discarded.
    pub fn from_dbc_text(data: &[u8]) -> (r: PgnLibrary)
        ensures
            r.wf(),
            r@ == spec_load(LibraryView { last_id: 0, pgns: Map::empty() }, data@),
    {
        let empty_pgns: Vec<PgnDefinition> = Vec::new();
        let mut lib = PgnLibrary::new(empty_pgns);
        let ghost init = lib@;
        let mut pos: usize = 0;
        proof {
            assert(data@.skip(0) =~= data@);
            assert(pgns_map(Seq::<PgnDefinition>::empty()) =~= Map::<u32, PgnView>::empty());
            assert(init == (LibraryView { last_id: 0, pgns: Map::empty() }));
        }
        while pos < data.len()
            invariant
                pos <= data@.len(),
                lib.wf(),
                init == (LibraryView { last_id: 0, pgns: Map::empty() }),
                spec_load(init, data@) == spec_load(lib@, data@.skip(pos as int)),
            decreases data@.len() - pos,
        {
            let rest = &data[pos..data.len()];
            proof {
                assert(rest@ =~= data@.skip(pos as int));
            }
            match entry(rest) {
                Ok((e, n)) => {
                    let ghost pre = lib@;
                    let ghost ev = e@;
                    let _ = lib.add_entry(e);
                    proof {
                        assert(lib@ == spec_add_entry(pre, ev).lib);
                        lemma_spec_load_step(pre, data@.skip(pos as int), ev, n as int);
                        assert(data@.skip(pos as int).skip(n as int) =~= data@.skip(
                            pos + n as int,
                        ));
                    }
                    pos = pos + n;
                },
                Err(_) => {
                    proof {
                        assert(spec_entry(data@.skip(pos as int)) is Incomplete);
                        lemma_spec_load_stop(lib@, data@.skip(pos as int));
                        assert(spec_load(init, data@) == lib@);
                    }
                    return lib;
                },
            }
        }
        proof {
            lemma_spec_load_stop(lib@, data@.skip(pos as int));
        }
        lib
    }
}

/// A signal definition that arrives before any message has established a
/// current id is rejected with the missing-attachment condition and leaves
/// the library, its messages and its signals unchanged.
pub proof fn lemma_signal_definition_needs_message(lv: LibraryView, sd: SignalDefinitionView)
    requires
        lv.last_id == 0,
    ensures
        spec_add_entry(lv, EntryView::SignalDefinition(sd)) == (AddOutcome {
            lib: lv,
            result: Err(AddEntryError::NoCurrentMessage),
        }),
{
}

/// Merging a message definition, then a signal definition, then a second
/// signal definition with the same name, yields exactly one signal entity
/// under that name, and its scale is the second record's scale: the second
/// merge updates in place and duplicates nothing.
pub proof fn lemma_signal_remerge_updates_in_place(
    lv: LibraryView,
    m: MessageDefinitionView,
    sd1: SignalDefinitionView,
    sd2: SignalDefinitionView,
)
    requires
        m.id != 0,
        sd1.name == sd2.name,
    ensures
        ({
            let lv1 = spec_add_entry(lv, EntryView::MessageDefinition(m)).lib;
            let lv2 = spec_add_entry(lv1, EntryView::SignalDefinition(sd1)).lib;
            let out = spec_add_entry(lv2, EntryView::SignalDefinition(sd2));
            &&& out.result is Ok
            &&& out.lib.pgns.contains_key(m.id)
            &&& out.lib.pgns[m.id].spns.contains_key(sd2.name)
            &&& out.lib.pgns[m.id].spns[sd2.name].scale == sd2.scale
            &&& out.lib.pgns[m.id].spns.dom() =~= lv2.pgns[m.id].spns.dom()
        }),
{
    let lv1 = spec_add_entry(lv, EntryView::MessageDefinition(m)).lib;
    let lv2 = spec_add_entry(lv1, EntryView::SignalDefinition(sd1)).lib;
    let out = spec_add_entry(lv2, EntryView::SignalDefinition(sd2));
    assert(lv1.last_id == m.id);
    assert(lv1.pgns.contains_key(m.id));
    assert(lv2.pgns[m.id].spns.contains_key(sd1.name));
    assert(out.lib.pgns[m.id].spns[sd2.name].scale == sd2.scale);
}

/// An attribute record whose name is not `SPN` is accepted without error
/// and alters no existing message or signal — in particular no signal's
/// numeric index; at most an empty message entity appears under its id.
pub proof fn lemma_non_spn_attribute_ignored(lv: LibraryView, a: SignalAttributeView)
    requires
        a.name != spec_spn_name(),
    ensures
        ({
            let out = spec_add_entry(lv, EntryView::SignalAttribute(a));
            &&& out.result is Ok
            &&& (lv.pgns.contains_key(a.id) ==> out.lib.pgns == lv.pgns)
            &&& (!lv.pgns.contains_key(a.id) ==> out.lib.pgns == lv.pgns.insert(
                a.id,
                blank_pgn(a.id),
            ))
            &&& forall|k: u32, n: Seq<u8>|
                #![all_triggers]
                lv.pgns.contains_key(k) && lv.pgns[k].spns.contains_key(n)
                    ==> out.lib.pgns[k].spns[n].number == lv.pgns[k].spns[n].number
        }),
{
    let out = spec_add_entry(lv, EntryView::SignalAttribute(a));
    if lv.pgns.contains_key(a.id) {
        assert(spec_pgn_merge(lv.pgns[a.id], EntryView::SignalAttribute(a)) == lv.pgns[a.id]);
        assert(lv.pgns.insert(a.id, lv.pgns[a.id]) =~= lv.pgns);
    }
}

} // verus!

verus! {

impl SpnDefinition {
    /// Raw value of this signal in a fixed eight-byte frame.
    pub fn parse_array(&self, msg: &[u8; 8]) -> (r: u64)
        requires
            self.bit_len < 64,
            self.start_bit < 64,
        ensures
            r as nat == crate::decode::spec_parse_array(
                self.bit_len as nat,
                self.start_bit as nat,
                self.little_endian,
                msg@,
            ),
    {
        crate::decode::parse_array(self.bit_len, self.start_bit, self.little_endian, msg)
    }

    /// Raw value of this signal in an arbitrary buffer.
    pub fn parse_message(&self, msg: &[u8]) -> (r: Option<u64>)
        ensures
            r == crate::decode::spec_parse_message(
                self.bit_len,
                self.start_bit,
                self.little_endian,
                msg@,
            ),
    {
        crate::decode::parse_message(self.bit_len, self.start_bit, self.little_endian, msg)
    }
}

} // verus!
