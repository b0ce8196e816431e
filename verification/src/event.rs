//! The event identity model: versioned event representations, variant sets,
//! and the raw/versioned duality of wire-level events.

use vstd::prelude::*;

verus! {

/// Mathematical model of an [`EventRepresentation`].
pub struct RepresentationView {
    /// Name of the concrete payload type, kept for collision reports.
    pub repr_name: Seq<char>,
    /// Identity of the concrete payload type.
    pub type_tag: u64,
    /// Event name of the representation.
    pub name: Seq<char>,
    /// Event version of the representation.
    pub version: u16,
    /// Whether this representation may start a fresh aggregate's history.
    pub initial: bool,
    /// Whether this member is excluded from identity bookkeeping and from
    /// sourcing dispatch.
    pub ignored: bool,
}

/// One member of a variant set: a concrete payload type together with its
/// event identity and its markers.
///
/// The payload type itself lives with the caller; here it is named by
/// `repr_name` and identified by `type_tag`, which must identify exactly one
/// concrete type across the whole application.
#[derive(Debug)]
pub struct EventRepresentation {
    /// Name of the concrete payload type, kept for collision reports.
    pub repr_name: String,
    /// Identity of the concrete payload type.
    pub type_tag: u64,
    /// Event name of the representation.
    pub name: String,
    /// Event version of the representation.
    pub version: u16,
    /// Whether this representation may start a fresh aggregate's history.
    pub initial: bool,
    /// Whether this member is excluded from identity bookkeeping and from
    /// sourcing dispatch.
    pub ignored: bool,
}

impl View for EventRepresentation {
    type V = RepresentationView;

    open spec fn view(&self) -> RepresentationView {
        RepresentationView {
            repr_name: self.repr_name@,
            type_tag: self.type_tag,
            name: self.name@,
            version: self.version,
            initial: self.initial,
            ignored: self.ignored,
        }
    }
}

impl DeepView for EventRepresentation {
    type V = RepresentationView;

    open spec fn deep_view(&self) -> RepresentationView {
        self.view()
    }
}

impl EventRepresentation {
    /// A representation with neither marker set: it neither initializes state
    /// nor is it excluded from bookkeeping.
    ///
    /// An event name is a non-empty string and a version is positive.
    pub fn new(repr_name: String, type_tag: u64, name: String, version: u16) -> (r: Self)
        requires
            name@.len() > 0,
            version >= 1,
        ensures
            r@ == (RepresentationView {
                repr_name: repr_name@,
                type_tag,
                name: name@,
                version,
                initial: false,
                ignored: false,
            }),
    {
        EventRepresentation { repr_name, type_tag, name, version, initial: false, ignored: false }
    }

    /// Marks this representation as the one that may initialize a fresh
    /// aggregate.
    pub fn initial(self) -> (r: Self)
        ensures
            r@ == (RepresentationView { initial: true, ..self@ }),
    {
        EventRepresentation { initial: true, ..self }
    }

    /// Marks this member as ignored: it takes no part in identity bookkeeping
    /// and sourcing dispatch refuses it.
    pub fn ignored(self) -> (r: Self)
        ensures
            r@ == (RepresentationView { ignored: true, ..self@ }),
    {
        EventRepresentation { ignored: true, ..self }
    }
}

/// An ordered, closed union of event representations that together form one
/// application-visible event type.
///
/// Nested sets are flattened at construction: combining two sets concatenates
/// their member lists, so the registry always works over the full flattened
/// list of members.
#[derive(Debug)]
pub struct VariantSet {
    /// The flattened members of the set, in declaration order.
    pub members: Vec<EventRepresentation>,
}

impl View for VariantSet {
    type V = Seq<RepresentationView>;

    open spec fn view(&self) -> Seq<RepresentationView> {
        self.members.deep_view()
    }
}

impl VariantSet {
    /// The empty set.
    pub fn new() -> (r: Self)
        ensures
            r@ == Seq::<RepresentationView>::empty(),
    {
        VariantSet { members: Vec::new() }
    }

    /// Appends one member.
    pub fn with_member(self, member: EventRepresentation) -> (r: Self)
        ensures
            r@ == self@.push(member@),
    {
        let mut members = self.members;
        members.push(member);
        let r = VariantSet { members };
        proof {
            assert(r@ =~= self@.push(member@));
        }
        r
    }

    /// Appends every member of a nested set, flattening it into this one.
    pub fn with_nested(self, nested: VariantSet) -> (r: Self)
        ensures
            r@ == self@ + nested@,
    {
        let mut members = self.members;
        let mut rest = nested.members;
        members.append(&mut rest);
        let r = VariantSet { members };
        proof {
            assert(r@ =~= self@ + nested@);
        }
        r
    }
}

/// Mathematical model of a [`RawEvent`].
pub struct RawEventView {
    /// Event name found on the wire.
    pub name: Seq<char>,
    /// Event version found on the wire.
    pub version: u16,
    /// The payload, opaque to the current code revision.
    pub payload: Seq<u8>,
}

/// An event in its wire shape: a name, a version and an opaque payload.
///
/// This is what storage and transport collaborators produce and consume, and
/// what decoding falls back to when the current schema does not know the
/// version.
#[derive(Debug, PartialEq, Eq)]
pub struct RawEvent {
    /// Event name found on the wire.
    pub name: String,
    /// Event version found on the wire.
    pub version: u16,
    /// The payload, opaque to the current code revision.
    pub payload: Vec<u8>,
}

impl View for RawEvent {
    type V = RawEventView;

    open spec fn view(&self) -> RawEventView {
        RawEventView { name: self.name@, version: self.version, payload: self.payload@ }
    }
}

impl DeepView for RawEvent {
    type V = RawEventView;

    open spec fn deep_view(&self) -> RawEventView {
        self.view()
    }
}

/// Mathematical model of a [`VersionedEvent`].
pub struct VersionedEventView {
    /// Identity of the representation the payload decodes to.
    pub type_tag: u64,
    /// Event name of the representation.
    pub name: Seq<char>,
    /// Event version of the representation.
    pub version: u16,
    /// The payload value.
    pub payload: Seq<u8>,
}

/// An event resolved to a statically known representation: the wire fields
/// plus the `type_tag` of the representation they decode to.
#[derive(Debug, PartialEq, Eq)]
pub struct VersionedEvent {
    /// Identity of the representation the payload decodes to.
    pub type_tag: u64,
    /// Event name of the representation.
    pub name: String,
    /// Event version of the representation.
    pub version: u16,
    /// The payload value.
    pub payload: Vec<u8>,
}

impl View for VersionedEvent {
    type V = VersionedEventView;

    open spec fn view(&self) -> VersionedEventView {
        VersionedEventView {
            type_tag: self.type_tag,
            name: self.name@,
            version: self.version,
            payload: self.payload@,
        }
    }
}

impl DeepView for VersionedEvent {
    type V = VersionedEventView;

    open spec fn deep_view(&self) -> VersionedEventView {
        self.view()
    }
}

/// Mathematical model of a [`VersionedOrRaw`].
pub enum VersionedOrRawView {
    /// The identity was recognized by the current schema.
    Versioned(VersionedEventView),
    /// The identity was not recognized; the payload stays opaque.
    Raw(RawEventView),
}

/// Either an event decoded to a known representation or an opaque raw event,
/// used wherever forward compatibility with not-yet-deployed versions matters.
#[derive(Debug, PartialEq, Eq)]
pub enum VersionedOrRaw {
    /// The identity was recognized by the current schema.
    Versioned(VersionedEvent),
    /// The identity was not recognized; the payload stays opaque.
    Raw(RawEvent),
}

impl View for VersionedOrRaw {
    type V = VersionedOrRawView;

    open spec fn view(&self) -> VersionedOrRawView {
        match self {
            VersionedOrRaw::Versioned(ev) => VersionedOrRawView::Versioned(ev@),
            VersionedOrRaw::Raw(ev) => VersionedOrRawView::Raw(ev@),
        }
    }
}

/// The spec-level image of stripping an event back to its wire shape.
pub open spec fn encode_spec(ev: VersionedEventView) -> RawEventView {
    RawEventView { name: ev.name, version: ev.version, payload: ev.payload }
}

/// Strips a decoded event back to its wire shape, dropping the type tag and
/// keeping name, version and payload.
pub fn encode(ev: VersionedEvent) -> (r: RawEvent)
    ensures
        r@ == encode_spec(ev@),
{
    RawEvent { name: ev.name, version: ev.version, payload: ev.payload }
}

} // verus!
