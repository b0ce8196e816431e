//! The uniqueness validator and the registry it gates.
//!
//! Construction takes the full flattened member list of a variant set and
//! verifies pairwise that no two distinct representation types share one
//! `(name, version)` identity; only then is the queryable registry available.

use vstd::prelude::*;

use crate::event::EventRepresentation;
use crate::event::RawEvent;
use crate::event::RawEventView;
use crate::event::RepresentationView;
use crate::event::VariantSet;
use crate::event::VersionedEvent;
use crate::event::VersionedEventView;
use crate::event::VersionedOrRaw;
use crate::event::VersionedOrRawView;

verus! {

/// Two members collide when neither is ignored, both carry the same event
/// identity, and they stand for distinct representation types.
pub open spec fn collides(a: RepresentationView, b: RepresentationView) -> bool {
    &&& !a.ignored
    &&& !b.ignored
    &&& a.name == b.name
    &&& a.version == b.version
    &&& a.type_tag != b.type_tag
}

/// No two distinct representation types among the non-ignored members share
/// one `(name, version)` identity. The same type reused in two members is not
/// a violation.
pub open spec fn distinct_identities(ms: Seq<RepresentationView>) -> bool {
    forall|i: int, j: int|
        0 <= i < ms.len() && 0 <= j < ms.len() ==> !collides(#[trigger] ms[i], #[trigger] ms[j])
}

/// A variant set holding two non-ignored members that share one identity but
/// stand for different representation types can never validate: registry
/// construction over it must fail.
pub proof fn lemma_collision_forces_failure(ms: Seq<RepresentationView>, i: int, j: int)
    requires
        0 <= i < ms.len(),
        0 <= j < ms.len(),
        collides(ms[i], ms[j]),
    ensures
        !distinct_identities(ms),
{
}

/// Mathematical model of a [`Collision`].
pub struct CollisionView {
    /// Type name of the earlier colliding member.
    pub first_repr: Seq<char>,
    /// Type name of the later colliding member.
    pub second_repr: Seq<char>,
    /// The shared event name.
    pub name: Seq<char>,
    /// The shared event version.
    pub version: u16,
}

/// A construction failure: two distinct representation types share one event
/// identity. Carries both type names and the shared identity.
#[derive(Debug, PartialEq, Eq)]
pub struct Collision {
    /// Type name of the earlier colliding member.
    pub first_repr: String,
    /// Type name of the later colliding member.
    pub second_repr: String,
    /// The shared event name.
    pub name: String,
    /// The shared event version.
    pub version: u16,
}

impl View for Collision {
    type V = CollisionView;

    open spec fn view(&self) -> CollisionView {
        CollisionView {
            first_repr: self.first_repr@,
            second_repr: self.second_repr@,
            name: self.name@,
            version: self.version,
        }
    }
}

/// The collision report names two members of the set that do collide, in
/// declaration order, together with their shared identity.
pub open spec fn reports_collision(ms: Seq<RepresentationView>, c: CollisionView) -> bool {
    exists|i: int, j: int|
        {
            &&& 0 <= i < j < ms.len()
            &&& collides(#[trigger] ms[i], #[trigger] ms[j])
            &&& c.first_repr == ms[i].repr_name
            &&& c.second_repr == ms[j].repr_name
            &&& c.name == ms[i].name
            &&& c.version == ms[i].version
        }
}

/// The first non-ignored member carrying the identity `(name, version)`, if
/// any.
pub open spec fn lookup_spec(ms: Seq<RepresentationView>, name: Seq<char>, version: u16) -> Option<
    u64,
>
    decreases ms.len(),
{
    if ms.len() == 0 {
        None
    } else if !ms[0].ignored && ms[0].name == name && ms[0].version == version {
        Some(ms[0].type_tag)
    } else {
        lookup_spec(ms.drop_first(), name, version)
    }
}

/// An immutable mapping from `(name, version)` to representation type
/// identity, available only after the uniqueness validator has succeeded.
#[derive(Debug)]
pub struct Registry {
    pub(crate) members: Vec<EventRepresentation>,
}

impl View for Registry {
    type V = Seq<RepresentationView>;

    closed spec fn view(&self) -> Seq<RepresentationView> {
        self.members.deep_view()
    }
}

impl Registry {
    /// The registry's model is the view of its member list.
    pub(crate) proof fn lemma_view_is_members(&self)
        ensures
            self@ == self.members.deep_view(),
    {
    }

    /// A registry never holds a colliding pair of members.
    pub open spec fn wf(&self) -> bool {
        distinct_identities(self@)
    }

    /// Validates the flattened member list of a variant set and, on success,
    /// turns it into the registry over exactly those members.
    ///
    /// Construction fails if and only if two distinct representation types
    /// among the non-ignored members share one `(name, version)` identity; the
    /// report then names both types and the shared identity.
    #[verifier::loop_isolation(false)]
    pub fn build(set: VariantSet) -> (r: Result<Registry, Collision>)
        ensures
            match r {
                Ok(reg) => reg@ == set@ && reg.wf(),
                Err(c) => reports_collision(set@, c@) && !distinct_identities(set@),
            },
    {
        let ghost orig = set@;
        let members = set.members;
        let n = members.len();
        let mut i: usize = 0;
        while i < n
            invariant
                n == members.deep_view().len(),
                i <= n,
                forall|p: int, q: int|
                    0 <= p < i && 0 <= q < members.deep_view().len() ==> !collides(
                        #[trigger] members.deep_view()[p],
                        #[trigger] members.deep_view()[q],
                    ),
            decreases n - i,
        {
            let mut j: usize = i + 1;
            while j < n
                invariant
                    n == members.deep_view().len(),
                    i < n,
                    i + 1 <= j <= n,
                    forall|q: int|
                        0 <= q < j ==> !collides(
                            members.deep_view()[i as int],
                            #[trigger] members.deep_view()[q],
                        ),
                decreases n - j,
            {
                let a = &members[i];
                let b = &members[j];
                if !a.ignored && !b.ignored && a.version == b.version && a.name == b.name
                    && a.type_tag != b.type_tag {
                    let c = Collision {
                        first_repr: a.repr_name.clone(),
                        second_repr: b.repr_name.clone(),
                        name: a.name.clone(),
                        version: a.version,
                    };
                    proof {
                        let ms = members.deep_view();
                        assert(0 <= i < j < ms.len() && collides(ms[i as int], ms[j as int])
                            && c@.first_repr == ms[i as int].repr_name && c@.second_repr == ms[
                            j as int].repr_name && c@.name == ms[i as int].name && c@.version == ms[
                            i as int].version);
                        assert(reports_collision(ms, c@));
                        assert(!distinct_identities(ms));
                        assert(ms == orig);
                    }
                    return Err(c);
                }
                j += 1;
            }
            proof {
                assert forall|q: int| 0 <= q < members.deep_view().len() implies !collides(
                    members.deep_view()[i as int],
                    #[trigger] members.deep_view()[q],
                ) by {
                    if q < i {
                        assert(!collides(members.deep_view()[q], members.deep_view()[i as int]));
                    }
                }
            }
            i += 1;
        }
        Ok(Registry { members })
    }

    /// Resolves an event identity to the representation type it names, or
    /// `None` when no non-ignored member carries it.
    #[verifier::loop_isolation(false)]
    pub fn lookup(&self, name: &String, version: u16) -> (r: Option<u64>)
        ensures
            r == lookup_spec(self@, name@, version),
    {
        let n = self.members.len();
        let mut i: usize = 0;
        while i < n
            invariant
                n == self@.len(),
                i <= n,
                forall|q: int|
                    0 <= q < i ==> !(!(#[trigger] self@[q]).ignored && self@[q].name == name@
                        && self@[q].version == version),
            decreases n - i,
        {
            let m = &self.members[i];
            if !m.ignored && m.version == version && m.name == *name {
                proof {
                    lemma_lookup_spec_prefix(self@, name@, version, i as int);
                }
                return Some(m.type_tag);
            }
            i += 1;
        }
        proof {
            lemma_lookup_spec_prefix(self@, name@, version, n as int);
        }
        None
    }

    /// The spec-level image of decoding: resolve the wire identity, and fall
    /// back to the raw shape when the current schema does not know it.
    pub open spec fn decode_spec(ms: Seq<RepresentationView>, ev: RawEventView) -> VersionedOrRawView {
        match lookup_spec(ms, ev.name, ev.version) {
            Some(tag) => VersionedOrRawView::Versioned(
                VersionedEventView {
                    type_tag: tag,
                    name: ev.name,
                    version: ev.version,
                    payload: ev.payload,
                },
            ),
            None => VersionedOrRawView::Raw(ev),
        }
    }

    /// Decodes a wire-level event: resolves it to a statically known
    /// representation by `(name, version)`, or yields it back as an opaque raw
    /// value when the identity is unknown, so unknown future versions do not
    /// crash older code.
    pub fn decode(&self, ev: RawEvent) -> (r: VersionedOrRaw)
        ensures
            r@ == Self::decode_spec(self@, ev@),
    {
        match self.lookup(&ev.name, ev.version) {
            Some(tag) => VersionedOrRaw::Versioned(
                VersionedEvent {
                    type_tag: tag,
                    name: ev.name,
                    version: ev.version,
                    payload: ev.payload,
                },
            ),
            None => VersionedOrRaw::Raw(ev),
        }
    }
}

/// When no non-ignored member among the first `k` matches the identity, the
/// lookup over the whole list equals the lookup over the rest.
proof fn lemma_lookup_spec_prefix(ms: Seq<RepresentationView>, name: Seq<char>, version: u16, k: int)
    requires
        0 <= k <= ms.len(),
        forall|q: int|
            0 <= q < k ==> !(!(#[trigger] ms[q]).ignored && ms[q].name == name && ms[q].version
                == version),
    ensures
        lookup_spec(ms, name, version) == lookup_spec(ms.skip(k), name, version),
    decreases k,
{
    if k == 0 {
        assert(ms.skip(0) =~= ms);
    } else {
        let rest = ms.drop_first();
        assert(forall|q: int|
            0 <= q < k - 1 ==> !(!(#[trigger] rest[q]).ignored && rest[q].name == name
                && rest[q].version == version));
        lemma_lookup_spec_prefix(rest, name, version, k - 1);
        assert(rest.skip(k - 1) =~= ms.skip(k));
    }
}

/// What a lookup answer means over the member list: a hit names some
/// non-ignored member carrying the identity, and a miss says no non-ignored
/// member carries it.
pub proof fn lemma_lookup_characterization(ms: Seq<RepresentationView>, name: Seq<char>, version: u16)
    ensures
        match lookup_spec(ms, name, version) {
            Some(tag) => exists|i: int|
                0 <= i < ms.len() && !(#[trigger] ms[i]).ignored && ms[i].name == name
                    && ms[i].version == version && ms[i].type_tag == tag,
            None => forall|i: int|
                0 <= i < ms.len() ==> !(!(#[trigger] ms[i]).ignored && ms[i].name == name
                    && ms[i].version == version),
        },
    decreases ms.len(),
{
    if ms.len() == 0 {
    } else if !ms[0].ignored && ms[0].name == name && ms[0].version == version {
    } else {
        let rest = ms.drop_first();
        lemma_lookup_characterization(rest, name, version);
        match lookup_spec(ms, name, version) {
            Some(tag) => {
                let i = choose|i: int|
                    0 <= i < rest.len() && !(#[trigger] rest[i]).ignored && rest[i].name == name
                        && rest[i].version == version && rest[i].type_tag == tag;
                assert(ms[i + 1] == rest[i]);
            },
            None => {
                assert forall|i: int|
                    0 <= i < ms.len() implies !(!(#[trigger] ms[i]).ignored && ms[i].name == name
                    && ms[i].version == version) by {
                    if i > 0 {
                        assert(rest[i - 1] == ms[i]);
                    }
                }
            },
        }
    }
}

/// In a validated member list every member resolves to itself: looking up the
/// identity of any non-ignored member yields that member's own type identity.
pub proof fn lemma_member_resolves_to_itself(ms: Seq<RepresentationView>, i: int)
    requires
        distinct_identities(ms),
        0 <= i < ms.len(),
        !ms[i].ignored,
    ensures
        lookup_spec(ms, ms[i].name, ms[i].version) == Some(ms[i].type_tag),
{
    lemma_lookup_characterization(ms, ms[i].name, ms[i].version);
    match lookup_spec(ms, ms[i].name, ms[i].version) {
        Some(tag) => {
            let j = choose|j: int|
                0 <= j < ms.len() && !(#[trigger] ms[j]).ignored && ms[j].name == ms[i].name
                    && ms[j].version == ms[i].version && ms[j].type_tag == tag;
            assert(!collides(ms[i], ms[j]));
        },
        None => {
            assert(!(!ms[i].ignored && ms[i].name == ms[i].name && ms[i].version == ms[i].version));
        },
    }
}

/// Round trip: an event of a representation known to a validated registry,
/// stripped to its wire shape and decoded again, comes back as the same
/// versioned value, never as a raw fallback.
pub proof fn lemma_round_trip(ms: Seq<RepresentationView>, ev: VersionedEventView, i: int)
    requires
        distinct_identities(ms),
        0 <= i < ms.len(),
        !ms[i].ignored,
        ms[i].name == ev.name,
        ms[i].version == ev.version,
        ms[i].type_tag == ev.type_tag,
    ensures
        Registry::decode_spec(ms, crate::event::encode_spec(ev)) == VersionedOrRawView::Versioned(
            ev,
        ),
{
    lemma_member_resolves_to_itself(ms, i);
}

} // verus!
