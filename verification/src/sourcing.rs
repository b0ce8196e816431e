//! The sourcing engine: folding an ordered stream of heterogeneous event
//! representations into aggregate state.
//!
//! Dispatch is by the concrete representation carried by the event, across
//! every non-ignored member of the governing variant set. The engine is pure;
//! supplying events in logical order is the caller's responsibility.

use vstd::prelude::*;

use crate::event::RepresentationView;
use crate::event::VersionedEvent;
use crate::event::VersionedEventView;
use crate::registry::Registry;

verus! {

/// Aggregate state produced by folding events.
///
/// A state type declares how the single initial representation starts a fresh
/// aggregate and how every subsequent event updates prior state. Both
/// operations are total, deterministic functions of the event value; the
/// engine dispatches to them after it has resolved the event's representation
/// against the variant set.
pub trait Sourced: Sized {
    /// The state a fresh aggregate starts in after its initial event.
    spec fn init_spec(ev: VersionedEventView) -> Self;

    /// The state an existing aggregate moves to after one more event.
    spec fn apply_spec(self, ev: VersionedEventView) -> Self;

    /// Starts a fresh aggregate from its initial event.
    fn init(ev: &VersionedEvent) -> (s: Self)
        ensures
            s == Self::init_spec(ev@),
    ;

    /// Applies one more event to prior state.
    fn apply(self, ev: &VersionedEvent) -> (s: Self)
        ensures
            s == self.apply_spec(ev@),
    ;
}

/// An illegal sourcing call. These are usage errors: they indicate a
/// schema-authoring defect and are never retried.
#[derive(Clone, Copy, Debug, PartialEq, Eq)]
pub enum SourcingError {
    /// The event carries a representation outside the variant set.
    UnknownRepresentation {
        /// The representation the event carried.
        type_tag: u64,
    },
    /// The event carries a member marked as ignored, on which identity and
    /// sourcing operations are construction-time mistakes.
    IgnoredMember {
        /// The representation the event carried.
        type_tag: u64,
    },
    /// Sourcing was attempted with no prior state against a representation
    /// that is not the initial one.
    NotInitial {
        /// The representation the event carried.
        type_tag: u64,
    },
}

/// The first member of the set carrying the representation `tag`, if any.
pub open spec fn member_by_tag(ms: Seq<RepresentationView>, tag: u64) -> Option<RepresentationView>
    decreases ms.len(),
{
    if ms.len() == 0 {
        None
    } else if ms[0].type_tag == tag {
        Some(ms[0])
    } else {
        member_by_tag(ms.drop_first(), tag)
    }
}

/// The spec-level image of one sourcing step: resolve the representation the
/// event carries, refuse unknown or ignored members, initialize a fresh
/// aggregate only from the initial representation, and otherwise apply the
/// representation-specific fold.
pub open spec fn sourced_spec<S: Sourced>(
    ms: Seq<RepresentationView>,
    prior: Option<S>,
    ev: VersionedEventView,
) -> Result<S, SourcingError> {
    match member_by_tag(ms, ev.type_tag) {
        None => Err(SourcingError::UnknownRepresentation { type_tag: ev.type_tag }),
        Some(m) => if m.ignored {
            Err(SourcingError::IgnoredMember { type_tag: ev.type_tag })
        } else {
            match prior {
                None => if m.initial {
                    Ok(S::init_spec(ev))
                } else {
                    Err(SourcingError::NotInitial { type_tag: ev.type_tag })
                },
                Some(s) => Ok(s.apply_spec(ev)),
            }
        },
    }
}

/// The spec-level image of folding a sequence of events in order, one
/// sourcing step per event, stopping at the first illegal call.
pub open spec fn fold_spec<S: Sourced>(
    ms: Seq<RepresentationView>,
    prior: Option<S>,
    evs: Seq<VersionedEventView>,
) -> Result<Option<S>, SourcingError>
    decreases evs.len(),
{
    if evs.len() == 0 {
        Ok(prior)
    } else {
        match sourced_spec(ms, prior, evs[0]) {
            Ok(s) => fold_spec(ms, Some(s), evs.drop_first()),
            Err(e) => Err(e),
        }
    }
}

/// When no member among the first `k` carries the tag, resolving over the
/// whole list equals resolving over the rest.
proof fn lemma_member_by_tag_prefix(ms: Seq<RepresentationView>, tag: u64, k: int)
    requires
        0 <= k <= ms.len(),
        forall|q: int| 0 <= q < k ==> (#[trigger] ms[q]).type_tag != tag,
    ensures
        member_by_tag(ms, tag) == member_by_tag(ms.skip(k), tag),
    decreases k,
{
    if k == 0 {
        assert(ms.skip(0) =~= ms);
    } else {
        let rest = ms.drop_first();
        assert(forall|q: int| 0 <= q < k - 1 ==> (#[trigger] rest[q]).type_tag != tag);
        lemma_member_by_tag_prefix(rest, tag, k - 1);
        assert(rest.skip(k - 1) =~= ms.skip(k));
    }
}

impl Registry {
    /// Resolves the member of the validated set that carries the
    /// representation `tag`, if any.
    #[verifier::loop_isolation(false)]
    fn member_by_tag_exec(&self, tag: u64) -> (r: Option<usize>)
        ensures
            match r {
                Some(i) => i < self@.len() && member_by_tag(self@, tag) == Some(self@[i as int]),
                None => member_by_tag(self@, tag) is None,
            },
    {
        proof {
            self.lemma_view_is_members();
        }
        let n = self.members.len();
        let mut i: usize = 0;
        while i < n
            invariant
                n == self@.len(),
                i <= n,
                forall|q: int| 0 <= q < i ==> (#[trigger] self@[q]).type_tag != tag,
            decreases n - i,
        {
            if self.members[i].type_tag == tag {
                proof {
                    lemma_member_by_tag_prefix(self@, tag, i as int);
                }
                return Some(i);
            }
            i += 1;
        }
        proof {
            lemma_member_by_tag_prefix(self@, tag, n as int);
        }
        None
    }

    /// One sourcing step against the validated set: `sourced(None, ev)`
    /// initializes a fresh aggregate, `sourced(Some(state), ev)` updates it.
    ///
    /// The call fails exactly when the event's representation lies outside the
    /// set, when it names an ignored member, or when a fresh aggregate is
    /// initialized from a representation that is not the initial one.
    pub fn sourced<S: Sourced>(&self, prior: Option<S>, ev: &VersionedEvent) -> (r: Result<
        S,
        SourcingError,
    >)
        ensures
            r == sourced_spec(self@, prior, ev@),
    {
        proof {
            self.lemma_view_is_members();
        }
        match self.member_by_tag_exec(ev.type_tag) {
            None => Err(SourcingError::UnknownRepresentation { type_tag: ev.type_tag }),
            Some(i) => {
                proof {
                    assert(self@[i as int] == self.members@[i as int]@);
                }
                if self.members[i].ignored {
                    Err(SourcingError::IgnoredMember { type_tag: ev.type_tag })
                } else {
                    match prior {
                        None => if self.members[i].initial {
                            Ok(S::init(ev))
                        } else {
                            Err(SourcingError::NotInitial { type_tag: ev.type_tag })
                        },
                        Some(s) => Ok(s.apply(ev)),
                    }
                }
            },
        }
    }

    /// Folds an ordered sequence of events into state, one sourcing step per
    /// event, stopping at the first illegal call.
    #[verifier::loop_isolation(false)]
    pub fn fold<S: Sourced>(&self, prior: Option<S>, events: &Vec<VersionedEvent>) -> (r: Result<
        Option<S>,
        SourcingError,
    >)
        ensures
            r == fold_spec(self@, prior, events.deep_view()),
    {
        let ghost evs = events.deep_view();
        let mut cur = prior;
        let mut i: usize = 0;
        while i < events.len()
            invariant
                i <= events.len(),
                evs.len() == events@.len(),
                fold_spec(self@, prior, evs.take(i as int)) == Ok::<Option<S>, SourcingError>(cur),
            decreases events.len() - i,
        {
            proof {
                assert(evs[i as int] == events@[i as int].deep_view());
                lemma_fold_composition::<S>(self@, prior, evs.take(i as int), seq![evs[i as int]]);
                assert(evs.take(i as int) + seq![evs[i as int]] =~= evs.take(i as int + 1));
            }
            let c = cur;
            match self.sourced(c, &events[i]) {
                Ok(s) => {
                    proof {
                        let single = seq![evs[i as int]];
                        assert(single.drop_first() =~= Seq::<VersionedEventView>::empty());
                        assert(fold_spec(self@, Some(s), single.drop_first()) == Ok::<
                            Option<S>,
                            SourcingError,
                        >(Some(s)));
                        assert(fold_spec(self@, c, single) == Ok::<Option<S>, SourcingError>(
                            Some(s),
                        ));
                    }
                    cur = Some(s);
                },
                Err(e) => {
                    proof {
                        lemma_fold_composition::<S>(
                            self@,
                            prior,
                            evs.take(i as int),
                            evs.skip(i as int),
                        );
                        assert(evs.take(i as int) + evs.skip(i as int) =~= evs);
                        assert(evs.skip(i as int)[0] == evs[i as int]);
                    }
                    return Err(e);
                },
            }
            i += 1;
        }
        proof {
            assert(evs.take(evs.len() as int) =~= evs);
        }
        Ok(cur)
    }
}

/// Folding a concatenation of two event sequences applied in order equals
/// folding the first and, from whatever state that reaches, folding the
/// second: the fold is the deterministic composition of per-step sourcing.
pub proof fn lemma_fold_composition<S: Sourced>(
    ms: Seq<RepresentationView>,
    prior: Option<S>,
    evs1: Seq<VersionedEventView>,
    evs2: Seq<VersionedEventView>,
)
    ensures
        fold_spec(ms, prior, evs1 + evs2) == match fold_spec(ms, prior, evs1) {
            Ok(mid) => fold_spec(ms, mid, evs2),
            Err(e) => Err(e),
        },
    decreases evs1.len(),
{
    if evs1.len() == 0 {
        assert(evs1 + evs2 =~= evs2);
    } else {
        assert((evs1 + evs2)[0] == evs1[0]);
        match sourced_spec(ms, prior, evs1[0]) {
            Ok(s) => {
                lemma_fold_composition(ms, Some(s), evs1.drop_first(), evs2);
                assert((evs1 + evs2).drop_first() =~= evs1.drop_first() + evs2);
            },
            Err(e) => {
                assert(fold_spec(ms, prior, evs1 + evs2) == Err::<Option<S>, SourcingError>(e));
            },
        }
    }
}

/// With no prior state, sourcing succeeds on an event of the set's initial
/// representation and fails on an event of any other non-ignored member.
pub proof fn lemma_initialization<S: Sourced>(
    ms: Seq<RepresentationView>,
    ev_init: VersionedEventView,
    ev_other: VersionedEventView,
)
    requires
        member_by_tag(ms, ev_init.type_tag) matches Some(m) && !m.ignored && m.initial,
        member_by_tag(ms, ev_other.type_tag) matches Some(m) && !m.ignored && !m.initial,
    ensures
        sourced_spec::<S>(ms, None, ev_init) == Ok::<S, SourcingError>(S::init_spec(ev_init)),
        sourced_spec::<S>(ms, None, ev_other) == Err::<S, SourcingError>(
            SourcingError::NotInitial { type_tag: ev_other.type_tag },
        ),
{
}

} // verus!
