//! The adapter/transformer pipeline: normalizing a heterogeneous input event
//! set into a canonical output set, one strategy per input representation.
//!
//! A transformation call threads a caller-supplied context, yields zero, one
//! or many outputs per input event, and surfaces a caller-defined error type
//! per event rather than aborting sibling events.

use vstd::prelude::*;

use crate::event::VersionedEvent;
use crate::event::VersionedEventView;

verus! {

/// The per-representation rule governing how an input event becomes zero, one
/// or many output events.
#[derive(Clone, Copy, Debug, PartialEq, Eq)]
pub enum Strategy {
    /// The input passes through unchanged, its identity preserved.
    AsIs,
    /// The caller's lossless conversion turns the input into exactly one
    /// output representation.
    Convert,
    /// The input is dropped and produces no output.
    Skip,
    /// The caller's own logic computes zero, one or many outputs, reading the
    /// context and able to fail.
    Custom,
}

/// One entry of an adapter's strategy table: the strategy bound to an input
/// representation.
#[derive(Clone, Copy, Debug, PartialEq, Eq)]
pub struct StrategyBinding {
    /// The input representation the strategy is bound to.
    pub type_tag: u64,
    /// The strategy applied to events of that representation.
    pub strategy: Strategy,
}

/// A transformation failure, surfaced per input event.
#[derive(Debug, PartialEq, Eq)]
pub enum TransformError<E> {
    /// The input representation has no bound strategy: a construction-time
    /// mistake in the adapter's table, never silently absorbed.
    Unbound {
        /// The representation the event carried.
        type_tag: u64,
    },
    /// A custom strategy failed with the caller's error.
    Custom(E),
}

/// The caller's side of an adapter: the lossless conversion behind
/// [`Strategy::Convert`] and the custom logic behind [`Strategy::Custom`].
///
/// Both are deterministic in the event and the context; the custom logic may
/// fail with the caller's error type, and that failure is propagated per
/// event.
pub trait Adapt: Sized {
    /// The caller-supplied context threaded through every transformation
    /// call.
    type Context;

    /// The caller-defined error a custom strategy may produce.
    type Error;

    /// The value of the lossless conversion on an input event.
    spec fn convert_spec(&self, ev: VersionedEventView) -> VersionedEventView;

    /// The value of the custom logic on an input event and a context.
    spec fn custom_spec(&self, ev: VersionedEventView, ctx: Self::Context) -> Result<
        Seq<VersionedEventView>,
        Self::Error,
    >;

    /// Converts an input event into its one output representation.
    fn convert(&self, ev: &VersionedEvent) -> (r: VersionedEvent)
        ensures
            r@ == self.convert_spec(ev@),
    ;

    /// Runs the custom logic on an input event with the given context.
    fn custom(&self, ev: &VersionedEvent, ctx: &Self::Context) -> (r: Result<
        Vec<VersionedEvent>,
        Self::Error,
    >)
        ensures
            custom_matches(r, self.custom_spec(ev@, *ctx)),
    ;
}

/// An executable custom result agrees with its spec-level value: the same
/// case, the same outputs in the same order, or the same error.
pub open spec fn custom_matches<E>(
    r: Result<Vec<VersionedEvent>, E>,
    s: Result<Seq<VersionedEventView>, E>,
) -> bool {
    match (r, s) {
        (Ok(v), Ok(outs)) => v.deep_view() == outs,
        (Err(e1), Err(e2)) => e1 == e2,
        _ => false,
    }
}

/// The strategy the table binds to the representation `tag`: the first
/// binding with that tag, if any.
pub open spec fn strategy_for(bs: Seq<StrategyBinding>, tag: u64) -> Option<Strategy>
    decreases bs.len(),
{
    if bs.len() == 0 {
        None
    } else if bs[0].type_tag == tag {
        Some(bs[0].strategy)
    } else {
        strategy_for(bs.drop_first(), tag)
    }
}

/// The spec-level image of one transformation call: look up the strategy
/// bound to the event's representation and apply it.
pub open spec fn transform_spec<A: Adapt>(
    bs: Seq<StrategyBinding>,
    adapt: A,
    ev: VersionedEventView,
    ctx: A::Context,
) -> Seq<Result<VersionedEventView, TransformError<A::Error>>> {
    match strategy_for(bs, ev.type_tag) {
        None => seq![Err(TransformError::Unbound { type_tag: ev.type_tag })],
        Some(Strategy::AsIs) => seq![Ok(ev)],
        Some(Strategy::Convert) => seq![Ok(adapt.convert_spec(ev))],
        Some(Strategy::Skip) => Seq::empty(),
        Some(Strategy::Custom) => match adapt.custom_spec(ev, ctx) {
            Ok(outs) => Seq::new(outs.len(), |i: int| Ok(outs[i])),
            Err(e) => seq![Err(TransformError::Custom(e))],
        },
    }
}

/// An executable output agrees with its spec-level value.
pub open spec fn output_matches<E>(
    x: Result<VersionedEvent, TransformError<E>>,
    y: Result<VersionedEventView, TransformError<E>>,
) -> bool {
    match (x, y) {
        (Ok(v), Ok(w)) => v@ == w,
        (Err(a), Err(b)) => a == b,
        _ => false,
    }
}

/// An executable output sequence agrees elementwise with its spec-level
/// value.
pub open spec fn outputs_match<E>(
    r: Seq<Result<VersionedEvent, TransformError<E>>>,
    s: Seq<Result<VersionedEventView, TransformError<E>>>,
) -> bool {
    r.len() == s.len() && forall|i: int| 0 <= i < r.len() ==> output_matches(#[trigger] r[i], s[i])
}

/// A stateless binding from a source variant set to one strategy per member
/// representation. Constructed once per source/target pair; transformation
/// reads it and the per-call context only.
#[derive(Debug)]
pub struct Adapter {
    /// The strategy table, keyed by input representation identity.
    pub bindings: Vec<StrategyBinding>,
}

impl View for Adapter {
    type V = Seq<StrategyBinding>;

    open spec fn view(&self) -> Seq<StrategyBinding> {
        self.bindings@
    }
}

/// When no binding among the first `k` carries the tag, the strategy bound
/// over the whole table equals the one bound over the rest.
proof fn lemma_strategy_for_prefix(bs: Seq<StrategyBinding>, tag: u64, k: int)
    requires
        0 <= k <= bs.len(),
        forall|q: int| 0 <= q < k ==> (#[trigger] bs[q]).type_tag != tag,
    ensures
        strategy_for(bs, tag) == strategy_for(bs.skip(k), tag),
    decreases k,
{
    if k == 0 {
        assert(bs.skip(0) =~= bs);
    } else {
        let rest = bs.drop_first();
        assert(forall|q: int| 0 <= q < k - 1 ==> (#[trigger] rest[q]).type_tag != tag);
        lemma_strategy_for_prefix(rest, tag, k - 1);
        assert(rest.skip(k - 1) =~= bs.skip(k));
    }
}

impl Adapter {
    /// An adapter with an empty strategy table.
    pub fn new() -> (r: Self)
        ensures
            r@ == Seq::<StrategyBinding>::empty(),
    {
        Adapter { bindings: Vec::new() }
    }

    /// Binds a strategy to an input representation.
    pub fn with_binding(self, type_tag: u64, strategy: Strategy) -> (r: Self)
        ensures
            r@ == self@.push(StrategyBinding { type_tag, strategy }),
    {
        let mut bindings = self.bindings;
        bindings.push(StrategyBinding { type_tag, strategy });
        Adapter { bindings }
    }

    /// The strategy bound to the representation `tag`, if any.
    #[verifier::loop_isolation(false)]
    pub fn strategy_of(&self, tag: u64) -> (r: Option<Strategy>)
        ensures
            r == strategy_for(self@, tag),
    {
        let n = self.bindings.len();
        let mut i: usize = 0;
        while i < n
            invariant
                n == self@.len(),
                i <= n,
                forall|q: int| 0 <= q < i ==> (#[trigger] self@[q]).type_tag != tag,
            decreases n - i,
        {
            if self.bindings[i].type_tag == tag {
                proof {
                    lemma_strategy_for_prefix(self@, tag, i as int);
                }
                return Some(self.bindings[i].strategy);
            }
            i += 1;
        }
        proof {
            lemma_strategy_for_prefix(self@, tag, n as int);
        }
        None
    }

    /// One transformation call: applies the strategy bound to the input
    /// event's representation, yielding zero, one or many outputs, each a
    /// result so that a custom failure is surfaced per event.
    #[verifier::loop_isolation(false)]
    pub fn transform<A: Adapt>(&self, adapt: &A, ev: VersionedEvent, ctx: &A::Context) -> (r: Vec<
        Result<VersionedEvent, TransformError<A::Error>>,
    >)
        ensures
            outputs_match(r@, transform_spec(self@, *adapt, ev@, *ctx)),
    {
        match self.strategy_of(ev.type_tag) {
            None => {
                let mut out: Vec<Result<VersionedEvent, TransformError<A::Error>>> = Vec::new();
                out.push(Err(TransformError::Unbound { type_tag: ev.type_tag }));
                out
            },
            Some(Strategy::AsIs) => {
                let mut out: Vec<Result<VersionedEvent, TransformError<A::Error>>> = Vec::new();
                out.push(Ok(ev));
                out
            },
            Some(Strategy::Convert) => {
                let converted = adapt.convert(&ev);
                let mut out: Vec<Result<VersionedEvent, TransformError<A::Error>>> = Vec::new();
                out.push(Ok(converted));
                out
            },
            Some(Strategy::Skip) => Vec::new(),
            Some(Strategy::Custom) => match adapt.custom(&ev, ctx) {
                Ok(outs) => {
                    let ghost produced = outs.deep_view();
                    let ghost orig = outs@;
                    let mut rest = outs;
                    let mut out: Vec<Result<VersionedEvent, TransformError<A::Error>>> =
                        Vec::new();
                    while rest.len() > 0
                        invariant
                            out@.len() + rest@.len() == orig.len(),
                            rest@ =~= orig.skip(out@.len() as int),
                            forall|q: int|
                                0 <= q < out@.len() ==> (#[trigger] out@[q]) == Ok::<
                                    VersionedEvent,
                                    TransformError<A::Error>,
                                >(orig[q]),
                        decreases rest.len(),
                    {
                        let ghost k = out@.len() as int;
                        let next = rest.remove(0);
                        proof {
                            assert(next == orig[k]);
                            assert(rest@ =~= orig.skip(k + 1));
                        }
                        out.push(Ok(next));
                    }
                    proof {
                        let spec_outs = transform_spec(self@, *adapt, ev@, *ctx);
                        assert forall|q: int| 0 <= q < out@.len() implies output_matches(
                            #[trigger] out@[q],
                            spec_outs[q],
                        ) by {
                            assert(orig[q].deep_view() == produced[q]);
                        }
                    }
                    out
                },
                Err(e) => {
                    let mut out: Vec<Result<VersionedEvent, TransformError<A::Error>>> =
                        Vec::new();
                    out.push(Err(TransformError::Custom(e)));
                    out
                },
            },
        }
    }
}

/// An adapter binding a member to [`Strategy::Skip`] transforms an event of
/// that member into the empty sequence.
pub proof fn lemma_skip_strategy<A: Adapt>(
    bs: Seq<StrategyBinding>,
    adapt: A,
    ev: VersionedEventView,
    ctx: A::Context,
)
    requires
        strategy_for(bs, ev.type_tag) == Some(Strategy::Skip),
    ensures
        transform_spec(bs, adapt, ev, ctx).len() == 0,
{
}

/// An adapter binding a member to [`Strategy::Convert`] transforms an event
/// of that member into exactly one output: the declared conversion's result.
pub proof fn lemma_convert_strategy<A: Adapt>(
    bs: Seq<StrategyBinding>,
    adapt: A,
    ev: VersionedEventView,
    ctx: A::Context,
)
    requires
        strategy_for(bs, ev.type_tag) == Some(Strategy::Convert),
    ensures
        transform_spec(bs, adapt, ev, ctx) =~= seq![
            Ok::<VersionedEventView, TransformError<A::Error>>(adapt.convert_spec(ev)),
        ],
{
}

/// An adapter binding a member to [`Strategy::AsIs`] passes an event of that
/// member through unchanged.
pub proof fn lemma_as_is_strategy<A: Adapt>(
    bs: Seq<StrategyBinding>,
    adapt: A,
    ev: VersionedEventView,
    ctx: A::Context,
)
    requires
        strategy_for(bs, ev.type_tag) == Some(Strategy::AsIs),
    ensures
        transform_spec(bs, adapt, ev, ctx) =~= seq![
            Ok::<VersionedEventView, TransformError<A::Error>>(ev),
        ],
{
}

} // verus!
