//! The application router: from the body of a request to the handler that
//! answers it.

use crate::errors::RoutingError;
use crate::listener::{staged, unit_views, BtpListener, SessionView};
use crate::trans_content::{done_state, EntryView, ResContentType, TransUnitType};
use crate::trans_unit::{lemma_response_correlates, response_to, TransUnit};
use vstd::hash_map::StringHashMap;
use vstd::prelude::*;

verus! {

/// The time a worker lets pass between two poll cycles, in seconds.
pub const POLL_INTERVAL_SECONDS: u64 = 10;

/// What handling the request `unit` does to the session: where a handler is
/// registered for its body, the response built from something the handler
/// may return is staged; where none is, the session stays as it was.
pub open spec fn handled<T: Fn() -> TransUnitType>(
    routes: Map<Seq<char>, T>,
    unit: EntryView,
    before: SessionView,
    after: SessionView,
) -> bool {
    if routes.contains_key(unit.body) {
        exists|result: TransUnitType, name: Seq<char>|
            call_ensures(routes[unit.body], (), result) && after == #[trigger] staged(
                before,
                response_to(unit, result@),
                name,
            )
    } else {
        after == before
    }
}

/// What handling the requests `units`, one after the other, does to the
/// session.
pub open spec fn dispatched<T: Fn() -> TransUnitType>(
    routes: Map<Seq<char>, T>,
    units: Seq<EntryView>,
    before: SessionView,
    after: SessionView,
) -> bool
    decreases units.len(),
{
    if units.len() == 0 {
        after == before
    } else {
        exists|middle: SessionView|
            dispatched(routes, units.drop_last(), before, middle) && #[trigger] handled(
                routes,
                units.last(),
                middle,
                after,
            )
    }
}

/// The predicate "has no handler" on the bodies of requests.
pub open spec fn without_route<T>(routes: Map<Seq<char>, T>) -> spec_fn(Seq<char>) -> bool {
    |body: Seq<char>| !routes.contains_key(body)
}

/// The bodies of the requests of `units` for which no handler is
/// registered, in their order.
pub open spec fn unrouted<T>(routes: Map<Seq<char>, T>, units: Seq<EntryView>) -> Seq<Seq<char>> {
    units.map_values(|unit: EntryView| unit.body).filter(without_route(routes))
}

/// The predicate "has a handler" on requests.
pub open spec fn with_route<T>(routes: Map<Seq<char>, T>) -> spec_fn(EntryView) -> bool {
    |unit: EntryView| routes.contains_key(unit.body)
}

/// The requests of `units` for which a handler is registered, in their
/// order.
pub open spec fn routed<T>(routes: Map<Seq<char>, T>, units: Seq<EntryView>) -> Seq<EntryView> {
    units.filter(with_route(routes))
}

/// The keys of the errors of `errors`, in order.
pub open spec fn error_keys(errors: Seq<RoutingError>) -> Seq<Seq<char>> {
    errors.map_values(|error: RoutingError| error.key@)
}

/// The requests without a handler among a batch that ends in `unit` are those
/// among what comes before it, and `unit` where it has none.
proof fn lemma_unrouted_push<T>(routes: Map<Seq<char>, T>, units: Seq<EntryView>, unit: EntryView)
    ensures
        unrouted(routes, units.push(unit)) == if routes.contains_key(unit.body) {
            unrouted(routes, units)
        } else {
            unrouted(routes, units).push(unit.body)
        },
{
    reveal(Seq::filter);
    let bodies = units.map_values(|unit: EntryView| unit.body);
    let longer = units.push(unit).map_values(|unit: EntryView| unit.body);
    assert(longer =~= bodies.push(unit.body));
    assert(longer.drop_last() =~= bodies);
}

/// Handling a batch that ends in `unit` is handling what comes before it,
/// then `unit`.
proof fn lemma_dispatched_push<T: Fn() -> TransUnitType>(
    routes: Map<Seq<char>, T>,
    units: Seq<EntryView>,
    unit: EntryView,
    before: SessionView,
    middle: SessionView,
    after: SessionView,
)
    requires
        dispatched(routes, units, before, middle),
        handled(routes, unit, middle, after),
    ensures
        dispatched(routes, units.push(unit), before, after),
{
    let longer = units.push(unit);
    assert(longer.drop_last() =~= units);
    assert(longer.last() == unit);
    assert(dispatched(routes, longer.drop_last(), before, middle) && handled(
        routes,
        longer.last(),
        middle,
        after,
    ));
}

/// Handling a batch stages one response for each request that has a
/// handler, in the order of the requests and behind what was staged before.
/// Each of them carries the identifier and the creation time of its request,
/// and the state `"Done"`.
pub proof fn lemma_dispatched_stash<T: Fn() -> TransUnitType>(
    routes: Map<Seq<char>, T>,
    units: Seq<EntryView>,
    before: SessionView,
    after: SessionView,
)
    requires
        dispatched(routes, units, before, after),
    ensures
        after.stash.len() == before.stash.len() + routed(routes, units).len(),
        after.stash.take(before.stash.len() as int) == before.stash,
        forall|k: int|
            0 <= k < routed(routes, units).len() ==> {
                let staged_entry = #[trigger] after.stash[before.stash.len() + k];
                let request = routed(routes, units)[k];
                &&& staged_entry.head.id == request.head.id
                &&& staged_entry.head.timestamp == request.head.timestamp
                &&& staged_entry.head.state == done_state()
            },
    decreases units.len(),
{
    reveal(Seq::filter);
    if units.len() == 0 {
        assert(after.stash.take(before.stash.len() as int) =~= before.stash);
    } else {
        let front = units.drop_last();
        let unit = units.last();
        let middle = choose|middle: SessionView|
            dispatched(routes, front, before, middle) && #[trigger] handled(
                routes,
                unit,
                middle,
                after,
            );
        lemma_dispatched_stash(routes, front, before, middle);
        let answered = routed(routes, front);
        if routes.contains_key(unit.body) {
            let (result, name) = choose|result: TransUnitType, name: Seq<char>|
                call_ensures(routes[unit.body], (), result) && after == #[trigger] staged(
                    middle,
                    response_to(unit, result@),
                    name,
                );
            lemma_response_correlates(unit, result@);
            assert(routed(routes, units) == answered.push(unit));
            assert(after.stash.len() == middle.stash.len() + 1);
            assert(after.stash.take(before.stash.len() as int) =~= middle.stash.take(
                before.stash.len() as int,
            ));
            assert forall|k: int| 0 <= k < routed(routes, units).len() implies {
                let staged_entry = #[trigger] after.stash[before.stash.len() + k];
                let request = routed(routes, units)[k];
                &&& staged_entry.head.id == request.head.id
                &&& staged_entry.head.timestamp == request.head.timestamp
                &&& staged_entry.head.state == done_state()
            } by {
                if k < answered.len() {
                    assert(after.stash[before.stash.len() + k] == middle.stash[before.stash.len()
                        + k]);
                }
            }
        } else {
            assert(routed(routes, units) == answered);
        }
    }
}

/// A table of handlers by routing key.
#[verifier::reject_recursive_types(T)]
pub struct AppListener<T> where T: Fn() -> TransUnitType {
    listener: StringHashMap<T>,
}

impl<T> View for AppListener<T> where T: Fn() -> TransUnitType {
    type V = Map<Seq<char>, T>;

    closed spec fn view(&self) -> Map<Seq<char>, T> {
        self.listener@
    }
}

impl<T> AppListener<T> where T: Fn() -> TransUnitType {
    #[verifier::type_invariant]
    spec fn well_formed(&self) -> bool {
        forall|key: Seq<char>| #[trigger]
            self.listener@.contains_key(key) ==> call_requires(self.listener@[key], ())
    }

    /// A table without handlers.
    pub fn new() -> (router: Self)
        ensures
            router@ == Map::<Seq<char>, T>::empty(),
    {
        AppListener { listener: StringHashMap::new() }
    }

    /// Registers `callback` for `key`, in the place of the handler that was
    /// registered for it before.
    pub fn add(&mut self, key: &'static str, callback: T)
        requires
            call_requires(callback, ()),
        ensures
            final(self)@ == old(self)@.insert(key@, callback),
    {
        proof {
            use_type_invariant(&*self);
        }
        let mut routes: StringHashMap<T> = StringHashMap::new();
        core::mem::swap(&mut self.listener, &mut routes);
        routes.insert(key.to_string(), callback);
        core::mem::swap(&mut self.listener, &mut routes);
    }

    /// Answers one request: looks up the handler registered for its body,
    /// calls it and builds the response from what it returns. A request
    /// without a handler is an error of its own and calls nothing.
    pub fn respond(&self, unit: &TransUnit) -> (outcome: Result<ResContentType, RoutingError>)
        ensures
            match outcome {
                Ok(response) => self@.contains_key(unit@.body) && exists|result: TransUnitType|
                    call_ensures(self@[unit@.body], (), result) && response@ == #[trigger] response_to(
                        unit@,
                        result@,
                    ),
                Err(error) => !self@.contains_key(unit@.body) && error.key@ == unit@.body,
            },
    {
        proof {
            use_type_invariant(self);
        }
        let key = unit.get();
        match self.listener.get(key.as_str()) {
            Some(handler) => {
                let result = handler();
                let ghost returned = result;
                let response = unit.set(result);
                assert(response@ == response_to(unit@, returned@));
                Ok(response)
            },
            None => Err(RoutingError { key: key.clone() }),
        }
    }

    /// Answers the requests of one poll cycle in their order and stages
    /// each response in `session`. A request without a handler is reported
    /// and does not keep the others from being answered.
    pub fn dispatch(&self, units: Vec<TransUnit>, session: &mut BtpListener) -> (errors: Vec<
        RoutingError,
    >)
        ensures
            dispatched(self@, unit_views(units@), old(session)@, final(session)@),
            error_keys(errors@) == unrouted(self@, unit_views(units@)),
    {
        let mut errors: Vec<RoutingError> = Vec::new();
        let mut at: usize = 0;
        assert(error_keys(errors@) =~= unrouted(self@, unit_views(units@.take(0)))) by {
            reveal(Seq::filter);
        }
        while at < units.len()
            invariant
                at <= units@.len(),
                dispatched(self@, unit_views(units@.take(at as int)), old(session)@, session@),
                error_keys(errors@) == unrouted(self@, unit_views(units@.take(at as int))),
            decreases units@.len() - at,
        {
            let ghost middle = session@;
            let ghost reported = errors@;
            let ghost unit = units@[at as int]@;
            match self.respond(&units[at]) {
                Ok(response) => {
                    session.stash(response);
                },
                Err(error) => {
                    errors.push(error);
                    assert(error_keys(errors@) =~= error_keys(reported).push(unit.body));
                },
            }
            proof {
                let handled_so_far = unit_views(units@.take(at as int));
                assert(units@.take(at + 1) =~= units@.take(at as int).push(units@[at as int]));
                assert(unit_views(units@.take(at + 1)) =~= handled_so_far.push(unit));
                lemma_unrouted_push(self@, handled_so_far, unit);
                lemma_dispatched_push(
                    self@,
                    handled_so_far,
                    unit,
                    old(session)@,
                    middle,
                    session@,
                );
            }
            at += 1;
        }
        assert(units@.take(units@.len() as int) =~= units@);
        errors
    }
}

} // verus!
