//! The operation surface: the query, mutation and subscription roots.
//!
//! The mutation root carries the publish trigger: a successful create writes
//! the record and then, and only then, publishes it on the event bus. The
//! publish is best-effort fan-out — its notification count does not touch
//! the mutation's own result, so the creating client gets its record back
//! whether or not anyone is subscribed.

use vstd::prelude::*;

use crate::bus::{BusHandle, EventBus};
use crate::context::Context;
use crate::database::{generated_id, trilogy};
use crate::executor::SubscriptionExecutor;
use crate::models::{clone_human, Human, NewHuman};

verus! {

/// A resolver error: what went wrong, as text.
#[derive(Debug)]
pub struct FieldError {
    pub message: String,
}

impl FieldError {
    /// The error's text.
    pub fn message(&self) -> (r: &str)
        ensures
            r@ == self.message@,
    {
        self.message.as_str()
    }
}

/// The query root.
pub struct Query;

impl Query {
    /// The API's version tag.
    pub fn api_version() -> (r: &'static str)
        ensures
            r@ == "1.0"@,
    {
        "1.0"
    }

    /// Look one record up. The stub store always succeeds, with the fixed
    /// record under the identifier asked for.
    pub fn human(id: String, context: &Context) -> (r: Result<Human, FieldError>)
        ensures
            r matches Ok(h) && {
                &&& h.id@ == id@
                &&& h.name@ == "Luke Skywalker"@
                &&& h.appears_in@ == trilogy()
                &&& h.home_planet@ == "Tatooine"@
            },
    {
        let conn = match context.db.get_connection() {
            Ok(c) => c,
            Err(e) => {
                return Err(FieldError { message: e.to_owned() });
            },
        };
        match conn.find_human(id.as_str()) {
            Ok(h) => Ok(h),
            Err(e) => Err(FieldError { message: e.to_owned() }),
        }
    }
}

/// The mutation root.
pub struct Mutation;

impl Mutation {
    /// Create a record and fan it out: the stub store keeps the given fields
    /// under the fixed identifier, and exactly that record is appended to
    /// the bus log — after the write, never without one. Publishing is
    /// best-effort: with no subscribers it is a no-op, and the caller gets
    /// the created record back either way.
    pub fn create_human(new_human: NewHuman, context: &Context, bus: &mut EventBus) -> (r: Result<
        Human,
        FieldError,
    >)
        requires
            old(bus).inv(),
            !old(bus).is_closed(),
            old(bus).log().len() < usize::MAX,
        ensures
            final(bus).inv(),
            r matches Ok(h) && {
                &&& h.id@ == generated_id()
                &&& h.name@ == new_human.name@
                &&& h.appears_in@ == new_human.appears_in@
                &&& h.home_planet@ == new_human.home_planet@
                &&& final(bus).log() == old(bus).log().push(h@)
            },
            final(bus).capacity() == old(bus).capacity(),
            final(bus).is_closed() == old(bus).is_closed(),
            final(bus).num_slots() == old(bus).num_slots(),
            final(bus).sub_count() == old(bus).sub_count(),
            forall|g: BusHandle| (#[trigger] final(bus).attached(g)) == old(bus).attached(g),
            forall|g: BusHandle|
                old(bus).attached(g) ==> (#[trigger] final(bus).cursor_of(g)) == old(bus).cursor_of(g),
    {
        let db = match context.db.get_connection() {
            Ok(c) => c,
            Err(e) => {
                return Err(FieldError { message: e.to_owned() });
            },
        };
        let human = match db.insert_human(&new_human) {
            Ok(h) => h,
            Err(e) => {
                return Err(FieldError { message: e.to_owned() });
            },
        };
        let event = clone_human(&human);
        bus.publish(event);
        Ok(human)
    }
}

/// The subscription root.
pub struct Subscription;

impl Subscription {
    /// Subscribe to creation events: attach a fresh executor whose sequence
    /// carries exactly the records created after this call.
    pub fn human_created(bus: &mut EventBus) -> (ex: SubscriptionExecutor)
        requires
            old(bus).inv(),
            old(bus).num_slots() < usize::MAX,
        ensures
            final(bus).inv(),
            ex.wf(final(bus)),
            !ex.finished(),
            ex.cursor(final(bus)) == final(bus).log().len(),
            final(bus).attached(ex.handle()),
            final(bus).log() == old(bus).log(),
            final(bus).capacity() == old(bus).capacity(),
            final(bus).is_closed() == old(bus).is_closed(),
            final(bus).sub_count() == old(bus).sub_count() + 1,
            final(bus).num_slots() == old(bus).num_slots() + 1,
            forall|g: BusHandle|
                g.id != ex.handle().id ==> (#[trigger] final(bus).attached(g)) == old(bus).attached(g),
            forall|g: BusHandle|
                g.id != ex.handle().id && old(bus).attached(g) ==> (#[trigger] final(bus).cursor_of(g)) == old(bus).cursor_of(g),
    {
        SubscriptionExecutor::start(bus)
    }
}

} // verus!
