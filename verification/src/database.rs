//! The stub storage layer: a pool handing out connections, and a connection
//! that answers every lookup with the same fixed record and every insert with
//! a server-assigned identifier.

use vstd::prelude::*;

use crate::models::{Episode, Human, NewHuman};
use crate::models::clone_episodes;

verus! {

/// The identifier the stub store assigns to every inserted record.
pub open spec fn generated_id() -> Seq<char> {
    "generated-id"@
}

/// The three tags every looked-up record carries.
pub open spec fn trilogy() -> Seq<Episode> {
    seq![Episode::NewHope, Episode::Empire, Episode::Jedi]
}

/// A handle to the stub store; handing out connections never fails.
pub struct DatabasePool;

/// A live connection to the stub store.
pub struct DatabaseConnection;

impl DatabasePool {
    /// Obtain a connection; the stub pool always succeeds.
    pub fn get_connection(&self) -> (r: Result<DatabaseConnection, &'static str>)
        ensures
            r is Ok,
    {
        Ok(DatabaseConnection)
    }
}

impl DatabaseConnection {
    /// Look a record up by identifier. The stub store always answers with the
    /// same fixed record, under the identifier it was asked for.
    pub fn find_human(&self, id: &str) -> (r: Result<Human, &'static str>)
        ensures
            r is Ok,
            r matches Ok(h) ==> {
                &&& h.id@ == id@
                &&& h.name@ == "Luke Skywalker"@
                &&& h.appears_in@ == trilogy()
                &&& h.home_planet@ == "Tatooine"@
            },
    {
        let mut appears_in: Vec<Episode> = Vec::new();
        appears_in.push(Episode::NewHope);
        appears_in.push(Episode::Empire);
        appears_in.push(Episode::Jedi);
        assert(appears_in@ =~= trilogy());
        Ok(Human {
            id: id.to_owned(),
            name: String::from_str("Luke Skywalker"),
            appears_in,
            home_planet: String::from_str("Tatooine"),
        })
    }

    /// Insert a new record. The stub store keeps the given fields and assigns
    /// the fixed identifier.
    pub fn insert_human(&self, new_human: &NewHuman) -> (r: Result<Human, &'static str>)
        ensures
            r is Ok,
            r matches Ok(h) ==> {
                &&& h.id@ == generated_id()
                &&& h.name@ == new_human.name@
                &&& h.appears_in@ == new_human.appears_in@
                &&& h.home_planet@ == new_human.home_planet@
            },
    {
        Ok(Human {
            id: String::from_str("generated-id"),
            name: new_human.name.clone(),
            appears_in: clone_episodes(&new_human.appears_in),
            home_planet: new_human.home_planet.clone(),
        })
    }
}

} // verus!
