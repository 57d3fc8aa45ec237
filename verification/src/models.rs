//! The domain entities: the episode tags, the stored entity, and the input
//! shape used to create one.

use vstd::prelude::*;

verus! {

/// The fixed set of category tags an entity can appear in.
#[derive(Clone, Copy, Debug, PartialEq, Eq, Structural)]
pub enum Episode {
    NewHope,
    Empire,
    Jedi,
}

/// A humanoid creature in the catalogue.
pub struct Human {
    pub id: String,
    pub name: String,
    pub appears_in: Vec<Episode>,
    pub home_planet: String,
}

/// The input shape of a create mutation: everything of a `Human` but the
/// server-assigned identifier.
pub struct NewHuman {
    pub name: String,
    pub appears_in: Vec<Episode>,
    pub home_planet: String,
}

/// The mathematical value of a `Human`: its fields as sequences.
pub struct HumanView {
    pub id: Seq<char>,
    pub name: Seq<char>,
    pub appears_in: Seq<Episode>,
    pub home_planet: Seq<char>,
}

impl View for Human {
    type V = HumanView;

    open spec fn view(&self) -> HumanView {
        HumanView {
            id: self.id@,
            name: self.name@,
            appears_in: self.appears_in@,
            home_planet: self.home_planet@,
        }
    }
}

impl View for NewHuman {
    type V = HumanView;

    open spec fn view(&self) -> HumanView {
        HumanView {
            id: Seq::<char>::empty(),
            name: self.name@,
            appears_in: self.appears_in@,
            home_planet: self.home_planet@,
        }
    }
}

/// A copy of a `Human` that is known, field by field, to hold the same value.
pub fn clone_human(h: &Human) -> (r: Human)
    ensures
        r@ == h@,
{
    Human {
        id: h.id.clone(),
        name: h.name.clone(),
        appears_in: clone_episodes(&h.appears_in),
        home_planet: h.home_planet.clone(),
    }
}

/// A copy of an episode list with the same elements.
pub fn clone_episodes(v: &Vec<Episode>) -> (r: Vec<Episode>)
    ensures
        r@ == v@,
{
    let mut r: Vec<Episode> = Vec::new();
    let mut i: usize = 0;
    while i < v.len()
        invariant
            i <= v.len(),
            r@ == v@.subrange(0, i as int),
        decreases v.len() - i,
    {
        r.push(v[i]);
        assert(r@ == v@.subrange(0, i + 1 as int));
        i = i + 1;
    }
    assert(v@.subrange(0, v@.len() as int) == v@);
    r
}

} // verus!
