//! A directory of meets by identifier, each with its name and owner, held
//! in a concurrent map.
use dashmap::DashMap;
use vstd::prelude::*;

verus! {

/// A meet with its name and owner.
#[derive(Debug, Clone)]
pub struct Meet {
    pub id: String,
    pub name: String,
    pub owner: String,
}

/// A copy of a meet.
fn copy_meet(m: &Meet) -> (r: Meet)
    ensures
        r == *m,
{
    Meet { id: m.id.clone(), name: m.name.clone(), owner: m.owner.clone() }
}

/// The map from meet identifiers to meets.
pub type MeetMap = DashMap<String, Meet>;

/// The meets that a `DashMap` of meets holds, by identifier.
pub uninterp spec fn meet_table(m: MeetMap) -> Map<Seq<char>, Meet>;

/// No meets at all.
pub open spec fn no_meets() -> Map<Seq<char>, Meet> {
    Map::empty()
}

/// An empty map (`DashMap::new`).
#[verifier::external_body]
fn meets_new() -> (m: MeetMap)
    ensures
        meet_table(m) == no_meets(),
{
    DashMap::new()
}

/// Sets the meet of `id` (`DashMap::insert`).
#[verifier::external_body]
fn meets_insert(m: &mut MeetMap, id: String, meet: Meet)
    ensures
        meet_table(*final(m)) == meet_table(*old(m)).insert(id@, meet),
{
    m.insert(id, meet);
}

/// The meet of `id`, cloned out (`DashMap::get`; the clone of a meet is
/// field by field, each `String` cloned).
#[verifier::external_body]
fn meets_get(m: &MeetMap, id: &str) -> (r: Option<Meet>)
    ensures
        r == (if meet_table(*m).contains_key(id@) {
            Some(meet_table(*m)[id@])
        } else {
            None
        }),
{
    match m.get(id) {
        Some(r) => Some(r.clone()),
        None => None,
    }
}

/// Removes the meet of `id` (`DashMap::remove`).
#[verifier::external_body]
fn meets_remove(m: &mut MeetMap, id: &str)
    ensures
        meet_table(*final(m)) == meet_table(*old(m)).remove(id@),
{
    m.remove(id);
}

/// Meets by identifier.
pub struct MeetManager {
    meets: MeetMap,
}

impl View for MeetManager {
    type V = Map<Seq<char>, Meet>;

    closed spec fn view(&self) -> Map<Seq<char>, Meet> {
        meet_table(self.meets)
    }
}

impl MeetManager {
    /// An empty directory.
    pub fn new() -> (m: Self)
        ensures
            m@ == no_meets(),
    {
        MeetManager { meets: meets_new() }
    }

    /// Records a meet under `id` (replacing any meet there) and returns it.
    pub fn create_meet(&mut self, id: String, name: String, owner: String) -> (m: Meet)
        ensures
            m == (Meet { id, name, owner }),
            final(self)@ == old(self)@.insert(id@, m),
    {
        let meet = Meet { id: id.clone(), name, owner };
        meets_insert(&mut self.meets, id, copy_meet(&meet));
        meet
    }

    /// The meet of `id`, if there is one.
    pub fn get_meet(&self, id: &str) -> (r: Option<Meet>)
        ensures
            r == (if self@.contains_key(id@) {
                Some(self@[id@])
            } else {
                None
            }),
    {
        meets_get(&self.meets, id)
    }

    /// Forgets the meet of `id`.
    pub fn delete_meet(&mut self, id: &str)
        ensures
            final(self)@ == old(self)@.remove(id@),
    {
        meets_remove(&mut self.meets, id);
    }
}

impl Default for MeetManager {
    /// An empty directory.
    fn default() -> (m: Self)
        ensures
            m@ == no_meets(),
    {
        MeetManager::new()
    }
}

/// A meet recorded under an identifier is found there until it is deleted
/// or replaced, and is gone once deleted.
pub proof fn lemma_create_get_delete(m: Map<Seq<char>, Meet>, id: Seq<char>, meet: Meet, other: Seq<char>)
    requires
        other != id,
    ensures
        m.insert(id, meet).contains_key(id) && m.insert(id, meet)[id] == meet,
        m.insert(id, meet).remove(other).contains_key(id) && m.insert(id, meet).remove(other)[id] == meet,
        !m.insert(id, meet).remove(id).contains_key(id),
{
}

} // verus!
