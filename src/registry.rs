//! The routine registry: each routine's display name and recurrence, by id.
use crate::keyed::{
    entries_map, find_last, lemma_absent_not_in_map, lemma_last_position_value, lemma_push,
};
use vstd::prelude::*;

verus! {

/// A recurring task.
pub struct Routine {
    /// Display label.
    pub name: String,
    /// Recurrence expression, in cron syntax.
    pub period: String,
}

/// Routines by id, in the order they were added.
pub struct Registry {
    pub routines: Vec<(String, Routine)>,
}

impl View for Registry {
    type V = Map<Seq<char>, Routine>;

    open spec fn view(&self) -> Map<Seq<char>, Routine> {
        entries_map(self.routines@)
    }
}

impl Registry {
    /// A registry without routines.
    pub fn new() -> (r: Registry)
        ensures
            r.routines@.len() == 0,
            r@ == Map::<Seq<char>, Routine>::empty(),
    {
        Registry { routines: Vec::new() }
    }

    /// The routine registered under `id`.
    pub fn get(&self, id: &str) -> (r: Option<&Routine>)
        ensures
            r.is_some() == self@.contains_key(id@),
            r matches Some(routine) ==> *routine == self@[id@],
    {
        let key = id.to_owned();
        match find_last(&self.routines, &key) {
            Some(i) => {
                proof {
                    lemma_last_position_value(self.routines@, id@, i as int);
                }
                Some(&self.routines[i].1)
            },
            None => {
                proof {
                    lemma_absent_not_in_map(self.routines@, id@);
                }
                None
            },
        }
    }

    /// Registers `routine` under `id`. An id that is already registered keeps
    /// its routine, and the new one is handed back.
    pub fn insert(&mut self, id: String, routine: Routine) -> (r: Result<(), Routine>)
        ensures
            old(self)@.contains_key(id@) ==> r == Err::<(), Routine>(routine) && *final(self)
                == *old(self),
            !old(self)@.contains_key(id@) ==> r is Ok && final(self).routines@
                == old(self).routines@.push((id, routine)) && final(self)@ == old(self)@.insert(
                id@,
                routine,
            ),
    {
        match find_last(&self.routines, &id) {
            Some(i) => {
                proof {
                    lemma_last_position_value(self.routines@, id@, i as int);
                }
                Err(routine)
            },
            None => {
                proof {
                    lemma_absent_not_in_map(self.routines@, id@);
                    lemma_push(self.routines@, id, routine);
                }
                self.routines.push((id, routine));
                Ok(())
            },
        }
    }
}

} // verus!
