//! The completion record: when each routine was last completed.
use crate::keyed::{
    entries_map, find_last, lemma_absent_not_in_map, lemma_last_position_value, lemma_push,
    lemma_update_at_last_position,
};
use vstd::prelude::*;

verus! {

/// Last completion instant of each routine that was ever completed.
pub struct State {
    pub finish_times: Vec<(String, i64)>,
}

impl View for State {
    type V = Map<Seq<char>, i64>;

    open spec fn view(&self) -> Map<Seq<char>, i64> {
        entries_map(self.finish_times@)
    }
}

/// The last completion of `id`; the epoch (instant 0) when it was never completed.
pub open spec fn last_done(completions: Map<Seq<char>, i64>, id: Seq<char>) -> i64 {
    if completions.contains_key(id) {
        completions[id]
    } else {
        0
    }
}

impl State {
    /// A record in which nothing was ever completed.
    pub fn new() -> (r: State)
        ensures
            r@ == Map::<Seq<char>, i64>::empty(),
    {
        State { finish_times: Vec::new() }
    }

    /// When `id` was last completed.
    pub fn get(&self, id: &str) -> (r: Option<i64>)
        ensures
            r == (if self@.contains_key(id@) {
                Some(self@[id@])
            } else {
                None
            }),
    {
        let key = id.to_owned();
        match find_last(&self.finish_times, &key) {
            Some(i) => {
                proof {
                    lemma_last_position_value(self.finish_times@, id@, i as int);
                }
                Some(self.finish_times[i].1)
            },
            None => {
                proof {
                    lemma_absent_not_in_map(self.finish_times@, id@);
                }
                None
            },
        }
    }

    /// Records that `id` was completed at `at`, replacing any earlier record.
    pub fn insert(&mut self, id: &str, at: i64)
        ensures
            final(self)@ == old(self)@.insert(id@, at),
    {
        let key = id.to_owned();
        match find_last(&self.finish_times, &key) {
            Some(i) => {
                proof {
                    lemma_update_at_last_position(self.finish_times@, id@, i as int, at);
                }
                self.finish_times[i].1 = at;
            },
            None => {
                proof {
                    lemma_push(self.finish_times@, key, at);
                }
                self.finish_times.push((key, at));
            },
        }
    }
}

} // verus!
