//! Next-due instants and the completion of routines.
use crate::completion::{last_done, State};
use crate::recurrence::{cron_accepts, next_match, next_occurrence, parse};
use crate::registry::{Registry, Routine};
use vstd::prelude::*;

verus! {

/// What went wrong.
#[derive(Clone, Copy, PartialEq, Eq, Structural, Debug)]
pub enum ErrorKind {
    /// No routine is registered under the id.
    UnknownRoutineId,
    /// The routine's recurrence expression does not parse.
    InvalidRecurrenceSpec,
    /// The routine's recurrence has no occurrence left within the clock's range.
    NoNextOccurrence,
}

/// An error, with the id of the routine it concerns.
#[derive(Debug)]
pub struct ScheduleError {
    pub kind: ErrorKind,
    pub id: String,
}

impl View for ScheduleError {
    type V = (ErrorKind, Seq<char>);

    open spec fn view(&self) -> (ErrorKind, Seq<char>) {
        (self.kind, self.id@)
    }
}

/// The outcome of completing a routine.
#[derive(Clone, Copy, PartialEq, Eq, Structural, Debug)]
pub struct Completion {
    /// The completion instant that was recorded.
    pub done_at: i64,
    /// The routine's next-due instant after that completion.
    pub next_due: i64,
}

/// The next-due instant of a routine with recurrence `period`, last completed at `last`.
pub open spec fn due_after(period: Seq<char>, last: i64) -> Result<i64, ErrorKind> {
    if !cron_accepts(period) {
        Err(ErrorKind::InvalidRecurrenceSpec)
    } else {
        match next_match(period, last) {
            Some(t) => Ok(t),
            None => Err(ErrorKind::NoNextOccurrence),
        }
    }
}

/// The next-due instant of routine `id`: its recurrence's first trigger after its
/// last completion, or after the epoch when it was never completed.
pub open spec fn next_due(
    routines: Map<Seq<char>, Routine>,
    completions: Map<Seq<char>, i64>,
    id: Seq<char>,
) -> Result<i64, ErrorKind> {
    if routines.contains_key(id) {
        due_after(routines[id].period@, last_done(completions, id))
    } else {
        Err(ErrorKind::UnknownRoutineId)
    }
}

/// Completing routine `id` at `now`: the completion instant recorded, which is
/// the later of the current next-due instant and `now`, and the next-due instant
/// that follows it.
pub open spec fn done_step(
    routines: Map<Seq<char>, Routine>,
    completions: Map<Seq<char>, i64>,
    id: Seq<char>,
    now: i64,
) -> Result<(i64, i64), ErrorKind> {
    match next_due(routines, completions, id) {
        Err(k) => Err(k),
        Ok(current) => {
            let done = if current >= now {
                current
            } else {
                now
            };
            match due_after(routines[id].period@, done) {
                Ok(next) => Ok((done, next)),
                Err(k) => Err(k),
            }
        },
    }
}

/// `r` is the executable form of the spec-level outcome `s` for routine `id`.
pub open spec fn outcome_is(r: Result<i64, ScheduleError>, s: Result<i64, ErrorKind>, id: Seq<char>) -> bool {
    match s {
        Ok(t) => r == Ok::<i64, ScheduleError>(t),
        Err(k) => r matches Err(e) && e@ == (k, id),
    }
}

fn error(kind: ErrorKind, id: &str) -> (r: ScheduleError)
    ensures
        r@ == (kind, id@),
{
    ScheduleError { kind, id: id.to_owned() }
}

/// The next-due instant of `routine`, registered as `id`, last completed at `last`.
pub fn due_of(routine: &Routine, id: &str, last: i64) -> (r: Result<i64, ScheduleError>)
    ensures
        outcome_is(r, due_after(routine.period@, last), id@),
{
    match parse(routine.period.as_str()) {
        None => Err(error(ErrorKind::InvalidRecurrenceSpec, id)),
        Some(pattern) => match next_occurrence(&pattern, last) {
            Some(t) => Ok(t),
            None => Err(error(ErrorKind::NoNextOccurrence, id)),
        },
    }
}

/// The last completion of `id` in `state`, or the epoch.
fn last_completion(state: &State, id: &str) -> (r: i64)
    ensures
        r == last_done(state@, id@),
{
    match state.get(id) {
        Some(t) => t,
        None => 0,
    }
}

/// The next-due instant of routine `id`; always strictly after its last completion.
pub fn get_next_date(schedule: &Registry, state: &State, id: &str) -> (r: Result<i64, ScheduleError>)
    ensures
        outcome_is(r, next_due(schedule@, state@, id@), id@),
        r matches Ok(t) ==> t > last_done(state@, id@),
{
    match schedule.get(id) {
        None => Err(error(ErrorKind::UnknownRoutineId, id)),
        Some(routine) => due_of(routine, id, last_completion(state, id)),
    }
}

/// Completes routine `id` at `now`. The recorded completion is the later of the
/// routine's current next-due instant and `now`, so that completing ahead of time
/// absorbs the coming occurrence. On any error the record is left as it was.
pub fn mark_done(schedule: &Registry, state: &mut State, id: &str, now: i64) -> (r: Result<
    Completion,
    ScheduleError,
>)
    ensures
        match done_step(schedule@, old(state)@, id@, now) {
            Ok((done, next)) => r == Ok::<Completion, ScheduleError>(
                Completion { done_at: done, next_due: next },
            ) && final(state)@ == old(state)@.insert(id@, done),
            Err(k) => r matches Err(e) && e@ == (k, id@) && *final(state) == *old(state),
        },
        r matches Ok(c) ==> c.done_at >= now && c.done_at > last_done(old(state)@, id@)
            && c.next_due > c.done_at,
{
    let routine = match schedule.get(id) {
        None => return Err(error(ErrorKind::UnknownRoutineId, id)),
        Some(routine) => routine,
    };
    let pattern = match parse(routine.period.as_str()) {
        None => return Err(error(ErrorKind::InvalidRecurrenceSpec, id)),
        Some(pattern) => pattern,
    };
    let current = match next_occurrence(&pattern, last_completion(state, id)) {
        None => return Err(error(ErrorKind::NoNextOccurrence, id)),
        Some(t) => t,
    };
    let done = if current >= now {
        current
    } else {
        now
    };
    let next = match next_occurrence(&pattern, done) {
        None => return Err(error(ErrorKind::NoNextOccurrence, id)),
        Some(t) => t,
    };
    state.insert(id, done);
    Ok(Completion { done_at: done, next_due: next })
}

/// The ids of `ids`, as plain strings.
pub open spec fn ids_view(ids: Seq<String>) -> Seq<Seq<char>> {
    ids.map_values(|id: String| id@)
}

/// The outcomes of `completions`, as (completion instant, next-due instant) pairs.
pub open spec fn completions_view(completions: Seq<Completion>) -> Seq<(i64, i64)> {
    completions.map_values(|c: Completion| (c.done_at, c.next_due))
}

/// Completing the routines `ids` in order at `now`, stopping at the first error:
/// the completion record afterwards, the outcome of each completed step, and the
/// error that stopped the run, if one did.
pub open spec fn batch_run(
    routines: Map<Seq<char>, Routine>,
    completions: Map<Seq<char>, i64>,
    ids: Seq<Seq<char>>,
    now: i64,
) -> (Map<Seq<char>, i64>, Seq<(i64, i64)>, Option<(ErrorKind, Seq<char>)>)
    decreases ids.len(),
{
    if ids.len() == 0 {
        (completions, Seq::empty(), None)
    } else {
        match done_step(routines, completions, ids[0], now) {
            Err(k) => (completions, Seq::empty(), Some((k, ids[0]))),
            Ok((done, next)) => {
                let rest = batch_run(routines, completions.insert(ids[0], done), ids.drop_first(), now);
                (rest.0, seq![(done, next)] + rest.1, rest.2)
            },
        }
    }
}

/// Completes the routines `ids` one after the other at `now`. The first error
/// stops the batch: the steps before it stay recorded in `state`, and the ids
/// after it are not attempted.
pub fn mark_done_batch(schedule: &Registry, state: &mut State, ids: &Vec<String>, now: i64) -> (r: Result<
    Vec<Completion>,
    ScheduleError,
>)
    ensures
        final(state)@ == batch_run(schedule@, old(state)@, ids_view(ids@), now).0,
        match batch_run(schedule@, old(state)@, ids_view(ids@), now).2 {
            None => r matches Ok(done) && completions_view(done@) == batch_run(
                schedule@,
                old(state)@,
                ids_view(ids@),
                now,
            ).1,
            Some(e) => r matches Err(err) && err@ == e,
        },
{
    let ghost start = state@;
    let ghost all = ids_view(ids@);
    let mut done: Vec<Completion> = Vec::new();
    let mut i: usize = 0;
    proof {
        assert(all.skip(0) =~= all);
        assert(completions_view(done@) =~= Seq::<(i64, i64)>::empty());
    }
    while i < ids.len()
        invariant
            i <= ids@.len(),
            all == ids_view(ids@),
            start == old(state)@,
            batch_run(schedule@, start, all, now) == ({
                let rest = batch_run(schedule@, state@, all.skip(i as int), now);
                (rest.0, completions_view(done@) + rest.1, rest.2)
            }),
        decreases ids@.len() - i,
    {
        let ghost before = state@;
        let ghost tail = all.skip(i as int);
        proof {
            assert(tail[0] == ids@[i as int]@);
            assert(tail.drop_first() =~= all.skip(i + 1));
        }
        match mark_done(schedule, state, ids[i].as_str(), now) {
            Err(e) => {
                proof {
                    assert(state@ == before);
                    assert(batch_run(schedule@, before, tail, now) == (before, Seq::<(i64, i64)>::empty(), Some(e@)));
                    assert(completions_view(done@) + Seq::<(i64, i64)>::empty() =~= completions_view(done@));
                }
                return Err(e);
            },
            Ok(c) => {
                proof {
                    let rest = batch_run(schedule@, state@, all.skip(i + 1), now);
                    assert(completions_view(done@.push(c)) =~= completions_view(done@).push((c.done_at, c.next_due)));
                    assert(completions_view(done@).push((c.done_at, c.next_due)) + rest.1
                        =~= completions_view(done@) + (seq![(c.done_at, c.next_due)] + rest.1));
                }
                done.push(c);
                i = i + 1;
            },
        }
    }
    proof {
        assert(all.skip(i as int) =~= Seq::<Seq<char>>::empty());
        assert(completions_view(done@) + Seq::<(i64, i64)>::empty() =~= completions_view(done@));
    }
    Ok(done)
}

} // verus!
