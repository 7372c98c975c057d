//! Properties that relate several operations of the scheduler.
use crate::agenda::{agenda_items, splits_at};
use crate::completion::last_done;
use crate::order::EntryView;
use crate::registry::Routine;
use crate::scheduler::{batch_run, done_step, due_after, next_due, ErrorKind};
use vstd::prelude::*;

verus! {

/// After a routine is completed, its next-due instant is the one the completion
/// reported, and it lies strictly after the recorded completion instant.
pub proof fn law_next_due_follows_completion(
    routines: Map<Seq<char>, Routine>,
    completions: Map<Seq<char>, i64>,
    id: Seq<char>,
    now: i64,
)
    ensures
        done_step(routines, completions, id, now) matches Ok((done, next)) ==> next_due(
            routines,
            completions.insert(id, done),
            id,
        ) == Ok::<i64, ErrorKind>(next) && next > done,
{
}

/// Completing a routine before it is due records its coming occurrence, not the
/// completion time itself.
pub proof fn law_early_completion_absorbed(
    routines: Map<Seq<char>, Routine>,
    completions: Map<Seq<char>, i64>,
    id: Seq<char>,
    now: i64,
    due: i64,
)
    requires
        next_due(routines, completions, id) == Ok::<i64, ErrorKind>(due),
        now <= due,
    ensures
        done_step(routines, completions, id, now) matches Ok((done, _)) ==> done == due,
{
}

/// Completing a routine that is overdue, or due exactly now, records `now`.
pub proof fn law_late_completion_records_now(
    routines: Map<Seq<char>, Routine>,
    completions: Map<Seq<char>, i64>,
    id: Seq<char>,
    now: i64,
    due: i64,
)
    requires
        next_due(routines, completions, id) == Ok::<i64, ErrorKind>(due),
        due <= now,
    ensures
        done_step(routines, completions, id, now) matches Ok((done, _)) ==> done == now,
{
}

/// Completing the same routine twice at the same instant advances it twice: each
/// recorded completion lies strictly after the one before it.
pub proof fn law_repeated_completion_advances(
    routines: Map<Seq<char>, Routine>,
    completions: Map<Seq<char>, i64>,
    id: Seq<char>,
    now: i64,
)
    ensures
        done_step(routines, completions, id, now) matches Ok((first, next)) ==> {
            &&& first > last_done(completions, id)
            &&& done_step(routines, completions.insert(id, first), id, now) matches Ok((second, _))
                ==> second == next && second > first
        },
{
}

/// Completing an id that is not registered fails with `UnknownRoutineId`.
pub proof fn law_unknown_id_rejected(
    routines: Map<Seq<char>, Routine>,
    completions: Map<Seq<char>, i64>,
    id: Seq<char>,
    now: i64,
)
    requires
        !routines.contains_key(id),
    ensures
        done_step(routines, completions, id, now) == Err::<(i64, i64), ErrorKind>(
            ErrorKind::UnknownRoutineId,
        ),
{
}

/// A batch stops at an unknown id: what follows it is never attempted, the steps
/// before it stay recorded, and the error names that id.
pub proof fn law_batch_stops_at_unknown_id(
    routines: Map<Seq<char>, Routine>,
    completions: Map<Seq<char>, i64>,
    head: Seq<Seq<char>>,
    missing: Seq<char>,
    tail: Seq<Seq<char>>,
    now: i64,
)
    requires
        !routines.contains_key(missing),
    ensures
        batch_run(routines, completions, head + seq![missing] + tail, now) == batch_run(
            routines,
            completions,
            head + seq![missing],
            now,
        ),
        batch_run(routines, completions, head, now).2 is None ==> batch_run(
            routines,
            completions,
            head + seq![missing] + tail,
            now,
        ) == ({
            let before = batch_run(routines, completions, head, now);
            (before.0, before.1, Some((ErrorKind::UnknownRoutineId, missing)))
        }),
    decreases head.len(),
{
    let with_tail = head + seq![missing] + tail;
    let without_tail = head + seq![missing];
    if head.len() == 0 {
        assert(with_tail[0] == missing);
        assert(without_tail[0] == missing);
        assert(batch_run(routines, completions, head, now).1 =~= Seq::<(i64, i64)>::empty());
    } else {
        assert(with_tail[0] == head[0]);
        assert(without_tail[0] == head[0]);
        match done_step(routines, completions, head[0], now) {
            Err(_) => {},
            Ok((done, _)) => {
                let next = completions.insert(head[0], done);
                assert(with_tail.drop_first() =~= head.drop_first() + seq![missing] + tail);
                assert(without_tail.drop_first() =~= head.drop_first() + seq![missing]);
                law_batch_stops_at_unknown_id(routines, next, head.drop_first(), missing, tail, now);
            },
        }
    }
}

proof fn lemma_agenda_items_shape(routines: Seq<(String, Routine)>, completions: Map<Seq<char>, i64>)
    requires
        agenda_items(routines, completions) is Ok,
    ensures
        agenda_items(routines, completions) matches Ok(items) && items.len() == routines.len() && forall|
            i: int,
        |
            0 <= i < routines.len() ==> (#[trigger] items[i]).0 == routines[i].0@ && due_after(
                routines[i].1.period@,
                last_done(completions, routines[i].0@),
            ) == Ok::<i64, ErrorKind>(items[i].2),
    decreases routines.len(),
{
    if routines.len() > 0 {
        lemma_agenda_items_shape(routines.drop_last(), completions);
    }
}

/// An agenda holds each registered routine exactly once: the overdue and the
/// upcoming lists together are as long as the registry, and a routine is in the
/// overdue list when it is due at or before `now`, in the upcoming list otherwise,
/// never in both.
pub proof fn law_agenda_partition(
    routines: Seq<(String, Routine)>,
    completions: Map<Seq<char>, i64>,
    now: i64,
    overdue: Seq<EntryView>,
    upcoming: Seq<EntryView>,
)
    requires
        agenda_items(routines, completions) matches Ok(items) && splits_at(
            overdue,
            upcoming,
            items,
            now,
        ),
    ensures
        overdue.len() + upcoming.len() == routines.len(),
        agenda_items(routines, completions) matches Ok(items) && forall|i: int|
            0 <= i < routines.len() ==> {
                &&& (#[trigger] items[i]).0 == routines[i].0@
                &&& items[i].2 <= now ==> overdue.contains(items[i]) && !upcoming.contains(items[i])
                &&& items[i].2 > now ==> upcoming.contains(items[i]) && !overdue.contains(items[i])
            },
{
    broadcast use vstd::seq_lib::group_to_multiset_ensures;

    lemma_agenda_items_shape(routines, completions);
    let items = agenda_items(routines, completions)->Ok_0;
    let all = overdue + upcoming;
    vstd::seq_lib::to_multiset_len(all);
    vstd::seq_lib::to_multiset_len(items);
    assert(all.len() == items.len());
    assert forall|i: int| 0 <= i < routines.len() implies {
        &&& (#[trigger] items[i]).0 == routines[i].0@
        &&& items[i].2 <= now ==> overdue.contains(items[i]) && !upcoming.contains(items[i])
        &&& items[i].2 > now ==> upcoming.contains(items[i]) && !overdue.contains(items[i])
    } by {
        let item = items[i];
        assert(items.contains(item));
        vstd::seq_lib::to_multiset_contains(items, item);
        vstd::seq_lib::to_multiset_contains(all, item);
        assert(all.contains(item));
        let k = choose|k: int| 0 <= k < all.len() && all[k] == item;
        if k < overdue.len() {
            assert(overdue[k] == item);
        } else {
            assert(upcoming[k - overdue.len()] == item);
        }
        if overdue.contains(item) {
            let j = choose|j: int| 0 <= j < overdue.len() && overdue[j] == item;
            assert(overdue[j].2 <= now);
        }
        if upcoming.contains(item) {
            let j = choose|j: int| 0 <= j < upcoming.len() && upcoming[j] == item;
            assert(upcoming[j].2 > now);
        }
    }
}

} // verus!
