//! The agenda: every routine, split into overdue and upcoming, each in agenda order.
use crate::completion::{last_done, State};
use crate::order::{entries_view, in_agenda_order, sort_entries, AgendaEntry, EntryView};
use crate::registry::{Registry, Routine};
use crate::scheduler::{due_after, due_of, ErrorKind, ScheduleError};
use vstd::prelude::*;

verus! {

/// The routines due at or before the reference instant, and those due after it.
pub struct Agenda {
    pub overdue: Vec<AgendaEntry>,
    pub upcoming: Vec<AgendaEntry>,
}

/// The agenda entry of each registered routine, in registration order; or the
/// error of the first routine whose next-due instant cannot be computed.
pub open spec fn agenda_items(routines: Seq<(String, Routine)>, completions: Map<Seq<char>, i64>) -> Result<
    Seq<EntryView>,
    (ErrorKind, Seq<char>),
>
    decreases routines.len(),
{
    if routines.len() == 0 {
        Ok(Seq::empty())
    } else {
        match agenda_items(routines.drop_last(), completions) {
            Err(e) => Err(e),
            Ok(items) => {
                let (id, routine) = routines.last();
                match due_after(routine.period@, last_done(completions, id@)) {
                    Err(k) => Err((k, id@)),
                    Ok(t) => Ok(items.push((id@, routine.name@, t))),
                }
            },
        }
    }
}

/// `overdue` and `upcoming` split `items` at `now`: together they hold exactly
/// the items, in agenda order, those due at or before `now` first.
pub open spec fn splits_at(
    overdue: Seq<EntryView>,
    upcoming: Seq<EntryView>,
    items: Seq<EntryView>,
    now: i64,
) -> bool {
    &&& (overdue + upcoming).to_multiset() == items.to_multiset()
    &&& in_agenda_order(overdue + upcoming)
    &&& forall|i: int| 0 <= i < overdue.len() ==> (#[trigger] overdue[i]).2 <= now
    &&& forall|i: int| 0 <= i < upcoming.len() ==> (#[trigger] upcoming[i]).2 > now
}

proof fn lemma_error_persists(routines: Seq<(String, Routine)>, completions: Map<Seq<char>, i64>, k: int)
    requires
        0 <= k <= routines.len(),
        agenda_items(routines.take(k), completions) is Err,
    ensures
        agenda_items(routines, completions) == agenda_items(routines.take(k), completions),
    decreases routines.len() - k,
{
    if k == routines.len() {
        assert(routines.take(k) =~= routines);
    } else {
        let prefix = routines.drop_last();
        assert(prefix.take(k) =~= routines.take(k));
        lemma_error_persists(prefix, completions, k);
    }
}

/// Every routine with its next-due instant, split into the overdue ones (due at
/// or before `now`) and the upcoming ones, each ordered by due instant and then
/// by id. Fails with the error of the first routine, in registration order,
/// whose next-due instant cannot be computed.
pub fn agenda(schedule: &Registry, state: &State, now: i64) -> (r: Result<Agenda, ScheduleError>)
    ensures
        agenda_items(schedule.routines@, state@) matches Err(e) ==> r matches Err(err) && err@ == e,
        agenda_items(schedule.routines@, state@) matches Ok(items) ==> r matches Ok(a) && splits_at(
            entries_view(a.overdue@),
            entries_view(a.upcoming@),
            items,
            now,
        ),
{
    let ghost routines = schedule.routines@;
    let mut items: Vec<AgendaEntry> = Vec::new();
    let mut i: usize = 0;
    proof {
        assert(routines.take(0) =~= Seq::<(String, Routine)>::empty());
        assert(entries_view(items@) =~= Seq::<EntryView>::empty());
    }
    while i < schedule.routines.len()
        invariant
            routines == schedule.routines@,
            i <= routines.len(),
            agenda_items(routines.take(i as int), state@) == Ok::<Seq<EntryView>, (ErrorKind, Seq<char>)>(
                entries_view(items@),
            ),
        decreases routines.len() - i,
    {
        let id = &schedule.routines[i].0;
        let routine = &schedule.routines[i].1;
        proof {
            assert(routines.take(i + 1).drop_last() =~= routines.take(i as int));
            assert(routines.take(i + 1).last() == routines[i as int]);
        }
        let last = match state.get(id.as_str()) {
            Some(t) => t,
            None => 0,
        };
        match due_of(routine, id.as_str(), last) {
            Err(e) => {
                proof {
                    lemma_error_persists(routines, state@, i + 1);
                }
                return Err(e);
            },
            Ok(due) => {
                let entry = AgendaEntry { id: id.clone(), name: routine.name.clone(), due };
                proof {
                    assert(entries_view(items@.push(entry)) =~= entries_view(items@).push(entry@));
                }
                items.push(entry);
                i = i + 1;
            },
        }
    }
    proof {
        assert(routines.take(i as int) =~= routines);
    }
    let mut overdue = sort_entries(items);
    let ghost sorted = entries_view(overdue@);
    let mut split: usize = 0;
    while split < overdue.len() && overdue[split].due <= now
        invariant
            split <= overdue@.len(),
            forall|k: int| 0 <= k < split ==> (#[trigger] overdue@[k]).due <= now,
        decreases overdue@.len() - split,
    {
        split = split + 1;
    }
    let upcoming = overdue.split_off(split);
    proof {
        let ov = entries_view(overdue@);
        let up = entries_view(upcoming@);
        assert(ov + up =~= sorted);
        assert forall|k: int| 0 <= k < up.len() implies (#[trigger] up[k]).2 > now by {
            assert(sorted[split as int].2 > now);
            if k > 0 {
                assert(!crate::order::entry_before(sorted[split + k], sorted[split as int]));
            }
        }
    }
    Ok(Agenda { overdue, upcoming })
}

} // verus!
