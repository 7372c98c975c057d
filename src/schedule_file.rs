//! The schedule file: TOML tables, one per recurrence expression, each mapping
//! routine ids to display names.
//!
//! ```toml
//! ["0 0 7 * * *"]
//! water = "Water the plants"
//! ```
use std::collections::BTreeMap;
use crate::keyed::find_last;
use crate::registry::{Registry, Routine};
use vstd::prelude::*;

verus! {

/// The tables of a TOML document whose every value is a table of strings: each
/// table's key with its (key, string) pairs, tables and pairs in key order; `None`
/// for any other document.
pub uninterp spec fn toml_string_tables(text: Seq<char>) -> Option<
    Seq<(Seq<char>, Seq<(Seq<char>, Seq<char>)>)>,
>;

/// A decoded schedule file, as plain values.
pub open spec fn groups_view(groups: Seq<(String, Vec<(String, String)>)>) -> Seq<
    (Seq<char>, Seq<(Seq<char>, Seq<char>)>),
> {
    groups.map_values(
        |g: (String, Vec<(String, String)>)|
            (g.0@, g.1@.map_values(|e: (String, String)| (e.0@, e.1@))),
    )
}

/// Relies on `toml::from_str` into `BTreeMap<String, BTreeMap<String, String>>`:
/// it accepts or refuses the text, and yields the tables, by the text alone.
#[verifier::external_body]
fn decode_tables(text: &str) -> (r: Option<Vec<(String, Vec<(String, String)>)>>)
    ensures
        r.is_some() == toml_string_tables(text@).is_some(),
        r matches Some(groups) ==> Some(groups_view(groups@)) == toml_string_tables(text@),
{
    toml::from_str::<BTreeMap<String, BTreeMap<String, String>>>(text).ok().map(
        |tables| tables.into_iter().map(|(key, pairs)| (key, pairs.into_iter().collect())).collect(),
    )
}

/// A routine as plain values: (id, name, recurrence expression).
pub type RoutineView = (Seq<char>, Seq<char>, Seq<char>);

/// The routines that one table of the file declares.
pub open spec fn group_routines(period: Seq<char>, ids: Seq<(Seq<char>, Seq<char>)>) -> Seq<RoutineView> {
    ids.map_values(|e: (Seq<char>, Seq<char>)| (e.0, e.1, period))
}

/// The routines that the file declares, table after table.
pub open spec fn flatten(groups: Seq<(Seq<char>, Seq<(Seq<char>, Seq<char>)>)>) -> Seq<RoutineView>
    decreases groups.len(),
{
    if groups.len() == 0 {
        Seq::empty()
    } else {
        flatten(groups.drop_last()) + group_routines(groups.last().0, groups.last().1)
    }
}

/// No id occurs twice in `routines`.
pub open spec fn distinct_ids(routines: Seq<RoutineView>) -> bool {
    forall|i: int, j: int| 0 <= i < j < routines.len() ==> routines[i].0 != routines[j].0
}

/// A registry's routines, as plain values.
pub open spec fn registry_view(routines: Seq<(String, Routine)>) -> Seq<RoutineView> {
    routines.map_values(|e: (String, Routine)| (e.0@, e.1.name@, e.1.period@))
}

/// Why a schedule file was refused.
pub enum ScheduleFileError {
    /// The text is not TOML made of tables of strings.
    WrongFormat,
    /// Two routines share an id: the first declaration and the one that repeats it.
    KeyCollision {
        id: String,
        first_name: String,
        first_period: String,
        second_name: String,
        second_period: String,
    },
}

/// Position `j` of `routines` is the first to repeat an id, that of position `i`.
pub open spec fn first_collision(routines: Seq<RoutineView>, i: int, j: int) -> bool {
    &&& 0 <= i < j < routines.len()
    &&& routines[i].0 == routines[j].0
    &&& distinct_ids(routines.take(j))
}

proof fn lemma_flatten_prefix(groups: Seq<(Seq<char>, Seq<(Seq<char>, Seq<char>)>)>, k: int)
    requires
        0 <= k <= groups.len(),
    ensures
        flatten(groups.take(k)).len() <= flatten(groups).len(),
        forall|i: int|
            0 <= i < flatten(groups.take(k)).len() ==> #[trigger] flatten(groups.take(k))[i]
                == flatten(groups)[i],
    decreases groups.len() - k,
{
    if k == groups.len() {
        assert(groups.take(k) =~= groups);
    } else {
        let prefix = groups.drop_last();
        assert(prefix.take(k) =~= groups.take(k));
        lemma_flatten_prefix(prefix, k);
    }
}

/// Reads a schedule file. Each table's key is a recurrence expression and each
/// of its entries a routine id with its display name; the registry holds the
/// routines table after table, in key order. Fails when the text is not such a
/// document, or when an id is declared twice.
pub fn parse_schedule(text: &str) -> (r: Result<Registry, ScheduleFileError>)
    ensures
        toml_string_tables(text@) is None ==> r matches Err(ScheduleFileError::WrongFormat),
        toml_string_tables(text@) matches Some(groups) ==> {
            &&& distinct_ids(flatten(groups)) ==> (r matches Ok(registry) && registry_view(
                registry.routines@,
            ) == flatten(groups))
            &&& !distinct_ids(flatten(groups)) ==> (r matches Err(
                ScheduleFileError::KeyCollision {
                    id,
                    first_name,
                    first_period,
                    second_name,
                    second_period,
                },
            ) && exists|i: int, j: int|
                first_collision(flatten(groups), i, j) && flatten(groups)[i] == (
                    id@,
                    first_name@,
                    first_period@,
                ) && flatten(groups)[j] == (id@, second_name@, second_period@))
        },
{
    let groups = match decode_tables(text) {
        None => return Err(ScheduleFileError::WrongFormat),
        Some(groups) => groups,
    };
    let ghost gv = groups_view(groups@);
    let mut registry = Registry::new();
    let mut g: usize = 0;
    proof {
        assert(gv.take(0) =~= Seq::<(Seq<char>, Seq<(Seq<char>, Seq<char>)>)>::empty());
        assert(registry_view(registry.routines@) =~= Seq::<RoutineView>::empty());
    }
    while g < groups.len()
        invariant
            gv == groups_view(groups@),
            Some(gv) == toml_string_tables(text@),
            g <= groups@.len(),
            registry_view(registry.routines@) == flatten(gv.take(g as int)),
            distinct_ids(registry_view(registry.routines@)),
        decreases groups@.len() - g,
    {
        let period = &groups[g].0;
        let pairs = &groups[g].1;
        let ghost done_before = flatten(gv.take(g as int));
        let ghost these = group_routines(gv[g as int].0, gv[g as int].1);
        proof {
            assert(gv.take(g + 1).drop_last() =~= gv.take(g as int));
            assert(flatten(gv.take(g + 1)) == done_before + these);
            assert(done_before + these.take(0) =~= done_before);
        }
        let mut e: usize = 0;
        while e < pairs.len()
            invariant
                gv == groups_view(groups@),
                Some(gv) == toml_string_tables(text@),
                g < groups@.len(),
                *pairs == groups@[g as int].1,
                *period == groups@[g as int].0,
                done_before == flatten(gv.take(g as int)),
                these == group_routines(gv[g as int].0, gv[g as int].1),
                flatten(gv.take(g + 1)) == done_before + these,
                e <= pairs@.len(),
                registry_view(registry.routines@) == done_before + these.take(e as int),
                distinct_ids(registry_view(registry.routines@)),
            decreases pairs@.len() - e,
        {
            let id = &pairs[e].0;
            let name = &pairs[e].1;
            let ghost view_before = registry_view(registry.routines@);
            proof {
                assert(these[e as int] == (id@, name@, period@));
            }
            match find_last(&registry.routines, id) {
                Some(i) => {
                    let first = &registry.routines[i].1;
                    proof {
                        let j = view_before.len() as int;
                        let all = flatten(gv);
                        lemma_flatten_prefix(gv, g + 1);
                        assert(view_before[i as int] == flatten(gv.take(g + 1))[i as int]);
                        assert((done_before + these)[j] == these[e as int]);
                        assert forall|idx: int| 0 <= idx < j implies all[idx] == view_before[idx] by {
                            assert(view_before[idx] == (done_before + these)[idx]);
                            assert(flatten(gv.take(g + 1))[idx] == all[idx]);
                        }
                        assert(all.take(j) =~= view_before);
                        assert(first_collision(all, i as int, j));
                        assert(!distinct_ids(all));
                    }
                    return Err(
                        ScheduleFileError::KeyCollision {
                            id: id.clone(),
                            first_name: first.name.clone(),
                            first_period: first.period.clone(),
                            second_name: name.clone(),
                            second_period: period.clone(),
                        },
                    );
                },
                None => {
                    let routine = Routine { name: name.clone(), period: period.clone() };
                    proof {
                        assert(these.take(e + 1) =~= these.take(e as int).push(these[e as int]));
                    }
                    registry.routines.push((id.clone(), routine));
                    proof {
                        assert(registry_view(registry.routines@) =~= view_before.push(
                            (id@, name@, period@),
                        ));
                        assert(registry_view(registry.routines@) =~= done_before + these.take(
                            e + 1,
                        ));
                    }
                    e = e + 1;
                },
            }
        }
        proof {
            assert(these.take(e as int) =~= these);
        }
        g = g + 1;
    }
    proof {
        assert(gv.take(g as int) =~= gv);
    }
    Ok(registry)
}

} // verus!
