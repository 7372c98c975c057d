//! The agenda's order: by due instant, ties broken by id in lexicographic order.
use vstd::multiset::Multiset;
use vstd::prelude::*;

verus! {

/// `a` comes strictly before `b` in lexicographic order of code points.
pub open spec fn lex_lt(a: Seq<char>, b: Seq<char>) -> bool
    decreases a.len(),
{
    if a.len() == 0 {
        b.len() > 0
    } else if b.len() == 0 {
        false
    } else if a[0] != b[0] {
        (a[0] as u32) < (b[0] as u32)
    } else {
        lex_lt(a.drop_first(), b.drop_first())
    }
}

pub proof fn lemma_lex_irreflexive(a: Seq<char>)
    ensures
        !lex_lt(a, a),
    decreases a.len(),
{
    if a.len() > 0 {
        lemma_lex_irreflexive(a.drop_first());
    }
}

pub proof fn lemma_lex_transitive(a: Seq<char>, b: Seq<char>, c: Seq<char>)
    requires
        lex_lt(a, b),
        lex_lt(b, c),
    ensures
        lex_lt(a, c),
    decreases a.len(),
{
    if a.len() > 0 && b.len() > 0 && c.len() > 0 && a[0] == b[0] && b[0] == c[0] {
        lemma_lex_transitive(a.drop_first(), b.drop_first(), c.drop_first());
    }
}

/// Lexicographic comparison of two strings.
pub fn str_lt(a: &String, b: &String) -> (r: bool)
    ensures
        r == lex_lt(a@, b@),
{
    let sa = a.as_str();
    let sb = b.as_str();
    assert(sa@ == a@ && sb@ == b@);
    let a_len = sa.unicode_len();
    let b_len = sb.unicode_len();
    let mut i: usize = 0;
    assert(a@.skip(0) =~= a@);
    assert(b@.skip(0) =~= b@);
    while i < a_len && i < b_len
        invariant
            sa@ == a@,
            sb@ == b@,
            a_len == a@.len(),
            b_len == b@.len(),
            i <= a_len,
            i <= b_len,
            lex_lt(a@, b@) == lex_lt(a@.skip(i as int), b@.skip(i as int)),
        decreases a_len - i,
    {
        let ca = sa.get_char(i);
        let cb = sb.get_char(i);
        if ca != cb {
            assert(a@.skip(i as int)[0] == ca);
            assert(b@.skip(i as int)[0] == cb);
            return (ca as u32) < (cb as u32);
        }
        assert(a@.skip(i as int).drop_first() =~= a@.skip(i + 1));
        assert(b@.skip(i as int).drop_first() =~= b@.skip(i + 1));
        i = i + 1;
    }
    i < b_len
}

/// What the agenda shows of a routine: its id, name and next-due instant.
pub struct AgendaEntry {
    pub id: String,
    pub name: String,
    pub due: i64,
}

/// An agenda entry as plain values: (id, name, next-due instant).
pub type EntryView = (Seq<char>, Seq<char>, i64);

impl View for AgendaEntry {
    type V = EntryView;

    open spec fn view(&self) -> EntryView {
        (self.id@, self.name@, self.due)
    }
}

pub open spec fn entries_view(entries: Seq<AgendaEntry>) -> Seq<EntryView> {
    entries.map_values(|e: AgendaEntry| e@)
}

/// `x` comes strictly before `y`: it is due earlier, or due at the same instant
/// with a lexicographically smaller id.
pub open spec fn entry_before(x: EntryView, y: EntryView) -> bool {
    x.2 < y.2 || (x.2 == y.2 && lex_lt(x.0, y.0))
}

/// No entry of `s` comes before an entry that precedes it.
pub open spec fn in_agenda_order(s: Seq<EntryView>) -> bool {
    forall|i: int, j: int| 0 <= i < j < s.len() ==> !entry_before(#[trigger] s[j], #[trigger] s[i])
}

pub proof fn lemma_before_transitive(x: EntryView, y: EntryView, z: EntryView)
    requires
        entry_before(x, y),
        entry_before(y, z),
    ensures
        entry_before(x, z),
{
    if x.2 == y.2 && y.2 == z.2 {
        lemma_lex_transitive(x.0, y.0, z.0);
    }
}

pub proof fn lemma_before_asymmetric(x: EntryView, y: EntryView)
    requires
        entry_before(x, y),
    ensures
        !entry_before(y, x),
{
    if entry_before(y, x) {
        lemma_before_transitive(x, y, x);
        lemma_lex_irreflexive(x.0);
    }
}

/// Whether `x` comes strictly before `y`.
pub fn before(x: &AgendaEntry, y: &AgendaEntry) -> (r: bool)
    ensures
        r == entry_before(x@, y@),
{
    x.due < y.due || (x.due == y.due && str_lt(&x.id, &y.id))
}

/// The entries of `items`, rearranged into agenda order.
pub fn sort_entries(items: Vec<AgendaEntry>) -> (r: Vec<AgendaEntry>)
    ensures
        entries_view(r@).to_multiset() == entries_view(items@).to_multiset(),
        in_agenda_order(entries_view(r@)),
{
    let ghost original = entries_view(items@);
    let mut items = items;
    let mut sorted: Vec<AgendaEntry> = Vec::new();
    proof {
        broadcast use vstd::seq_lib::group_to_multiset_ensures, vstd::multiset::lemma_multiset_empty_len;
        assert(entries_view(sorted@) =~= Seq::<EntryView>::empty());
        assert(entries_view(sorted@).to_multiset() =~= Multiset::empty());
        assert(entries_view(sorted@).to_multiset().add(original.to_multiset()) =~= original.to_multiset());
    }
    while items.len() > 0
        invariant
            entries_view(sorted@).to_multiset().add(entries_view(items@).to_multiset())
                == original.to_multiset(),
            in_agenda_order(entries_view(sorted@)),
        decreases items.len(),
    {
        let ghost rest = items@;
        let x = items.pop().unwrap();
        proof {
            assert(rest =~= items@.push(x));
            assert(entries_view(rest) =~= entries_view(items@).push(x@));
            broadcast use vstd::seq_lib::group_to_multiset_ensures;
            assert(entries_view(rest).to_multiset() =~= entries_view(items@).to_multiset().insert(x@));
        }
        let mut j: usize = 0;
        while j < sorted.len() && !before(&x, &sorted[j])
            invariant
                j <= sorted@.len(),
                forall|k: int| 0 <= k < j ==> !entry_before(x@, #[trigger] sorted@[k]@),
            decreases sorted@.len() - j,
        {
            j = j + 1;
        }
        let ghost old_view = entries_view(sorted@);
        sorted.insert(j, x);
        proof {
            let new_view = entries_view(sorted@);
            assert(new_view =~= old_view.insert(j as int, x@));
            vstd::seq_lib::to_multiset_insert(old_view, j as int, x@);
            assert(new_view.to_multiset().add(entries_view(items@).to_multiset())
                =~= original.to_multiset());
            assert forall|a: int, b: int| 0 <= a < b < new_view.len() implies !entry_before(
                #[trigger] new_view[b],
                #[trigger] new_view[a],
            ) by {
                if b == j {
                    assert(new_view[a] == old_view[a]);
                } else if a == j {
                    assert(new_view[b] == old_view[b - 1]);
                    assert(entry_before(x@, old_view[j as int]));
                    if b - 1 > j {
                        assert(!entry_before(old_view[b - 1], old_view[j as int]));
                    }
                    if entry_before(old_view[b - 1], x@) {
                        lemma_before_transitive(old_view[b - 1], x@, old_view[j as int]);
                        if b - 1 == j {
                            lemma_before_asymmetric(x@, old_view[j as int]);
                        }
                    }
                } else {
                    let a0 = if a < j { a } else { a - 1 };
                    let b0 = if b < j { b } else { b - 1 };
                    assert(new_view[a] == old_view[a0]);
                    assert(new_view[b] == old_view[b0]);
                }
            }
        }
    }
    proof {
        broadcast use vstd::seq_lib::group_to_multiset_ensures, vstd::multiset::lemma_multiset_empty_len;
        assert(entries_view(items@) =~= Seq::<EntryView>::empty());
        assert(entries_view(items@).to_multiset() =~= Multiset::empty());
        assert(entries_view(sorted@).to_multiset() =~= original.to_multiset());
    }
    sorted
}

} // verus!
