//! Merging the records of many journal files into what each commander has
//! visited, and into the stable identifier of each commander.

use vstd::prelude::*;
use crate::json::spelled_option;
use crate::name_map::{NameMap, NameSet};
use crate::scan::{ScanRecord, ScanRecordView};
use crate::text::{ascending, spelled};

verus! {

/// What the files tell together: for each commander the set of systems
/// visited, and the stable identifier of each commander that has one.
pub ghost struct AggregateView {
    pub visited: Map<Seq<char>, Set<Seq<char>>>,
    pub ids: Map<Seq<char>, Seq<char>>,
}

/// Nothing visited, nobody identified.
pub open spec fn nothing() -> AggregateView {
    AggregateView {
        visited: Map::<Seq<char>, Set<Seq<char>>>::empty(),
        ids: Map::<Seq<char>, Seq<char>>::empty(),
    }
}

/// The systems that a commander has visited; none for a commander without
/// an entry.
pub open spec fn systems_of(state: AggregateView, owner: Seq<char>) -> Set<Seq<char>> {
    if state.visited.contains_key(owner) {
        state.visited[owner]
    } else {
        Set::<Seq<char>>::empty()
    }
}

/// Merging one record. Its systems join those of its commander. A record
/// without systems leaves the visits as they were. An identifier replaces
/// the one that the commander had.
pub open spec fn merge_spec(state: AggregateView, record: ScanRecordView) -> AggregateView {
    AggregateView {
        visited: if record.visited.len() == 0 {
            state.visited
        } else {
            state.visited.insert(
                record.owner,
                systems_of(state, record.owner).union(record.visited.to_set()),
            )
        },
        ids: match record.stable_id {
            Some(id) => state.ids.insert(record.owner, id),
            None => state.ids,
        },
    }
}

/// Merging records one after the other, the first one first.
pub open spec fn merge_all(state: AggregateView, records: Seq<ScanRecordView>) -> AggregateView
    decreases records.len(),
{
    if records.len() == 0 {
        state
    } else {
        merge_spec(merge_all(state, records.drop_last()), records.last())
    }
}

/// The mathematical values of a list of records.
pub open spec fn records_view(records: Seq<ScanRecord>) -> Seq<ScanRecordView> {
    Seq::new(records.len(), |i: int| records[i]@)
}

/// Every commander with an entry has visited at least one system.
pub open spec fn inhabited(state: AggregateView) -> bool {
    forall|owner: Seq<char>| #[trigger]
        state.visited.contains_key(owner) ==> exists|system: Seq<char>|
            state.visited[owner].contains(system)
}

/// The order in which two records are merged does not matter for the
/// systems visited.
pub proof fn lemma_merge_commutes(state: AggregateView, a: ScanRecordView, b: ScanRecordView)
    ensures
        merge_spec(merge_spec(state, a), b).visited == merge_spec(merge_spec(state, b), a).visited,
{
    let ab = merge_spec(merge_spec(state, a), b).visited;
    let ba = merge_spec(merge_spec(state, b), a).visited;
    assert forall|owner: Seq<char>| ab.contains_key(owner) == ba.contains_key(owner) by {}
    assert forall|owner: Seq<char>| #[trigger] ab.contains_key(owner) implies ab[owner] =~= ba[owner] by {}
    assert(ab =~= ba);
}

/// Merging a record a second time changes nothing in the systems visited.
pub proof fn lemma_merge_idempotent(state: AggregateView, a: ScanRecordView)
    ensures
        merge_spec(merge_spec(state, a), a).visited == merge_spec(state, a).visited,
{
    let once = merge_spec(state, a).visited;
    let twice = merge_spec(merge_spec(state, a), a).visited;
    assert forall|owner: Seq<char>| #[trigger] twice.contains_key(owner) implies twice[owner] =~= once[owner] by {}
    assert(twice =~= once);
}

/// Merging is the union of the systems: afterwards a commander has
/// visited what was visited before and what the record adds.
pub proof fn lemma_merge_is_union(
    state: AggregateView,
    record: ScanRecordView,
    owner: Seq<char>,
    system: Seq<char>,
)
    ensures
        systems_of(merge_spec(state, record), owner).contains(system) <==> (systems_of(
            state,
            owner,
        ).contains(system) || (owner == record.owner && record.visited.contains(system))),
{
    if owner == record.owner && record.visited.contains(system) {
        assert(record.visited.len() > 0);
    }
}

/// A record without systems brings no entry for its commander: the
/// visits are exactly what they were.
pub proof fn lemma_empty_record_adds_no_owner(state: AggregateView, record: ScanRecordView)
    requires
        record.visited.len() == 0,
    ensures
        merge_spec(state, record).visited == state.visited,
        merge_spec(state, record).visited.contains_key(record.owner) == state.visited.contains_key(
            record.owner,
        ),
{
}

/// Merging never makes an entry without systems.
pub proof fn lemma_merge_keeps_inhabited(state: AggregateView, record: ScanRecordView)
    requires
        inhabited(state),
    ensures
        inhabited(merge_spec(state, record)),
{
    let after = merge_spec(state, record);
    assert forall|owner: Seq<char>| #[trigger] after.visited.contains_key(owner) implies exists|
        system: Seq<char>,
    |
        after.visited[owner].contains(system) by {
        if record.visited.len() > 0 && owner == record.owner {
            assert(record.visited.to_set().contains(record.visited[0]));
            assert(after.visited[owner].contains(record.visited[0]));
        } else {
            assert(state.visited.contains_key(owner));
            let system = choose|system: Seq<char>| state.visited[owner].contains(system);
            assert(after.visited[owner].contains(system));
        }
    }
}

/// Whatever the records, every commander that the aggregate lists has
/// visited at least one system.
pub proof fn lemma_aggregate_is_inhabited(records: Seq<ScanRecordView>)
    ensures
        inhabited(merge_all(nothing(), records)),
    decreases records.len(),
{
    if records.len() > 0 {
        lemma_aggregate_is_inhabited(records.drop_last());
        lemma_merge_keeps_inhabited(merge_all(nothing(), records.drop_last()), records.last());
    }
}

/// The visits and identifiers gathered from journal files.
#[derive(Debug)]
pub struct AggregateState {
    visited: NameMap<NameSet>,
    ids: NameMap<String>,
}

impl View for AggregateState {
    type V = AggregateView;

    closed spec fn view(&self) -> AggregateView {
        AggregateView {
            visited: Map::new(
                |owner: Seq<char>| self.visited@.contains_key(owner),
                |owner: Seq<char>| self.visited@[owner]@,
            ),
            ids: Map::new(
                |owner: Seq<char>| self.ids@.contains_key(owner),
                |owner: Seq<char>| self.ids@[owner]@,
            ),
        }
    }
}

impl AggregateState {
    /// The aggregate of no file.
    pub fn new() -> (state: AggregateState)
        ensures
            state@ == nothing(),
    {
        let state = AggregateState { visited: NameMap::new(), ids: NameMap::new() };
        assert(state@.visited =~= nothing().visited);
        assert(state@.ids =~= nothing().ids);
        state
    }

    /// Merges the record of one file.
    pub fn merge(&mut self, record: &ScanRecord)
        ensures
            final(self)@ == merge_spec(old(self)@, record@),
    {
        let ghost before = self@;
        match &record.stable_id {
            Some(id) => {
                self.ids.insert(record.owner.clone(), id.clone());
            },
            None => {},
        }
        assert(self@.ids =~= merge_spec(before, record@).ids);
        assert(self@.visited == before.visited);
        if record.visited.len() > 0 {
            let mut systems = match self.visited.remove(record.owner.as_str()) {
                Some(systems) => systems,
                None => NameSet::new(),
            };
            let ghost base = systems@;
            assert(base == systems_of(before, record.owner@));
            let mut i: usize = 0;
            while i < record.visited.len()
                invariant
                    i <= record.visited.len(),
                    systems@ == base.union(spelled(record.visited@).take(i as int).to_set()),
                decreases record.visited.len() - i,
            {
                systems.insert(record.visited[i].clone());
                proof {
                    let all = spelled(record.visited@);
                    assert(all.take(i as int + 1) =~= all.take(i as int).push(all[i as int]));
                    vstd::seq_lib::seq_to_set_distributes_over_add(
                        all.take(i as int),
                        seq![all[i as int]],
                    );
                    assert(all.take(i as int).push(all[i as int]) =~= all.take(i as int) + seq![
                        all[i as int],
                    ]);
                    assert(seq![all[i as int]].to_set() =~= set![all[i as int]]) by {
                        assert(seq![all[i as int]][0] == all[i as int]);
                    }
                    assert(systems@ =~= base.union(all.take(i as int + 1).to_set()));
                }
                i += 1;
            }
            assert(spelled(record.visited@).take(i as int) =~= spelled(record.visited@));
            self.visited.insert(record.owner.clone(), systems);
            assert(self@.visited =~= merge_spec(before, record@).visited);
        }
    }

    /// The commanders that have visited anything, in dictionary order.
    pub fn owners(&self) -> (names: Vec<String>)
        ensures
            ascending(spelled(names@)),
            spelled(names@).to_set() == self@.visited.dom(),
    {
        let names = self.visited.keys();
        assert(spelled(names@).to_set() =~= self@.visited.dom());
        names
    }

    /// The systems that `owner` has visited, each once, in dictionary
    /// order; none for a commander without an entry.
    pub fn systems(&self, owner: &str) -> (names: Vec<String>)
        ensures
            ascending(spelled(names@)),
            spelled(names@).to_set() == systems_of(self@, owner@),
    {
        match self.visited.get(owner) {
            Some(systems) => systems.names(),
            None => {
                let names: Vec<String> = Vec::new();
                assert(spelled(names@).to_set() =~= Set::<Seq<char>>::empty());
                names
            },
        }
    }

    /// The commanders that have a stable identifier, in dictionary order.
    pub fn identified(&self) -> (names: Vec<String>)
        ensures
            ascending(spelled(names@)),
            spelled(names@).to_set() == self@.ids.dom(),
    {
        let names = self.ids.keys();
        assert(spelled(names@).to_set() =~= self@.ids.dom());
        names
    }

    /// The stable identifier of `owner`, if the files gave one.
    pub fn stable_id(&self, owner: &str) -> (id: Option<String>)
        ensures
            spelled_option(id) == (if self@.ids.contains_key(owner@) {
                Some(self@.ids[owner@])
            } else {
                None
            }),
    {
        match self.ids.get(owner) {
            Some(id) => Some(id.clone()),
            None => None,
        }
    }
}

/// Aggregates the records of all files, in the order given.
pub fn aggregate(records: &Vec<ScanRecord>) -> (state: AggregateState)
    ensures
        state@ == merge_all(nothing(), records_view(records@)),
{
    let mut state = AggregateState::new();
    let mut i: usize = 0;
    assert(records_view(records@).take(0) =~= Seq::<ScanRecordView>::empty());
    while i < records.len()
        invariant
            i <= records.len(),
            state@ == merge_all(nothing(), records_view(records@).take(i as int)),
        decreases records.len() - i,
    {
        state.merge(&records[i]);
        proof {
            let all = records_view(records@);
            assert(all.take(i as int + 1).drop_last() =~= all.take(i as int));
            assert(all.take(i as int + 1).last() == records[i as int]@);
        }
        i += 1;
    }
    assert(records_view(records@).take(i as int) =~= records_view(records@));
    state
}

} // verus!
