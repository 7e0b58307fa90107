//! Reconciling the journals of one commander with a list of systems that
//! were already imported: which files hold a system that the list lacks
//! and that the catalog has not merged into another.
//!
//! The pass asks nothing itself. `survey` reads the files against the
//! list and the answers that the cache remembers, and says which files are
//! flagged so far and which system has to be asked about next.

use vstd::prelude::*;
use crate::aggregate::records_view;
use crate::edsm_api::{extends, API};
use crate::name_map::NameSet;
use crate::scan::{ScanRecord, ScanRecordView};
use crate::text::{compare, spelled, to_upper, uppercase, Rank};

verus! {

/// Whether the imported list covers a system: names are compared in upper
/// case.
pub open spec fn covered(imported: Set<Seq<char>>, system: Seq<char>) -> bool {
    imported.contains(uppercase(system))
}

/// The set of upper-case names that the lines of an imported list give.
pub open spec fn folded(lines: Seq<Seq<char>>) -> Set<Seq<char>> {
    Set::new(|name: Seq<char>| exists|i: int| 0 <= i < lines.len() && uppercase(#[trigger] lines[i]) == name)
}

/// The systems that were already imported, in upper case.
#[derive(Debug)]
pub struct ImportedSet {
    names: NameSet,
}

impl View for ImportedSet {
    type V = Set<Seq<char>>;

    closed spec fn view(&self) -> Set<Seq<char>> {
        self.names@
    }
}

impl ImportedSet {
    /// The empty list.
    pub fn new() -> (imported: ImportedSet)
        ensures
            imported@ == Set::<Seq<char>>::empty(),
    {
        ImportedSet { names: NameSet::new() }
    }

    /// Adds the system that one line of the list names.
    pub fn add(&mut self, line: &str)
        ensures
            final(self)@ == old(self)@.insert(uppercase(line@)),
    {
        self.names.insert(to_upper(line));
    }

    /// The list that the given lines spell, one system on each.
    pub fn from_lines(lines: &Vec<String>) -> (imported: ImportedSet)
        ensures
            imported@ == folded(spelled(lines@)),
    {
        let mut imported = ImportedSet::new();
        let mut i: usize = 0;
        assert(imported@ =~= folded(spelled(lines@).take(0)));
        while i < lines.len()
            invariant
                i <= lines.len(),
                imported@ == folded(spelled(lines@).take(i as int)),
            decreases lines.len() - i,
        {
            imported.add(lines[i].as_str());
            proof {
                let all = spelled(lines@);
                let short = all.take(i as int);
                let long = all.take(i as int + 1);
                assert forall|name: Seq<char>|
                    folded(long).contains(name) == folded(short).insert(
                        uppercase(all[i as int]),
                    ).contains(name) by {
                    if folded(long).contains(name) {
                        let j = choose|j: int| 0 <= j < long.len() && uppercase(#[trigger] long[j]) == name;
                        if j < i {
                            assert(uppercase(short[j]) == name);
                        }
                    }
                    if folded(short).contains(name) {
                        let j = choose|j: int| 0 <= j < short.len() && uppercase(#[trigger] short[j]) == name;
                        assert(uppercase(long[j]) == name);
                    }
                    if name == uppercase(all[i as int]) {
                        assert(uppercase(long[i as int]) == name);
                    }
                }
                assert(imported@ =~= folded(long));
            }
            i += 1;
        }
        assert(spelled(lines@).take(i as int) =~= spelled(lines@));
        imported
    }

    /// Whether the list covers `system`.
    pub fn covers(&self, system: &str) -> (b: bool)
        ensures
            b == covered(self@, system@),
    {
        self.names.contains(to_upper(system).as_str())
    }
}

/// How one visited system stands.
pub ghost enum Standing {
    /// The imported list has it.
    Covered,
    /// The list lacks it, and the catalog has merged it into another.
    Moved,
    /// The list lacks it, and the catalog has not merged it.
    Missing,
    /// The list lacks it, and the catalog has not been asked yet.
    Unknown,
}

/// How a system stands, given the list and the answers remembered. The
/// list is looked at first: a system that it covers needs no answer.
pub open spec fn standing(imported: Set<Seq<char>>, memo: Map<Seq<char>, bool>, system: Seq<char>) -> Standing {
    if covered(imported, system) {
        Standing::Covered
    } else if !memo.contains_key(system) {
        Standing::Unknown
    } else if memo[system] {
        Standing::Moved
    } else {
        Standing::Missing
    }
}

/// What is known of one file.
#[derive(Clone, Copy, Debug, PartialEq, Eq)]
pub enum Verdict {
    /// Every system of the file is covered or moved.
    Clear,
    /// The file holds a missing system.
    Flagged,
    /// The system at this position of the file has to be asked about.
    Pending(usize),
}

/// The mathematical value of a `Verdict`.
pub ghost enum VerdictView {
    Clear,
    Flagged,
    Pending(int),
}

impl View for Verdict {
    type V = VerdictView;

    open spec fn view(&self) -> VerdictView {
        match self {
            Verdict::Clear => VerdictView::Clear,
            Verdict::Flagged => VerdictView::Flagged,
            Verdict::Pending(i) => VerdictView::Pending(*i as int),
        }
    }
}

/// What is known of a file, reading its systems in order from position
/// `from`: the first system that is neither covered nor moved decides.
pub open spec fn verdict_from(
    systems: Seq<Seq<char>>,
    imported: Set<Seq<char>>,
    memo: Map<Seq<char>, bool>,
    from: int,
) -> VerdictView
    decreases systems.len() - from,
{
    if from < 0 || from >= systems.len() {
        VerdictView::Clear
    } else {
        match standing(imported, memo, systems[from]) {
            Standing::Covered => verdict_from(systems, imported, memo, from + 1),
            Standing::Moved => verdict_from(systems, imported, memo, from + 1),
            Standing::Missing => VerdictView::Flagged,
            Standing::Unknown => VerdictView::Pending(from),
        }
    }
}

/// What is known of a whole file.
pub open spec fn file_verdict(
    systems: Seq<Seq<char>>,
    imported: Set<Seq<char>>,
    memo: Map<Seq<char>, bool>,
) -> VerdictView {
    verdict_from(systems, imported, memo, 0)
}

/// The state of a pass: the files flagged so far, by their positions in
/// scan order, and the file and system that have to be asked about before
/// the pass can go on.
pub ghost struct SurveyView {
    pub flagged: Seq<int>,
    pub pending: Option<(int, int)>,
}

/// The pass over the first `n` files. Files of other commanders are
/// skipped. The pass stops at the first file with a system to ask about.
pub open spec fn survey_prefix(
    records: Seq<ScanRecordView>,
    owner: Seq<char>,
    imported: Set<Seq<char>>,
    memo: Map<Seq<char>, bool>,
    n: int,
) -> SurveyView
    decreases n,
{
    if n <= 0 {
        SurveyView { flagged: Seq::<int>::empty(), pending: None }
    } else {
        let before = survey_prefix(records, owner, imported, memo, n - 1);
        if before.pending is Some || records[n - 1].owner != owner {
            before
        } else {
            match file_verdict(records[n - 1].visited, imported, memo) {
                VerdictView::Clear => before,
                VerdictView::Flagged => SurveyView { flagged: before.flagged.push(n - 1), pending: None },
                VerdictView::Pending(i) => SurveyView {
                    flagged: before.flagged,
                    pending: Some((n - 1, i)),
                },
            }
        }
    }
}

/// The pass over all files.
pub open spec fn survey_spec(
    records: Seq<ScanRecordView>,
    owner: Seq<char>,
    imported: Set<Seq<char>>,
    memo: Map<Seq<char>, bool>,
) -> SurveyView {
    survey_prefix(records, owner, imported, memo, records.len() as int)
}

/// Whether a file belongs to the commander and holds a missing system.
pub open spec fn holds_missing(
    record: ScanRecordView,
    owner: Seq<char>,
    imported: Set<Seq<char>>,
    memo: Map<Seq<char>, bool>,
) -> bool {
    record.owner == owner && exists|i: int|
        0 <= i < record.visited.len() && standing(imported, memo, #[trigger] record.visited[i])
            == Standing::Missing
}

/// A file whose systems are all on the imported list is clear, whatever
/// the catalog has answered or will answer.
pub proof fn lemma_covered_file_is_clear(
    systems: Seq<Seq<char>>,
    imported: Set<Seq<char>>,
    memo: Map<Seq<char>, bool>,
    from: int,
)
    ensures
        (forall|i: int| from <= i < systems.len() ==> covered(imported, #[trigger] systems[i]))
            ==> verdict_from(systems, imported, memo, from) == VerdictView::Clear,
    decreases systems.len() - from,
{
    if 0 <= from < systems.len() {
        lemma_covered_file_is_clear(systems, imported, memo, from + 1);
    }
}

/// What a verdict says of the systems of a file. A clear file holds no
/// missing and no unknown system. A flagged file holds a missing one. A
/// pending file holds an unknown one at the position given, and before it
/// only systems that are covered or moved.
pub proof fn lemma_verdict_meaning(
    systems: Seq<Seq<char>>,
    imported: Set<Seq<char>>,
    memo: Map<Seq<char>, bool>,
    from: int,
)
    requires
        0 <= from,
    ensures
        match verdict_from(systems, imported, memo, from) {
            VerdictView::Clear => forall|i: int|
                from <= i < systems.len() ==> {
                    let s = standing(imported, memo, #[trigger] systems[i]);
                    s == Standing::Covered || s == Standing::Moved
                },
            VerdictView::Flagged => exists|i: int|
                from <= i < systems.len() && standing(imported, memo, #[trigger] systems[i])
                    == Standing::Missing,
            VerdictView::Pending(at) => from <= at < systems.len() && standing(
                imported,
                memo,
                systems[at],
            ) == Standing::Unknown && forall|i: int|
                from <= i < at ==> {
                    let s = standing(imported, memo, #[trigger] systems[i]);
                    s == Standing::Covered || s == Standing::Moved
                },
        },
    decreases systems.len() - from,
{
    if from < systems.len() {
        lemma_verdict_meaning(systems, imported, memo, from + 1);
        let rest = verdict_from(systems, imported, memo, from + 1);
        let here = standing(imported, memo, systems[from]);
        if here == Standing::Covered || here == Standing::Moved {
            match rest {
                VerdictView::Clear => {
                    assert forall|i: int| from <= i < systems.len() implies {
                        let s = standing(imported, memo, #[trigger] systems[i]);
                        s == Standing::Covered || s == Standing::Moved
                    } by {}
                },
                VerdictView::Flagged => {
                    let i = choose|i: int|
                        from + 1 <= i < systems.len() && standing(imported, memo, #[trigger] systems[i])
                            == Standing::Missing;
                    assert(from <= i < systems.len() && standing(imported, memo, systems[i])
                        == Standing::Missing);
                },
                VerdictView::Pending(at) => {
                    assert forall|i: int| from <= i < at implies {
                        let s = standing(imported, memo, #[trigger] systems[i]);
                        s == Standing::Covered || s == Standing::Moved
                    } by {}
                },
            }
        } else if here == Standing::Missing {
            assert(standing(imported, memo, systems[from]) == Standing::Missing);
        }
    }
}

/// What a pass over the first `n` files has established. The flagged
/// positions ascend, so no file is flagged twice. Each flagged file
/// belongs to the commander and holds a missing system. While nothing is
/// pending, every file of the commander among the first `n` is flagged if
/// it holds a missing system and clear if not.
pub proof fn lemma_survey_meaning(
    records: Seq<ScanRecordView>,
    owner: Seq<char>,
    imported: Set<Seq<char>>,
    memo: Map<Seq<char>, bool>,
    n: int,
)
    requires
        0 <= n <= records.len(),
    ensures
        ({
            let s = survey_prefix(records, owner, imported, memo, n);
            &&& forall|a: int, b: int|
                0 <= a < b < s.flagged.len() ==> #[trigger] s.flagged[a] < #[trigger] s.flagged[b]
            &&& forall|a: int|
                0 <= a < s.flagged.len() ==> 0 <= #[trigger] s.flagged[a] < n && holds_missing(
                    records[s.flagged[a]],
                    owner,
                    imported,
                    memo,
                )
            &&& s.pending is None ==> forall|k: int|
                0 <= k < n && holds_missing(#[trigger] records[k], owner, imported, memo)
                    ==> s.flagged.contains(k)
            &&& s.pending matches Some((file, system)) ==> 0 <= file < n && records[file].owner
                == owner && file_verdict(records[file].visited, imported, memo)
                == VerdictView::Pending(system) && 0 <= system < records[file].visited.len()
                && forall|a: int| 0 <= a < s.flagged.len() ==> #[trigger] s.flagged[a] < file
        }),
    decreases n,
{
    if n > 0 {
        lemma_survey_meaning(records, owner, imported, memo, n - 1);
        let before = survey_prefix(records, owner, imported, memo, n - 1);
        let s = survey_prefix(records, owner, imported, memo, n);
        let last = records[n - 1];
        lemma_verdict_meaning(last.visited, imported, memo, 0);
        if before.pending is Some {
        } else if last.owner != owner {
            assert forall|k: int|
                0 <= k < n && holds_missing(#[trigger] records[k], owner, imported, memo) implies s.flagged.contains(
                k,
            ) by {
                assert(k < n - 1);
            }
        } else {
            match file_verdict(last.visited, imported, memo) {
                VerdictView::Clear => {
                    assert forall|k: int|
                        0 <= k < n && holds_missing(
                            #[trigger] records[k],
                            owner,
                            imported,
                            memo,
                        ) implies s.flagged.contains(k) by {
                        if k == n - 1 {
                            let i = choose|i: int|
                                0 <= i < last.visited.len() && standing(
                                    imported,
                                    memo,
                                    #[trigger] last.visited[i],
                                ) == Standing::Missing;
                            assert(false);
                        }
                    }
                },
                VerdictView::Flagged => {
                    assert(s.flagged.last() == n - 1);
                    assert forall|a: int| 0 <= a < s.flagged.len() implies 0 <= #[trigger] s.flagged[a]
                        < n && holds_missing(records[s.flagged[a]], owner, imported, memo) by {
                        if a < before.flagged.len() {
                            assert(s.flagged[a] == before.flagged[a]);
                        }
                    }
                    assert forall|a: int, b: int| 0 <= a < b < s.flagged.len() implies #[trigger] s.flagged[a]
                        < #[trigger] s.flagged[b] by {
                        assert(s.flagged[a] == before.flagged[a]);
                        if b < before.flagged.len() {
                            assert(s.flagged[b] == before.flagged[b]);
                        }
                    }
                    assert forall|k: int|
                        0 <= k < n && holds_missing(
                            #[trigger] records[k],
                            owner,
                            imported,
                            memo,
                        ) implies s.flagged.contains(k) by {
                        if k == n - 1 {
                            assert(s.flagged[s.flagged.len() - 1] == k);
                        } else {
                            assert(before.flagged.contains(k));
                            let a = choose|a: int| 0 <= a < before.flagged.len() && before.flagged[a] == k;
                            assert(s.flagged[a] == k);
                        }
                    }
                },
                VerdictView::Pending(i) => {},
            }
        }
    }
}

/// A file whose systems are all on the imported list is never flagged,
/// whatever the catalog answers.
pub proof fn lemma_covered_file_is_never_flagged(
    records: Seq<ScanRecordView>,
    owner: Seq<char>,
    imported: Set<Seq<char>>,
    memo: Map<Seq<char>, bool>,
    k: int,
)
    requires
        0 <= k < records.len(),
    ensures
        (forall|i: int| 0 <= i < records[k].visited.len() ==> covered(imported, #[trigger] records[k].visited[i]))
            ==> !survey_spec(records, owner, imported, memo).flagged.contains(k),
{
    let s = survey_spec(records, owner, imported, memo);
    lemma_survey_meaning(records, owner, imported, memo, records.len() as int);
    if (forall|i: int| 0 <= i < records[k].visited.len() ==> covered(imported, #[trigger] records[k].visited[i]))
        && s.flagged.contains(k) {
        let a = choose|a: int| 0 <= a < s.flagged.len() && s.flagged[a] == k;
        assert(holds_missing(records[s.flagged[a]], owner, imported, memo));
        let i = choose|i: int|
            0 <= i < records[k].visited.len() && standing(imported, memo, #[trigger] records[k].visited[i])
                == Standing::Missing;
        assert(covered(imported, records[k].visited[i]));
    }
}

/// When the pass is over, a file of the commander that holds one system
/// which the list lacks and the catalog has not merged is flagged exactly
/// once, whatever its other systems are.
pub proof fn lemma_missing_file_is_flagged_once(
    records: Seq<ScanRecordView>,
    owner: Seq<char>,
    imported: Set<Seq<char>>,
    memo: Map<Seq<char>, bool>,
    k: int,
    i: int,
)
    requires
        0 <= k < records.len(),
        records[k].owner == owner,
        0 <= i < records[k].visited.len(),
    ensures
        survey_spec(records, owner, imported, memo).pending is None && standing(
            imported,
            memo,
            records[k].visited[i],
        ) == Standing::Missing ==> ({
            let flagged = survey_spec(records, owner, imported, memo).flagged;
            exists|a: int|
                0 <= a < flagged.len() && #[trigger] flagged[a] == k && forall|b: int|
                    0 <= b < flagged.len() && #[trigger] flagged[b] == k ==> b == a
        }),
{
    let flagged = survey_spec(records, owner, imported, memo).flagged;
    lemma_survey_meaning(records, owner, imported, memo, records.len() as int);
    if survey_spec(records, owner, imported, memo).pending is None && standing(
        imported,
        memo,
        records[k].visited[i],
    ) == Standing::Missing {
        assert(holds_missing(records[k], owner, imported, memo));
        assert(flagged.contains(k));
        let a = choose|a: int| 0 <= a < flagged.len() && flagged[a] == k;
        assert forall|b: int| 0 <= b < flagged.len() && #[trigger] flagged[b] == k implies b == a by {
            if b < a {
                assert(flagged[b] < flagged[a]);
            } else if a < b {
                assert(flagged[a] < flagged[b]);
            }
        }
        assert(0 <= a < flagged.len() && flagged[a] == k);
    }
}

/// More answers never undo a verdict. A file that was clear stays clear
/// and one that was flagged stays flagged. A file that was pending is
/// pending no earlier than before, and later than before once its system
/// has an answer.
pub proof fn lemma_verdict_settles(
    systems: Seq<Seq<char>>,
    imported: Set<Seq<char>>,
    memo: Map<Seq<char>, bool>,
    later: Map<Seq<char>, bool>,
    from: int,
)
    requires
        extends(memo, later),
        0 <= from,
    ensures
        ({
            let a = verdict_from(systems, imported, memo, from);
            let b = verdict_from(systems, imported, later, from);
            &&& a == VerdictView::Clear ==> b == VerdictView::Clear
            &&& a == VerdictView::Flagged ==> b == VerdictView::Flagged
            &&& a matches VerdictView::Pending(at) ==> (b matches VerdictView::Pending(next)
                ==> at <= next && (later.contains_key(systems[at]) ==> at < next))
        }),
    decreases systems.len() - from,
{
    if from < systems.len() {
        lemma_verdict_settles(systems, imported, memo, later, from + 1);
        lemma_verdict_meaning(systems, imported, later, from + 1);
        let here = standing(imported, memo, systems[from]);
        if here == Standing::Moved || here == Standing::Missing {
            assert(memo.contains_key(systems[from]));
        }
    }
}

/// More answers only carry a pass forward. A pass that was over stays as
/// it was. Of a pass that was pending, the files flagged so far stay
/// flagged, in their places, and what is pending next stands no earlier
/// in scan order; it stands later once the pending system has an answer.
pub proof fn lemma_survey_settles(
    records: Seq<ScanRecordView>,
    owner: Seq<char>,
    imported: Set<Seq<char>>,
    memo: Map<Seq<char>, bool>,
    later: Map<Seq<char>, bool>,
    n: int,
)
    requires
        extends(memo, later),
        0 <= n <= records.len(),
    ensures
        ({
            let s = survey_prefix(records, owner, imported, memo, n);
            let t = survey_prefix(records, owner, imported, later, n);
            &&& s.pending is None ==> t == s
            &&& s.flagged.is_prefix_of(t.flagged)
            &&& s.pending matches Some((file, system)) ==> (t.pending matches Some((f, i)) ==> {
                let answered = later.contains_key(records[file].visited[system]);
                file < f || (file == f && system <= i && (answered ==> system < i))
            })
        }),
    decreases n,
{
    let s = survey_prefix(records, owner, imported, memo, n);
    let t = survey_prefix(records, owner, imported, later, n);
    if n > 0 {
        lemma_survey_settles(records, owner, imported, memo, later, n - 1);
        lemma_survey_meaning(records, owner, imported, memo, n - 1);
        lemma_survey_meaning(records, owner, imported, later, n);
        let s0 = survey_prefix(records, owner, imported, memo, n - 1);
        let t0 = survey_prefix(records, owner, imported, later, n - 1);
        let last = records[n - 1];
        lemma_verdict_settles(last.visited, imported, memo, later, 0);
        assert(t0.flagged.is_prefix_of(t.flagged)) by {
            assert(t0.flagged =~= t.flagged.subrange(0, t0.flagged.len() as int));
        }
        assert(s0.flagged.is_prefix_of(t.flagged)) by {
            assert(s0.flagged =~= t.flagged.subrange(0, s0.flagged.len() as int));
        }
        if s0.pending is None && last.owner == owner {
            assert(t0 == s0);
            assert(s.flagged.is_prefix_of(t.flagged)) by {
                assert(s.flagged =~= t.flagged.subrange(0, s.flagged.len() as int));
            }
        }
    } else {
        assert(s.flagged =~= t.flagged.subrange(0, 0));
    }
}

/// Once a file is pending, the files after it do not change the pass.
proof fn lemma_pending_stays(
    records: Seq<ScanRecordView>,
    owner: Seq<char>,
    imported: Set<Seq<char>>,
    memo: Map<Seq<char>, bool>,
    n: int,
    m: int,
)
    requires
        0 <= n <= m,
        survey_prefix(records, owner, imported, memo, n).pending is Some,
    ensures
        survey_prefix(records, owner, imported, memo, m) == survey_prefix(
            records,
            owner,
            imported,
            memo,
            n,
        ),
    decreases m - n,
{
    if n < m {
        lemma_pending_stays(records, owner, imported, memo, n, m - 1);
    }
}

/// Reads the systems of one file against the list and the answers that
/// the cache remembers.
pub fn judge(systems: &Vec<String>, imported: &ImportedSet, api: &API) -> (v: Verdict)
    ensures
        v@ == file_verdict(spelled(systems@), imported@, api@.memo),
        v matches Verdict::Pending(at) ==> at < systems.len(),
{
    let mut i: usize = 0;
    while i < systems.len()
        invariant
            i <= systems.len(),
            file_verdict(spelled(systems@), imported@, api@.memo) == verdict_from(
                spelled(systems@),
                imported@,
                api@.memo,
                i as int,
            ),
        decreases systems.len() - i,
    {
        assert(spelled(systems@)[i as int] == systems[i as int]@);
        let system = systems[i].as_str();
        if !imported.covers(system) {
            match api.remembered(system) {
                Some(true) => {},
                Some(false) => {
                    return Verdict::Flagged;
                },
                None => {
                    return Verdict::Pending(i);
                },
            }
        }
        i += 1;
    }
    Verdict::Clear
}

/// The state of a pass: the files flagged so far, by their positions in
/// scan order, and the file and the system in it that have to be asked
/// about before the pass can go on. A pass with nothing pending is over.
#[derive(Debug, PartialEq, Eq)]
pub struct Survey {
    pub flagged: Vec<usize>,
    pub pending: Option<(usize, usize)>,
}

impl View for Survey {
    type V = SurveyView;

    open spec fn view(&self) -> SurveyView {
        SurveyView {
            flagged: Seq::new(self.flagged@.len(), |j: int| self.flagged@[j] as int),
            pending: match self.pending {
                Some((file, system)) => Some((file as int, system as int)),
                None => None,
            },
        }
    }
}

/// Reads the files of `owner`, in scan order, against the imported list
/// and the answers that the cache remembers.
pub fn survey(records: &Vec<ScanRecord>, owner: &str, imported: &ImportedSet, api: &API) -> (s:
    Survey)
    ensures
        s@ == survey_spec(records_view(records@), owner@, imported@, api@.memo),
        forall|j: int| 0 <= j < s.flagged.len() ==> #[trigger] s.flagged[j] < records.len(),
        s.pending matches Some((file, system)) ==> file < records.len() && system
            < records[file as int].visited.len(),
{
    let ghost all = records_view(records@);
    let mut flagged: Vec<usize> = Vec::new();
    let mut n: usize = 0;
    assert(Seq::new(flagged@.len(), |j: int| flagged@[j] as int) =~= Seq::<int>::empty());
    while n < records.len()
        invariant
            n <= records.len(),
            all == records_view(records@),
            forall|j: int| 0 <= j < flagged.len() ==> #[trigger] flagged[j] < records.len(),
            survey_prefix(all, owner@, imported@, api@.memo, n as int) == (SurveyView {
                flagged: Seq::new(flagged@.len(), |j: int| flagged@[j] as int),
                pending: None,
            }),
        decreases records.len() - n,
    {
        let record = &records[n];
        assert(all[n as int] == record@);
        let ghost so_far = Seq::new(flagged@.len(), |j: int| flagged@[j] as int);
        if compare(record.owner.as_str(), owner) == Rank::Same {
            match judge(&record.visited, imported, api) {
                Verdict::Clear => {},
                Verdict::Flagged => {
                    flagged.push(n);
                    assert(Seq::new(flagged@.len(), |j: int| flagged@[j] as int) =~= so_far.push(
                        n as int,
                    ));
                },
                Verdict::Pending(system) => {
                    proof {
                        lemma_pending_stays(
                            all,
                            owner@,
                            imported@,
                            api@.memo,
                            n as int + 1,
                            records.len() as int,
                        );
                    }
                    return Survey { flagged, pending: Some((n, system)) };
                },
            }
        }
        n += 1;
    }
    Survey { flagged, pending: None }
}

/// The paths of the flagged files, in scan order.
pub fn flagged_paths(records: &Vec<ScanRecord>, flagged: &Vec<usize>) -> (paths: Vec<String>)
    requires
        forall|j: int| 0 <= j < flagged.len() ==> #[trigger] flagged[j] < records.len(),
    ensures
        paths.len() == flagged.len(),
        forall|j: int| 0 <= j < flagged.len() ==> (#[trigger] paths[j])@ == records[flagged[j] as int].path@,
{
    let mut paths: Vec<String> = Vec::new();
    let mut j: usize = 0;
    while j < flagged.len()
        invariant
            j <= flagged.len(),
            paths.len() == j,
            forall|k: int| 0 <= k < flagged.len() ==> #[trigger] flagged[k] < records.len(),
            forall|k: int| 0 <= k < j ==> (#[trigger] paths[k])@ == records[flagged[k] as int].path@,
        decreases flagged.len() - j,
    {
        paths.push(records[flagged[j]].path.clone());
        j += 1;
    }
    paths
}

} // verus!
