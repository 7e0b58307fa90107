//! Scanning one journal file: its lines are decoded in order and folded
//! into one record of who travelled and where.

use vstd::prelude::*;
use crate::event::{decode_line, decode_spec, DecodeError, DecodeErrorView, Event, EventView};
use crate::json::spelled_option;
use crate::text::{chars_of, ends_with, spelled, starts_with};

verus! {

/// What one journal file tells: its commander, the commander's stable
/// identifier if the file gives one, and the systems visited, in the order
/// of the file and with repetitions.
#[derive(Debug, PartialEq, Eq)]
pub struct ScanRecord {
    pub path: String,
    pub owner: String,
    pub stable_id: Option<String>,
    pub visited: Vec<String>,
}

/// The mathematical value of a `ScanRecord`.
pub ghost struct ScanRecordView {
    pub path: Seq<char>,
    pub owner: Seq<char>,
    pub stable_id: Option<Seq<char>>,
    pub visited: Seq<Seq<char>>,
}

impl View for ScanRecord {
    type V = ScanRecordView;

    open spec fn view(&self) -> ScanRecordView {
        ScanRecordView {
            path: self.path@,
            owner: self.owner@,
            stable_id: spelled_option(self.stable_id),
            visited: spelled(self.visited@),
        }
    }
}

/// The record of a file before any of its lines is read: the commander is
/// the placeholder `_Unknown`.
pub open spec fn blank(path: Seq<char>) -> ScanRecordView {
    ScanRecordView {
        path,
        owner: "_Unknown"@,
        stable_id: None,
        visited: Seq::<Seq<char>>::empty(),
    }
}

/// What one event does to a record.
pub open spec fn apply_event(record: ScanRecordView, event: EventView) -> ScanRecordView {
    match event {
        EventView::LoadGame { commander } => ScanRecordView { owner: commander, ..record },
        EventView::Commander { name, fid } => ScanRecordView {
            owner: name,
            stable_id: fid,
            ..record
        },
        EventView::Location { star_system } => ScanRecordView {
            visited: record.visited.push(star_system),
            ..record
        },
        EventView::FSDJump { star_system } => ScanRecordView {
            visited: record.visited.push(star_system),
            ..record
        },
        EventView::Other => record,
    }
}

/// The record after the first `n` lines of a file, or the first line among
/// them that does not decode.
pub open spec fn scan_prefix(path: Seq<char>, lines: Seq<Seq<char>>, n: int) -> Result<
    ScanRecordView,
    DecodeErrorView,
>
    decreases n,
{
    if n <= 0 {
        Ok(blank(path))
    } else {
        match scan_prefix(path, lines, n - 1) {
            Err(e) => Err(e),
            Ok(record) => match decode_spec(lines[n - 1]) {
                Some(event) => Ok(apply_event(record, event)),
                None => Err(DecodeErrorView { path, line: n }),
            },
        }
    }
}

/// Scanning a whole file.
pub open spec fn scan_spec(path: Seq<char>, lines: Seq<Seq<char>>) -> Result<
    ScanRecordView,
    DecodeErrorView,
> {
    scan_prefix(path, lines, lines.len() as int)
}

/// Whether a file name is that of a journal: it begins with `Journal.` and
/// ends with `.log`.
pub open spec fn journal_name(name: Seq<char>) -> bool {
    "Journal."@.is_prefix_of(name) && ".log"@.is_suffix_of(name)
}

/// Tells journal files from the other files of the journal directory.
pub fn is_journal_name(name: &str) -> (b: bool)
    ensures
        b == journal_name(name@),
{
    let text = chars_of(name);
    let prefix = chars_of("Journal.");
    let suffix = chars_of(".log");
    starts_with(&text, &prefix) && ends_with(&text, &suffix)
}

impl ScanRecord {
    /// The record of the file at `path` before any line is read.
    pub fn new(path: &str) -> (record: ScanRecord)
        ensures
            record@ == blank(path@),
    {
        let record = ScanRecord {
            path: path.to_owned(),
            owner: "_Unknown".to_owned(),
            stable_id: None,
            visited: Vec::new(),
        };
        assert(spelled(record.visited@) =~= Seq::<Seq<char>>::empty());
        record
    }

    /// Takes one event into the record.
    pub fn apply(&mut self, event: Event)
        ensures
            final(self)@ == apply_event(old(self)@, event@),
    {
        match event {
            Event::LoadGame { commander } => {
                self.owner = commander;
            },
            Event::Commander { name, fid } => {
                self.owner = name;
                self.stable_id = fid;
            },
            Event::Location { star_system } => {
                self.visited.push(star_system);
                assert(spelled(self.visited@) =~= spelled(old(self).visited@).push(star_system@));
            },
            Event::FSDJump { star_system } => {
                self.visited.push(star_system);
                assert(spelled(self.visited@) =~= spelled(old(self).visited@).push(star_system@));
            },
            Event::Other => {},
        }
    }
}

/// Scans the lines of the journal file at `path`. One line that does not
/// decode fails the whole file, with the number of the first such line.
pub fn scan_lines(path: &str, lines: &Vec<String>) -> (r: Result<ScanRecord, DecodeError>)
    ensures
        match r {
            Ok(record) => scan_spec(path@, spelled(lines@)) == Ok::<
                ScanRecordView,
                DecodeErrorView,
            >(record@),
            Err(e) => scan_spec(path@, spelled(lines@)) == Err::<ScanRecordView, DecodeErrorView>(
                e@,
            ),
        },
{
    let mut record = ScanRecord::new(path);
    let mut i: usize = 0;
    while i < lines.len()
        invariant
            i <= lines.len(),
            scan_prefix(path@, spelled(lines@), i as int) == Ok::<ScanRecordView, DecodeErrorView>(
                record@,
            ),
        decreases lines.len() - i,
    {
        assert(spelled(lines@)[i as int] == lines[i as int]@);
        match decode_line(path, i + 1, lines[i].as_str()) {
            Ok(event) => {
                record.apply(event);
            },
            Err(e) => {
                proof {
                    lemma_failure_stays(path@, spelled(lines@), i as int + 1, lines.len() as int);
                }
                return Err(e);
            },
        }
        i += 1;
    }
    Ok(record)
}

/// Once a line has failed, reading further lines changes nothing.
proof fn lemma_failure_stays(path: Seq<char>, lines: Seq<Seq<char>>, n: int, m: int)
    requires
        0 <= n <= m,
        scan_prefix(path, lines, n) is Err,
    ensures
        scan_prefix(path, lines, m) == scan_prefix(path, lines, n),
    decreases m - n,
{
    if n < m {
        lemma_failure_stays(path, lines, n, m - 1);
    }
}

} // verus!
