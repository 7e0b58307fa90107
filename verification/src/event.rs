//! Journal events: the few kinds that matter for a travel history, and the
//! decoding of one journal line into one of them.

use vstd::prelude::*;
use crate::json::{
    find_member, json_object, members_view, optional_text, parse_object, read_optional_text,
    read_text, required_text, spelled_option, Member, MemberView,
};
use crate::text::{compare, Rank};

verus! {

/// One journal event. Kinds that are not listed here decode as `Other`.
#[derive(Debug, PartialEq, Eq)]
pub enum Event {
    /// A game was loaded under a commander's name.
    LoadGame { commander: String },
    /// The commander's name, with the stable identifier where the journal
    /// gives one.
    Commander { name: String, fid: Option<String> },
    /// The commander is in a system.
    Location { star_system: String },
    /// The commander jumped to a system.
    FSDJump { star_system: String },
    /// Any other kind of event.
    Other,
}

/// The mathematical value of an `Event`.
pub ghost enum EventView {
    LoadGame { commander: Seq<char> },
    Commander { name: Seq<char>, fid: Option<Seq<char>> },
    Location { star_system: Seq<char> },
    FSDJump { star_system: Seq<char> },
    Other,
}

impl View for Event {
    type V = EventView;

    open spec fn view(&self) -> EventView {
        match self {
            Event::LoadGame { commander } => EventView::LoadGame { commander: commander@ },
            Event::Commander { name, fid } => EventView::Commander {
                name: name@,
                fid: spelled_option(*fid),
            },
            Event::Location { star_system } => EventView::Location { star_system: star_system@ },
            Event::FSDJump { star_system } => EventView::FSDJump { star_system: star_system@ },
            Event::Other => EventView::Other,
        }
    }
}

/// A journal line that does not decode: the file and the line's number,
/// counted from one.
#[derive(Debug, PartialEq, Eq)]
pub struct DecodeError {
    pub path: String,
    pub line: usize,
}

/// The mathematical value of a `DecodeError`.
pub ghost struct DecodeErrorView {
    pub path: Seq<char>,
    pub line: int,
}

impl View for DecodeError {
    type V = DecodeErrorView;

    open spec fn view(&self) -> DecodeErrorView {
        DecodeErrorView { path: self.path@, line: self.line as int }
    }
}

/// Whether the decoder knows an event kind by name.
pub open spec fn known_kind(kind: Seq<char>) -> bool {
    kind == "LoadGame"@ || kind == "Commander"@ || kind == "Location"@ || kind == "FSDJump"@
}

/// The event that the members of a journal line spell, or `None` where
/// they spell none: the kind is missing or no string, or a member that the
/// kind needs is missing or of the wrong type.
pub open spec fn event_of(members: Seq<(Seq<char>, MemberView)>) -> Option<EventView> {
    match required_text(members, "event"@) {
        None => None,
        Some(kind) => {
            if kind == "LoadGame"@ {
                match required_text(members, "Commander"@) {
                    Some(commander) => Some(EventView::LoadGame { commander }),
                    None => None,
                }
            } else if kind == "Commander"@ {
                match (required_text(members, "Name"@), optional_text(members, "FID"@)) {
                    (Some(name), Some(fid)) => Some(EventView::Commander { name, fid }),
                    _ => None,
                }
            } else if kind == "Location"@ {
                match required_text(members, "StarSystem"@) {
                    Some(star_system) => Some(EventView::Location { star_system }),
                    None => None,
                }
            } else if kind == "FSDJump"@ {
                match required_text(members, "StarSystem"@) {
                    Some(star_system) => Some(EventView::FSDJump { star_system }),
                    None => None,
                }
            } else {
                Some(EventView::Other)
            }
        },
    }
}

/// The event that a journal line spells, or `None` where the line is no
/// JSON object or its members spell no event.
pub open spec fn decode_spec(line: Seq<char>) -> Option<EventView> {
    match json_object(line) {
        None => None,
        Some(members) => event_of(members),
    }
}

/// A line whose kind is a string that the decoder does not know never
/// fails to decode: it is the catch-all event, whatever else it holds.
pub proof fn lemma_unknown_kind_is_other(
    line: Seq<char>,
    members: Seq<(Seq<char>, MemberView)>,
    kind: Seq<char>,
)
    requires
        find_member(members, "event"@) == Some(MemberView::Text(kind)),
        !known_kind(kind),
    ensures
        event_of(members) == Some(EventView::Other),
        json_object(line) == Some(members) ==> decode_spec(line) == Some(EventView::Other),
{
}

/// The mathematical value of an optional event.
pub open spec fn event_option_view(e: Option<Event>) -> Option<EventView> {
    match e {
        Some(event) => Some(event@),
        None => None,
    }
}

/// Builds the event that the members of a journal line spell.
pub fn event_from_members(members: &Vec<(String, Member)>) -> (r: Option<Event>)
    ensures
        event_option_view(r) == event_of(members_view(members@)),
{
    let kind = match read_text(members, "event") {
        Some(kind) => kind,
        None => {
            return None;
        },
    };
    if compare(kind.as_str(), "LoadGame") == Rank::Same {
        match read_text(members, "Commander") {
            Some(commander) => Some(Event::LoadGame { commander }),
            None => None,
        }
    } else if compare(kind.as_str(), "Commander") == Rank::Same {
        let name = read_text(members, "Name");
        let fid = read_optional_text(members, "FID");
        match (name, fid) {
            (Some(name), Some(fid)) => Some(Event::Commander { name, fid }),
            _ => None,
        }
    } else if compare(kind.as_str(), "Location") == Rank::Same {
        match read_text(members, "StarSystem") {
            Some(star_system) => Some(Event::Location { star_system }),
            None => None,
        }
    } else if compare(kind.as_str(), "FSDJump") == Rank::Same {
        match read_text(members, "StarSystem") {
            Some(star_system) => Some(Event::FSDJump { star_system }),
            None => None,
        }
    } else {
        Some(Event::Other)
    }
}

/// Decodes one journal line. `path` and `number` say where the line stands;
/// they are what the error carries when the line does not decode.
pub fn decode_line(path: &str, number: usize, line: &str) -> (r: Result<Event, DecodeError>)
    ensures
        match r {
            Ok(event) => decode_spec(line@) == Some(event@),
            Err(e) => decode_spec(line@) is None && e.path@ == path@ && e.line == number,
        },
{
    let event = match parse_object(line) {
        Some(members) => event_from_members(&members),
        None => None,
    };
    match event {
        Some(event) => Ok(event),
        None => Err(DecodeError { path: path.to_owned(), line: number }),
    }
}

} // verus!
