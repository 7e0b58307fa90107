//! The catalog's answers to "has this system been merged into another?",
//! remembered per name, with the pacing of the requests that ask for them.
//!
//! The cache performs no request itself. `check_moved` either answers from
//! memory or says which request to make and how long to wait before it;
//! `settle` takes what the request brought back.

use vstd::prelude::*;
use vstd::string::StringExecFns;
use crate::json::{
    json_object, members_view, optional_unsigned, parse_object, read_optional_unsigned, Member,
    MemberView,
};
use crate::name_map::NameMap;
use crate::text::{chars_of, compare, push_char, Rank};

verus! {

/// Seconds to wait before every request but the first.
pub const COOL_DOWN_SECS: u64 = 8;

/// A request to the catalog: how long to wait before it, and its address.
#[derive(Debug, PartialEq, Eq)]
pub struct Request {
    pub wait_secs: u64,
    pub url: String,
}

/// What the cache says to a question.
#[derive(Debug, PartialEq, Eq)]
pub enum Lookup {
    /// The answer is remembered.
    Known(bool),
    /// The catalog has to be asked.
    Ask(Request),
}

/// What a request brought back.
#[derive(Debug, PartialEq, Eq)]
pub enum Fetched {
    /// The body of the catalog's reply.
    Body(String),
    /// The request failed.
    Failed,
}

/// A question that found no answer: the request failed or the reply could
/// not be read. It carries the name that was asked for.
#[derive(Debug, PartialEq, Eq)]
pub struct RemoteError {
    pub name: String,
}

/// The mathematical value of a `Lookup`.
pub ghost enum LookupView {
    Known(bool),
    Ask { wait_secs: u64, url: Seq<char> },
}

impl View for Lookup {
    type V = LookupView;

    open spec fn view(&self) -> LookupView {
        match self {
            Lookup::Known(moved) => LookupView::Known(*moved),
            Lookup::Ask(request) => LookupView::Ask {
                wait_secs: request.wait_secs,
                url: request.url@,
            },
        }
    }
}

/// The mathematical value of a `Fetched`: the body, or `None` for a failure.
pub open spec fn fetched_view(fetched: Fetched) -> Option<Seq<char>> {
    match fetched {
        Fetched::Body(body) => Some(body@),
        Fetched::Failed => None,
    }
}

/// The state of a cache: whether it has asked for nothing yet, and the
/// answers it remembers.
pub ghost struct CacheView {
    pub first: bool,
    pub memo: Map<Seq<char>, bool>,
}

/// The state of a cache that has just been made.
pub open spec fn initial() -> CacheView {
    CacheView { first: true, memo: Map::<Seq<char>, bool>::empty() }
}

/// A system name as it stands in a request: every space becomes `+`.
pub open spec fn escape_name(name: Seq<char>) -> Seq<char> {
    Seq::new(name.len(), |i: int| if name[i] == ' ' { '+' } else { name[i] })
}

/// The address that asks the catalog for one system.
pub open spec fn lookup_url(name: Seq<char>) -> Seq<char> {
    "https://www.edsm.net/api-v1/system?showId=1&includeHidden=1&systemName="@ + escape_name(name)
}

/// What the cache says to a question, and its state after saying it.
pub open spec fn ask(state: CacheView, name: Seq<char>) -> (CacheView, LookupView) {
    if state.memo.contains_key(name) {
        (state, LookupView::Known(state.memo[name]))
    } else {
        (
            CacheView { first: false, ..state },
            LookupView::Ask {
                wait_secs: if state.first { 0 } else { COOL_DOWN_SECS },
                url: lookup_url(name),
            },
        )
    }
}

/// Whether the members of a reply name a system that this one was merged
/// into, or `None` where the member that would name it is of a wrong type.
pub open spec fn merged_of(members: Seq<(Seq<char>, MemberView)>) -> Option<bool> {
    match optional_unsigned(members, "mergedTo"@) {
        Some(target) => Some(target is Some),
        None => None,
    }
}

/// What a reply's body says: merged or not, or `None` where it cannot be
/// read. The two empty bodies come from a catalog that does not know the
/// system, which is then not merged.
pub open spec fn verdict(body: Seq<char>) -> Option<bool> {
    if body == "{}"@ || body == "[]"@ {
        Some(false)
    } else {
        match json_object(body) {
            Some(members) => merged_of(members),
            None => None,
        }
    }
}

/// What comes of a fetch: the answer, or `None` for an error.
pub open spec fn outcome(fetched: Option<Seq<char>>) -> Option<bool> {
    match fetched {
        Some(body) => verdict(body),
        None => None,
    }
}

/// The state of a cache after it took what a request for `name` brought
/// back. Only an answer is remembered.
pub open spec fn settled(state: CacheView, name: Seq<char>, fetched: Option<Seq<char>>) -> CacheView {
    match outcome(fetched) {
        Some(moved) => CacheView { memo: state.memo.insert(name, moved), ..state },
        None => state,
    }
}

/// Asking twice for one name makes one request: once the first answer is
/// settled, the second question is answered from memory, with that answer
/// and without touching the cache.
pub proof fn lemma_second_question_is_remembered(
    state: CacheView,
    name: Seq<char>,
    fetched: Option<Seq<char>>,
)
    requires
        !state.memo.contains_key(name),
    ensures
        ask(state, name).1 is Ask,
        outcome(fetched) matches Some(moved) ==> {
            let asked = ask(state, name).0;
            let after = settled(asked, name, fetched);
            ask(after, name) == (after, LookupView::Known(moved))
        },
{
}

/// The first request of a cache's life waits for nothing.
pub proof fn lemma_first_request_is_immediate(name: Seq<char>)
    ensures
        ask(initial(), name).1 == (LookupView::Ask { wait_secs: 0, url: lookup_url(name) }),
{
}

/// After its first request a cache never asks again without the cool-down:
/// every later request, for whatever name, waits for it, and neither
/// asking nor settling brings the first state back.
pub proof fn lemma_later_requests_wait(
    state: CacheView,
    name: Seq<char>,
    other: Seq<char>,
    fetched: Option<Seq<char>>,
)
    ensures
        ask(state, name).1 is Ask ==> !ask(state, name).0.first,
        !state.first ==> !ask(state, other).0.first,
        !state.first ==> !settled(state, other, fetched).first,
        !state.first ==> (ask(state, other).1 matches LookupView::Ask { wait_secs, .. }
            ==> wait_secs == COOL_DOWN_SECS),
{
}

/// Whether `later` remembers every answer that `memo` remembers.
pub open spec fn extends(memo: Map<Seq<char>, bool>, later: Map<Seq<char>, bool>) -> bool {
    forall|name: Seq<char>| #[trigger]
        memo.contains_key(name) ==> later.contains_key(name) && later[name] == memo[name]
}

/// Asking forgets nothing, and neither does settling the answer to a
/// question that was open.
pub proof fn lemma_memory_only_grows(state: CacheView, name: Seq<char>, fetched: Option<Seq<char>>)
    ensures
        extends(state.memo, ask(state, name).0.memo),
        !state.memo.contains_key(name) ==> extends(state.memo, settled(state, name, fetched).memo),
{
}

/// A failed request leaves the answers as they were, so the same question
/// asks the catalog again.
pub proof fn lemma_failure_is_not_remembered(
    state: CacheView,
    name: Seq<char>,
    fetched: Option<Seq<char>>,
)
    ensures
        outcome(fetched) is None ==> settled(state, name, fetched) == state,
{
}

/// Writes a name as it stands in a request.
pub fn escape(name: &str) -> (escaped: String)
    ensures
        escaped@ == escape_name(name@),
{
    let chars = chars_of(name);
    let mut escaped = String::new();
    let mut i: usize = 0;
    while i < chars.len()
        invariant
            i <= chars.len(),
            chars@ == name@,
            escaped@ == escape_name(name@).take(i as int),
        decreases chars.len() - i,
    {
        let c = chars[i];
        push_char(&mut escaped, if c == ' ' { '+' } else { c });
        assert(escaped@ =~= escape_name(name@).take(i as int + 1));
        i += 1;
    }
    assert(escaped@ =~= escape_name(name@));
    escaped
}

/// Reads the members of a reply.
pub fn merged_from_members(members: &Vec<(String, Member)>) -> (r: Option<bool>)
    ensures
        r == merged_of(members_view(members@)),
{
    match read_optional_unsigned(members, "mergedTo") {
        Some(target) => Some(target.is_some()),
        None => None,
    }
}

/// Reads a reply's body.
pub fn read_reply(body: &str) -> (r: Option<bool>)
    ensures
        r == verdict(body@),
{
    if compare(body, "{}") == Rank::Same || compare(body, "[]") == Rank::Same {
        return Some(false);
    }
    match parse_object(body) {
        Some(members) => merged_from_members(&members),
        None => None,
    }
}

/// The cache of the catalog's answers.
#[derive(Debug)]
pub struct API {
    first: bool,
    memo: NameMap<bool>,
}

impl View for API {
    type V = CacheView;

    closed spec fn view(&self) -> CacheView {
        CacheView { first: self.first, memo: self.memo@ }
    }
}

impl API {
    /// A cache that remembers nothing and has asked for nothing.
    pub fn new() -> (api: API)
        ensures
            api@ == initial(),
    {
        API { first: true, memo: NameMap::new() }
    }

    /// The answer that is remembered for `system_name`, if any.
    pub fn remembered(&self, system_name: &str) -> (r: Option<bool>)
        ensures
            r == (if self@.memo.contains_key(system_name@) {
                Some(self@.memo[system_name@])
            } else {
                None
            }),
    {
        match self.memo.get(system_name) {
            Some(moved) => Some(*moved),
            None => None,
        }
    }

    /// Asks whether `system_name` has been merged into another system.
    /// A remembered answer comes back at once and changes nothing. Failing
    /// that, the result is the request to make: the first one of the
    /// cache's life without a wait, every later one after the cool-down.
    pub fn check_moved(&mut self, system_name: &str) -> (r: Lookup)
        ensures
            (final(self)@, r@) == ask(old(self)@, system_name@),
    {
        match self.memo.get(system_name) {
            Some(moved) => {
                return Lookup::Known(*moved);
            },
            None => {},
        }
        let wait_secs = if self.first { 0 } else { COOL_DOWN_SECS };
        self.first = false;
        let url = String::from_str(
            "https://www.edsm.net/api-v1/system?showId=1&includeHidden=1&systemName=",
        ).concat(escape(system_name).as_str());
        Lookup::Ask(Request { wait_secs, url })
    }

    /// Takes what the request for `system_name` brought back. An answer is
    /// remembered and returned. A failed request or a reply that cannot be
    /// read is an error that names the system, and nothing is remembered.
    pub fn settle(&mut self, system_name: &str, fetched: Fetched) -> (r: Result<bool, RemoteError>)
        ensures
            final(self)@ == settled(old(self)@, system_name@, fetched_view(fetched)),
            match r {
                Ok(moved) => outcome(fetched_view(fetched)) == Some(moved),
                Err(e) => outcome(fetched_view(fetched)) is None && e.name@ == system_name@,
            },
    {
        let answer = match fetched {
            Fetched::Body(body) => read_reply(body.as_str()),
            Fetched::Failed => None,
        };
        match answer {
            Some(moved) => {
                self.memo.insert(system_name.to_owned(), moved);
                Ok(moved)
            },
            None => Err(RemoteError { name: system_name.to_owned() }),
        }
    }
}

} // verus!
