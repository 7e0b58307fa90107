//! The text of the reports: directory names made from commander names, and
//! the lines of the identifier list.

use vstd::prelude::*;
use vstd::string::StringExecFns;
use crate::text::{chars_of, push_char};

verus! {

/// Whether a character may stand in a directory name: an ASCII letter or
/// digit, a space, an underscore or a hyphen.
pub open spec fn kept(c: char) -> bool {
    ('0' <= c && c <= '9') || ('A' <= c && c <= 'Z') || ('a' <= c && c <= 'z') || c == ' ' || c
        == '_' || c == '-'
}

/// A name with every character that may not stand in a directory name
/// replaced by a space.
pub open spec fn escaped_filename(name: Seq<char>) -> Seq<char> {
    Seq::new(name.len(), |i: int| if kept(name[i]) { name[i] } else { ' ' })
}

/// Makes a directory name from a commander's name.
pub fn escape_filename(name: &str) -> (escaped: String)
    ensures
        escaped@ == escaped_filename(name@),
{
    let chars = chars_of(name);
    let mut escaped = String::new();
    let mut i: usize = 0;
    while i < chars.len()
        invariant
            i <= chars.len(),
            chars@ == name@,
            escaped@ == escaped_filename(name@).take(i as int),
        decreases chars.len() - i,
    {
        let c = chars[i];
        let keep = ('0' <= c && c <= '9') || ('A' <= c && c <= 'Z') || ('a' <= c && c <= 'z') || c
            == ' ' || c == '_' || c == '-';
        push_char(&mut escaped, if keep { c } else { ' ' });
        assert(escaped@ =~= escaped_filename(name@).take(i as int + 1));
        i += 1;
    }
    assert(escaped@ =~= escaped_filename(name@));
    escaped
}

/// The line of the identifier list for one commander.
pub open spec fn id_line_spec(owner: Seq<char>, id: Seq<char>) -> Seq<char> {
    "Cmdr:"@ + owner + "\tID:"@ + id
}

/// Writes the line of the identifier list for one commander.
pub fn id_line(owner: &str, id: &str) -> (line: String)
    ensures
        line@ == id_line_spec(owner@, id@),
{
    String::from_str("Cmdr:").concat(owner).concat("\tID:").concat(id)
}

} // verus!
