//! Names as sequences of characters: their dictionary order and the few
//! string primitives the rest of the crate is built from.

use vstd::prelude::*;
use vstd::std_specs::iter::IteratorSpec;

verus! {

/// How one name stands relative to another in dictionary order.
#[derive(Clone, Copy, Debug, PartialEq, Eq, Structural)]
pub enum Rank {
    Before,
    Same,
    After,
}

/// Strict dictionary order on names, character by character by code point.
/// A proper prefix precedes every name it is a prefix of.
pub open spec fn precedes(a: Seq<char>, b: Seq<char>) -> bool
    decreases a.len(),
{
    if b.len() == 0 {
        false
    } else if a.len() == 0 {
        true
    } else if a[0] != b[0] {
        (a[0] as int) < (b[0] as int)
    } else {
        precedes(a.drop_first(), b.drop_first())
    }
}

/// The three-way comparison that `precedes` induces.
pub open spec fn rank(a: Seq<char>, b: Seq<char>) -> Rank {
    if a == b {
        Rank::Same
    } else if precedes(a, b) {
        Rank::Before
    } else {
        Rank::After
    }
}

/// No name precedes itself.
pub proof fn lemma_precedes_irreflexive(a: Seq<char>)
    ensures
        !precedes(a, a),
    decreases a.len(),
{
    if a.len() > 0 {
        lemma_precedes_irreflexive(a.drop_first());
    }
}

/// Of two different names exactly one precedes the other.
pub proof fn lemma_precedes_total(a: Seq<char>, b: Seq<char>)
    ensures
        a != b ==> (precedes(a, b) <==> !precedes(b, a)),
        a == b ==> !precedes(a, b) && !precedes(b, a),
    decreases a.len(),
{
    if a == b {
        lemma_precedes_irreflexive(a);
    } else if a.len() > 0 && b.len() > 0 && a[0] == b[0] {
        assert(a.drop_first() != b.drop_first()) by {
            if a.drop_first() == b.drop_first() {
                assert(a =~= seq![a[0]] + a.drop_first());
                assert(b =~= seq![b[0]] + b.drop_first());
            }
        }
        lemma_precedes_total(a.drop_first(), b.drop_first());
    } else if a.len() == 0 {
        assert(b.len() > 0) by {
            if b.len() == 0 {
                assert(a =~= b);
            }
        }
    } else if b.len() == 0 {
    }
}

/// Dictionary order is transitive.
pub proof fn lemma_precedes_transitive(a: Seq<char>, b: Seq<char>, c: Seq<char>)
    requires
        precedes(a, b),
        precedes(b, c),
    ensures
        precedes(a, c),
    decreases a.len(),
{
    if a.len() > 0 && a[0] == b[0] && b[0] == c[0] {
        lemma_precedes_transitive(a.drop_first(), b.drop_first(), c.drop_first());
    }
}

/// A sequence of names in strictly ascending dictionary order.
pub open spec fn ascending(names: Seq<Seq<char>>) -> bool {
    forall|i: int, j: int| 0 <= i < j < names.len() ==> precedes(#[trigger] names[i], #[trigger] names[j])
}

/// The names that a sequence of strings spells.
pub open spec fn spelled(strings: Seq<String>) -> Seq<Seq<char>> {
    Seq::new(strings.len(), |i: int| strings[i]@)
}

/// Compares two names in dictionary order.
pub fn compare(a: &str, b: &str) -> (r: Rank)
    ensures
        r == rank(a@, b@),
{
    let mut xs = a.chars();
    let mut ys = b.chars();
    let ghost mut x: Seq<char> = a@;
    let ghost mut y: Seq<char> = b@;
    proof {
        broadcast use vstd::string::group_string_axioms;
    }
    loop
        invariant
            xs.obeys_prophetic_iter_laws(),
            ys.obeys_prophetic_iter_laws(),
            xs.remaining() == x,
            ys.remaining() == y,
            rank(a@, b@) == rank(x, y),
        decreases x.len(),
    {
        proof {
            broadcast use vstd::string::group_string_axioms;
        }
        let p = xs.next();
        let q = ys.next();
        match (p, q) {
            (None, None) => {
                assert(x =~= y);
                return Rank::Same;
            },
            (None, Some(_)) => {
                return Rank::Before;
            },
            (Some(_), None) => {
                return Rank::After;
            },
            (Some(c), Some(d)) => {
                if c != d {
                    if c < d {
                        return Rank::Before;
                    } else {
                        return Rank::After;
                    }
                }
                proof {
                    if x.drop_first() == y.drop_first() {
                        assert(x =~= seq![x[0]] + x.drop_first());
                        assert(y =~= seq![y[0]] + y.drop_first());
                    }
                    x = x.drop_first();
                    y = y.drop_first();
                }
            },
        }
    }
}

/// The characters of a string, one by one.
pub fn chars_of(s: &str) -> (v: Vec<char>)
    ensures
        v@ == s@,
{
    let mut it = s.chars();
    let mut v: Vec<char> = Vec::new();
    let ghost mut rest: Seq<char> = s@;
    proof {
        broadcast use vstd::string::group_string_axioms;
    }
    loop
        invariant
            it.obeys_prophetic_iter_laws(),
            it.remaining() == rest,
            v@ + rest == s@,
        decreases rest.len(),
    {
        proof {
            broadcast use vstd::string::group_string_axioms;
        }
        match it.next() {
            None => {
                assert(v@ =~= v@ + rest);
                return v;
            },
            Some(c) => {
                proof {
                    assert(v@.push(c) + rest.drop_first() =~= v@ + rest);
                    rest = rest.drop_first();
                }
                v.push(c);
            },
        }
    }
}

/// Whether `text` begins with `prefix`.
pub fn starts_with(text: &Vec<char>, prefix: &Vec<char>) -> (b: bool)
    ensures
        b == prefix@.is_prefix_of(text@),
{
    if prefix.len() > text.len() {
        return false;
    }
    let mut i: usize = 0;
    while i < prefix.len()
        invariant
            i <= prefix.len() <= text.len(),
            forall|j: int| 0 <= j < i ==> prefix[j] == text[j],
        decreases prefix.len() - i,
    {
        if prefix[i] != text[i] {
            assert(text@.subrange(0, prefix.len() as int)[i as int] == text[i as int]);
            return false;
        }
        i += 1;
    }
    assert(prefix@ =~= text@.subrange(0, prefix.len() as int));
    true
}

/// Whether `text` ends with `suffix`.
pub fn ends_with(text: &Vec<char>, suffix: &Vec<char>) -> (b: bool)
    ensures
        b == suffix@.is_suffix_of(text@),
{
    if suffix.len() > text.len() {
        return false;
    }
    let shift: usize = text.len() - suffix.len();
    let mut i: usize = 0;
    while i < suffix.len()
        invariant
            i <= suffix.len() <= text.len(),
            shift == text.len() - suffix.len(),
            forall|j: int| 0 <= j < i ==> suffix[j] == text[shift + j],
        decreases suffix.len() - i,
    {
        if suffix[i] != text[shift + i] {
            assert(text@.subrange(shift as int, text.len() as int)[i as int] == text[shift + i]);
            return false;
        }
        i += 1;
    }
    assert(suffix@ =~= text@.subrange(shift as int, text.len() as int));
    true
}

/// Appends one character to a string. This is `String::push` of the
/// standard library, which adds the character at the end and leaves the
/// rest of the string as it was.
#[verifier::external_body]
pub(crate) fn push_char(s: &mut String, c: char)
    ensures
        final(s)@ == old(s)@.push(c),
{
    s.push(c);
}

/// The upper-case form of a name, as Unicode defines it without regard
/// to a locale. It stands for the result of `str::to_uppercase`.
pub uninterp spec fn uppercase(name: Seq<char>) -> Seq<char>;

/// Folds a name to upper case. This is `str::to_uppercase` of the
/// standard library; the contract only gives its result the name
/// `uppercase`, so equal names fold to equal names.
#[verifier::external_body]
pub(crate) fn to_upper(name: &str) -> (folded: String)
    ensures
        folded@ == uppercase(name@),
{
    name.to_uppercase()
}

} // verus!
