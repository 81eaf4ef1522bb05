//! The order of names, by which the cache finds its latest entry.

use vstd::prelude::*;
use vstd::std_specs::iter::IteratorSpec;
use vstd::string::*;

verus! {

/// The order of names: character by character, by code point; a name comes
/// before every longer name that it opens.
pub open spec fn lex_le(a: Seq<char>, b: Seq<char>) -> bool
    decreases a.len(),
{
    if a.len() == 0 {
        true
    } else if b.len() == 0 {
        false
    } else if a[0] != b[0] {
        (a[0] as int) < (b[0] as int)
    } else {
        lex_le(a.drop_first(), b.drop_first())
    }
}

/// Whether `name` is one of `names` and none of them comes after it.
pub open spec fn is_latest(names: Seq<Seq<char>>, name: Seq<char>) -> bool {
    &&& names.contains(name)
    &&& forall|i: int| 0 <= i < names.len() ==> lex_le(#[trigger] names[i], name)
}

/// The name that sorts last among `names`.
pub open spec fn latest_name(names: Seq<Seq<char>>) -> Seq<char> {
    choose|name: Seq<char>| is_latest(names, name)
}

/// Every name comes before or at itself.
pub proof fn lemma_lex_le_reflexive(a: Seq<char>)
    ensures
        lex_le(a, a),
    decreases a.len(),
{
    if a.len() > 0 {
        lemma_lex_le_reflexive(a.drop_first());
    }
}

/// Two names that come before or at each other are the same name.
pub proof fn lemma_lex_le_antisymmetric(a: Seq<char>, b: Seq<char>)
    requires
        lex_le(a, b),
        lex_le(b, a),
    ensures
        a == b,
    decreases a.len(),
{
    if a.len() == 0 || b.len() == 0 {
        assert(a =~= b);
    } else {
        lemma_lex_le_antisymmetric(a.drop_first(), b.drop_first());
        assert(a =~= seq![a[0]] + a.drop_first());
        assert(b =~= seq![b[0]] + b.drop_first());
    }
}

/// The order of names is transitive.
pub proof fn lemma_lex_le_transitive(a: Seq<char>, b: Seq<char>, c: Seq<char>)
    requires
        lex_le(a, b),
        lex_le(b, c),
    ensures
        lex_le(a, c),
    decreases a.len(),
{
    if a.len() > 0 && b.len() > 0 && c.len() > 0 {
        if a[0] == b[0] && b[0] == c[0] {
            lemma_lex_le_transitive(a.drop_first(), b.drop_first(), c.drop_first());
        }
    }
}

/// Of two names one comes before or at the other.
pub proof fn lemma_lex_le_total(a: Seq<char>, b: Seq<char>)
    ensures
        lex_le(a, b) || lex_le(b, a),
    decreases a.len(),
{
    if a.len() > 0 && b.len() > 0 {
        lemma_lex_le_total(a.drop_first(), b.drop_first());
    }
}

/// Every listing that holds a name has a latest name: `latest_name` is one
/// of its names, and none of them comes after it.
pub proof fn lemma_latest_exists(names: Seq<Seq<char>>)
    requires
        names.len() > 0,
    ensures
        is_latest(names, latest_name(names)),
    decreases names.len(),
{
    let last = names.last();
    if names.len() == 1 {
        lemma_lex_le_reflexive(last);
        assert(names[0] == last);
        assert(is_latest(names, last));
    } else {
        let rest = names.drop_last();
        lemma_latest_exists(rest);
        let best = latest_name(rest);
        let at = choose|i: int| 0 <= i < rest.len() && rest[i] == best;
        assert(names[at] == best);
        assert(names[names.len() - 1] == last);
        if lex_le(best, last) {
            lemma_lex_le_reflexive(last);
            assert forall|i: int| 0 <= i < names.len() implies lex_le(
                #[trigger] names[i],
                last,
            ) by {
                if i < rest.len() {
                    assert(names[i] == rest[i]);
                    lemma_lex_le_transitive(rest[i], best, last);
                }
            }
            assert(is_latest(names, last));
        } else {
            lemma_lex_le_total(best, last);
            assert forall|i: int| 0 <= i < names.len() implies lex_le(
                #[trigger] names[i],
                best,
            ) by {
                if i < rest.len() {
                    assert(names[i] == rest[i]);
                }
            }
            assert(is_latest(names, best));
        }
    }
}

/// A listing has at most one latest name, and `latest_name` is that name.
pub proof fn lemma_latest_unique(names: Seq<Seq<char>>, name: Seq<char>)
    requires
        is_latest(names, name),
    ensures
        latest_name(names) == name,
{
    let other = latest_name(names);
    assert(is_latest(names, other));
    lemma_lex_le_antisymmetric(name, other);
}

/// The code point of a character.
fn code_point(c: char) -> (r: u32)
    ensures
        r as int == c as int,
{
    c as u32
}

/// Whether `a` comes before or at `b` in the order of names.
pub fn name_le(a: &str, b: &str) -> (r: bool)
    ensures
        r == lex_le(a@, b@),
{
    broadcast use group_string_axioms;

    let mut left = a.chars();
    let mut right = b.chars();
    loop
        invariant
            left.decrease() is Some,
            lex_le(a@, b@) == lex_le(left.remaining(), right.remaining()),
        decreases left.decrease()->0,
    {
        let x = left.next();
        let y = right.next();
        match (x, y) {
            (None, _) => {
                return true;
            },
            (Some(_), None) => {
                return false;
            },
            (Some(p), Some(q)) => {
                if p != q {
                    return code_point(p) < code_point(q);
                }
            },
        }
    }
}

/// Names of one character are ordered as their characters are.
pub proof fn lemma_lex_le_single(c: char, d: char)
    ensures
        lex_le(seq![c], seq![d]) == (c as int <= d as int),
{
    let (a, b) = (seq![c], seq![d]);
    assert(a.drop_first() =~= Seq::<char>::empty());
    assert(lex_le(a.drop_first(), b.drop_first()));
}

/// Two names that open with different texts of one length are ordered as
/// these texts are; where they open with the same text, as what follows it.
pub proof fn lemma_lex_le_prefix(x: Seq<char>, y: Seq<char>, s: Seq<char>, t: Seq<char>)
    requires
        x.len() == y.len(),
    ensures
        lex_le(x + s, y + t) == if x == y {
            lex_le(s, t)
        } else {
            lex_le(x, y)
        },
    decreases x.len(),
{
    if x.len() == 0 {
        assert(x + s =~= s);
        assert(y + t =~= t);
        assert(x =~= y);
    } else {
        assert((x + s).drop_first() =~= x.drop_first() + s);
        assert((y + t).drop_first() =~= y.drop_first() + t);
        lemma_lex_le_prefix(x.drop_first(), y.drop_first(), s, t);
        if x[0] == y[0] && x.drop_first() == y.drop_first() {
            assert(x =~= seq![x[0]] + x.drop_first());
            assert(y =~= seq![y[0]] + y.drop_first());
        }
    }
}

} // verus!
