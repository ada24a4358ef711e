//! Verified helpers on strings: character-wise equality, prefix matching, and
//! a lexicographic order with an insertion sort, used to bring process names
//! into sorted order before run detection.

use vstd::prelude::*;
use vstd::seq_lib::*;
use vstd::string::*;

verus! {

/// Character-wise equality of two string slices.
pub fn str_eq(a: &str, b: &str) -> (r: bool)
    ensures
        r == (a@ == b@),
{
    let la = a.unicode_len();
    let lb = b.unicode_len();
    if la != lb {
        return false;
    }
    let mut i: usize = 0;
    while i < la
        invariant
            la == a@.len(),
            lb == b@.len(),
            la == lb,
            i <= la,
            forall|j: int| 0 <= j < i ==> a@[j] == b@[j],
        decreases la - i,
    {
        if a.get_char(i) != b.get_char(i) {
            return false;
        }
        i = i + 1;
    }
    proof {
        assert(a@ =~= b@);
    }
    true
}

/// Whether the characters of `p` are an exact prefix of `s` (case-sensitive).
pub fn str_starts_with(s: &str, p: &str) -> (r: bool)
    ensures
        r == p@.is_prefix_of(s@),
{
    let lp = p.unicode_len();
    if s.unicode_len() < lp {
        return false;
    }
    let mut i: usize = 0;
    while i < lp
        invariant
            lp == p@.len(),
            lp <= s@.len(),
            i <= lp,
            forall|j: int| 0 <= j < i ==> s@[j] == p@[j],
        decreases lp - i,
    {
        if s.get_char(i) != p.get_char(i) {
            proof {
                assert(!(p@ =~= s@.subrange(0, lp as int)));
            }
            return false;
        }
        i = i + 1;
    }
    proof {
        assert(p@ =~= s@.subrange(0, lp as int));
    }
    true
}

/// Lexicographic order on names, by character code; the empty name comes
/// first.
pub open spec fn name_le(a: Seq<char>, b: Seq<char>) -> bool
    decreases a.len(),
{
    if a.len() == 0 {
        true
    } else if b.len() == 0 {
        false
    } else if (a[0] as u32) < (b[0] as u32) {
        true
    } else if (a[0] as u32) > (b[0] as u32) {
        false
    } else {
        name_le(a.drop_first(), b.drop_first())
    }
}

/// `name_le` is total: any two names are comparable.
pub proof fn lemma_name_le_total(a: Seq<char>, b: Seq<char>)
    ensures
        name_le(a, b) || name_le(b, a),
    decreases a.len(),
{
    if a.len() != 0 && b.len() != 0 && a[0] as u32 == b[0] as u32 {
        lemma_name_le_total(a.drop_first(), b.drop_first());
    }
}

/// `name_le` is antisymmetric: mutually ordered names are equal.
pub proof fn lemma_name_le_antisymmetric(a: Seq<char>, b: Seq<char>)
    requires
        name_le(a, b),
        name_le(b, a),
    ensures
        a == b,
    decreases a.len(),
{
    if a.len() != 0 && b.len() != 0 {
        assert(a[0] as u32 == b[0] as u32);
        vstd::utf8::char_u32_cast(a[0], a[0] as u32);
        vstd::utf8::char_u32_cast(b[0], b[0] as u32);
        assert(a[0] == b[0]);
        lemma_name_le_antisymmetric(a.drop_first(), b.drop_first());
        assert(a =~= seq![a[0]] + a.drop_first());
        assert(b =~= seq![b[0]] + b.drop_first());
    } else {
        assert(a.len() == 0 && b.len() == 0);
        assert(a =~= b);
    }
}

/// `name_le` is transitive.
pub proof fn lemma_name_le_transitive(a: Seq<char>, b: Seq<char>, c: Seq<char>)
    requires
        name_le(a, b),
        name_le(b, c),
    ensures
        name_le(a, c),
    decreases a.len(),
{
    if a.len() != 0 && b.len() != 0 && c.len() != 0 {
        if a[0] as u32 == b[0] as u32 && b[0] as u32 == c[0] as u32 {
            lemma_name_le_transitive(a.drop_first(), b.drop_first(), c.drop_first());
        }
    }
}

/// Lexicographic comparison of two string slices.
pub fn str_le(a: &str, b: &str) -> (r: bool)
    ensures
        r == name_le(a@, b@),
{
    let la = a.unicode_len();
    let lb = b.unicode_len();
    proof {
        assert(a@.skip(0) =~= a@);
        assert(b@.skip(0) =~= b@);
    }
    let mut i: usize = 0;
    loop
        invariant
            la == a@.len(),
            lb == b@.len(),
            i <= la,
            i <= lb,
            forall|j: int| 0 <= j < i ==> a@[j] == b@[j],
            name_le(a@, b@) == name_le(a@.skip(i as int), b@.skip(i as int)),
        decreases la - i,
    {
        if i == la {
            proof {
                assert(a@.skip(i as int).len() == 0);
            }
            return true;
        }
        if i == lb {
            proof {
                assert(b@.skip(i as int).len() == 0 && a@.skip(i as int).len() != 0);
            }
            return false;
        }
        let ca = a.get_char(i);
        let cb = b.get_char(i);
        proof {
            assert(a@.skip(i as int)[0] == a@[i as int]);
            assert(b@.skip(i as int)[0] == b@[i as int]);
            assert(a@.skip(i as int).drop_first() =~= a@.skip(i + 1));
            assert(b@.skip(i as int).drop_first() =~= b@.skip(i + 1));
        }
        if (ca as u32) < (cb as u32) {
            return true;
        }
        if (ca as u32) > (cb as u32) {
            return false;
        }
        proof {
            assert(ca == cb);
        }
        i = i + 1;
    }
}

/// A name list in lexicographic order.
pub open spec fn sorted_names(s: Seq<Seq<char>>) -> bool {
    forall|i: int, j: int| 0 <= i <= j < s.len() ==> name_le(s[i], s[j])
}

/// In a sorted name list, equal names stand adjacent: everything between two
/// occurrences of a name is that name.
pub proof fn lemma_sorted_equal_adjacent(s: Seq<Seq<char>>, i: int, j: int, k: int)
    requires
        sorted_names(s),
        0 <= i <= j <= k < s.len(),
        s[i] == s[k],
    ensures
        s[j] == s[i],
{
    lemma_name_le_antisymmetric(s[i], s[j]);
}

/// First position in a sorted name list where `name` may be inserted while
/// keeping the order.
fn insert_position(out: &Vec<String>, name: &String) -> (pos: usize)
    ensures
        pos <= out@.len(),
        forall|j: int| 0 <= j < pos ==> name_le(#[trigger] out.deep_view()[j], name@),
        pos < out@.len() ==> !name_le(out.deep_view()[pos as int], name@),
{
    let mut pos: usize = 0;
    while pos < out.len()
        invariant
            pos <= out@.len(),
            forall|j: int| 0 <= j < pos ==> name_le(#[trigger] out.deep_view()[j], name@),
        decreases out@.len() - pos,
    {
        if !str_le(out[pos].as_str(), name.as_str()) {
            return pos;
        }
        pos = pos + 1;
    }
    pos
}

/// Sorts a list of names lexicographically by insertion; the result is a
/// sorted permutation of the input.
pub fn sort_names(names: Vec<String>) -> (r: Vec<String>)
    ensures
        sorted_names(r.deep_view()),
        r.deep_view().to_multiset() == names.deep_view().to_multiset(),
{
    let mut out: Vec<String> = Vec::new();
    proof {
        assert(out.deep_view() =~= Seq::<Seq<char>>::empty());
        assert(names.deep_view().take(0) =~= Seq::<Seq<char>>::empty());
    }
    let mut i: usize = 0;
    while i < names.len()
        invariant
            i <= names@.len(),
            sorted_names(out.deep_view()),
            out.deep_view().to_multiset() == names.deep_view().take(i as int).to_multiset(),
        decreases names@.len() - i,
    {
        let name = names[i].clone();
        let pos = insert_position(&out, &name);
        proof {
            if pos < out.deep_view().len() {
                lemma_name_le_total(out.deep_view()[pos as int], name@);
                assert(name_le(name@, out.deep_view()[pos as int]));
            }
            assert forall|j: int| pos <= j < out.deep_view().len() implies name_le(
                name@,
                #[trigger] out.deep_view()[j],
            ) by {
                lemma_name_le_transitive(name@, out.deep_view()[pos as int], out.deep_view()[j]);
            }
        }
        let ghost old_out = out.deep_view();
        let ghost name_view = name@;
        out.insert(pos, name);
        proof {
            assert(out.deep_view() =~= old_out.insert(pos as int, name_view));
            assert forall|p: int, q: int|
                0 <= p <= q < out.deep_view().len() implies name_le(
                #[trigger] out.deep_view()[p],
                #[trigger] out.deep_view()[q],
            ) by {
                let s = out.deep_view();
                if p == q {
                    lemma_name_le_total(s[p], s[p]);
                }
            }
            to_multiset_insert(old_out, pos as int, name_view);
            assert(out.deep_view().to_multiset() == old_out.to_multiset().insert(name_view));
            assert(names.deep_view().take(i + 1) =~= names.deep_view().take(i as int).push(
                names.deep_view()[i as int],
            ));
            to_multiset_build(names.deep_view().take(i as int), names.deep_view()[i as int]);
        }
        i = i + 1;
    }
    proof {
        assert(names.deep_view().take(names.deep_view().len() as int) =~= names.deep_view());
    }
    out
}

} // verus!
