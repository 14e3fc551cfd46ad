//! The order a mod list is printed in: alphabetical by title, ignoring
//! case, then by id, with mods that compare equal kept in the order they
//! came.

use vstd::prelude::*;
use vstd::seq_lib::*;

use crate::app::mods_view;
use crate::request::{Mod, ModView};
use crate::text::{ascii_lowercase, is_ascii_text, lowercase, seq_lt, str_eq, str_lt, to_lowercase};

verus! {

/// `a` sorts strictly before `b`: by lowercased title, then by id.
pub open spec fn mod_lt(a: ModView, b: ModView) -> bool {
    seq_lt(lowercase(a.title), lowercase(b.title)) || (lowercase(a.title) == lowercase(b.title)
        && seq_lt(a.id, b.id))
}

/// `a` sorts strictly before `b` by its title with `A` to `Z` lowered, then
/// by id.
pub open spec fn ascii_mod_lt(a: ModView, b: ModView) -> bool {
    seq_lt(ascii_lowercase(a.title), ascii_lowercase(b.title)) || (ascii_lowercase(a.title)
        == ascii_lowercase(b.title) && seq_lt(a.id, b.id))
}

/// Of two mods with ASCII titles, the later never sorts before the earlier
/// by title, ignoring case, then by id.
pub open spec fn ascii_titles_in_order(s: Seq<ModView>) -> bool {
    forall|i: int, j: int|
        #![trigger s[i], s[j]]
        0 <= i < j < s.len() && is_ascii_text(s[i].title) && is_ascii_text(s[j].title) ==> !ascii_mod_lt(
            s[j],
            s[i],
        )
}

/// Lowercasing the title of `m`, when it is ASCII, lowers `A` to `Z` only.
spec fn title_lowered_as_ascii(m: ModView) -> bool {
    is_ascii_text(m.title) ==> lowercase(m.title) == ascii_lowercase(m.title)
}

/// `x` inserted into `s` before the first element it sorts strictly before
/// (at the end when there is none).
pub open spec fn insert_sorted(s: Seq<ModView>, x: ModView) -> Seq<ModView>
    decreases s.len(),
{
    if s.len() == 0 {
        seq![x]
    } else if mod_lt(x, s[0]) {
        seq![x] + s
    } else {
        seq![s[0]] + insert_sorted(s.drop_first(), x)
    }
}

/// The stable sort of `s` by [`mod_lt`]: each element inserted in turn
/// after everything that does not sort after it.
pub open spec fn sort_mods_spec(s: Seq<ModView>) -> Seq<ModView>
    decreases s.len(),
{
    if s.len() == 0 {
        s
    } else {
        insert_sorted(sort_mods_spec(s.drop_last()), s.last())
    }
}

/// No element sorts strictly before one that comes earlier.
pub open spec fn is_sorted(s: Seq<ModView>) -> bool {
    forall|i: int, j: int| 0 <= i < j < s.len() ==> !mod_lt(s[j], s[i])
}

/// No string sorts before itself.
pub proof fn lemma_seq_lt_irreflexive(a: Seq<char>)
    ensures
        !seq_lt(a, a),
    decreases a.len(),
{
    if a.len() > 0 {
        lemma_seq_lt_irreflexive(a.drop_first());
    }
}

/// The order on strings is transitive.
pub proof fn lemma_seq_lt_transitive(a: Seq<char>, b: Seq<char>, c: Seq<char>)
    requires
        seq_lt(a, b),
        seq_lt(b, c),
    ensures
        seq_lt(a, c),
    decreases a.len(),
{
    if a.len() > 0 && b.len() > 0 && c.len() > 0 && a[0] == b[0] && b[0] == c[0] {
        lemma_seq_lt_transitive(a.drop_first(), b.drop_first(), c.drop_first());
    }
}

/// Of two different strings, one sorts before the other.
pub proof fn lemma_seq_lt_total(a: Seq<char>, b: Seq<char>)
    requires
        a != b,
    ensures
        seq_lt(a, b) || seq_lt(b, a),
    decreases a.len(),
{
    if a.len() > 0 && b.len() > 0 && a[0] == b[0] {
        if a.drop_first() == b.drop_first() {
            assert(a =~= seq![a[0]] + a.drop_first());
            assert(b =~= seq![b[0]] + b.drop_first());
        }
        lemma_seq_lt_total(a.drop_first(), b.drop_first());
    }
    if a.len() == 0 && b.len() == 0 {
        assert(a =~= b);
    }
    if a.len() > 0 && b.len() > 0 && a[0] != b[0] {
        assert((a[0] as int) != (b[0] as int));
    }
}

/// The order on mods is transitive.
pub proof fn lemma_mod_lt_transitive(a: ModView, b: ModView, c: ModView)
    requires
        mod_lt(a, b),
        mod_lt(b, c),
    ensures
        mod_lt(a, c),
{
    let (la, lb, lc) = (lowercase(a.title), lowercase(b.title), lowercase(c.title));
    if seq_lt(la, lb) && seq_lt(lb, lc) {
        lemma_seq_lt_transitive(la, lb, lc);
    } else if la == lb && lb == lc {
        lemma_seq_lt_transitive(a.id, b.id, c.id);
    }
}

/// The id breaks ties between equal titles: of two mods that differ in
/// lowercased title or in id, one sorts before the other, so the order of
/// the list does not depend on the order the mods came in.
pub proof fn lemma_mod_lt_total(a: ModView, b: ModView)
    requires
        lowercase(a.title) != lowercase(b.title) || a.id != b.id,
    ensures
        mod_lt(a, b) || mod_lt(b, a),
{
    if lowercase(a.title) != lowercase(b.title) {
        lemma_seq_lt_total(lowercase(a.title), lowercase(b.title));
    } else {
        lemma_seq_lt_total(a.id, b.id);
    }
}

/// No mod sorts before itself.
pub proof fn lemma_mod_lt_irreflexive(a: ModView)
    ensures
        !mod_lt(a, a),
{
    lemma_seq_lt_irreflexive(lowercase(a.title));
    lemma_seq_lt_irreflexive(a.id);
}

/// [`insert_sorted`] places `x` at the first position whose element it sorts
/// strictly before.
pub proof fn lemma_insert_sorted_at(s: Seq<ModView>, x: ModView, p: int)
    requires
        0 <= p <= s.len(),
        forall|k: int| 0 <= k < p ==> !mod_lt(x, #[trigger] s[k]),
        p < s.len() ==> mod_lt(x, s[p]),
    ensures
        insert_sorted(s, x) == s.insert(p, x),
    decreases s.len(),
{
    if s.len() == 0 {
        assert(s.insert(p, x) =~= seq![x]);
    } else if p == 0 {
        assert(s.insert(p, x) =~= seq![x] + s);
    } else {
        let t = s.drop_first();
        assert forall|k: int| 0 <= k < p - 1 implies !mod_lt(x, #[trigger] t[k]) by {
            assert(t[k] == s[k + 1]);
        }
        lemma_insert_sorted_at(t, x, p - 1);
        assert(s.insert(p, x) =~= seq![s[0]] + t.insert(p - 1, x));
    }
}

/// Inserting into a sorted list keeps it sorted, and adds exactly `x`.
pub proof fn lemma_insert_sorted_sorted(s: Seq<ModView>, x: ModView)
    requires
        is_sorted(s),
    ensures
        is_sorted(insert_sorted(s, x)),
        insert_sorted(s, x).to_multiset() == s.to_multiset().insert(x),
    decreases s.len(),
{
    broadcast use group_to_multiset_ensures;

    let r = insert_sorted(s, x);
    if s.len() == 0 {
        assert(r =~= Seq::<ModView>::empty().push(x));
    } else if mod_lt(x, s[0]) {
        assert(r =~= s.insert(0, x));
        assert forall|i: int, j: int| 0 <= i < j < r.len() implies !mod_lt(r[j], r[i]) by {
            if i == 0 {
                assert(r[j] == s[j - 1]);
                if mod_lt(s[j - 1], x) {
                    lemma_mod_lt_transitive(s[j - 1], x, s[0]);
                    lemma_mod_lt_irreflexive(s[0]);
                }
            } else {
                assert(r[i] == s[i - 1]);
                assert(r[j] == s[j - 1]);
            }
        }
    } else {
        let t = s.drop_first();
        assert(is_sorted(t)) by {
            assert forall|i: int, j: int| 0 <= i < j < t.len() implies !mod_lt(t[j], t[i]) by {
                assert(t[i] == s[i + 1]);
                assert(t[j] == s[j + 1]);
            }
        }
        lemma_insert_sorted_sorted(t, x);
        let u = insert_sorted(t, x);
        assert(r =~= u.insert(0, s[0]));
        assert(s =~= t.insert(0, s[0]));
        assert(r.to_multiset() =~= s.to_multiset().insert(x));
        assert forall|i: int, j: int| 0 <= i < j < r.len() implies !mod_lt(r[j], r[i]) by {
            if i == 0 {
                assert(r[j] == u[j - 1]);
                assert(u.to_multiset().contains(u[j - 1]));
                if u[j - 1] != x {
                    assert(t.contains(u[j - 1]));
                    let k = choose|k: int| 0 <= k < t.len() && t[k] == u[j - 1];
                    assert(s[k + 1] == t[k]);
                }
            } else {
                assert(r[i] == u[i - 1]);
                assert(r[j] == u[j - 1]);
            }
        }
    }
}

/// Sorting orders the list.
pub proof fn lemma_sort_mods_sorted(s: Seq<ModView>)
    ensures
        is_sorted(sort_mods_spec(s)),
        sort_mods_spec(s).to_multiset() == s.to_multiset(),
    decreases s.len(),
{
    broadcast use group_to_multiset_ensures;

    if s.len() > 0 {
        lemma_sort_mods_sorted(s.drop_last());
        lemma_insert_sorted_sorted(sort_mods_spec(s.drop_last()), s.last());
        assert(s.drop_last().push(s.last()) =~= s);
    }
}

/// Whether `a` sorts strictly before `b`.
pub fn mod_lt_exec(a: &Mod, b: &Mod) -> (r: bool)
    ensures
        r == mod_lt(a@, b@),
{
    let la = to_lowercase(a.title.as_str());
    let lb = to_lowercase(b.title.as_str());
    if str_lt(la.as_str(), lb.as_str()) {
        true
    } else if str_eq(la.as_str(), lb.as_str()) {
        str_lt(a.id.as_str(), b.id.as_str())
    } else {
        false
    }
}

/// Whether `a`, whose lowercased title is `la`, sorts strictly before `b`.
fn mod_lt_keyed(a: &Mod, la: &str, b: &Mod) -> (r: bool)
    requires
        la@ == lowercase(a@.title),
    ensures
        r == mod_lt(a@, b@),
{
    let lb = to_lowercase(b.title.as_str());
    if str_lt(la, lb.as_str()) {
        true
    } else if str_eq(la, lb.as_str()) {
        str_lt(a.id.as_str(), b.id.as_str())
    } else {
        false
    }
}

/// The mods sorted alphabetically by title, ignoring case, then by id;
/// mods that compare equal keep their order. Among ASCII titles that means
/// `A` to `Z` compare as `a` to `z`, character by character.
pub fn sort_mods(mods: Vec<Mod>) -> (r: Vec<Mod>)
    ensures
        mods_view(r@) == sort_mods_spec(mods_view(mods@)),
        ascii_titles_in_order(mods_view(r@)),
{
    let ghost input = mods_view(mods@);
    let mut out: Vec<Mod> = Vec::new();
    let mut i: usize = 0;
    assert(input.take(0) =~= Seq::<ModView>::empty());
    assert(mods_view(out@) =~= Seq::<ModView>::empty());
    while i < mods.len()
        invariant
            i <= mods@.len(),
            input == mods_view(mods@),
            mods_view(out@) == sort_mods_spec(input.take(i as int)),
            forall|k: int| 0 <= k < i ==> title_lowered_as_ascii(#[trigger] input[k]),
        decreases mods.len() - i,
    {
        let x = &mods[i];
        let xk = to_lowercase(x.title.as_str());
        assert(input[i as int] == x@);
        let ghost s = mods_view(out@);
        let mut p: usize = 0;
        while p < out.len() && !mod_lt_keyed(x, xk.as_str(), &out[p])
            invariant
                p <= out@.len(),
                s == mods_view(out@),
                xk@ == lowercase(x@.title),
                forall|k: int| 0 <= k < p ==> !mod_lt(x@, #[trigger] s[k]),
            decreases out.len() - p,
        {
            p = p + 1;
        }
        proof {
            lemma_insert_sorted_at(s, x@, p as int);
            assert(input.take(i + 1).drop_last() =~= input.take(i as int));
            assert(input.take(i + 1).last() == x@);
        }
        out.insert(p, x.clone());
        assert(mods_view(out@) =~= s.insert(p as int, x@));
        i = i + 1;
    }
    assert(input.take(mods.len() as int) =~= input);
    proof {
        broadcast use group_to_multiset_ensures;

        let res = mods_view(out@);
        lemma_sort_mods_sorted(input);
        assert forall|j: int| 0 <= j < res.len() implies title_lowered_as_ascii(#[trigger] res[j]) by {
            assert(res.contains(res[j]));
            assert(input.to_multiset().count(res[j]) > 0);
            let k = choose|k: int| 0 <= k < input.len() && input[k] == res[j];
        }
        assert forall|a: int, b: int|
            #![trigger res[a], res[b]]
            0 <= a < b < res.len() && is_ascii_text(res[a].title) && is_ascii_text(res[b].title) implies !ascii_mod_lt(
            res[b],
            res[a],
        ) by {
            assert(title_lowered_as_ascii(res[a]));
            assert(title_lowered_as_ascii(res[b]));
            assert(!mod_lt(res[b], res[a]));
        }
    }
    out
}

} // verus!
