//! Stable sorting by insertion, and the order of strings.
use vstd::prelude::*;
use crate::text::chars_of;

verus! {

/// Lexicographic order of character sequences by code point, which is the
/// order of `str` (the byte order of UTF-8 keeps the code point order).
pub open spec fn lex_le(a: Seq<char>, b: Seq<char>) -> bool
    decreases a.len(),
{
    if a.len() == 0 {
        true
    } else if b.len() == 0 {
        false
    } else if a[0] != b[0] {
        a[0] < b[0]
    } else {
        lex_le(a.drop_first(), b.drop_first())
    }
}

/// Where a stable insertion puts `x`: before the first element that must
/// come after it.
pub open spec fn insert_position<T>(s: Seq<T>, x: T, le: spec_fn(T, T) -> bool) -> nat
    decreases s.len(),
{
    if s.len() == 0 {
        0
    } else if !le(s[0], x) {
        0
    } else {
        1 + insert_position(s.drop_first(), x, le)
    }
}

/// Sorting by insertion: each element, in order, is inserted after every
/// element that does not come after it. Equal elements keep their order.
pub open spec fn insertion_sorted<T>(s: Seq<T>, le: spec_fn(T, T) -> bool) -> Seq<T>
    decreases s.len(),
{
    if s.len() == 0 {
        s
    } else {
        let sorted = insertion_sorted(s.drop_last(), le);
        sorted.insert(insert_position(sorted, s.last(), le) as int, s.last())
    }
}

pub open spec fn sorted_by<T>(s: Seq<T>, le: spec_fn(T, T) -> bool) -> bool {
    forall|i: int, j: int| 0 <= i < j < s.len() ==> le(#[trigger] s[i], #[trigger] s[j])
}

/// `le` is a total preorder: every two elements compare, transitively.
pub open spec fn total_preorder<T>(le: spec_fn(T, T) -> bool) -> bool {
    &&& forall|a: T, b: T| #[trigger] le(a, b) || le(b, a)
    &&& forall|a: T, b: T, c: T| #[trigger] le(a, b) && #[trigger] le(b, c) ==> le(a, c)
}

proof fn lemma_insert_position_bound<T>(s: Seq<T>, x: T, le: spec_fn(T, T) -> bool)
    ensures
        insert_position(s, x, le) <= s.len(),
        forall|i: int| 0 <= i < insert_position(s, x, le) ==> le(#[trigger] s[i], x),
        insert_position(s, x, le) < s.len() ==> !le(s[insert_position(s, x, le) as int], x),
    decreases s.len(),
{
    if s.len() > 0 && le(s[0], x) {
        lemma_insert_position_bound(s.drop_first(), x, le);
        assert forall|i: int| 0 <= i < insert_position(s, x, le) implies le(#[trigger] s[i], x) by {
            if i > 0 {
                assert(s[i] == s.drop_first()[i - 1]);
            }
        }
    }
}

/// Inserting at the stable position keeps a sorted sequence sorted.
proof fn lemma_insert_keeps_sorted<T>(s: Seq<T>, x: T, le: spec_fn(T, T) -> bool)
    requires
        total_preorder(le),
        sorted_by(s, le),
    ensures
        sorted_by(s.insert(insert_position(s, x, le) as int, x), le),
{
    lemma_insert_position_bound(s, x, le);
    let p = insert_position(s, x, le) as int;
    let t = s.insert(p, x);
    assert forall|i: int, j: int| 0 <= i < j < t.len() implies le(#[trigger] t[i], #[trigger] t[j]) by {
        if j < p {
            assert(t[i] == s[i] && t[j] == s[j]);
        } else if j == p {
            assert(t[i] == s[i]);
        } else if i == p {
            assert(t[j] == s[j - 1]);
            assert(!le(s[p], x));
            assert(le(s[p], x) || le(x, s[p]));
            if j - 1 > p {
                assert(le(s[p], s[j - 1]));
            }
        } else if i < p {
            assert(t[i] == s[i] && t[j] == s[j - 1]);
        } else {
            assert(t[i] == s[i - 1] && t[j] == s[j - 1]);
        }
    }
}

/// The law of the sort: under a total preorder, the result is sorted and
/// holds the same elements as many times as the input.
pub proof fn lemma_insertion_sorted<T>(s: Seq<T>, le: spec_fn(T, T) -> bool)
    requires
        total_preorder(le),
    ensures
        sorted_by(insertion_sorted(s, le), le),
        insertion_sorted(s, le).to_multiset() == s.to_multiset(),
    decreases s.len(),
{
    broadcast use vstd::seq_lib::group_to_multiset_ensures;
    if s.len() > 0 {
        let prev = insertion_sorted(s.drop_last(), le);
        lemma_insertion_sorted(s.drop_last(), le);
        lemma_insert_keeps_sorted(prev, s.last(), le);
        lemma_insert_position_bound(prev, s.last(), le);
        let p = insert_position(prev, s.last(), le) as int;
        vstd::seq_lib::to_multiset_insert(prev, p, s.last());
        vstd::seq_lib::to_multiset_build(s.drop_last(), s.last());
        assert(s.drop_last().push(s.last()) =~= s);
    }
}

/// Whether `a` comes no later than `b` in the order of strings.
pub fn str_le(a: &str, b: &str) -> (r: bool)
    ensures
        r == lex_le(a@, b@),
{
    let va = chars_of(a);
    let vb = chars_of(b);
    let mut i: usize = 0;
    proof {
        assert(va@.skip(0) =~= va@);
        assert(vb@.skip(0) =~= vb@);
    }
    while i < va.len() && i < vb.len() && va[i] == vb[i]
        invariant
            i <= va.len(),
            i <= vb.len(),
            lex_le(va@.skip(i as int), vb@.skip(i as int)) == lex_le(va@, vb@),
        decreases va.len() - i,
    {
        proof {
            assert(va@.skip(i as int).drop_first() =~= va@.skip(i + 1));
            assert(vb@.skip(i as int).drop_first() =~= vb@.skip(i + 1));
        }
        i = i + 1;
    }
    if i == va.len() {
        true
    } else if i == vb.len() {
        false
    } else {
        va[i] < vb[i]
    }
}

pub open spec fn lex_order() -> spec_fn(Seq<char>, Seq<char>) -> bool {
    |a: Seq<char>, b: Seq<char>| lex_le(a, b)
}

/// Strings as character sequences.
pub open spec fn strings_view(v: Seq<String>) -> Seq<Seq<char>> {
    v.map_values(|s: String| s@)
}

/// Strings in ascending order (as `slice::sort` on strings orders them).
pub fn sort_strings(v: Vec<String>) -> (r: Vec<String>)
    ensures
        strings_view(r@) == insertion_sorted(strings_view(v@), lex_order()),
{
    let mut r: Vec<String> = Vec::new();
    let mut rest = v;
    let ghost all = strings_view(rest@);
    let n = rest.len();
    let mut i: usize = 0;
    proof {
        assert(all.skip(0) =~= all);
        assert(all.take(0) =~= Seq::<Seq<char>>::empty());
        assert(strings_view(r@) =~= Seq::<Seq<char>>::empty());
    }
    while i < n
        invariant
            n == all.len(),
            i <= n,
            strings_view(rest@) == all.skip(i as int),
            rest.len() == n - i,
            strings_view(r@) == insertion_sorted(all.take(i as int), lex_order()),
        decreases n - i,
    {
        let ghost before_rest = rest@;
        proof {
            assert(strings_view(rest@)[0] == rest@[0]@);
        }
        let x = rest.remove(0);
        proof {
            assert(strings_view(before_rest)[0] == x@);
            assert(x@ == all[i as int]);
            assert(strings_view(rest@) =~= strings_view(before_rest).drop_first());
            assert(strings_view(rest@) =~= all.skip(i + 1));
            assert(all.take(i + 1).drop_last() =~= all.take(i as int));
            assert(all.take(i + 1).last() == x@);
        }
        let mut p: usize = 0;
        let ghost sorted = strings_view(r@);
        proof {
            assert(sorted.skip(0) =~= sorted);
        }
        while p < r.len() && str_le(r[p].as_str(), x.as_str())
            invariant
                strings_view(r@) == sorted,
                p <= r.len(),
                insert_position(sorted.skip(p as int), x@, lex_order()) + p == insert_position(sorted, x@, lex_order()),
            decreases r.len() - p,
        {
            proof {
                assert(sorted[p as int] == r@[p as int]@);
                assert(sorted.skip(p as int)[0] == sorted[p as int]);
                assert(sorted.skip(p as int).drop_first() =~= sorted.skip(p + 1));
            }
            p = p + 1;
        }
        proof {
            if p < r.len() {
                assert(sorted[p as int] == r@[p as int]@);
                assert(sorted.skip(p as int)[0] == sorted[p as int]);
            }
        }
        let ghost before = r@;
        r.insert(p, x);
        proof {
            assert(strings_view(r@) =~= strings_view(before).insert(p as int, x@));
        }
        i = i + 1;
    }
    proof {
        assert(all.take(n as int) =~= all);
    }
    r
}

proof fn lemma_lex_total(a: Seq<char>, b: Seq<char>)
    ensures
        lex_le(a, b) || lex_le(b, a),
    decreases a.len(),
{
    if a.len() > 0 && b.len() > 0 && a[0] == b[0] {
        lemma_lex_total(a.drop_first(), b.drop_first());
    }
}

proof fn lemma_lex_transitive(a: Seq<char>, b: Seq<char>, c: Seq<char>)
    requires
        lex_le(a, b),
        lex_le(b, c),
    ensures
        lex_le(a, c),
    decreases a.len(),
{
    if a.len() > 0 && b.len() > 0 && c.len() > 0 && a[0] == b[0] && b[0] == c[0] {
        lemma_lex_transitive(a.drop_first(), b.drop_first(), c.drop_first());
    }
}

/// The order of strings is a total preorder, so the string sort returns
/// its input sorted, with every string kept.
pub proof fn lemma_string_order()
    ensures
        total_preorder(lex_order()),
{
    assert forall|a: Seq<char>, b: Seq<char>| #[trigger] lex_order()(a, b) || lex_order()(b, a) by {
        lemma_lex_total(a, b);
    }
    assert forall|a: Seq<char>, b: Seq<char>, c: Seq<char>|
        #[trigger] lex_order()(a, b) && #[trigger] lex_order()(b, c) implies lex_order()(a, c) by {
        lemma_lex_transitive(a, b, c);
    }
}

} // verus!
