//! Naming and listing of on-disk configuration files.
//!
//! A configuration file for `name` under a category `prefix` lives at
//! `prefix/name.toml`; [`config_path`] builds that relative path. Listing a
//! category takes the file names found under the prefix, sorts them, and
//! strips each back to its stem; [`list_names`] is proved to return exactly
//! that, so two listings of the same files always agree, and
//! [`lemma_sort_sorted`] proves the order is sorted.

use vstd::prelude::*;
use vstd::multiset::Multiset;

verus! {

/// The relative path of the configuration file for `name` under `prefix`.
pub fn config_path(prefix: &str, name: &str) -> (r: String)
    ensures
        r@ == prefix@ + "/"@ + name@ + ".toml"@,
{
    let mut p = prefix.to_owned();
    p.append("/");
    p.append(name);
    p.append(".toml");
    proof {
        assert(p@ =~= prefix@ + "/"@ + name@ + ".toml"@);
    }
    p
}

/// Lexicographic order on strings, by character code.
pub open spec fn lex_le(a: Seq<char>, b: Seq<char>) -> bool
    decreases a.len(),
{
    if a.len() == 0 {
        true
    } else if b.len() == 0 {
        false
    } else if (a[0] as u32) < (b[0] as u32) {
        true
    } else if (a[0] as u32) > (b[0] as u32) {
        false
    } else {
        lex_le(a.drop_first(), b.drop_first())
    }
}

/// Any two strings are ordered one way or the other.
proof fn lemma_lex_total(a: Seq<char>, b: Seq<char>)
    ensures
        lex_le(a, b) || lex_le(b, a),
    decreases a.len(),
{
    if a.len() > 0 && b.len() > 0 && a[0] as u32 == b[0] as u32 {
        lemma_lex_total(a.drop_first(), b.drop_first());
    }
}

/// The order is transitive.
proof fn lemma_lex_trans(a: Seq<char>, b: Seq<char>, c: Seq<char>)
    requires
        lex_le(a, b),
        lex_le(b, c),
    ensures
        lex_le(a, c),
    decreases a.len(),
{
    if a.len() > 0 && b.len() > 0 && c.len() > 0 && a[0] as u32 == b[0] as u32 && b[0] as u32
        == c[0] as u32 {
        lemma_lex_trans(a.drop_first(), b.drop_first(), c.drop_first());
    }
}

/// `x` inserted into a sorted list, before the first element it precedes.
pub open spec fn spec_insert(sorted: Seq<Seq<char>>, x: Seq<char>) -> Seq<Seq<char>>
    decreases sorted.len(),
{
    if sorted.len() == 0 {
        seq![x]
    } else if lex_le(x, sorted[0]) {
        seq![x] + sorted
    } else {
        seq![sorted[0]] + spec_insert(sorted.drop_first(), x)
    }
}

/// The list sorted by insertion.
pub open spec fn spec_sort(ss: Seq<Seq<char>>) -> Seq<Seq<char>>
    decreases ss.len(),
{
    if ss.len() == 0 {
        ss
    } else {
        spec_insert(spec_sort(ss.drop_last()), ss.last())
    }
}

/// Every neighbouring pair is in order.
pub open spec fn spec_sorted(ss: Seq<Seq<char>>) -> bool {
    forall|i: int, j: int| 0 <= i < j < ss.len() ==> lex_le(ss[i], ss[j])
}

/// Inserting adds one element: each element of the result is `x` or one of
/// the original elements.
proof fn lemma_insert_elems(sorted: Seq<Seq<char>>, x: Seq<char>)
    ensures
        spec_insert(sorted, x).len() == sorted.len() + 1,
        forall|k: int|
            0 <= k < spec_insert(sorted, x).len() ==> (#[trigger] spec_insert(sorted, x)[k]) == x
                || sorted.contains(spec_insert(sorted, x)[k]),
    decreases sorted.len(),
{
    if sorted.len() > 0 && !lex_le(x, sorted[0]) {
        lemma_insert_elems(sorted.drop_first(), x);
        let r = spec_insert(sorted, x);
        let rest = spec_insert(sorted.drop_first(), x);
        assert forall|k: int| 0 <= k < r.len() implies (#[trigger] r[k]) == x || sorted.contains(
            r[k],
        ) by {
            if k == 0 {
                assert(sorted[0] == r[0]);
            } else {
                assert(r[k] == rest[k - 1]);
                if rest[k - 1] != x {
                    let j = choose|j: int|
                        0 <= j < sorted.drop_first().len() && sorted.drop_first()[j] == rest[k
                            - 1];
                    assert(sorted[j + 1] == rest[k - 1]);
                }
            }
        }
    }
}

/// Inserting into a sorted list keeps it sorted.
proof fn lemma_insert_sorted(sorted: Seq<Seq<char>>, x: Seq<char>)
    requires
        spec_sorted(sorted),
    ensures
        spec_sorted(spec_insert(sorted, x)),
    decreases sorted.len(),
{
    let r = spec_insert(sorted, x);
    if sorted.len() == 0 {
    } else if lex_le(x, sorted[0]) {
        assert forall|i: int, j: int| 0 <= i < j < r.len() implies lex_le(r[i], r[j]) by {
            if i == 0 {
                if j > 1 {
                    lemma_lex_trans(x, sorted[0], sorted[j - 1]);
                }
            } else {
                assert(r[i] == sorted[i - 1] && r[j] == sorted[j - 1]);
            }
        }
    } else {
        lemma_lex_total(x, sorted[0]);
        assert forall|i: int, j: int|
            0 <= i < j < sorted.drop_first().len() implies lex_le(
            sorted.drop_first()[i],
            sorted.drop_first()[j],
        ) by {
            assert(sorted.drop_first()[i] == sorted[i + 1]);
            assert(sorted.drop_first()[j] == sorted[j + 1]);
        }
        lemma_insert_sorted(sorted.drop_first(), x);
        lemma_insert_elems(sorted.drop_first(), x);
        let rest = spec_insert(sorted.drop_first(), x);
        assert forall|i: int, j: int| 0 <= i < j < r.len() implies lex_le(r[i], r[j]) by {
            if i == 0 {
                assert(r[j] == rest[j - 1]);
                if rest[j - 1] == x {
                    assert(lex_le(sorted[0], x));
                } else {
                    let k = choose|k: int|
                        0 <= k < sorted.drop_first().len() && sorted.drop_first()[k] == rest[j
                            - 1];
                    assert(sorted[k + 1] == rest[j - 1]);
                    assert(lex_le(sorted[0], sorted[k + 1]));
                }
            } else {
                assert(r[i] == rest[i - 1] && r[j] == rest[j - 1]);
            }
        }
    }
}

/// The sorted list is sorted: what `list_names` hands out keeps one fixed
/// order, so listing twice without a change of the files yields the same
/// names in the same order.
pub proof fn lemma_sort_sorted(ss: Seq<Seq<char>>)
    ensures
        spec_sorted(spec_sort(ss)),
    decreases ss.len(),
{
    if ss.len() > 0 {
        lemma_sort_sorted(ss.drop_last());
        lemma_insert_sorted(spec_sort(ss.drop_last()), ss.last());
    }
}

/// Sorting neither adds nor drops a name: the sorted list is a permutation
/// of the input.
pub proof fn lemma_sort_permutes(ss: Seq<Seq<char>>)
    ensures
        spec_sort(ss).to_multiset() == ss.to_multiset(),
    decreases ss.len(),
{
    broadcast use vstd::seq_lib::lemma_multiset_commutative;
    broadcast use vstd::seq_lib::to_multiset_build;

    if ss.len() > 0 {
        lemma_sort_permutes(ss.drop_last());
        lemma_insert_multiset(spec_sort(ss.drop_last()), ss.last());
        assert(ss =~= ss.drop_last().push(ss.last()));
        assert(ss.to_multiset() =~= ss.drop_last().to_multiset().insert(ss.last()));
    }
}

/// The empty list's multiset is empty.
proof fn lemma_empty_to_multiset()
    ensures
        Seq::<Seq<char>>::empty().to_multiset() =~= Multiset::<Seq<char>>::empty(),
{
    broadcast use vstd::seq_lib::group_to_multiset_ensures;

    let e = Seq::<Seq<char>>::empty();
    assert forall|a: Seq<char>| e.to_multiset().count(a) == 0 by {
        assert(!e.contains(a));
    }
}

/// Inserting puts exactly one more copy of `x` into the list.
proof fn lemma_insert_multiset(sorted: Seq<Seq<char>>, x: Seq<char>)
    ensures
        spec_insert(sorted, x).to_multiset() == sorted.to_multiset().insert(x),
    decreases sorted.len(),
{
    broadcast use vstd::seq_lib::lemma_multiset_commutative;
    broadcast use vstd::seq_lib::group_to_multiset_ensures;

    lemma_empty_to_multiset();
    if sorted.len() == 0 {
        assert(seq![x] =~= sorted.push(x));
        assert(sorted.push(x).to_multiset() =~= sorted.to_multiset().insert(x));
    } else if lex_le(x, sorted[0]) {
        assert(seq![x] =~= Seq::<Seq<char>>::empty().push(x));
        assert(seq![x].to_multiset() =~= Multiset::<Seq<char>>::empty().insert(x));
        assert((seq![x] + sorted).to_multiset() =~= sorted.to_multiset().insert(x));
    } else {
        lemma_insert_multiset(sorted.drop_first(), x);
        assert(seq![sorted[0]] =~= Seq::<Seq<char>>::empty().push(sorted[0]));
        assert(seq![sorted[0]].to_multiset() =~= Multiset::<Seq<char>>::empty().insert(
            sorted[0],
        ));
        assert(sorted =~= seq![sorted[0]] + sorted.drop_first());
        assert((seq![sorted[0]] + spec_insert(sorted.drop_first(), x)).to_multiset()
            =~= sorted.to_multiset().insert(x));
    }
}

/// The index of the last `.` in a file name; `-1` when there is none.
pub open spec fn spec_last_dot(s: Seq<char>) -> int
    decreases s.len(),
{
    if s.len() == 0 {
        -1
    } else if s[s.len() - 1] == '.' {
        s.len() - 1
    } else {
        spec_last_dot(s.drop_last())
    }
}

/// A file name's stem: everything before the last `.`, unless the dot starts
/// the name (a hidden file keeps its full name).
pub open spec fn spec_stem(s: Seq<char>) -> Seq<char> {
    let d = spec_last_dot(s);
    if d > 0 {
        s.subrange(0, d)
    } else {
        s
    }
}

/// The names a listing returns: the file names sorted, each stripped to its
/// stem.
pub open spec fn spec_list_names(files: Seq<Seq<char>>) -> Seq<Seq<char>> {
    Seq::new(spec_sort(files).len(), |i: int| spec_stem(spec_sort(files)[i]))
}

/// Compares two strings in the lexicographic order.
fn lex_le_exec(a: &String, b: &String) -> (r: bool)
    ensures
        r == lex_le(a@, b@),
{
    let astr = a.as_str();
    let bstr = b.as_str();
    let alen = astr.unicode_len();
    let blen = bstr.unicode_len();
    proof {
        assert(a@.skip(0) =~= a@);
        assert(b@.skip(0) =~= b@);
    }
    let mut i: usize = 0;
    loop
        invariant
            0 <= i <= alen,
            i <= blen,
            alen == a@.len(),
            blen == b@.len(),
            a@ == astr@,
            b@ == bstr@,
            lex_le(a@, b@) == lex_le(a@.skip(i as int), b@.skip(i as int)),
        decreases alen - i,
    {
        if i >= alen {
            return true;
        }
        if i >= blen {
            return false;
        }
        let ca = astr.get_char(i);
        let cb = bstr.get_char(i);
        if (ca as u32) < (cb as u32) {
            return true;
        }
        if (ca as u32) > (cb as u32) {
            return false;
        }
        proof {
            assert(a@.skip(i as int).drop_first() =~= a@.skip(i + 1));
            assert(b@.skip(i as int).drop_first() =~= b@.skip(i + 1));
        }
        i = i + 1;
    }
}

/// `spec_insert` places `x` at the first position whose element it precedes.
proof fn lemma_spec_insert_at(sorted: Seq<Seq<char>>, x: Seq<char>, k: int)
    requires
        0 <= k <= sorted.len(),
        forall|j: int| 0 <= j < k ==> !lex_le(x, #[trigger] sorted[j]),
        k < sorted.len() ==> lex_le(x, sorted[k]),
    ensures
        spec_insert(sorted, x) == sorted.subrange(0, k) + seq![x] + sorted.subrange(
            k,
            sorted.len() as int,
        ),
    decreases k,
{
    if k == 0 {
        assert(spec_insert(sorted, x) =~= sorted.subrange(0, 0) + seq![x] + sorted.subrange(
            0,
            sorted.len() as int,
        ));
    } else {
        let rest = sorted.drop_first();
        assert forall|j: int| 0 <= j < k - 1 implies !lex_le(x, #[trigger] rest[j]) by {
            assert(rest[j] == sorted[j + 1]);
        }
        assert(k - 1 < rest.len() ==> lex_le(x, rest[k - 1]));
        lemma_spec_insert_at(rest, x, k - 1);
        assert(spec_insert(sorted, x) =~= sorted.subrange(0, k) + seq![x] + sorted.subrange(
            k,
            sorted.len() as int,
        ));
    }
}

/// Inserts `x` into a sorted vector, keeping the order.
fn insert_sorted(sorted: &mut Vec<String>, x: String)
    ensures
        final(sorted).deep_view() == spec_insert(old(sorted).deep_view(), x@),
{
    let ghost s0 = old(sorted).deep_view();
    let mut k: usize = 0;
    loop
        invariant
            *sorted == *old(sorted),
            s0 == old(sorted).deep_view(),
            0 <= k <= sorted.len(),
            sorted.len() == s0.len(),
            forall|j: int| 0 <= j < k ==> !lex_le(x@, #[trigger] s0[j]),
        ensures
            *sorted == *old(sorted),
            0 <= k <= sorted.len(),
            forall|j: int| 0 <= j < k ==> !lex_le(x@, #[trigger] s0[j]),
            k < s0.len() ==> lex_le(x@, s0[k as int]),
        decreases sorted.len() - k,
    {
        if k >= sorted.len() {
            break;
        }
        if lex_le_exec(&x, &sorted[k]) {
            break;
        }
        k = k + 1;
    }
    proof {
        lemma_spec_insert_at(s0, x@, k as int);
    }
    sorted.insert(k, x);
    proof {
        assert(sorted.deep_view() =~= s0.subrange(0, k as int) + seq![x@] + s0.subrange(
            k as int,
            s0.len() as int,
        ));
    }
}

/// Sorts file names into the lexicographic order.
fn sort_names(files: &Vec<String>) -> (r: Vec<String>)
    ensures
        r.deep_view() == spec_sort(files.deep_view()),
{
    let ghost fs = files.deep_view();
    let mut out: Vec<String> = Vec::new();
    let mut i: usize = 0;
    while i < files.len()
        invariant
            0 <= i <= files.len(),
            fs == files.deep_view(),
            fs.len() == files.len(),
            out.deep_view() == spec_sort(fs.take(i as int)),
        decreases files.len() - i,
    {
        insert_sorted(&mut out, files[i].clone());
        proof {
            assert(fs.take(i + 1).drop_last() =~= fs.take(i as int));
            assert(fs.take(i + 1).last() == fs[i as int]);
        }
        i = i + 1;
    }
    proof {
        assert(fs.take(fs.len() as int) =~= fs);
    }
    out
}

/// A file name's stem.
fn stem(name: &String) -> (r: String)
    ensures
        r@ == spec_stem(name@),
{
    let s = name.as_str();
    let len = s.unicode_len();
    proof {
        assert(name@.subrange(0, name@.len() as int) =~= name@);
    }
    let mut i: usize = len;
    loop
        invariant
            0 <= i <= len,
            len == s@.len(),
            s@ == name@,
            spec_last_dot(name@) == spec_last_dot(name@.subrange(0, i as int)),
        ensures
            0 <= i <= len,
            spec_last_dot(name@) == if i > 0 {
                i - 1
            } else {
                -1int
            },
            i > 0 ==> name@[i - 1] == '.',
        decreases i,
    {
        if i == 0 {
            proof {
                assert(name@.subrange(0, 0) =~= Seq::<char>::empty());
            }
            break;
        }
        let c = s.get_char(i - 1);
        proof {
            let cur = name@.subrange(0, i as int);
            assert(cur[cur.len() - 1] == name@[i - 1]);
            assert(cur.drop_last() =~= name@.subrange(0, i - 1));
        }
        if c == '.' {
            break;
        }
        i = i - 1;
    }
    if i > 1 {
        s.substring_char(0, i - 1).to_owned()
    } else {
        proof {
            assert(spec_stem(name@) == name@);
        }
        name.clone()
    }
}

/// The configuration names under a category: the file names found there,
/// sorted, each stripped to its stem. The same files always yield the same
/// list, in the same order.
pub fn list_names(files: &Vec<String>) -> (r: Vec<String>)
    ensures
        r.deep_view() == spec_list_names(files.deep_view()),
{
    let sorted = sort_names(files);
    let mut out: Vec<String> = Vec::new();
    let mut i: usize = 0;
    while i < sorted.len()
        invariant
            0 <= i <= sorted.len(),
            sorted.deep_view() == spec_sort(files.deep_view()),
            sorted.deep_view().len() == sorted.len(),
            out.len() == i,
            forall|k: int|
                0 <= k < i ==> out.deep_view()[k] == spec_stem(
                    #[trigger] spec_sort(files.deep_view())[k],
                ),
        decreases sorted.len() - i,
    {
        out.push(stem(&sorted[i]));
        i = i + 1;
    }
    proof {
        assert(out.deep_view() =~= spec_list_names(files.deep_view()));
    }
    out
}

} // verus!
