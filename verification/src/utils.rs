use vstd::prelude::*;

verus! {

/// What `std::path::Path::file_name` gives for the path `path`, as text: the
/// final component, or none (for a path that ends in `..`, or the root).
pub uninterp spec fn file_name_of(path: Seq<char>) -> Option<Seq<char>>;

/// What `std::path::Path::parent` gives for the path `path`, as text.
pub uninterp spec fn parent_of(path: Seq<char>) -> Option<Seq<char>>;

/// `std::path::Path::file_name` of the path `path`, converted to a `String`.
/// Claimed: the result is the name `file_name_of` applied to the path's text.
/// A file name taken from a `String` is valid UTF-8, so the lossy conversion
/// keeps it as it is.
#[verifier::external_body]
pub(crate) fn path_file_name(path: &String) -> (r: Option<String>)
    ensures
        r is Some <==> file_name_of(path@) is Some,
        r matches Some(s) ==> s@ == file_name_of(path@).unwrap(),
{
    std::path::Path::new(path.as_str()).file_name().map(|n| n.to_string_lossy().to_string())
}

/// `std::path::Path::parent` of the path `path`, converted to a `String`.
/// Claimed: the result is the name `parent_of` applied to the path's text.
#[verifier::external_body]
pub(crate) fn path_parent(path: &String) -> (r: Option<String>)
    ensures
        r is Some <==> parent_of(path@) is Some,
        r matches Some(s) ==> s@ == parent_of(path@).unwrap(),
{
    std::path::Path::new(path.as_str()).parent().map(|p| p.to_string_lossy().to_string())
}

/// Text order, as `String`'s `Ord` gives it: character by character (by code
/// point, which is the order of the UTF-8 bytes), a proper prefix first.
pub open spec fn text_lt(a: Seq<char>, b: Seq<char>) -> bool
    decreases a.len(),
{
    if b.len() == 0 {
        false
    } else if a.len() == 0 {
        true
    } else if a[0] != b[0] {
        (a[0] as int) < (b[0] as int)
    } else {
        text_lt(a.drop_first(), b.drop_first())
    }
}

pub proof fn lemma_text_lt_irreflexive(a: Seq<char>)
    ensures
        !text_lt(a, a),
    decreases a.len(),
{
    if a.len() > 0 {
        lemma_text_lt_irreflexive(a.drop_first());
    }
}

pub proof fn lemma_text_lt_total(a: Seq<char>, b: Seq<char>)
    ensures
        a != b ==> text_lt(a, b) || text_lt(b, a),
        !(text_lt(a, b) && text_lt(b, a)),
    decreases a.len(),
{
    if a.len() > 0 && b.len() > 0 {
        lemma_text_lt_total(a.drop_first(), b.drop_first());
        if a[0] != b[0] {
            assert((a[0] as int) != (b[0] as int));
        }
        if a[0] == b[0] && a != b {
            assert(a.drop_first() != b.drop_first()) by {
                if a.drop_first() == b.drop_first() {
                    assert(a =~= seq![a[0]] + a.drop_first());
                    assert(b =~= seq![b[0]] + b.drop_first());
                }
            }
        }
    } else if a.len() == 0 && b.len() == 0 {
        assert(a =~= b);
    }
}

pub proof fn lemma_text_lt_transitive(a: Seq<char>, b: Seq<char>, c: Seq<char>)
    requires
        text_lt(a, b),
        text_lt(b, c),
    ensures
        text_lt(a, c),
    decreases a.len(),
{
    if a.len() > 0 && a[0] == b[0] && b[0] == c[0] {
        lemma_text_lt_transitive(a.drop_first(), b.drop_first(), c.drop_first());
    }
}

/// Whether `a` comes before `b` in text order.
pub fn text_less(a: &String, b: &String) -> (r: bool)
    ensures
        r == text_lt(a@, b@),
{
    let sa = a.as_str();
    let sb = b.as_str();
    let na = sa.unicode_len();
    let nb = sb.unicode_len();
    let mut i: usize = 0;
    assert(a@.skip(0) =~= a@);
    assert(b@.skip(0) =~= b@);
    while i < na && i < nb
        invariant
            na == a@.len(),
            nb == b@.len(),
            sa@ == a@,
            sb@ == b@,
            i <= na,
            i <= nb,
            text_lt(a@, b@) == text_lt(a@.skip(i as int), b@.skip(i as int)),
        decreases na - i,
    {
        let ca = sa.get_char(i);
        let cb = sb.get_char(i);
        proof {
            assert(a@.skip(i as int)[0] == ca);
            assert(b@.skip(i as int)[0] == cb);
        }
        if ca != cb {
            return (ca as u32) < (cb as u32);
        }
        proof {
            assert(a@.skip(i as int).drop_first() =~= a@.skip(i as int + 1));
            assert(b@.skip(i as int).drop_first() =~= b@.skip(i as int + 1));
        }
        i += 1;
    }
    i < nb
}

/// Item `a` goes before item `b` when sorted by `keys`: by key in text order,
/// ties by position.
pub open spec fn key_before(keys: Seq<Seq<char>>, a: usize, b: usize) -> bool {
    text_lt(keys[a as int], keys[b as int]) || (keys[a as int] == keys[b as int] && a < b)
}

/// `d` is among `order`.
pub open spec fn lists(order: Seq<usize>, d: usize) -> bool {
    exists|k: int| 0 <= k < order.len() && order[k] == d
}

/// `order` lists each of `0..n` once.
pub open spec fn is_permutation(order: Seq<usize>, n: nat) -> bool {
    &&& order.len() == n
    &&& forall|k: int| 0 <= k < n ==> (#[trigger] order[k]) < n
    &&& forall|d: usize| d < n ==> #[trigger] lists(order, d)
}

/// `order` is sorted by `before`.
pub open spec fn sorted_by(order: Seq<usize>, before: spec_fn(usize, usize) -> bool) -> bool {
    forall|k: int, l: int| 0 <= k < l < order.len() ==> before(#[trigger] order[k], #[trigger] order[l])
}

/// `order` is the stable sort of positions `0..keys.len()` by `keys`.
pub open spec fn is_key_order(keys: Seq<Seq<char>>, order: Seq<usize>) -> bool {
    &&& is_permutation(order, keys.len())
    &&& sorted_by(order, |a: usize, b: usize| key_before(keys, a, b))
}

/// Inserting item `i` into a sorted list of `0..i`, after the items that go
/// before it and ahead of those that go after it, gives a sorted list of
/// `0..i + 1`: the step of an insertion sort.
pub proof fn lemma_insert_sorted(
    prev: Seq<usize>,
    p: int,
    i: usize,
    before: spec_fn(usize, usize) -> bool,
)
    requires
        0 <= p <= prev.len(),
        forall|k: int| 0 <= k < prev.len() ==> (#[trigger] prev[k]) < i,
        forall|d: usize| d < i ==> #[trigger] lists(prev, d),
        sorted_by(prev, before),
        forall|k: int| 0 <= k < p ==> before(#[trigger] prev[k], i),
        forall|k: int| p <= k < prev.len() ==> before(i, #[trigger] prev[k]),
    ensures
        forall|k: int| 0 <= k < prev.insert(p, i).len() ==> (#[trigger] prev.insert(p, i)[k]) < i + 1,
        forall|d: usize| d < i + 1 ==> #[trigger] lists(prev.insert(p, i), d),
        sorted_by(prev.insert(p, i), before),
{
    let next = prev.insert(p, i);
    assert forall|k: int, l: int| 0 <= k < l < next.len() implies before(#[trigger] next[k], #[trigger] next[l]) by {
        if k < p && l < p {
            assert(next[k] == prev[k] && next[l] == prev[l]);
        } else if k < p && l == p {
            assert(next[k] == prev[k]);
        } else if k < p {
            assert(next[k] == prev[k] && next[l] == prev[l - 1]);
        } else if k == p {
            assert(next[l] == prev[l - 1]);
        } else {
            assert(next[k] == prev[k - 1] && next[l] == prev[l - 1]);
        }
    }
    assert forall|k: int| 0 <= k < next.len() implies (#[trigger] next[k]) < i + 1 by {
        if k < p {
            assert(next[k] == prev[k]);
        } else if k > p {
            assert(next[k] == prev[k - 1]);
        }
    }
    assert forall|d: usize| d < i + 1 implies #[trigger] lists(next, d) by {
        if d == i {
            assert(next[p] == d);
        } else {
            assert(lists(prev, d));
            let k = choose|k: int| 0 <= k < prev.len() && prev[k] == d;
            if k < p {
                assert(next[k] == d);
            } else {
                assert(next[k + 1] == d);
            }
        }
    }
}

/// Two permutations sorted by the same asymmetric relation are the same: a
/// sort by a strict order has one result.
pub proof fn lemma_sorted_permutation_unique(
    o1: Seq<usize>,
    o2: Seq<usize>,
    n: nat,
    before: spec_fn(usize, usize) -> bool,
)
    requires
        is_permutation(o1, n),
        is_permutation(o2, n),
        sorted_by(o1, before),
        sorted_by(o2, before),
        forall|a: usize, b: usize| #[trigger] before(a, b) ==> !before(b, a),
    ensures
        o1 == o2,
{
    if o1 != o2 {
        assert(!(o1 =~= o2));
        let k = choose|k: int| 0 <= k < n && o1[k] != o2[k] && forall|j: int| 0 <= j < k ==> o1[j] == o2[j];
        assert(exists|k: int| 0 <= k < n && o1[k] != o2[k] && forall|j: int| 0 <= j < k ==> o1[j] == o2[j]) by {
            lemma_first_difference(o1, o2, n);
        }
        let a = o1[k];
        let b = o2[k];
        assert(lists(o1, b));
        assert(lists(o2, a));
        let m = choose|m: int| 0 <= m < o1.len() && o1[m] == b;
        let m2 = choose|m: int| 0 <= m < o2.len() && o2[m] == a;
        // b sits after position k in o1, a after position k in o2
        assert(m > k) by {
            if m < k {
                assert(o2[m] == b);
                assert(before(o2[m], o2[k]));
                assert(before(b, b));
            }
        }
        assert(m2 > k) by {
            if m2 < k {
                assert(o1[m2] == a);
                assert(before(o1[m2], o1[k]));
                assert(before(a, a));
            }
        }
        assert(before(o1[k], o1[m]));
        assert(before(o2[k], o2[m2]));
        assert(before(a, b) && before(b, a));
    }
}

proof fn lemma_first_difference(o1: Seq<usize>, o2: Seq<usize>, n: nat)
    requires
        o1.len() == n,
        o2.len() == n,
        o1 != o2,
    ensures
        exists|k: int| 0 <= k < n && o1[k] != o2[k] && forall|j: int| 0 <= j < k ==> o1[j] == o2[j],
    decreases n,
{
    if n > 0 {
        if o1.drop_last() == o2.drop_last() {
            let k = n - 1;
            assert(o1[k] != o2[k]) by {
                if o1[k] == o2[k] {
                    assert(o1 =~= o2.drop_last().push(o2[k]));
                    assert(o2 =~= o2.drop_last().push(o2[k]));
                }
            }
            assert forall|j: int| 0 <= j < k implies o1[j] == o2[j] by {
                assert(o1[j] == o1.drop_last()[j]);
                assert(o2[j] == o2.drop_last()[j]);
            }
        } else {
            lemma_first_difference(o1.drop_last(), o2.drop_last(), (n - 1) as nat);
            let k = choose|k: int| 0 <= k < n - 1 && o1.drop_last()[k] != o2.drop_last()[k]
                && forall|j: int| 0 <= j < k ==> o1.drop_last()[j] == o2.drop_last()[j];
            assert forall|j: int| 0 <= j < k implies o1[j] == o2[j] by {
                assert(o1.drop_last()[j] == o2.drop_last()[j]);
            }
        }
    } else {
        assert(o1 =~= o2);
    }
}

/// There is only one stable sort by text keys: `key_order` and `sort_path`
/// have one possible result.
pub proof fn lemma_key_order_unique(keys: Seq<Seq<char>>, o1: Seq<usize>, o2: Seq<usize>)
    requires
        is_key_order(keys, o1),
        is_key_order(keys, o2),
    ensures
        o1 == o2,
{
    let before = |a: usize, b: usize| key_before(keys, a, b);
    assert forall|a: usize, b: usize| #[trigger] before(a, b) implies !before(b, a) by {
        lemma_text_lt_total(keys[a as int], keys[b as int]);
        lemma_text_lt_irreflexive(keys[a as int]);
    }
    lemma_sorted_permutation_unique(o1, o2, keys.len(), before);
}

/// The positions `0..keys.len()`, stably sorted by `keys` in text order.
pub fn key_order(keys: &Vec<String>) -> (order: Vec<usize>)
    ensures
        is_key_order(keys@.map_values(|k: String| k@), order@),
{
    let ghost kv = keys@.map_values(|k: String| k@);
    let ghost before = |a: usize, b: usize| key_before(kv, a, b);
    let n = keys.len();
    let mut order: Vec<usize> = Vec::new();
    let mut i: usize = 0;
    while i < n
        invariant
            n == keys@.len(),
            kv == keys@.map_values(|k: String| k@),
            before == (|a: usize, b: usize| key_before(kv, a, b)),
            i <= n,
            order@.len() == i,
            forall|k: int| 0 <= k < order@.len() ==> (#[trigger] order@[k]) < i,
            forall|d: usize| d < i ==> #[trigger] lists(order@, d),
            sorted_by(order@, before),
        decreases n - i,
    {
        // first position whose item goes after item i
        let mut p: usize = 0;
        while p < order.len() && !text_less(&keys[i], &keys[order[p]])
            invariant
                n == keys@.len(),
                kv == keys@.map_values(|k: String| k@),
                before == (|a: usize, b: usize| key_before(kv, a, b)),
                i < n,
                p <= order@.len(),
                forall|k: int| 0 <= k < order@.len() ==> (#[trigger] order@[k]) < i,
                forall|k: int| 0 <= k < p ==> key_before(kv, #[trigger] order@[k], i),
            decreases order@.len() - p,
        {
            proof {
                let o = order@[p as int];
                assert(kv[o as int] == keys@[o as int]@);
                assert(kv[i as int] == keys@[i as int]@);
                lemma_text_lt_total(kv[o as int], kv[i as int]);
            }
            p += 1;
        }
        proof {
            assert forall|k: int| p <= k < order@.len() implies key_before(kv, i, #[trigger] order@[k]) by {
                let q = order@[p as int];
                assert(kv[q as int] == keys@[q as int]@);
                assert(kv[i as int] == keys@[i as int]@);
                assert(text_lt(kv[i as int], kv[q as int]));
                if k > p {
                    let o = order@[k];
                    assert(before(order@[p as int], order@[k]));
                    if text_lt(kv[q as int], kv[o as int]) {
                        lemma_text_lt_transitive(kv[i as int], kv[q as int], kv[o as int]);
                    }
                }
            }
        }
        let ghost prev = order@;
        order.insert(p, i);
        proof {
            lemma_insert_sorted(prev, p as int, i, before);
        }
        i += 1;
    }
    order
}

/// The file names of the paths.
pub open spec fn file_names(files: Seq<String>) -> Seq<Seq<char>> {
    files.map_values(|f: String| file_name_of(f@).unwrap())
}

/// `new` holds the items of `old` in the order `order`.
pub open spec fn reordered(old: Seq<String>, new: Seq<String>, order: Seq<usize>) -> bool {
    &&& new.len() == order.len()
    &&& forall|k: int| 0 <= k < order.len() ==> #[trigger] new[k] == old[order[k] as int]
}

/// `new` is `old` stably sorted by file name.
pub open spec fn sorted_by_name(old: Seq<String>, new: Seq<String>) -> bool {
    exists|order: Seq<usize>| is_key_order(file_names(old), order) && #[trigger] reordered(old, new, order)
}

/// Sorts paths by their file names, in text order; paths with equal file
/// names keep their order. Every path must have a file name.
pub fn sort_path(files: &mut Vec<String>)
    requires
        forall|i: int| 0 <= i < old(files)@.len() ==> (#[trigger] file_name_of(old(files)@[i]@)) is Some,
    ensures
        sorted_by_name(old(files)@, final(files)@),
{
    let ghost names = file_names(files@);
    let n = files.len();
    let mut keys: Vec<String> = Vec::new();
    let mut i: usize = 0;
    while i < n
        invariant
            n == files@.len(),
            i <= n,
            forall|j: int| 0 <= j < files@.len() ==> (#[trigger] file_name_of(files@[j]@)) is Some,
            names == file_names(files@),
            keys@.len() == i,
            forall|j: int| 0 <= j < i ==> (#[trigger] keys@[j])@ == names[j],
        decreases n - i,
    {
        let name = match path_file_name(&files[i]) {
            Some(s) => s,
            None => {
                proof {
                    assert(file_name_of(files@[i as int]@) is Some);
                }
                String::new()
            },
        };
        keys.push(name);
        i += 1;
    }
    let order = key_order(&keys);
    proof {
        assert(keys@.map_values(|k: String| k@) =~= names);
    }
    let mut sorted: Vec<String> = Vec::new();
    let mut k: usize = 0;
    while k < n
        invariant
            n == files@.len(),
            order@.len() == n,
            forall|j: int| 0 <= j < n ==> (#[trigger] order@[j]) < n,
            k <= n,
            sorted@.len() == k,
            forall|j: int| 0 <= j < k ==> #[trigger] sorted@[j] == files@[order@[j] as int],
        decreases n - k,
    {
        sorted.push(files[order[k]].clone());
        k += 1;
    }
    let ghost unsorted = files@;
    *files = sorted;
    assert(is_key_order(file_names(unsorted), order@));
    assert(reordered(unsorted, files@, order@));
}

/// Sorts the paths by file name, as `sort_path` does, when every path has a
/// file name, and returns `true`; otherwise leaves them as they are and
/// returns `false`.
pub fn try_sort_path(files: &mut Vec<String>) -> (sorted: bool)
    ensures
        sorted == forall|i: int| 0 <= i < old(files)@.len() ==> (#[trigger] file_name_of(old(files)@[i]@)) is Some,
        !sorted ==> final(files)@ == old(files)@,
        sorted ==> sorted_by_name(old(files)@, final(files)@),
{
    let n = files.len();
    let mut i: usize = 0;
    while i < n
        invariant
            n == files@.len(),
            i <= n,
            forall|j: int| 0 <= j < i ==> (#[trigger] file_name_of(files@[j]@)) is Some,
        decreases n - i,
    {
        if path_file_name(&files[i]).is_none() {
            return false;
        }
        i += 1;
    }
    sort_path(files);
    true
}

/// The position of the first of `ids` equal to `id`.
pub fn index_of(ids: &Vec<String>, id: &String) -> (r: Option<usize>)
    ensures
        match r {
            Some(i) => i < ids@.len() && ids@[i as int]@ == id@ && forall|j: int|
                0 <= j < i ==> (#[trigger] ids@[j])@ != id@,
            None => forall|j: int| 0 <= j < ids@.len() ==> (#[trigger] ids@[j])@ != id@,
        },
{
    let n = ids.len();
    let mut i: usize = 0;
    while i < n
        invariant
            n == ids@.len(),
            i <= n,
            forall|j: int| 0 <= j < i ==> (#[trigger] ids@[j])@ != id@,
        decreases n - i,
    {
        if ids[i] == *id {
            return Some(i);
        }
        i += 1;
    }
    None
}

} // verus!
