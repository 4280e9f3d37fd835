//! Work items: one manifest entry pairing a file path with its expected
//! digest, together with the lexicographic order used when a run sorts its
//! work list before dispatch.

use vstd::prelude::*;
use vstd::seq_lib::group_to_multiset_ensures;

verus! {

/// Mathematical content of a work item: the path of the file to check and the
/// lowercase hexadecimal digest its content is expected to have.
pub struct HashPairModel {
    pub file_path: Seq<char>,
    pub expected_hash: Seq<char>,
}

/// One entry of a parsed manifest.  Immutable once built: the engine only
/// reads it.
#[derive(Debug, Clone)]
pub struct HashPair {
    pub file_path: String,
    pub expected_hash: String,
}

impl View for HashPair {
    type V = HashPairModel;

    open spec fn view(&self) -> HashPairModel {
        HashPairModel { file_path: self.file_path@, expected_hash: self.expected_hash@ }
    }
}

impl DeepView for HashPair {
    type V = HashPairModel;

    open spec fn deep_view(&self) -> HashPairModel {
        self.view()
    }
}

impl HashPair {
    pub fn new(file_path: String, expected_hash: String) -> (r: HashPair)
        ensures
            r@ == (HashPairModel { file_path: file_path@, expected_hash: expected_hash@ }),
    {
        HashPair { file_path, expected_hash }
    }

}

impl PartialEq for HashPair {
    fn eq(&self, other: &HashPair) -> (r: bool) {
        self.file_path == other.file_path && self.expected_hash == other.expected_hash
    }
}

impl vstd::std_specs::cmp::PartialEqSpecImpl for HashPair {
    open spec fn obeys_eq_spec() -> bool {
        true
    }

    open spec fn eq_spec(&self, other: &HashPair) -> bool {
        self@ == other@
    }
}

/// Lexicographic order on character sequences, by code point.
pub open spec fn lex_le(a: Seq<char>, b: Seq<char>) -> bool
    decreases a.len(),
{
    if a.len() == 0 {
        true
    } else if b.len() == 0 {
        false
    } else if a[0] != b[0] {
        a[0] < b[0]
    } else {
        lex_le(a.drop_first(), b.drop_first())
    }
}

/// Work items are ordered by `(file_path, expected_hash)`, lexicographically.
pub open spec fn pair_le(x: HashPairModel, y: HashPairModel) -> bool {
    if x.file_path == y.file_path {
        lex_le(x.expected_hash, y.expected_hash)
    } else {
        lex_le(x.file_path, y.file_path)
    }
}

/// A work list arranged in the order of `pair_le`.
pub open spec fn pairs_sorted(s: Seq<HashPairModel>) -> bool {
    forall|p: int, q: int|
        0 <= p < q < s.len() ==> pair_le(#[trigger] s[p], #[trigger] s[q])
}

/// Any two character sequences are comparable under `lex_le`.
pub proof fn lemma_lex_le_total(a: Seq<char>, b: Seq<char>)
    ensures
        lex_le(a, b) || lex_le(b, a),
    decreases a.len(),
{
    if a.len() == 0 || b.len() == 0 {
    } else if a[0] != b[0] {
    } else {
        lemma_lex_le_total(a.drop_first(), b.drop_first());
    }
}

/// `lex_le` is transitive.
pub proof fn lemma_lex_le_trans(a: Seq<char>, b: Seq<char>, c: Seq<char>)
    requires
        lex_le(a, b),
        lex_le(b, c),
    ensures
        lex_le(a, c),
    decreases a.len(),
{
    if a.len() == 0 || b.len() == 0 || c.len() == 0 {
    } else if a[0] == b[0] && b[0] == c[0] {
        lemma_lex_le_trans(a.drop_first(), b.drop_first(), c.drop_first());
    }
}

/// `lex_le` both ways round means equality.
pub proof fn lemma_lex_le_antisymmetric(a: Seq<char>, b: Seq<char>)
    requires
        lex_le(a, b),
        lex_le(b, a),
    ensures
        a == b,
    decreases a.len(),
{
    if a.len() == 0 {
        assert(b.len() == 0);
        assert(a =~= b);
    } else {
        assert(a[0] == b[0]);
        lemma_lex_le_antisymmetric(a.drop_first(), b.drop_first());
        assert(a =~= seq![a[0]] + a.drop_first());
        assert(b =~= seq![b[0]] + b.drop_first());
    }
}

/// Any two work items are comparable under `pair_le`.
pub proof fn lemma_pair_le_total(x: HashPairModel, y: HashPairModel)
    ensures
        pair_le(x, y) || pair_le(y, x),
{
    lemma_lex_le_total(x.file_path, y.file_path);
    lemma_lex_le_total(x.expected_hash, y.expected_hash);
}

/// `pair_le` is transitive.
pub proof fn lemma_pair_le_trans(x: HashPairModel, y: HashPairModel, z: HashPairModel)
    requires
        pair_le(x, y),
        pair_le(y, z),
    ensures
        pair_le(x, z),
{
    if x.file_path == y.file_path && y.file_path == z.file_path {
        lemma_lex_le_trans(x.expected_hash, y.expected_hash, z.expected_hash);
    } else if x.file_path == y.file_path {
    } else if y.file_path == z.file_path {
    } else {
        lemma_lex_le_trans(x.file_path, y.file_path, z.file_path);
        if x.file_path == z.file_path {
            lemma_lex_le_antisymmetric(x.file_path, y.file_path);
        }
    }
}

/// Compare two strings in the order of `lex_le`.
fn str_le(a: &str, b: &str) -> (r: bool)
    ensures
        r == lex_le(a@, b@),
{
    let a_len = a.unicode_len();
    let b_len = b.unicode_len();
    proof {
        assert(a@.skip(0) =~= a@);
        assert(b@.skip(0) =~= b@);
    }
    let mut i: usize = 0;
    loop
        invariant
            i <= a_len,
            i <= b_len,
            a_len == a@.len(),
            b_len == b@.len(),
            lex_le(a@, b@) == lex_le(a@.skip(i as int), b@.skip(i as int)),
        decreases a_len - i,
    {
        if i == a_len {
            return true;
        }
        if i == b_len {
            return false;
        }
        let ca = a.get_char(i);
        let cb = b.get_char(i);
        proof {
            assert(a@.skip(i as int)[0] == a@[i as int]);
            assert(b@.skip(i as int)[0] == b@[i as int]);
            assert(a@.skip(i as int).drop_first() =~= a@.skip(i + 1));
            assert(b@.skip(i as int).drop_first() =~= b@.skip(i + 1));
        }
        if (ca as u32) != (cb as u32) {
            return (ca as u32) < (cb as u32);
        }
        i = i + 1;
    }
}

/// Compare two work items in the order of `pair_le`.
pub fn pair_le_exec(x: &HashPair, y: &HashPair) -> (r: bool)
    ensures
        r == pair_le(x@, y@),
{
    if x.file_path == y.file_path {
        str_le(x.expected_hash.as_str(), y.expected_hash.as_str())
    } else {
        str_le(x.file_path.as_str(), y.file_path.as_str())
    }
}

/// Sort a work list into the order of `pair_le`, keeping exactly the same
/// items.  Used when `sort_before_run` is set.
pub fn sort_pairs(v: &mut Vec<HashPair>)
    ensures
        final(v)@.len() == old(v)@.len(),
        pairs_sorted(final(v).deep_view()),
        final(v).deep_view().to_multiset() == old(v).deep_view().to_multiset(),
{
    broadcast use group_to_multiset_ensures;

    if v.len() < 2 {
        return;
    }
    let mut i: usize = 1;
    while i < v.len()
        invariant
            1 <= i <= v@.len(),
            v@.len() == old(v)@.len(),
            pairs_sorted(v.deep_view().take(i as int)),
            v.deep_view().to_multiset() == old(v).deep_view().to_multiset(),
        decreases v@.len() - i,
    {
        let ghost dv0 = v.deep_view();
        let x = v.remove(i);
        let ghost rest = v.deep_view();
        proof {
            assert(rest =~= dv0.remove(i as int));
            assert(rest.take(i as int) =~= dv0.take(i as int));
        }
        let mut k: usize = 0;
        while k < i && pair_le_exec(&v[k], &x)
            invariant
                k <= i,
                i <= rest.len(),
                v@.len() == rest.len(),
                v.deep_view() == rest,
                forall|j: int| 0 <= j < k ==> pair_le(#[trigger] rest[j], x@),
            decreases i - k,
        {
            k = k + 1;
        }
        proof {
            if k < i {
                lemma_pair_le_total(rest[k as int], x@);
            }
        }
        v.insert(k, x);
        proof {
            assert(v.deep_view() =~= rest.insert(k as int, x@));
            lemma_sorted_insert(rest, i as int, k as int, x@);
            lemma_insert_multiset(rest, k as int, x@);
            lemma_insert_multiset(rest, i as int, x@);
            assert(rest.insert(i as int, x@) =~= dv0);
        }
        i = i + 1;
    }
    proof {
        assert(v.deep_view().take(v@.len() as int) =~= v.deep_view());
    }
}

/// Inserting `x` at `k` into a list whose first `i` items are sorted, where
/// everything before `k` is at most `x` and the item at `k` (if any) is not
/// below `x`, leaves the first `i + 1` items sorted.
proof fn lemma_sorted_insert(rest: Seq<HashPairModel>, i: int, k: int, x: HashPairModel)
    requires
        0 <= k <= i <= rest.len(),
        pairs_sorted(rest.take(i)),
        forall|j: int| 0 <= j < k ==> pair_le(#[trigger] rest[j], x),
        k < i ==> pair_le(x, rest[k]),
    ensures
        pairs_sorted(rest.insert(k, x).take(i + 1)),
{
    let cur = rest.insert(k, x).take(i + 1);
    assert forall|p: int, q: int| 0 <= p < q < cur.len() implies pair_le(
        #[trigger] cur[p],
        #[trigger] cur[q],
    ) by {
        assert(forall|m: int, n: int|
            0 <= m < n < i ==> pair_le(#[trigger] rest.take(i)[m], #[trigger] rest.take(i)[n]));
        assert(forall|m: int| 0 <= m < i ==> rest.take(i)[m] == rest[m]);
        if q < k {
            assert(cur[p] == rest[p] && cur[q] == rest[q]);
        } else if p < k && q == k {
            assert(cur[p] == rest[p] && cur[q] == x);
        } else if p < k && q > k {
            assert(cur[p] == rest[p] && cur[q] == rest[q - 1]);
            assert(p < q - 1 < i);
        } else if p == k && q > k {
            assert(cur[p] == x && cur[q] == rest[q - 1]);
            assert(pair_le(x, rest[k]));
            if q - 1 > k {
                assert(pair_le(rest[k], rest[q - 1]));
                lemma_pair_le_trans(x, rest[k], rest[q - 1]);
            }
        } else {
            assert(cur[p] == rest[p - 1] && cur[q] == rest[q - 1]);
        }
    }
}

/// Inserting an element anywhere adds exactly it to the multiset of contents.
proof fn lemma_insert_multiset(s: Seq<HashPairModel>, k: int, x: HashPairModel)
    requires
        0 <= k <= s.len(),
    ensures
        s.insert(k, x).to_multiset() == s.to_multiset().insert(x),
{
    broadcast use group_to_multiset_ensures;

    let t = s.insert(k, x);
    if k == s.len() {
        assert(t =~= s.push(x));
        assert(t.to_multiset() =~= s.to_multiset().insert(x));
    } else {
        assert(t.remove(k) =~= s);
        assert(t[k] == x);
        assert(t.to_multiset().remove(x) =~= s.to_multiset());
        assert(t.contains(x)) by {
            assert(t[k] == x);
        }
        assert(t.to_multiset().count(x) > 0);
        assert(t.to_multiset() =~= s.to_multiset().insert(x));
    }
}

} // verus!
