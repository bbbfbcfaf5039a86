//! Stable sorting by text keys, in the order that `str`'s `Ord` gives (by code point).
use vstd::prelude::*;

verus! {

/// `a` comes strictly before `b` in lexicographic order of code points.
pub open spec fn text_lt(a: Seq<char>, b: Seq<char>) -> bool
    decreases a.len(),
{
    if a.len() == 0 {
        b.len() > 0
    } else if b.len() == 0 {
        false
    } else if a[0] < b[0] {
        true
    } else if a[0] > b[0] {
        false
    } else {
        text_lt(a.drop_first(), b.drop_first())
    }
}

/// A sort key: a rank compared first, then a text.
pub struct SortKey {
    pub rank: u8,
    pub text: Vec<char>,
}

pub struct SortKeyView {
    pub rank: u8,
    pub text: Seq<char>,
}

impl View for SortKey {
    type V = SortKeyView;

    open spec fn view(&self) -> SortKeyView {
        SortKeyView { rank: self.rank, text: self.text@ }
    }
}

/// `a` comes strictly before `b`.
pub open spec fn key_lt(a: SortKeyView, b: SortKeyView) -> bool {
    a.rank < b.rank || (a.rank == b.rank && text_lt(a.text, b.text))
}

/// `a` comes before `b` or ranks equal with it.
pub open spec fn key_le(a: SortKeyView, b: SortKeyView) -> bool {
    !key_lt(b, a)
}

pub proof fn lemma_text_lt_irreflexive(a: Seq<char>)
    ensures
        !text_lt(a, a),
    decreases a.len(),
{
    if a.len() > 0 {
        lemma_text_lt_irreflexive(a.drop_first());
    }
}

pub proof fn lemma_text_lt_transitive(a: Seq<char>, b: Seq<char>, c: Seq<char>)
    requires
        text_lt(a, b),
        text_lt(b, c),
    ensures
        text_lt(a, c),
    decreases a.len(),
{
    if a.len() > 0 && b.len() > 0 && c.len() > 0 {
        if a[0] == b[0] && b[0] == c[0] {
            lemma_text_lt_transitive(a.drop_first(), b.drop_first(), c.drop_first());
        }
    }
}

pub proof fn lemma_text_lt_total(a: Seq<char>, b: Seq<char>)
    ensures
        text_lt(a, b) || text_lt(b, a) || a == b,
    decreases a.len(),
{
    if a.len() > 0 && b.len() > 0 {
        if a[0] == b[0] {
            lemma_text_lt_total(a.drop_first(), b.drop_first());
            if a.drop_first() == b.drop_first() {
                assert(a =~= seq![a[0]] + a.drop_first());
                assert(b =~= seq![b[0]] + b.drop_first());
            }
        }
    } else if a.len() == 0 && b.len() == 0 {
        assert(a =~= b);
    }
}

pub proof fn lemma_text_lt_asymmetric(a: Seq<char>, b: Seq<char>)
    requires
        text_lt(a, b),
    ensures
        !text_lt(b, a),
{
    if text_lt(b, a) {
        lemma_text_lt_transitive(a, b, a);
        lemma_text_lt_irreflexive(a);
    }
}

pub proof fn lemma_key_order()
    ensures
        forall|a: SortKeyView| !#[trigger] key_lt(a, a),
        forall|a: SortKeyView, b: SortKeyView, c: SortKeyView| #[trigger] key_lt(a, b) && #[trigger] key_lt(b, c)
            ==> key_lt(a, c),
        forall|a: SortKeyView, b: SortKeyView| #[trigger] key_lt(a, b) ==> !key_lt(b, a),
        forall|a: SortKeyView, b: SortKeyView| !#[trigger] key_lt(a, b) && !key_lt(b, a) ==> a == b,
{
    assert forall|a: SortKeyView| !#[trigger] key_lt(a, a) by {
        lemma_text_lt_irreflexive(a.text);
    }
    assert forall|a: SortKeyView, b: SortKeyView, c: SortKeyView| #[trigger] key_lt(a, b) && #[trigger] key_lt(
        b,
        c,
    ) implies key_lt(a, c) by {
        if a.rank == b.rank && b.rank == c.rank {
            lemma_text_lt_transitive(a.text, b.text, c.text);
        }
    }
    assert forall|a: SortKeyView, b: SortKeyView| #[trigger] key_lt(a, b) implies !key_lt(b, a) by {
        if a.rank == b.rank {
            lemma_text_lt_asymmetric(a.text, b.text);
        }
    }
    assert forall|a: SortKeyView, b: SortKeyView| !#[trigger] key_lt(a, b) && !key_lt(b, a) implies a
        == b by {
        lemma_text_lt_total(a.text, b.text);
    }
}

/// `perm` lists each of `0..n` exactly once.
pub open spec fn is_permutation(perm: Seq<int>, n: nat) -> bool {
    &&& perm.len() == n
    &&& forall|i: int| 0 <= i < n ==> 0 <= #[trigger] perm[i] < n
    &&& forall|i: int, j: int| 0 <= i < n && 0 <= j < n && i != j ==> #[trigger] perm[i] != #[trigger] perm[j]
}

/// `perm` orders `keys` stably: by key, and equal keys in the order they came in.
pub open spec fn orders_stably(keys: Seq<SortKeyView>, perm: Seq<int>) -> bool {
    &&& is_permutation(perm, keys.len())
    &&& forall|a: int, b: int| 0 <= a < b < perm.len() ==> key_le(keys[#[trigger] perm[a]], keys[#[trigger] perm[b]])
    &&& forall|a: int, b: int| 0 <= a < b < perm.len() && keys[#[trigger] perm[a]] == keys[#[trigger] perm[b]]
        ==> perm[a] < perm[b]
}

/// `output` is `input` stably sorted by `key`.
pub open spec fn is_stable_sort<T>(input: Seq<T>, output: Seq<T>, key: spec_fn(T) -> SortKeyView) -> bool {
    exists|perm: Seq<int>|
        orders_stably(input.map_values(key), perm) && output.len() == input.len() && forall|i: int|
            0 <= i < output.len() ==> #[trigger] output[i] == input[perm[i]]
}

fn text_less(a: &Vec<char>, b: &Vec<char>) -> (r: bool)
    ensures
        r == text_lt(a@, b@),
{
    let mut i: usize = 0;
    assert(a@.skip(0) =~= a@ && b@.skip(0) =~= b@);
    while i < a.len() && i < b.len() && a[i] == b[i]
        invariant
            i <= a.len() && i <= b.len(),
            text_lt(a@, b@) == text_lt(a@.skip(i as int), b@.skip(i as int)),
        decreases a.len() - i,
    {
        proof {
            let sa = a@.skip(i as int);
            let sb = b@.skip(i as int);
            assert(sa.drop_first() =~= a@.skip(i + 1));
            assert(sb.drop_first() =~= b@.skip(i + 1));
        }
        i = i + 1;
    }
    if i == a.len() {
        i < b.len()
    } else if i == b.len() {
        false
    } else {
        proof {
            assert(a@.skip(i as int)[0] == a@[i as int]);
            assert(b@.skip(i as int)[0] == b@[i as int]);
        }
        a[i] < b[i]
    }
}

fn key_less(a: &SortKey, b: &SortKey) -> (r: bool)
    ensures
        r == key_lt(a@, b@),
{
    a.rank < b.rank || (a.rank == b.rank && text_less(&a.text, &b.text))
}

/// The order that stably sorts `keys`.
pub fn stable_order(keys: &Vec<SortKey>) -> (perm: Vec<usize>)
    ensures
        orders_stably(keys@.map_values(|k: SortKey| k@), perm@.map_values(|i: usize| i as int)),
{
    let ghost ks = keys@.map_values(|k: SortKey| k@);
    proof {
        lemma_key_order();
    }
    let n = keys.len();
    let mut perm: Vec<usize> = Vec::new();
    let mut i: usize = 0;
    while i < n
        invariant
            n == keys@.len() == ks.len(),
            ks == keys@.map_values(|k: SortKey| k@),
            i <= n,
            perm@.len() == i,
            forall|a: int| 0 <= a < i ==> (#[trigger] perm@[a]) < i,
            forall|a: int, b: int| 0 <= a < i && 0 <= b < i && a != b ==> #[trigger] perm@[a] != #[trigger] perm@[b],
            forall|a: int, b: int| 0 <= a < b < i ==> key_le(ks[#[trigger] perm@[a] as int], ks[#[trigger] perm@[b] as int]),
            forall|a: int, b: int| 0 <= a < b < i && ks[#[trigger] perm@[a] as int] == ks[#[trigger] perm@[b] as int]
                ==> perm@[a] < perm@[b],
            forall|a: SortKeyView| !#[trigger] key_lt(a, a),
            forall|a: SortKeyView, b: SortKeyView, c: SortKeyView| #[trigger] key_lt(a, b) && #[trigger] key_lt(b, c)
                ==> key_lt(a, c),
            forall|a: SortKeyView, b: SortKeyView| #[trigger] key_lt(a, b) ==> !key_lt(b, a),
            forall|a: SortKeyView, b: SortKeyView| !#[trigger] key_lt(a, b) && !key_lt(b, a) ==> a == b,
        decreases n - i,
    {
        let mut j: usize = i;
        while j > 0 && key_less(&keys[i], &keys[perm[j - 1]])
            invariant
                n == keys@.len() == ks.len(),
                ks == keys@.map_values(|k: SortKey| k@),
                i < n,
                j <= i,
                perm@.len() == i,
                forall|a: int| 0 <= a < i ==> (#[trigger] perm@[a]) < i,
                forall|b: int| j <= b < i ==> key_lt(ks[i as int], ks[#[trigger] perm@[b] as int]),
            decreases j,
        {
            j = j - 1;
        }
        let ghost old_perm = perm@;
        perm.insert(j, i);
        proof {
            assert(perm@ == old_perm.insert(j as int, i));
            assert forall|a: int| 0 <= a < i + 1 implies (#[trigger] perm@[a]) < i + 1 by {
                if a < j {
                    assert(perm@[a] == old_perm[a]);
                } else if a > j {
                    assert(perm@[a] == old_perm[a - 1]);
                }
            }
            assert forall|a: int, b: int| 0 <= a < i + 1 && 0 <= b < i + 1 && a != b implies #[trigger] perm@[a]
                != #[trigger] perm@[b] by {
                let pa = if a < j { a } else if a > j { a - 1 } else { -1 };
                let pb = if b < j { b } else if b > j { b - 1 } else { -1 };
                if pa >= 0 {
                    assert(perm@[a] == old_perm[pa]);
                }
                if pb >= 0 {
                    assert(perm@[b] == old_perm[pb]);
                }
            }
            if j > 0 {
                assert(!key_lt(ks[i as int], ks[old_perm[j - 1] as int]));
            }
            assert forall|a: int, b: int| 0 <= a < b < i + 1 implies key_le(
                ks[#[trigger] perm@[a] as int],
                ks[#[trigger] perm@[b] as int],
            ) by {
                if a < j && b < j {
                    assert(perm@[a] == old_perm[a] && perm@[b] == old_perm[b]);
                } else if a < j && b == j {
                    assert(perm@[a] == old_perm[a]);
                    if a < j - 1 {
                        assert(key_le(ks[old_perm[a] as int], ks[old_perm[j - 1] as int]));
                    }
                } else if a < j && b > j {
                    assert(perm@[a] == old_perm[a] && perm@[b] == old_perm[b - 1]);
                } else if a == j {
                    assert(perm@[b] == old_perm[b - 1]);
                    assert(key_lt(ks[i as int], ks[old_perm[b - 1] as int]));
                } else {
                    assert(perm@[a] == old_perm[a - 1] && perm@[b] == old_perm[b - 1]);
                }
            }
            assert forall|a: int, b: int| 0 <= a < b < i + 1 && ks[#[trigger] perm@[a] as int]
                == ks[#[trigger] perm@[b] as int] implies perm@[a] < perm@[b] by {
                if a < j && b < j {
                    assert(perm@[a] == old_perm[a] && perm@[b] == old_perm[b]);
                } else if a < j && b == j {
                    assert(perm@[a] == old_perm[a]);
                } else if a < j && b > j {
                    assert(perm@[a] == old_perm[a] && perm@[b] == old_perm[b - 1]);
                } else if a == j {
                    assert(perm@[b] == old_perm[b - 1]);
                    assert(key_lt(ks[i as int], ks[old_perm[b - 1] as int]));
                } else {
                    assert(perm@[a] == old_perm[a - 1] && perm@[b] == old_perm[b - 1]);
                }
            }
        }
        i = i + 1;
    }
    proof {
        let p = perm@.map_values(|i: usize| i as int);
        assert forall|a: int, b: int| 0 <= a < n && 0 <= b < n && a != b implies #[trigger] p[a]
            != #[trigger] p[b] by {
            assert(perm@[a] != perm@[b]);
        }
        assert forall|a: int, b: int| 0 <= a < b < p.len() implies key_le(ks[#[trigger] p[a]], ks[#[trigger] p[b]]) by {
            assert(key_le(ks[perm@[a] as int], ks[perm@[b] as int]));
        }
        assert forall|a: int, b: int| 0 <= a < b < p.len() && ks[#[trigger] p[a]] == ks[#[trigger] p[b]] implies p[a]
            < p[b] by {
            assert(ks[perm@[a] as int] == ks[perm@[b] as int]);
        }
    }
    perm
}

} // verus!
