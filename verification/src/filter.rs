//! Selecting output pairs by an allow-list of key names.

use crate::text::{is_blank, split_trimmed, trimmed, trimmed_pieces};
use vstd::hash_set::StringHashSet;
use vstd::prelude::*;

verus! {

/// The key names that the comma-separated allow-list `only` admits.
pub open spec fn allowed_keys(only: Seq<char>) -> Set<Seq<char>> {
    trimmed_pieces(only, ',').to_set()
}

/// The pairs of `pairs` that the allow-list `only` lets through: all of them
/// where `only` is blank, else those whose key it names, in their order.
pub open spec fn filtered(pairs: Seq<(Seq<char>, Seq<char>)>, only: Seq<char>) -> Seq<
    (Seq<char>, Seq<char>),
> {
    if trimmed(only).len() == 0 {
        pairs
    } else {
        pairs.filter(|pair: (Seq<char>, Seq<char>)| allowed_keys(only).contains(pair.0))
    }
}

/// Whether `at` places the items of `part` in `whole`, one position each,
/// the positions rising.
pub open spec fn places<A>(at: Seq<int>, part: Seq<A>, whole: Seq<A>) -> bool {
    &&& at.len() == part.len()
    &&& forall|i: int| 0 <= i < part.len() ==> 0 <= #[trigger] at[i] < whole.len() && part[i] == whole[at[i]]
    &&& forall|i: int, j: int| 0 <= i < j < part.len() ==> #[trigger] at[i] < #[trigger] at[j]
}

/// Whether `part` is `whole` with some items left out and the rest in their order.
pub open spec fn is_subsequence<A>(part: Seq<A>, whole: Seq<A>) -> bool {
    exists|at: Seq<int>| places(at, part, whole)
}

/// Positions in `s` of the items that `s.filter(pred)` keeps.
proof fn filter_positions<A>(s: Seq<A>, pred: spec_fn(A) -> bool) -> (at: Seq<int>)
    ensures
        places(at, s.filter(pred), s),
    decreases s.len(),
{
    reveal(Seq::filter);
    if s.len() == 0 {
        Seq::empty()
    } else {
        let before = filter_positions(s.drop_last(), pred);
        if pred(s.last()) {
            before.push(s.len() - 1)
        } else {
            before
        }
    }
}

/// An empty allow-list lets every pair through, unchanged.
pub proof fn lemma_empty_allow_list_keeps_all(pairs: Seq<(Seq<char>, Seq<char>)>)
    ensures
        filtered(pairs, ""@) == pairs,
{
    reveal_strlit("");
}

/// Under an allow-list that is not blank, every pair let through has a key
/// that the list names.
pub proof fn lemma_kept_keys_are_allowed(pairs: Seq<(Seq<char>, Seq<char>)>, only: Seq<char>)
    requires
        trimmed(only).len() > 0,
    ensures
        forall|i: int|
            0 <= i < filtered(pairs, only).len() ==> allowed_keys(only).contains(
                (#[trigger] filtered(pairs, only)[i]).0,
            ),
{
    let pred = |pair: (Seq<char>, Seq<char>)| allowed_keys(only).contains(pair.0);
    assert forall|i: int| 0 <= i < filtered(pairs, only).len() implies allowed_keys(only).contains(
        (#[trigger] filtered(pairs, only)[i]).0,
    ) by {
        pairs.lemma_filter_pred(pred, i);
    }
}

/// Whatever the allow-list, the pairs let through are pairs of the input, in
/// the input's order.
pub proof fn lemma_kept_in_order(pairs: Seq<(Seq<char>, Seq<char>)>, only: Seq<char>)
    ensures
        is_subsequence(filtered(pairs, only), pairs),
{
    if trimmed(only).len() == 0 {
        let at = Seq::new(pairs.len(), |i: int| i);
        assert(places(at, pairs, pairs));
    } else {
        let pred = |pair: (Seq<char>, Seq<char>)| allowed_keys(only).contains(pair.0);
        let at = filter_positions(pairs, pred);
        assert(places(at, filtered(pairs, only), pairs));
    }
}

/// The set of key names that `only` admits.
pub fn allow_list(only: &str) -> (names: StringHashSet)
    ensures
        names@ == allowed_keys(only@),
{
    let pieces = split_trimmed(only, ',');
    let mut names = StringHashSet::new();
    let n = pieces.len();
    let mut i: usize = 0;
    while i < n
        invariant
            i <= n,
            n == pieces.len(),
            names@ =~= pieces.deep_view().take(i as int).to_set(),
        decreases n - i,
    {
        names.insert(pieces[i].clone());
        assert(pieces.deep_view().take(i as int + 1) =~= pieces.deep_view().take(i as int).push(
            pieces[i as int]@,
        ));
        assert(pieces.deep_view().take(i as int).push(pieces[i as int]@).to_set()
            =~= pieces.deep_view().take(i as int).to_set().insert(pieces[i as int]@)) by {
            pieces.deep_view().take(i as int).lemma_push_to_set_commute(pieces[i as int]@);
        }
        i += 1;
    }
    assert(pieces.deep_view().take(n as int) =~= pieces.deep_view());
    names
}

/// Keeps the pairs that the allow-list `only` lets through.
pub fn filter_keys(kv_pairs: Vec<(String, String)>, only: String) -> (kept: Vec<(String, String)>)
    ensures
        kept.deep_view() == filtered(kv_pairs.deep_view(), only@),
        trimmed(only@).len() == 0 ==> kept == kv_pairs,
{
    if is_blank(only.as_str()) {
        return kv_pairs;
    }
    let names = allow_list(only.as_str());
    let ghost all = kv_pairs.deep_view();
    let ghost pred = |pair: (Seq<char>, Seq<char>)| allowed_keys(only@).contains(pair.0);
    let mut kept: Vec<(String, String)> = Vec::new();
    for pair in it: kv_pairs
        invariant
            it.seq() == kv_pairs@,
            all == kv_pairs.deep_view(),
            names@ == allowed_keys(only@),
            pred == |pair: (Seq<char>, Seq<char>)| allowed_keys(only@).contains(pair.0),
            kept.deep_view() == all.take(it.index() as int).filter(pred),
    {
        let ghost before = kept.deep_view();
        let ghost at = it.index() as int;
        proof {
            assert(all.take(at + 1) =~= all.take(at).push(pair.deep_view()));
            all.take(at).lemma_filter_push(pair.deep_view(), pred);
        }
        if names.contains(pair.0.as_str()) {
            kept.push(pair);
            assert(kept.deep_view() =~= before.push(pair.deep_view()));
        }
    }
    assert(all.take(all.len() as int) =~= all);
    kept
}

} // verus!
