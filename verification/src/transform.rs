//! Renaming output keys: an optional prefix, then upper snake case.

use convert_case::{Case, Casing};
use vstd::prelude::*;
use vstd::string::StringExecFns;

verus! {

/// The text that `convert_case` gives for `s` in `Case::UpperSnake`: the words
/// of `s` in upper case, joined by underscores.
pub uninterp spec fn upper_snake(s: Seq<char>) -> Seq<char>;

/// What stands before every key: nothing where the prefix is empty, else the
/// prefix and an underscore.
pub open spec fn key_lead(prefix: Seq<char>) -> Seq<char> {
    if prefix.len() == 0 {
        prefix
    } else {
        prefix.push('_')
    }
}

/// A key with the prefix before it, not yet normalised.
pub open spec fn prefixed(prefix: Seq<char>, key: Seq<char>) -> Seq<char> {
    key_lead(prefix) + key
}

/// The name under which the output `key` is exported with `prefix`.
pub open spec fn transformed_key(prefix: Seq<char>, key: Seq<char>) -> Seq<char> {
    upper_snake(prefixed(prefix, key))
}

/// `pairs` with every key renamed and every value as it was.
pub open spec fn transformed(prefix: Seq<char>, pairs: Seq<(Seq<char>, Seq<char>)>) -> Seq<
    (Seq<char>, Seq<char>),
> {
    pairs.map_values(|pair: (Seq<char>, Seq<char>)| (transformed_key(prefix, pair.0), pair.1))
}

/// Renaming neither drops nor adds nor reorders: the result is as long as the
/// input, and its pair at each position has the key made from the input's key
/// at that position, with that pair's value.
pub proof fn lemma_transform_is_one_to_one(prefix: Seq<char>, pairs: Seq<(Seq<char>, Seq<char>)>)
    ensures
        transformed(prefix, pairs).len() == pairs.len(),
        forall|i: int|
            0 <= i < pairs.len() ==> #[trigger] transformed(prefix, pairs)[i] == (
                transformed_key(prefix, pairs[i].0),
                pairs[i].1,
            ),
{
}

/// Calls `Casing::to_case` of `convert_case` with `Case::UpperSnake`. The
/// conversion reads nothing but its argument, so its result is named by
/// `upper_snake`; nothing more is claimed of it.
#[verifier::external_body]
fn to_upper_snake(s: &String) -> (r: String)
    ensures
        r@ == upper_snake(s@),
{
    s.to_case(Case::UpperSnake)
}

/// Puts the prefix, and an underscore where the prefix is not empty, before `key`.
pub fn prefixed_key(prefix: &str, key: &str) -> (r: String)
    ensures
        r@ == prefixed(prefix@, key@),
{
    let mut r = prefix.to_owned();
    if !prefix.is_empty() {
        proof {
            reveal_strlit("_");
        }
        r.append("_");
        assert(r@ =~= prefix@.push('_'));
    }
    r.append(key);
    r
}

/// The pair with `key` for its key and its value untouched.
pub fn with_key(pair: (String, String), key: String) -> (r: (String, String))
    ensures
        r == (key, pair.1),
{
    (key, pair.1)
}

/// Renames every key to the upper snake case of the prefix joined to it;
/// values, number and order of the pairs stay.
pub fn transform_keys(prefix: String, kv_pairs: Vec<(String, String)>) -> (renamed: Vec<
    (String, String),
>)
    ensures
        renamed.deep_view() == transformed(prefix@, kv_pairs.deep_view()),
        renamed.len() == kv_pairs.len(),
{
    let ghost all = kv_pairs.deep_view();
    let mut renamed: Vec<(String, String)> = Vec::new();
    for pair in it: kv_pairs
        invariant
            it.seq() == kv_pairs@,
            all == kv_pairs.deep_view(),
            renamed.deep_view() =~= transformed(prefix@, all.take(it.index() as int)),
    {
        let ghost before = renamed.deep_view();
        let ghost at = it.index() as int;
        let plain = prefixed_key(prefix.as_str(), pair.0.as_str());
        let key = to_upper_snake(&plain);
        renamed.push(with_key(pair, key));
        proof {
            assert(all.take(at + 1) =~= all.take(at).push(pair.deep_view()));
            assert(renamed.deep_view() =~= before.push(
                (transformed_key(prefix@, pair.0@), pair.1@),
            ));
        }
    }
    assert(all.take(all.len() as int) =~= all);
    renamed
}

} // verus!
