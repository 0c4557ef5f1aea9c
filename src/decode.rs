use vstd::prelude::*;
use crate::query_map::{pairs_to_map, pairs_view, lemma_pairs_to_map_contains, lemma_pairs_to_map_last, QueryMap};

verus! {

/// The (name, value) pairs that `application/x-www-form-urlencoded` parsing
/// yields for a query string: split on `&`, empty pieces skipped, each piece
/// split on its first `=`, then `+` and percent-escapes decoded.
pub uninterp spec fn form_pairs_of(query: Seq<char>) -> Seq<(Seq<char>, Seq<char>)>;

/// The map that decoding an optional raw query string produces.
pub open spec fn decoded_map(query: Option<Seq<char>>) -> Map<Seq<char>, Seq<char>> {
    match query {
        None => Map::empty(),
        Some(q) => pairs_to_map(form_pairs_of(q)),
    }
}

/// Relies on `url::form_urlencoded::parse` (with `into_owned`): the decoded
/// pairs of the query, in order; an empty input yields none.
#[verifier::external_body]
fn form_pairs(query: &str) -> (r: Vec<(String, String)>)
    ensures
        pairs_view(r@) == form_pairs_of(query@),
        query@.len() == 0 ==> r@.len() == 0,
{
    url::form_urlencoded::parse(query.as_bytes()).into_owned().collect()
}

impl QueryMap {
    /// Folds decoded pairs into a map, the last pair of a name winning.
    pub fn from_pairs(pairs: Vec<(String, String)>) -> (r: QueryMap)
        ensures
            r.wf(),
            r@ == pairs_to_map(pairs_view(pairs@)),
    {
        let mut map = QueryMap::new();
        let mut i: usize = 0;
        let n = pairs.len();
        while i < n
            invariant
                n == pairs@.len(),
                i <= n,
                map.wf(),
                map@ == pairs_to_map(pairs_view(pairs@.take(i as int))),
            decreases n - i,
        {
            let name = pairs[i].0.clone();
            let value = pairs[i].1.clone();
            map.insert(name, value);
            proof {
                let t = pairs_view(pairs@.take(i as int + 1));
                assert(t.drop_last() =~= pairs_view(pairs@.take(i as int)));
            }
            i = i + 1;
        }
        proof {
            assert(pairs@.take(n as int) =~= pairs@);
        }
        map
    }
}

/// Decodes an optional raw query string (the part of a URI after `?`) into a
/// map. An absent query gives the empty map; decoding never fails.
pub fn decode_query(query: Option<&str>) -> (r: QueryMap)
    ensures
        r.wf(),
        r@ == decoded_map(match query {
            Some(q) => Some(q@),
            None => None,
        }),
{
    match query {
        None => QueryMap::new(),
        Some(q) => QueryMap::from_pairs(form_pairs(q)),
    }
}

/// Looking a name up in a decoded query yields the value of the last pair that
/// carries the name; a name that no pair carries is absent.
pub proof fn law_lookup_gives_decoded_value(query: Seq<char>, name: Seq<char>)
    ensures
        decoded_map(Some(query)).contains_key(name) <==> exists|i: int|
            0 <= i < form_pairs_of(query).len() && form_pairs_of(query)[i].0 == name,
        forall|i: int|
            0 <= i < form_pairs_of(query).len() && form_pairs_of(query)[i].0 == name && (forall|
                j: int,
            |
                i < j < form_pairs_of(query).len() ==> form_pairs_of(query)[j].0 != name)
                ==> decoded_map(Some(query))[name] == form_pairs_of(query)[i].1,
{
    let s = form_pairs_of(query);
    lemma_pairs_to_map_contains(s, name);
    assert forall|i: int|
        0 <= i < s.len() && s[i].0 == name && (forall|j: int| i < j < s.len() ==> s[j].0 != name)
        implies decoded_map(Some(query))[name] == s[i].1 by {
        lemma_pairs_to_map_last(s, i);
    }
}

/// Decoding an absent query gives the empty map, in which every name is absent.
pub proof fn law_absent_query_is_empty(name: Seq<char>)
    ensures
        decoded_map(None) == Map::<Seq<char>, Seq<char>>::empty(),
        !decoded_map(None).contains_key(name),
{
}

/// Decoding the same raw query twice gives two maps with the same entries.
pub proof fn law_decode_is_idempotent(query: Option<Seq<char>>, a: QueryMap, b: QueryMap)
    requires
        a@ == decoded_map(query),
        b@ == decoded_map(query),
    ensures
        a@.dom() == b@.dom(),
        forall|k: Seq<char>| #[trigger] a@.contains_key(k) ==> a@[k] == b@[k],
{
}

} // verus!
