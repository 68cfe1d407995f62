//! The media types that go with an extension, and the extensions that go with
//! a media type, as the tables of `mime_guess` give them.

use vstd::prelude::*;
use crate::class::{strictly_increasing, EquivalenceClass};

verus! {

/// The media types that `mime_guess::from_ext` lists for an extension, in the
/// order and spelling of its table.
pub uninterp spec fn media_types(extension: Seq<char>) -> Seq<Seq<char>>;

/// What `mime_guess::get_mime_extensions` answers for a media type: the
/// extensions listed for its type and subtype, or `None` where the tables know
/// no such type or the text does not read as a media type.
pub uninterp spec fn known_extensions(media_type: Seq<char>) -> Option<Seq<Seq<char>>>;

/// Calls `mime_guess::from_ext` and hands out the media types of its guess as
/// the table spells them. Trusted: the result is [`media_types`] of the
/// extension.
#[verifier::external_body]
fn media_types_of(extension: &str) -> (types: Vec<&'static str>)
    ensures
        types.deep_view() == media_types(extension@),
{
    mime_guess::from_ext(extension).iter_raw().collect()
}

/// Reads `media_type` as a `Mime` and calls `mime_guess::get_mime_extensions`
/// on it. Trusted: the result is [`known_extensions`] of the text, `None`
/// included.
#[verifier::external_body]
fn extensions_of_type(media_type: &str) -> (extensions: Option<Vec<&'static str>>)
    ensures
        match extensions {
            Some(list) => known_extensions(media_type@) == Some(list.deep_view()),
            None => known_extensions(media_type@) is None,
        },
{
    match media_type.parse::<mime_guess::Mime>() {
        Ok(mime) => mime_guess::get_mime_extensions(&mime).map(|list| list.to_vec()),
        Err(_) => None,
    }
}

/// The extensions listed for a media type; none where it is not known.
pub open spec fn extensions_for(media_type: Seq<char>) -> Seq<Seq<char>> {
    match known_extensions(media_type) {
        Some(list) => list,
        None => Seq::empty(),
    }
}

/// Whether `token` is listed for one of the first `n` of `types`.
pub open spec fn listed_among(types: Seq<Seq<char>>, n: int, token: Seq<char>) -> bool {
    exists|i: int| 0 <= i < n && i < types.len() && #[trigger] extensions_for(types[i]).contains(token)
}

/// The extensions listed for the first `n` of `types`, taken together.
pub open spec fn gathered(types: Seq<Seq<char>>, n: int) -> Set<Seq<char>> {
    Set::new(|token: Seq<char>| listed_among(types, n, token))
}

/// Every extension that shares a media type with `proper`: the extensions
/// listed for any of the media types listed for `proper`.
pub open spec fn base_class(proper: Seq<char>) -> Set<Seq<char>> {
    gathered(media_types(proper), media_types(proper).len() as int)
}

/// One more media type adds the extensions listed for it.
proof fn lemma_gathered_step(types: Seq<Seq<char>>, n: int)
    requires
        0 <= n < types.len(),
    ensures
        gathered(types, n + 1) == gathered(types, n).union(extensions_for(types[n]).to_set()),
{
    let next = gathered(types, n + 1);
    let sum = gathered(types, n).union(extensions_for(types[n]).to_set());
    assert forall|t: Seq<char>| next.contains(t) <==> sum.contains(t) by {
        if next.contains(t) {
            let w = choose|w: int|
                0 <= w < n + 1 && w < types.len() && #[trigger] extensions_for(types[w]).contains(t);
            if w < n {
                assert(listed_among(types, n, t));
            }
        }
        if gathered(types, n).contains(t) {
            let w = choose|w: int|
                0 <= w < n && w < types.len() && #[trigger] extensions_for(types[w]).contains(t);
            assert(0 <= w < n + 1 && extensions_for(types[w]).contains(t));
        }
        if extensions_for(types[n]).to_set().contains(t) {
            assert(extensions_for(types[n]).contains(t));
        }
    }
    assert(next =~= sum);
}

/// Looks up the media types of `proper` and gathers the extensions of each.
pub fn expand(proper: &str) -> (class: EquivalenceClass)
    ensures
        class.members() == base_class(proper@),
        strictly_increasing(class@),
{
    let types = media_types_of(proper);
    let ghost all = types.deep_view();
    let mut class = EquivalenceClass::new();
    assert(class.members() =~= gathered(all, 0));
    let mut i: usize = 0;
    while i < types.len()
        invariant
            all == types.deep_view(),
            i <= types.len(),
            strictly_increasing(class@),
            class.members() == gathered(all, i as int),
        decreases types.len() - i,
    {
        let found = extensions_of_type(types[i]);
        assert(all[i as int] == types[i as int]@);
        proof {
            lemma_gathered_step(all, i as int);
        }
        match found {
            Some(list) => {
                let ghost here = list.deep_view();
                assert(extensions_for(all[i as int]) == here);
                assert(here.take(0).to_set() =~= Set::<Seq<char>>::empty());
                assert(class.members() =~= gathered(all, i as int).union(here.take(0).to_set()));
                let mut j: usize = 0;
                while j < list.len()
                    invariant
                        here == list.deep_view(),
                        j <= list.len(),
                        strictly_increasing(class@),
                        class.members() == gathered(all, i as int).union(
                            here.take(j as int).to_set(),
                        ),
                    decreases list.len() - j,
                {
                    class.insert(list[j]);
                    proof {
                        assert(here[j as int] == list[j as int]@);
                        assert(here.take(j + 1) =~= here.take(j as int).push(here[j as int]));
                        here.take(j as int).lemma_push_to_set_commute(here[j as int]);
                        assert(class.members() =~= gathered(all, i as int).union(
                            here.take(j + 1).to_set(),
                        ));
                    }
                    j += 1;
                }
                assert(here.take(j as int) =~= here);
            },
            None => {
                assert(extensions_for(all[i as int]).to_set() =~= Set::<Seq<char>>::empty());
                assert(class.members() =~= gathered(all, i + 1));
            },
        }
        i += 1;
    }
    class
}

} // verus!
