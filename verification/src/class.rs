//! The extensions that count as right for one type of content: a finite set of
//! tokens, kept as its one strictly increasing listing.

use vstd::prelude::*;
use crate::order::{insert_in_order, key_order, keys, lemma_increasing_unique, Keyed};
use crate::token::{
    lemma_less_asymmetric, lemma_less_irreflexive, lemma_less_total, lemma_less_transitive,
    token_less, token_order, TokenOrder,
};

verus! {

/// Each token comes before all that follow it, so none occurs twice.
pub open spec fn strictly_increasing(l: Seq<Seq<char>>) -> bool {
    forall|i: int, j: int| 0 <= i < j < l.len() ==> token_less(#[trigger] l[i], #[trigger] l[j])
}

/// `l` lists exactly the members of `s`, in increasing order.
pub open spec fn is_listing(l: Seq<Seq<char>>, s: Set<Seq<char>>) -> bool {
    strictly_increasing(l) && l.to_set() == s
}

/// The members of a finite set of tokens in increasing order.
pub open spec fn sorted_tokens(s: Set<Seq<char>>) -> Seq<Seq<char>> {
    choose|l: Seq<Seq<char>>| is_listing(l, s)
}

/// The tokens of a listing with a comma between neighbours.
pub open spec fn join_tokens(l: Seq<Seq<char>>) -> Seq<char>
    decreases l.len(),
{
    if l.len() == 0 {
        Seq::empty()
    } else if l.len() == 1 {
        l[0]
    } else {
        join_tokens(l.drop_last()) + seq![','] + l.last()
    }
}

/// A set of tokens has at most one increasing listing.
pub proof fn lemma_listing_unique(a: Seq<Seq<char>>, b: Seq<Seq<char>>)
    requires
        strictly_increasing(a),
        strictly_increasing(b),
        a.to_set() == b.to_set(),
    ensures
        a == b,
{
    String::lemma_keys_are_ordered();
    lemma_increasing_unique(a, b, key_order::<String>());
}

/// An increasing listing of a set is its sorted listing.
pub proof fn lemma_listing_is_sorted(l: Seq<Seq<char>>, s: Set<Seq<char>>)
    requires
        is_listing(l, s),
    ensures
        sorted_tokens(s) == l,
{
    lemma_listing_unique(sorted_tokens(s), l);
}

/// Texts are kept in the order of tokens.
impl Keyed for String {
    type Key = Seq<char>;

    open spec fn key(&self) -> Seq<char> {
        self@
    }

    open spec fn key_less(a: Seq<char>, b: Seq<char>) -> bool {
        token_less(a, b)
    }

    proof fn lemma_keys_are_ordered() {
        assert forall|a: Seq<char>| !#[trigger] Self::key_less(a, a) by {
            lemma_less_irreflexive(a);
        }
        assert forall|a: Seq<char>, b: Seq<char>, c: Seq<char>| #[trigger]
            Self::key_less(a, b) && #[trigger] Self::key_less(b, c) implies Self::key_less(
            a,
            c,
        ) by {
            lemma_less_transitive(a, b, c);
        }
        assert forall|a: Seq<char>, b: Seq<char>|
            a == b || #[trigger] Self::key_less(a, b) || Self::key_less(b, a) by {
            lemma_less_total(a, b);
        }
    }

    fn place(&self, other: &Self) -> (r: TokenOrder) {
        proof {
            lemma_less_total(self@, other@);
            lemma_less_irreflexive(self@);
            if token_less(self@, other@) {
                lemma_less_asymmetric(self@, other@);
            }
        }
        token_order(self.as_str(), other.as_str())
    }
}

/// A finite set of tokens.
#[derive(Debug, PartialEq, Eq)]
pub struct EquivalenceClass {
    tokens: Vec<String>,
}

impl View for EquivalenceClass {
    type V = Seq<Seq<char>>;

    /// The members, in increasing order.
    closed spec fn view(&self) -> Seq<Seq<char>> {
        Seq::new(self.tokens@.len(), |i: int| self.tokens@[i]@)
    }
}

impl EquivalenceClass {
    #[verifier::type_invariant]
    spec fn ordered(&self) -> bool {
        strictly_increasing(self@)
    }

    /// The tokens that belong to the class.
    pub open spec fn members(&self) -> Set<Seq<char>> {
        self@.to_set()
    }

    /// The class without members.
    pub fn new() -> (class: Self)
        ensures
            class@ == Seq::<Seq<char>>::empty(),
            class.members() == Set::<Seq<char>>::empty(),
    {
        let class = EquivalenceClass { tokens: Vec::new() };
        assert(class@ =~= Seq::<Seq<char>>::empty());
        assert(class@.to_set() =~= Set::<Seq<char>>::empty());
        class
    }

    /// The number of members.
    pub fn len(&self) -> (n: usize)
        ensures
            n == self@.len(),
            strictly_increasing(self@),
    {
        proof {
            use_type_invariant(self);
        }
        self.tokens.len()
    }

    /// Whether the class has no member.
    pub fn is_empty(&self) -> (r: bool)
        ensures
            r == (self@.len() == 0),
            r == (self.members() =~= Set::<Seq<char>>::empty()),
            strictly_increasing(self@),
    {
        proof {
            use_type_invariant(self);
            if self@.len() > 0 {
                assert(self@.to_set().contains(self@[0]));
            }
        }
        self.tokens.len() == 0
    }

    /// Whether `token` belongs to the class.
    pub fn contains(&self, token: &str) -> (r: bool)
        ensures
            r == self.members().contains(token@),
    {
        let mut i: usize = 0;
        while i < self.tokens.len()
            invariant
                i <= self.tokens.len(),
                forall|k: int| 0 <= k < i ==> self@[k] != token@,
            decreases self.tokens.len() - i,
        {
            if token_order(self.tokens[i].as_str(), token) == TokenOrder::Same {
                assert(self@[i as int] == token@);
                return true;
            }
            i += 1;
        }
        false
    }

    /// Adds `token` to the class, which keeps its other members.
    pub fn insert(&mut self, token: &str)
        ensures
            final(self).members() == old(self).members().insert(token@),
            strictly_increasing(final(self)@),
    {
        proof {
            use_type_invariant(&*self);
        }
        let ghost before = self@;
        let mut taken = EquivalenceClass::new();
        std::mem::swap(self, &mut taken);
        let mut tokens = taken.tokens;
        assert(keys(tokens@) =~= before);
        insert_in_order(&mut tokens, token.to_owned());
        assert(Seq::new(tokens@.len(), |k: int| tokens@[k]@) =~= keys(tokens@));
        *self = EquivalenceClass { tokens };
    }

    /// The members in increasing order, with a comma between neighbours.
    pub fn joined(&self) -> (text: String)
        ensures
            text@ == join_tokens(self@),
    {
        let mut text = String::new();
        let mut i: usize = 0;
        while i < self.tokens.len()
            invariant
                i <= self.tokens.len(),
                text@ == join_tokens(self@.take(i as int)),
            decreases self.tokens.len() - i,
        {
            proof {
                reveal_strlit(",");
                assert(self@.take(i + 1).drop_last() =~= self@.take(i as int));
            }
            if i > 0 {
                text.append(",");
            }
            text.append(self.tokens[i].as_str());
            assert(text@ =~= join_tokens(self@.take(i + 1)));
            i += 1;
        }
        assert(self@.take(i as int) =~= self@);
        text
    }
}

} // verus!
