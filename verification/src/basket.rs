use crate::address::{
    lemma_address_ext, lemma_lex_lt_irreflexive, lemma_lex_lt_total, lemma_lex_lt_transitive, lex_lt,
    Address,
};
use vstd::prelude::*;

verus! {

/// One side of a basket entry: the vault's holding account and the amount
/// exchanged per swap.
#[derive(Clone, Copy, Debug, PartialEq, Eq)]
pub struct Token {
    pub account: Address,
    pub amount: u64,
}

/// A basket entry: a token type with its holding account and amount.
#[derive(Clone, Copy, Debug, PartialEq, Eq)]
pub struct Leg {
    pub mint: Address,
    pub token: Token,
}

/// The token types of `legs` stand in strictly ascending order.
pub open spec fn ascending(legs: Seq<Leg>) -> bool {
    forall|i: int, j: int|
        #![trigger legs[i], legs[j]]
        0 <= i < j < legs.len() ==> lex_lt(legs[i].mint@, legs[j].mint@)
}

/// Some entry of `legs` is for the token type `mint`.
pub open spec fn has_mint(legs: Seq<Leg>, mint: Address) -> bool {
    exists|i: int| 0 <= i < legs.len() && #[trigger] legs[i].mint == mint
}

/// The place of an entry of `legs` for `mint`, where there is one.
pub open spec fn place_of(legs: Seq<Leg>, mint: Address) -> int {
    choose|i: int| 0 <= i < legs.len() && #[trigger] legs[i].mint == mint
}

/// The mapping from token type to holding account and amount that `legs` lists.
pub open spec fn map_of(legs: Seq<Leg>) -> Map<Address, Token> {
    Map::new(|mint: Address| has_mint(legs, mint), |mint: Address| legs[place_of(legs, mint)].token)
}

/// A mapping from token type to holding account and amount, kept in ascending
/// order of token type so that its entries line up with an account list sorted
/// the same way.
#[derive(Debug, PartialEq, Eq)]
pub struct Basket {
    legs: Vec<Leg>,
}

impl View for Basket {
    type V = Seq<Leg>;

    closed spec fn view(&self) -> Seq<Leg> {
        self.legs@
    }
}

impl Clone for Basket {
    fn clone(&self) -> (copy: Basket)
        ensures
            copy@ == self@,
    {
        let mut legs: Vec<Leg> = Vec::new();
        let mut i: usize = 0;
        while i < self.legs.len()
            invariant
                0 <= i <= self.legs@.len(),
                legs@ == self.legs@.take(i as int),
            decreases self.legs@.len() - i,
        {
            legs.push(self.legs[i]);
            assert(self.legs@.take(i + 1) =~= self.legs@.take(i as int).push(self.legs@[i as int]));
            i += 1;
        }
        proof {
            use_type_invariant(self);
            assert(self.legs@.take(self.legs@.len() as int) =~= self.legs@);
        }
        Basket { legs }
    }
}

impl Basket {
    /// The entries are in strictly ascending order of token type; no token type
    /// occurs twice. This holds of every basket that exists when the program
    /// runs.
    pub open spec fn wf(&self) -> bool {
        ascending(self@)
    }

    #[verifier::type_invariant]
    spec fn in_order(self) -> bool {
        ascending(self.legs@)
    }


    /// The basket as a mapping.
    pub open spec fn map(&self) -> Map<Address, Token> {
        map_of(self@)
    }

    /// The empty basket.
    pub fn new() -> (basket: Basket)
        ensures
            basket.wf(),
            basket@ == Seq::<Leg>::empty(),
    {
        Basket { legs: Vec::new() }
    }

    /// The basket whose entries are `legs`, which stand in ascending order
    /// of token type.
    pub(crate) fn from_ascending(legs: Vec<Leg>) -> (basket: Basket)
        requires
            ascending(legs@),
        ensures
            basket.wf(),
            basket@ == legs@,
    {
        Basket { legs }
    }

    /// Number of entries. The basket is in order, as every basket is.
    pub fn len(&self) -> (n: usize)
        ensures
            n == self@.len(),
            self.wf(),
    {
        proof {
            use_type_invariant(self);
        }
        self.legs.len()
    }

    /// The entry at place `i` in ascending order of token type.
    pub fn leg(&self, i: usize) -> (leg: Leg)
        requires
            i < self@.len(),
        ensures
            leg == self@[i as int],
    {
        self.legs[i]
    }

    /// The entries in ascending order of token type.
    pub fn legs(&self) -> (legs: &Vec<Leg>)
        ensures
            legs@ == self@,
    {
        &self.legs
    }

    /// Looks up the holding account and amount for `mint`.
    pub fn get(&self, mint: &Address) -> (found: Option<Token>)
        ensures
            self.wf(),
            found == if self.map().dom().contains(*mint) {
                Some(self.map()[*mint])
            } else {
                None
            },
    {
        proof {
            use_type_invariant(self);
        }
        let mut i: usize = 0;
        while i < self.legs.len()
            invariant
                0 <= i <= self.legs@.len(),
                self.wf(),
                forall|j: int| 0 <= j < i ==> self.legs@[j].mint != *mint,
            decreases self.legs@.len() - i,
        {
            if self.legs[i].mint == *mint {
                proof {
                    lemma_address_ext(self.legs@[i as int].mint, *mint);
                    lemma_map_of_entry(self@, i as int);
                }
                return Some(self.legs[i].token);
            }
            proof {
                lemma_address_ext(self.legs@[i as int].mint, *mint);
            }
            i += 1;
        }
        None
    }

    /// Sets the holding account and amount for `mint`, keeping the order.
    /// Returns what was stored for `mint` before, if anything.
    pub fn insert(&mut self, mint: Address, token: Token) -> (previous: Option<Token>)
        ensures
            old(self).wf(),
            final(self).wf(),
            final(self).map() == old(self).map().insert(mint, token),
            previous == if old(self).map().dom().contains(mint) {
                Some(old(self).map()[mint])
            } else {
                None
            },
            final(self)@.len() == if old(self).map().dom().contains(mint) {
                old(self)@.len()
            } else {
                old(self)@.len() + 1
            },
    {
        proof {
            use_type_invariant(&*self);
        }
        let ghost before = self@;
        let leg = Leg { mint, token };
        let mut legs = self.clone().legs;
        let mut i: usize = 0;
        while i < legs.len() && legs[i].mint.precedes(&mint)
            invariant
                0 <= i <= legs@.len(),
                legs@ == before,
                forall|j: int| 0 <= j < i ==> lex_lt(before[j].mint@, mint@),
            decreases legs@.len() - i,
        {
            i += 1;
        }
        if i < legs.len() && legs[i].mint == mint {
            let previous = legs[i].token;
            proof {
                lemma_address_ext(before[i as int].mint, mint);
                lemma_replace(before, i as int, leg);
            }
            legs[i] = leg;
            self.legs = legs;
            Some(previous)
        } else {
            proof {
                if i < before.len() {
                    lemma_address_ext(before[i as int].mint, mint);
                    lemma_lex_lt_total(before[i as int].mint@, mint@);
                }
                lemma_insert(before, i as int, leg);
            }
            legs.insert(i, leg);
            self.legs = legs;
            None
        }
    }
}

/// In an ascending list each token type has one place.
pub proof fn lemma_place_unique(legs: Seq<Leg>, i: int, j: int)
    requires
        ascending(legs),
        0 <= i < legs.len(),
        0 <= j < legs.len(),
        legs[i].mint == legs[j].mint,
    ensures
        i == j,
{
    lemma_lex_lt_irreflexive(legs[i].mint@);
}

/// An ascending list maps the token type at each place to what stands there.
pub proof fn lemma_map_of_entry(legs: Seq<Leg>, i: int)
    requires
        ascending(legs),
        0 <= i < legs.len(),
    ensures
        map_of(legs).dom().contains(legs[i].mint),
        map_of(legs)[legs[i].mint] == legs[i].token,
{
    let mint = legs[i].mint;
    assert(has_mint(legs, mint));
    lemma_place_unique(legs, i, place_of(legs, mint));
}

/// Overwriting the entry for a token type updates the mapping at that type only.
proof fn lemma_replace(legs: Seq<Leg>, at: int, leg: Leg)
    requires
        ascending(legs),
        0 <= at < legs.len(),
        legs[at].mint == leg.mint,
    ensures
        ascending(legs.update(at, leg)),
        map_of(legs.update(at, leg)) == map_of(legs).insert(leg.mint, leg.token),
        map_of(legs).dom().contains(leg.mint),
        map_of(legs)[leg.mint] == legs[at].token,
{
    let after = legs.update(at, leg);
    assert(ascending(after)) by {
        assert forall|i: int, j: int|
            #![trigger after[i], after[j]]
            0 <= i < j < after.len() implies lex_lt(after[i].mint@, after[j].mint@) by {
            assert(lex_lt(legs[i].mint@, legs[j].mint@));
        }
    }
    lemma_map_of_entry(legs, at);
    assert forall|mint: Address| has_mint(after, mint) <==> has_mint(legs, mint) by {
        if has_mint(after, mint) {
            let i = place_of(after, mint);
            assert(legs[i].mint == mint);
        }
        if has_mint(legs, mint) {
            let i = place_of(legs, mint);
            assert(after[i].mint == mint);
        }
    }
    assert forall|mint: Address| has_mint(after, mint) implies #[trigger] map_of(after)[mint]
        == map_of(legs).insert(leg.mint, leg.token)[mint] by {
        let i = place_of(after, mint);
        lemma_map_of_entry(after, i);
        if mint != leg.mint {
            assert(i != at);
            lemma_map_of_entry(legs, i);
        } else {
            lemma_place_unique(after, i, at);
        }
    }
    assert(map_of(after) =~= map_of(legs).insert(leg.mint, leg.token));
}

/// Inserting a new token type at its place in the order extends the mapping by it.
proof fn lemma_insert(legs: Seq<Leg>, at: int, leg: Leg)
    requires
        ascending(legs),
        0 <= at <= legs.len(),
        forall|j: int| 0 <= j < at ==> lex_lt(legs[j].mint@, leg.mint@),
        at < legs.len() ==> lex_lt(leg.mint@, legs[at].mint@),
    ensures
        ascending(legs.insert(at, leg)),
        !map_of(legs).dom().contains(leg.mint),
        map_of(legs.insert(at, leg)) == map_of(legs).insert(leg.mint, leg.token),
{
    let after = legs.insert(at, leg);
    assert forall|j: int| at <= j < legs.len() implies lex_lt(leg.mint@, #[trigger] legs[j].mint@) by {
        if at < j {
            assert(lex_lt(legs[at].mint@, legs[j].mint@));
            lemma_lex_lt_transitive(leg.mint@, legs[at].mint@, legs[j].mint@);
        }
    }
    assert(ascending(after)) by {
        assert forall|i: int, j: int|
            #![trigger after[i], after[j]]
            0 <= i < j < after.len() implies lex_lt(after[i].mint@, after[j].mint@) by {
            if j < at {
                assert(lex_lt(legs[i].mint@, legs[j].mint@));
            } else if j == at {
                assert(lex_lt(legs[i].mint@, leg.mint@));
            } else if i < at {
                assert(lex_lt(legs[i].mint@, legs[j - 1].mint@));
            } else if i == at {
                assert(lex_lt(leg.mint@, legs[j - 1].mint@));
            } else {
                assert(lex_lt(legs[i - 1].mint@, legs[j - 1].mint@));
            }
        }
    }
    assert(!has_mint(legs, leg.mint)) by {
        assert forall|j: int| 0 <= j < legs.len() implies #[trigger] legs[j].mint != leg.mint by {
            lemma_lex_lt_irreflexive(leg.mint@);
        }
    }
    assert forall|mint: Address|
        has_mint(after, mint) <==> (mint == leg.mint || has_mint(legs, mint)) by {
        if has_mint(after, mint) {
            let i = place_of(after, mint);
            if i < at {
                assert(legs[i].mint == mint);
            } else if i > at {
                assert(legs[i - 1].mint == mint);
            }
        }
        if mint == leg.mint {
            assert(after[at].mint == mint);
        }
        if has_mint(legs, mint) {
            let i = place_of(legs, mint);
            if i < at {
                assert(after[i].mint == mint);
            } else {
                assert(after[i + 1].mint == mint);
            }
        }
    }
    assert forall|mint: Address| has_mint(after, mint) implies #[trigger] map_of(after)[mint]
        == map_of(legs).insert(leg.mint, leg.token)[mint] by {
        let i = place_of(after, mint);
        lemma_map_of_entry(after, i);
        if mint == leg.mint {
            lemma_place_unique(after, i, at);
        } else if i < at {
            lemma_map_of_entry(legs, i);
        } else {
            assert(i != at);
            assert(after[i] == legs[i - 1]);
            lemma_map_of_entry(legs, i - 1);
        }
    }
    assert(map_of(after) =~= map_of(legs).insert(leg.mint, leg.token));
}

} // verus!
