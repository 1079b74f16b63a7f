use vstd::prelude::*;

pub mod error;
pub mod model;

pub use error::ERC721Error;
pub use model::RegistryModel;

use model::{
    lemma_empty_consistent, lemma_mint_preserves_consistency, lemma_transfer_preserves_consistency,
};

use vstd::hash_map::{HashMapWithView, StringHashMap};

verus! {

broadcast use vstd::std_specs::hash::group_hash_axioms;

/// One token: its id, its current owner and the metadata it was minted with.
#[derive(Clone, Debug)]
pub struct ERC721Token {
    pub id: u64,
    pub owner: String,
    pub metadata: String,
}

impl ERC721Token {
    /// A token record with the given fields.
    pub fn new(id: u64, owner: String, metadata: String) -> (r: Self)
        ensures
            r.id == id,
            r.owner == owner,
            r.metadata == metadata,
    {
        ERC721Token { id, owner, metadata }
    }
}

/// A registry of non-fungible tokens: which identity owns each token, and how
/// many tokens each identity holds.
pub struct ERC721 {
    tokens: HashMapWithView<u64, ERC721Token>,
    balances: StringHashMap<u64>,
}

impl View for ERC721 {
    type V = RegistryModel;

    closed spec fn view(&self) -> RegistryModel {
        RegistryModel {
            owners: self.tokens@.map_values(|t: ERC721Token| t.owner@),
            metadata: self.tokens@.map_values(|t: ERC721Token| t.metadata@),
            balances: self.balances@,
        }
    }
}

impl ERC721 {
    /// Each token record sits under its own id, and the balances cover the
    /// tokens owned.
    pub closed spec fn wf(&self) -> bool {
        &&& forall|id: u64| #[trigger] self.tokens@.contains_key(id) ==> self.tokens@[id].id == id
        &&& self@.consistent()
    }

    /// An empty registry.
    pub fn new() -> (r: Self)
        ensures
            r.wf(),
            r@.consistent(),
            r@ == RegistryModel::empty(),
    {
        proof {
            lemma_empty_consistent();
        }
        let r = ERC721 { tokens: HashMapWithView::new(), balances: StringHashMap::new() };
        assert(r@.owners =~= Map::empty());
        assert(r@.metadata =~= Map::empty());
        r
    }

    /// Puts token `token_id` in place with owner `to`, replacing any earlier
    /// record of that id, and credits `to` one token.
    pub fn mint(&mut self, to: String, token_id: u64, metadata: String)
        requires
            old(self).wf(),
            old(self)@.can_credit(to@),
        ensures
            final(self).wf(),
            final(self)@.consistent(),
            final(self)@ == old(self)@.mint(to@, token_id, metadata@),
    {
        proof {
            lemma_mint_preserves_consistency(self@, to@, token_id, metadata@);
        }
        let token = ERC721Token::new(token_id, to.clone(), metadata);
        self.tokens.insert(token_id, token);
        let before: u64 = match self.balances.get(to.as_str()) {
            Some(b) => *b,
            None => 0,
        };
        self.balances.insert(to, before + 1);
        assert(self@.owners =~= old(self)@.owners.insert(token_id, to@));
        assert(self@.metadata =~= old(self)@.metadata.insert(token_id, metadata@));
    }

    /// Moves token `token_id` from `from` to `to`. Fails with `TokenNotFound`
    /// when the id was never minted and with `NotOwner` when `from` does not
    /// own it; a failed transfer changes nothing.
    pub fn transfer(&mut self, from: String, to: String, token_id: u64) -> (r: Result<(), ERC721Error>)
        requires
            old(self).wf(),
            old(self)@.can_transfer(from@, to@),
        ensures
            final(self).wf(),
            final(self)@.consistent(),
            r == old(self)@.transfer_result(from@, to@, token_id),
            final(self)@ == old(self)@.transfer(from@, to@, token_id),
    {
        proof {
            lemma_transfer_preserves_consistency(self@, from@, to@, token_id);
        }
        let metadata = match self.tokens.get(&token_id) {
            None => {
                return Err(ERC721Error::TokenNotFound);
            },
            Some(token) => {
                if token.owner != from {
                    return Err(ERC721Error::NotOwner);
                }
                token.metadata.clone()
            },
        };
        self.tokens.insert(token_id, ERC721Token::new(token_id, to.clone(), metadata));
        let from_before: u64 = match self.balances.get(from.as_str()) {
            Some(b) => *b,
            None => 1,
        };
        let from_after: u64 = if from_before > 0 {
            from_before - 1
        } else {
            0
        };
        self.balances.insert(from, from_after);
        let to_before: u64 = match self.balances.get(to.as_str()) {
            Some(b) => *b,
            None => 0,
        };
        self.balances.insert(to, to_before + 1);
        assert(self@.owners =~= old(self)@.owners.insert(token_id, to@));
        assert(self@.metadata =~= old(self)@.metadata);
        Ok(())
    }

    /// The owner of token `token_id`, or `TokenNotFound`.
    pub fn owner_of(&self, token_id: u64) -> (r: Result<&String, ERC721Error>)
        ensures
            match r {
                Ok(owner) => self@.owner_of(token_id) == Ok::<Seq<char>, ERC721Error>(owner@),
                Err(e) => self@.owner_of(token_id) == Err::<Seq<char>, ERC721Error>(e),
            },
    {
        match self.tokens.get(&token_id) {
            Some(token) => Ok(&token.owner),
            None => Err(ERC721Error::TokenNotFound),
        }
    }

    /// The balance tracked for `owner`, zero for an identity never seen.
    pub fn balance_of(&self, owner: &String) -> (r: u64)
        ensures
            r == self@.balance_of(owner@),
    {
        match self.balances.get(owner.as_str()) {
            Some(b) => *b,
            None => 0,
        }
    }
}

} // verus!
