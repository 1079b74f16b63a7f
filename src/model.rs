use vstd::prelude::*;

use crate::error::ERC721Error;
use vstd::set_lib::lemma_len_subset;

verus! {

/// The abstract state of a registry: who owns each token, what each token
/// carries, and the balance tracked for each identity.
pub struct RegistryModel {
    pub owners: Map<u64, Seq<char>>,
    pub metadata: Map<u64, Seq<char>>,
    pub balances: Map<Seq<char>, u64>,
}

/// The tracked balance of `who`, zero for an identity never seen.
pub open spec fn balance_in(balances: Map<Seq<char>, u64>, who: Seq<char>) -> u64 {
    if balances.contains_key(who) {
        balances[who]
    } else {
        0
    }
}

/// The balances after `who` gains one token.
pub open spec fn credited(balances: Map<Seq<char>, u64>, who: Seq<char>) -> Map<Seq<char>, u64> {
    balances.insert(who, (balance_in(balances, who) + 1) as u64)
}

/// The balances after `who` gives up one token. An identity with no entry is
/// taken to hold one token, and a balance of zero stays at zero.
pub open spec fn debited(balances: Map<Seq<char>, u64>, who: Seq<char>) -> Map<Seq<char>, u64> {
    let before = if balances.contains_key(who) {
        balances[who]
    } else {
        1
    };
    balances.insert(
        who,
        if before > 0 {
            (before - 1) as u64
        } else {
            0
        },
    )
}

impl RegistryModel {
    /// The registry that holds no token and no balance.
    pub open spec fn empty() -> RegistryModel {
        RegistryModel { owners: Map::empty(), metadata: Map::empty(), balances: Map::empty() }
    }

    /// The ids of the tokens that `who` owns.
    pub open spec fn tokens_of(self, who: Seq<char>) -> Set<u64> {
        self.owners.dom().filter(|t: u64| self.owners[t] == who)
    }

    /// The registry knows finitely many tokens, and the balance tracked for
    /// each identity is at least the number of tokens it owns. (Minting an id
    /// again can leave a balance above that number, never below it.)
    pub open spec fn consistent(self) -> bool {
        &&& self.owners.dom().finite()
        &&& forall|who: Seq<char>| #[trigger] self.tokens_of(who).len() <= self.balance_of(who)
    }

    /// Whether `to` can be credited one more token without overflow.
    pub open spec fn can_credit(self, to: Seq<char>) -> bool {
        balance_in(self.balances, to) < u64::MAX
    }

    /// What `owner_of(id)` answers.
    pub open spec fn owner_of(self, id: u64) -> Result<Seq<char>, ERC721Error> {
        if self.owners.contains_key(id) {
            Ok(self.owners[id])
        } else {
            Err(ERC721Error::TokenNotFound)
        }
    }

    /// What `balance_of(who)` answers.
    pub open spec fn balance_of(self, who: Seq<char>) -> u64 {
        balance_in(self.balances, who)
    }

    /// The state after minting token `id` to `to`: the record is put in
    /// place (replacing any earlier one) and `to` is credited one token.
    pub open spec fn mint(self, to: Seq<char>, id: u64, metadata: Seq<char>) -> RegistryModel {
        RegistryModel {
            owners: self.owners.insert(id, to),
            metadata: self.metadata.insert(id, metadata),
            balances: credited(self.balances, to),
        }
    }

    /// What `transfer(from, to, id)` answers.
    pub open spec fn transfer_result(self, from: Seq<char>, to: Seq<char>, id: u64) -> Result<
        (),
        ERC721Error,
    > {
        if !self.owners.contains_key(id) {
            Err(ERC721Error::TokenNotFound)
        } else if self.owners[id] != from {
            Err(ERC721Error::NotOwner)
        } else {
            Ok(())
        }
    }

    /// The state after `transfer(from, to, id)`: on success the token passes
    /// to `to`, `from` is debited and then `to` credited; on failure nothing
    /// changes.
    pub open spec fn transfer(self, from: Seq<char>, to: Seq<char>, id: u64) -> RegistryModel {
        if self.transfer_result(from, to, id) is Ok {
            RegistryModel {
                owners: self.owners.insert(id, to),
                metadata: self.metadata,
                balances: credited(debited(self.balances, from), to),
            }
        } else {
            self
        }
    }

    /// Whether a transfer from `from` to `to` can be made without overflowing
    /// the balance of `to`.
    pub open spec fn can_transfer(self, from: Seq<char>, to: Seq<char>) -> bool {
        from == to || self.can_credit(to)
    }
}

proof fn lemma_tokens_of_finite(m: RegistryModel, who: Seq<char>)
    requires
        m.owners.dom().finite(),
    ensures
        m.tokens_of(who).finite(),
{
    lemma_len_subset(m.tokens_of(who), m.owners.dom());
}

/// The empty registry is consistent.
pub proof fn lemma_empty_consistent()
    ensures
        RegistryModel::empty().consistent(),
{
    let m = RegistryModel::empty();
    assert forall|who: Seq<char>| #[trigger] m.tokens_of(who).len() <= m.balance_of(who) by {
        assert(m.tokens_of(who) =~= Set::empty());
    }
}

/// Minting keeps a registry consistent.
pub proof fn lemma_mint_preserves_consistency(
    m: RegistryModel,
    to: Seq<char>,
    id: u64,
    metadata: Seq<char>,
)
    requires
        m.consistent(),
        m.can_credit(to),
    ensures
        m.mint(to, id, metadata).consistent(),
{
    let n = m.mint(to, id, metadata);
    assert(n.owners.dom() =~= m.owners.dom().insert(id));
    assert forall|who: Seq<char>| #[trigger] n.tokens_of(who).len() <= n.balance_of(who) by {
        lemma_tokens_of_finite(m, who);
        assert(m.tokens_of(who).len() <= m.balance_of(who));
        if who == to {
            lemma_len_subset(n.tokens_of(who), m.tokens_of(who).insert(id));
        } else {
            lemma_len_subset(n.tokens_of(who), m.tokens_of(who));
        }
    }
}

/// A successful transfer between two different identities takes exactly one
/// from the balance of the sender and adds exactly one to that of the
/// recipient, in every consistent registry.
pub proof fn lemma_transfer_moves_one(m: RegistryModel, from: Seq<char>, to: Seq<char>, t: u64)
    requires
        m.consistent(),
        m.can_credit(to),
        from != to,
        m.transfer_result(from, to, t) is Ok,
    ensures
        m.transfer(from, to, t).owner_of(t) == Ok::<Seq<char>, ERC721Error>(to),
        m.transfer(from, to, t).balance_of(from) == m.balance_of(from) - 1,
        m.transfer(from, to, t).balance_of(to) == m.balance_of(to) + 1,
{
    lemma_tokens_of_finite(m, from);
    assert(m.tokens_of(from).contains(t));
    assert(m.tokens_of(from).len() <= m.balance_of(from));
}

/// Transfers keep a registry consistent.
pub proof fn lemma_transfer_preserves_consistency(
    m: RegistryModel,
    from: Seq<char>,
    to: Seq<char>,
    t: u64,
)
    requires
        m.consistent(),
        m.can_transfer(from, to),
    ensures
        m.transfer(from, to, t).consistent(),
{
    let n = m.transfer(from, to, t);
    if m.transfer_result(from, to, t) is Ok {
        lemma_tokens_of_finite(m, from);
        assert(m.tokens_of(from).contains(t));
        assert(m.tokens_of(from).len() <= m.balance_of(from));
        assert(n.owners.dom() =~= m.owners.dom());
        if from == to {
            assert(n.owners =~= m.owners);
            assert(n.balances =~= m.balances);
        } else {
            assert forall|who: Seq<char>| #[trigger] n.tokens_of(who).len() <= n.balance_of(who) by {
                lemma_tokens_of_finite(m, who);
                assert(m.tokens_of(who).len() <= m.balance_of(who));
                if who == to {
                    lemma_len_subset(n.tokens_of(who), m.tokens_of(who).insert(t));
                } else if who == from {
                    lemma_len_subset(n.tokens_of(who), m.tokens_of(who).remove(t));
                } else {
                    lemma_len_subset(n.tokens_of(who), m.tokens_of(who));
                }
            }
        }
    }
}

/// Minting token `t` to `a` makes `a` its owner, and `a` then holds at least
/// one token.
pub proof fn lemma_mint_establishes_ownership(
    m: RegistryModel,
    a: Seq<char>,
    t: u64,
    metadata: Seq<char>,
)
    requires
        m.can_credit(a),
    ensures
        m.mint(a, t, metadata).owner_of(t) == Ok::<Seq<char>, ERC721Error>(a),
        m.mint(a, t, metadata).balance_of(a) >= 1,
{
}

/// After `a` mints token `t`, a transfer of `t` from `a` to another identity
/// `b` succeeds, makes `b` the owner, takes one from the balance of `a` and
/// adds one to the balance of `b`.
pub proof fn lemma_transfer_moves_ownership(
    m: RegistryModel,
    a: Seq<char>,
    b: Seq<char>,
    t: u64,
    metadata: Seq<char>,
)
    requires
        a != b,
        m.can_credit(a),
        m.mint(a, t, metadata).can_credit(b),
    ensures
        ({
            let minted = m.mint(a, t, metadata);
            let moved = minted.transfer(a, b, t);
            &&& minted.transfer_result(a, b, t) == Ok::<(), ERC721Error>(())
            &&& moved.owner_of(t) == Ok::<Seq<char>, ERC721Error>(b)
            &&& moved.balance_of(a) == minted.balance_of(a) - 1
            &&& moved.balance_of(b) == minted.balance_of(b) + 1
        }),
{
}

/// A transfer of a token by an identity that does not own it fails with
/// `NotOwner` and leaves the registry as it was.
pub proof fn lemma_unauthorized_transfer_fails_closed(
    m: RegistryModel,
    from: Seq<char>,
    to: Seq<char>,
    t: u64,
)
    requires
        m.owners.contains_key(t),
        m.owners[t] != from,
    ensures
        m.transfer_result(from, to, t) == Err::<(), ERC721Error>(ERC721Error::NotOwner),
        m.transfer(from, to, t) == m,
        m.transfer(from, to, t).owner_of(t) == m.owner_of(t),
        m.transfer(from, to, t).balance_of(from) == m.balance_of(from),
        m.transfer(from, to, t).balance_of(to) == m.balance_of(to),
{
}

/// Every operation on a token id that was never minted fails with
/// `TokenNotFound` and changes nothing.
pub proof fn lemma_unknown_token_fails_closed(
    m: RegistryModel,
    from: Seq<char>,
    to: Seq<char>,
    t: u64,
)
    requires
        !m.owners.contains_key(t),
    ensures
        m.owner_of(t) == Err::<Seq<char>, ERC721Error>(ERC721Error::TokenNotFound),
        m.transfer_result(from, to, t) == Err::<(), ERC721Error>(ERC721Error::TokenNotFound),
        m.transfer(from, to, t) == m,
{
}

/// An identity that never held a token has a balance of zero.
pub proof fn lemma_unknown_identity_has_zero_balance(m: RegistryModel, who: Seq<char>)
    requires
        !m.balances.contains_key(who),
    ensures
        m.balance_of(who) == 0,
{
}

/// The empty registry knows no token and no identity.
pub proof fn lemma_empty_registry(t: u64, who: Seq<char>)
    ensures
        RegistryModel::empty().owner_of(t) == Err::<Seq<char>, ERC721Error>(
            ERC721Error::TokenNotFound,
        ),
        RegistryModel::empty().balance_of(who) == 0,
{
}

} // verus!
