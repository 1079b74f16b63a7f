use vstd::prelude::*;

verus! {

/// Why an operation on the registry was refused.
#[derive(Debug, Clone, Copy, PartialEq, Eq, Structural)]
pub enum ERC721Error {
    /// The operation names a token id that was never minted.
    TokenNotFound,
    /// A transfer named a sender that does not own the token.
    NotOwner,
    /// A transfer failure of no other kind.
    TransferFailed,
}

impl ERC721Error {
    /// The human-readable message of each kind.
    pub open spec fn message(self) -> Seq<char> {
        match self {
            ERC721Error::TokenNotFound => "Token not found"@,
            ERC721Error::NotOwner => "Transfer failed: Not the owner"@,
            ERC721Error::TransferFailed => "Transfer failed"@,
        }
    }

    /// Renders the error as its human-readable message.
    pub fn to_string(&self) -> (r: String)
        ensures
            r@ == self.message(),
    {
        match self {
            ERC721Error::TokenNotFound => "Token not found".to_owned(),
            ERC721Error::NotOwner => "Transfer failed: Not the owner".to_owned(),
            ERC721Error::TransferFailed => "Transfer failed".to_owned(),
        }
    }
}

} // verus!
