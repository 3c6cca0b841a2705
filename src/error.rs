use vstd::prelude::*;

verus! {

/// Why an operation was refused. No state changes when one is returned.
#[derive(Clone, Copy, Debug, PartialEq, Eq, Structural)]
pub enum ContractError {
    /// An operator-only operation was called by someone else.
    Unauthorized,
    /// The attached payment was below `required`; all of it, `refund`, goes back to the payer.
    InsufficientFee { required: u128, refund: u128 },
    /// A thread, post or person that must exist does not.
    NotFound,
    /// A thread of that name exists already.
    AlreadyExists,
    /// The caller has no reaction on the post.
    NoReaction,
}

} // verus!
