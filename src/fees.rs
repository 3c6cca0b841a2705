use vstd::prelude::*;

use crate::error::ContractError;

verus! {

/// The character of a single decimal digit `d < 10`.
pub open spec fn digit_char(d: nat) -> char {
    seq!['0', '1', '2', '3', '4', '5', '6', '7', '8', '9'][d as int]
}

/// The decimal notation of `n`: no sign, no leading zeros.
pub open spec fn decimal(n: nat) -> Seq<char>
    decreases n,
{
    if n < 10 {
        seq![digit_char(n)]
    } else {
        decimal(n / 10).push(digit_char(n % 10))
    }
}

/// Relies on the `Display` impl of `u128` (through `ToString`): the plain
/// decimal digits of the number.
#[verifier::external_body]
pub(crate) fn decimal_string(n: u128) -> (r: String)
    ensures
        r@ == decimal(n as nat),
{
    n.to_string()
}

/// The four amounts that the fee-gated operations charge.
#[derive(Clone, Copy, Debug, PartialEq, Eq, Structural)]
pub struct Fees {
    pub post_fee: u128,
    pub thread_fee: u128,
    pub profile_fee: u128,
    pub friend_fee: u128,
}

/// The fees, each written as a decimal string.
#[derive(Debug)]
pub struct JsonFees {
    pub post_fee: String,
    pub thread_fee: String,
    pub profile_fee: String,
    pub friend_fee: String,
}

impl Fees {
    pub fn to_json_fees(&self) -> (r: JsonFees)
        ensures
            r.post_fee@ == decimal(self.post_fee as nat),
            r.thread_fee@ == decimal(self.thread_fee as nat),
            r.profile_fee@ == decimal(self.profile_fee as nat),
            r.friend_fee@ == decimal(self.friend_fee as nat),
    {
        JsonFees {
            post_fee: decimal_string(self.post_fee),
            thread_fee: decimal_string(self.thread_fee),
            profile_fee: decimal_string(self.profile_fee),
            friend_fee: decimal_string(self.friend_fee),
        }
    }
}

/// What the fee rule decides for a required amount and an attached one.
pub open spec fn fee_outcome(fee: u128, attached: u128) -> Result<(), ContractError> {
    if attached < fee {
        Err(ContractError::InsufficientFee { required: fee, refund: attached })
    } else {
        Ok(())
    }
}

/// The fee rule: an attached amount at least `fee` passes and is kept whole;
/// a smaller one fails, and the error carries the whole amount back as a refund.
pub fn apply_fee(fee: u128, attached: u128) -> (r: Result<(), ContractError>)
    ensures
        r == fee_outcome(fee, attached),
{
    if attached < fee {
        Err(ContractError::InsufficientFee { required: fee, refund: attached })
    } else {
        Ok(())
    }
}

} // verus!
