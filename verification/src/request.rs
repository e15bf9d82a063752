//! Request shapes of the surrounding service and the decisions the library
//! makes on them: address validation and the ether-to-wei conversion. The
//! chain calls themselves stay with the caller.

use vstd::prelude::*;
use vstd::string::StringExecFns;

use crate::error::Error;
use crate::error::ErrorView;
use crate::hex::parse_address;
use crate::hex::spec_parse_address;
use crate::token::Address;

verus! {

/// A transaction request as the service receives it.
#[derive(Debug)]
pub struct TxRequest {
    pub from: String,
    pub to: String,
    pub value: u64,
    pub gas: Option<u64>,
    pub nonce: Option<u128>,
    pub secret_key: Option<String>,
}

/// A validated transaction, ready to hand to a chain client: both
/// addresses parsed and the value converted to wei.
#[derive(Debug)]
pub struct TxPlan {
    pub from: Address,
    pub to: Address,
    pub value_wei: u128,
    pub gas: Option<u64>,
    pub nonce: Option<u128>,
}

/// A validated raw transaction: the target address parsed, the value in
/// wei, and the signing key's text carried through.
#[derive(Debug)]
pub struct RawTxPlan {
    pub to: Address,
    pub value_wei: u128,
    pub secret_key: String,
}

/// One ether in wei.
pub open spec fn wei_per_ether() -> int {
    1000000000000000000
}

/// Converts a whole-ether amount to wei. The product of a 64-bit amount
/// and 10^18 always fits in 128 bits.
pub fn eth_to_wei(value: u64) -> (r: u128)
    ensures
        r == value * wei_per_ether(),
{
    (value as u128) * 1000000000000000000u128
}

/// Validates a transaction request: both addresses must parse; a failure
/// reports the offending input. The value is converted to wei.
pub fn prepare_transaction(req: &TxRequest) -> (r: Result<TxPlan, Error>)
    ensures
        match r {
            Ok(plan) => {
                &&& spec_parse_address(req.from@) == Some(plan.from@)
                &&& spec_parse_address(req.to@) == Some(plan.to@)
                &&& plan.value_wei == req.value * wei_per_ether()
                &&& plan.gas == req.gas
                &&& plan.nonce == req.nonce
            },
            Err(e) => {
                &&& spec_parse_address(req.from@) is None ==> e@ == ErrorView::InvalidParam(
                    req.from@,
                )
                &&& spec_parse_address(req.from@) is Some ==> spec_parse_address(req.to@) is None
                    && e@ == ErrorView::InvalidParam(req.to@)
            },
        },
        r is Ok <==> spec_parse_address(req.from@) is Some && spec_parse_address(req.to@) is Some,
{
    let from = match parse_address(req.from.as_str()) {
        Some(a) => a,
        None => {
            return Err(Error::InvalidParam(req.from.clone()));
        },
    };
    let to = match parse_address(req.to.as_str()) {
        Some(a) => a,
        None => {
            return Err(Error::InvalidParam(req.to.clone()));
        },
    };
    Ok(TxPlan { from, to, value_wei: eth_to_wei(req.value), gas: req.gas, nonce: req.nonce })
}

/// Validates a raw transaction request: a signing key must be present and
/// the target address must parse; a failure reports what was missing or
/// wrong. The value is converted to wei.
pub fn prepare_raw_transaction(req: &TxRequest) -> (r: Result<RawTxPlan, Error>)
    ensures
        match r {
            Ok(plan) => {
                &&& req.secret_key matches Some(k) && plan.secret_key@ == k@
                &&& spec_parse_address(req.to@) == Some(plan.to@)
                &&& plan.value_wei == req.value * wei_per_ether()
            },
            Err(e) => {
                &&& req.secret_key is None ==> e@ == ErrorView::InvalidParam(
                    "No secret key found."@,
                )
                &&& req.secret_key is Some ==> spec_parse_address(req.to@) is None && e@
                    == ErrorView::InvalidParam(req.to@)
            },
        },
        r is Ok <==> req.secret_key is Some && spec_parse_address(req.to@) is Some,
{
    let secret_key = match &req.secret_key {
        Some(k) => k.clone(),
        None => {
            return Err(Error::InvalidParam(String::from_str("No secret key found.")));
        },
    };
    let to = match parse_address(req.to.as_str()) {
        Some(a) => a,
        None => {
            return Err(Error::InvalidParam(req.to.clone()));
        },
    };
    Ok(RawTxPlan { to, value_wei: eth_to_wei(req.value), secret_key })
}

/// The message reported when an account string does not parse.
pub open spec fn spec_account_err_msg(s: Seq<char>) -> Seq<char> {
    "account: "@ + s + " parse failed"@
}

/// Validates an account address for a balance lookup; a failure names the
/// account in its message.
pub fn parse_account(account: &str) -> (r: Result<Address, Error>)
    ensures
        match r {
            Ok(a) => spec_parse_address(account@) == Some(a@),
            Err(e) => spec_parse_address(account@) is None && e@ == ErrorView::InvalidParam(
                spec_account_err_msg(account@),
            ),
        },
        r is Ok <==> spec_parse_address(account@) is Some,
{
    match parse_address(account) {
        Some(a) => Ok(a),
        None => {
            let mut m = String::from_str("account: ");
            m.append(account);
            m.append(" parse failed");
            proof {
                assert(m@ =~= spec_account_err_msg(account@));
            }
            Err(Error::InvalidParam(m))
        },
    }
}

/// A storage-contract request as the service receives it: the contract
/// address, the sender, and the call's parameter payload.
#[derive(Debug)]
pub struct ContractRequest<T> {
    pub address: String,
    pub from: String,
    pub params: T,
}

impl<T> ContractRequest<T> {
    /// Validates the sender and contract addresses, in that order; a
    /// failure reports the offending input.
    pub fn validate_addresses(&self) -> (r: Result<(Address, Address), Error>)
        ensures
            match r {
                Ok(pair) => {
                    &&& spec_parse_address(self.from@) == Some(pair.0@)
                    &&& spec_parse_address(self.address@) == Some(pair.1@)
                },
                Err(e) => {
                    &&& spec_parse_address(self.from@) is None ==> e@ == ErrorView::InvalidParam(
                        self.from@,
                    )
                    &&& spec_parse_address(self.from@) is Some ==> spec_parse_address(
                        self.address@,
                    ) is None && e@ == ErrorView::InvalidParam(self.address@)
                },
            },
            r is Ok <==> spec_parse_address(self.from@) is Some && spec_parse_address(
                self.address@,
            ) is Some,
    {
        let from = match parse_address(self.from.as_str()) {
            Some(a) => a,
            None => {
                return Err(Error::InvalidParam(self.from.clone()));
            },
        };
        let address = match parse_address(self.address.as_str()) {
            Some(a) => a,
            None => {
                return Err(Error::InvalidParam(self.address.clone()));
            },
        };
        Ok((from, address))
    }

    /// Validates the contract address alone; a failure reports it.
    pub fn validate_target(&self) -> (r: Result<Address, Error>)
        ensures
            match r {
                Ok(a) => spec_parse_address(self.address@) == Some(a@),
                Err(e) => spec_parse_address(self.address@) is None && e@
                    == ErrorView::InvalidParam(self.address@),
            },
            r is Ok <==> spec_parse_address(self.address@) is Some,
    {
        match parse_address(self.address.as_str()) {
            Some(a) => Ok(a),
            None => Err(Error::InvalidParam(self.address.clone())),
        }
    }
}

} // verus!
