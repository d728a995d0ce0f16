//! The messages of the withdrawal manager.

use vstd::prelude::*;

verus! {

/// `cw721::Cw721ReceiveMsg`: the notice that a token was sent to this
/// contract. It is carried through as it comes.
#[verifier::external_type_specification]
#[verifier::external_body]
pub struct ExCw721ReceiveMsg(cw721::Cw721ReceiveMsg);

#[derive(Clone, Debug, PartialEq, Eq)]
pub struct InstantiateMsg {
    pub core_contract: String,
    pub voucher_contract: String,
    pub base_denom: String,
    pub owner: String,
}

#[derive(Clone, Copy, Debug, PartialEq, Eq)]
pub enum QueryMsg {
    Config {  },
}

#[derive(Debug)]
pub enum ExecuteMsg {
    UpdateConfig {
        owner: Option<String>,
        core_contract: Option<String>,
        voucher_contract: Option<String>,
    },
    ReceiveNft(cw721::Cw721ReceiveMsg),
}

/// The migration message; it carries nothing.
#[derive(Clone, Copy, Debug, PartialEq, Eq)]
pub struct MigrateMsg {}

} // verus!
