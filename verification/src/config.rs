//! The configuration store: what is needed to address the remote chain.

use vstd::prelude::*;

verus! {

/// Parameters of one contract instance.
///
/// There is one live configuration per instance; it is replaced as a whole
/// and only by its owner.
#[derive(Clone, Debug, PartialEq, Eq)]
pub struct Config {
    pub connection_id: String,
    pub port_id: String,
    pub update_period: u64,
    pub remote_denom: String,
    /// The owning principal.
    pub owner: String,
}

/// Mathematical model of a [`Config`].
pub struct ConfigView {
    pub connection_id: Seq<char>,
    pub port_id: Seq<char>,
    pub update_period: u64,
    pub remote_denom: Seq<char>,
    pub owner: Seq<char>,
}

impl View for Config {
    type V = ConfigView;

    open spec fn view(&self) -> ConfigView {
        ConfigView {
            connection_id: self.connection_id@,
            port_id: self.port_id@,
            update_period: self.update_period,
            remote_denom: self.remote_denom@,
            owner: self.owner@,
        }
    }
}

impl Config {
    /// The owning principal.
    pub fn owner(&self) -> (r: &str)
        ensures
            r@ == self.owner@,
    {
        self.owner.as_str()
    }

    /// The identifier of the connection to the remote chain.
    pub fn connection_id(&self) -> (r: String)
        ensures
            r@ == self.connection_id@,
    {
        self.connection_id.clone()
    }

    /// How often the remote state is refreshed.
    pub fn update_period(&self) -> (r: u64)
        ensures
            r == self.update_period,
    {
        self.update_period
    }

    /// Whether `caller` is the owning principal.
    pub fn is_owner(&self, caller: &str) -> (r: bool)
        ensures
            r == (caller@ == self.owner@),
    {
        let who: String = caller.to_owned();
        who == self.owner
    }

    /// A copy of this configuration.
    pub fn duplicate(&self) -> (r: Config)
        ensures
            r == *self,
    {
        Config {
            connection_id: self.connection_id.clone(),
            port_id: self.port_id.clone(),
            update_period: self.update_period,
            remote_denom: self.remote_denom.clone(),
            owner: self.owner.clone(),
        }
    }
}

} // verus!
