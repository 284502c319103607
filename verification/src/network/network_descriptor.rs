//! A network that has been resolved: where it is reached and how long its
//! canister ids live.

use crate::config::dfinity::{
    NetworkType, DEFAULT_IC_GATEWAY, DEFAULT_IC_GATEWAY_TRAILING_SLASH,
};
use crate::text::{clone_strings, str_eq, views};
use vstd::prelude::*;

verus! {

/// A resolved network.
#[derive(Debug, PartialEq, Eq)]
pub struct NetworkDescriptor {
    pub name: String,
    pub providers: Vec<String>,
    pub network_type: NetworkType,
    pub is_ic: bool,
}

/// Whether a text names the gateway of the production network.
pub open spec fn is_ic_gateway(text: Seq<char>) -> bool {
    text == DEFAULT_IC_GATEWAY@ || text == DEFAULT_IC_GATEWAY_TRAILING_SLASH@
}

/// Whether a network is the production network: it is called `ic` or by the
/// address of the production gateway, or that gateway is its one provider.
pub open spec fn spec_is_ic(network_name: Seq<char>, providers: Seq<Seq<char>>) -> bool {
    network_name == "ic"@ || is_ic_gateway(network_name) || (providers.len() == 1 && is_ic_gateway(
        providers[0],
    ))
}

impl NetworkDescriptor {
    /// Whether the network with this name and these providers is the
    /// production network.
    pub fn is_ic(network_name: &str, providers: &Vec<String>) -> (r: bool)
        ensures
            r == spec_is_ic(network_name@, views(providers@)),
    {
        let name_match = str_eq(network_name, "ic") || str_eq(network_name, DEFAULT_IC_GATEWAY)
            || str_eq(network_name, DEFAULT_IC_GATEWAY_TRAILING_SLASH);
        let provider_match = providers.len() == 1 && (str_eq(
            providers[0].as_str(),
            DEFAULT_IC_GATEWAY,
        ) || str_eq(providers[0].as_str(), DEFAULT_IC_GATEWAY_TRAILING_SLASH));
        name_match || provider_match
    }
}

impl Clone for NetworkDescriptor {
    fn clone(&self) -> (r: Self)
        ensures
            r.name@ == self.name@,
            views(r.providers@) == views(self.providers@),
            r.network_type == self.network_type,
            r.is_ic == self.is_ic,
    {
        NetworkDescriptor {
            name: self.name.clone(),
            providers: clone_strings(&self.providers),
            network_type: self.network_type,
            is_ic: self.is_ic,
        }
    }
}

} // verus!
