//! Reading the agent's configuration.

use vstd::prelude::*;
use crate::api::configuration::common::AgentConfiguration;
use crate::api::configuration::requests::ReadConfigurationRequest;
use crate::api::configuration::requests::ReadConfigurationRequestBuilder;
use crate::api::configuration::requests::ReadConfigurationRequestView;
use crate::api::engine::begin_endpoint;
use crate::api::engine::first;
use crate::api::engine::Action;
use crate::api::engine::Call;
use crate::client::ClientConfiguration;

verus! {

/// The request that `read` makes of its options: the one that they build, or the one
/// with nothing set where there are none.
pub open spec fn read_request(opts: Option<&mut ReadConfigurationRequestBuilder>) -> ReadConfigurationRequestView {
    match opts {
        Some(builder) => builder@,
        None => ReadConfigurationRequestView { features: None, ns: None },
    }
}

/// Reads the configuration and member information of the local agent.
///
/// This begins the call: it gives the request to send, with the state in which
/// `step` takes the call further.
///
/// See [ReadConfigurationRequest]
pub fn read(client: &ClientConfiguration, opts: Option<&mut ReadConfigurationRequestBuilder>) -> (r: (
    Call,
    Action<AgentConfiguration>,
))
    ensures
        (r.0, r.1@) == first::<AgentConfiguration>(client@, read_request(opts).call()),
        opts matches Some(builder) ==> *final(builder) == *builder,
{
    let t = ReadConfigurationRequest::builder();
    let endpoint = match opts {
        Some(builder) => builder.build().unwrap(),
        None => t.build().unwrap(),
    };
    begin_endpoint(client, &endpoint)
}

} // verus!
