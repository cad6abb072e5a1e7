//! The requests for the agent's configuration.

use vstd::prelude::*;
use crate::api::configuration::common::AgentConfiguration;
use crate::api::endpoint::Endpoint;
use crate::api::endpoint::EndpointDescriptor;
use crate::api::endpoint::EndpointDescriptorView;
use crate::api::endpoint::Method;
use crate::api::query::QueryOptions;
use crate::api::query::QueryOptionsView;
use crate::error::ClientError;

verus! {

/// ## Read configuration
/// This endpoint returns the configuration and member information of the local agent.
///
/// * Path: agent/self
/// * Method: GET
/// * Response: `AgentConfiguration`
/// * Reference: https://developer.hashicorp.com/consul/api-docs/agent#read-configuration
#[derive(Debug, PartialEq, Eq)]
pub struct ReadConfigurationRequest {
    pub features: Option<QueryOptions>,
    pub ns: Option<String>,
}

/// A `ReadConfigurationRequest` with its texts as sequences.
pub struct ReadConfigurationRequestView {
    pub features: Option<QueryOptionsView>,
    pub ns: Option<Seq<char>>,
}

/// The options with their texts as sequences, where there are any.
pub open spec fn features_view(features: Option<QueryOptions>) -> Option<QueryOptionsView> {
    match features {
        Some(options) => Some(options@),
        None => None,
    }
}

impl View for ReadConfigurationRequest {
    type V = ReadConfigurationRequestView;

    open spec fn view(&self) -> ReadConfigurationRequestView {
        ReadConfigurationRequestView { features: features_view(self.features), ns: self.ns.deep_view() }
    }
}

/// The path of the endpoint.
pub open spec fn read_configuration_path() -> Seq<char> {
    "agent/self"@
}

impl ReadConfigurationRequestView {
    /// The options of the call: those of the request, or none at all, and in them the
    /// namespace of the request where it names one.
    pub open spec fn options(self) -> QueryOptionsView {
        let base = match self.features {
            Some(options) => options,
            None => QueryOptionsView::unset(),
        };
        match self.ns {
            Some(ns) => QueryOptionsView { namespace: Some(ns), ..base },
            None => base,
        }
    }

    /// The call that the request stands for: a `GET` of `agent/self` with the options
    /// of the request, without fields, further parameters or a body.
    pub open spec fn call(self) -> EndpointDescriptorView {
        EndpointDescriptorView {
            method: Method::GET,
            path: read_configuration_path(),
            fields: Seq::empty(),
            query: Seq::empty(),
            options: self.options(),
            body: None,
        }
    }
}

impl Default for ReadConfigurationRequest {
    fn default() -> (r: Self)
        ensures
            r@ == (ReadConfigurationRequestView { features: None, ns: None }),
    {
        ReadConfigurationRequest { features: None, ns: None }
    }
}

impl Clone for ReadConfigurationRequest {
    fn clone(&self) -> (r: Self)
        ensures
            r == *self,
    {
        ReadConfigurationRequest { features: self.features.clone(), ns: self.ns.clone() }
    }
}

impl ReadConfigurationRequest {
    /// A builder with nothing set.
    pub fn builder() -> (r: ReadConfigurationRequestBuilder)
        ensures
            r@ == (ReadConfigurationRequestView { features: None, ns: None }),
    {
        ReadConfigurationRequestBuilder::default()
    }
}

impl Endpoint for ReadConfigurationRequest {
    type Response = AgentConfiguration;

    open spec fn described(&self) -> EndpointDescriptorView {
        self@.call()
    }

    fn descriptor(&self) -> (d: EndpointDescriptor) {
        let mut options = match &self.features {
            Some(options) => options.clone(),
            None => QueryOptions::default(),
        };
        if let Some(ns) = &self.ns {
            options.namespace = Some(ns.clone());
        }
        let d = EndpointDescriptor {
            method: Method::GET,
            path: String::from_str("agent/self"),
            fields: Vec::new(),
            query: Vec::new(),
            options,
            body: None,
        };
        assert(d@.fields =~= Seq::empty());
        assert(d@.query =~= Seq::empty());
        d
    }
}

/// A `ReadConfigurationRequest` in the making. What is not set stays absent.
#[derive(Debug, PartialEq, Eq)]
pub struct ReadConfigurationRequestBuilder {
    draft: ReadConfigurationRequest,
}

impl View for ReadConfigurationRequestBuilder {
    type V = ReadConfigurationRequestView;

    closed spec fn view(&self) -> ReadConfigurationRequestView {
        self.draft@
    }
}

impl Default for ReadConfigurationRequestBuilder {
    fn default() -> (r: Self)
        ensures
            r@ == (ReadConfigurationRequestView { features: None, ns: None }),
    {
        ReadConfigurationRequestBuilder { draft: ReadConfigurationRequest::default() }
    }
}

impl ReadConfigurationRequestBuilder {
    /// Sets the options of the query.
    pub fn features(&mut self, value: QueryOptions) -> (r: &mut Self)
        ensures
            r@ == (ReadConfigurationRequestView { features: Some(value@), ..old(self)@ }),
            *final(self) == *final(r),
    {
        self.draft.features = Some(value);
        self
    }

    /// Sets the namespace to read from.
    pub fn ns(&mut self, value: &str) -> (r: &mut Self)
        ensures
            r@ == (ReadConfigurationRequestView { ns: Some(value@), ..old(self)@ }),
            *final(self) == *final(r),
    {
        self.draft.ns = Some(String::from_str(value));
        self
    }

    /// The request as it has been set so far. No field is required, so this does not
    /// fail.
    pub fn build(&self) -> (r: Result<ReadConfigurationRequest, ClientError>)
        ensures
            r is Ok,
            r->Ok_0@ == self@,
    {
        Ok(self.draft.clone())
    }
}

} // verus!
