//! What the agent reports of itself.

use vstd::prelude::*;
use crate::error::ClientError;

verus! {

/// The configuration of the local agent, as the server reports it.
#[derive(Debug, PartialEq, Eq)]
pub struct AgentConfiguration {
    pub config: Option<AgentConfig>,
}

/// The part of an agent's configuration that names it and places it.
#[derive(Debug, PartialEq, Eq)]
pub struct AgentConfig {
    pub datacenter: Option<String>,
    pub node_name: Option<String>,
    pub node_id: Option<String>,
    pub server: Option<bool>,
    pub revision: Option<String>,
    pub version: Option<String>,
}

/// An `AgentConfig` with its texts as sequences.
pub struct AgentConfigView {
    pub datacenter: Option<Seq<char>>,
    pub node_name: Option<Seq<char>>,
    pub node_id: Option<Seq<char>>,
    pub server: Option<bool>,
    pub revision: Option<Seq<char>>,
    pub version: Option<Seq<char>>,
}

/// An `AgentConfiguration` with its texts as sequences.
pub struct AgentConfigurationView {
    pub config: Option<AgentConfigView>,
}

impl DeepView for AgentConfig {
    type V = AgentConfigView;

    open spec fn deep_view(&self) -> AgentConfigView {
        AgentConfigView {
            datacenter: self.datacenter.deep_view(),
            node_name: self.node_name.deep_view(),
            node_id: self.node_id.deep_view(),
            server: self.server,
            revision: self.revision.deep_view(),
            version: self.version.deep_view(),
        }
    }
}

impl View for AgentConfig {
    type V = AgentConfigView;

    open spec fn view(&self) -> AgentConfigView {
        self.deep_view()
    }
}

impl View for AgentConfiguration {
    type V = AgentConfigurationView;

    open spec fn view(&self) -> AgentConfigurationView {
        AgentConfigurationView { config: self.config.deep_view() }
    }
}

impl AgentConfigView {
    /// The configuration of which nothing is known.
    pub open spec fn unset() -> AgentConfigView {
        AgentConfigView {
            datacenter: None,
            node_name: None,
            node_id: None,
            server: None,
            revision: None,
            version: None,
        }
    }
}

impl Default for AgentConfig {
    fn default() -> (r: Self)
        ensures
            r@ == AgentConfigView::unset(),
    {
        AgentConfig {
            datacenter: None,
            node_name: None,
            node_id: None,
            server: None,
            revision: None,
            version: None,
        }
    }
}

impl Clone for AgentConfig {
    fn clone(&self) -> (r: Self)
        ensures
            r == *self,
    {
        AgentConfig {
            datacenter: self.datacenter.clone(),
            node_name: self.node_name.clone(),
            node_id: self.node_id.clone(),
            server: self.server,
            revision: self.revision.clone(),
            version: self.version.clone(),
        }
    }
}

impl Default for AgentConfiguration {
    fn default() -> (r: Self)
        ensures
            r@ == (AgentConfigurationView { config: None }),
    {
        AgentConfiguration { config: None }
    }
}

impl Clone for AgentConfiguration {
    fn clone(&self) -> (r: Self)
        ensures
            r == *self,
    {
        AgentConfiguration { config: self.config.clone() }
    }
}

/// An `AgentConfig` in the making. What is not set stays absent.
#[derive(Debug, PartialEq, Eq)]
pub struct AgentConfigBuilder {
    draft: AgentConfig,
}

impl View for AgentConfigBuilder {
    type V = AgentConfigView;

    closed spec fn view(&self) -> AgentConfigView {
        self.draft@
    }
}

impl Default for AgentConfigBuilder {
    fn default() -> (r: Self)
        ensures
            r@ == AgentConfigView::unset(),
    {
        AgentConfigBuilder { draft: AgentConfig::default() }
    }
}

impl AgentConfigBuilder {
    /// Sets the datacenter.
    pub fn datacenter(&mut self, value: &str) -> (r: &mut Self)
        ensures
            r@ == (AgentConfigView { datacenter: Some(value@), ..old(self)@ }),
            *final(self) == *final(r),
    {
        self.draft.datacenter = Some(String::from_str(value));
        self
    }

    /// Sets the name of the node.
    pub fn node_name(&mut self, value: &str) -> (r: &mut Self)
        ensures
            r@ == (AgentConfigView { node_name: Some(value@), ..old(self)@ }),
            *final(self) == *final(r),
    {
        self.draft.node_name = Some(String::from_str(value));
        self
    }

    /// Sets the identifier of the node.
    pub fn node_id(&mut self, value: &str) -> (r: &mut Self)
        ensures
            r@ == (AgentConfigView { node_id: Some(value@), ..old(self)@ }),
            *final(self) == *final(r),
    {
        self.draft.node_id = Some(String::from_str(value));
        self
    }

    /// Sets whether the agent is a server.
    pub fn server(&mut self, value: bool) -> (r: &mut Self)
        ensures
            r@ == (AgentConfigView { server: Some(value), ..old(self)@ }),
            *final(self) == *final(r),
    {
        self.draft.server = Some(value);
        self
    }

    /// Sets the revision of the build.
    pub fn revision(&mut self, value: &str) -> (r: &mut Self)
        ensures
            r@ == (AgentConfigView { revision: Some(value@), ..old(self)@ }),
            *final(self) == *final(r),
    {
        self.draft.revision = Some(String::from_str(value));
        self
    }

    /// Sets the version of the build.
    pub fn version(&mut self, value: &str) -> (r: &mut Self)
        ensures
            r@ == (AgentConfigView { version: Some(value@), ..old(self)@ }),
            *final(self) == *final(r),
    {
        self.draft.version = Some(String::from_str(value));
        self
    }

    /// The configuration as it has been set so far. No field is required, so this
    /// does not fail.
    pub fn build(&self) -> (r: Result<AgentConfig, ClientError>)
        ensures
            r is Ok,
            r->Ok_0@ == self@,
    {
        Ok(self.draft.clone())
    }
}

/// An `AgentConfiguration` in the making. What is not set stays absent.
#[derive(Debug, PartialEq, Eq)]
pub struct AgentConfigurationBuilder {
    draft: AgentConfiguration,
}

impl View for AgentConfigurationBuilder {
    type V = AgentConfigurationView;

    closed spec fn view(&self) -> AgentConfigurationView {
        self.draft@
    }
}

impl Default for AgentConfigurationBuilder {
    fn default() -> (r: Self)
        ensures
            r@ == (AgentConfigurationView { config: None }),
    {
        AgentConfigurationBuilder { draft: AgentConfiguration::default() }
    }
}

impl AgentConfigurationBuilder {
    /// Sets the configuration.
    pub fn config(&mut self, value: AgentConfig) -> (r: &mut Self)
        ensures
            r@ == (AgentConfigurationView { config: Some(value@) }),
            *final(self) == *final(r),
    {
        self.draft.config = Some(value);
        self
    }

    /// The configuration as it has been set so far. No field is required, so this
    /// does not fail.
    pub fn build(&self) -> (r: Result<AgentConfiguration, ClientError>)
        ensures
            r is Ok,
            r->Ok_0@ == self@,
    {
        Ok(self.draft.clone())
    }
}

} // verus!
