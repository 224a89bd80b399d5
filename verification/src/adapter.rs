//! Backends and the protocols that they speak.

use vstd::prelude::*;

verus! {

/// The wire protocol of a backend.
#[derive(Clone, Copy, PartialEq, Eq, Structural, Debug)]
pub enum Protocol {
    OpenAI,
    Anthropic,
}

/// Where and how a backend is reached.
pub struct BackendConfig {
    pub name: String,
    pub url: String,
    pub protocol: Protocol,
    pub api_key: String,
    pub model: String,
}

/// What a backend configuration says.
pub struct BackendView {
    pub name: Seq<char>,
    pub url: Seq<char>,
    pub protocol: Protocol,
    pub api_key: Seq<char>,
    pub model: Seq<char>,
}

impl BackendConfig {
    pub open spec fn view(&self) -> BackendView {
        BackendView {
            name: self.name@,
            url: self.url@,
            protocol: self.protocol,
            api_key: self.api_key@,
            model: self.model@,
        }
    }
}

impl Clone for BackendConfig {
    fn clone(&self) -> (copy: Self)
        ensures
            copy@ == self@,
    {
        BackendConfig {
            name: self.name.clone(),
            url: self.url.clone(),
            protocol: self.protocol,
            api_key: self.api_key.clone(),
            model: self.model.clone(),
        }
    }
}

/// What a backend configuration says is what stands in its fields.
pub proof fn law_backends_say_what_they_hold(backend: BackendConfig)
    ensures
        backend@.name == backend.name@,
        backend@.url == backend.url@,
        backend@.protocol == backend.protocol,
        backend@.api_key == backend.api_key@,
        backend@.model == backend.model@,
{
}

} // verus!
