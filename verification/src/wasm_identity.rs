//! The identity a Wasm plugin host runs under: which project and plugin it
//! serves, the exact package, the activation generation and the host
//! instance. Every host-side record is tagged with it.
use vstd::prelude::*;

verus! {

#[derive(Debug, Clone, PartialEq, Eq)]
pub struct WasmHostIdentity {
    project_id: String,
    plugin_id: String,
    package_digest: String,
    activation_generation: u64,
    host_instance_id: String,
}

impl WasmHostIdentity {
    pub closed spec fn spec_project_id(&self) -> Seq<char> {
        self.project_id@
    }

    pub closed spec fn spec_plugin_id(&self) -> Seq<char> {
        self.plugin_id@
    }

    pub closed spec fn spec_package_digest(&self) -> Seq<char> {
        self.package_digest@
    }

    pub closed spec fn spec_activation_generation(&self) -> u64 {
        self.activation_generation
    }

    pub closed spec fn spec_host_instance_id(&self) -> Seq<char> {
        self.host_instance_id@
    }

    pub fn new(
        project_id: String,
        plugin_id: String,
        package_digest: String,
        activation_generation: u64,
        host_instance_id: String,
    ) -> (r: Self)
        ensures
            r.spec_project_id() == project_id@,
            r.spec_plugin_id() == plugin_id@,
            r.spec_package_digest() == package_digest@,
            r.spec_activation_generation() == activation_generation,
            r.spec_host_instance_id() == host_instance_id@,
    {
        WasmHostIdentity {
            project_id,
            plugin_id,
            package_digest,
            activation_generation,
            host_instance_id,
        }
    }

    pub fn project_id(&self) -> (r: &str)
        ensures
            r@ == self.spec_project_id(),
    {
        self.project_id.as_str()
    }

    pub fn plugin_id(&self) -> (r: &str)
        ensures
            r@ == self.spec_plugin_id(),
    {
        self.plugin_id.as_str()
    }

    pub fn package_digest(&self) -> (r: &str)
        ensures
            r@ == self.spec_package_digest(),
    {
        self.package_digest.as_str()
    }

    pub fn activation_generation(&self) -> (r: u64)
        ensures
            r == self.spec_activation_generation(),
    {
        self.activation_generation
    }

    pub fn host_instance_id(&self) -> (r: &str)
        ensures
            r@ == self.spec_host_instance_id(),
    {
        self.host_instance_id.as_str()
    }
}

} // verus!
