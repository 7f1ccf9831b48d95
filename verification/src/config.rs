use vstd::prelude::*;

verus! {

/// Connection settings for a module's optional messaging capability.
///
/// The wire protocol and client internals live outside this library; the
/// lifecycle logic only needs to know whether messaging is configured and,
/// when it is, which broker the surrounding program should connect to.
pub struct MqttConfig {
    pub host: String,
    pub port: u16,
    pub client_id: String,
}

/// Per-module runtime options. A module with `mqtt == None` runs with no
/// messaging capability at all.
pub struct ModuleRuntimeConfig {
    pub mqtt: Option<MqttConfig>,
}

impl ModuleRuntimeConfig {
    /// Whether this configuration declares the messaging capability.
    pub open spec fn declares_messaging(&self) -> bool {
        self.mqtt is Some
    }
}

/// Static description of one configured module: where its bytecode lives and
/// how it should run.
pub struct ModuleConfig {
    pub wasm_module_path: String,
    pub runtime: ModuleRuntimeConfig,
}

/// The whole application configuration: a mapping from module name to module
/// description. No two entries may share a name.
pub struct AppConfig {
    pub modules: Vec<(String, ModuleConfig)>,
}

impl AppConfig {
    /// Names are unique: the mapping has at most one entry per module name.
    pub open spec fn wf(&self) -> bool {
        forall|i: int, j: int|
            0 <= i < j < self.modules@.len() ==> self.modules@[i].0@ != self.modules@[j].0@
    }
}

} // verus!
