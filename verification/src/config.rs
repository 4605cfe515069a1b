//! The deployment specification: a typed module list and the classification
//! of each module into relay, auxiliary, or chain kind.

use vstd::prelude::*;

verus! {

/// One entry of the deployment specification.
pub struct ModuleConfig {
    /// Path to the module's source tree.
    pub module_dir: String,
    /// The module's kind tag: `hermes` marks the relay module, `aux` an
    /// auxiliary service, and any other value a chain module.
    pub _type: String,
    /// Hostname under which the module's RPC endpoint is reachable.
    pub rpc_hostname: Option<String>,
    /// Key the relay component uses on this chain; required for chain modules.
    pub relayer_key: Option<String>,
    /// Path to the module's relay-template fragment; when absent, non-auxiliary
    /// modules fall back to a conventional path derived from the kind tag.
    pub hermes_template: Option<String>,
    /// Comma-delimited `KEY=VALUE` pairs for the module's runtime environment file.
    pub docker_env: Option<String>,
}

/// A deployment specification: an ordered sequence of modules.
pub struct Config {
    /// The modules, in specification order.
    pub modules: Vec<ModuleConfig>,
}

/// The closed classification of a module's kind.
pub enum ModuleKind {
    /// The single component that relays messages between chain modules.
    Relay,
    /// A service with no relay participation: no template, no registry entry.
    Auxiliary,
    /// A blockchain node the relay module connects to.
    Chain,
}

/// The kind tag that marks the relay module.
pub open spec fn spec_relay_tag() -> Seq<char> {
    "hermes"@
}

/// The kind tag that marks an auxiliary module.
pub open spec fn spec_aux_tag() -> Seq<char> {
    "aux"@
}

/// How a kind tag classifies: `hermes` is the relay, `aux` is auxiliary,
/// everything else is a chain.
pub open spec fn spec_kind_of(tag: Seq<char>) -> ModuleKind {
    if tag == spec_relay_tag() {
        ModuleKind::Relay
    } else if tag == spec_aux_tag() {
        ModuleKind::Auxiliary
    } else {
        ModuleKind::Chain
    }
}

impl ModuleConfig {
    /// The module's classification.
    pub open spec fn spec_kind(&self) -> ModuleKind {
        spec_kind_of(self._type@)
    }

    /// Whether this module is the relay component.
    pub fn is_relay(&self) -> (r: bool)
        ensures
            r == (self.spec_kind() is Relay),
    {
        self._type == String::from_str("hermes")
    }

    /// Whether this module is an auxiliary service.
    pub fn is_auxiliary(&self) -> (r: bool)
        ensures
            r == (self.spec_kind() is Auxiliary),
    {
        proof {
            reveal_strlit("aux");
            reveal_strlit("hermes");
            assert(spec_aux_tag().len() == 3);
            assert(spec_relay_tag().len() == 6);
            assert(spec_aux_tag() != spec_relay_tag());
        }
        self._type == String::from_str("aux")
    }

    /// Whether this module is a chain node.
    pub fn is_chain(&self) -> (r: bool)
        ensures
            r == (self.spec_kind() is Chain),
    {
        !self.is_relay() && !self.is_auxiliary()
    }
}

} // verus!
