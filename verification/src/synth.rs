//! Relay configuration synthesis: the chain registry document, and the relay
//! configuration stitched from the relay module's base template and one
//! rewritten template fragment per chain module.

use vstd::prelude::*;
use crate::config::ModuleConfig;
use crate::error::AppError;
use crate::strutil::spec_decimal;
use crate::strutil::usize_to_string;

verus! {

/// What toml_edit produces for one chain-template fragment: the fragment
/// parsed as a document, every entry of its chain table array rewritten with
/// the given identifier, endpoints, denomination and key name, and the
/// document rendered.  Nothing when the fragment does not parse, when its top
/// level holds no chain table array, or when an entry of that array lacks
/// table-shaped event-source and gas-price entries to rewrite into.
pub uninterp spec fn chain_doc_rewritten(
    content: Seq<char>,
    id: Seq<char>,
    rpc: Seq<char>,
    grpc: Seq<char>,
    ws: Seq<char>,
    denom: Seq<char>,
    key: Seq<char>,
) -> Option<Seq<char>>;

/// Relies on toml_edit (document parsing, table access, value insertion,
/// rendering): parses the fragment and rewrites, in every entry of its
/// `chains` array of tables, the fields `id`, `rpc_addr`, `grpc_addr`,
/// `event_source.url`, `gas_price.denom` and `key_name` to the given values,
/// then renders the document.  The result is a function of the arguments
/// alone.  Every access goes through toml_edit's fallible accessors: a
/// fragment that does not parse, has no `chains` array of tables, or whose
/// entries cannot take the nested assignments yields nothing rather than a
/// panic.
#[verifier::external_body]
fn rewrite_chain_doc(
    content: &str,
    id: &str,
    rpc: &str,
    grpc: &str,
    ws: &str,
    denom: &str,
    key: &str,
) -> (r: Option<String>)
    ensures
        (match r {
            Some(s) => Some(s@),
            None => None::<Seq<char>>,
        }) == chain_doc_rewritten(content@, id@, rpc@, grpc@, ws@, denom@, key@),
{
    let mut doc: toml_edit::DocumentMut = content.parse().ok()?;
    let chains = doc.get_mut("chains")?.as_array_of_tables_mut()?;
    for chain in chains.iter_mut() {
        chain.insert("id", toml_edit::value(id));
        chain.insert("rpc_addr", toml_edit::value(rpc));
        chain.insert("grpc_addr", toml_edit::value(grpc));
        chain.get_mut("event_source")?.as_table_like_mut()?.insert("url", toml_edit::value(ws));
        chain.get_mut("gas_price")?.as_table_like_mut()?.insert("denom", toml_edit::value(denom));
        chain.insert("key_name", toml_edit::value(key));
    }
    Some(doc.to_string())
}

/// The chain-identifier placeholder for the chain at position `i`.
pub open spec fn spec_chain_id(i: nat) -> Seq<char> {
    "CHAIN_"@ + spec_decimal(i)
}

/// The hostname placeholder for the chain at position `i`.
pub open spec fn spec_host(i: nat) -> Seq<char> {
    "HOST_"@ + spec_decimal(i)
}

/// The RPC endpoint placeholder for the chain at position `i`.
pub open spec fn spec_rpc_addr(i: nat) -> Seq<char> {
    "http://"@ + spec_host(i) + ":26657"@
}

/// The gRPC endpoint placeholder for the chain at position `i`.
pub open spec fn spec_grpc_addr(i: nat) -> Seq<char> {
    "http://"@ + spec_host(i) + ":9090"@
}

/// The event-source URL placeholder for the chain at position `i`.
pub open spec fn spec_ws_url(i: nat) -> Seq<char> {
    "ws://"@ + spec_host(i) + ":26657/websocket"@
}

/// The gas-price denomination placeholder for the chain at position `i`.
pub open spec fn spec_denom(i: nat) -> Seq<char> {
    "DENOM_"@ + spec_decimal(i)
}

/// The relay key-name placeholder for the chain at position `i`.
pub open spec fn spec_key_name(i: nat) -> Seq<char> {
    "KEY_"@ + spec_decimal(i)
}

fn chain_id_placeholder(i: usize) -> (r: String)
    ensures
        r@ == spec_chain_id(i as nat),
{
    let n = usize_to_string(i);
    String::from_str("CHAIN_").concat(n.as_str())
}

fn host_placeholder(i: usize) -> (r: String)
    ensures
        r@ == spec_host(i as nat),
{
    let n = usize_to_string(i);
    String::from_str("HOST_").concat(n.as_str())
}

fn rpc_addr_placeholder(i: usize) -> (r: String)
    ensures
        r@ == spec_rpc_addr(i as nat),
{
    let host = host_placeholder(i);
    let mut s = String::from_str("http://");
    s.append(host.as_str());
    s.append(":26657");
    s
}

fn grpc_addr_placeholder(i: usize) -> (r: String)
    ensures
        r@ == spec_grpc_addr(i as nat),
{
    let host = host_placeholder(i);
    let mut s = String::from_str("http://");
    s.append(host.as_str());
    s.append(":9090");
    s
}

fn ws_url_placeholder(i: usize) -> (r: String)
    ensures
        r@ == spec_ws_url(i as nat),
{
    let host = host_placeholder(i);
    let mut s = String::from_str("ws://");
    s.append(host.as_str());
    s.append(":26657/websocket");
    s
}

fn denom_placeholder(i: usize) -> (r: String)
    ensures
        r@ == spec_denom(i as nat),
{
    let n = usize_to_string(i);
    String::from_str("DENOM_").concat(n.as_str())
}

fn key_name_placeholder(i: usize) -> (r: String)
    ensures
        r@ == spec_key_name(i as nat),
{
    let n = usize_to_string(i);
    String::from_str("KEY_").concat(n.as_str())
}

/// The rewritten fragment of the chain at zero-based position `i`: its
/// template content with the chain-identifying fields replaced by the
/// `i`-indexed placeholder tokens.
pub open spec fn spec_fragment(content: Seq<char>, i: nat) -> Option<Seq<char>> {
    chain_doc_rewritten(
        content,
        spec_chain_id(i),
        spec_rpc_addr(i),
        spec_grpc_addr(i),
        spec_ws_url(i),
        spec_denom(i),
        spec_key_name(i),
    )
}

/// Rewrites one chain-template fragment for the chain at position `index`.
pub fn rewrite_fragment(content: &str, index: usize) -> (r: Option<String>)
    ensures
        (match r {
            Some(s) => Some(s@),
            None => None::<Seq<char>>,
        }) == spec_fragment(content@, index as nat),
{
    let id = chain_id_placeholder(index);
    let rpc = rpc_addr_placeholder(index);
    let grpc = grpc_addr_placeholder(index);
    let ws = ws_url_placeholder(index);
    let denom = denom_placeholder(index);
    let key = key_name_placeholder(index);
    rewrite_chain_doc(
        content,
        id.as_str(),
        rpc.as_str(),
        grpc.as_str(),
        ws.as_str(),
        denom.as_str(),
        key.as_str(),
    )
}

/// Whether the first `n` chain templates all rewrite successfully.
pub open spec fn spec_fragments_ok(contents: Seq<Seq<char>>, n: int) -> bool {
    forall|i: int| 0 <= i < n ==> spec_fragment(contents[i], i as nat) is Some
}

/// The relay configuration document over the first `n` chain templates: the
/// relay template's verbatim content, then each rewritten fragment in chain
/// order, each preceded by a newline separator.
pub open spec fn spec_relay_doc_upto(base: Seq<char>, contents: Seq<Seq<char>>, n: int) -> Seq<
    char,
>
    decreases n,
{
    if n <= 0 {
        base
    } else {
        spec_relay_doc_upto(base, contents, n - 1) + "\n"@ + spec_fragment(
            contents[n - 1],
            (n - 1) as nat,
        )->Some_0
    }
}

/// The complete relay configuration document.
pub open spec fn spec_relay_doc(base: Seq<char>, contents: Seq<Seq<char>>) -> Seq<char> {
    spec_relay_doc_upto(base, contents, contents.len() as int)
}

/// Synthesizes the relay configuration document from the relay module's base
/// template content and the chain modules' template contents, in spec order.
/// Succeeds exactly when every chain fragment rewrites: one fragment that
/// does not parse, or that carries no chain table array to rewrite, aborts
/// the whole synthesis, producing nothing.
pub fn synthesize_relay_config(relay_template: &str, chain_templates: &Vec<String>) -> (r: Result<
    String,
    AppError,
>)
    ensures
        (r is Ok) == spec_fragments_ok(
            chain_templates.deep_view(),
            chain_templates.deep_view().len() as int,
        ),
        r matches Ok(doc) ==> doc@ == spec_relay_doc(relay_template@, chain_templates.deep_view()),
        r matches Err(e) ==> (e matches AppError::InvalidConfig(s) && s@
            == "Failed to rewrite chain template"@),
{
    let ghost contents = chain_templates.deep_view();
    let mut doc = relay_template.to_owned();
    let mut i: usize = 0;
    while i < chain_templates.len()
        invariant
            i <= contents.len(),
            chain_templates.deep_view() == contents,
            doc@ == spec_relay_doc_upto(relay_template@, contents, i as int),
            spec_fragments_ok(contents, i as int),
        decreases contents.len() - i,
    {
        match rewrite_fragment(chain_templates[i].as_str(), i) {
            Some(fragment) => {
                doc.append("\n");
                doc.append(fragment.as_str());
            },
            None => {
                proof {
                    assert(chain_templates@[i as int]@ == contents[i as int]);
                    assert(spec_fragment(contents[i as int], i as nat) is None);
                    assert(!spec_fragments_ok(contents, contents.len() as int));
                }
                return Err(
                    AppError::InvalidConfig(String::from_str("Failed to rewrite chain template")),
                );
            },
        }
        i = i + 1;
    }
    Ok(doc)
}


/// Law: synthesizing from a relay template and two chain templates yields
/// the relay template followed by the first template's fragment rewritten
/// with the position-0 tokens, then the second's rewritten with the
/// position-1 tokens, in that order, each preceded by a newline.
pub proof fn lemma_two_chain_document(base: Seq<char>, a: Seq<char>, b: Seq<char>)
    requires
        spec_fragment(a, 0) is Some,
        spec_fragment(b, 1) is Some,
    ensures
        spec_relay_doc(base, seq![a, b]) == base + "\n"@ + spec_fragment(a, 0)->Some_0 + "\n"@
            + spec_fragment(b, 1)->Some_0,
{
    let contents = seq![a, b];
    assert(contents[0] == a);
    assert(contents[1] == b);
    assert(contents.len() == 2);
    assert(spec_relay_doc_upto(base, contents, 0) == base);
    assert(spec_relay_doc_upto(base, contents, 1) == base + "\n"@ + spec_fragment(a, 0)->Some_0);
    assert(spec_relay_doc_upto(base, contents, 2) == spec_relay_doc_upto(base, contents, 1)
        + "\n"@ + spec_fragment(b, 1)->Some_0);
}

/// One entry of the chain registry: the declared hostname, relayer key and
/// kind tag of one chain module.
pub struct RegistryEntry {
    /// The chain module's declared RPC hostname.
    pub hostname: String,
    /// The chain module's relayer key.
    pub key: String,
    /// The chain module's kind tag.
    pub kind: String,
}

/// The view of one registry entry: hostname, key and kind tag.
pub open spec fn spec_entry_view(e: RegistryEntry) -> (Seq<char>, Seq<char>, Seq<char>) {
    (e.hostname@, e.key@, e.kind@)
}

/// A copy of the module, field for field.
fn clone_module(m: &ModuleConfig) -> (r: ModuleConfig)
    ensures
        r == *m,
{
    ModuleConfig {
        module_dir: m.module_dir.clone(),
        _type: m._type.clone(),
        rpc_hostname: match &m.rpc_hostname {
            Some(s) => Some(s.clone()),
            None => None,
        },
        relayer_key: match &m.relayer_key {
            Some(s) => Some(s.clone()),
            None => None,
        },
        hermes_template: match &m.hermes_template {
            Some(s) => Some(s.clone()),
            None => None,
        },
        docker_env: match &m.docker_env {
            Some(s) => Some(s.clone()),
            None => None,
        },
    }
}

/// The chain modules among the first `n` modules, in spec order.
pub open spec fn spec_chain_modules_upto(modules: Seq<ModuleConfig>, n: int) -> Seq<ModuleConfig>
    decreases n,
{
    if n <= 0 {
        Seq::empty()
    } else {
        spec_chain_modules_upto(modules, n - 1) + if modules[n - 1].spec_kind() is Chain {
            seq![modules[n - 1]]
        } else {
            Seq::<ModuleConfig>::empty()
        }
    }
}

/// The chain modules of the spec, in spec order.
pub open spec fn spec_chain_modules(modules: Seq<ModuleConfig>) -> Seq<ModuleConfig> {
    spec_chain_modules_upto(modules, modules.len() as int)
}

/// Every module of the chain list is of chain kind.
pub proof fn lemma_chain_modules_are_chains(modules: Seq<ModuleConfig>, n: int)
    ensures
        forall|k: int|
            0 <= k < spec_chain_modules_upto(modules, n).len() ==> spec_chain_modules_upto(
                modules,
                n,
            )[k].spec_kind() is Chain,
    decreases n,
{
    if n > 0 {
        lemma_chain_modules_are_chains(modules, n - 1);
    }
}

/// Filters the spec down to its chain modules, in order.
pub fn chain_modules(modules: &Vec<ModuleConfig>) -> (r: Vec<ModuleConfig>)
    ensures
        r@ == spec_chain_modules(modules@),
{
    let ghost m_seq = modules@;
    let mut out: Vec<ModuleConfig> = Vec::new();
    let mut i: usize = 0;
    proof {
        assert(out@ =~= spec_chain_modules_upto(m_seq, 0));
    }
    while i < modules.len()
        invariant
            i <= m_seq.len(),
            modules@ == m_seq,
            out@ == spec_chain_modules_upto(m_seq, i as int),
        decreases m_seq.len() - i,
    {
        if modules[i].is_chain() {
            let copied = clone_module(&modules[i]);
            out.push(copied);
        }
        proof {
            assert(out@ =~= spec_chain_modules_upto(m_seq, i + 1));
        }
        i = i + 1;
    }
    out
}

/// Whether the module is a chain module that cannot enter the registry: it
/// lacks a declared hostname or a relayer key.
pub open spec fn spec_registry_incomplete(m: ModuleConfig) -> bool {
    m.spec_kind() is Chain && !(m.rpc_hostname is Some && m.relayer_key is Some)
}

/// Whether every chain module among the first `n` declares both a hostname
/// and a relayer key, so the registry can be built.
pub open spec fn spec_registry_complete(modules: Seq<ModuleConfig>, n: int) -> bool {
    forall|i: int|
        0 <= i < n && modules[i].spec_kind() is Chain ==> modules[i].rpc_hostname is Some
            && modules[i].relayer_key is Some
}

/// The registry entries of the chain modules among the first `n` modules:
/// hostname, key and kind tag, in spec order.
pub open spec fn spec_registry_upto(modules: Seq<ModuleConfig>, n: int) -> Seq<
    (Seq<char>, Seq<char>, Seq<char>),
>
    decreases n,
{
    if n <= 0 {
        Seq::empty()
    } else {
        spec_registry_upto(modules, n - 1) + if modules[n - 1].spec_kind() is Chain && modules[n
            - 1].rpc_hostname is Some && modules[n - 1].relayer_key is Some {
            seq![
                (
                    modules[n - 1].rpc_hostname->Some_0@,
                    modules[n - 1].relayer_key->Some_0@,
                    modules[n - 1]._type@,
                ),
            ]
        } else {
            Seq::<(Seq<char>, Seq<char>, Seq<char>)>::empty()
        }
    }
}

/// The chain registry of the whole spec.
pub open spec fn spec_registry(modules: Seq<ModuleConfig>) -> Seq<
    (Seq<char>, Seq<char>, Seq<char>),
> {
    spec_registry_upto(modules, modules.len() as int)
}

/// The error for a chain module that cannot enter the registry.
pub open spec fn spec_msg_registry_missing(dir: Seq<char>) -> Seq<char> {
    "Missing required fields for module: "@ + dir
        + "; both rpc_hostname and relayer_key must be specified for chain-type modules"@
}

/// Builds the chain registry: one entry per chain module, in spec order.
/// Fails on the first chain module that lacks a declared hostname or relayer
/// key — defense in depth, since validation already checks the key.
pub fn build_chain_registry(modules: &Vec<ModuleConfig>) -> (r: Result<Vec<RegistryEntry>, AppError>)
    ensures
        (r is Ok) == spec_registry_complete(modules@, modules@.len() as int),
        r matches Ok(es) ==> es@.map_values(|e: RegistryEntry| spec_entry_view(e)) == spec_registry(
            modules@,
        ),
        r matches Err(e) ==> (e matches AppError::InvalidConfig(s) && exists|i: int|
            0 <= i < modules@.len() && #[trigger] spec_registry_incomplete(modules@[i]) && (
            forall|j: int| 0 <= j < i ==> !spec_registry_incomplete(modules@[j])) && s@
                == spec_msg_registry_missing(modules@[i].module_dir@)),
{
    let ghost m_seq = modules@;
    let mut entries: Vec<RegistryEntry> = Vec::new();
    let mut i: usize = 0;
    proof {
        assert(entries@.map_values(|e: RegistryEntry| spec_entry_view(e)) =~~= spec_registry_upto(
            m_seq,
            0,
        ));
    }
    while i < modules.len()
        invariant
            i <= m_seq.len(),
            modules@ == m_seq,
            spec_registry_complete(m_seq, i as int),
            entries@.map_values(|e: RegistryEntry| spec_entry_view(e)) == spec_registry_upto(
                m_seq,
                i as int,
            ),
        decreases m_seq.len() - i,
    {
        let ghost entries_before = entries@;
        if modules[i].is_chain() {
            let hostname = match &modules[i].rpc_hostname {
                Some(h) => h.clone(),
                None => {
                    let mut msg = String::from_str("Missing required fields for module: ");
                    msg.append(modules[i].module_dir.as_str());
                    msg.append(
                        "; both rpc_hostname and relayer_key must be specified for chain-type modules",
                    );
                    proof {
                        assert(spec_registry_incomplete(m_seq[i as int]));
                        assert forall|j: int| 0 <= j < i implies !spec_registry_incomplete(
                            m_seq[j],
                        ) by {}
                    }
                    return Err(AppError::InvalidConfig(msg));
                },
            };
            let key = match &modules[i].relayer_key {
                Some(k) => k.clone(),
                None => {
                    let mut msg = String::from_str("Missing required fields for module: ");
                    msg.append(modules[i].module_dir.as_str());
                    msg.append(
                        "; both rpc_hostname and relayer_key must be specified for chain-type modules",
                    );
                    proof {
                        assert(spec_registry_incomplete(m_seq[i as int]));
                        assert forall|j: int| 0 <= j < i implies !spec_registry_incomplete(
                            m_seq[j],
                        ) by {}
                    }
                    return Err(AppError::InvalidConfig(msg));
                },
            };
            let kind = modules[i]._type.clone();
            let entry = RegistryEntry { hostname, key, kind };
            entries.push(entry);
        }
        proof {
            assert(entries@.map_values(|e: RegistryEntry| spec_entry_view(e)) =~~=
                spec_registry_upto(m_seq, i + 1));
        }
        i = i + 1;
    }
    Ok(entries)
}

/// What serde_json::to_string_pretty produces for the registry entries: a
/// pretty-printed array holding, for each entry in order, an object with the
/// fields `hostname`, `key` and `type`.
pub uninterp spec fn registry_json_of(entries: Seq<(Seq<char>, Seq<char>, Seq<char>)>) -> Seq<char>;

/// Relies on serde_json (object and array construction, to_string_pretty):
/// renders the registry entries, in order, as a pretty-printed array of
/// objects with the fields `hostname`, `key` and `type`.  The result is a
/// function of the entries alone.
#[verifier::external_body]
fn registry_json(entries: &Vec<RegistryEntry>) -> (r: String)
    ensures
        r@ == registry_json_of(entries@.map_values(|e: RegistryEntry| spec_entry_view(e))),
{
    let arr: Vec<serde_json::Value> = entries.iter().map(
        |e| {
            let mut obj = serde_json::Map::new();
            obj.insert("hostname".to_owned(), serde_json::Value::String(e.hostname.clone()));
            obj.insert("key".to_owned(), serde_json::Value::String(e.key.clone()));
            obj.insert("type".to_owned(), serde_json::Value::String(e.kind.clone()));
            serde_json::Value::Object(obj)
        },
    ).collect();
    serde_json::to_string_pretty(&serde_json::Value::Array(arr)).unwrap_or_default()
}

/// Builds the chain registry document for the spec: the registry entries of
/// its chain modules rendered as a structured list.
pub fn chainlist_json(modules: &Vec<ModuleConfig>) -> (r: Result<String, AppError>)
    ensures
        (r is Ok) == spec_registry_complete(modules@, modules@.len() as int),
        r matches Ok(doc) ==> doc@ == registry_json_of(spec_registry(modules@)),
        r matches Err(e) ==> (e matches AppError::InvalidConfig(s) && exists|i: int|
            0 <= i < modules@.len() && #[trigger] spec_registry_incomplete(modules@[i]) && (
            forall|j: int| 0 <= j < i ==> !spec_registry_incomplete(modules@[j])) && s@
                == spec_msg_registry_missing(modules@[i].module_dir@)),
{
    let entries = match build_chain_registry(modules) {
        Ok(es) => es,
        Err(e) => {
            return Err(e);
        },
    };
    Ok(registry_json(&entries))
}

/// The registry entries are the chain modules, in the same order: entry `k`
/// carries chain module `k`'s hostname, key and kind tag.
pub proof fn lemma_registry_matches_chains(modules: Seq<ModuleConfig>, n: int)
    requires
        spec_registry_complete(modules, n),
        n <= modules.len(),
    ensures
        spec_registry_upto(modules, n).len() == spec_chain_modules_upto(modules, n).len(),
        forall|k: int|
            0 <= k < spec_registry_upto(modules, n).len() ==> spec_registry_upto(modules, n)[k] == (
                spec_chain_modules_upto(modules, n)[k].rpc_hostname->Some_0@,
                spec_chain_modules_upto(modules, n)[k].relayer_key->Some_0@,
                spec_chain_modules_upto(modules, n)[k]._type@,
            ),
    decreases n,
{
    if n > 0 {
        lemma_registry_matches_chains(modules, n - 1);
        let reg_prev = spec_registry_upto(modules, n - 1);
        let ch_prev = spec_chain_modules_upto(modules, n - 1);
        if modules[n - 1].spec_kind() is Chain {
            assert(modules[n - 1].rpc_hostname is Some && modules[n - 1].relayer_key is Some);
            assert forall|k: int|
                0 <= k < spec_registry_upto(modules, n).len() implies spec_registry_upto(
                modules,
                n,
            )[k] == (
                spec_chain_modules_upto(modules, n)[k].rpc_hostname->Some_0@,
                spec_chain_modules_upto(modules, n)[k].relayer_key->Some_0@,
                spec_chain_modules_upto(modules, n)[k]._type@,
            ) by {
                if k < reg_prev.len() {
                    assert(spec_registry_upto(modules, n)[k] == reg_prev[k]);
                    assert(spec_chain_modules_upto(modules, n)[k] == ch_prev[k]);
                } else {
                    assert(spec_chain_modules_upto(modules, n)[k] == modules[n - 1]);
                }
            }
        }
    }
}

/// Law: the chain registry and the relay configuration derive from the same
/// chain-module list in the same order.  The `n`-th registry entry's hostname
/// is the `n`-th chain module's declared hostname, and the `n`-th chain
/// fragment's endpoint placeholders are built from the `n`-indexed hostname
/// token, so the `n`-th entry names the host that resolves `HOST_n`.
pub proof fn lemma_registry_aligns_with_fragments(modules: Seq<ModuleConfig>, n: int)
    requires
        spec_registry_complete(modules, modules.len() as int),
        0 <= n < spec_chain_modules(modules).len(),
    ensures
        spec_registry(modules).len() == spec_chain_modules(modules).len(),
        spec_registry(modules)[n].0 == spec_chain_modules(modules)[n].rpc_hostname->Some_0@,
        spec_rpc_addr(n as nat) == "http://"@ + spec_host(n as nat) + ":26657"@,
        spec_ws_url(n as nat) == "ws://"@ + spec_host(n as nat) + ":26657/websocket"@,
        spec_host(n as nat) == "HOST_"@ + spec_decimal(n as nat),
{
    lemma_registry_matches_chains(modules, modules.len() as int);
}

/// Law: an auxiliary module never requires a template — it resolves to none,
/// is never defaulted, and contributes no template error whatever the
/// filesystem holds — and it never enters the chain-module list from which
/// both the registry and the relay configuration are built.
pub proof fn lemma_auxiliary_excluded(modules: Seq<ModuleConfig>, i: int)
    requires
        0 <= i < modules.len(),
        modules[i].spec_kind() is Auxiliary,
    ensures
        crate::validate::spec_resolved_template(modules[i]) is None,
        !crate::validate::spec_template_defaulted(modules[i]),
        forall|se: bool, te: bool|
            #[trigger] crate::validate::spec_module_path_errors(modules[i], se, te) == crate
                ::validate::spec_module_path_errors(modules[i], se, true),
        forall|k: int|
            0 <= k < spec_chain_modules(modules).len() ==> spec_chain_modules(modules)[k]
                != modules[i],
{
    lemma_chain_modules_are_chains(modules, modules.len() as int);
    assert forall|k: int|
        0 <= k < spec_chain_modules(modules).len() implies spec_chain_modules(modules)[k]
        != modules[i] by {
        assert(spec_chain_modules(modules)[k].spec_kind() is Chain);
    }
}

} // verus!
