//! Spec loading and validation: structural checks that abort at once, and
//! per-module checks whose failures are collected and reported as one batch.

use vstd::prelude::*;
use crate::config::Config;
use crate::config::ModuleConfig;
use crate::error::AppError;
use crate::strutil::spec_join;
use crate::strutil::join_strings;

verus! {

/// The view of an optional string.
pub open spec fn spec_opt_str(o: Option<String>) -> Option<Seq<char>> {
    match o {
        Some(s) => Some(s@),
        None => None,
    }
}

/// The conventional directory that holds fallback relay-template fragments.
pub open spec fn spec_template_root() -> Seq<char> {
    "hermes_templates/"@
}

/// The resolved relay-template path of a module: auxiliary modules have none;
/// otherwise the explicit path, or the conventional fallback derived from the
/// module's kind tag.
pub open spec fn spec_resolved_template(m: ModuleConfig) -> Option<Seq<char>> {
    if m.spec_kind() is Auxiliary {
        None
    } else {
        match m.hermes_template {
            Some(p) => Some(p@),
            None => Some(spec_template_root() + m._type@ + ".toml"@),
        }
    }
}

/// Whether the module's template path is resolved by convention rather than
/// declared explicitly.
pub open spec fn spec_template_defaulted(m: ModuleConfig) -> bool {
    !(m.spec_kind() is Auxiliary) && m.hermes_template is None
}

/// Resolves the module's relay-template fragment path.  Returns `None` for
/// auxiliary modules; otherwise the path together with whether it was
/// defaulted by convention.
pub fn resolve_template(m: &ModuleConfig) -> (r: Option<(String, bool)>)
    ensures
        (r is Some) == !(m.spec_kind() is Auxiliary),
        r matches Some(p) ==> Some(p.0@) == spec_resolved_template(*m) && p.1
            == spec_template_defaulted(*m),
{
    if m.is_auxiliary() {
        None
    } else {
        match &m.hermes_template {
            Some(p) => Some((p.clone(), false)),
            None => {
                let mut path = String::from_str("hermes_templates/");
                path.append(m._type.as_str());
                path.append(".toml");
                Some((path, true))
            },
        }
    }
}

/// How many relay-kind modules stand among the first `n`.
pub open spec fn spec_relay_count_upto(modules: Seq<ModuleConfig>, n: int) -> nat
    decreases n,
{
    if n <= 0 {
        0
    } else {
        spec_relay_count_upto(modules, n - 1) + if modules[n - 1].spec_kind() is Relay {
            1nat
        } else {
            0nat
        }
    }
}

/// How many relay-kind modules the spec holds.
pub open spec fn spec_relay_count(modules: Seq<ModuleConfig>) -> nat {
    spec_relay_count_upto(modules, modules.len() as int)
}

/// Counts the relay-kind modules.
pub fn count_relay_modules(modules: &Vec<ModuleConfig>) -> (n: usize)
    ensures
        n == spec_relay_count(modules@),
{
    let mut n: usize = 0;
    let mut i: usize = 0;
    while i < modules.len()
        invariant
            i <= modules@.len(),
            n <= i,
            n == spec_relay_count_upto(modules@, i as int),
        decreases modules@.len() - i,
    {
        if modules[i].is_relay() {
            n = n + 1;
        }
        i = i + 1;
    }
    n
}

/// The index of the first relay-kind module, if any.
pub fn find_relay_index(modules: &Vec<ModuleConfig>) -> (r: Option<usize>)
    ensures
        r matches Some(i) ==> i < modules@.len() && modules@[i as int].spec_kind() is Relay
            && forall|j: int| 0 <= j < i ==> !(modules@[j].spec_kind() is Relay),
        r is None ==> forall|j: int|
            0 <= j < modules@.len() ==> !(modules@[j].spec_kind() is Relay),
{
    let mut i: usize = 0;
    while i < modules.len()
        invariant
            i <= modules@.len(),
            forall|j: int| 0 <= j < i ==> !(modules@[j].spec_kind() is Relay),
        decreases modules@.len() - i,
    {
        if modules[i].is_relay() {
            return Some(i);
        }
        i = i + 1;
    }
    None
}

/// The error for a missing module source directory.
pub open spec fn spec_msg_missing_dir(dir: Seq<char>) -> Seq<char> {
    "Module directory not found: "@ + dir
}

/// The error for a missing relay-template fragment.
pub open spec fn spec_msg_missing_template(template: Seq<char>, dir: Seq<char>) -> Seq<char> {
    "Hermes template "@ + template + " not found for module "@ + dir
}

/// The error for a duplicated RPC hostname.
pub open spec fn spec_msg_dup_hostname(host: Seq<char>, dir: Seq<char>) -> Seq<char> {
    "Duplicate rpc_hostname "@ + host + " declared for module "@ + dir
}

/// The error for a chain module without a usable relayer key.
pub open spec fn spec_msg_missing_key(dir: Seq<char>) -> Seq<char> {
    "Relayer key not provided for "@ + dir
}

/// The warning for a spec without a relay module.
pub open spec fn spec_msg_no_relay() -> Seq<char> {
    "no Hermes module in config; is this intended? (If so, ignore this warning)"@
}

/// The warning for a template path resolved by convention.
pub open spec fn spec_msg_defaulted_template(dir: Seq<char>, tag: Seq<char>) -> Seq<char> {
    "hermes_template not specified for module "@ + dir
        + "; falling back to default value hermes_templates/"@ + tag
}

/// The note for a module directory that repeats an earlier one.
pub open spec fn spec_msg_dup_dir(dir: Seq<char>) -> Seq<char> {
    "Duplicate module_dir "@ + dir + "; the copy will be materialized under a suffixed name"@
}

/// The error that aborts loading when the deployment directory already exists.
pub open spec fn spec_msg_dir_exists(dir: Seq<char>) -> Seq<char> {
    "Deployment directory already exists: "@ + dir
}

/// The error that aborts loading when more than one relay module is present.
pub open spec fn spec_msg_multi_relay() -> Seq<char> {
    "Config cannot include more than one Hermes module"@
}

/// The path errors of one module: a missing source directory, then a missing
/// resolved template fragment.
pub open spec fn spec_module_path_errors(m: ModuleConfig, src_exists: bool, tpl_exists: bool) -> Seq<
    Seq<char>,
> {
    (if !src_exists {
        seq![spec_msg_missing_dir(m.module_dir@)]
    } else {
        Seq::empty()
    }) + (match spec_resolved_template(m) {
        Some(t) => if !tpl_exists {
            seq![spec_msg_missing_template(t, m.module_dir@)]
        } else {
            Seq::empty()
        },
        None => Seq::empty(),
    })
}

/// The path errors of the first `n` modules, in module order.
pub open spec fn spec_path_errors_upto(
    modules: Seq<ModuleConfig>,
    src_exists: Seq<bool>,
    tpl_exists: Seq<bool>,
    n: int,
) -> Seq<Seq<char>>
    decreases n,
{
    if n <= 0 {
        Seq::empty()
    } else {
        spec_path_errors_upto(modules, src_exists, tpl_exists, n - 1) + spec_module_path_errors(
            modules[n - 1],
            src_exists[n - 1],
            tpl_exists[n - 1],
        )
    }
}

/// Whether module `i` declares an RPC hostname already declared earlier.
pub open spec fn spec_dup_host_at(modules: Seq<ModuleConfig>, i: int) -> bool {
    spec_opt_str(modules[i].rpc_hostname) is Some && exists|j: int|
        0 <= j < i && spec_opt_str(modules[j].rpc_hostname) == spec_opt_str(
            modules[i].rpc_hostname,
        )
}

/// The duplicate-hostname errors of the first `n` modules.
pub open spec fn spec_dup_host_errors_upto(modules: Seq<ModuleConfig>, n: int) -> Seq<Seq<char>>
    decreases n,
{
    if n <= 0 {
        Seq::empty()
    } else {
        spec_dup_host_errors_upto(modules, n - 1) + if spec_dup_host_at(modules, n - 1) {
            seq![
                spec_msg_dup_hostname(
                    modules[n - 1].rpc_hostname->Some_0@,
                    modules[n - 1].module_dir@,
                ),
            ]
        } else {
            Seq::<Seq<char>>::empty()
        }
    }
}

/// Whether the module lacks a usable relayer key.
pub open spec fn spec_key_missing(m: ModuleConfig) -> bool {
    match m.relayer_key {
        Some(k) => k@.len() == 0,
        None => true,
    }
}

/// The missing-relayer-key errors of the chain modules among the first `n`.
pub open spec fn spec_key_errors_upto(modules: Seq<ModuleConfig>, n: int) -> Seq<Seq<char>>
    decreases n,
{
    if n <= 0 {
        Seq::empty()
    } else {
        spec_key_errors_upto(modules, n - 1) + if modules[n - 1].spec_kind() is Chain
            && spec_key_missing(modules[n - 1]) {
            seq![spec_msg_missing_key(modules[n - 1].module_dir@)]
        } else {
            Seq::<Seq<char>>::empty()
        }
    }
}

/// Every validation error of the spec, in reporting order: path errors per
/// module, duplicated hostnames, then missing relayer keys.
pub open spec fn spec_validation_errors(
    modules: Seq<ModuleConfig>,
    src_exists: Seq<bool>,
    tpl_exists: Seq<bool>,
) -> Seq<Seq<char>> {
    spec_path_errors_upto(modules, src_exists, tpl_exists, modules.len() as int)
        + spec_dup_host_errors_upto(modules, modules.len() as int) + spec_key_errors_upto(
        modules,
        modules.len() as int,
    )
}

/// The defaulted-template warnings of the first `n` modules.
pub open spec fn spec_default_warnings_upto(modules: Seq<ModuleConfig>, n: int) -> Seq<Seq<char>>
    decreases n,
{
    if n <= 0 {
        Seq::empty()
    } else {
        spec_default_warnings_upto(modules, n - 1) + if spec_template_defaulted(modules[n - 1]) {
            seq![spec_msg_defaulted_template(modules[n - 1].module_dir@, modules[n - 1]._type@)]
        } else {
            Seq::<Seq<char>>::empty()
        }
    }
}

/// Whether module `i` repeats an earlier module's source directory.
pub open spec fn spec_dup_dir_at(modules: Seq<ModuleConfig>, i: int) -> bool {
    exists|j: int| 0 <= j < i && modules[j].module_dir@ == modules[i].module_dir@
}

/// The duplicate-directory notes of the first `n` modules.
pub open spec fn spec_dup_dir_notes_upto(modules: Seq<ModuleConfig>, n: int) -> Seq<Seq<char>>
    decreases n,
{
    if n <= 0 {
        Seq::empty()
    } else {
        spec_dup_dir_notes_upto(modules, n - 1) + if spec_dup_dir_at(modules, n - 1) {
            seq![spec_msg_dup_dir(modules[n - 1].module_dir@)]
        } else {
            Seq::<Seq<char>>::empty()
        }
    }
}

/// Every validation warning, in reporting order: the missing-relay warning,
/// the defaulted-template warnings, then the duplicate-directory notes.
pub open spec fn spec_validation_warnings(modules: Seq<ModuleConfig>) -> Seq<Seq<char>> {
    (if spec_relay_count(modules) == 0 {
        seq![spec_msg_no_relay()]
    } else {
        Seq::<Seq<char>>::empty()
    }) + spec_default_warnings_upto(modules, modules.len() as int) + spec_dup_dir_notes_upto(
        modules,
        modules.len() as int,
    )
}

fn msg_missing_dir(dir: &String) -> (r: String)
    ensures
        r@ == spec_msg_missing_dir(dir@),
{
    String::from_str("Module directory not found: ").concat(dir.as_str())
}

fn msg_missing_template(template: &String, dir: &String) -> (r: String)
    ensures
        r@ == spec_msg_missing_template(template@, dir@),
{
    let mut m = String::from_str("Hermes template ");
    m.append(template.as_str());
    m.append(" not found for module ");
    m.append(dir.as_str());
    m
}

fn msg_dup_hostname(host: &String, dir: &String) -> (r: String)
    ensures
        r@ == spec_msg_dup_hostname(host@, dir@),
{
    let mut m = String::from_str("Duplicate rpc_hostname ");
    m.append(host.as_str());
    m.append(" declared for module ");
    m.append(dir.as_str());
    m
}

fn msg_missing_key(dir: &String) -> (r: String)
    ensures
        r@ == spec_msg_missing_key(dir@),
{
    String::from_str("Relayer key not provided for ").concat(dir.as_str())
}

fn msg_defaulted_template(dir: &String, tag: &String) -> (r: String)
    ensures
        r@ == spec_msg_defaulted_template(dir@, tag@),
{
    let mut m = String::from_str("hermes_template not specified for module ");
    m.append(dir.as_str());
    m.append("; falling back to default value hermes_templates/");
    m.append(tag.as_str());
    m
}

fn msg_dup_dir(dir: &String) -> (r: String)
    ensures
        r@ == spec_msg_dup_dir(dir@),
{
    let mut m = String::from_str("Duplicate module_dir ");
    m.append(dir.as_str());
    m.append("; the copy will be materialized under a suffixed name");
    m
}

/// Whether `b` declares the same hostname as `a`, both present.
fn same_declared_hostname(a: &Option<String>, b: &Option<String>) -> (r: bool)
    ensures
        r == (spec_opt_str(*a) is Some && spec_opt_str(*b) == spec_opt_str(*a)),
{
    match a {
        Some(x) => match b {
            Some(y) => *y == *x,
            None => false,
        },
        None => false,
    }
}

/// Runs every per-module check and collects all failures and warnings,
/// never stopping at the first: the caller reports them as one batch.
/// `src_exists[i]` and `tpl_exists[i]` say whether module `i`'s source
/// directory and resolved template fragment exist; the template flag is
/// ignored for auxiliary modules, which resolve to no template.
pub fn validate_modules(
    modules: &Vec<ModuleConfig>,
    src_exists: &Vec<bool>,
    tpl_exists: &Vec<bool>,
) -> (r: (Vec<String>, Vec<String>))
    requires
        src_exists@.len() == modules@.len(),
        tpl_exists@.len() == modules@.len(),
    ensures
        r.0.deep_view() == spec_validation_errors(modules@, src_exists@, tpl_exists@),
        r.1.deep_view() == spec_validation_warnings(modules@),
{
    let ghost m_seq = modules@;
    let mut errors: Vec<String> = Vec::new();
    let mut warnings: Vec<String> = Vec::new();

    let relay_count = count_relay_modules(modules);
    let ghost no_relay_part: Seq<Seq<char>> = if relay_count == 0 {
        seq![spec_msg_no_relay()]
    } else {
        Seq::<Seq<char>>::empty()
    };
    if relay_count == 0 {
        warnings.push(
            String::from_str(
                "no Hermes module in config; is this intended? (If so, ignore this warning)",
            ),
        );
    }
    proof {
        assert(warnings.deep_view() =~~= no_relay_part + spec_default_warnings_upto(m_seq, 0));
        assert(errors.deep_view() =~~= spec_path_errors_upto(m_seq, src_exists@, tpl_exists@, 0));
    }

    let mut i: usize = 0;
    while i < modules.len()
        invariant
            i <= m_seq.len(),
            modules@ == m_seq,
            src_exists@.len() == m_seq.len(),
            tpl_exists@.len() == m_seq.len(),
            errors.deep_view() == spec_path_errors_upto(m_seq, src_exists@, tpl_exists@, i as int),
            warnings.deep_view() == no_relay_part + spec_default_warnings_upto(m_seq, i as int),
        decreases m_seq.len() - i,
    {
        let ghost errs_before = errors.deep_view();
        let ghost warns_before = warnings.deep_view();
        let m = &modules[i];
        if !src_exists[i] {
            let msg = msg_missing_dir(&m.module_dir);
            errors.push(msg);
        }
        match resolve_template(m) {
            Some(tpl) => {
                if tpl.1 {
                    let w = msg_defaulted_template(&m.module_dir, &m._type);
                    warnings.push(w);
                }
                if !tpl_exists[i] {
                    let msg = msg_missing_template(&tpl.0, &m.module_dir);
                    errors.push(msg);
                }
            },
            None => {},
        }
        proof {
            let ghost warn_chunk: Seq<Seq<char>> = if spec_template_defaulted(m_seq[i as int]) {
                seq![
                    spec_msg_defaulted_template(
                        m_seq[i as int].module_dir@,
                        m_seq[i as int]._type@,
                    ),
                ]
            } else {
                Seq::<Seq<char>>::empty()
            };
            assert(warnings.deep_view() =~~= warns_before + warn_chunk);
            assert(errors.deep_view() =~~= errs_before + spec_module_path_errors(
                m_seq[i as int],
                src_exists@[i as int],
                tpl_exists@[i as int],
            ));
            assert(errors.deep_view() =~~= spec_path_errors_upto(
                m_seq,
                src_exists@,
                tpl_exists@,
                i + 1,
            ));
            assert(warnings.deep_view() =~~= no_relay_part + spec_default_warnings_upto(
                m_seq,
                i + 1,
            ));
        }
        i = i + 1;
    }
    let ghost path_part = errors.deep_view();
    proof {
        assert(path_part == spec_path_errors_upto(
            m_seq,
            src_exists@,
            tpl_exists@,
            m_seq.len() as int,
        ));
        assert(errors.deep_view() =~~= path_part + spec_dup_host_errors_upto(m_seq, 0));
    }

    let mut i2: usize = 0;
    while i2 < modules.len()
        invariant
            i2 <= m_seq.len(),
            modules@ == m_seq,
            errors.deep_view() == path_part + spec_dup_host_errors_upto(m_seq, i2 as int),
        decreases m_seq.len() - i2,
    {
        let ghost errs_before = errors.deep_view();
        let mut dup = false;
        let mut j: usize = 0;
        while j < i2
            invariant
                j <= i2 < m_seq.len(),
                modules@ == m_seq,
                dup ==> spec_dup_host_at(m_seq, i2 as int),
                !dup ==> forall|k: int|
                    0 <= k < j ==> !(spec_opt_str(m_seq[i2 as int].rpc_hostname) is Some
                        && spec_opt_str(m_seq[k].rpc_hostname) == spec_opt_str(
                        m_seq[i2 as int].rpc_hostname,
                    )),
            decreases i2 - j,
        {
            let same = same_declared_hostname(&modules[i2].rpc_hostname, &modules[j].rpc_hostname);
            if same {
                dup = true;
            }
            j = j + 1;
        }
        proof {
            if !dup && spec_dup_host_at(m_seq, i2 as int) {
                let k = choose|k: int|
                    0 <= k < i2 && spec_opt_str(m_seq[k].rpc_hostname) == spec_opt_str(
                        m_seq[i2 as int].rpc_hostname,
                    );
                assert(!(spec_opt_str(m_seq[i2 as int].rpc_hostname) is Some && spec_opt_str(
                    m_seq[k].rpc_hostname,
                ) == spec_opt_str(m_seq[i2 as int].rpc_hostname)));
                assert(false);
            }
            assert(dup == spec_dup_host_at(m_seq, i2 as int));
        }
        if dup {
            match &modules[i2].rpc_hostname {
                Some(h) => {
                    let msg = msg_dup_hostname(h, &modules[i2].module_dir);
                    errors.push(msg);
                },
                None => {},
            }
        }
        proof {
            assert(errors.deep_view() =~~= errs_before + (if spec_dup_host_at(m_seq, i2 as int) {
                seq![
                    spec_msg_dup_hostname(
                        m_seq[i2 as int].rpc_hostname->Some_0@,
                        m_seq[i2 as int].module_dir@,
                    ),
                ]
            } else {
                Seq::<Seq<char>>::empty()
            }));
            assert(errors.deep_view() =~~= path_part + spec_dup_host_errors_upto(m_seq, i2 + 1));
        }
        i2 = i2 + 1;
    }
    let ghost dup_part = errors.deep_view();
    proof {
        assert(errors.deep_view() =~~= dup_part + spec_key_errors_upto(m_seq, 0));
    }

    let mut i3: usize = 0;
    while i3 < modules.len()
        invariant
            i3 <= m_seq.len(),
            modules@ == m_seq,
            errors.deep_view() == dup_part + spec_key_errors_upto(m_seq, i3 as int),
        decreases m_seq.len() - i3,
    {
        let ghost errs_before = errors.deep_view();
        let missing = match &modules[i3].relayer_key {
            Some(k) => k.as_str().is_empty(),
            None => true,
        };
        if modules[i3].is_chain() && missing {
            let msg = msg_missing_key(&modules[i3].module_dir);
            errors.push(msg);
        }
        proof {
            assert(missing == spec_key_missing(m_seq[i3 as int]));
            assert(errors.deep_view() =~~= errs_before + (if m_seq[i3 as int].spec_kind() is Chain
                && spec_key_missing(m_seq[i3 as int]) {
                seq![spec_msg_missing_key(m_seq[i3 as int].module_dir@)]
            } else {
                Seq::<Seq<char>>::empty()
            }));
            assert(errors.deep_view() =~~= dup_part + spec_key_errors_upto(m_seq, i3 + 1));
        }
        i3 = i3 + 1;
    }

    let ghost warn_head = warnings.deep_view();
    proof {
        assert(warnings.deep_view() =~~= warn_head + spec_dup_dir_notes_upto(m_seq, 0));
    }
    let mut i4: usize = 0;
    while i4 < modules.len()
        invariant
            i4 <= m_seq.len(),
            modules@ == m_seq,
            warnings.deep_view() == warn_head + spec_dup_dir_notes_upto(m_seq, i4 as int),
        decreases m_seq.len() - i4,
    {
        let ghost warns_before = warnings.deep_view();
        let mut dup = false;
        let mut j: usize = 0;
        while j < i4
            invariant
                j <= i4 < m_seq.len(),
                modules@ == m_seq,
                dup ==> spec_dup_dir_at(m_seq, i4 as int),
                !dup ==> forall|k: int|
                    0 <= k < j ==> m_seq[k].module_dir@ != m_seq[i4 as int].module_dir@,
            decreases i4 - j,
        {
            if modules[j].module_dir == modules[i4].module_dir {
                dup = true;
            }
            j = j + 1;
        }
        proof {
            if !dup && spec_dup_dir_at(m_seq, i4 as int) {
                let k = choose|k: int|
                    0 <= k < i4 && m_seq[k].module_dir@ == m_seq[i4 as int].module_dir@;
                assert(m_seq[k].module_dir@ != m_seq[i4 as int].module_dir@);
                assert(false);
            }
            assert(dup == spec_dup_dir_at(m_seq, i4 as int));
        }
        if dup {
            let w = msg_dup_dir(&modules[i4].module_dir);
            warnings.push(w);
        }
        proof {
            assert(warnings.deep_view() =~~= warns_before + (if spec_dup_dir_at(m_seq, i4 as int) {
                seq![spec_msg_dup_dir(m_seq[i4 as int].module_dir@)]
            } else {
                Seq::<Seq<char>>::empty()
            }));
            assert(warnings.deep_view() =~~= warn_head + spec_dup_dir_notes_upto(m_seq, i4 + 1));
        }
        i4 = i4 + 1;
    }
    proof {
        assert(errors.deep_view() =~~= spec_validation_errors(m_seq, src_exists@, tpl_exists@));
        assert(warnings.deep_view() =~~= spec_validation_warnings(m_seq));
    }
    (errors, warnings)
}

/// The outcome of loading and validating a spec: the warnings on success,
/// or the single aggregated failure message.
pub open spec fn spec_load_result(
    modules: Seq<ModuleConfig>,
    dir: Seq<char>,
    dir_exists: bool,
    src_exists: Seq<bool>,
    tpl_exists: Seq<bool>,
) -> Result<Seq<Seq<char>>, Seq<char>> {
    if dir_exists {
        Err(spec_msg_dir_exists(dir))
    } else if spec_relay_count(modules) > 1 {
        Err(spec_msg_multi_relay())
    } else if spec_validation_errors(modules, src_exists, tpl_exists).len() > 0 {
        Err(spec_join(spec_validation_errors(modules, src_exists, tpl_exists), "; "@))
    } else {
        Ok(spec_validation_warnings(modules))
    }
}

/// Validates a loaded spec before any filesystem mutation.  Two structural
/// failures abort at once: a deployment directory that already exists, and
/// more than one relay module.  All other violations are collected and
/// reported together in one aggregated error; on success the collected
/// warnings come back for the caller to surface after the run.
pub fn load_and_validate(
    config: &Config,
    deployment_dir: &String,
    deployment_dir_exists: bool,
    src_exists: &Vec<bool>,
    tpl_exists: &Vec<bool>,
) -> (r: Result<Vec<String>, AppError>)
    requires
        src_exists@.len() == config.modules@.len(),
        tpl_exists@.len() == config.modules@.len(),
    ensures
        (r is Ok) == (spec_load_result(
            config.modules@,
            deployment_dir@,
            deployment_dir_exists,
            src_exists@,
            tpl_exists@,
        ) is Ok),
        r matches Ok(w) ==> Ok::<_, Seq<char>>(w.deep_view()) == spec_load_result(
            config.modules@,
            deployment_dir@,
            deployment_dir_exists,
            src_exists@,
            tpl_exists@,
        ),
        r matches Err(e) ==> e matches AppError::InvalidConfig(s) && Err::<Seq<Seq<char>>, _>(s@)
            == spec_load_result(
            config.modules@,
            deployment_dir@,
            deployment_dir_exists,
            src_exists@,
            tpl_exists@,
        ),
{
    if deployment_dir_exists {
        let mut m = String::from_str("Deployment directory already exists: ");
        m.append(deployment_dir.as_str());
        return Err(AppError::InvalidConfig(m));
    }
    let relay_count = count_relay_modules(&config.modules);
    if relay_count > 1 {
        return Err(
            AppError::InvalidConfig(
                String::from_str("Config cannot include more than one Hermes module"),
            ),
        );
    }
    let checked = validate_modules(&config.modules, src_exists, tpl_exists);
    let errors = checked.0;
    let warnings = checked.1;
    if errors.len() > 0 {
        proof {
            assert(errors.deep_view().len() == errors@.len());
        }
        return Err(AppError::InvalidConfig(join_strings(&errors, "; ")));
    }
    proof {
        assert(errors.deep_view().len() == 0);
    }
    Ok(warnings)
}


/// A sequence that contains an item still contains it after anything is
/// appended on the right.
proof fn lemma_contains_left(a: Seq<Seq<char>>, b: Seq<Seq<char>>, x: Seq<char>)
    requires
        a.contains(x),
    ensures
        (a + b).contains(x),
{
    let k = choose|k: int| 0 <= k < a.len() && a[k] == x;
    assert((a + b)[k] == x);
}

/// A sequence that contains an item still contains it after anything is
/// prepended on the left.
proof fn lemma_contains_right(a: Seq<Seq<char>>, b: Seq<Seq<char>>, x: Seq<char>)
    requires
        b.contains(x),
    ensures
        (a + b).contains(x),
{
    let k = choose|k: int| 0 <= k < b.len() && b[k] == x;
    assert((a + b)[a.len() + k] == x);
}

/// Whatever one module's path checks report appears among the path errors of
/// every run that covers that module.
proof fn lemma_path_errors_contain(
    modules: Seq<ModuleConfig>,
    src_exists: Seq<bool>,
    tpl_exists: Seq<bool>,
    n: int,
    i: int,
    x: Seq<char>,
)
    requires
        0 <= i < n,
        spec_module_path_errors(modules[i], src_exists[i], tpl_exists[i]).contains(x),
    ensures
        spec_path_errors_upto(modules, src_exists, tpl_exists, n).contains(x),
    decreases n,
{
    let prev = spec_path_errors_upto(modules, src_exists, tpl_exists, n - 1);
    let chunk = spec_module_path_errors(modules[n - 1], src_exists[n - 1], tpl_exists[n - 1]);
    if i == n - 1 {
        lemma_contains_right(prev, chunk, x);
    } else {
        lemma_path_errors_contain(modules, src_exists, tpl_exists, n - 1, i, x);
        lemma_contains_left(prev, chunk, x);
    }
}

/// A duplicated hostname at one module appears among the duplicate-hostname
/// errors of every run that covers that module.
proof fn lemma_dup_host_errors_contain(modules: Seq<ModuleConfig>, n: int, i: int)
    requires
        0 <= i < n,
        spec_dup_host_at(modules, i),
    ensures
        spec_dup_host_errors_upto(modules, n).contains(
            spec_msg_dup_hostname(modules[i].rpc_hostname->Some_0@, modules[i].module_dir@),
        ),
    decreases n,
{
    let x = spec_msg_dup_hostname(modules[i].rpc_hostname->Some_0@, modules[i].module_dir@);
    let prev = spec_dup_host_errors_upto(modules, n - 1);
    let chunk: Seq<Seq<char>> = if spec_dup_host_at(modules, n - 1) {
        seq![spec_msg_dup_hostname(modules[n - 1].rpc_hostname->Some_0@, modules[n - 1].module_dir@)]
    } else {
        Seq::<Seq<char>>::empty()
    };
    if i == n - 1 {
        assert(chunk[0] == x);
        lemma_contains_right(prev, chunk, x);
    } else {
        lemma_dup_host_errors_contain(modules, n - 1, i);
        lemma_contains_left(prev, chunk, x);
    }
}

/// A chain module without a usable relayer key is reported among the key
/// errors of every run that covers that module.
proof fn lemma_key_errors_contain(modules: Seq<ModuleConfig>, n: int, i: int)
    requires
        0 <= i < n,
        modules[i].spec_kind() is Chain,
        spec_key_missing(modules[i]),
    ensures
        spec_key_errors_upto(modules, n).contains(spec_msg_missing_key(modules[i].module_dir@)),
    decreases n,
{
    let x = spec_msg_missing_key(modules[i].module_dir@);
    let prev = spec_key_errors_upto(modules, n - 1);
    let chunk: Seq<Seq<char>> = if modules[n - 1].spec_kind() is Chain && spec_key_missing(
        modules[n - 1],
    ) {
        seq![spec_msg_missing_key(modules[n - 1].module_dir@)]
    } else {
        Seq::<Seq<char>>::empty()
    };
    if i == n - 1 {
        assert(chunk[0] == x);
        lemma_contains_right(prev, chunk, x);
    } else {
        lemma_key_errors_contain(modules, n - 1, i);
        lemma_contains_left(prev, chunk, x);
    }
}

/// Law: a spec with two or more relay-kind modules is rejected outright, so
/// no directory is ever created for it, whatever the rest of the spec and the
/// filesystem hold.
pub proof fn lemma_multi_relay_rejected(
    modules: Seq<ModuleConfig>,
    dir: Seq<char>,
    dir_exists: bool,
    src_exists: Seq<bool>,
    tpl_exists: Seq<bool>,
)
    requires
        spec_relay_count(modules) >= 2,
    ensures
        spec_load_result(modules, dir, dir_exists, src_exists, tpl_exists) is Err,
{
}

proof fn lemma_path_errors_empty(
    modules: Seq<ModuleConfig>,
    src_exists: Seq<bool>,
    tpl_exists: Seq<bool>,
    n: int,
)
    requires
        forall|i: int| 0 <= i < n ==> src_exists[i] && tpl_exists[i],
    ensures
        spec_path_errors_upto(modules, src_exists, tpl_exists, n).len() == 0,
    decreases n,
{
    if n > 0 {
        lemma_path_errors_empty(modules, src_exists, tpl_exists, n - 1);
    }
}

proof fn lemma_dup_host_errors_empty(modules: Seq<ModuleConfig>, n: int)
    requires
        forall|i: int| 0 <= i < n ==> !spec_dup_host_at(modules, i),
    ensures
        spec_dup_host_errors_upto(modules, n).len() == 0,
    decreases n,
{
    if n > 0 {
        lemma_dup_host_errors_empty(modules, n - 1);
    }
}

proof fn lemma_key_errors_empty(modules: Seq<ModuleConfig>, n: int)
    requires
        forall|i: int|
            0 <= i < n && modules[i].spec_kind() is Chain ==> !spec_key_missing(modules[i]),
    ensures
        spec_key_errors_upto(modules, n).len() == 0,
    decreases n,
{
    if n > 0 {
        lemma_key_errors_empty(modules, n - 1);
    }
}

/// Law: a spec with exactly one relay-kind module, whose source directories
/// and resolved templates all exist, whose declared hostnames are unique, and
/// whose chain modules all carry a non-empty relayer key, loads with zero
/// errors (into a deployment directory that does not exist yet).
pub proof fn lemma_valid_spec_accepted(
    modules: Seq<ModuleConfig>,
    dir: Seq<char>,
    src_exists: Seq<bool>,
    tpl_exists: Seq<bool>,
)
    requires
        spec_relay_count(modules) == 1,
        src_exists.len() == modules.len(),
        tpl_exists.len() == modules.len(),
        forall|i: int| 0 <= i < modules.len() ==> src_exists[i] && tpl_exists[i],
        forall|i: int|
            0 <= i < modules.len() && modules[i].spec_kind() is Chain ==> !spec_key_missing(
                modules[i],
            ),
        forall|i: int, j: int|
            0 <= j < i < modules.len() && spec_opt_str(modules[i].rpc_hostname) is Some
                ==> spec_opt_str(modules[j].rpc_hostname) != spec_opt_str(modules[i].rpc_hostname),
    ensures
        spec_load_result(modules, dir, false, src_exists, tpl_exists) is Ok,
        spec_validation_errors(modules, src_exists, tpl_exists).len() == 0,
{
    let n = modules.len() as int;
    assert forall|i: int| 0 <= i < n implies !spec_dup_host_at(modules, i) by {
        if spec_dup_host_at(modules, i) {
            let j = choose|j: int|
                0 <= j < i && spec_opt_str(modules[j].rpc_hostname) == spec_opt_str(
                    modules[i].rpc_hostname,
                );
            assert(spec_opt_str(modules[j].rpc_hostname) != spec_opt_str(modules[i].rpc_hostname));
        }
    }
    lemma_path_errors_empty(modules, src_exists, tpl_exists, n);
    lemma_dup_host_errors_empty(modules, n);
    lemma_key_errors_empty(modules, n);
}

/// Law: validation aggregates.  Every violated invariant of every module is
/// reported in the same batch: a chain module without a relayer key is
/// reported under its source path, and so, in the same run, are every missing
/// source directory, every missing resolved template, and every duplicated
/// hostname.
pub proof fn lemma_violations_aggregated(
    modules: Seq<ModuleConfig>,
    src_exists: Seq<bool>,
    tpl_exists: Seq<bool>,
    i: int,
)
    requires
        src_exists.len() == modules.len(),
        tpl_exists.len() == modules.len(),
        0 <= i < modules.len(),
    ensures
        modules[i].spec_kind() is Chain && spec_key_missing(modules[i]) ==> spec_validation_errors(
            modules,
            src_exists,
            tpl_exists,
        ).contains(spec_msg_missing_key(modules[i].module_dir@)),
        !src_exists[i] ==> spec_validation_errors(modules, src_exists, tpl_exists).contains(
            spec_msg_missing_dir(modules[i].module_dir@),
        ),
        !tpl_exists[i] && spec_resolved_template(modules[i]) is Some ==> spec_validation_errors(
            modules,
            src_exists,
            tpl_exists,
        ).contains(
            spec_msg_missing_template(
                spec_resolved_template(modules[i])->Some_0,
                modules[i].module_dir@,
            ),
        ),
        spec_dup_host_at(modules, i) ==> spec_validation_errors(
            modules,
            src_exists,
            tpl_exists,
        ).contains(
            spec_msg_dup_hostname(modules[i].rpc_hostname->Some_0@, modules[i].module_dir@),
        ),
{
    let n = modules.len() as int;
    let path_part = spec_path_errors_upto(modules, src_exists, tpl_exists, n);
    let dup_part = spec_dup_host_errors_upto(modules, n);
    let key_part = spec_key_errors_upto(modules, n);
    let chunk = spec_module_path_errors(modules[i], src_exists[i], tpl_exists[i]);
    let dir_sub: Seq<Seq<char>> = if !src_exists[i] {
        seq![spec_msg_missing_dir(modules[i].module_dir@)]
    } else {
        Seq::<Seq<char>>::empty()
    };
    if modules[i].spec_kind() is Chain && spec_key_missing(modules[i]) {
        lemma_key_errors_contain(modules, n, i);
        lemma_contains_right(
            path_part + dup_part,
            key_part,
            spec_msg_missing_key(modules[i].module_dir@),
        );
    }
    if !src_exists[i] {
        let x = spec_msg_missing_dir(modules[i].module_dir@);
        assert(dir_sub[0] == x);
        lemma_contains_left(dir_sub, chunk.skip(1), x);
        assert(chunk =~= dir_sub + chunk.skip(1));
        lemma_path_errors_contain(modules, src_exists, tpl_exists, n, i, x);
        lemma_contains_left(path_part, dup_part, x);
        lemma_contains_left(path_part + dup_part, key_part, x);
    }
    if !tpl_exists[i] && spec_resolved_template(modules[i]) is Some {
        let x = spec_msg_missing_template(
            spec_resolved_template(modules[i])->Some_0,
            modules[i].module_dir@,
        );
        assert(chunk =~= dir_sub + seq![x]);
        assert(seq![x][0] == x);
        lemma_contains_right(dir_sub, seq![x], x);
        lemma_path_errors_contain(modules, src_exists, tpl_exists, n, i, x);
        lemma_contains_left(path_part, dup_part, x);
        lemma_contains_left(path_part + dup_part, key_part, x);
    }
    if spec_dup_host_at(modules, i) {
        let x = spec_msg_dup_hostname(modules[i].rpc_hostname->Some_0@, modules[i].module_dir@);
        lemma_dup_host_errors_contain(modules, n, i);
        lemma_contains_right(path_part, dup_part, x);
        lemma_contains_left(path_part + dup_part, key_part, x);
    }
}

} // verus!
