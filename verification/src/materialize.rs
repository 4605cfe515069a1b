//! Workspace materialization planning: deterministic, collision-free
//! destination directory names for each module, the occurrence counting that
//! resolves repeated source directories, and each module's runtime
//! environment file.

use vstd::prelude::*;
use crate::config::ModuleConfig;
use crate::validate::spec_opt_str;
use crate::strutil::spec_decimal;
use crate::strutil::usize_to_string;
use crate::strutil::spec_replace_char;
use crate::strutil::replace_char;

verus! {

/// The path without its trailing separators.
pub open spec fn spec_trim_separators(path: Seq<char>) -> Seq<char>
    decreases path.len(),
{
    if path.len() > 0 && path.last() == '/' {
        spec_trim_separators(path.drop_last())
    } else {
        path
    }
}

/// The suffix of the path after its last separator.
pub open spec fn spec_last_component(path: Seq<char>) -> Seq<char>
    decreases path.len(),
{
    if path.len() == 0 {
        path
    } else if path.last() == '/' {
        Seq::empty()
    } else {
        spec_last_component(path.drop_last()).push(path.last())
    }
}

/// The final path component of a path: everything after the last separator,
/// with trailing separators ignored.
pub open spec fn spec_base_name(path: Seq<char>) -> Seq<char> {
    spec_last_component(spec_trim_separators(path))
}

/// Cutting the trailing separators off is trimming.
proof fn lemma_trim_suffix(path: Seq<char>, end: int)
    requires
        0 <= end <= path.len(),
        forall|q: int| end <= q < path.len() ==> path[q] == '/',
        end > 0 ==> path[end - 1] != '/',
    ensures
        spec_trim_separators(path) == path.subrange(0, end),
    decreases path.len(),
{
    if path.len() == end {
        assert(path.subrange(0, end) =~= path);
    } else {
        assert(path.last() == '/');
        lemma_trim_suffix(path.drop_last(), end);
        assert(path.drop_last().subrange(0, end) =~= path.subrange(0, end));
    }
}

/// The suffix that starts after the last separator is the last component.
proof fn lemma_last_component_suffix(path: Seq<char>, k: int)
    requires
        0 <= k <= path.len(),
        forall|q: int| k <= q < path.len() ==> path[q] != '/',
        k > 0 ==> path[k - 1] == '/',
    ensures
        spec_last_component(path) == path.subrange(k, path.len() as int),
    decreases path.len(),
{
    if path.len() == k {
        assert(path.subrange(k, path.len() as int) =~= Seq::empty());
        if k > 0 {
            assert(path.last() == '/');
        } else {
            assert(path.len() == 0);
        }
    } else {
        assert(path.last() != '/');
        lemma_last_component_suffix(path.drop_last(), k);
        assert(spec_last_component(path) == path.drop_last().subrange(
            k,
            path.len() - 1 as int,
        ).push(path.last()));
        assert(path.drop_last().subrange(k, path.len() - 1 as int).push(path.last()) =~= path
            .subrange(k, path.len() as int));
    }
}

/// The final path component of the path, the destination base name of a
/// materialized module.
pub fn path_base_name(path: &String) -> (r: String)
    ensures
        r@ == spec_base_name(path@),
{
    let s = path.as_str();
    let n = s.unicode_len();
    let mut end: usize = n;
    while end > 0 && s.get_char(end - 1) == '/'
        invariant
            end <= n,
            n == s@.len(),
            forall|q: int| end <= q < n ==> s@[q] == '/',
        decreases end,
    {
        end = end - 1;
    }
    let mut start: usize = 0;
    let mut i: usize = 0;
    while i < end
        invariant
            i <= end <= n,
            n == s@.len(),
            start <= i,
            forall|q: int| start <= q < i ==> s@[q] != '/',
            start > 0 ==> s@[start - 1] == '/',
        decreases end - i,
    {
        if s.get_char(i) == '/' {
            start = i + 1;
        }
        i = i + 1;
    }
    proof {
        lemma_trim_suffix(s@, end as int);
        let trimmed = s@.subrange(0, end as int);
        lemma_last_component_suffix(trimmed, start as int);
        assert(trimmed.subrange(start as int, end as int) =~= s@.subrange(
            start as int,
            end as int,
        ));
    }
    let base = s.substring_char(start, end);
    base.to_owned()
}

/// The destination directory name for one occurrence of a base name: the
/// first occurrence keeps the bare base name, the second and later append
/// the occurrence count.
pub open spec fn spec_dest_name(base: Seq<char>, occurrence: nat) -> Seq<char> {
    if occurrence <= 1 {
        base
    } else {
        base + spec_decimal(occurrence)
    }
}

/// Forms the destination directory name for the given occurrence of a base name.
pub fn dest_dir_name(base: &String, occurrence: usize) -> (r: String)
    ensures
        r@ == spec_dest_name(base@, occurrence as nat),
{
    if occurrence <= 1 {
        base.clone()
    } else {
        let mut s = base.clone();
        let num = usize_to_string(occurrence);
        s.append(num.as_str());
        s
    }
}

/// The content of a module's runtime environment file: the declared
/// `KEY=VALUE` pairs, one per line, then a synthesized `HOSTNAME` line when
/// an RPC hostname was declared.  Nothing declared yields an empty file.
pub open spec fn spec_env_content(env: Option<Seq<char>>, host: Option<Seq<char>>) -> Seq<char> {
    (match env {
        Some(e) => spec_replace_char(e, ',', '\n') + "\n"@,
        None => Seq::<char>::empty(),
    }) + (match host {
        Some(h) => "HOSTNAME="@ + h + "\n"@,
        None => Seq::<char>::empty(),
    })
}

/// Builds the module's runtime environment file content.
pub fn env_file_content(m: &ModuleConfig) -> (r: String)
    ensures
        r@ == spec_env_content(spec_opt_str(m.docker_env), spec_opt_str(m.rpc_hostname)),
{
    let mut out = String::new();
    match &m.docker_env {
        Some(e) => {
            let rewritten = replace_char(e.as_str(), ',', '\n');
            out.append(rewritten.as_str());
            out.append("\n");
        },
        None => {},
    }
    match &m.rpc_hostname {
        Some(h) => {
            out.append("HOSTNAME=");
            out.append(h.as_str());
            out.append("\n");
        },
        None => {},
    }
    proof {
        assert(out@ =~= spec_env_content(spec_opt_str(m.docker_env), spec_opt_str(m.rpc_hostname)));
    }
    out
}

/// The occurrence counts of destination base names, threaded through one
/// sequential materialization pass.  For each name it holds the occurrence
/// number that the next use of that name receives, starting at 1.
pub struct OccurrenceCounter {
    entries: Vec<(String, usize)>,
}

impl OccurrenceCounter {
    /// Well-formed: no base name is tracked twice.
    pub closed spec fn wf(&self) -> bool {
        forall|p: int, q: int|
            0 <= p < q < self.entries@.len() ==> self.entries@[p].0@ != self.entries@[q].0@
    }

    /// The occurrence number the next use of `name` receives.
    pub closed spec fn spec_count(&self, name: Seq<char>) -> nat {
        if exists|p: int| 0 <= p < self.entries@.len() && self.entries@[p].0@ == name {
            let p = choose|p: int|
                0 <= p < self.entries@.len() && self.entries@[p].0@ == name;
            self.entries@[p].1 as nat
        } else {
            1
        }
    }

    /// In a well-formed counter the tracked entry at `p` gives its name's count.
    proof fn lemma_count_at(&self, p: int)
        requires
            self.wf(),
            0 <= p < self.entries@.len(),
        ensures
            self.spec_count(self.entries@[p].0@) == self.entries@[p].1 as nat,
    {
        let name = self.entries@[p].0@;
        assert(exists|q: int| 0 <= q < self.entries@.len() && self.entries@[q].0@ == name);
        let q = choose|q: int| 0 <= q < self.entries@.len() && self.entries@[q].0@ == name;
        if q != p {
            assert(self.entries@[p].0@ != self.entries@[q].0@);
        }
    }

    /// A fresh counter: every name's next occurrence is 1.
    pub fn new() -> (r: Self)
        ensures
            r.wf(),
            forall|name: Seq<char>| r.spec_count(name) == 1,
    {
        OccurrenceCounter { entries: Vec::new() }
    }

    /// Takes the next occurrence number for `base` and advances its count.
    pub fn next(&mut self, base: &String) -> (occurrence: usize)
        requires
            old(self).wf(),
            old(self).spec_count(base@) < usize::MAX,
        ensures
            final(self).wf(),
            occurrence == old(self).spec_count(base@),
            final(self).spec_count(base@) == occurrence + 1,
            forall|name: Seq<char>|
                name != base@ ==> final(self).spec_count(name) == old(self).spec_count(name),
    {
        let ghost prior = *self;
        let mut p: usize = 0;
        while p < self.entries.len()
            invariant
                *self == prior,
                prior == *old(self),
                prior.wf(),
                prior.spec_count(base@) < usize::MAX,
                p <= self.entries@.len(),
                forall|q: int| 0 <= q < p ==> self.entries@[q].0@ != base@,
            decreases self.entries@.len() - p,
        {
            if self.entries[p].0 == *base {
                let c = self.entries[p].1;
                proof {
                    prior.lemma_count_at(p as int);
                    assert(prior.spec_count(base@) == c as nat);
                }
                let replacement = (base.clone(), c + 1);
                self.entries.set(p, replacement);
                proof {
                    assert forall|x: int, y: int|
                        0 <= x < y < self.entries@.len() implies self.entries@[x].0@
                        != self.entries@[y].0@ by {
                        assert(self.entries@[x].0@ == prior.entries@[x].0@);
                        assert(self.entries@[y].0@ == prior.entries@[y].0@);
                    }
                    self.lemma_count_at(p as int);
                    assert forall|name: Seq<char>| name != base@ implies self.spec_count(name)
                        == prior.spec_count(name) by {
                        lemma_same_entries_same_count(prior, *self, name);
                    }
                }
                return c;
            }
            p = p + 1;
        }
        proof {
            assert(!(exists|q: int|
                0 <= q < prior.entries@.len() && prior.entries@[q].0@ == base@));
            assert(prior.spec_count(base@) == 1);
        }
        let entry = (base.clone(), 2);
        self.entries.push(entry);
        proof {
            let n = self.entries@.len() - 1;
            assert forall|x: int, y: int|
                0 <= x < y < self.entries@.len() implies self.entries@[x].0@
                != self.entries@[y].0@ by {
                if y < n {
                    assert(self.entries@[x].0@ == prior.entries@[x].0@);
                    assert(self.entries@[y].0@ == prior.entries@[y].0@);
                } else {
                    assert(self.entries@[y].0@ == base@);
                    assert(self.entries@[x].0@ == prior.entries@[x].0@);
                }
            }
            self.lemma_count_at(n);
            assert(self.spec_count(base@) == 2);
            assert forall|name: Seq<char>| name != base@ implies self.spec_count(name)
                == prior.spec_count(name) by {
                lemma_push_other_count(prior, *self, base@, name);
            }
        }
        1
    }
}

/// Two well-formed counters whose tracked entries agree at every name except
/// possibly one whose entry kept its name give that other name one count.
proof fn lemma_same_entries_same_count(a: OccurrenceCounter, b: OccurrenceCounter, name: Seq<char>)
    requires
        a.wf(),
        b.wf(),
        a.entries@.len() == b.entries@.len(),
        forall|q: int| 0 <= q < a.entries@.len() ==> a.entries@[q].0@ == b.entries@[q].0@,
        forall|q: int|
            0 <= q < a.entries@.len() && a.entries@[q].0@ == name ==> a.entries@[q].1
                == b.entries@[q].1,
    ensures
        a.spec_count(name) == b.spec_count(name),
{
    if exists|q: int| 0 <= q < a.entries@.len() && a.entries@[q].0@ == name {
        let q = choose|q: int| 0 <= q < a.entries@.len() && a.entries@[q].0@ == name;
        a.lemma_count_at(q);
        b.lemma_count_at(q);
    } else {
        assert(!(exists|q: int| 0 <= q < b.entries@.len() && b.entries@[q].0@ == name));
    }
}

/// Appending an entry for one name leaves every other name's count unchanged.
proof fn lemma_push_other_count(
    a: OccurrenceCounter,
    b: OccurrenceCounter,
    pushed: Seq<char>,
    name: Seq<char>,
)
    requires
        a.wf(),
        b.wf(),
        b.entries@.len() == a.entries@.len() + 1,
        forall|q: int| 0 <= q < a.entries@.len() ==> a.entries@[q] == b.entries@[q],
        b.entries@[a.entries@.len() as int].0@ == pushed,
        name != pushed,
    ensures
        a.spec_count(name) == b.spec_count(name),
{
    if exists|q: int| 0 <= q < a.entries@.len() && a.entries@[q].0@ == name {
        let q = choose|q: int| 0 <= q < a.entries@.len() && a.entries@[q].0@ == name;
        a.lemma_count_at(q);
        assert(b.entries@[q].0@ == name);
        b.lemma_count_at(q);
    } else {
        assert forall|q: int|
            0 <= q < b.entries@.len() implies b.entries@[q].0@ != name by {
            if q < a.entries@.len() {
                assert(b.entries@[q] == a.entries@[q]);
            }
        }
    }
}


/// One module's materialization plan: where its source tree is copied, what
/// its runtime environment file holds, and which occurrence of its base name
/// it is.  The copy itself, and the descriptor rewrite of later occurrences,
/// are filesystem work done by the caller from this plan.
pub struct MaterializedModule {
    /// The destination directory name inside the deployment directory.
    pub dest_name: String,
    /// The content of the module's runtime environment file.
    pub env_content: String,
    /// Which occurrence of the base name this module is, starting at 1.
    pub occurrence: usize,
}

impl MaterializedModule {
    /// The suffix to append to the module's container-descriptor service
    /// names: the occurrence count for the second and later occurrences,
    /// nothing for the first.
    pub fn rewrite_suffix(&self) -> (r: Option<String>)
        ensures
            (r is Some) == (self.occurrence >= 2),
            r matches Some(s) ==> s@ == spec_decimal(self.occurrence as nat),
    {
        if self.occurrence >= 2 {
            Some(usize_to_string(self.occurrence))
        } else {
            None
        }
    }
}

/// How many of the first `n` modules share the given destination base name.
pub open spec fn spec_prior_same_base(modules: Seq<ModuleConfig>, name: Seq<char>, n: int) -> nat
    decreases n,
{
    if n <= 0 {
        0
    } else {
        spec_prior_same_base(modules, name, n - 1) + if spec_base_name(
            modules[n - 1].module_dir@,
        ) == name {
            1nat
        } else {
            0nat
        }
    }
}

/// No more of the first `n` modules share a name than there are modules.
proof fn lemma_prior_same_base_bound(modules: Seq<ModuleConfig>, name: Seq<char>, n: int)
    requires
        n >= 0,
    ensures
        spec_prior_same_base(modules, name, n) <= n,
    decreases n,
{
    if n > 0 {
        lemma_prior_same_base_bound(modules, name, n - 1);
    }
}

/// Which occurrence of its base name module `i` is, in spec order.
pub open spec fn spec_occurrence(modules: Seq<ModuleConfig>, i: int) -> nat {
    1 + spec_prior_same_base(modules, spec_base_name(modules[i].module_dir@), i)
}

/// Plans the materialization of every module, in spec order: the first
/// occurrence of a base name keeps it bare, the second and later get the
/// occurrence count appended, and each module receives its environment file
/// content.
pub fn plan_modules(modules: &Vec<ModuleConfig>) -> (r: Vec<MaterializedModule>)
    requires
        modules@.len() < usize::MAX,
    ensures
        r@.len() == modules@.len(),
        forall|i: int|
            0 <= i < r@.len() ==> r@[i].occurrence == spec_occurrence(modules@, i)
                && r@[i].dest_name@ == spec_dest_name(
                spec_base_name(modules@[i].module_dir@),
                spec_occurrence(modules@, i),
            ) && r@[i].env_content@ == spec_env_content(
                spec_opt_str(modules@[i].docker_env),
                spec_opt_str(modules@[i].rpc_hostname),
            ),
{
    let ghost m_seq = modules@;
    let mut planned: Vec<MaterializedModule> = Vec::new();
    let mut counter = OccurrenceCounter::new();
    let mut i: usize = 0;
    while i < modules.len()
        invariant
            i <= m_seq.len(),
            modules@ == m_seq,
            m_seq.len() < usize::MAX,
            counter.wf(),
            planned@.len() == i,
            forall|name: Seq<char>|
                counter.spec_count(name) == 1 + spec_prior_same_base(m_seq, name, i as int),
            forall|k: int|
                0 <= k < i ==> planned@[k].occurrence == spec_occurrence(m_seq, k)
                    && planned@[k].dest_name@ == spec_dest_name(
                    spec_base_name(m_seq[k].module_dir@),
                    spec_occurrence(m_seq, k),
                ) && planned@[k].env_content@ == spec_env_content(
                    spec_opt_str(m_seq[k].docker_env),
                    spec_opt_str(m_seq[k].rpc_hostname),
                ),
        decreases m_seq.len() - i,
    {
        let base = path_base_name(&modules[i].module_dir);
        proof {
            lemma_prior_same_base_bound(m_seq, base@, i as int);
        }
        let occurrence = counter.next(&base);
        let dest_name = dest_dir_name(&base, occurrence);
        let env_content = env_file_content(&modules[i]);
        let planned_module = MaterializedModule { dest_name, env_content, occurrence };
        planned.push(planned_module);
        proof {
            assert forall|name: Seq<char>| counter.spec_count(name) == 1 + spec_prior_same_base(
                m_seq,
                name,
                i + 1,
            ) by {
                if name == base@ {
                    assert(counter.spec_count(name) == occurrence + 1);
                } else {
                    assert(counter.spec_count(name) == 1 + spec_prior_same_base(
                        m_seq,
                        name,
                        i as int,
                    ));
                }
            }
        }
        i = i + 1;
    }
    planned
}

/// Law: materializing two modules that share one source-directory base name,
/// with no third module sharing it, sends the first to the bare base name and
/// the second to the base name with the occurrence count 2 appended.
pub proof fn lemma_same_base_suffixed(modules: Seq<ModuleConfig>, a: int, b: int)
    requires
        0 <= a < b < modules.len(),
        spec_base_name(modules[b].module_dir@) == spec_base_name(modules[a].module_dir@),
        forall|j: int|
            0 <= j < modules.len() && j != a && j != b ==> spec_base_name(modules[j].module_dir@)
                != spec_base_name(modules[a].module_dir@),
    ensures
        spec_occurrence(modules, a) == 1,
        spec_occurrence(modules, b) == 2,
        spec_dest_name(spec_base_name(modules[a].module_dir@), spec_occurrence(modules, a))
            == spec_base_name(modules[a].module_dir@),
        spec_dest_name(spec_base_name(modules[b].module_dir@), spec_occurrence(modules, b))
            == spec_base_name(modules[a].module_dir@) + spec_decimal(2),
{
    let name = spec_base_name(modules[a].module_dir@);
    lemma_prior_zero(modules, name, a, a, b);
    lemma_prior_one(modules, name, b, a, b);
}

/// Among the first `n` modules none shares the name when `n` stays at or
/// before the first sharer.
proof fn lemma_prior_zero(modules: Seq<ModuleConfig>, name: Seq<char>, n: int, a: int, b: int)
    requires
        0 <= n <= modules.len(),
        n <= a < b,
        forall|j: int|
            0 <= j < modules.len() && j != a && j != b ==> spec_base_name(modules[j].module_dir@)
                != name,
    ensures
        spec_prior_same_base(modules, name, n) == 0,
    decreases n,
{
    if n > 0 {
        lemma_prior_zero(modules, name, n - 1, a, b);
    }
}

/// Between the first and the second sharer exactly one module shares the name.
proof fn lemma_prior_one(modules: Seq<ModuleConfig>, name: Seq<char>, n: int, a: int, b: int)
    requires
        0 <= a < n <= modules.len(),
        n <= b,
        a < b < modules.len(),
        spec_base_name(modules[a].module_dir@) == name,
        forall|j: int|
            0 <= j < modules.len() && j != a && j != b ==> spec_base_name(modules[j].module_dir@)
                != name,
    ensures
        spec_prior_same_base(modules, name, n) == 1,
    decreases n,
{
    if n - 1 == a {
        lemma_prior_zero(modules, name, n - 1, a, b);
    } else {
        lemma_prior_one(modules, name, n - 1, a, b);
    }
}

} // verus!
