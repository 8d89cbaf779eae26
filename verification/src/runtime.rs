//! Which optional panel modules are switched on.

use vstd::prelude::*;

use crate::status::{Code, Status};
use crate::text::{
    all_ws, eq_str, is_blank, lower_seq, pieces, replace_char, replace_char_str, split_char, to_lower, trim, trim_seq,
    views,
};

verus! {

pub const MODULE_CORE: &'static str = "core";
pub const MODULE_AUDIT: &'static str = "audit";
pub const MODULE_MONITOR: &'static str = "monitor";
pub const MODULE_FILES: &'static str = "files";
pub const MODULE_TERMINAL: &'static str = "terminal";
pub const MODULE_SECURITY: &'static str = "security";
pub const MODULE_DOCKER: &'static str = "docker";
pub const MODULE_APPSTORE: &'static str = "appstore";
pub const MODULE_SITES: &'static str = "sites";
pub const MODULE_STATIC_SITES: &'static str = "static-sites";
pub const MODULE_SSL: &'static str = "ssl";
pub const MODULE_DATABASE: &'static str = "database";
pub const MODULE_CRON: &'static str = "cron";
pub const MODULE_CLUSTER: &'static str = "cluster";
pub const MODULE_WORKLOADS: &'static str = "workloads";
pub const MODULE_PROXY: &'static str = "proxy";

/// One entry of the module catalog.
#[derive(Clone, Debug)]
pub struct ModuleDefinition {
    pub id: &'static str,
    pub name: &'static str,
    pub required: bool,
}

/// A module together with whether it is on and why.
#[derive(Clone, Debug)]
pub struct ModuleStatus {
    pub id: &'static str,
    pub name: &'static str,
    pub enabled: bool,
    pub reason: String,
    pub required: bool,
}

/// The module switches: an optional allow-list, a deny-list and the name of
/// the install profile they came from.
#[derive(Clone, Debug)]
pub struct RuntimeModules {
    enabled: Option<Vec<String>>,
    disabled: Vec<String>,
    profile: String,
}

/// A module id as the switches compare it: trimmed, ASCII lower case,
/// `_` written as `-`.
pub open spec fn normalize_module_spec(id: Seq<char>) -> Seq<char> {
    replace_char(lower_seq(trim_seq(id)), '_', "-"@)
}

pub open spec fn is_required_spec(id: Seq<char>) -> bool {
    id == MODULE_CORE@ || id == MODULE_AUDIT@
}

/// The set of module ids a comma separated list names.
pub open spec fn module_set_spec(list: Seq<char>) -> Set<Seq<char>> {
    Set::new(
        |m: Seq<char>|
            m.len() > 0 && exists|i: int|
                0 <= i < pieces(list, ',').len() && m == normalize_module_spec(
                    #[trigger] pieces(list, ',')[i],
                ),
    )
}

/// Whether module `id` is on under the given lists.
pub open spec fn module_enabled_spec(
    enabled: Option<Set<Seq<char>>>,
    disabled: Set<Seq<char>>,
    id: Seq<char>,
) -> bool {
    let m = normalize_module_spec(id);
    if is_required_spec(m) {
        true
    } else if disabled.contains(m) {
        false
    } else {
        match enabled {
            Some(e) => e.contains(m),
            None => true,
        }
    }
}

/// The catalog: id, display name and whether the module is required.
pub open spec fn catalog_spec() -> Seq<(Seq<char>, Seq<char>, bool)> {
    seq![
        (MODULE_CORE@, "Core"@, true),
        (MODULE_AUDIT@, "Audit"@, true),
        (MODULE_MONITOR@, "Monitor"@, false),
        (MODULE_FILES@, "Files"@, false),
        (MODULE_TERMINAL@, "Terminal"@, false),
        (MODULE_SECURITY@, "Security"@, false),
        (MODULE_DOCKER@, "Docker"@, false),
        (MODULE_APPSTORE@, "App Store"@, false),
        (MODULE_SITES@, "Nginx Sites"@, false),
        (MODULE_STATIC_SITES@, "Static Sites"@, false),
        (MODULE_SSL@, "SSL"@, false),
        (MODULE_DATABASE@, "Database"@, false),
        (MODULE_CRON@, "Cron"@, false),
        (MODULE_CLUSTER@, "Cluster"@, false),
        (MODULE_WORKLOADS@, "Workloads"@, false),
        (MODULE_PROXY@, "Proxy"@, false),
    ]
}

pub open spec fn definition_view(d: ModuleDefinition) -> (Seq<char>, Seq<char>, bool) {
    (d.id@, d.name@, d.required)
}

/// Why a module has the state it has.
pub open spec fn reason_spec(required: bool, enabled: bool, profile: Seq<char>) -> Seq<char> {
    if required {
        "required core module"@
    } else if enabled {
        "enabled by "@ + profile + " profile"@
    } else {
        "disabled by "@ + profile + " profile"@
    }
}

/// The entries of the module catalog, in display order.
pub fn module_catalog() -> (r: Vec<ModuleDefinition>)
    ensures
        r@.map_values(|d: ModuleDefinition| definition_view(d)) == catalog_spec(),
{
    let r = vec![
        ModuleDefinition { id: MODULE_CORE, name: "Core", required: true },
        ModuleDefinition { id: MODULE_AUDIT, name: "Audit", required: true },
        ModuleDefinition { id: MODULE_MONITOR, name: "Monitor", required: false },
        ModuleDefinition { id: MODULE_FILES, name: "Files", required: false },
        ModuleDefinition { id: MODULE_TERMINAL, name: "Terminal", required: false },
        ModuleDefinition { id: MODULE_SECURITY, name: "Security", required: false },
        ModuleDefinition { id: MODULE_DOCKER, name: "Docker", required: false },
        ModuleDefinition { id: MODULE_APPSTORE, name: "App Store", required: false },
        ModuleDefinition { id: MODULE_SITES, name: "Nginx Sites", required: false },
        ModuleDefinition { id: MODULE_STATIC_SITES, name: "Static Sites", required: false },
        ModuleDefinition { id: MODULE_SSL, name: "SSL", required: false },
        ModuleDefinition { id: MODULE_DATABASE, name: "Database", required: false },
        ModuleDefinition { id: MODULE_CRON, name: "Cron", required: false },
        ModuleDefinition { id: MODULE_CLUSTER, name: "Cluster", required: false },
        ModuleDefinition { id: MODULE_WORKLOADS, name: "Workloads", required: false },
        ModuleDefinition { id: MODULE_PROXY, name: "Proxy", required: false },
    ];
    assert(r@.map_values(|d: ModuleDefinition| definition_view(d)) =~= catalog_spec());
    r
}

/// A module id in the form the switches compare.
pub fn normalize_module_id(value: &str) -> (r: String)
    ensures
        r@ == normalize_module_spec(value@),
{
    let t = trim(value);
    let l = to_lower(t.as_str());
    replace_char_str(l.as_str(), '_', "-")
}

fn is_required_module(module_id: &str) -> (r: bool)
    ensures
        r == is_required_spec(module_id@),
{
    eq_str(module_id, MODULE_CORE) || eq_str(module_id, MODULE_AUDIT)
}

/// Whether `list` holds a string equal to `s`.
fn list_contains(list: &Vec<String>, s: &str) -> (r: bool)
    ensures
        r == views(list@).contains(s@),
{
    let mut i: usize = 0;
    while i < list.len()
        invariant
            i <= list.len(),
            forall|j: int| 0 <= j < i ==> list@[j]@ != s@,
        decreases list.len() - i,
    {
        if eq_str(list[i].as_str(), s) {
            assert(views(list@)[i as int] == s@);
            return true;
        }
        i += 1;
    }
    assert forall|j: int| 0 <= j < views(list@).len() implies views(list@)[j] != s@ by {
        assert(views(list@)[j] == list@[j]@);
    }
    false
}

/// The normalized, non-empty module ids of a comma separated list.
pub fn parse_module_set(value: &str) -> (r: Vec<String>)
    ensures
        views(r@).to_set() == module_set_spec(value@),
{
    let parts = split_char(value, ',');
    let mut out: Vec<String> = Vec::new();
    let mut i: usize = 0;
    let ghost ps = pieces(value@, ',');
    while i < parts.len()
        invariant
            i <= parts.len(),
            views(parts@) == ps,
            ps == pieces(value@, ','),
            forall|m: Seq<char>|
                views(out@).contains(m) <==> (m.len() > 0 && exists|k: int|
                    0 <= k < i && m == normalize_module_spec(#[trigger] ps[k])),
        decreases parts.len() - i,
    {
        let id = normalize_module_id(parts[i].as_str());
        assert(ps[i as int] == parts@[i as int]@);
        let ghost old_out = out@;
        if !id.as_str().is_empty() {
            out.push(id);
        }
        assert(views(out@) == if id@.len() > 0 { views(old_out).push(id@) } else { views(old_out) });
        assert forall|m: Seq<char>|
            views(out@).contains(m) <==> (m.len() > 0 && exists|k: int|
                0 <= k < i + 1 && m == normalize_module_spec(#[trigger] ps[k])) by {
            if views(out@).contains(m) && m != id@ {
                assert(views(old_out).contains(m));
            }
            if m.len() > 0 && (exists|k: int| 0 <= k < i + 1 && m == normalize_module_spec(#[trigger] ps[k])) {
                let k = choose|k: int| 0 <= k < i + 1 && m == normalize_module_spec(#[trigger] ps[k]);
                if k < i {
                    assert(views(old_out).contains(m));
                    let j = choose|j: int| 0 <= j < views(old_out).len() && views(old_out)[j] == m;
                    assert(views(out@)[j] == m);
                } else {
                    assert(views(out@).last() == m);
                }
            }
        }
        i += 1;
    }
    assert(views(out@).to_set() =~= module_set_spec(value@));
    out
}

impl RuntimeModules {
    pub closed spec fn enabled_set(&self) -> Option<Set<Seq<char>>> {
        match self.enabled {
            Some(v) => Some(views(v@).to_set()),
            None => None,
        }
    }

    pub closed spec fn disabled_set(&self) -> Set<Seq<char>> {
        views(self.disabled@).to_set()
    }

    pub closed spec fn profile_spec(&self) -> Seq<char> {
        self.profile@
    }

    /// Switches from an optional allow-list, a deny-list and a profile name.
    pub fn new(enabled: Option<Vec<String>>, disabled: Vec<String>, profile: String) -> (r: Self)
        ensures
            r.enabled_set() == (match enabled {
                Some(v) => Some(views(v@).to_set()),
                None => None,
            }),
            r.disabled_set() == views(disabled@).to_set(),
            r.profile_spec() == profile@,
    {
        RuntimeModules { enabled, disabled, profile }
    }

    /// The switches that the environment gives: `RUSTPANEL_ENABLED_MODULES`
    /// (an allow-list when set), `RUSTPANEL_DISABLED_MODULES` (a deny-list,
    /// empty when unset) and the profile named by
    /// `RUSTPANEL_INSTALL_PROFILE`, else `RUSTPANEL_PROFILE`, else `custom`.
    /// Each argument is the variable's value when it is set.
    pub fn from_env(
        enabled_modules: Option<&str>,
        disabled_modules: Option<&str>,
        install_profile: Option<&str>,
        profile: Option<&str>,
    ) -> (r: Self)
        ensures
            r.enabled_set() == (match enabled_modules {
                Some(v) => Some(module_set_spec(v@)),
                None => None,
            }),
            r.disabled_set() == (match disabled_modules {
                Some(v) => module_set_spec(v@),
                None => Set::<Seq<char>>::empty(),
            }),
            r.profile_spec() == (match install_profile {
                Some(p) => p@,
                None => match profile {
                    Some(p) => p@,
                    None => "custom"@,
                },
            }),
    {
        let enabled = match enabled_modules {
            Some(v) => Some(parse_module_set(v)),
            None => None,
        };
        let disabled = match disabled_modules {
            Some(v) => parse_module_set(v),
            None => Vec::new(),
        };
        assert(views(disabled@).to_set() =~= (match disabled_modules {
            Some(v) => module_set_spec(v@),
            None => Set::<Seq<char>>::empty(),
        }));
        let profile = match install_profile {
            Some(p) => p.to_string(),
            None => match profile {
                Some(p) => p.to_string(),
                None => "custom".to_string(),
            },
        };
        RuntimeModules { enabled, disabled, profile }
    }

    pub open spec fn is_enabled_spec(&self, id: Seq<char>) -> bool {
        module_enabled_spec(self.enabled_set(), self.disabled_set(), id)
    }

    /// The install profile these switches came from.
    pub fn profile(&self) -> (r: &str)
        ensures
            r@ == self.profile_spec(),
    {
        self.profile.as_str()
    }

    /// Whether module `module_id` is on: required modules always are, the
    /// deny-list wins over the allow-list, and without an allow-list every
    /// other module is on.
    pub fn is_enabled(&self, module_id: &str) -> (r: bool)
        ensures
            r == self.is_enabled_spec(module_id@),
    {
        let id = normalize_module_id(module_id);
        if is_required_module(id.as_str()) {
            return true;
        }
        if list_contains(&self.disabled, id.as_str()) {
            assert(views(self.disabled@).to_set().contains(id@));
            return false;
        }
        match &self.enabled {
            Some(list) => {
                let r = list_contains(list, id.as_str());
                assert(r == views(list@).to_set().contains(id@));
                r
            },
            None => true,
        }
    }

    /// `Ok` when the module is on; otherwise a failed-precondition status.
    pub fn ensure_enabled(&self, module_id: &str) -> (r: Result<(), Status>)
        ensures
            r is Ok <==> self.is_enabled_spec(module_id@),
            r matches Err(e) ==> e.code == Code::FailedPrecondition && e.message@ == "module "@
                + module_id@ + " is disabled"@,
    {
        if self.is_enabled(module_id) {
            Ok(())
        } else {
            let mut msg = String::new();
            msg.append("module ");
            msg.append(module_id);
            msg.append(" is disabled");
            Err(Status { code: Code::FailedPrecondition, message: msg })
        }
    }

    /// Every catalog module with its state and the reason for it.
    pub fn statuses(&self) -> (r: Vec<ModuleStatus>)
        ensures
            r@.len() == catalog_spec().len(),
            forall|i: int|
                0 <= i < r@.len() ==> {
                    let c = catalog_spec()[i];
                    let s = #[trigger] r@[i];
                    &&& s.id@ == c.0
                    &&& s.name@ == c.1
                    &&& s.required == c.2
                    &&& s.enabled == self.is_enabled_spec(c.0)
                    &&& s.reason@ == reason_spec(c.2, s.enabled, self.profile_spec())
                },
    {
        let catalog = module_catalog();
        let ghost cv = catalog@.map_values(|d: ModuleDefinition| definition_view(d));
        let mut out: Vec<ModuleStatus> = Vec::new();
        let mut i: usize = 0;
        while i < catalog.len()
            invariant
                i <= catalog.len(),
                cv == catalog@.map_values(|d: ModuleDefinition| definition_view(d)),
                cv == catalog_spec(),
                out@.len() == i,
                forall|k: int|
                    0 <= k < i ==> {
                        let c = catalog_spec()[k];
                        let s = #[trigger] out@[k];
                        &&& s.id@ == c.0
                        &&& s.name@ == c.1
                        &&& s.required == c.2
                        &&& s.enabled == self.is_enabled_spec(c.0)
                        &&& s.reason@ == reason_spec(c.2, s.enabled, self.profile_spec())
                    },
            decreases catalog.len() - i,
        {
            let d = &catalog[i];
            assert(cv[i as int] == definition_view(catalog@[i as int]));
            let enabled = self.is_enabled(d.id);
            let reason = if d.required {
                "required core module".to_string()
            } else {
                let mut msg = String::new();
                if enabled {
                    msg.append("enabled by ");
                } else {
                    msg.append("disabled by ");
                }
                msg.append(self.profile.as_str());
                msg.append(" profile");
                msg
            };
            out.push(
                ModuleStatus { id: d.id, name: d.name, enabled, reason, required: d.required },
            );
            i += 1;
        }
        out
    }
}

/// The module switches of the environment; see [`RuntimeModules::from_env`].
pub fn from_env(
    enabled_modules: Option<&str>,
    disabled_modules: Option<&str>,
    install_profile: Option<&str>,
    profile: Option<&str>,
) -> (r: RuntimeModules)
    ensures
        r.enabled_set() == (match enabled_modules {
            Some(v) => Some(module_set_spec(v@)),
            None => None,
        }),
        r.disabled_set() == (match disabled_modules {
            Some(v) => module_set_spec(v@),
            None => Set::<Seq<char>>::empty(),
        }),
        r.profile_spec() == (match install_profile {
            Some(p) => p@,
            None => match profile {
                Some(p) => p@,
                None => "custom"@,
            },
        }),
{
    RuntimeModules::from_env(enabled_modules, disabled_modules, install_profile, profile)
}

/// `Ok` when module `module_id` is on under the environment's switches;
/// otherwise the failed-precondition status of
/// [`RuntimeModules::ensure_enabled`].
pub fn ensure_module_enabled(
    enabled_modules: Option<&str>,
    disabled_modules: Option<&str>,
    install_profile: Option<&str>,
    profile: Option<&str>,
    module_id: &str,
) -> (r: Result<(), Status>)
    ensures
        r is Ok <==> module_enabled_spec(
            match enabled_modules {
                Some(v) => Some(module_set_spec(v@)),
                None => None,
            },
            match disabled_modules {
                Some(v) => module_set_spec(v@),
                None => Set::<Seq<char>>::empty(),
            },
            module_id@,
        ),
        r matches Err(e) ==> e.code == Code::FailedPrecondition && e.message@ == "module "@
            + module_id@ + " is disabled"@,
{
    let modules = RuntimeModules::from_env(enabled_modules, disabled_modules, install_profile, profile);
    modules.ensure_enabled(module_id)
}

/// The saved module switches that the panel's settings page writes.
#[derive(Clone, Debug)]
pub struct ModuleOverride {
    pub enabled: Vec<String>,
    pub disabled: Vec<String>,
}

impl Default for ModuleOverride {
    fn default() -> (r: Self)
        ensures
            r.enabled@.len() == 0 && r.disabled@.len() == 0,
    {
        ModuleOverride { enabled: Vec::new(), disabled: Vec::new() }
    }
}

/// Keeps the ids other than `id`.
pub open spec fn other_module(id: Seq<char>) -> spec_fn(Seq<char>) -> bool {
    |m: Seq<char>| m != id
}

/// The ids of the catalog modules that are on, in catalog order.
pub open spec fn enabled_ids(modules: RuntimeModules) -> Seq<Seq<char>> {
    catalog_spec().filter(|c: (Seq<char>, Seq<char>, bool)| modules.is_enabled_spec(c.0)).map_values(|c: (Seq<char>, Seq<char>, bool)| c.0)
}

fn without(list: &Vec<String>, id: &str) -> (r: Vec<String>)
    ensures
        views(r@) == views(list@).filter(other_module(id@)),
{
    let ghost orig = views(list@);
    let mut out: Vec<String> = Vec::new();
    let mut i: usize = 0;
    while i < list.len()
        invariant
            i <= list@.len(),
            orig == views(list@),
            views(out@) == orig.take(i as int).filter(other_module(id@)),
        decreases list@.len() - i,
    {
        proof {
            assert(orig.take(i + 1) == orig.take(i as int).push(orig[i as int]));
            orig.take(i as int).lemma_filter_push(orig[i as int], other_module(id@));
        }
        let ghost before = views(out@);
        if !eq_str(list[i].as_str(), id) {
            out.push(list[i].clone());
            assert(views(out@) =~= before.push(orig[i as int]));
        }
        i += 1;
    }
    assert(orig.take(i as int) == orig);
    out
}

/// Turns a module on or off in the saved switches. The trimmed id leaves
/// both lists first; switching it on then makes the allow-list every module
/// that is on now, plus the id; switching it off adds the id to the
/// deny-list.
pub fn switch_module(over: ModuleOverride, module_id: &str, enabled: bool, current: &RuntimeModules) -> (r: Result<ModuleOverride, Status>)
    ensures
        all_ws(module_id@) ==> (r matches Err(e) && e.code == Code::InvalidArgument && e.message@ == "module_id is required"@),
        !all_ws(module_id@) ==> (r matches Ok(o) && ({
            let id = trim_seq(module_id@);
            if enabled {
                &&& views(o.enabled@) == (if enabled_ids(*current).contains(id) { enabled_ids(*current) } else { enabled_ids(*current).push(id) })
                &&& views(o.disabled@) == views(over.disabled@).filter(other_module(id))
            } else {
                &&& views(o.enabled@) == views(over.enabled@).filter(other_module(id))
                &&& views(o.disabled@) == views(over.disabled@).filter(other_module(id)).push(id)
            }
        })),
{
    if is_blank(module_id) {
        return Err(Status::invalid_argument("module_id is required"));
    }
    let id = trim(module_id);
    let kept_enabled = without(&over.enabled, id.as_str());
    let mut kept_disabled = without(&over.disabled, id.as_str());
    if enabled {
        let statuses = current.statuses();
        let ghost cat = catalog_spec();
        let ghost pred = |c: (Seq<char>, Seq<char>, bool)| current.is_enabled_spec(c.0);
        let mut all: Vec<String> = Vec::new();
        let mut found = false;
        let mut i: usize = 0;
        while i < statuses.len()
            invariant
                i <= statuses@.len(),
                statuses@.len() == cat.len(),
                cat == catalog_spec(),
                pred == (|c: (Seq<char>, Seq<char>, bool)| current.is_enabled_spec(c.0)),
                forall|k: int| 0 <= k < statuses@.len() ==> (#[trigger] statuses@[k]).id@ == cat[k].0
                    && statuses@[k].enabled == current.is_enabled_spec(cat[k].0),
                views(all@) == cat.take(i as int).filter(pred).map_values(|c: (Seq<char>, Seq<char>, bool)| c.0),
                found == views(all@).contains(id@),
            decreases statuses@.len() - i,
        {
            let ghost before = views(all@);
            proof {
                assert(cat.take(i + 1) == cat.take(i as int).push(cat[i as int]));
                cat.take(i as int).lemma_filter_push(cat[i as int], pred);
            }
            let s = &statuses[i];
            if s.enabled {
                let sid = s.id.to_string();
                let hit = eq_str(s.id, id.as_str());
                let ghost was_found = found;
                if hit {
                    found = true;
                }
                all.push(sid);
                assert(views(all@) =~= before.push(cat[i as int].0));
                assert(cat.take(i + 1).filter(pred).map_values(|c: (Seq<char>, Seq<char>, bool)| c.0)
                    =~= cat.take(i as int).filter(pred).map_values(|c: (Seq<char>, Seq<char>, bool)| c.0).push(cat[i as int].0));
                assert(found == views(all@).contains(id@)) by {
                    assert(views(all@)[before.len() as int] == s.id@);
                    if views(all@).contains(id@) {
                        let j = choose|j: int| 0 <= j < views(all@).len() && views(all@)[j] == id@;
                        if j < before.len() {
                            assert(before[j] == id@);
                        }
                    }
                    if hit {
                        assert(views(all@)[before.len() as int] == id@);
                    }
                    if was_found {
                        let j = choose|j: int| 0 <= j < before.len() && before[j] == id@;
                        assert(views(all@)[j] == id@);
                    }
                }
            } else {
                assert(cat.take(i + 1).filter(pred) == cat.take(i as int).filter(pred));
            }
            i += 1;
        }
        assert(cat.take(i as int) == cat);
        if !found {
            let ghost before = views(all@);
            all.push(id.clone());
            assert(views(all@) =~= before.push(id@));
        }
        Ok(ModuleOverride { enabled: all, disabled: kept_disabled })
    } else {
        let ghost before = views(kept_disabled@);
        kept_disabled.push(id);
        assert(views(kept_disabled@) =~= before.push(trim_seq(module_id@)));
        Ok(ModuleOverride { enabled: kept_enabled, disabled: kept_disabled })
    }
}

/// After a module is switched on, the saved allow-list holds it and the
/// deny-list does not; after it is switched off, the deny-list holds it and
/// the allow-list does not.
pub proof fn law_switch_is_recorded(old_list: Seq<Seq<char>>, new_enabled: Seq<Seq<char>>, new_disabled: Seq<Seq<char>>, id: Seq<char>, on: bool, modules: RuntimeModules)
    requires
        on ==> new_enabled == (if enabled_ids(modules).contains(id) { enabled_ids(modules) } else { enabled_ids(modules).push(id) })
            && new_disabled == old_list.filter(other_module(id)),
        !on ==> new_enabled == old_list.filter(other_module(id)) && new_disabled == old_list.filter(other_module(id)).push(id),
    ensures
        on ==> new_enabled.contains(id) && !new_disabled.contains(id),
        !on ==> new_disabled.contains(id) && !new_enabled.contains(id),
{
    old_list.filter_lemma(other_module(id));
    if on {
        if !enabled_ids(modules).contains(id) {
            assert(new_enabled.last() == id);
        }
        if new_disabled.contains(id) {
            let j = choose|j: int| 0 <= j < new_disabled.len() && new_disabled[j] == id;
            assert(other_module(id)(new_disabled[j]));
        }
    } else {
        assert(new_disabled.last() == id);
        if new_enabled.contains(id) {
            let j = choose|j: int| 0 <= j < new_enabled.len() && new_enabled[j] == id;
            assert(other_module(id)(new_enabled[j]));
        }
    }
}


/// The core and audit modules are on whatever the switches say, under any
/// spelling of their ids that normalizes to them.
pub proof fn law_required_modules_always_on(enabled: Option<Set<Seq<char>>>, disabled: Set<Seq<char>>, id: Seq<char>)
    requires
        normalize_module_spec(id) == MODULE_CORE@ || normalize_module_spec(id) == MODULE_AUDIT@,
    ensures
        module_enabled_spec(enabled, disabled, id),
{
}

/// The deny-list wins: an optional module on it is off even when the
/// allow-list names it.
pub proof fn law_deny_list_wins(enabled: Option<Set<Seq<char>>>, disabled: Set<Seq<char>>, id: Seq<char>)
    requires
        !is_required_spec(normalize_module_spec(id)),
        disabled.contains(normalize_module_spec(id)),
    ensures
        !module_enabled_spec(enabled, disabled, id),
{
}

} // verus!
