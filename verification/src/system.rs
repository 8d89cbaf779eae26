//! The system service: health, host facts and the module switches, each
//! answered from values that the caller read from the host.

use vstd::prelude::*;

use crate::runtime::{
    catalog_spec, enabled_ids, other_module, reason_spec, switch_module, ModuleOverride,
    ModuleStatus, RuntimeModules,
};
use crate::status::{ok_response, ApiResponse, Code, Status};
use crate::text::{all_ws, trim_seq, views};

verus! {

/// The service answering health, host and module requests.
#[derive(Clone, Copy, Debug, Default)]
pub struct SystemServiceImpl;

/// The answer to a health check: the service is serving, at `version`.
#[derive(Clone, Debug)]
pub struct HealthCheckReply {
    pub status: ApiResponse,
    pub serving: bool,
    pub version: String,
}

/// The host's name, operating system, kernel and architecture.
#[derive(Clone, Debug)]
pub struct SystemInfoReply {
    pub status: ApiResponse,
    pub hostname: String,
    pub operating_system: String,
    pub kernel_version: String,
    pub architecture: String,
}

/// What the host reports about itself; each item is `None` where the host
/// could not tell.
#[derive(Clone, Debug)]
pub struct HostFacts {
    pub host_name: Option<String>,
    pub hostname_env: Option<String>,
    pub os_name: Option<String>,
    pub os_version: Option<String>,
    pub os_family: String,
    pub kernel_version: Option<String>,
    pub long_os_version: Option<String>,
    pub architecture: String,
}

/// The module states and the profile they came from.
#[derive(Clone, Debug)]
pub struct ModulesReply {
    pub status: ApiResponse,
    pub modules: Vec<ModuleStatus>,
    pub profile: String,
}

/// The first of two optional texts that is present, else `fallback`.
pub open spec fn first_of(a: Option<String>, b: Option<String>, fallback: Seq<char>) -> Seq<char> {
    match a {
        Some(x) => x@,
        None => match b {
            Some(y) => y@,
            None => fallback,
        },
    }
}

/// The operating system's name with its version after a space, or the OS
/// family when the name is unknown.
pub open spec fn operating_system_spec(f: HostFacts) -> Seq<char> {
    match f.os_name {
        Some(n) => match f.os_version {
            Some(v) => n@ + " "@ + v@,
            None => n@,
        },
        None => f.os_family@,
    }
}

/// The module states of `modules`, one for each catalog entry, in order.
pub open spec fn statuses_of(modules: RuntimeModules, s: Seq<ModuleStatus>) -> bool {
    &&& s.len() == catalog_spec().len()
    &&& forall|i: int|
        0 <= i < s.len() ==> {
            let c = catalog_spec()[i];
            let m = #[trigger] s[i];
            &&& m.id@ == c.0
            &&& m.name@ == c.1
            &&& m.required == c.2
            &&& m.enabled == modules.is_enabled_spec(c.0)
            &&& m.reason@ == reason_spec(c.2, m.enabled, modules.profile_spec())
        }
}

fn text_or(a: Option<String>, b: Option<String>, fallback: &str) -> (r: String)
    ensures
        r@ == first_of(a, b, fallback@),
{
    match a {
        Some(x) => x,
        None => match b {
            Some(y) => y,
            None => fallback.to_string(),
        },
    }
}

impl SystemServiceImpl {
    /// The service is serving, at the build's `version`.
    pub fn health_check(&self, version: &str) -> (r: HealthCheckReply)
        ensures
            r.status.code == 0 && r.status.message@ == "ok"@,
            r.serving,
            r.version@ == version@,
    {
        HealthCheckReply { status: ok_response("ok"), serving: true, version: version.to_string() }
    }

    /// The host facts as the panel shows them: the host name, else the
    /// `HOSTNAME` variable, else `unknown`; the OS name and version, else
    /// the OS family; the kernel version, else the long OS version, else
    /// `unknown`; the architecture.
    pub fn get_system_info(&self, facts: HostFacts) -> (r: SystemInfoReply)
        ensures
            r.status.code == 0 && r.status.message@ == "ok"@,
            r.hostname@ == first_of(facts.host_name, facts.hostname_env, "unknown"@),
            r.operating_system@ == operating_system_spec(facts),
            r.kernel_version@ == first_of(facts.kernel_version, facts.long_os_version, "unknown"@),
            r.architecture@ == facts.architecture@,
    {
        let operating_system = match facts.os_name {
            Some(n) => match facts.os_version {
                Some(v) => {
                    let mut s = n;
                    s.append(" ");
                    s.append(v.as_str());
                    s
                },
                None => n,
            },
            None => facts.os_family,
        };
        SystemInfoReply {
            status: ok_response("ok"),
            hostname: text_or(facts.host_name, facts.hostname_env, "unknown"),
            operating_system,
            kernel_version: text_or(facts.kernel_version, facts.long_os_version, "unknown"),
            architecture: facts.architecture,
        }
    }

    /// Every module's state under `modules`, with their profile.
    pub fn list_runtime_modules(&self, modules: &RuntimeModules) -> (r: ModulesReply)
        ensures
            r.status.code == 0 && r.status.message@ == "ok"@,
            statuses_of(*modules, r.modules@),
            r.profile@ == modules.profile_spec(),
    {
        ModulesReply {
            status: ok_response("ok"),
            modules: modules.statuses(),
            profile: modules.profile().to_string(),
        }
    }

    /// Turns a module on or off in the saved switches `over`, given the
    /// switches in force (`current`); see [`switch_module`]. The caller
    /// saves the result and answers with the states under the new switches.
    pub fn set_module_enabled(
        &self,
        over: ModuleOverride,
        module_id: &str,
        enabled: bool,
        current: &RuntimeModules,
    ) -> (r: Result<ModuleOverride, Status>)
        ensures
            all_ws(module_id@) ==> (r matches Err(e) && e.code == Code::InvalidArgument
                && e.message@ == "module_id is required"@),
            !all_ws(module_id@) ==> (r matches Ok(o) && ({
                let id = trim_seq(module_id@);
                if enabled {
                    &&& views(o.enabled@) == (if enabled_ids(*current).contains(id) {
                        enabled_ids(*current)
                    } else {
                        enabled_ids(*current).push(id)
                    })
                    &&& views(o.disabled@) == views(over.disabled@).filter(other_module(id))
                } else {
                    &&& views(o.enabled@) == views(over.enabled@).filter(other_module(id))
                    &&& views(o.disabled@) == views(over.disabled@).filter(other_module(id)).push(id)
                }
            })),
    {
        switch_module(over, module_id, enabled, current)
    }

    /// The reply after the switches changed: "module state updated" and the
    /// states under the new switches.
    pub fn modules_updated(&self, modules: &RuntimeModules) -> (r: ModulesReply)
        ensures
            r.status.code == 0 && r.status.message@ == "module state updated"@,
            statuses_of(*modules, r.modules@),
            r.profile@ == modules.profile_spec(),
    {
        ModulesReply {
            status: ok_response("module state updated"),
            modules: modules.statuses(),
            profile: modules.profile().to_string(),
        }
    }
}

} // verus!
