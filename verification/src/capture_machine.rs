//! The `capture-machine` hook: the operating system, CPUs, memory and host
//! name of the machine that runs.

use vstd::prelude::*;
use crate::hook::CapsulaError;
use crate::text::{copy_string, push_str};

verus! {

/// Configuration of the `capture-machine` hook (it has none).
#[derive(Debug, Clone, Copy, Default)]
pub struct MachineHookConfig {}

/// The `capture-machine` hook.
#[derive(Debug, Default)]
pub struct MachineHook {
    pub config: MachineHookConfig,
}

/// One CPU of the machine.
#[derive(Debug)]
pub struct CpuInfo {
    pub name: String,
    pub vender_id: String,
    pub brand: String,
    pub frequency_mhz: u64,
}

/// What the `capture-machine` hook captures.
#[derive(Debug)]
pub struct MachineCaptured {
    pub os: String,
    pub os_version: String,
    pub kernel_version: String,
    pub architecture: String,
    pub cpus: Vec<CpuInfo>,
    pub total_memory: u64,
    pub hostname: String,
}

/// Errors of the `capture-machine` hook.
#[derive(Debug)]
pub enum MachineHookError {
    OsInfoError,
    HostnameError,
    Serialization(String),
}

/// `sysinfo::System`, the handle on the machine's state.
#[verifier::external_type_specification]
#[verifier::external_body]
pub struct ExSystem(sysinfo::System);

/// `sysinfo::System::name`: the operating system's name, if it can be
/// read. What it is depends on the machine; nothing is stated of it.
#[verifier::external_body]
fn os_name() -> (r: Option<String>) {
    sysinfo::System::name().ok()
}

/// `sysinfo::System::os_version`: the operating system's version, if it can
/// be read. It depends on the machine; nothing is stated of it.
#[verifier::external_body]
fn os_version() -> (r: Option<String>) {
    sysinfo::System::os_version().ok()
}

/// `sysinfo::System::kernel_version`: the kernel's version, if it can be
/// read. It depends on the machine; nothing is stated of it.
#[verifier::external_body]
fn kernel_version() -> (r: Option<String>) {
    sysinfo::System::kernel_version().ok()
}

/// `sysinfo::System::host_name`: the host name, if it can be read. It
/// depends on the machine; nothing is stated of it.
#[verifier::external_body]
fn host_name() -> (r: Option<String>) {
    sysinfo::System::host_name().ok()
}

/// `sysinfo::System::new_with_specifics` asked for CPU frequencies and RAM
/// only; `None` when the machine's state cannot be read. Nothing is stated
/// of what it holds.
#[verifier::external_body]
fn system_with_cpus_and_ram() -> (r: Option<sysinfo::System>) {
    sysinfo::System::new_with_specifics(
        sysinfo::RefreshKind::nothing().with_cpu(
            sysinfo::CpuRefreshKind::nothing().with_frequency(),
        ).with_memory(sysinfo::MemoryRefreshKind::nothing().with_ram()),
    ).ok()
}

/// `sysinfo::System::cpus`, each CPU's name, vendor, brand and frequency
/// taken as it is. Nothing is stated of what the machine reports.
#[verifier::external_body]
fn cpus_of(system: &sysinfo::System) -> (r: Vec<CpuInfo>) {
    system.cpus().iter().map(
        |cpu|
            CpuInfo {
                name: cpu.name().to_string(),
                vender_id: cpu.vendor_id().to_string(),
                brand: cpu.brand().to_string(),
                frequency_mhz: cpu.frequency(),
            },
    ).collect()
}

/// `sysinfo::System::total_memory`: the RAM size in bytes. Nothing is
/// stated of what the machine reports.
#[verifier::external_body]
fn total_memory_of(system: &sysinfo::System) -> (r: u64) {
    system.total_memory()
}

/// What the hook captures from what the machine reported, checked in the
/// order the hook asks: the operating system's name, version and kernel
/// version, the CPUs and memory, then the host name. A missing piece of the
/// operating system (or machine state that cannot be read) is `OsInfoError`;
/// a missing host name is `HostnameError`.
pub fn machine_captured(
    os: Option<String>,
    os_version: Option<String>,
    kernel_version: Option<String>,
    architecture: String,
    inventory: Option<(Vec<CpuInfo>, u64)>,
    hostname: Option<String>,
) -> (r: Result<MachineCaptured, MachineHookError>)
    ensures
        (os is None || os_version is None || kernel_version is None || inventory is None) ==> r
            matches Err(MachineHookError::OsInfoError),
        (os is Some && os_version is Some && kernel_version is Some && inventory is Some
            && hostname is None) ==> r matches Err(MachineHookError::HostnameError),
        (os is Some && os_version is Some && kernel_version is Some && inventory is Some
            && hostname is Some) ==> r == Ok::<MachineCaptured, MachineHookError>(
            MachineCaptured {
                os: os->Some_0,
                os_version: os_version->Some_0,
                kernel_version: kernel_version->Some_0,
                architecture,
                cpus: inventory->Some_0.0,
                total_memory: inventory->Some_0.1,
                hostname: hostname->Some_0,
            },
        ),
{
    let os = match os {
        Some(v) => v,
        None => return Err(MachineHookError::OsInfoError),
    };
    let os_version = match os_version {
        Some(v) => v,
        None => return Err(MachineHookError::OsInfoError),
    };
    let kernel_version = match kernel_version {
        Some(v) => v,
        None => return Err(MachineHookError::OsInfoError),
    };
    let (cpus, total_memory) = match inventory {
        Some(v) => v,
        None => return Err(MachineHookError::OsInfoError),
    };
    let hostname = match hostname {
        Some(v) => v,
        None => return Err(MachineHookError::HostnameError),
    };
    Ok(
        MachineCaptured {
            os,
            os_version,
            kernel_version,
            architecture,
            cpus,
            total_memory,
            hostname,
        },
    )
}

impl MachineHook {
    /// The hook (its configuration is empty).
    pub fn from_config() -> (h: Self) {
        MachineHook { config: MachineHookConfig {} }
    }

    /// The hook's configuration.
    pub fn config(&self) -> (c: &MachineHookConfig)
        ensures
            *c == self.config,
    {
        &self.config
    }

    /// Reads the machine's description through the given queries, in the
    /// order the hook asks (each only once the ones before it gave a value):
    /// the operating system's name, version and kernel version, the CPUs
    /// and memory, then the host name; `architecture` is the CPU
    /// architecture the program was built for. A success carries each
    /// piece as its query gave it.
    pub fn run_with<
        N: Fn() -> Option<String>,
        V: Fn() -> Option<String>,
        K: Fn() -> Option<String>,
        I: Fn() -> Option<(Vec<CpuInfo>, u64)>,
        H: Fn() -> Option<String>,
    >(
        &self,
        architecture: String,
        name: &N,
        version: &V,
        kernel: &K,
        inventory: &I,
        host: &H,
    ) -> (r: Result<MachineCaptured, MachineHookError>)
        requires
            name.requires(()),
            version.requires(()),
            kernel.requires(()),
            inventory.requires(()),
            host.requires(()),
        ensures
            r matches Ok(c) ==> {
                &&& c.architecture == architecture
                &&& name.ensures((), Some(c.os))
                &&& version.ensures((), Some(c.os_version))
                &&& kernel.ensures((), Some(c.kernel_version))
                &&& inventory.ensures((), Some((c.cpus, c.total_memory)))
                &&& host.ensures((), Some(c.hostname))
            },
            r matches Err(e) ==> (e is OsInfoError || e is HostnameError),
            r matches Err(MachineHookError::HostnameError) ==> host.ensures((), None::<String>),
    {
        let os = name();
        let version = match &os {
            Some(_) => version(),
            None => None,
        };
        let kernel = match &version {
            Some(_) => kernel(),
            None => None,
        };
        let inventory = match &kernel {
            Some(_) => inventory(),
            None => None,
        };
        let hostname = match &inventory {
            Some(_) => host(),
            None => None,
        };
        machine_captured(os, version, kernel, architecture, inventory, hostname)
    }

    /// Reads the machine's description from `sysinfo`; `architecture` is the
    /// CPU architecture the program was built for. Whatever the machine
    /// reports, a success carries that architecture, the operating system's
    /// name as `System::name` gave it, its version as `System::os_version`
    /// gave it, the kernel version, CPUs, memory and host name as their
    /// queries gave them; a failure is a missing piece of the operating
    /// system's description or of the host name.
    pub fn run(&self, architecture: String) -> (r: Result<MachineCaptured, MachineHookError>)
        ensures
            r matches Ok(c) ==> c.architecture == architecture,
            r matches Ok(c) ==> reported_os_name(c.os) && reported_os_version(c.os_version)
                && reported_kernel_version(c.kernel_version) && reported_host_name(c.hostname)
                && reported_inventory(c.cpus, c.total_memory),
            r matches Err(e) ==> (e is OsInfoError || e is HostnameError),
    {
        self.run_with(architecture, &os_name, &os_version, &kernel_version, &machine_inventory, &host_name)
    }
}

/// The CPUs and memory of the machine, or `None` when its state cannot be
/// read.
fn machine_inventory() -> (r: Option<(Vec<CpuInfo>, u64)>) {
    match system_with_cpus_and_ram() {
        Some(system) => {
            let cpus = cpus_of(&system);
            let memory = total_memory_of(&system);
            Some((cpus, memory))
        },
        None => None,
    }
}

/// Whether `System::name` may have given `s` as the operating system's name.
pub closed spec fn reported_os_name(s: String) -> bool {
    os_name.ensures((), Some(s))
}

/// Whether `System::os_version` may have given `s` as the operating
/// system's version.
pub closed spec fn reported_os_version(s: String) -> bool {
    os_version.ensures((), Some(s))
}

/// Whether `System::kernel_version` may have given `s` as the kernel's
/// version.
pub closed spec fn reported_kernel_version(s: String) -> bool {
    kernel_version.ensures((), Some(s))
}

/// Whether `System::host_name` may have given `s` as the host name.
pub closed spec fn reported_host_name(s: String) -> bool {
    host_name.ensures((), Some(s))
}

/// Whether the machine's state may have given these CPUs and this memory.
pub closed spec fn reported_inventory(cpus: Vec<CpuInfo>, memory: u64) -> bool {
    machine_inventory.ensures((), Some((cpus, memory)))
}

/// A successful run records each piece of the machine's description in its
/// own field, as the query for that piece gave it: `os` is the operating
/// system's name (`System::name`), `os_version` its version
/// (`System::os_version`), `kernel_version` the kernel's version, `hostname`
/// the host name, `cpus` and `total_memory` the machine's state, and
/// `architecture` the one the run was given.
pub proof fn lemma_run_records_each_query(h: MachineHook, architecture: String, r: Result<MachineCaptured, MachineHookError>)
    requires
        call_ensures(MachineHook::run, (&h, architecture), r),
        r is Ok,
    ensures
        reported_os_name(r->Ok_0.os),
        reported_os_version(r->Ok_0.os_version),
        reported_kernel_version(r->Ok_0.kernel_version),
        reported_host_name(r->Ok_0.hostname),
        reported_inventory(r->Ok_0.cpus, r->Ok_0.total_memory),
        r->Ok_0.architecture == architecture,
{
}

/// Whatever the queries are, a successful run takes the operating system's
/// name from the name query and its version from the version query (never
/// one for the other), and likewise for every other piece.
pub proof fn lemma_run_with_records_each_query<
    N: Fn() -> Option<String>,
    V: Fn() -> Option<String>,
    K: Fn() -> Option<String>,
    I: Fn() -> Option<(Vec<CpuInfo>, u64)>,
    H: Fn() -> Option<String>,
>(
    h: MachineHook,
    architecture: String,
    name: N,
    version: V,
    kernel: K,
    inventory: I,
    host: H,
    r: Result<MachineCaptured, MachineHookError>,
)
    requires
        call_ensures(MachineHook::run_with::<N, V, K, I, H>, (&h, architecture, &name, &version, &kernel, &inventory, &host), r),
        r is Ok,
    ensures
        name.ensures((), Some(r->Ok_0.os)),
        version.ensures((), Some(r->Ok_0.os_version)),
        kernel.ensures((), Some(r->Ok_0.kernel_version)),
        inventory.ensures((), Some((r->Ok_0.cpus, r->Ok_0.total_memory))),
        host.ensures((), Some(r->Ok_0.hostname)),
        r->Ok_0.architecture == architecture,
{
}

/// Makes `capture-machine` hooks.
#[derive(Debug, Clone, Copy, Default)]
pub struct MachineHookFactory;

impl MachineHookFactory {
    /// The id under which the factory's hooks are configured.
    pub fn key(&self) -> (r: &'static str)
        ensures
            r@ == "capture-machine"@,
    {
        "capture-machine"
    }

    /// A `capture-machine` hook (it takes no configuration).
    pub fn create_hook(&self) -> (h: MachineHook) {
        MachineHook::from_config()
    }
}

/// Makes `machine` contexts: the machine's description, as the
/// `capture-machine` hook reads it.
#[derive(Debug, Clone, Copy, Default)]
pub struct MachineContextFactory;

impl MachineContextFactory {
    /// The id under which the factory's contexts are configured.
    pub fn key(&self) -> (r: &'static str)
        ensures
            r@ == "machine"@,
    {
        "machine"
    }

    /// A `machine` context (it takes no configuration).
    pub fn create_context(&self) -> (h: MachineHook) {
        MachineHook::from_config()
    }
}

impl MachineHookError {
    /// The message this error displays.
    pub open spec fn message_spec(&self) -> Seq<char> {
        match self {
            MachineHookError::OsInfoError => "Failed to get OS information"@,
            MachineHookError::HostnameError => "Failed to get hostname"@,
            MachineHookError::Serialization(e) => "Failed to serialize machine hook: "@ + e@,
        }
    }

    /// The message this error displays.
    pub fn message(&self) -> (m: String)
        ensures
            m@ == self.message_spec(),
    {
        let mut m = String::new();
        match self {
            MachineHookError::OsInfoError => {
                push_str(&mut m, "Failed to get OS information");
            },
            MachineHookError::HostnameError => {
                push_str(&mut m, "Failed to get hostname");
            },
            MachineHookError::Serialization(e) => {
                push_str(&mut m, "Failed to serialize machine hook: ");
                push_str(&mut m, e.as_str());
            },
        }
        m
    }

    /// The error as the library-wide error: a failure of `capture-machine`.
    pub fn into_capsula(self) -> (e: CapsulaError)
        ensures
            e matches CapsulaError::HookFailed { hook, message } && hook@ == "capture-machine"@ && message@ == self.message_spec(),
    {
        let message = self.message();
        CapsulaError::HookFailed { hook: copy_string("capture-machine"), message }
    }
}

} // verus!
