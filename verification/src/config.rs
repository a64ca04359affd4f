//! Where the manager keeps its files, what it downloads, and the defaults of
//! a new VM, as the environment sets them.

use vstd::prelude::*;
use vstd::string::*;

use crate::chunking::{default_config, ChunkingConfig};
use crate::error::{Error, Result};
use crate::text::{parse_number, parse_unsigned, to_chars, wrap};

verus! {

/// The settings that the manager works by.
#[derive(Clone)]
pub struct Config {
    /// The manager's own directory.
    pub ch_home: String,
    /// Where downloaded assets and images are kept.
    pub asset_dir: String,
    /// Where the VMs' directories are kept.
    pub vm_root: String,
    /// Where the base operating system image is downloaded from.
    pub os_url: String,
    /// Where the firmware is downloaded from.
    pub fw_url: String,
    /// Where the hypervisor is downloaded from.
    pub ch_url: String,
    /// Where the hypervisor's remote control is downloaded from.
    pub cr_url: String,
    /// Where the registry client is downloaded from.
    pub oras_url: String,
    /// The base disk.
    pub base_raw: String,
    /// The firmware.
    pub fw_bin: String,
    /// The hypervisor.
    pub ch_bin: String,
    /// The hypervisor's remote control.
    pub cr_bin: String,
    /// The registry client.
    pub oras_bin: String,
    /// Number of CPUs of a new VM.
    pub cpus: usize,
    /// Memory of a new VM.
    pub mem: String,
    /// Disk size of a new VM.
    pub disk_size: String,
    /// How large files are chunked and transferred.
    pub chunking: ChunkingConfig,
}

/// What the environment says: the home directory, and the value of each
/// variable that is set.
pub struct Environment {
    /// The user's home directory.
    pub home: Option<String>,
    /// `MEDA_ASSET_DIR`.
    pub asset_dir: Option<String>,
    /// `MEDA_VM_DIR`.
    pub vm_dir: Option<String>,
    /// `MEDA_CPUS`.
    pub cpus: Option<String>,
    /// `MEDA_MEM`.
    pub mem: Option<String>,
    /// `MEDA_DISK_SIZE`.
    pub disk_size: Option<String>,
    /// `MEDA_ORAS_CONCURRENCY`.
    pub oras_concurrency: Option<String>,
    /// `MEDA_ORAS_PUSH_CONCURRENCY`.
    pub oras_push_concurrency: Option<String>,
    /// `MEDA_ORAS_PULL_CONCURRENCY`.
    pub oras_pull_concurrency: Option<String>,
}

/// The path of `name` under the directory `base`.
pub open spec fn path_under(base: Seq<char>, name: Seq<char>) -> Seq<char> {
    base + "/"@ + name
}

/// The text of `value`, or `fallback` where there is none.
pub open spec fn text_or(value: Option<String>, fallback: Seq<char>) -> Seq<char> {
    match value {
        Some(v) => v@,
        None => fallback,
    }
}

/// `n` brought into the range from 1 to 50.
pub open spec fn clamped(n: nat) -> u32 {
    if n < 1 {
        1
    } else if n > 50 {
        50
    } else {
        n as u32
    }
}

/// The concurrency that `value` asks for: its number, brought into the range
/// from 1 to 50; nothing where it is not set or no number of 32 bits.
pub open spec fn concurrency_of(value: Option<String>) -> Option<u32> {
    match value {
        Some(v) => match parse_unsigned(v@, u32::MAX as nat) {
            Some(n) => Some(clamped(n)),
            None => None,
        },
        None => None,
    }
}

/// The number of CPUs that `value` asks for: its number, and 2 where it is
/// not set or no number.
pub open spec fn cpus_of(value: Option<String>) -> usize {
    match value {
        Some(v) => match parse_unsigned(v@, usize::MAX as nat) {
            Some(n) => n as usize,
            None => 2,
        },
        None => 2,
    }
}

/// `c` is the configuration that the environment `env`, with the home
/// directory `home`, asks for.
pub open spec fn is_config_for(c: Config, env: Environment, home: Seq<char>) -> bool {
    &&& c.ch_home@ == path_under(home, ".meda"@)
    &&& c.asset_dir@ == text_or(env.asset_dir, path_under(c.ch_home@, "assets"@))
    &&& c.vm_root@ == text_or(env.vm_dir, path_under(c.ch_home@, "vms"@))
    &&& c.os_url@
        == "https://cloud-images.ubuntu.com/jammy/current/jammy-server-cloudimg-amd64.img"@
    &&& c.fw_url@
        == "https://github.com/cloud-hypervisor/rust-hypervisor-firmware/releases/latest/download/hypervisor-fw"@
    &&& c.ch_url@
        == "https://github.com/cloud-hypervisor/cloud-hypervisor/releases/latest/download/cloud-hypervisor-static"@
    &&& c.cr_url@
        == "https://github.com/cloud-hypervisor/cloud-hypervisor/releases/latest/download/ch-remote-static"@
    &&& c.oras_url@
        == "https://github.com/oras-project/oras/releases/download/v1.2.3/oras_1.2.3_linux_amd64.tar.gz"@
    &&& c.base_raw@ == path_under(c.asset_dir@, "ubuntu-base.raw"@)
    &&& c.fw_bin@ == path_under(c.asset_dir@, "hypervisor-fw"@)
    &&& c.ch_bin@ == path_under(c.asset_dir@, "cloud-hypervisor"@)
    &&& c.cr_bin@ == path_under(c.asset_dir@, "ch-remote"@)
    &&& c.oras_bin@ == path_under(c.asset_dir@, "oras"@)
    &&& c.cpus == cpus_of(env.cpus)
    &&& c.mem@ == text_or(env.mem, "1024M"@)
    &&& c.disk_size@ == text_or(env.disk_size, "10G"@)
    &&& c.chunking == (ChunkingConfig {
        oras_concurrency: match concurrency_of(env.oras_concurrency) {
            Some(n) => n,
            None => 10,
        },
        oras_push_concurrency: concurrency_of(env.oras_push_concurrency),
        oras_pull_concurrency: concurrency_of(env.oras_pull_concurrency),
        ..default_config()
    })
}

/// The path of `name` under the directory `base`.
pub fn join_path(base: &str, name: &str) -> (r: String)
    ensures
        r@ == path_under(base@, name@),
{
    wrap(base, "/", name)
}

/// The value given, or `fallback` where there is none.
fn value_or(value: &Option<String>, fallback: String) -> (r: String)
    ensures
        r@ == text_or(*value, fallback@),
{
    match value {
        Some(v) => v.clone(),
        None => fallback,
    }
}

/// The concurrency that `value` asks for.
fn read_concurrency(value: &Option<String>) -> (r: Option<u32>)
    ensures
        r == concurrency_of(*value),
{
    match value {
        Some(v) => match parse_number(&to_chars(v.as_str()), u32::MAX as u64) {
            Some(n) => Some(
                if n < 1 {
                    1
                } else if n > 50 {
                    50
                } else {
                    n as u32
                },
            ),
            None => None,
        },
        None => None,
    }
}

impl Config {
    /// The configuration that the environment asks for. It needs the home
    /// directory, and fails without.
    pub fn new(env: &Environment) -> (r: Result<Config>)
        ensures
            match r {
                Ok(c) => env.home matches Some(home) && is_config_for(c, *env, home@),
                Err(e) => env.home is None && e is HomeDirNotFound,
            },
    {
        let home = match &env.home {
            Some(h) => h,
            None => {
                return Err(Error::HomeDirNotFound);
            },
        };
        let ch_home = join_path(home.as_str(), ".meda");
        let asset_dir = value_or(&env.asset_dir, join_path(ch_home.as_str(), "assets"));
        let vm_root = value_or(&env.vm_dir, join_path(ch_home.as_str(), "vms"));
        let cpus: usize = match &env.cpus {
            Some(v) => match parse_number(&to_chars(v.as_str()), usize::MAX as u64) {
                Some(n) => n as usize,
                None => 2,
            },
            None => 2,
        };
        let mut chunking = ChunkingConfig::default();
        match read_concurrency(&env.oras_concurrency) {
            Some(n) => {
                chunking.oras_concurrency = n;
            },
            None => {},
        }
        chunking.oras_push_concurrency = read_concurrency(&env.oras_push_concurrency);
        chunking.oras_pull_concurrency = read_concurrency(&env.oras_pull_concurrency);
        let base_raw = join_path(asset_dir.as_str(), "ubuntu-base.raw");
        let fw_bin = join_path(asset_dir.as_str(), "hypervisor-fw");
        let ch_bin = join_path(asset_dir.as_str(), "cloud-hypervisor");
        let cr_bin = join_path(asset_dir.as_str(), "ch-remote");
        let oras_bin = join_path(asset_dir.as_str(), "oras");
        Ok(
            Config {
                ch_home,
                asset_dir,
                vm_root,
                os_url: String::from_str(
                    "https://cloud-images.ubuntu.com/jammy/current/jammy-server-cloudimg-amd64.img",
                ),
                fw_url: String::from_str(
                    "https://github.com/cloud-hypervisor/rust-hypervisor-firmware/releases/latest/download/hypervisor-fw",
                ),
                ch_url: String::from_str(
                    "https://github.com/cloud-hypervisor/cloud-hypervisor/releases/latest/download/cloud-hypervisor-static",
                ),
                cr_url: String::from_str(
                    "https://github.com/cloud-hypervisor/cloud-hypervisor/releases/latest/download/ch-remote-static",
                ),
                oras_url: String::from_str(
                    "https://github.com/oras-project/oras/releases/download/v1.2.3/oras_1.2.3_linux_amd64.tar.gz",
                ),
                base_raw,
                fw_bin,
                ch_bin,
                cr_bin,
                oras_bin,
                cpus,
                mem: value_or(&env.mem, String::from_str("1024M")),
                disk_size: value_or(&env.disk_size, String::from_str("10G")),
                chunking,
            },
        )
    }

    /// The directory of the VM `name`.
    pub fn vm_dir(&self, name: &str) -> (r: String)
        ensures
            r@ == path_under(self.vm_root@, name@),
    {
        join_path(self.vm_root.as_str(), name)
    }

    /// The directories that must exist before anything else is done: the
    /// manager's own, that of the assets and that of the VMs.
    pub fn ensure_dirs(&self) -> (r: Vec<String>)
        ensures
            r.len() == 3,
            r@[0]@ == self.ch_home@,
            r@[1]@ == self.asset_dir@,
            r@[2]@ == self.vm_root@,
    {
        let mut r: Vec<String> = Vec::new();
        r.push(self.ch_home.clone());
        r.push(self.asset_dir.clone());
        r.push(self.vm_root.clone());
        r
    }
}

} // verus!
