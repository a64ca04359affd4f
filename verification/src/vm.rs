//! The life of a VM: what its directory holds, what creating, starting,
//! stopping and deleting it take, and what is shown of it.

use backon::BackoffBuilder;
use vstd::prelude::*;
use vstd::string::*;

use crate::config::{join_path, path_under, Config};
use crate::error::{Error, Result};
use crate::plan::{
    copy_file, create_dir, no_steps, plan, push_step, steps, write_file, Step, StepView,
};
use crate::text::{
    decimal, find, first_match, from_chars, lines, lines_of, match_at, opt_text, pair,
    parse_number, parse_unsigned, slice, to_chars, to_decimal, trim, trimmed, views_of, wrap,
};
use crate::util::{args, cmd, command, no_args, push_arg, Command, CommandView, Outcome};

verus! {

/// The resources of a VM.
#[derive(Clone, Debug)]
pub struct VmResources {
    /// Memory, as the hypervisor takes it.
    pub memory: String,
    /// Number of CPUs.
    pub cpus: u8,
    /// Disk size, as the image tool takes it.
    pub disk_size: String,
}

impl VmResources {
    /// The resources of a VM: what is asked for, and for the rest what the
    /// configuration has. The configured number of CPUs is taken by its low
    /// eight bits.
    pub fn from_config_with_overrides(
        config: &Config,
        memory: Option<&str>,
        cpus: Option<u8>,
        disk_size: Option<&str>,
    ) -> (r: Self)
        ensures
            r.memory@ == (match memory {
                Some(m) => m@,
                None => config.mem@,
            }),
            r.cpus == (match cpus {
                Some(c) => c,
                None => (config.cpus % 256) as u8,
            }),
            r.disk_size@ == (match disk_size {
                Some(d) => d@,
                None => config.disk_size@,
            }),
    {
        VmResources {
            memory: match memory {
                Some(m) => String::from_str(m),
                None => config.mem.clone(),
            },
            cpus: match cpus {
                Some(c) => c,
                None => (config.cpus % 256) as u8,
            },
            disk_size: match disk_size {
                Some(d) => String::from_str(d),
                None => config.disk_size.clone(),
            },
        }
    }
}

/// What is listed of a VM.
#[derive(Debug, Clone)]
pub struct VmInfo {
    /// The VM's name.
    pub name: String,
    /// `running` or `stopped`.
    pub state: String,
    /// The guest's address, or `N/A`.
    pub ip: String,
    /// The VM's memory.
    pub memory: String,
    /// The VM's disk size.
    pub disk: String,
    /// When the VM was created.
    pub created: String,
}

/// The outcome of an operation on a VM, as it is reported.
#[derive(Debug, Clone)]
pub struct VmResult {
    /// Whether the operation did what was asked.
    pub success: bool,
    /// What is said of it.
    pub message: String,
}

/// The cloud-init meta-data of the VM `name`: its instance id and its host name.
pub open spec fn meta_data_text(name: Seq<char>) -> Seq<char> {
    "instance-id: "@
        + name
        + "\nlocal-hostname: "@
        + name
        + "\n"@
}

/// The cloud-init meta-data of the VM `name`.
pub fn meta_data(name: &str) -> (r: String)
    ensures
        r@ == meta_data_text(name@),
{
    let mut r = String::from_str("instance-id: ");
    r.append(name);
    r.append("\nlocal-hostname: ");
    r.append(name);
    r.append("\n");
    r
}

/// The cloud-init user-data of a VM that brings none: one user `meda` who may
/// become root without a password and logs in with the password whose hash is given.
pub open spec fn default_user_data_text(password_hash: Seq<char>) -> Seq<char> {
    "#cloud-config\n"@
        + "users:\n"@
        + "  - name: meda\n"@
        + "    sudo: ALL=(ALL) NOPASSWD:ALL\n"@
        + "    passwd: "@
        + password_hash
        + "\n"@
        + "    lock_passwd: false\n"@
        + "    inactive: false\n"@
        + "    groups: sudo\n"@
        + "    shell: /bin/bash\n"@
        + "ssh_pwauth: true\n"@
}

/// The cloud-init user-data of a VM that brings none.
pub fn default_user_data(password_hash: &str) -> (r: String)
    ensures
        r@ == default_user_data_text(password_hash@),
{
    let mut r = String::from_str("#cloud-config\n");
    r.append("users:\n");
    r.append("  - name: meda\n");
    r.append("    sudo: ALL=(ALL) NOPASSWD:ALL\n");
    r.append("    passwd: ");
    r.append(password_hash);
    r.append("\n");
    r.append("    lock_passwd: false\n");
    r.append("    inactive: false\n");
    r.append("    groups: sudo\n");
    r.append("    shell: /bin/bash\n");
    r.append("ssh_pwauth: true\n");
    r
}

/// The cloud-init network configuration of a VM: the interface with the MAC
/// address `mac` gets the guest address `.2` of `subnet`, the host's `.1` as
/// gateway, and two public name servers.
pub open spec fn network_config_text(mac: Seq<char>, subnet: Seq<char>) -> Seq<char> {
    "version: 2\n"@
        + "ethernets:\n"@
        + "  ens4:\n"@
        + "    match:\n"@
        + "       macaddress: "@
        + mac
        + "\n"@
        + "    addresses: ["@
        + subnet
        + ".2/24]\n"@
        + "    gateway4: "@
        + subnet
        + ".1\n"@
        + "    set-name: ens4\n"@
        + "    nameservers:\n"@
        + "      addresses: [8.8.8.8, 1.1.1.1]\n"@
}

/// The cloud-init network configuration of a VM.
pub fn network_config(mac: &str, subnet: &str) -> (r: String)
    ensures
        r@ == network_config_text(mac@, subnet@),
{
    let mut r = String::from_str("version: 2\n");
    r.append("ethernets:\n");
    r.append("  ens4:\n");
    r.append("    match:\n");
    r.append("       macaddress: ");
    r.append(mac);
    r.append("\n");
    r.append("    addresses: [");
    r.append(subnet);
    r.append(".2/24]\n");
    r.append("    gateway4: ");
    r.append(subnet);
    r.append(".1\n");
    r.append("    set-name: ens4\n");
    r.append("    nameservers:\n");
    r.append("      addresses: [8.8.8.8, 1.1.1.1]\n");
    r
}

/// The script that starts a VM: it goes to the VM's directory, starts the
/// hypervisor in the background with the VM's disk and seed, its TAP device
/// and MAC address, writes the hypervisor's output to the log, records its
/// process id, and fails if the hypervisor is gone two seconds later.
pub open spec fn start_script_text(vm_dir: Seq<char>, ch_bin: Seq<char>, fw_bin: Seq<char>, cpus: Seq<char>, memory: Seq<char>, tap: Seq<char>, mac: Seq<char>) -> Seq<char> {
    "#!/bin/bash\n"@
        + "cd \""@
        + vm_dir
        + "\"\n"@
        + ch_bin
        + " \\\n"@
        + "  --api-socket path="@
        + vm_dir
        + "/api.sock \\\n"@
        + "  --console off \\\n"@
        + "  --serial tty \\\n"@
        + "  --kernel \""@
        + fw_bin
        + "\" \\\n"@
        + "  --cpus boot="@
        + cpus
        + " \\\n"@
        + "  --memory size="@
        + memory
        + " \\\n"@
        + "  --disk path="@
        + vm_dir
        + "/rootfs.raw path=\""@
        + vm_dir
        + "/ci.iso\" \\\n"@
        + "  --net tap="@
        + tap
        + ",mac="@
        + mac
        + " \\\n"@
        + "  --rng src=/dev/urandom \\\n"@
        + "  > \""@
        + vm_dir
        + "/ch.log\" 2>&1 &\n"@
        + "echo $! > \""@
        + vm_dir
        + "/pid\"\n"@
        + "\n"@
        + "# Check if command started successfully\n"@
        + "sleep 2\n"@
        + "if ! ps -p $(cat \""@
        + vm_dir
        + "/pid\" 2>/dev/null) &>/dev/null; then\n"@
        + "  echo \"ERROR: Cloud Hypervisor failed to start. Check log: "@
        + vm_dir
        + "/ch.log\" >&2\n"@
        + "  exit 1\n"@
        + "fi\n"@
}

/// The script that starts a VM.
pub fn start_script(vm_dir: &str, ch_bin: &str, fw_bin: &str, cpus: &str, memory: &str, tap: &str, mac: &str) -> (r: String)
    ensures
        r@ == start_script_text(vm_dir@, ch_bin@, fw_bin@, cpus@, memory@, tap@, mac@),
{
    let mut r = String::from_str("#!/bin/bash\n");
    r.append("cd \"");
    r.append(vm_dir);
    r.append("\"\n");
    r.append(ch_bin);
    r.append(" \\\n");
    r.append("  --api-socket path=");
    r.append(vm_dir);
    r.append("/api.sock \\\n");
    r.append("  --console off \\\n");
    r.append("  --serial tty \\\n");
    r.append("  --kernel \"");
    r.append(fw_bin);
    r.append("\" \\\n");
    r.append("  --cpus boot=");
    r.append(cpus);
    r.append(" \\\n");
    r.append("  --memory size=");
    r.append(memory);
    r.append(" \\\n");
    r.append("  --disk path=");
    r.append(vm_dir);
    r.append("/rootfs.raw path=\"");
    r.append(vm_dir);
    r.append("/ci.iso\" \\\n");
    r.append("  --net tap=");
    r.append(tap);
    r.append(",mac=");
    r.append(mac);
    r.append(" \\\n");
    r.append("  --rng src=/dev/urandom \\\n");
    r.append("  > \"");
    r.append(vm_dir);
    r.append("/ch.log\" 2>&1 &\n");
    r.append("echo $! > \"");
    r.append(vm_dir);
    r.append("/pid\"\n");
    r.append("\n");
    r.append("# Check if command started successfully\n");
    r.append("sleep 2\n");
    r.append("if ! ps -p $(cat \"");
    r.append(vm_dir);
    r.append("/pid\" 2>/dev/null) &>/dev/null; then\n");
    r.append("  echo \"ERROR: Cloud Hypervisor failed to start. Check log: ");
    r.append(vm_dir);
    r.append("/ch.log\" >&2\n");
    r.append("  exit 1\n");
    r.append("fi\n");
    r
}

/// The address of the guest in `subnet`.
pub open spec fn guest_ip(subnet: Seq<char>) -> Seq<char> {
    trimmed(subnet) + ".2"@
}

/// The address of a VM's guest: `subnet` is the content of the VM's subnet
/// file, if it has one. Without the file there is no address.
pub fn get_vm_ip(subnet: Option<&str>) -> (r: Result<String>)
    ensures
        match r {
            Ok(ip) => subnet matches Some(s) && ip@ == guest_ip(s@),
            Err(e) => subnet is None && e is Other,
        },
{
    match subnet {
        Some(s) => {
            let net = from_chars(&trim(&to_chars(s)));
            Ok(pair(net.as_str(), ".2"))
        },
        None => Err(Error::Other(String::from_str("Subnet file not found"))),
    }
}

/// The guest of a subnet that the allocator gave has the address `.2` of
/// that subnet, as it stands.
pub proof fn law_guest_ip(octet: u8)
    ensures
        guest_ip(crate::network::subnet_text(octet)) == crate::network::subnet_text(octet) + ".2"@,
{
    crate::network::law_subnet_text(octet, octet);
}

/// The process id that a pid file records: its content, white space around
/// it aside, read as a number of 32 bits. No file or other content records none.
pub open spec fn pid_in(pid_file: Option<Seq<char>>) -> Option<u32> {
    match pid_file {
        Some(c) => match parse_unsigned(trimmed(c), u32::MAX as nat) {
            Some(n) => Some(n as u32),
            None => None,
        },
        None => None,
    }
}

/// The process id that a VM's pid file records, if any.
pub fn recorded_pid(pid_file: Option<&str>) -> (r: Option<u32>)
    ensures
        r == pid_in(
            opt_text(pid_file),
        ),
{
    match pid_file {
        Some(c) => match parse_number(&trim(&to_chars(c)), u32::MAX as u64) {
            Some(n) => Some(n as u32),
            None => None,
        },
        None => None,
    }
}

/// Whether a VM runs: its pid file records a process id, and the probe for
/// that process ran and succeeded. `probe` is how the probe ended, where one
/// was made. A pid file whose process is gone does not count as running.
pub fn check_vm_running(pid_file: Option<&str>, probe: Option<&Outcome>) -> (r: bool)
    ensures
        r == (pid_in(
            opt_text(pid_file),
        ) is Some && (probe matches Some(o) && o is Succeeded)),
{
    match recorded_pid(pid_file) {
        Some(_) => match probe {
            Some(o) => crate::util::check_process_running(o),
            None => false,
        },
        None => false,
    }
}

/// The memory that a line of a start script sets: what follows the first
/// `--memory size=` up to the next space, or up to the end of the line,
/// white space aside, where no space follows.
pub open spec fn memory_in_line(line: Seq<char>) -> Option<Seq<char>> {
    if exists|p: int| first_match(line, "--memory size="@, p) {
        let p = choose|p: int| first_match(line, "--memory size="@, p);
        let after = line.subrange(p + "--memory size="@.len(), line.len() as int);
        if exists|q: int| first_match(after, " "@, q) {
            let q = choose|q: int| first_match(after, " "@, q);
            Some(after.subrange(0, q))
        } else {
            Some(trimmed(after))
        }
    } else {
        None
    }
}

/// The memory that the first of `lines` to set one sets.
pub open spec fn memory_in_lines(lines: Seq<Seq<char>>) -> Option<Seq<char>>
    decreases lines.len(),
{
    if lines.len() == 0 {
        None
    } else {
        match memory_in_line(lines[0]) {
            Some(m) => Some(m),
            None => memory_in_lines(lines.drop_first()),
        }
    }
}

/// The memory of a VM: what its memory file records, white space aside;
/// without that file, what its start script sets; and otherwise `fallback`.
pub open spec fn memory_of(
    memory_file: Option<Seq<char>>,
    start_script: Option<Seq<char>>,
    fallback: Seq<char>,
) -> Seq<char> {
    match memory_file {
        Some(m) => trimmed(m),
        None => match start_script {
            Some(s) => match memory_in_lines(lines_of(s)) {
                Some(m) => m,
                None => fallback,
            },
            None => fallback,
        },
    }
}

/// The memory that a line of a start script sets, if any.
pub fn parse_memory_line(line: &Vec<char>) -> (r: Option<Vec<char>>)
    ensures
        match r {
            Some(m) => memory_in_line(line@) == Some(m@),
            None => memory_in_line(line@) is None,
        },
{
    let flag = to_chars("--memory size=");
    let space = to_chars(" ");
    match find(line, &flag) {
        None => {
            assert forall|p: int| !first_match(line@, "--memory size="@, p) by {
                if first_match(line@, "--memory size="@, p) {
                    assert(match_at(line@, "--memory size="@, p));
                }
            }
            None
        },
        Some(p) => {
            let ghost p0 = choose|p: int| first_match(line@, "--memory size="@, p);
            assert(p0 == p);
            assert(match_at(line@, flag@, p as int));
            assert(p + flag@.len() <= line@.len());
            assert(p + flag.len() <= line.len());
            let after = slice(line, p + flag.len(), line.len());
            match find(&after, &space) {
                None => {
                    assert forall|q: int| !first_match(after@, " "@, q) by {
                        if first_match(after@, " "@, q) {
                            assert(match_at(after@, " "@, q));
                        }
                    }
                    Some(trim(&after))
                },
                Some(q) => {
                    let ghost q0 = choose|q: int| first_match(after@, " "@, q);
                    assert(q0 == q);
                    assert(match_at(after@, " "@, q as int));
                    Some(slice(&after, 0, q))
                },
            }
        },
    }
}

/// The memory of a VM. `memory_file` and `start_script` are the content of
/// the VM's memory file and of its start script, where it has them;
/// `fallback` is the configured memory.
pub fn get_vm_memory(memory_file: Option<&str>, start_script: Option<&str>, fallback: &str) -> (r:
    String)
    ensures
        r@ == memory_of(
            opt_text(memory_file),
            opt_text(start_script),
            fallback@,
        ),
{
    match memory_file {
        Some(m) => {
            return from_chars(&trim(&to_chars(m)));
        },
        None => {},
    }
    let script = match start_script {
        Some(s) => s,
        None => {
            return String::from_str(fallback);
        },
    };
    let all = lines(&to_chars(script));
    let ghost whole = views_of(all@);
    let mut i: usize = 0;
    assert(whole.subrange(0, whole.len() as int) == whole);
    while i < all.len()
        invariant
            i <= all.len(),
            whole == views_of(all@),
            whole == lines_of(script@),
            memory_file is None,
            start_script == Some(script),
            memory_in_lines(whole) == memory_in_lines(whole.subrange(i as int, whole.len() as int)),
        decreases all.len() - i,
    {
        let ghost rest = whole.subrange(i as int, whole.len() as int);
        assert(rest[0] == all@[i as int]@);
        assert(rest.drop_first() == whole.subrange(i + 1, whole.len() as int));
        match parse_memory_line(&all[i]) {
            Some(m) => {
                return from_chars(&m);
            },
            None => {},
        }
        i += 1;
    }
    String::from_str(fallback)
}

/// A disk size in whole gibibytes, as it is shown.
pub open spec fn gibibytes_text(bytes: u64) -> Seq<char> {
    decimal((bytes / 1073741824) as nat) + "G"@
}

/// The disk size of a VM: what its disk size file records, white space
/// aside; without that file, the virtual size that the image tool told of
/// its disk, in whole gibibytes; and otherwise `fallback`.
pub open spec fn disk_size_of(
    disk_size_file: Option<Seq<char>>,
    rootfs_exists: bool,
    virtual_size: Option<u64>,
    fallback: Seq<char>,
) -> Seq<char> {
    match disk_size_file {
        Some(d) => trimmed(d),
        None => if rootfs_exists && virtual_size is Some {
            gibibytes_text(virtual_size->Some_0)
        } else {
            fallback
        },
    }
}

/// The disk size of a VM. `disk_size_file` is the content of the VM's disk
/// size file, where it has one; `virtual_size` is what the image tool told
/// of the VM's disk, if it told anything; `fallback` is the configured size.
pub fn disk_size_from(
    disk_size_file: Option<&str>,
    rootfs_exists: bool,
    virtual_size: Option<u64>,
    fallback: &str,
) -> (r: String)
    ensures
        r@ == disk_size_of(opt_text(disk_size_file), rootfs_exists, virtual_size, fallback@),
{
    match disk_size_file {
        Some(d) => {
            return from_chars(&trim(&to_chars(d)));
        },
        None => {},
    }
    if !rootfs_exists {
        return String::from_str(fallback);
    }
    match virtual_size {
        Some(bytes) => pair(to_decimal(bytes / 1073741824).as_str(), "G"),
        None => String::from_str(fallback),
    }
}

/// The unsigned number that the JSON document `text` holds under `key`, as
/// the `serde_json` crate reads it: nothing where the text is no JSON
/// document, has no such key at its top, or holds no unsigned number of 64
/// bits there.
pub uninterp spec fn json_number(text: Seq<char>, key: Seq<char>) -> Option<u64>;

/// Reads `text` as a JSON document with `serde_json::from_str` and takes
/// the unsigned number under `key` out of it.
#[verifier::external_body]
fn read_json_number(text: &str, key: &str) -> (r: Option<u64>)
    ensures
        r == json_number(text@, key@),
{
    serde_json::from_str::<serde_json::Value>(text).ok().and_then(
        |v| v.get(key).and_then(|n| n.as_u64()),
    )
}

/// The virtual size that the image tool told: `disk_info` is what it
/// answered in JSON, if it answered.
pub open spec fn told_size(disk_info: Option<Seq<char>>) -> Option<u64> {
    match disk_info {
        Some(t) => json_number(t, "virtual-size"@),
        None => None,
    }
}

/// The disk size of a VM. `disk_size_file` is the content of the VM's disk
/// size file, where it has one; `disk_info` is what the image tool answered
/// in JSON when asked about the VM's disk, if it answered; `fallback` is the
/// configured size.
pub fn get_vm_disk_size(
    disk_size_file: Option<&str>,
    rootfs_exists: bool,
    disk_info: Option<&str>,
    fallback: &str,
) -> (r: String)
    ensures
        r@ == disk_size_of(
            opt_text(disk_size_file),
            rootfs_exists,
            told_size(opt_text(disk_info)),
            fallback@,
        ),
{
    let virtual_size = match disk_info {
        Some(t) => read_json_number(t, "virtual-size"),
        None => None,
    };
    disk_size_from(disk_size_file, rootfs_exists, virtual_size, fallback)
}

/// The command that asks the image tool for what it knows of the disk `rootfs`.
pub fn disk_info_command(rootfs: &str) -> (c: Command)
    ensures
        c@ == cmd("qemu-img"@, args().push("info"@).push("--output=json"@).push(rootfs@)),
{
    let mut a = no_args();
    push_arg(&mut a, "info");
    push_arg(&mut a, "--output=json");
    push_arg(&mut a, rootfs);
    command("qemu-img", a)
}

/// What a VM shows in a list: `running` or `stopped`, the guest's address or
/// `N/A` where no subnet is recorded, its memory and its disk size.
pub fn vm_info(
    name: &str,
    running: bool,
    subnet: Option<&str>,
    memory: String,
    disk: String,
    created: String,
) -> (r: VmInfo)
    ensures
        r.name@ == name@,
        r.state@ == (if running {
            "running"@
        } else {
            "stopped"@
        }),
        r.ip@ == (match subnet {
            Some(s) => guest_ip(s@),
            None => "N/A"@,
        }),
        r.memory == memory,
        r.disk == disk,
        r.created == created,
{
    let ip = match get_vm_ip(subnet) {
        Ok(ip) => ip,
        Err(_) => String::from_str("N/A"),
    };
    VmInfo {
        name: String::from_str(name),
        state: String::from_str(
            if running {
                "running"
            } else {
                "stopped"
            },
        ),
        ip,
        memory,
        disk,
        created,
    }
}

/// Which of the assets are there already.
#[derive(Debug, Clone, Copy)]
pub struct Assets {
    /// The base disk.
    pub base_raw: bool,
    /// The firmware.
    pub firmware: bool,
    /// The hypervisor.
    pub hypervisor: bool,
    /// The hypervisor's remote control.
    pub ch_remote: bool,
    /// The registry client.
    pub oras: bool,
}

/// The steps that fetch a binary to `path` unless it is `present`: download
/// it from `url` and make it executable.
pub open spec fn fetch_binary(present: bool, url: Seq<char>, path: Seq<char>) -> Seq<StepView> {
    if present {
        plan()
    } else {
        plan().push(StepView::Download(url, path)).push(StepView::MakeExecutable(path))
    }
}

/// The steps that fetch the base disk unless it is `present`: download the
/// cloud image, make sure of the image tool, convert the image to a raw
/// disk, bring the disk to the configured size, and remove the download.
pub open spec fn fetch_base(present: bool, config: Config) -> Seq<StepView> {
    let tmp = path_under(config.asset_dir@, "img.qcow2"@);
    if present {
        plan()
    } else {
        plan().push(StepView::Download(config.os_url@, tmp)).push(
            StepView::EnsureDependency("qemu-img"@, "qemu-utils"@),
        ).push(
            StepView::Run(
                cmd(
                    "qemu-img"@,
                    args().push("convert"@).push("-f"@).push("qcow2"@).push("-O"@).push(
                        "raw"@,
                    ).push(tmp).push(config.base_raw@),
                ),
            ),
        ).push(StepView::Run(resize_command(config.base_raw@, config.disk_size@))).push(
            StepView::RemoveFile(tmp),
        )
    }
}

/// The steps that fetch the registry client unless it is `present`: download
/// the archive, take the entry named `oras` out of it, and remove the archive.
pub open spec fn fetch_oras(present: bool, config: Config) -> Seq<StepView> {
    let tar = path_under(config.asset_dir@, "oras.tar.gz"@);
    if present {
        plan()
    } else {
        plan().push(StepView::Download(config.oras_url@, tar)).push(
            StepView::Extract { archive: tar, entry: "oras"@, dest: config.oras_bin@ },
        ).push(StepView::RemoveFile(tar))
    }
}

/// The command that brings the disk `disk` to the size `size`.
pub open spec fn resize_command(disk: Seq<char>, size: Seq<char>) -> CommandView {
    cmd("qemu-img"@, args().push("resize"@).push(disk).push(size))
}

/// The steps that make sure of the binaries: the directories, the firmware,
/// the hypervisor, its remote control and the registry client, each fetched
/// unless it is there, and the tool that writes the seed image.
pub open spec fn binaries_steps(config: Config, have: Assets) -> Seq<StepView> {
    fetch_binary(have.firmware, config.fw_url@, config.fw_bin@) + fetch_binary(
        have.hypervisor,
        config.ch_url@,
        config.ch_bin@,
    ) + fetch_binary(have.ch_remote, config.cr_url@, config.cr_bin@) + fetch_oras(
        have.oras,
        config,
    ).push(StepView::EnsureDependency("genisoimage"@, "genisoimage"@))
}

/// The directories that are made sure of first.
pub open spec fn dirs_steps(config: Config) -> Seq<StepView> {
    plan().push(StepView::CreateDir(config.ch_home@)).push(
        StepView::CreateDir(config.asset_dir@),
    ).push(StepView::CreateDir(config.vm_root@))
}

/// The command that brings the disk `disk` to the size `size`.
pub fn resize(disk: &str, size: &str) -> (c: Command)
    ensures
        c@ == resize_command(disk@, size@),
{
    let mut a = no_args();
    push_arg(&mut a, "resize");
    push_arg(&mut a, disk);
    push_arg(&mut a, size);
    command("qemu-img", a)
}

/// Adds to `r` the steps that fetch a binary unless it is there.
fn push_fetch_binary(r: &mut Vec<Step>, present: bool, url: &str, path: &str)
    ensures
        steps(final(r)@) == steps(old(r)@) + fetch_binary(present, url@, path@),
{
    if !present {
        push_step(r, crate::plan::download(url, path));
        push_step(r, crate::plan::make_executable(path));
    }
    assert(steps(r@) =~= steps(old(r)@) + fetch_binary(present, url@, path@));
}

/// Adds to `r` the steps that make sure of the binaries.
fn push_binaries(r: &mut Vec<Step>, config: &Config, have: &Assets)
    ensures
        steps(final(r)@) == steps(old(r)@) + binaries_steps(*config, *have),
{
    push_fetch_binary(r, have.firmware, config.fw_url.as_str(), config.fw_bin.as_str());
    push_fetch_binary(r, have.hypervisor, config.ch_url.as_str(), config.ch_bin.as_str());
    push_fetch_binary(r, have.ch_remote, config.cr_url.as_str(), config.cr_bin.as_str());
    if !have.oras {
        let tar = join_path(config.asset_dir.as_str(), "oras.tar.gz");
        push_step(r, crate::plan::download(config.oras_url.as_str(), tar.as_str()));
        push_step(
            r,
            Step::Extract {
                archive: tar.clone(),
                entry: String::from_str("oras"),
                dest: config.oras_bin.clone(),
            },
        );
        push_step(r, crate::plan::remove_file(tar.as_str()));
    }
    push_step(r, crate::plan::ensure_tool("genisoimage", "genisoimage"));
    assert(steps(r@) =~= steps(old(r)@) + binaries_steps(*config, *have));
}

/// Adds to `r` the steps that make sure of the directories.
fn push_dirs(r: &mut Vec<Step>, config: &Config)
    ensures
        steps(final(r)@) == steps(old(r)@) + dirs_steps(*config),
{
    push_step(r, create_dir(config.ch_home.as_str()));
    push_step(r, create_dir(config.asset_dir.as_str()));
    push_step(r, create_dir(config.vm_root.as_str()));
    assert(steps(r@) =~= steps(old(r)@) + dirs_steps(*config));
}

/// The steps that make sure of all the assets: the directories, the base
/// disk, and the binaries. What is there already is left as it is.
pub fn bootstrap(config: &Config, have: &Assets) -> (r: Vec<Step>)
    ensures
        steps(r@) == dirs_steps(*config) + fetch_base(have.base_raw, *config) + binaries_steps(
            *config,
            *have,
        ),
{
    let mut r = no_steps();
    push_dirs(&mut r, config);
    let ghost first = steps(r@);
    if !have.base_raw {
        let tmp = join_path(config.asset_dir.as_str(), "img.qcow2");
        push_step(&mut r, crate::plan::download(config.os_url.as_str(), tmp.as_str()));
        push_step(&mut r, crate::plan::ensure_tool("qemu-img", "qemu-utils"));
        let mut a = no_args();
        push_arg(&mut a, "convert");
        push_arg(&mut a, "-f");
        push_arg(&mut a, "qcow2");
        push_arg(&mut a, "-O");
        push_arg(&mut a, "raw");
        push_arg(&mut a, tmp.as_str());
        push_arg(&mut a, config.base_raw.as_str());
        push_step(&mut r, Step::Run(command("qemu-img", a)));
        push_step(&mut r, Step::Run(resize(config.base_raw.as_str(), config.disk_size.as_str())));
        push_step(&mut r, crate::plan::remove_file(tmp.as_str()));
    }
    assert(steps(r@) =~= first + fetch_base(have.base_raw, *config));
    push_binaries(&mut r, config, have);
    r
}

/// The steps that make sure of the directories and the binaries, without
/// the base disk.
pub fn bootstrap_binaries_only(config: &Config, have: &Assets) -> (r: Vec<Step>)
    ensures
        steps(r@) == dirs_steps(*config) + binaries_steps(*config, *have),
{
    let mut r = no_steps();
    push_dirs(&mut r, config);
    push_binaries(&mut r, config, have);
    r
}

/// Whether an archive entry at `path` is the registry client: the last part
/// of its path is `oras`.
pub fn is_oras_entry(path: &str) -> (r: bool)
    ensures
        r == (crate::text::split_on(path@, '/').last() == "oras"@),
{
    let parts = crate::text::split(&to_chars(path), '/');
    let last = &parts[parts.len() - 1];
    assert(views_of(parts@).last() == last@);
    crate::text::same_chars(last, &to_chars("oras"))
}

/// The steps with which creating a VM begins: make sure of all the assets,
/// create the VM's directory, copy the base disk into it, and bring the copy
/// to the size asked for where that is not the configured one.
pub open spec fn create_steps(config: Config, name: Seq<char>, resources: VmResources) -> Seq<
    StepView,
> {
    let vm_dir = path_under(config.vm_root@, name);
    let rootfs = path_under(vm_dir, "rootfs.raw"@);
    let first = plan().push(StepView::Bootstrap { full: true }).push(
        StepView::CreateDir(vm_dir),
    ).push(StepView::CopyFile(config.base_raw@, rootfs));
    if resources.disk_size@ != config.disk_size@ {
        first.push(StepView::Run(resize_command(rootfs, resources.disk_size@)))
    } else {
        first
    }
}

/// How creating the VM `name` begins. A VM whose directory exists is there
/// already, and nothing is done. The rest follows once the VM's subnet, TAP
/// device and MAC address are chosen: see `provision`.
pub fn create(config: &Config, name: &str, resources: &VmResources, vm_exists: bool) -> (r: Result<
    Vec<Step>,
>)
    ensures
        match r {
            Ok(v) => !vm_exists && steps(v@) == create_steps(*config, name@, *resources),
            Err(e) => vm_exists && (e matches Error::VmAlreadyExists(n) && n@ == name@),
        },
{
    if vm_exists {
        return Err(Error::VmAlreadyExists(String::from_str(name)));
    }
    let vm_dir = config.vm_dir(name);
    let rootfs = join_path(vm_dir.as_str(), "rootfs.raw");
    let mut r = no_steps();
    push_step(&mut r, Step::Bootstrap { full: true });
    push_step(&mut r, create_dir(vm_dir.as_str()));
    push_step(&mut r, copy_file(config.base_raw.as_str(), rootfs.as_str()));
    if !crate::text::same_text(resources.disk_size.as_str(), config.disk_size.as_str()) {
        push_step(&mut r, Step::Run(resize(rootfs.as_str(), resources.disk_size.as_str())));
    }
    Ok(r)
}

/// Where a new VM's user-data comes from.
#[derive(Debug, Clone)]
pub enum UserData {
    /// The file at this path.
    File(String),
    /// It is in the VM's directory already.
    Kept,
    /// The default, with this password hash.
    Default(String),
}

/// The network identity of a VM.
#[derive(Debug, Clone)]
pub struct Identity {
    /// The VM's subnet.
    pub subnet: String,
    /// The name of its TAP device.
    pub tap_name: String,
    /// The MAC address of its guest.
    pub mac: String,
}

/// The command that writes the seed image `iso` from the directory `dir`:
/// with the volume id `cidata`, and Joliet and Rock Ridge names.
pub open spec fn seed_command(iso: Seq<char>, dir: Seq<char>) -> CommandView {
    cmd(
        "genisoimage"@,
        args().push("-output"@).push(iso).push("-volid"@).push("cidata"@).push("-joliet"@).push(
            "-rock"@,
        ).push(dir),
    )
}

/// The step that puts a new VM's user-data in place.
pub open spec fn user_data_steps(vm_dir: Seq<char>, source: UserData) -> Seq<StepView> {
    let dest = path_under(vm_dir, "user-data"@);
    match source {
        UserData::File(path) => plan().push(StepView::CopyFile(path@, dest)),
        UserData::Kept => plan(),
        UserData::Default(hash) => plan().push(
            StepView::WriteFile(dest, default_user_data_text(hash@)),
        ),
    }
}

/// The files that record a VM's network identity and its resources.
pub open spec fn record_steps(vm_dir: Seq<char>, resources: VmResources, id: Identity) -> Seq<
    StepView,
> {
    plan().push(StepView::WriteFile(path_under(vm_dir, "subnet"@), id.subnet@)).push(
        StepView::WriteFile(path_under(vm_dir, "tapdev"@), id.tap_name@),
    ).push(StepView::WriteFile(path_under(vm_dir, "memory"@), resources.memory@)).push(
        StepView::WriteFile(path_under(vm_dir, "cpus"@), decimal(resources.cpus as nat)),
    ).push(StepView::WriteFile(path_under(vm_dir, "disk_size"@), resources.disk_size@))
}

/// The seed of a VM: the MAC address, the seed directory with the meta-data,
/// the user-data and the network configuration, and the seed image made of it.
pub open spec fn seed_steps(vm_dir: Seq<char>, id: Identity) -> Seq<StepView> {
    let ci = path_under(vm_dir, "ci"@);
    plan().push(StepView::WriteFile(path_under(vm_dir, "mac"@), id.mac@)).push(
        StepView::CreateDir(ci),
    ).push(
        StepView::CopyFile(path_under(vm_dir, "meta-data"@), path_under(ci, "meta-data"@)),
    ).push(
        StepView::CopyFile(path_under(vm_dir, "user-data"@), path_under(ci, "user-data"@)),
    ).push(
        StepView::WriteFile(
            path_under(ci, "network-config"@),
            network_config_text(id.mac@, id.subnet@),
        ),
    ).push(StepView::RunQuiet(seed_command(path_under(vm_dir, "ci.iso"@), ci)))
}

/// The steps that follow once a new VM has its disk and its identity: record
/// the identity and the resources; write fresh meta-data; put the user-data
/// in place; make the seed; set up the host side of the network; and, only
/// then, write the start script and make it executable.
pub open spec fn provision_steps(
    config: Config,
    name: Seq<char>,
    source: UserData,
    resources: VmResources,
    id: Identity,
) -> Seq<StepView> {
    let vm_dir = path_under(config.vm_root@, name);
    let script = path_under(vm_dir, "start.sh"@);
    (record_steps(vm_dir, resources, id).push(
        StepView::WriteFile(path_under(vm_dir, "meta-data"@), meta_data_text(name)),
    ) + user_data_steps(vm_dir, source) + seed_steps(vm_dir, id)).push(
        StepView::SetupNetworking(id.tap_name@, id.subnet@),
    ).push(
        StepView::WriteFile(
            script,
            start_script_text(
                vm_dir,
                config.ch_bin@,
                config.fw_bin@,
                decimal(resources.cpus as nat),
                resources.memory@,
                id.tap_name@,
                id.mac@,
            ),
        ),
    ).push(StepView::MakeExecutable(script))
}

/// The steps that follow once the new VM `name` has its disk and its
/// identity `id`. They are carried out in order, and each must succeed.
pub fn provision(
    config: &Config,
    name: &str,
    source: &UserData,
    resources: &VmResources,
    id: &Identity,
) -> (r: Vec<Step>)
    ensures
        steps(r@) == provision_steps(*config, name@, *source, *resources, *id),
        steps(r@).contains(
            StepView::WriteFile(
                path_under(path_under(config.vm_root@, name@), "memory"@),
                resources.memory@,
            ),
        ),
        steps(r@).contains(
            StepView::WriteFile(
                path_under(path_under(config.vm_root@, name@), "cpus"@),
                decimal(resources.cpus as nat),
            ),
        ),
        steps(r@).contains(
            StepView::WriteFile(
                path_under(path_under(config.vm_root@, name@), "disk_size"@),
                resources.disk_size@,
            ),
        ),
{
    let vm_dir = config.vm_dir(name);
    let dir = vm_dir.as_str();
    let cpus = to_decimal(resources.cpus as u64);
    let mut r = no_steps();
    push_step(&mut r, write_file(join_path(dir, "subnet").as_str(), id.subnet.as_str()));
    push_step(&mut r, write_file(join_path(dir, "tapdev").as_str(), id.tap_name.as_str()));
    push_step(&mut r, write_file(join_path(dir, "memory").as_str(), resources.memory.as_str()));
    push_step(&mut r, write_file(join_path(dir, "cpus").as_str(), cpus.as_str()));
    push_step(
        &mut r,
        write_file(join_path(dir, "disk_size").as_str(), resources.disk_size.as_str()),
    );
    assert(steps(r@) == record_steps(vm_dir@, *resources, *id));
    assert(steps(r@)[2] == StepView::WriteFile(path_under(vm_dir@, "memory"@), resources.memory@));
    assert(steps(r@)[3] == StepView::WriteFile(
        path_under(vm_dir@, "cpus"@),
        decimal(resources.cpus as nat),
    ));
    assert(steps(r@)[4] == StepView::WriteFile(
        path_under(vm_dir@, "disk_size"@),
        resources.disk_size@,
    ));
    push_step(&mut r, write_file(join_path(dir, "meta-data").as_str(), meta_data(name).as_str()));
    let ghost first = steps(r@);
    let user_data = join_path(dir, "user-data");
    match source {
        UserData::File(path) => {
            push_step(&mut r, copy_file(path.as_str(), user_data.as_str()));
        },
        UserData::Kept => {},
        UserData::Default(hash) => {
            push_step(
                &mut r,
                write_file(user_data.as_str(), default_user_data(hash.as_str()).as_str()),
            );
        },
    }
    assert(steps(r@) =~= first + user_data_steps(vm_dir@, *source));
    let ghost second = steps(r@);
    let ci = join_path(dir, "ci");
    push_step(&mut r, write_file(join_path(dir, "mac").as_str(), id.mac.as_str()));
    push_step(&mut r, create_dir(ci.as_str()));
    push_step(
        &mut r,
        copy_file(
            join_path(dir, "meta-data").as_str(),
            join_path(ci.as_str(), "meta-data").as_str(),
        ),
    );
    push_step(
        &mut r,
        copy_file(user_data.as_str(), join_path(ci.as_str(), "user-data").as_str()),
    );
    push_step(
        &mut r,
        write_file(
            join_path(ci.as_str(), "network-config").as_str(),
            network_config(id.mac.as_str(), id.subnet.as_str()).as_str(),
        ),
    );
    let mut a = no_args();
    push_arg(&mut a, "-output");
    push_arg(&mut a, join_path(dir, "ci.iso").as_str());
    push_arg(&mut a, "-volid");
    push_arg(&mut a, "cidata");
    push_arg(&mut a, "-joliet");
    push_arg(&mut a, "-rock");
    push_arg(&mut a, ci.as_str());
    push_step(&mut r, Step::RunQuiet(command("genisoimage", a)));
    assert(steps(r@) =~= second + seed_steps(vm_dir@, *id));
    push_step(&mut r, Step::SetupNetworking(id.tap_name.clone(), id.subnet.clone()));
    let script = join_path(dir, "start.sh");
    let text = start_script(
        dir,
        config.ch_bin.as_str(),
        config.fw_bin.as_str(),
        cpus.as_str(),
        resources.memory.as_str(),
        id.tap_name.as_str(),
        id.mac.as_str(),
    );
    push_step(&mut r, write_file(script.as_str(), text.as_str()));
    push_step(&mut r, crate::plan::make_executable(script.as_str()));
    assert(steps(r@) == provision_steps(*config, name@, *source, *resources, *id));
    proof {
        let records = record_steps(vm_dir@, *resources, *id);
        assert(records.len() == 5);
        assert(steps(r@)[2] == records[2]);
        assert(steps(r@)[3] == records[3]);
        assert(steps(r@)[4] == records[4]);
    }
    r
}

/// What an operation on a VM comes to before anything is done.
#[derive(Debug, Clone)]
pub enum Decision {
    /// Nothing is done; this is reported.
    Report(VmResult),
    /// These steps are carried out, in order.
    Proceed(Vec<Step>),
}

/// What is said when an operation on the VM `name` has done its work.
pub open spec fn done_text(verb: Seq<char>, name: Seq<char>) -> Seq<char> {
    "Successfully "@ + verb + " VM: "@ + name
}

/// What is said when an operation on the VM `name` has done its work: `verb`
/// is `created`, `started`, `stopped` or `deleted`.
pub fn done_message(verb: &str, name: &str) -> (r: VmResult)
    ensures
        r.success,
        r.message@ == done_text(verb@, name@),
{
    let mut m = String::from_str("Successfully ");
    m.append(verb);
    m.append(" VM: ");
    m.append(name);
    VmResult { success: true, message: m }
}

/// The steps that start a VM: run its start script, and give the hypervisor
/// half a second for its first log entries.
pub open spec fn start_steps(script: Seq<char>) -> Seq<StepView> {
    plan().push(StepView::Run(cmd("bash"@, args().push(script)))).push(StepView::Sleep(500))
}

/// What starting the VM `name` comes to. Without its directory the VM is not
/// found. A VM that runs already is not started again: that is a failure,
/// which in machine mode (`json`) is reported and otherwise returned. Without
/// its start script the VM cannot be started. Otherwise the script is run;
/// whether the VM then runs is for polling to find out.
pub fn start(
    config: &Config,
    name: &str,
    vm_exists: bool,
    running: bool,
    script_exists: bool,
    json: bool,
) -> (r: Result<Decision>)
    ensures
        !vm_exists ==> (r matches Err(Error::VmNotFound(n)) && n@ == name@),
        vm_exists && running && !json ==> (r matches Err(Error::VmAlreadyRunning(n)) && n@
            == name@),
        vm_exists && running && json ==> (r matches Ok(Decision::Report(v)) && !v.success
            && v.message@ == "VM "@ + name@ + " is already running"@),
        vm_exists && !running && !script_exists ==> (r matches Err(Error::Other(m)) && m@
            == "Start script not found for VM: "@ + name@),
        vm_exists && !running && script_exists ==> (r matches Ok(Decision::Proceed(v)) && steps(v@)
            == start_steps(path_under(path_under(config.vm_root@, name@), "start.sh"@))),
{
    if !vm_exists {
        return Err(Error::VmNotFound(String::from_str(name)));
    }
    if running {
        if json {
            return Ok(
                Decision::Report(
                    VmResult { success: false, message: wrap("VM ", name, " is already running") },
                ),
            );
        }
        return Err(Error::VmAlreadyRunning(String::from_str(name)));
    }
    if !script_exists {
        return Err(Error::Other(pair("Start script not found for VM: ", name)));
    }
    let script = join_path(config.vm_dir(name).as_str(), "start.sh");
    let mut a = no_args();
    push_arg(&mut a, script.as_str());
    let mut v = no_steps();
    push_step(&mut v, Step::Run(command("bash", a)));
    push_step(&mut v, Step::Sleep(500));
    Ok(Decision::Proceed(v))
}

/// The delays, in milliseconds, that an exponential backoff of the `backon`
/// crate gives without jitter: it starts at `min_ms`, stays within `max_ms`
/// from the second delay on, and gives `times` delays.
pub uninterp spec fn backoff_delays(min_ms: u64, max_ms: u64, times: usize) -> Seq<u64>;

/// The delays of the exponential backoff that `backon::ExponentialBuilder`
/// builds with the least delay `min_ms`, the greatest delay `max_ms` and
/// `times` retries, all else as it is by default. The backoff gives exactly
/// `times` delays; the first is the least delay, and the later ones are
/// capped at the greatest.
#[verifier::external_body]
fn exponential_delays(min_ms: u64, max_ms: u64, times: usize) -> (r: Vec<u64>)
    requires
        times <= 64,
    ensures
        r@ == backoff_delays(min_ms, max_ms, times),
        r.len() == times,
        times > 0 ==> r@[0] == min_ms,
        forall|i: int| 1 <= i < times ==> r@[i] <= max_ms,
{
    backon::ExponentialBuilder::default()
        .with_min_delay(std::time::Duration::from_millis(min_ms))
        .with_max_delay(std::time::Duration::from_millis(max_ms))
        .with_max_times(times)
        .build()
        .map(|d| d.as_millis() as u64)
        .collect()
}

/// What to do next while waiting for something.
#[derive(Debug, Clone, PartialEq, Eq)]
pub enum Poll {
    /// It has come about.
    Done,
    /// Wait for so many milliseconds, then look again.
    Wait(u64),
    /// It has not come about in time.
    GiveUp,
}

/// What to do after looking whether a started VM runs, with the delays
/// `delays` and `used` of them spent: a VM that runs is done; otherwise the
/// next delay is waited, and when none is left the wait is given up.
pub fn retry_action(delays: &Vec<u64>, used: usize, running: bool) -> (r: Poll)
    ensures
        r == (if running {
            Poll::Done
        } else if used < delays.len() {
            Poll::Wait(delays@[used as int])
        } else {
            Poll::GiveUp
        }),
{
    if running {
        Poll::Done
    } else if used < delays.len() {
        Poll::Wait(delays[used])
    } else {
        Poll::GiveUp
    }
}

/// The wait for a started VM to run: it is looked at up to twelve times,
/// once at first and again after each of up to eleven delays, which begin at
/// half a second and stay within five seconds. The twelfth look that does
/// not find the VM running gives the wait up.
pub struct StartPoll {
    delays: Vec<u64>,
    used: usize,
}

impl StartPoll {
    /// The delays of the wait.
    pub closed spec fn delays(&self) -> Seq<u64> {
        self.delays@
    }

    /// How many of the delays are spent.
    pub closed spec fn used(&self) -> nat {
        self.used as nat
    }

    /// A wait with none of its delays spent.
    pub fn new() -> (r: Self)
        ensures
            r.delays() == backoff_delays(500, 5000, 11),
            r.delays().len() == 11,
            r.delays()[0] == 500,
            forall|i: int| 1 <= i < 11 ==> r.delays()[i] <= 5000,
            r.used() == 0,
    {
        StartPoll { delays: exponential_delays(500, 5000, 11), used: 0 }
    }

    /// What to do after looking whether the VM runs. A VM that runs ends the
    /// wait. Otherwise the next delay is spent; after the last one the wait
    /// is given up.
    pub fn next(&mut self, running: bool) -> (r: Poll)
        ensures
            final(self).delays() == old(self).delays(),
            running ==> r == Poll::Done && final(self).used() == old(self).used(),
            !running && old(self).used() < old(self).delays().len() ==> r == Poll::Wait(
                old(self).delays()[old(self).used() as int],
            ) && final(self).used() == old(self).used() + 1,
            !running && old(self).used() >= old(self).delays().len() ==> r == Poll::GiveUp
                && final(self).used() == old(self).used(),
    {
        let r = retry_action(&self.delays, self.used, running);
        match r {
            Poll::Wait(_) => {
                self.used = self.used + 1;
            },
            _ => {},
        }
        r
    }
}

/// The first `n` of `all`.
pub open spec fn first_lines(all: Seq<Seq<char>>, n: int) -> Seq<Seq<char>> {
    all.subrange(0, n)
}

/// The last `n` of `all`.
pub open spec fn last_lines(all: Seq<Seq<char>>, n: int) -> Seq<Seq<char>> {
    all.subrange(all.len() - n, all.len() as int)
}

/// What is shown of a hypervisor log: a log of up to ten lines as it is, and
/// of a longer one the first five lines, the number of lines, and the last five.
pub open spec fn log_excerpt(log: Seq<char>) -> Seq<char> {
    let all = lines_of(log);
    if all.len() > 10 {
        "First 5 lines:\n"@ + crate::text::join_with(first_lines(all, 5), "\n"@)
            + "\n\n... ("@ + decimal(all.len()) + " total lines) ...\n\nLast 5 lines:\n"@
            + crate::text::join_with(last_lines(all, 5), "\n"@)
    } else {
        log
    }
}

/// The strings of the lines of `all` from position `from` up to `to`.
fn line_strings(all: &Vec<Vec<char>>, from: usize, to: usize) -> (r: Vec<String>)
    requires
        from <= to <= all.len(),
    ensures
        crate::util::strs(r@) == views_of(all@).subrange(from as int, to as int),
{
    let mut r = no_args();
    let mut i: usize = from;
    assert(views_of(all@).subrange(from as int, from as int) =~= args());
    while i < to
        invariant
            from <= i <= to <= all.len(),
            crate::util::strs(r@) == views_of(all@).subrange(from as int, i as int),
        decreases to - i,
    {
        push_arg(&mut r, from_chars(&all[i]).as_str());
        assert(views_of(all@).subrange(from as int, i + 1) =~= views_of(all@).subrange(
            from as int,
            i as int,
        ).push(all@[i as int]@));
        i += 1;
    }
    r
}

/// What is shown of the hypervisor log `log`.
pub fn summarize_log(log: &str) -> (r: String)
    ensures
        r@ == log_excerpt(log@),
{
    let all = lines(&to_chars(log));
    if all.len() > 10 {
        let head = line_strings(&all, 0, 5);
        let tail = line_strings(&all, all.len() - 5, all.len());
        assert(head.deep_view() =~= crate::util::strs(head@));
        assert(tail.deep_view() =~= crate::util::strs(tail@));
        let mut r = String::from_str("First 5 lines:\n");
        r.append(crate::text::join(&head, "\n").as_str());
        r.append("\n\n... (");
        r.append(to_decimal(all.len() as u64).as_str());
        r.append(" total lines) ...\n\nLast 5 lines:\n");
        r.append(crate::text::join(&tail, "\n").as_str());
        r
    } else {
        String::from_str(log)
    }
}

/// What the hypervisor's log has to say.
#[derive(Debug, Clone)]
pub enum Log {
    /// There is no log file.
    Missing,
    /// The log file cannot be read.
    Unreadable,
    /// The content of the log file.
    Content(String),
}

/// What is said of the log with a failed start.
pub open spec fn log_text(log: Log) -> Seq<char> {
    match log {
        Log::Missing => "Log file not found"@,
        Log::Unreadable => "Could not read log file"@,
        Log::Content(c) => log_excerpt(c@),
    }
}

/// The failure of a start that was given up: it names the VM and shows what
/// the hypervisor's log has to say.
pub fn start_failed(name: &str, log: &Log) -> (e: Error)
    ensures
        e matches Error::Other(m) && m@ == "Failed to start VM: "@ + name@
            + " after retries.\n\nCloud-Hypervisor Log:\n"@ + log_text(*log),
{
    let text = match log {
        Log::Missing => String::from_str("Log file not found"),
        Log::Unreadable => String::from_str("Could not read log file"),
        Log::Content(c) => summarize_log(c.as_str()),
    };
    let mut m = String::from_str("Failed to start VM: ");
    m.append(name);
    m.append(" after retries.\n\nCloud-Hypervisor Log:\n");
    m.append(text.as_str());
    Error::Other(m)
}

/// The steps that stop the VM `name`, kept in `vm_dir`: end its process, as
/// `stop_next` says, and then, whatever came of that, remove its pid file.
pub open spec fn halt_steps(name: Seq<char>, vm_dir: Seq<char>) -> Seq<StepView> {
    plan().push(StepView::Stop(name)).push(StepView::RemoveFile(path_under(vm_dir, "pid"@)))
}

/// Adds to `v` the steps that stop the VM `name`, kept in `vm_dir`.
pub fn push_halt(v: &mut Vec<Step>, name: &str, vm_dir: &str)
    ensures
        steps(final(v)@) == steps(old(v)@) + halt_steps(name@, vm_dir@),
{
    push_step(v, Step::Stop(String::from_str(name)));
    push_step(v, crate::plan::remove_file(join_path(vm_dir, "pid").as_str()));
    assert(steps(v@) =~= steps(old(v)@) + halt_steps(name@, vm_dir@));
}

/// What stopping the VM `name` comes to. Without its directory the VM is not
/// found. A VM that does not run is not stopped: that is a failure, which in
/// machine mode (`json`) is reported and otherwise returned. Otherwise the
/// VM's process is ended, as `stop_next` says, and its pid file is removed.
pub fn stop(config: &Config, name: &str, vm_exists: bool, running: bool, json: bool) -> (r: Result<
    Decision,
>)
    ensures
        !vm_exists ==> (r matches Err(Error::VmNotFound(n)) && n@ == name@),
        vm_exists && !running && !json ==> (r matches Err(Error::VmNotRunning(n)) && n@ == name@),
        vm_exists && !running && json ==> (r matches Ok(Decision::Report(v)) && !v.success
            && v.message@ == "VM "@ + name@ + " is not running"@),
        vm_exists && running ==> (r matches Ok(Decision::Proceed(v)) && steps(v@) == halt_steps(
            name@,
            path_under(config.vm_root@, name@),
        )),
{
    if !vm_exists {
        return Err(Error::VmNotFound(String::from_str(name)));
    }
    if !running {
        if json {
            return Ok(
                Decision::Report(
                    VmResult { success: false, message: wrap("VM ", name, " is not running") },
                ),
            );
        }
        return Err(Error::VmNotRunning(String::from_str(name)));
    }
    let mut v = no_steps();
    push_halt(&mut v, name, config.vm_dir(name).as_str());
    Ok(Decision::Proceed(v))
}

/// The command that sends the signal `signal` to the process `pid`.
pub open spec fn kill_command(signal: Seq<char>, pid: u32) -> CommandView {
    cmd("kill"@, args().push(signal).push(decimal(pid as nat)))
}

/// The command that sends the signal `signal` to the process `pid`.
pub fn signal_command(signal: &str, pid: u32) -> (c: Command)
    ensures
        c@ == kill_command(signal@, pid),
{
    let mut a = no_args();
    push_arg(&mut a, signal);
    push_arg(&mut a, to_decimal(pid as u64).as_str());
    command("kill", a)
}

/// The command that asks the process `pid` to end.
pub fn terminate_command(pid: u32) -> (c: Command)
    ensures
        c@ == kill_command("-TERM"@, pid),
{
    signal_command("-TERM", pid)
}

/// What to do next while a VM's process is ending.
#[derive(Debug, Clone)]
pub enum StopAction {
    /// The process is gone.
    Finish,
    /// Wait for so many milliseconds, then look again.
    Wait(u64),
    /// The process did not end in time: run this command, which ends it.
    Kill(Command),
}

/// What to do after looking whether the process `pid`, which was asked to
/// end, is still alive, with `waits` waits behind: a process that is gone is
/// finished with; a live one is waited for half a second, up to ten times,
/// and then killed.
pub fn stop_next(pid: u32, waits: u32, alive: bool) -> (r: StopAction)
    ensures
        !alive ==> r is Finish,
        alive && waits < 10 ==> (r matches StopAction::Wait(ms) && ms == 500),
        alive && waits >= 10 ==> (r matches StopAction::Kill(c) && c@ == kill_command(
            "-KILL"@,
            pid,
        )),
{
    if !alive {
        StopAction::Finish
    } else if waits < 10 {
        StopAction::Wait(500)
    } else {
        StopAction::Kill(signal_command("-KILL", pid))
    }
}

/// The steps that delete a VM: stop it if it runs; take down the host side
/// of its network; and, only then, remove its directory.
pub open spec fn delete_steps(config: Config, name: Seq<char>, running: bool) -> Seq<StepView> {
    (if running {
        halt_steps(name, path_under(config.vm_root@, name))
    } else {
        plan()
    }).push(StepView::CleanupNetworking(name)).push(
        StepView::RemoveDir(path_under(config.vm_root@, name)),
    )
}

/// What deleting the VM `name` takes. Without its directory the VM is not found.
pub fn delete(config: &Config, name: &str, vm_exists: bool, running: bool) -> (r: Result<
    Vec<Step>,
>)
    ensures
        match r {
            Ok(v) => vm_exists && steps(v@) == delete_steps(*config, name@, running),
            Err(e) => !vm_exists && (e matches Error::VmNotFound(n) && n@ == name@),
        },
{
    if !vm_exists {
        return Err(Error::VmNotFound(String::from_str(name)));
    }
    let mut v = no_steps();
    if running {
        push_halt(&mut v, name, config.vm_dir(name).as_str());
    }
    push_step(&mut v, Step::CleanupNetworking(String::from_str(name)));
    push_step(&mut v, Step::RemoveDir(config.vm_dir(name)));
    Ok(v)
}

/// What was found of a VM in its directory.
#[derive(Debug, Clone)]
pub struct VmEntry {
    /// The VM's name: that of its directory.
    pub name: String,
    /// Whether the VM runs.
    pub running: bool,
    /// The content of the subnet file.
    pub subnet: Option<String>,
    /// The content of the memory file.
    pub memory_file: Option<String>,
    /// The content of the start script.
    pub start_script: Option<String>,
    /// The content of the disk size file.
    pub disk_size_file: Option<String>,
    /// Whether the VM has a disk.
    pub rootfs_exists: bool,
    /// What the image tool answered in JSON when asked about the disk.
    pub disk_info: Option<String>,
    /// When the VM was created, as it is shown.
    pub created: String,
}

/// The text of `s`, where there is one.
pub open spec fn string_text(s: Option<String>) -> Option<Seq<char>> {
    match s {
        Some(t) => Some(t@),
        None => None,
    }
}

/// `info` is what is listed of the VM found as `e`: its state by whether it
/// runs, its address by its subnet, its memory and its disk size as they are
/// recorded or else as `config` has them.
pub open spec fn lists_vm(info: VmInfo, e: VmEntry, config: Config) -> bool {
    &&& info.name@ == e.name@
    &&& info.state@ == (if e.running {
        "running"@
    } else {
        "stopped"@
    })
    &&& info.ip@ == (match e.subnet {
        Some(s) => guest_ip(s@),
        None => "N/A"@,
    })
    &&& info.memory@ == memory_of(
        string_text(e.memory_file),
        string_text(e.start_script),
        config.mem@,
    )
    &&& info.disk@ == disk_size_of(
        string_text(e.disk_size_file),
        e.rootfs_exists,
        told_size(string_text(e.disk_info)),
        config.disk_size@,
    )
    &&& info.created@ == e.created@
}

/// The text of `s`, where there is one.
fn as_text(s: &Option<String>) -> (r: Option<&str>)
    ensures
        opt_text(r) == string_text(*s),
{
    match s {
        Some(t) => Some(t.as_str()),
        None => None,
    }
}

/// What is listed of the VMs found, one entry for each, in their order.
pub fn list(config: &Config, entries: &Vec<VmEntry>) -> (r: Vec<VmInfo>)
    ensures
        r.len() == entries.len(),
        forall|i: int| 0 <= i < r.len() ==> lists_vm(#[trigger] r@[i], entries@[i], *config),
{
    let mut r: Vec<VmInfo> = Vec::new();
    let mut i: usize = 0;
    while i < entries.len()
        invariant
            i <= entries.len(),
            r.len() == i,
            forall|j: int| 0 <= j < i ==> lists_vm(#[trigger] r@[j], entries@[j], *config),
        decreases entries.len() - i,
    {
        let e = &entries[i];
        let memory = get_vm_memory(
            as_text(&e.memory_file),
            as_text(&e.start_script),
            config.mem.as_str(),
        );
        let disk = get_vm_disk_size(
            as_text(&e.disk_size_file),
            e.rootfs_exists,
            as_text(&e.disk_info),
            config.disk_size.as_str(),
        );
        let info = vm_info(
            e.name.as_str(),
            e.running,
            as_text(&e.subnet),
            memory,
            disk,
            e.created.clone(),
        );
        r.push(info);
        i += 1;
    }
    r
}

/// What a VM's directory says of the VM.
#[derive(Debug, Clone)]
pub struct VmFiles {
    /// The content of the subnet file.
    pub subnet: Option<String>,
    /// The content of the MAC file.
    pub mac: Option<String>,
    /// The content of the TAP file.
    pub tapdev: Option<String>,
}

/// What is shown of one VM.
#[derive(Debug, Clone)]
pub struct VmDetailedInfo {
    /// The VM's name.
    pub name: String,
    /// `running` or `stopped`.
    pub state: String,
    /// The guest's address, where a subnet is recorded.
    pub ip: Option<String>,
    /// The VM's memory.
    pub memory: Option<String>,
    /// The VM's disk size.
    pub disk: Option<String>,
    /// More of the VM, by name.
    pub details: crate::strmap::StrMap,
}

/// The text of `s` without white space around it, where there is one.
pub open spec fn trimmed_opt(s: Option<String>) -> Option<Seq<char>> {
    match s {
        Some(t) => Some(trimmed(t@)),
        None => None,
    }
}

/// The details shown of a VM: the subnet, the MAC address and the TAP device
/// as far as they are recorded, then the memory, the disk size and the
/// VM's directory.
pub open spec fn details_of(
    files: VmFiles,
    memory: Seq<char>,
    disk: Seq<char>,
    vm_dir: Seq<char>,
) -> Seq<(Seq<char>, Seq<char>)> {
    let none = Seq::<(Seq<char>, Seq<char>)>::empty();
    let a = match files.subnet {
        Some(t) => crate::strmap::put(none, "subnet"@, trimmed(t@)),
        None => none,
    };
    let b = match files.mac {
        Some(t) => crate::strmap::put(a, "mac"@, trimmed(t@)),
        None => a,
    };
    let c = match files.tapdev {
        Some(t) => crate::strmap::put(b, "tap_device"@, trimmed(t@)),
        None => b,
    };
    crate::strmap::put(
        crate::strmap::put(crate::strmap::put(c, "memory"@, memory), "disk_size"@, disk),
        "vm_dir"@,
        vm_dir,
    )
}

/// `s` without white space around it.
fn trim_string(s: &String) -> (r: String)
    ensures
        r@ == trimmed(s@),
{
    from_chars(&trim(&to_chars(s.as_str())))
}

/// What is shown of the VM `name`. Without its directory the VM is not found.
pub fn get(
    config: &Config,
    name: &str,
    vm_exists: bool,
    running: bool,
    files: &VmFiles,
    memory: &str,
    disk: &str,
) -> (r: Result<VmDetailedInfo>)
    ensures
        match r {
            Ok(v) => {
                &&& vm_exists
                &&& v.name@ == name@
                &&& v.state@ == (if running {
                    "running"@
                } else {
                    "stopped"@
                })
                &&& match v.ip {
                    Some(ip) => files.subnet matches Some(s) && ip@ == guest_ip(s@),
                    None => files.subnet is None,
                }
                &&& (v.memory matches Some(m) && m@ == memory@)
                &&& (v.disk matches Some(d) && d@ == disk@)
                &&& v.details.pairs() == details_of(
                    *files,
                    memory@,
                    disk@,
                    path_under(config.vm_root@, name@),
                )
            },
            Err(e) => !vm_exists && (e matches Error::VmNotFound(n) && n@ == name@),
        },
{
    if !vm_exists {
        return Err(Error::VmNotFound(String::from_str(name)));
    }
    let ip = match &files.subnet {
        Some(s) => Some(pair(trim_string(s).as_str(), ".2")),
        None => None,
    };
    let mut details = crate::strmap::StrMap::new();
    match &files.subnet {
        Some(t) => {
            details.insert(String::from_str("subnet"), trim_string(t));
        },
        None => {},
    }
    match &files.mac {
        Some(t) => {
            details.insert(String::from_str("mac"), trim_string(t));
        },
        None => {},
    }
    match &files.tapdev {
        Some(t) => {
            details.insert(String::from_str("tap_device"), trim_string(t));
        },
        None => {},
    }
    details.insert(String::from_str("memory"), String::from_str(memory));
    details.insert(String::from_str("disk_size"), String::from_str(disk));
    details.insert(String::from_str("vm_dir"), config.vm_dir(name));
    Ok(
        VmDetailedInfo {
            name: String::from_str(name),
            state: String::from_str(
                if running {
                    "running"
                } else {
                    "stopped"
                },
            ),
            ip,
            memory: Some(String::from_str(memory)),
            disk: Some(String::from_str(disk)),
            details,
        },
    )
}

} // verus!
