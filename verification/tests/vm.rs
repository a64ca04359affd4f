use meda::config::{Config, Environment};
use meda::error::Error;
use meda::plan::Step;
use meda::util::Outcome;
use meda::vm::{
    bootstrap, bootstrap_binaries_only, check_vm_running, create, default_user_data, delete,
    disk_size_from, done_message, get, get_vm_disk_size, get_vm_ip, get_vm_memory, is_oras_entry, meta_data,
    network_config, provision, recorded_pid, retry_action, start, start_failed, start_script,
    stop, stop_next, summarize_log, terminate_command, vm_info, Assets, Decision, Identity, Log,
    Poll, StartPoll, StopAction, UserData, VmEntry, VmFiles, VmResources,
};
use meda::vm::list;

fn setup_test_config() -> Config {
    Config::new(&Environment {
        home: Some("/home/user".to_string()),
        asset_dir: Some("/t/assets".to_string()),
        vm_dir: Some("/t/vms".to_string()),
        cpus: None,
        mem: None,
        disk_size: None,
        oras_concurrency: None,
        oras_push_concurrency: None,
        oras_pull_concurrency: None,
    })
    .unwrap()
}

fn show(step: &Step) -> String {
    match step {
        Step::Bootstrap { full } => format!("bootstrap full={}", full),
        Step::CreateDir(p) => format!("mkdir {}", p),
        Step::CopyFile(a, b) => format!("copy {} {}", a, b),
        Step::WriteFile(p, t) => format!("write {} [{}]", p, t),
        Step::RemoveFile(p) => format!("rm {}", p),
        Step::RemoveDir(p) => format!("rmdir {}", p),
        Step::MakeExecutable(p) => format!("chmod {}", p),
        Step::Run(c) => format!("run {} {}", c.program, c.args.join(" ")),
        Step::RunQuiet(c) => format!("quiet {} {}", c.program, c.args.join(" ")),
        Step::SetupNetworking(t, s) => format!("network {} {}", t, s),
        Step::CleanupNetworking(n) => format!("unnetwork {}", n),
        Step::Stop(n) => format!("stop {}", n),
        Step::Start(n) => format!("start {}", n),
        Step::Sleep(ms) => format!("sleep {}", ms),
        Step::Download(u, d) => format!("download {} {}", u, d),
        Step::Extract {
            archive,
            entry,
            dest,
        } => format!("extract {} {} {}", archive, entry, dest),
        Step::EnsureDependency(p, k) => format!("ensure {} {}", p, k),
        Step::Symlink(a, b) => format!("link {} {}", a, b),
    }
}

fn shown(steps: &[Step]) -> Vec<String> {
    steps.iter().map(show).collect()
}

fn resources(config: &Config) -> VmResources {
    VmResources::from_config_with_overrides(config, None, None, None)
}

fn identity() -> Identity {
    Identity {
        subnet: "192.168.50".to_string(),
        tap_name: "tap-0a1b2c3d".to_string(),
        mac: "52:54:00:01:02:03".to_string(),
    }
}

#[test]
fn test_check_vm_running_no_pid_file() {
    let result = check_vm_running(None, None);
    assert!(!result);
}

#[test]
fn test_check_vm_running_invalid_pid() {
    // A pid file with invalid content; no process can be probed for
    let result = check_vm_running(Some("invalid_pid"), None);
    assert!(!result);
    assert!(!check_vm_running(Some("invalid_pid"), Some(&Outcome::Succeeded)));
}

#[test]
fn test_check_vm_running_nonexistent_pid() {
    // A pid file with the id of a process that is gone: the probe fails
    assert_eq!(recorded_pid(Some("999999")), Some(999999));
    let result = check_vm_running(Some("999999"), Some(&Outcome::Failed(Some(1))));
    assert!(!result);
}

#[test]
fn test_get_vm_ip() {
    let ip = get_vm_ip(Some("192.168.100")).unwrap();
    assert_eq!(ip, "192.168.100.2");
}

#[test]
fn test_get_vm_ip_missing_subnet() {
    let result = get_vm_ip(None);
    assert!(result.is_err());
}

#[test]
fn test_get_vm_memory_no_start_script() {
    let config = setup_test_config();

    // A VM directory without memory file and without start script
    let memory = get_vm_memory(None, None, &config.mem);
    assert_eq!(memory, config.mem);
}

#[test]
fn test_get_vm_memory_with_start_script() {
    let config = setup_test_config();

    // A start script containing a memory setting
    let start_script = format!(
        "#!/bin/bash\n{} --memory size=2048M --cpus boot=4",
        config.ch_bin
    );

    let memory = get_vm_memory(None, Some(&start_script), &config.mem);
    assert_eq!(memory, "2048M");
}

#[test]
fn test_get_vm_disk_size_no_rootfs() {
    let config = setup_test_config();

    // A VM directory without rootfs file
    let disk_size = get_vm_disk_size(None, false, None, &config.disk_size);
    assert_eq!(disk_size, config.disk_size);
}

#[test]
fn test_list_empty_vm_dir() {
    let config = setup_test_config();

    // Nothing is listed where no VM directory is found
    let result = list(&config, &Vec::new());
    assert!(result.is_empty());
}

#[test]
fn list_shows_each_vm_with_fallbacks() {
    let config = setup_test_config();
    let entries = vec![
        VmEntry {
            name: "a".to_string(),
            running: false,
            subnet: Some("192.168.33\n".to_string()),
            memory_file: Some("1024M".to_string()),
            start_script: None,
            disk_size_file: None,
            rootfs_exists: true,
            disk_info: Some("{\"virtual-size\": 10737418240}".to_string()),
            created: "2024-05-01 10:00:00".to_string(),
        },
        VmEntry {
            name: "old".to_string(),
            running: true,
            subnet: None,
            memory_file: None,
            start_script: Some("ch --memory size=512M --cpus boot=1\n".to_string()),
            disk_size_file: Some("20G\n".to_string()),
            rootfs_exists: false,
            disk_info: None,
            created: "unknown".to_string(),
        },
    ];
    let listed = list(&config, &entries);
    assert_eq!(listed.len(), 2);
    assert_eq!(listed[0].name, "a");
    assert_eq!(listed[0].state, "stopped");
    assert_eq!(listed[0].ip, "192.168.33.2");
    assert_eq!(listed[0].memory, "1024M");
    assert_eq!(listed[0].disk, "10G");
    assert_eq!(listed[0].created, "2024-05-01 10:00:00");
    assert_eq!(listed[1].name, "old");
    assert_eq!(listed[1].state, "running");
    assert_eq!(listed[1].ip, "N/A");
    assert_eq!(listed[1].memory, "512M");
    assert_eq!(listed[1].disk, "20G");
}

#[test]
fn test_get_nonexistent_vm() {
    let config = setup_test_config();
    let files = VmFiles {
        subnet: None,
        mac: None,
        tapdev: None,
    };

    let result = get(&config, "nonexistent-vm", false, false, &files, "1024M", "10G");
    assert!(result.is_err());
    assert!(matches!(result.unwrap_err(), Error::VmNotFound(_)));
}

#[test]
fn test_start_nonexistent_vm() {
    let config = setup_test_config();

    let result = start(&config, "nonexistent-vm", false, false, false, true);
    assert!(result.is_err());
    assert!(matches!(result.unwrap_err(), Error::VmNotFound(_)));
}

#[test]
fn test_stop_nonexistent_vm() {
    let config = setup_test_config();

    let result = stop(&config, "nonexistent-vm", false, false, true);
    assert!(result.is_err());
    assert!(matches!(result.unwrap_err(), Error::VmNotFound(_)));
}

#[test]
fn test_delete_nonexistent_vm() {
    let config = setup_test_config();

    let result = delete(&config, "nonexistent-vm", false, false);
    assert!(result.is_err());
    assert!(matches!(result.unwrap_err(), Error::VmNotFound(_)));
}

#[test]
fn resources_take_overrides_before_the_configuration() {
    let config = setup_test_config();
    let plain = resources(&config);
    assert_eq!(plain.memory, "1024M");
    assert_eq!(plain.cpus, 2);
    assert_eq!(plain.disk_size, "10G");
    let custom = VmResources::from_config_with_overrides(&config, Some("2G"), Some(8), Some("40G"));
    assert_eq!(custom.memory, "2G");
    assert_eq!(custom.cpus, 8);
    assert_eq!(custom.disk_size, "40G");
    let mut many = setup_test_config();
    many.cpus = 260;
    assert_eq!(resources(&many).cpus, 4);
}

#[test]
fn guest_ip_is_the_second_address_of_the_subnet() {
    assert_eq!(get_vm_ip(Some("192.168.16\n")).unwrap(), "192.168.16.2");
    assert_eq!(get_vm_ip(Some("  10.1.2 ")).unwrap(), "10.1.2.2");
    match get_vm_ip(None) {
        Err(Error::Other(m)) => assert_eq!(m, "Subnet file not found"),
        _ => panic!("no subnet, no address"),
    }
}

#[test]
fn recorded_pid_reads_a_number() {
    assert_eq!(recorded_pid(Some("1234\n")), Some(1234));
    assert_eq!(recorded_pid(Some(" 0 ")), Some(0));
    assert_eq!(recorded_pid(Some("4294967295")), Some(4294967295));
    assert_eq!(recorded_pid(Some("4294967296")), None);
    assert_eq!(recorded_pid(Some("")), None);
    assert_eq!(recorded_pid(Some("12 34")), None);
    assert_eq!(recorded_pid(Some("-5")), None);
    assert_eq!(recorded_pid(None), None);
}

#[test]
fn a_vm_runs_if_its_process_is_alive() {
    assert!(check_vm_running(Some("1234\n"), Some(&Outcome::Succeeded)));
    assert!(!check_vm_running(Some("1234"), Some(&Outcome::Failed(Some(1)))));
    assert!(!check_vm_running(Some("1234"), Some(&Outcome::NotStarted("x".to_string()))));
    assert!(!check_vm_running(Some("1234"), None));
    assert!(!check_vm_running(None, Some(&Outcome::Succeeded)));
}

#[test]
fn memory_comes_from_the_file_then_the_script_then_the_configuration() {
    assert_eq!(get_vm_memory(Some("512M\n"), Some("x --memory size=2G y"), "1024M"), "512M");
    assert_eq!(get_vm_memory(None, Some("a\nb --memory size=2G\nc --memory size=4G d"), "1024M"), "2G");
    assert_eq!(get_vm_memory(None, Some("x --memory size=3G  \r\n"), "1024M"), "3G");
    assert_eq!(get_vm_memory(None, Some("x --memory size= y"), "1024M"), "");
    assert_eq!(get_vm_memory(None, Some("#!/bin/bash\necho hi\n"), "1024M"), "1024M");
    assert_eq!(get_vm_memory(None, Some(""), "1024M"), "1024M");
}

#[test]
fn disk_size_is_shown_in_whole_gibibytes() {
    assert_eq!(disk_size_from(None, true, Some(10 * 1024 * 1024 * 1024), "10G"), "10G");
    assert_eq!(disk_size_from(None, true, Some(21474836480), "10G"), "20G");
    assert_eq!(disk_size_from(None, true, Some(1073741823), "10G"), "0G");
    assert_eq!(disk_size_from(None, true, Some(u64::MAX), "10G"), "17179869183G");
    assert_eq!(disk_size_from(None, true, None, "10G"), "10G");
    assert_eq!(disk_size_from(None, false, Some(21474836480), "10G"), "10G");
    // what the disk size file records comes first
    assert_eq!(disk_size_from(Some("40G\n"), true, Some(21474836480), "10G"), "40G");
    assert_eq!(disk_size_from(Some(" 5120M "), false, None, "10G"), "5120M");
}

#[test]
fn disk_size_is_read_from_what_the_image_tool_answers() {
    let info = "{\n    \"virtual-size\": 21474836480,\n    \"filename\": \"rootfs.raw\",\n    \"format\": \"raw\",\n    \"actual-size\": 1862270976\n}\n";
    assert_eq!(get_vm_disk_size(None, true, Some(info), "10G"), "20G");
    assert_eq!(get_vm_disk_size(None, false, Some(info), "10G"), "10G");
    assert_eq!(get_vm_disk_size(Some("7G"), true, Some(info), "10G"), "7G");
    assert_eq!(get_vm_disk_size(None, true, Some("{\"virtual-size\": \"big\"}"), "10G"), "10G");
    assert_eq!(get_vm_disk_size(None, true, Some("{\"virtual-size\": -5}"), "10G"), "10G");
    assert_eq!(get_vm_disk_size(None, true, Some("{\"size\": 21474836480}"), "10G"), "10G");
    assert_eq!(get_vm_disk_size(None, true, Some("21474836480"), "10G"), "10G");
    assert_eq!(get_vm_disk_size(None, true, Some("not json"), "10G"), "10G");
    assert_eq!(get_vm_disk_size(None, true, None, "10G"), "10G");
}

#[test]
fn a_created_vm_is_listed_as_stopped() {
    let config = setup_test_config();
    let id = identity();
    let memory = get_vm_memory(Some(&resources(&config).memory), None, &config.mem);
    let disk = get_vm_disk_size(Some(&resources(&config).disk_size), true, None, &config.disk_size);
    let info = vm_info("a", false, Some(&id.subnet), memory, disk, "2024-01-01".to_string());
    assert_eq!(info.name, "a");
    assert_eq!(info.state, "stopped");
    assert_eq!(info.ip, format!("{}.2", id.subnet));
    assert_eq!(info.memory, "1024M");
    assert_eq!(info.disk, "10G");
    assert_eq!(info.created, "2024-01-01");
    assert_eq!(vm_info("a", true, None, "m".to_string(), "d".to_string(), "c".to_string()).state, "running");
}

#[test]
fn seed_texts_are_as_cloud_init_wants_them() {
    assert_eq!(meta_data("web"), "instance-id: web\nlocal-hostname: web\n");
    assert_eq!(
        default_user_data("$6$salt$hash"),
        "#cloud-config\nusers:\n  - name: meda\n    sudo: ALL=(ALL) NOPASSWD:ALL\n    passwd: $6$salt$hash\n    lock_passwd: false\n    inactive: false\n    groups: sudo\n    shell: /bin/bash\nssh_pwauth: true\n"
    );
    assert_eq!(
        network_config("52:54:00:01:02:03", "192.168.50"),
        "version: 2\nethernets:\n  ens4:\n    match:\n       macaddress: 52:54:00:01:02:03\n    addresses: [192.168.50.2/24]\n    gateway4: 192.168.50.1\n    set-name: ens4\n    nameservers:\n      addresses: [8.8.8.8, 1.1.1.1]\n"
    );
}

#[test]
fn start_script_starts_the_hypervisor_and_records_its_pid() {
    let script = start_script("/t/vms/a", "/t/assets/cloud-hypervisor", "/t/assets/hypervisor-fw", "2", "1024M", "tap-1", "52:54:00:01:02:03");
    let expected = "#!/bin/bash\ncd \"/t/vms/a\"\n/t/assets/cloud-hypervisor \\\n  --api-socket path=/t/vms/a/api.sock \\\n  --console off \\\n  --serial tty \\\n  --kernel \"/t/assets/hypervisor-fw\" \\\n  --cpus boot=2 \\\n  --memory size=1024M \\\n  --disk path=/t/vms/a/rootfs.raw path=\"/t/vms/a/ci.iso\" \\\n  --net tap=tap-1,mac=52:54:00:01:02:03 \\\n  --rng src=/dev/urandom \\\n  > \"/t/vms/a/ch.log\" 2>&1 &\necho $! > \"/t/vms/a/pid\"\n\n# Check if command started successfully\nsleep 2\nif ! ps -p $(cat \"/t/vms/a/pid\" 2>/dev/null) &>/dev/null; then\n  echo \"ERROR: Cloud Hypervisor failed to start. Check log: /t/vms/a/ch.log\" >&2\n  exit 1\nfi\n";
    assert_eq!(script, expected);
    // the memory that the script sets is read back from it
    assert_eq!(get_vm_memory(None, Some(&script), "x"), "1024M");
}

#[test]
fn bootstrap_fetches_what_is_missing() {
    let config = setup_test_config();
    let nothing = Assets {
        base_raw: false,
        firmware: false,
        hypervisor: false,
        ch_remote: false,
        oras: false,
    };
    let steps = shown(&bootstrap(&config, &nothing));
    assert_eq!(
        steps,
        vec![
            "mkdir /home/user/.meda".to_string(),
            "mkdir /t/assets".to_string(),
            "mkdir /t/vms".to_string(),
            format!("download {} /t/assets/img.qcow2", config.os_url),
            "ensure qemu-img qemu-utils".to_string(),
            "run qemu-img convert -f qcow2 -O raw /t/assets/img.qcow2 /t/assets/ubuntu-base.raw".to_string(),
            "run qemu-img resize /t/assets/ubuntu-base.raw 10G".to_string(),
            "rm /t/assets/img.qcow2".to_string(),
            format!("download {} /t/assets/hypervisor-fw", config.fw_url),
            "chmod /t/assets/hypervisor-fw".to_string(),
            format!("download {} /t/assets/cloud-hypervisor", config.ch_url),
            "chmod /t/assets/cloud-hypervisor".to_string(),
            format!("download {} /t/assets/ch-remote", config.cr_url),
            "chmod /t/assets/ch-remote".to_string(),
            format!("download {} /t/assets/oras.tar.gz", config.oras_url),
            "extract /t/assets/oras.tar.gz oras /t/assets/oras".to_string(),
            "rm /t/assets/oras.tar.gz".to_string(),
            "ensure genisoimage genisoimage".to_string(),
        ]
    );
    let binaries = shown(&bootstrap_binaries_only(&config, &nothing));
    assert_eq!(binaries.len(), 13);
    assert!(!binaries.iter().any(|s| s.contains("img.qcow2")));
}

#[test]
fn bootstrap_leaves_what_is_there() {
    let config = setup_test_config();
    let all = Assets {
        base_raw: true,
        firmware: true,
        hypervisor: true,
        ch_remote: true,
        oras: true,
    };
    let expected = vec![
        "mkdir /home/user/.meda",
        "mkdir /t/assets",
        "mkdir /t/vms",
        "ensure genisoimage genisoimage",
    ];
    assert_eq!(shown(&bootstrap(&config, &all)), expected);
    assert_eq!(shown(&bootstrap_binaries_only(&config, &all)), expected);
    // doing it again asks for the same
    assert_eq!(shown(&bootstrap(&config, &all)), shown(&bootstrap(&config, &all)));
}

#[test]
fn the_registry_client_is_the_entry_named_oras() {
    assert!(is_oras_entry("oras"));
    assert!(is_oras_entry("bin/oras"));
    assert!(is_oras_entry("./oras"));
    assert!(!is_oras_entry("LICENSE"));
    assert!(!is_oras_entry("oras.txt"));
    assert!(!is_oras_entry("oras/README"));
    assert!(!is_oras_entry(""));
}

#[test]
fn create_refuses_a_name_that_is_taken() {
    let config = setup_test_config();
    match create(&config, "a", &resources(&config), true) {
        Err(Error::VmAlreadyExists(n)) => assert_eq!(n, "a"),
        _ => panic!("the VM is there already"),
    }
}

#[test]
fn create_copies_the_base_disk_and_resizes_it_if_asked() {
    let config = setup_test_config();
    let plain = create(&config, "a", &resources(&config), false).unwrap();
    assert_eq!(
        shown(&plain),
        vec![
            "bootstrap full=true",
            "mkdir /t/vms/a",
            "copy /t/assets/ubuntu-base.raw /t/vms/a/rootfs.raw",
        ]
    );
    let bigger = VmResources::from_config_with_overrides(&config, None, None, Some("20G"));
    let resized = create(&config, "a", &bigger, false).unwrap();
    assert_eq!(resized.len(), 4);
    assert_eq!(show(&resized[3]), "run qemu-img resize /t/vms/a/rootfs.raw 20G");
}

#[test]
fn provision_records_the_requested_resources() {
    let config = setup_test_config();
    let wanted = VmResources::from_config_with_overrides(&config, Some("2048M"), Some(4), Some("20G"));
    let steps = shown(&provision(
        &config,
        "a",
        &UserData::Default("HASH".to_string()),
        &wanted,
        &identity(),
    ));
    assert!(steps.contains(&"write /t/vms/a/memory [2048M]".to_string()));
    assert!(steps.contains(&"write /t/vms/a/cpus [4]".to_string()));
    assert!(steps.contains(&"write /t/vms/a/disk_size [20G]".to_string()));
}

#[test]
fn provision_sets_up_the_network_before_the_start_script() {
    let config = setup_test_config();
    let steps = provision(
        &config,
        "a",
        &UserData::File("/home/user/ud.yaml".to_string()),
        &resources(&config),
        &identity(),
    );
    let names: Vec<String> = steps
        .iter()
        .map(|s| match s {
            Step::WriteFile(p, _) => format!("write {}", p),
            other => show(other),
        })
        .collect();
    assert_eq!(
        names,
        vec![
            "write /t/vms/a/subnet",
            "write /t/vms/a/tapdev",
            "write /t/vms/a/memory",
            "write /t/vms/a/cpus",
            "write /t/vms/a/disk_size",
            "write /t/vms/a/meta-data",
            "copy /home/user/ud.yaml /t/vms/a/user-data",
            "write /t/vms/a/mac",
            "mkdir /t/vms/a/ci",
            "copy /t/vms/a/meta-data /t/vms/a/ci/meta-data",
            "copy /t/vms/a/user-data /t/vms/a/ci/user-data",
            "write /t/vms/a/ci/network-config",
            "quiet genisoimage -output /t/vms/a/ci.iso -volid cidata -joliet -rock /t/vms/a/ci",
            "network tap-0a1b2c3d 192.168.50",
            "write /t/vms/a/start.sh",
            "chmod /t/vms/a/start.sh",
        ]
    );
    match &steps[0] {
        Step::WriteFile(_, t) => assert_eq!(t, "192.168.50"),
        _ => panic!("the subnet is recorded first"),
    }
    match &steps[5] {
        Step::WriteFile(_, t) => assert_eq!(t, "instance-id: a\nlocal-hostname: a\n"),
        _ => panic!("the meta-data is written"),
    }
    match &steps[11] {
        Step::WriteFile(_, t) => assert_eq!(t, &network_config("52:54:00:01:02:03", "192.168.50")),
        _ => panic!("the network configuration is written"),
    }
    match &steps[14] {
        Step::WriteFile(_, t) => assert_eq!(
            t,
            &start_script("/t/vms/a", &config.ch_bin, &config.fw_bin, "2", "1024M", "tap-0a1b2c3d", "52:54:00:01:02:03")
        ),
        _ => panic!("the start script is written"),
    }
}

#[test]
fn provision_writes_the_user_data_it_is_told() {
    let config = setup_test_config();
    let default = provision(&config, "a", &UserData::Default("H".to_string()), &resources(&config), &identity());
    match &default[6] {
        Step::WriteFile(p, t) => {
            assert_eq!(p, "/t/vms/a/user-data");
            assert_eq!(t, &default_user_data("H"));
        }
        _ => panic!("the default user-data is written"),
    }
    let kept = provision(&config, "a", &UserData::Kept, &resources(&config), &identity());
    assert_eq!(kept.len(), default.len() - 1);
    assert_eq!(show(&kept[6]), "write /t/vms/a/mac [52:54:00:01:02:03]");
}

#[test]
fn start_decides_before_it_runs_anything() {
    let config = setup_test_config();
    match start(&config, "a", true, true, true, false) {
        Err(Error::VmAlreadyRunning(n)) => assert_eq!(n, "a"),
        _ => panic!("the VM runs already"),
    }
    match start(&config, "a", true, true, true, true) {
        Ok(Decision::Report(r)) => {
            assert!(!r.success);
            assert_eq!(r.message, "VM a is already running");
        }
        _ => panic!("in machine mode the failure is reported"),
    }
    match start(&config, "a", true, false, false, true) {
        Err(Error::Other(m)) => assert_eq!(m, "Start script not found for VM: a"),
        _ => panic!("the start script is missing"),
    }
    match start(&config, "a", true, false, true, false) {
        Ok(Decision::Proceed(steps)) => {
            assert_eq!(shown(&steps), vec!["run bash /t/vms/a/start.sh", "sleep 500"])
        }
        _ => panic!("the VM can be started"),
    }
}

#[test]
fn start_poll_backs_off_from_half_a_second_to_five() {
    let mut poll = StartPoll::new();
    let mut waits = Vec::new();
    loop {
        match poll.next(false) {
            Poll::Wait(ms) => waits.push(ms),
            Poll::GiveUp => break,
            Poll::Done => panic!("the VM does not run"),
        }
    }
    // eleven waits lie between the twelve looks; the twelfth failed look gives up
    assert_eq!(
        waits,
        vec![500, 1000, 2000, 4000, 5000, 5000, 5000, 5000, 5000, 5000, 5000]
    );
    assert_eq!(poll.next(false), Poll::GiveUp);
}

#[test]
fn start_poll_ends_when_the_vm_runs() {
    let mut poll = StartPoll::new();
    assert_eq!(poll.next(false), Poll::Wait(500));
    assert_eq!(poll.next(false), Poll::Wait(1000));
    assert_eq!(poll.next(true), Poll::Done);
    assert_eq!(poll.next(false), Poll::Wait(2000));
    assert_eq!(StartPoll::new().next(true), Poll::Done);
}

#[test]
fn retry_action_follows_the_delays() {
    let delays = vec![7, 8, 9];
    assert_eq!(retry_action(&delays, 0, false), Poll::Wait(7));
    assert_eq!(retry_action(&delays, 2, false), Poll::Wait(9));
    assert_eq!(retry_action(&delays, 3, false), Poll::GiveUp);
    assert_eq!(retry_action(&delays, 100, false), Poll::GiveUp);
    assert_eq!(retry_action(&delays, 3, true), Poll::Done);
    assert_eq!(retry_action(&Vec::new(), 0, false), Poll::GiveUp);
}

#[test]
fn a_short_log_is_shown_whole() {
    assert_eq!(summarize_log(""), "");
    assert_eq!(summarize_log("one\ntwo\n"), "one\ntwo\n");
    let ten = "1\n2\n3\n4\n5\n6\n7\n8\n9\n10\n";
    assert_eq!(summarize_log(ten), ten);
}

#[test]
fn a_long_log_is_shown_by_its_ends() {
    let eleven = "1\n2\n3\n4\n5\n6\n7\n8\n9\n10\n11";
    assert_eq!(
        summarize_log(eleven),
        "First 5 lines:\n1\n2\n3\n4\n5\n\n... (11 total lines) ...\n\nLast 5 lines:\n7\n8\n9\n10\n11"
    );
    let crlf = "a\r\nb\r\nc\r\nd\r\ne\r\nf\r\ng\r\nh\r\ni\r\nj\r\nk\r\nl\r\n";
    assert_eq!(
        summarize_log(crlf),
        "First 5 lines:\na\nb\nc\nd\ne\n\n... (12 total lines) ...\n\nLast 5 lines:\nh\ni\nj\nk\nl"
    );
}

#[test]
fn a_failed_start_shows_the_log() {
    assert_eq!(
        start_failed("a", &Log::Missing).message(),
        "Failed to start VM: a after retries.\n\nCloud-Hypervisor Log:\nLog file not found"
    );
    assert_eq!(
        start_failed("a", &Log::Unreadable).message(),
        "Failed to start VM: a after retries.\n\nCloud-Hypervisor Log:\nCould not read log file"
    );
    assert_eq!(
        start_failed("a", &Log::Content("boom\n".to_string())).message(),
        "Failed to start VM: a after retries.\n\nCloud-Hypervisor Log:\nboom\n"
    );
    assert!(matches!(start_failed("a", &Log::Missing), Error::Other(_)));
}

#[test]
fn stop_decides_before_it_does_anything() {
    let config = setup_test_config();
    match stop(&config, "a", true, false, false) {
        Err(Error::VmNotRunning(n)) => assert_eq!(n, "a"),
        _ => panic!("the VM does not run"),
    }
    match stop(&config, "a", true, false, true) {
        Ok(Decision::Report(r)) => {
            assert!(!r.success);
            assert_eq!(r.message, "VM a is not running");
        }
        _ => panic!("in machine mode the failure is reported"),
    }
    match stop(&config, "a", true, true, false) {
        // the process is ended, and then the pid file is removed
        Ok(Decision::Proceed(steps)) => {
            assert_eq!(shown(&steps), vec!["stop a", "rm /t/vms/a/pid"])
        }
        _ => panic!("the VM can be stopped"),
    }
}

#[test]
fn stopping_waits_up_to_five_seconds_before_it_kills() {
    let term = terminate_command(77);
    assert_eq!(term.program, "kill");
    assert_eq!(term.args, vec!["-TERM", "77"]);
    for waits in 0..10 {
        match stop_next(77, waits, true) {
            StopAction::Wait(ms) => assert_eq!(ms, 500),
            _ => panic!("a live process is waited for"),
        }
    }
    match stop_next(77, 10, true) {
        StopAction::Kill(c) => {
            assert_eq!(c.program, "kill");
            assert_eq!(c.args, vec!["-KILL", "77"]);
        }
        _ => panic!("after ten waits the process is killed"),
    }
    assert!(matches!(stop_next(77, 0, false), StopAction::Finish));
    assert!(matches!(stop_next(77, 10, false), StopAction::Finish));
}

#[test]
fn delete_releases_the_network_before_the_disk() {
    let config = setup_test_config();
    assert_eq!(
        shown(&delete(&config, "a", true, false).unwrap()),
        vec!["unnetwork a", "rmdir /t/vms/a"]
    );
    assert_eq!(
        shown(&delete(&config, "a", true, true).unwrap()),
        vec!["stop a", "rm /t/vms/a/pid", "unnetwork a", "rmdir /t/vms/a"]
    );
}

#[test]
fn get_shows_what_the_directory_records() {
    let config = setup_test_config();
    let files = VmFiles {
        subnet: Some("192.168.50\n".to_string()),
        mac: Some("52:54:00:01:02:03\n".to_string()),
        tapdev: Some("tap-1\n".to_string()),
    };
    let info = get(&config, "a", true, true, &files, "1024M", "10G").unwrap();
    assert_eq!(info.name, "a");
    assert_eq!(info.state, "running");
    assert_eq!(info.ip, Some("192.168.50.2".to_string()));
    assert_eq!(info.memory, Some("1024M".to_string()));
    assert_eq!(info.disk, Some("10G".to_string()));
    let keys: Vec<&str> = (0..info.details.len())
        .map(|i| info.details.key_at(i).as_str())
        .collect();
    assert_eq!(
        keys,
        vec!["subnet", "mac", "tap_device", "memory", "disk_size", "vm_dir"]
    );
    assert_eq!(info.details.get("subnet").unwrap(), "192.168.50");
    assert_eq!(info.details.get("mac").unwrap(), "52:54:00:01:02:03");
    assert_eq!(info.details.get("tap_device").unwrap(), "tap-1");
    assert_eq!(info.details.get("vm_dir").unwrap(), "/t/vms/a");
    let bare = VmFiles {
        subnet: None,
        mac: None,
        tapdev: None,
    };
    let little = get(&config, "a", true, false, &bare, "1024M", "10G").unwrap();
    assert_eq!(little.state, "stopped");
    assert_eq!(little.ip, None);
    assert_eq!(little.details.len(), 3);
    assert!(little.details.get("subnet").is_none());
}

#[test]
fn done_messages_name_the_vm() {
    assert_eq!(done_message("created", "a").message, "Successfully created VM: a");
    assert_eq!(done_message("deleted", "b").message, "Successfully deleted VM: b");
    assert!(done_message("started", "a").success);
}
