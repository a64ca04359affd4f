use meda::error::Error;
use meda::util::{
    check_dependency, check_process_running, dependency_probe, download_progress,
    download_status, ensure_dependency, install_dependency, process_probe, run_command, Command,
    Outcome, Progress,
};

fn command(program: &str, args: &[&str]) -> Command {
    Command {
        program: program.to_string(),
        args: args.iter().map(|s| s.to_string()).collect(),
    }
}

#[test]
fn test_run_command_success() {
    // `echo hello` runs and succeeds
    let result = run_command(&command("echo", &["hello"]), &Outcome::Succeeded);
    assert!(result.is_ok());
}

#[test]
fn test_run_command_failure() {
    // `false` runs and fails with the exit code 1
    let result = run_command(&command("false", &[]), &Outcome::Failed(Some(1)));
    assert!(result.is_err());
}

#[test]
fn test_check_dependency_exists() {
    let result = check_dependency("echo", true);
    assert!(result.is_ok());
}

#[test]
fn test_check_dependency_missing() {
    let result = check_dependency("nonexistent-command-12345", false);
    assert!(result.is_err());
}

#[test]
fn test_check_process_running() {
    // the probe for a live process succeeds; that for a dead one fails
    assert!(check_process_running(&Outcome::Succeeded));

    assert!(!check_process_running(&Outcome::Failed(Some(1))));
}

#[test]
fn test_download_file_success() {
    // The server answers the request with a success
    let result = download_status("https://httpbin.org/json", true, "200 OK");
    assert!(result.is_ok());
}

#[test]
fn test_download_file_failure() {
    // The server answers the request with "not found"
    let result = download_status("https://httpbin.org/status/404", false, "404 Not Found");
    assert!(result.is_err());
}

#[test]
fn a_failed_command_is_named_with_its_exit_code() {
    let c = command("qemu-img", &["resize", "/vm/rootfs.raw", "20G"]);
    match run_command(&c, &Outcome::Failed(Some(1))) {
        Err(Error::CommandFailed(m)) => assert_eq!(
            m,
            "qemu-img resize /vm/rootfs.raw 20G failed with exit code: Some(1)"
        ),
        _ => panic!("a failed command is a failure"),
    }
    match run_command(&c, &Outcome::Failed(None)) {
        Err(Error::CommandFailed(m)) => assert_eq!(
            m,
            "qemu-img resize /vm/rootfs.raw 20G failed with exit code: None"
        ),
        _ => panic!("a killed command is a failure"),
    }
    match run_command(&c, &Outcome::Failed(Some(-2147483648))) {
        Err(Error::CommandFailed(m)) => assert_eq!(
            m,
            "qemu-img resize /vm/rootfs.raw 20G failed with exit code: Some(-2147483648)"
        ),
        _ => panic!("a failed command is a failure"),
    }
}

#[test]
fn a_command_that_did_not_start_is_named_with_the_reason() {
    let c = command("nope", &["-x"]);
    match run_command(&c, &Outcome::NotStarted("No such file or directory (os error 2)".to_string())) {
        Err(e) => assert_eq!(
            e.message(),
            "Failed to execute command: nope -x: No such file or directory (os error 2)"
        ),
        Ok(_) => panic!("a command that did not start is a failure"),
    }
    assert!(!check_process_running(&Outcome::NotStarted("x".to_string())));
}

#[test]
fn command_line_joins_with_spaces() {
    assert_eq!(command("ip", &["link", "show"]).line(), "ip link show");
    assert_eq!(command("true", &[]).line(), "true ");
}

#[test]
fn install_dependency_updates_then_installs() {
    let cs = install_dependency("qemu-utils");
    assert_eq!(cs.len(), 2);
    assert_eq!(cs[0].program, "sudo");
    assert_eq!(cs[0].args, vec!["apt-get", "-qq", "update"]);
    assert_eq!(cs[1].program, "sudo");
    assert_eq!(cs[1].args, vec!["apt-get", "-y", "install", "qemu-utils"]);
}

#[test]
fn ensure_dependency_installs_only_what_is_missing() {
    assert!(ensure_dependency("qemu-img", "qemu-utils", true).is_empty());
    let cs = ensure_dependency("qemu-img", "qemu-utils", false);
    assert_eq!(cs.len(), 2);
    assert_eq!(cs[1].args, vec!["apt-get", "-y", "install", "qemu-utils"]);
}

#[test]
fn probes_are_which_and_ps() {
    let c = dependency_probe("genisoimage");
    assert_eq!(c.program, "which");
    assert_eq!(c.args, vec!["genisoimage"]);
    let p = process_probe(4242);
    assert_eq!(p.program, "ps");
    assert_eq!(p.args, vec!["-p", "4242"]);
    assert_eq!(process_probe(u32::MAX).args[1], "4294967295");
    assert_eq!(process_probe(0).args[1], "0");
}

#[test]
fn a_missing_dependency_is_named() {
    match check_dependency("genisoimage", false) {
        Err(e) => assert_eq!(e.message(), "Required dependency genisoimage not found"),
        Ok(_) => panic!("it is missing"),
    }
}

#[test]
fn download_progress_depends_on_the_size() {
    assert_eq!(download_progress(Some(5_000_000)), Progress::Bar(5_000_000));
    assert_eq!(download_progress(Some(1_000_001)), Progress::Bar(1_000_001));
    assert_eq!(download_progress(Some(1_000_000)), Progress::Silent);
    assert_eq!(download_progress(Some(0)), Progress::Silent);
    assert_eq!(download_progress(None), Progress::Spinner);
}

#[test]
fn a_download_fails_on_a_bad_status() {
    assert!(download_status("https://example.org/x", true, "200 OK").is_ok());
    match download_status("https://example.org/x", false, "404 Not Found") {
        Err(Error::DownloadFailed(u, m)) => {
            assert_eq!(u, "https://example.org/x");
            assert_eq!(m, "HTTP status: 404 Not Found");
        }
        _ => panic!("a bad status fails the download"),
    }
}

#[test]
fn every_failure_has_its_text() {
    let s = |t: &str| t.to_string();
    assert_eq!(Error::Io(s("gone")).message(), "IO error: gone");
    assert_eq!(Error::VmAlreadyExists(s("a")).message(), "VM a already exists");
    assert_eq!(Error::VmNotFound(s("a")).message(), "VM a does not exist");
    assert_eq!(Error::VmAlreadyRunning(s("a")).message(), "VM a is already running");
    assert_eq!(Error::VmNotRunning(s("a")).message(), "VM a is not running");
    assert_eq!(
        Error::DownloadFailed(s("u"), s("why")).message(),
        "Failed to download u: why"
    );
    assert_eq!(Error::CommandFailed(s("x")).message(), "Failed to execute command: x");
    assert_eq!(
        Error::NetworkConfigMissing(s("a")).message(),
        "Network configuration for VM a is missing"
    );
    assert_eq!(Error::HomeDirNotFound.message(), "Home directory not found");
    assert_eq!(Error::JsonParseFailed(s("x")).message(), "Failed to parse JSON: x");
    assert_eq!(
        Error::DependencyNotFound(s("p")).message(),
        "Required dependency p not found"
    );
    assert_eq!(Error::Http(s("x")).message(), "HTTP error: x");
    assert_eq!(Error::InvalidImageName(s("a/b/c/d")).message(), "Invalid image name: a/b/c/d");
    assert_eq!(Error::ImageNotFound(s("x")).message(), "Image not found: x");
    assert_eq!(Error::AllocationExhausted(s("x")).message(), "x");
    assert_eq!(Error::Corrupt(s("x")).message(), "x");
    assert_eq!(Error::TransportFailed(s("x")).message(), "x");
    assert_eq!(Error::Other(s("x")).message(), "x");
}
