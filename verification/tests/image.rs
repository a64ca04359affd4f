use meda::chunking::{ChunkGroup, ChunkingConfig, FileChunker, FileEntry};
use meda::config::{Config, Environment};
use meda::error::Error;
use meda::image::{
    artifact_role, artifacts_size, canonical_file, convert_oras_artifacts_to_meda,
    create_base_image, create_from_vm, create_manifest_from_tag_directory, digest_search_dir,
    digest_search_dirs, find_local_image, format_size, found_cleanup, is_chunk_filename,
    is_confirmed, is_digest_dir, is_skipped_file, list, media, prune, pull, pull_found_nothing,
    pull_sources, pull_step, pulled, push, push_outcome, push_scratch_dir, push_to_oci_registry,
    remove, removed,
    resolve, run_finish, run_from_image, run_prepare, run_pulled, run_user_data, run_vm_name,
    transfer_failed, ImageEntry, ImageManifest, ImageRef, Prepare, Prune, RunOptions, Search,
    Source, StoredImage, Verdict,
};
use meda::plan::Step;
use meda::strmap::StrMap;
use meda::vm::{Assets, UserData, VmResources};

const MIB: u64 = 1024 * 1024;

fn config() -> Config {
    Config::new(&Environment {
        home: Some("/home/user".to_string()),
        asset_dir: Some("/t/assets".to_string()),
        vm_dir: Some("/t/vms".to_string()),
        cpus: None,
        mem: None,
        disk_size: None,
        oras_concurrency: None,
        oras_push_concurrency: None,
        oras_pull_concurrency: None,
    })
    .unwrap()
}

fn image_ref(registry: &str, org: &str, name: &str, tag: &str) -> ImageRef {
    ImageRef {
        registry: registry.to_string(),
        org: org.to_string(),
        name: name.to_string(),
        tag: tag.to_string(),
    }
}

fn map(pairs: &[(&str, &str)]) -> StrMap {
    let mut m = StrMap::new();
    for (k, v) in pairs {
        m.insert(k.to_string(), v.to_string());
    }
    m
}

fn pairs(m: &StrMap) -> Vec<(String, String)> {
    (0..m.len())
        .map(|i| (m.key_at(i).clone(), m.value_at(i).clone()))
        .collect()
}

fn owned(items: &[(&str, &str)]) -> Vec<(String, String)> {
    items
        .iter()
        .map(|(a, b)| (a.to_string(), b.to_string()))
        .collect()
}

fn manifest(artifacts: &[(&str, &str)], metadata: &[(&str, &str)]) -> ImageManifest {
    ImageManifest {
        name: "img".to_string(),
        tag: "latest".to_string(),
        registry: "ghcr.io".to_string(),
        org: "cirunlabs".to_string(),
        artifacts: map(artifacts),
        metadata: map(metadata),
        created: 1234567890,
    }
}

fn file(name: &str, size: u64) -> FileEntry {
    FileEntry {
        name: name.to_string(),
        path: format!("/scan/{}", name),
        size,
    }
}

fn show(step: &Step) -> String {
    match step {
        Step::Bootstrap { full } => format!("bootstrap full={}", full),
        Step::CreateDir(p) => format!("mkdir {}", p),
        Step::CopyFile(a, b) => format!("copy {} {}", a, b),
        Step::RemoveFile(p) => format!("rm {}", p),
        Step::RemoveDir(p) => format!("rmdir {}", p),
        Step::Run(c) => format!("run {} {}", c.program, c.args.join(" ")),
        Step::Stop(n) => format!("stop {}", n),
        Step::Start(n) => format!("start {}", n),
        Step::Sleep(ms) => format!("sleep {}", ms),
        Step::Symlink(a, b) => format!("link {} {}", a, b),
        other => format!("{:?}", other),
    }
}

fn shown(steps: &[Step]) -> Vec<String> {
    steps.iter().map(show).collect()
}

fn options<'a>(config: &Config, vm_name: Option<&'a str>) -> RunOptions<'a> {
    RunOptions {
        vm_name,
        registry: None,
        org: None,
        user_data_path: None,
        no_start: false,
        resources: VmResources::from_config_with_overrides(config, None, None, None),
    }
}

fn groups_of(files: &[FileEntry]) -> Vec<ChunkGroup> {
    FileChunker::new().detect_chunks(&files.to_vec())
}

#[test]
fn test_image_ref_parse_simple() {
    let image_ref = ImageRef::parse("ubuntu", "ghcr.io", "cirunlabs").unwrap();
    assert_eq!(image_ref.registry, "ghcr.io");
    assert_eq!(image_ref.org, "cirunlabs");
    assert_eq!(image_ref.name, "ubuntu");
    assert_eq!(image_ref.tag, "latest");
}

#[test]
fn test_image_ref_parse_with_tag() {
    let image_ref = ImageRef::parse("ubuntu:v1.0", "ghcr.io", "cirunlabs").unwrap();
    assert_eq!(image_ref.registry, "ghcr.io");
    assert_eq!(image_ref.org, "cirunlabs");
    assert_eq!(image_ref.name, "ubuntu");
    assert_eq!(image_ref.tag, "v1.0");
}

#[test]
fn test_image_ref_parse_with_org() {
    let image_ref = ImageRef::parse("myorg/ubuntu:v1.0", "ghcr.io", "cirunlabs").unwrap();
    assert_eq!(image_ref.registry, "ghcr.io");
    assert_eq!(image_ref.org, "myorg");
    assert_eq!(image_ref.name, "ubuntu");
    assert_eq!(image_ref.tag, "v1.0");
}

#[test]
fn test_image_ref_parse_with_registry() {
    let image_ref =
        ImageRef::parse("ghcr.io/myorg/ubuntu:v1.0", "registry.com", "defaultorg").unwrap();
    assert_eq!(image_ref.registry, "ghcr.io");
    assert_eq!(image_ref.org, "myorg");
    assert_eq!(image_ref.name, "ubuntu");
    assert_eq!(image_ref.tag, "v1.0");
}

#[test]
fn test_image_ref_parse_registry_detection() {
    let image_ref =
        ImageRef::parse("registry.example.com/ubuntu", "ghcr.io", "cirunlabs").unwrap();
    assert_eq!(image_ref.registry, "registry.example.com");
    assert_eq!(image_ref.org, "cirunlabs");
    assert_eq!(image_ref.name, "ubuntu");
    assert_eq!(image_ref.tag, "latest");
}

#[test]
fn test_image_ref_url() {
    let image_ref = ImageRef {
        registry: "ghcr.io".to_string(),
        org: "cirunlabs".to_string(),
        name: "ubuntu".to_string(),
        tag: "v1.0".to_string(),
    };
    assert_eq!(image_ref.url(), "ghcr.io/cirunlabs/ubuntu:v1.0");
}

#[test]
fn test_image_ref_local_dir() {
    let config = config();

    let image_ref = ImageRef {
        registry: "ghcr.io".to_string(),
        org: "cirunlabs".to_string(),
        name: "ubuntu".to_string(),
        tag: "v1.0".to_string(),
    };

    let local_dir = image_ref.local_dir(&config);
    assert!(local_dir.contains("images"));
    assert!(local_dir.contains("ghcr_io"));
    assert!(local_dir.contains("cirunlabs"));
    assert!(local_dir.contains("ubuntu"));
    assert!(local_dir.contains("v1.0"));
    assert_eq!(local_dir, "/t/assets/images/ghcr_io/cirunlabs/ubuntu/v1.0");
}

#[test]
fn test_calculate_directory_size() {
    // Two files: "hello" and "world!"
    let size = artifacts_size(&vec![Some(5), Some(6)]);
    assert_eq!(size, 11); // "hello" (5) + "world!" (6)
}

#[test]
fn test_calculate_directory_size_with_subdirs() {
    // A file, and a file in a subdirectory, which has no size of its own
    let size = artifacts_size(&vec![Some(5), None, Some(6)]);
    assert_eq!(size, 11); // "hello" (5) + "world!" (6)
}

#[test]
fn test_list_empty_images_dir() {
    // Nothing is listed where no image is found
    let result = list(&Vec::new());
    assert!(result.is_empty());
}

#[test]
fn test_prune_missing_images_dir() {
    let config = config();

    // Nothing is removed when the images directory doesn't exist
    let result = prune(&config, false, false, true, false, 0);
    match result {
        Prune::Report(r) => {
            assert!(r.success);
            assert_eq!(r.message, "No images directory found");
        }
        _ => panic!("there is nothing to prune"),
    }
}

#[test]
fn test_remove_nonexistent_image() {
    let config = config();

    // Handled gracefully in machine mode when the image doesn't exist
    let result = remove(&config, "nonexistent", None, None, true, true, false);
    assert!(result.is_ok());
    match result.unwrap() {
        Verdict::Report(r) => {
            assert!(!r.success);
            assert_eq!(
                r.message,
                "Image ghcr.io/cirunlabs/nonexistent:latest not found locally"
            );
        }
        Verdict::Proceed(_) => panic!("there is nothing to remove"),
    }
}

#[test]
fn a_reference_of_four_parts_is_no_image_name() {
    match ImageRef::parse("a/b/c/d", "ghcr.io", "cirunlabs") {
        Err(Error::InvalidImageName(n)) => assert_eq!(n, "a/b/c/d"),
        _ => panic!("four parts are too many"),
    }
    assert!(matches!(
        ImageRef::parse("a/b/c/d/e:t", "r", "o"),
        Err(Error::InvalidImageName(_))
    ));
    assert_eq!(
        ImageRef::parse("ubuntu", "ghcr.io", "cirunlabs").unwrap().url(),
        "ghcr.io/cirunlabs/ubuntu:latest"
    );
}

#[test]
fn references_are_read_part_by_part() {
    let r = ImageRef::parse("ghcr.io/ubuntu", "other.io", "org").unwrap();
    assert_eq!(r.url(), "ghcr.io/org/ubuntu:latest");
    let r = ImageRef::parse("localhost/ubuntu", "ghcr.io", "org").unwrap();
    assert_eq!(r.url(), "ghcr.io/localhost/ubuntu:latest");
    let r = ImageRef::parse("a:b:c", "r", "o").unwrap();
    assert_eq!(r.name, "a");
    assert_eq!(r.tag, "b:c");
    let r = ImageRef::parse("name:", "r", "o").unwrap();
    assert_eq!(r.name, "name");
    assert_eq!(r.tag, "");
    let r = ImageRef::parse("", "r", "o").unwrap();
    assert_eq!(r.name, "");
    assert_eq!(r.tag, "latest");
    let r = ImageRef::parse("reg:5000/org/name:1", "r", "o").unwrap();
    assert_eq!(r.registry, "reg:5000");
    assert_eq!(r.org, "org");
    assert_eq!(r.name, "name");
    assert_eq!(r.tag, "1");
    let r = ImageRef::parse("/x", "r.io", "o").unwrap();
    assert_eq!(r.registry, "r.io");
    assert_eq!(r.org, "");
    assert_eq!(r.name, "x");
}

#[test]
fn resolve_falls_back_to_the_usual_registry() {
    assert_eq!(resolve("img", None, None).unwrap().url(), "ghcr.io/cirunlabs/img:latest");
    assert_eq!(
        resolve("img:1", Some("quay.io"), Some("me")).unwrap().url(),
        "quay.io/me/img:1"
    );
    assert!(matches!(resolve("a/b/c/d", None, None), Err(Error::InvalidImageName(_))));
}

#[test]
fn sizes_are_shown_in_mebibytes_with_two_decimals() {
    assert_eq!(format_size(0), "0.00 MB");
    assert_eq!(format_size(MIB), "1.00 MB");
    assert_eq!(format_size(1536 * 1024), "1.50 MB");
    assert_eq!(format_size(11), "0.00 MB");
    assert_eq!(format_size(5243), "0.01 MB");
    assert_eq!(format_size(5242), "0.00 MB");
    assert_eq!(format_size(300 * MIB), "300.00 MB");
    assert_eq!(format_size(MIB - 1), "1.00 MB");
    assert_eq!(format_size(10 * 1024 * MIB + 123456), "10240.12 MB");
    // ties go to the even neighbour
    assert_eq!(format_size(131072), "0.12 MB");
    assert_eq!(format_size(393216), "0.38 MB");
    assert_eq!(format_size(u64::MAX), "17592186044416.00 MB");
    for bytes in [0u64, 1, 5242, 5243, 131072, 393216, 1048575, 1048576, 999999999, 123456789012] {
        assert_eq!(format_size(bytes), format!("{:.2} MB", bytes as f64 / 1024.0 / 1024.0));
    }
}

#[test]
fn the_size_of_an_image_is_that_of_its_files() {
    assert_eq!(artifacts_size(&vec![Some(5), None, Some(6)]), 11);
    assert_eq!(artifacts_size(&Vec::new()), 0);
    assert_eq!(artifacts_size(&vec![None]), 0);
    assert_eq!(artifacts_size(&vec![Some(u64::MAX), Some(1)]), u64::MAX);
}

#[test]
fn list_shows_each_stored_image() {
    let stored = vec![StoredImage {
        registry_dir: "ghcr_io".to_string(),
        manifest: manifest(&[("base_image", "base.raw")], &[]),
        sizes: vec![Some(3 * MIB / 2)],
        created: "2009-02-13 23:31:30".to_string(),
    }];
    let listed = list(&stored);
    assert_eq!(listed.len(), 1);
    assert_eq!(listed[0].name, "img");
    assert_eq!(listed[0].tag, "latest");
    assert_eq!(listed[0].registry, "ghcr.io");
    assert_eq!(listed[0].size, "1.50 MB");
    assert_eq!(listed[0].created, "2009-02-13 23:31:30");
}

#[test]
fn a_base_image_is_listed_and_removed_again() {
    let config = config();
    let all = Assets {
        base_raw: true,
        firmware: true,
        hypervisor: true,
        ch_remote: true,
        oras: true,
    };
    let made = create_base_image(&config, "img", "latest", "ghcr.io", "cirunlabs", &all, 1700000000);
    assert_eq!(made.message, "Successfully created image: ghcr.io/cirunlabs/img:latest");
    let stored = vec![StoredImage {
        registry_dir: "ghcr_io".to_string(),
        manifest: made.manifest.clone(),
        sizes: vec![Some(10), Some(20), Some(30), Some(40)],
        created: "now".to_string(),
    }];
    let listed = list(&stored);
    assert_eq!(listed.len(), 1);
    let url = image_ref(&listed[0].registry, &made.manifest.org, &listed[0].name, &listed[0].tag).url();
    assert_eq!(url, "ghcr.io/cirunlabs/img:latest");
    match remove(&config, "img", None, None, true, false, true).unwrap() {
        Verdict::Proceed(removal) => {
            assert_eq!(removal.dir, "/t/assets/images/ghcr_io/cirunlabs/img/latest");
            assert!(!removal.ask);
            assert_eq!(
                removed(&removal.image, 100).message,
                "Removed image ghcr.io/cirunlabs/img:latest (0.00 MB)"
            );
        }
        Verdict::Report(_) => panic!("the image is there"),
    }
    assert!(list(&Vec::new()).is_empty());
}

#[test]
fn a_base_image_holds_the_assets_that_are_there() {
    let config = config();
    let all = Assets {
        base_raw: true,
        firmware: true,
        hypervisor: true,
        ch_remote: true,
        oras: false,
    };
    let made = create_base_image(&config, "img", "v2", "reg.example.com", "me", &all, 42);
    let dir = "/t/assets/images/reg_example_com/me/img/v2";
    assert_eq!(
        shown(&made.steps),
        vec![
            format!("mkdir {}", dir),
            format!("copy /t/assets/ubuntu-base.raw {}/base.raw", dir),
            format!("copy /t/assets/hypervisor-fw {}/hypervisor-fw", dir),
            format!("copy /t/assets/cloud-hypervisor {}/cloud-hypervisor", dir),
            format!("copy /t/assets/ch-remote {}/ch-remote", dir),
        ]
    );
    assert_eq!(
        pairs(&made.manifest.artifacts),
        owned(&[
            ("base_image", "base.raw"),
            ("firmware", "hypervisor-fw"),
            ("hypervisor", "cloud-hypervisor"),
            ("ch_remote", "ch-remote"),
        ])
    );
    assert_eq!(
        pairs(&made.manifest.metadata),
        owned(&[
            ("os", "ubuntu"),
            ("arch", "amd64"),
            ("version", "jammy"),
            ("created_by", "meda"),
        ])
    );
    assert_eq!(made.manifest.name, "img");
    assert_eq!(made.manifest.tag, "v2");
    assert_eq!(made.manifest.registry, "reg.example.com");
    assert_eq!(made.manifest.org, "me");
    assert_eq!(made.manifest.created, 42);
    let few = Assets {
        base_raw: false,
        firmware: true,
        hypervisor: false,
        ch_remote: false,
        oras: false,
    };
    let little = create_base_image(&config, "img", "v2", "reg.example.com", "me", &few, 42);
    assert_eq!(little.steps.len(), 2);
    assert_eq!(pairs(&little.manifest.artifacts), owned(&[("firmware", "hypervisor-fw")]));
}

#[test]
fn a_snapshot_keeps_the_disk_and_the_seed() {
    let config = config();
    let entries: Vec<String> = ["rootfs.raw", "user-data", "pid", "meta-data", "ci", "start.sh"]
        .iter()
        .map(|s| s.to_string())
        .collect();
    let made = create_from_vm(
        &config, "vm1", "snap", "v1", "ghcr.io", "cirunlabs", true, true, true, &entries, 99,
    )
    .unwrap();
    let dir = "/t/assets/images/ghcr_io/cirunlabs/snap/v1";
    assert_eq!(
        shown(&made.steps),
        vec![
            "stop vm1".to_string(),
            "rm /t/vms/vm1/pid".to_string(),
            "sleep 2000".to_string(),
            format!("mkdir {}", dir),
            format!("copy /t/vms/vm1/rootfs.raw {}/base.raw", dir),
            format!("copy /t/vms/vm1/user-data {}/user-data", dir),
            format!("copy /t/vms/vm1/meta-data {}/meta-data", dir),
        ]
    );
    assert_eq!(
        pairs(&made.manifest.artifacts),
        owned(&[
            ("base_image", "base.raw"),
            ("user-data", "user-data"),
            ("meta-data", "meta-data"),
        ])
    );
    assert_eq!(
        pairs(&made.manifest.metadata),
        owned(&[
            ("source_vm", "vm1"),
            ("created_by", "meda"),
            ("type", "vm_snapshot"),
        ])
    );
    assert_eq!(made.manifest.created, 99);
    assert_eq!(
        made.message,
        "Successfully created image ghcr.io/cirunlabs/snap:v1 from VM vm1"
    );
    let stopped = create_from_vm(
        &config, "vm1", "snap", "v1", "ghcr.io", "cirunlabs", true, true, false, &Vec::new(), 99,
    )
    .unwrap();
    assert_eq!(stopped.steps.len(), 2);
}

#[test]
fn a_snapshot_needs_the_vm_and_its_disk() {
    let config = config();
    let none = Vec::new();
    match create_from_vm(&config, "vm1", "s", "t", "r", "o", false, false, false, &none, 0) {
        Err(Error::VmNotFound(n)) => assert_eq!(n, "vm1"),
        _ => panic!("the VM is not there"),
    }
    match create_from_vm(&config, "vm1", "s", "t", "r", "o", true, false, true, &none, 0) {
        Err(Error::Other(m)) => assert_eq!(m, "VM vm1 rootfs not found"),
        _ => panic!("the disk is not there"),
    }
}

#[test]
fn files_get_their_roles_by_name() {
    assert_eq!(artifact_role("base.raw"), "base_image");
    assert_eq!(artifact_role("ubuntu-base.img"), "base_image");
    assert_eq!(artifact_role("disk.raw"), "base_image");
    assert_eq!(artifact_role("hypervisor-fw"), "firmware");
    assert_eq!(artifact_role("my-fw.bin"), "firmware");
    assert_eq!(artifact_role("cloud-hypervisor"), "hypervisor");
    assert_eq!(artifact_role("cloud-hypervisor-remote"), "cloud_hypervisor_remote");
    assert_eq!(artifact_role("ch-remote"), "ch_remote");
    assert_eq!(artifact_role("ch-remote-static"), "ch_remote");
    assert_eq!(artifact_role("user-data"), "user_data");
    assert_eq!(artifact_role("notes.v1.txt"), "notes_v1_txt");
    assert_eq!(canonical_file("base_image", "x"), "base.raw");
    assert_eq!(canonical_file("firmware", "x"), "hypervisor-fw");
    assert_eq!(canonical_file("hypervisor", "x"), "cloud-hypervisor");
    assert_eq!(canonical_file("ch_remote", "x"), "ch-remote");
    assert_eq!(canonical_file("user_data", "user-data"), "user-data");
    assert!(is_chunk_filename("base.raw.chunk.000"));
    assert!(!is_chunk_filename("base.raw"));
    assert!(is_skipped_file("layout.json"));
    assert!(is_skipped_file("sha256:abcdef"));
    assert!(!is_skipped_file("json"));
    assert!(!is_skipped_file("a.sha256:"));
}

#[test]
fn downloaded_files_become_an_image() {
    let files = vec![
        file("base.raw", 100),
        file("layout.json", 5),
        file("sha256:0123", 7),
        file("hypervisor-fw", 10),
        file("other-base.raw", 50),
        file("user-data", 3),
        file("x.chunk.000", 1),
    ];
    let r = image_ref("ghcr.io", "cirunlabs", "img", "latest");
    let c = convert_oras_artifacts_to_meda("/scan", &Vec::new(), &files, &r, 1700000000).unwrap();
    assert_eq!(
        c.copies,
        owned(&[
            ("/scan/base.raw", "base.raw"),
            ("/scan/hypervisor-fw", "hypervisor-fw"),
            ("/scan/user-data", "user-data"),
        ])
    );
    assert_eq!(
        pairs(&c.manifest.artifacts),
        owned(&[
            ("base_image", "base.raw"),
            ("firmware", "hypervisor-fw"),
            ("user_data", "user-data"),
        ])
    );
    assert_eq!(
        pairs(&c.manifest.metadata),
        owned(&[
            ("pulled_from", "ghcr.io/cirunlabs/img:latest"),
            ("pulled_at", "1700000000"),
        ])
    );
    assert!(c.reassembled.is_empty());
    assert_eq!(c.manifest.name, "img");
    assert_eq!(c.manifest.tag, "latest");
    assert_eq!(c.manifest.registry, "ghcr.io");
    assert_eq!(c.manifest.org, "cirunlabs");
    assert_eq!(c.manifest.created, 1700000000);
}

#[test]
fn downloaded_chunks_are_put_together() {
    let files = vec![
        file("base.raw.chunk.001", 40),
        file("base.raw.chunk.000", 60),
        file("cloud-hypervisor", 10),
        file("base.raw", 1),
        file("data.bin.chunk.000", 9),
    ];
    let groups = groups_of(&files);
    assert_eq!(groups.len(), 2);
    let r = image_ref("ghcr.io", "cirunlabs", "img", "v1");
    let c = convert_oras_artifacts_to_meda("/scan", &groups, &files, &r, 5).unwrap();
    // the file of the chunks' name is passed over; the chunks take its role
    assert_eq!(c.copies, owned(&[("/scan/cloud-hypervisor", "cloud-hypervisor")]));
    assert_eq!(
        c.reassembled,
        owned(&[("base.raw", "base.raw"), ("data.bin", "data.bin")])
    );
    assert_eq!(
        pairs(&c.manifest.artifacts),
        owned(&[
            ("hypervisor", "cloud-hypervisor"),
            ("base_image", "base.raw"),
            ("data_bin", "data.bin"),
        ])
    );
    assert_eq!(
        pairs(&c.manifest.metadata),
        owned(&[
            ("pulled_from", "ghcr.io/cirunlabs/img:v1"),
            ("pulled_at", "5"),
            ("chunked_files", "base.raw,data.bin"),
            ("reassembled_from_chunks", "true"),
        ])
    );
}

#[test]
fn a_download_without_artifacts_is_no_image() {
    let r = image_ref("ghcr.io", "cirunlabs", "img", "latest");
    let files = vec![file("layout.json", 5), file("a.chunk.x", 1)];
    match convert_oras_artifacts_to_meda("/scan", &Vec::new(), &files, &r, 1) {
        Err(Error::Other(m)) => assert_eq!(m, "No valid artifacts found in /scan"),
        _ => panic!("nothing was found"),
    }
    assert!(convert_oras_artifacts_to_meda("/scan", &Vec::new(), &Vec::new(), &r, 1).is_err());
}

#[test]
fn a_tag_directory_gets_its_manifest() {
    let files = vec![
        file("base.raw", 100),
        file("layout.json", 5),
        file("database.json", 5),
        file("cloud-hypervisor", 9),
        file("new-base.raw", 100),
        file("part.chunk.000", 1),
    ];
    let groups = groups_of(&[file("part.chunk.000", 1), file("fw.chunk.000", 2)]);
    let r = image_ref("ghcr.io", "cirunlabs", "img", "latest");
    let m = create_manifest_from_tag_directory("/i", &groups, &files, &r, 8).unwrap();
    assert_eq!(
        pairs(&m.artifacts),
        owned(&[
            ("base_image", "new-base.raw"),
            ("hypervisor", "cloud-hypervisor"),
            ("part", "part"),
            ("firmware", "hypervisor-fw"),
        ])
    );
    assert_eq!(m.metadata.get("chunked_files").unwrap(), "part,fw");
    assert_eq!(m.metadata.get("pulled_at").unwrap(), "8");
    assert_eq!(m.created, 8);
    // a directory that holds nothing that could be an artifact is no image
    match create_manifest_from_tag_directory("/i", &Vec::new(), &Vec::new(), &r, 8) {
        Err(Error::Other(t)) => assert_eq!(t, "No valid artifacts found in /i"),
        _ => panic!("nothing was found"),
    }
    let only = vec![file("layout.json", 5), file("x.chunk.000", 1)];
    assert!(create_manifest_from_tag_directory("/i", &Vec::new(), &only, &r, 8).is_err());
}

#[test]
fn pull_prepares_the_registry_client() {
    let config = config();
    match pull(&config, "img:v1", None, None, false, "/tmp", 1700000001, Some("SECRET"), true).unwrap() {
        Verdict::Proceed(p) => {
            assert_eq!(p.image.url(), "ghcr.io/cirunlabs/img:v1");
            assert_eq!(p.image_dir, "/t/assets/images/ghcr_io/cirunlabs/img/v1");
            assert_eq!(p.scratch, "/tmp/meda-pull-1700000001");
            assert_eq!(
                shown(&p.steps),
                vec!["bootstrap full=false", "mkdir /tmp/meda-pull-1700000001"]
            );
            assert_eq!(shown(&p.cleanup), vec!["rmdir /tmp/meda-pull-1700000001"]);
            assert_eq!(p.command.program, "/t/assets/oras");
            assert_eq!(
                p.command.args,
                vec![
                    "pull",
                    "ghcr.io/cirunlabs/img:v1",
                    "--output",
                    "/tmp/meda-pull-1700000001",
                    "--allow-path-traversal",
                    "--concurrency",
                    "10",
                    "--username",
                    "token",
                    "--password",
                    "SECRET",
                    "--no-tty",
                ]
            );
        }
        Verdict::Report(_) => panic!("the image is not held"),
    }
    match pull(&config, "img", None, None, false, "/tmp", 7, None, false).unwrap() {
        Verdict::Proceed(p) => assert_eq!(
            p.command.args,
            vec![
                "pull",
                "ghcr.io/cirunlabs/img:latest",
                "--output",
                "/tmp/meda-pull-7",
                "--allow-path-traversal",
                "--concurrency",
                "10",
                "--verbose",
            ]
        ),
        Verdict::Report(_) => panic!("the image is not held"),
    }
}

#[test]
fn pull_leaves_an_image_that_is_held() {
    let config = config();
    match pull(&config, "img", None, None, true, "/tmp", 7, None, false).unwrap() {
        Verdict::Report(r) => {
            assert!(r.success);
            assert_eq!(r.message, "Image ghcr.io/cirunlabs/img:latest already exists locally");
        }
        Verdict::Proceed(_) => panic!("the image is held"),
    }
    assert!(matches!(
        pull(&config, "a/b/c/d", None, None, true, "/tmp", 7, None, false),
        Err(Error::InvalidImageName(_))
    ));
}

fn place(s: &Source) -> String {
    match s {
        Source::Scratch(d) => format!("scratch {}", d),
        Source::Leftover(d) => format!("leftover {}", d),
        Source::TagDirectory(d) => format!("tag {}", d),
        Source::Digest(d) => format!("digest {}", d),
    }
}

#[test]
fn pull_looks_in_three_places() {
    let dirs: Vec<String> = ["meda-push-chunks-17", "systemd-private", "meda-push-chunks-9", "meda-pull-3"]
        .iter()
        .map(|s| s.to_string())
        .collect();
    let found: Vec<String> = pull_sources("/tmp/meda-pull-3", "/tmp", &dirs, "/i", false, Some("/a/x@sha256/abc"))
        .iter()
        .map(place)
        .collect();
    assert_eq!(
        found,
        vec![
            "scratch /tmp/meda-pull-3",
            "leftover /tmp/meda-push-chunks-17",
            "leftover /tmp/meda-push-chunks-9",
            "digest /a/x@sha256/abc",
        ]
    );
    let tagged: Vec<String> = pull_sources("/s", "/tmp", &Vec::new(), "/i", true, Some("/d"))
        .iter()
        .map(place)
        .collect();
    assert_eq!(tagged, vec!["scratch /s", "tag /i"]);
    assert_eq!(pull_sources("/s", "/tmp", &Vec::new(), "/i", false, None).len(), 1);
    assert!(is_digest_dir("img@sha256"));
    assert!(is_digest_dir("sha256-abc"));
    assert!(!is_digest_dir("sha25"));
    assert_eq!(
        digest_search_dir(&config(), &image_ref("ghcr.io", "cirunlabs", "img", "latest")),
        "/t/assets/images/ghcr_io/cirunlabs"
    );
}

fn nothing_there() -> Error {
    Error::Other("No valid artifacts found in /x".to_string())
}

#[test]
fn a_pull_that_finds_nothing_fails() {
    let places = pull_sources("/s", "/tmp", &vec!["meda-push-chunks-1".to_string()], "/i", false, None);
    assert_eq!(places.len(), 2);
    assert!(matches!(pull_step(&places, 0, false, nothing_there()), Search::TryNext));
    match pull_step(&places, 1, false, nothing_there()) {
        Search::Fail(Error::TransportFailed(m)) => {
            assert_eq!(m, "ORAS artifacts not found in expected SHA256 directory")
        }
        _ => panic!("no place is left"),
    }
    match pull_step(&places, 2, false, nothing_there()) {
        Search::Fail(Error::TransportFailed(_)) => {}
        _ => panic!("no place is left"),
    }
    let only = pull_sources("/s", "/tmp", &Vec::new(), "/i", false, None);
    assert!(matches!(
        pull_step(&only, 0, false, nothing_there()),
        Search::Fail(Error::TransportFailed(_))
    ));
}

#[test]
fn a_pull_ends_at_the_image_directory_or_the_digest_directory() {
    let tagged = pull_sources("/s", "/tmp", &Vec::new(), "/i", true, Some("/d"));
    assert!(matches!(pull_step(&tagged, 0, false, nothing_there()), Search::TryNext));
    match pull_step(&tagged, 1, false, nothing_there()) {
        Search::Fail(Error::Other(m)) => assert_eq!(m, "No valid artifacts found in /x"),
        _ => panic!("the search ends with what went wrong there"),
    }
    let digest = pull_sources("/s", "/tmp", &Vec::new(), "/i", false, Some("/d"));
    match pull_step(&digest, 1, false, nothing_there()) {
        Search::Fail(Error::Other(m)) => assert_eq!(m, "No valid artifacts found in /x"),
        _ => panic!("the search ends with what went wrong there"),
    }
    for at in 0..3 {
        assert!(matches!(pull_step(&tagged, at, true, nothing_there()), Search::Done));
    }
}

#[test]
fn a_leftover_directory_goes_once_it_has_yielded() {
    assert_eq!(
        shown(&found_cleanup(&Source::Leftover("/tmp/meda-push-chunks-1".to_string()))),
        vec!["rmdir /tmp/meda-push-chunks-1"]
    );
    assert!(found_cleanup(&Source::Scratch("/s".to_string())).is_empty());
    assert!(found_cleanup(&Source::TagDirectory("/i".to_string())).is_empty());
    assert!(found_cleanup(&Source::Digest("/d".to_string())).is_empty());
}

#[test]
fn digest_directories_are_looked_for_in_both_layouts() {
    let r = image_ref("ghcr.io", "cirunlabs", "img", "latest");
    assert_eq!(
        digest_search_dirs(&config(), Some("/home/user"), &r),
        vec![
            "/t/assets/images/ghcr_io/cirunlabs",
            "/home/user/.ch-vms/assets/images/ghcr_io/cirunlabs",
        ]
    );
    assert_eq!(
        digest_search_dirs(&config(), None, &r),
        vec!["/t/assets/images/ghcr_io/cirunlabs"]
    );
}

#[test]
fn a_run_pulls_first_what_is_not_held() {
    match run_prepare("missing:latest", None, None, false).unwrap() {
        Prepare::Pull(x) => assert_eq!(x.url(), "ghcr.io/cirunlabs/missing:latest"),
        Prepare::Load(_) => panic!("the image is not held"),
    }
    match run_prepare("me/img:v1", Some("quay.io"), None, true).unwrap() {
        Prepare::Load(x) => assert_eq!(x.url(), "quay.io/me/img:v1"),
        Prepare::Pull(_) => panic!("the image is held"),
    }
    match run_prepare("a/b/c/d", None, None, false) {
        Err(Error::InvalidImageName(n)) => assert_eq!(n, "a/b/c/d"),
        _ => panic!("the reference is no image name"),
    }
    assert!(run_prepare("a/b/c/d", None, None, true).is_err());
}

#[test]
fn a_failed_pull_ends_the_run() {
    let r = image_ref("ghcr.io", "cirunlabs", "missing", "latest");
    match run_pulled(r.clone(), Err(transfer_failed("pull", true, "", "denied"))) {
        Err(Error::TransportFailed(m)) => {
            assert_eq!(m, "ORAS pull failed:\nSTDOUT: \nSTDERR: denied")
        }
        _ => panic!("the run ends with the pull's failure"),
    }
    match run_pulled(r, Ok(())) {
        Ok(Prepare::Load(x)) => assert_eq!(x.url(), "ghcr.io/cirunlabs/missing:latest"),
        _ => panic!("the image is loaded after the pull"),
    }
}

#[test]
fn a_failed_pull_leaves_no_vm_behind() {
    let config = config();
    // running an image that is not held begins with a pull, which touches no VM directory
    match pull(&config, "missing:latest", None, None, false, "/tmp", 1, None, true).unwrap() {
        Verdict::Proceed(p) => {
            for step in shown(&p.steps) {
                assert!(!step.contains("/t/vms"));
            }
        }
        Verdict::Report(_) => panic!("the image is not held"),
    }
    match transfer_failed("pull", true, "out", "denied") {
        Error::TransportFailed(m) => {
            assert_eq!(m, "ORAS pull failed:\nSTDOUT: out\nSTDERR: denied")
        }
        _ => panic!("a failed pull is a transport failure"),
    }
    match transfer_failed("push", false, "out", "denied") {
        Error::TransportFailed(m) => assert_eq!(m, "ORAS push failed"),
        _ => panic!("a failed push is a transport failure"),
    }
    assert_eq!(
        pull_found_nothing().message(),
        "ORAS artifacts not found in expected SHA256 directory"
    );
    assert_eq!(
        pulled(&image_ref("ghcr.io", "cirunlabs", "img", "latest")).message,
        "Successfully pulled image ghcr.io/cirunlabs/img:latest"
    );
}

#[test]
fn remove_asks_unless_told_not_to() {
    let config = config();
    match remove(&config, "img", None, None, false, false, true).unwrap() {
        Verdict::Proceed(x) => assert!(x.ask),
        _ => panic!("the image is held"),
    }
    match remove(&config, "img", None, None, false, true, true).unwrap() {
        Verdict::Proceed(x) => assert!(!x.ask),
        _ => panic!("the image is held"),
    }
    match remove(&config, "img", Some("quay.io"), Some("me"), false, false, false) {
        Err(Error::ImageNotFound(m)) => assert_eq!(m, "Image quay.io/me/img:latest not found locally"),
        _ => panic!("the image is not held"),
    }
    assert!(matches!(
        remove(&config, "a/b/c/d", None, None, true, true, true),
        Err(Error::InvalidImageName(_))
    ));
    assert!(is_confirmed("y"));
    assert!(is_confirmed(" YES\n"));
    assert!(is_confirmed("Yes"));
    assert!(!is_confirmed(""));
    assert!(!is_confirmed("n"));
    assert!(!is_confirmed("yess"));
    assert!(!is_confirmed("ye"));
    assert_eq!(
        removed(&image_ref("ghcr.io", "cirunlabs", "img", "latest"), 3 * MIB).message,
        "Removed image ghcr.io/cirunlabs/img:latest (3.00 MB)"
    );
}

#[test]
fn prune_removes_everything_or_nothing() {
    let config = config();
    assert!(matches!(prune(&config, true, false, false, true, 5), Prune::Hold));
    match prune(&config, true, true, false, true, 5 * MIB) {
        Prune::Remove(dir, r) => {
            assert_eq!(dir, "/t/assets/images");
            assert_eq!(r.message, "Removed 1 image(s), freed 5.00 MB");
        }
        _ => panic!("all images go"),
    }
    assert!(matches!(prune(&config, true, false, true, true, 5), Prune::Remove(_, _)));
    match prune(&config, false, true, true, true, 5 * MIB) {
        Prune::Report(r) => assert_eq!(r.message, "Removed 0 image(s), freed 0.00 MB"),
        _ => panic!("nothing goes"),
    }
}

#[test]
fn running_an_image_begins_with_its_disk() {
    let config = config();
    let r = image_ref("ghcr.io", "cirunlabs", "img", "latest");
    let m = manifest(
        &[
            ("base_image", "base.raw"),
            ("user-data", "user-data"),
            ("meta-data", "meta-data"),
        ],
        &[],
    );
    let run = run_from_image(&config, &r, &m, &options(&config, Some("web")), false, true, true, 55).unwrap();
    assert_eq!(run.vm_name, "web");
    assert!(run.user_data_kept);
    assert_eq!(
        shown(&run.steps),
        vec![
            "bootstrap full=false",
            "mkdir /t/vms/web",
            "copy /t/assets/images/ghcr_io/cirunlabs/img/latest/base.raw /t/vms/web/rootfs.raw",
            "copy /t/assets/images/ghcr_io/cirunlabs/img/latest/user-data /t/vms/web/user-data",
        ]
    );
    let mut bigger = options(&config, None);
    bigger.resources.disk_size = "50G".to_string();
    let named = run_from_image(&config, &r, &m, &bigger, false, true, false, 55).unwrap();
    assert_eq!(named.vm_name, "img-55");
    assert_eq!(run_vm_name(None, "img", 55), "img-55");
    assert_eq!(run_vm_name(Some("web"), "img", 55), "web");
    assert!(!named.user_data_kept);
    assert_eq!(
        shown(&named.steps),
        vec![
            "bootstrap full=false",
            "mkdir /t/vms/img-55",
            "copy /t/assets/images/ghcr_io/cirunlabs/img/latest/base.raw /t/vms/img-55/rootfs.raw",
            "run qemu-img resize /t/vms/img-55/rootfs.raw 50G",
        ]
    );
}

#[test]
fn running_an_image_needs_a_free_name_and_a_base_image() {
    let config = config();
    let r = image_ref("ghcr.io", "cirunlabs", "img", "latest");
    let m = manifest(&[("base_image", "disk.raw")], &[]);
    match run_from_image(&config, &r, &m, &options(&config, Some("web")), true, true, true, 1) {
        Err(Error::VmAlreadyExists(n)) => assert_eq!(n, "web"),
        _ => panic!("the name is taken"),
    }
    match run_from_image(&config, &r, &m, &options(&config, None), false, false, true, 1) {
        Err(Error::Other(t)) => assert_eq!(t, "Base image artifact 'disk.raw' not found in image"),
        _ => panic!("the base image file is missing"),
    }
    let bare = manifest(&[("firmware", "hypervisor-fw")], &[]);
    match run_from_image(&config, &r, &bare, &options(&config, None), false, true, true, 1) {
        Err(Error::Other(t)) => assert_eq!(t, "Image manifest missing base_image artifact"),
        _ => panic!("the image has no base image"),
    }
}

#[test]
fn user_data_of_a_run_comes_from_the_file_the_image_or_the_default() {
    match run_user_data(Some("/u.yaml"), true, "H") {
        UserData::File(p) => assert_eq!(p, "/u.yaml"),
        _ => panic!("the file given wins"),
    }
    assert!(matches!(run_user_data(None, true, "H"), UserData::Kept));
    match run_user_data(None, false, "H") {
        UserData::Default(h) => assert_eq!(h, "H"),
        _ => panic!("the default is left"),
    }
    let r = image_ref("ghcr.io", "cirunlabs", "img", "latest");
    let (steps, said) = run_finish("web", &r, false);
    assert_eq!(shown(&steps), vec!["start web"]);
    assert_eq!(
        said.message,
        "Successfully created and started VM 'web' from image 'ghcr.io/cirunlabs/img:latest'"
    );
    let (steps, said) = run_finish("web", &r, true);
    assert!(steps.is_empty());
    assert_eq!(
        said.message,
        "Successfully created VM 'web' from image 'ghcr.io/cirunlabs/img:latest' (not started)"
    );
}

#[test]
fn the_first_local_image_of_a_name_wins() {
    let entries = vec![
        ImageEntry {
            name: "other".to_string(),
            path: "/i/ghcr_io/a/other/latest".to_string(),
        },
        ImageEntry {
            name: "img".to_string(),
            path: "/i/ghcr_io/a/img/v1".to_string(),
        },
        ImageEntry {
            name: "img".to_string(),
            path: "/i/quay_io/b/img/v2".to_string(),
        },
    ];
    assert_eq!(find_local_image(&entries, "img"), Some("/i/ghcr_io/a/img/v1".to_string()));
    assert_eq!(find_local_image(&entries, "other"), Some("/i/ghcr_io/a/other/latest".to_string()));
    assert_eq!(find_local_image(&entries, "none"), None);
    assert_eq!(find_local_image(&Vec::new(), "img"), None);
}

#[test]
fn push_decides_before_it_uploads() {
    let m = manifest(&[("base_image", "base.raw")], &[]);
    match push("img", "a/b/c/d", None, false, Some(&m), Some("T")) {
        Err(Error::InvalidImageName(n)) => assert_eq!(n, "a/b/c/d"),
        _ => panic!("the target is no image name"),
    }
    match push("img", "img:v1", None, false, None, Some("T")) {
        Err(Error::ImageNotFound(t)) => assert_eq!(t, "Local image 'img' not found"),
        _ => panic!("the image is not held"),
    }
    match push("img", "img:v1", None, true, Some(&m), None).unwrap() {
        Verdict::Report(r) => {
            assert!(r.success);
            assert_eq!(
                r.message,
                "Would push image img (created: 1234567890) to ghcr.io/cirunlabs/img:v1"
            );
        }
        Verdict::Proceed(_) => panic!("a dry run pushes nothing"),
    }
    match push("img", "img:v1", None, false, Some(&m), None) {
        Err(Error::Other(t)) => assert!(t.starts_with("GITHUB_TOKEN environment variable not set")),
        _ => panic!("a push needs a token"),
    }
    match push("img", "me/img:v1", Some("quay.io"), false, Some(&m), Some("T")).unwrap() {
        Verdict::Proceed(target) => assert_eq!(target.url(), "quay.io/me/img:v1"),
        Verdict::Report(_) => panic!("the push goes ahead"),
    }
}

#[test]
fn the_outcome_of_a_push_is_reported() {
    let target = image_ref("ghcr.io", "cirunlabs", "img", "v1");
    let done = push_outcome("img", &target, Ok(()), false).unwrap();
    assert!(done.success);
    assert_eq!(done.message, "Successfully pushed image img to ghcr.io/cirunlabs/img:v1");
    let failed = push_outcome("img", &target, Err(transfer_failed("push", false, "", "")), true).unwrap();
    assert!(!failed.success);
    assert_eq!(failed.message, "Failed to push image img: ORAS push failed");
    assert!(matches!(
        push_outcome("img", &target, Err(transfer_failed("push", false, "", "")), false),
        Err(Error::TransportFailed(_))
    ));
}

#[test]
fn an_upload_links_small_files_and_chunks_large_ones() {
    let mut config = config();
    config.chunking.oras_push_concurrency = Some(7);
    let m = manifest(
        &[
            ("base_image", "base.raw"),
            ("firmware", "hypervisor-fw"),
            ("ch_remote", "bin/ch-remote"),
            ("user-data", "user-data"),
        ],
        &[("os", "ubuntu"), ("arch", "amd64")],
    );
    let target = image_ref("ghcr.io", "cirunlabs", "img", "v1");
    let sizes = vec![Some(250 * MIB), Some(4 * MIB), Some(1), None];
    let up = push_to_oci_registry(&config, "/src", &m, &target, "TOKEN", true, &sizes, "/tmp/s", 77).unwrap();
    assert_eq!(up.scratch, "/tmp/s");
    // the scratch directory goes afterwards, whatever came of the upload
    assert_eq!(shown(&up.cleanup), vec!["rmdir /tmp/s"]);
    assert_eq!(
        shown(&up.steps),
        vec![
            "bootstrap full=false",
            "mkdir /tmp/s",
            "mkdir /tmp/s",
            "rm /tmp/s/hypervisor-fw",
            "link /src/hypervisor-fw /tmp/s/hypervisor-fw",
            "mkdir /tmp/s/bin",
            "rm /tmp/s/bin/ch-remote",
            "link /src/bin/ch-remote /tmp/s/bin/ch-remote",
        ]
    );
    assert_eq!(up.splits.len(), 1);
    assert_eq!(up.splits[0].source, "/src/base.raw");
    assert_eq!(up.splits[0].metadata.total_chunks, 3);
    assert_eq!(up.splits[0].metadata.total_size, 250 * MIB);
    let chunk_paths: Vec<&str> = up.splits[0].chunks.iter().map(|c| c.chunk_path.as_str()).collect();
    assert_eq!(
        chunk_paths,
        vec![
            "/tmp/s/base.raw.chunk.000",
            "/tmp/s/base.raw.chunk.001",
            "/tmp/s/base.raw.chunk.002"
        ]
    );
    assert_eq!(up.splits[0].chunks[2].chunk_size, 50 * MIB);
    assert_eq!(up.command.program, "/t/assets/oras");
    assert_eq!(
        up.command.args,
        vec![
            "push",
            "ghcr.io/cirunlabs/img:v1",
            "--username",
            "token",
            "--password",
            "TOKEN",
            "--artifact-type",
            "application/vnd.cirunlabs.meda.vm.v1",
            "--disable-path-validation",
            "--concurrency",
            "7",
            "--no-tty",
            "base.raw.chunk.000:application/vnd.cirunlabs.meda.base-image-chunk.v1",
            "base.raw.chunk.001:application/vnd.cirunlabs.meda.base-image-chunk.v1",
            "base.raw.chunk.002:application/vnd.cirunlabs.meda.base-image-chunk.v1",
            "hypervisor-fw:application/vnd.cirunlabs.meda.firmware.v1",
            "bin/ch-remote:application/vnd.cirunlabs.meda.ch-remote.v1",
            "--annotation",
            "meda.metadata.os=ubuntu",
            "--annotation",
            "meda.metadata.arch=amd64",
            "--annotation",
            "org.cirunlabs.meda.original-filename=base.raw",
            "--annotation",
            "org.cirunlabs.meda.chunked-files=base.raw",
            "--annotation",
            "meda.created=1234567890",
            "--annotation",
            "meda.name=img",
            "--annotation",
            "meda.tag=latest",
            "--annotation",
            "org.cirunlabs.meda.upload-time=77",
        ]
    );
    assert_eq!(push_scratch_dir("/tmp", 1700000002), "/tmp/meda-push-chunks-1700000002");
    assert_eq!(media("base_image", true), "application/vnd.cirunlabs.meda.base-image-chunk.v1");
    assert_eq!(media("x", false), "application/vnd.cirunlabs.meda.x.v1");
}

#[test]
fn an_upload_fails_if_a_file_cannot_be_split() {
    let mut config = config();
    config.chunking = ChunkingConfig {
        small_chunk_size: 0,
        ..ChunkingConfig::default()
    };
    let m = manifest(&[("base_image", "base.raw")], &[]);
    let target = image_ref("ghcr.io", "cirunlabs", "img", "v1");
    assert!(matches!(
        push_to_oci_registry(&config, "/src", &m, &target, "T", false, &vec![Some(200 * MIB)], "/s", 1),
        Err(Error::Other(_))
    ));
    // a file below the threshold needs no split
    let small = push_to_oci_registry(&config, "/src", &m, &target, "T", false, &vec![Some(5)], "/s", 1).unwrap();
    assert!(small.splits.is_empty());
    assert_eq!(small.command.args[11], "--verbose");
}
