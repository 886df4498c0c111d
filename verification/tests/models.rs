use cubic::error::Error;
use cubic::models::environment::{home_keys, Environment};
use cubic::models::image::{HashAlg, Image};
use cubic::models::port_forward::{HostIp, PortForward, Protocol};
use cubic::models::resource_allocator::{
    ResourceAllocator, GIB, MIB, MIN_CPUS, MIN_DISK, MIN_MEMORY,
};
use cubic::models::{Arch, DataSize, Instance, InstanceCertPaths, InstanceName, TargetInstancePath, UserName};
use cubic::platform::SystemMock;
use std::path::PathBuf;

#[test]
fn test_parse_amd64() {
    assert_eq!(Arch::from_str("amd64").unwrap(), Arch::AMD64);
}

#[test]
fn test_parse_arm64() {
    assert_eq!(Arch::from_str("arm64").unwrap(), Arch::ARM64);
}

#[test]
fn test_reject_unknown_arch() {
    assert!(matches!(
        Arch::from_str("mips"),
        Err(Error::UnknownArch(ref arch)) if arch == "mips"
    ));
}

#[test]
fn test_vendor_str() {
    assert_eq!(Arch::AMD64.as_vendor_str(), "amd64");
    assert_eq!(Arch::ARM64.as_vendor_str(), "arm64");
}

#[test]
fn test_canonical_str() {
    assert_eq!(Arch::AMD64.as_canonical_str(), "x86_64");
    assert_eq!(Arch::ARM64.as_canonical_str(), "aarch64");
}

#[test]
fn arch_test_to_string() {
    assert_eq!(Arch::AMD64.to_string(), "amd64");
    assert_eq!(Arch::ARM64.to_string(), "arm64");
}

#[test]
fn test_render_a_size() {
    assert_eq!(DataSize::new(0).to_size(), "0 B");
    assert_eq!(DataSize::new(1024_usize.pow(2)).to_size(), "1024 K");
    assert_eq!(DataSize::new(10 * 1024_usize.pow(2)).to_size(), "10 M");
    assert_eq!(DataSize::new(107 * 1024_usize.pow(3) / 10).to_size(), "11 G");
    assert_eq!(DataSize::new(9999).to_size(), "9999 B");
    assert_eq!(DataSize::new(10_000).to_size(), "10 K");
}

#[test]
fn a_size_that_rounds_to_five_digits_moves_one_unit_up() {
    assert_eq!(DataSize::new(10239488).to_size(), "10 M");
    assert_eq!(DataSize::new(10239487).to_size(), "9999 K");
}

#[test]
fn test_scales_the_value_to_another_unit() {
    let total = DataSize::new(100 * 1024_usize.pow(3));
    assert_eq!(DataSize::new(1024_usize.pow(3)).to_value_in(&total), 1);
    assert_eq!(DataSize::new(44 * 1024_usize.pow(3)).to_value_in(&total), 44);
}

#[test]
fn test_parse_a_size() {
    assert_eq!(DataSize::from_str("1B").unwrap().get_bytes(), 1);
    assert_eq!(DataSize::from_str("1K").unwrap().get_bytes(), 1024);
    assert_eq!(DataSize::from_str("1M").unwrap().get_bytes(), 1024_usize.pow(2));
    assert_eq!(DataSize::from_str("1G").unwrap().get_bytes(), 1024_usize.pow(3));
    assert_eq!(DataSize::from_str("1T").unwrap().get_bytes(), 1024_usize.pow(4));
}

#[test]
fn test_reject_an_invalid_size() {
    for input in ["10€", "€", "99999999999999999T", "10", ""] {
        assert!(DataSize::from_str(input).is_err(), "input {input}");
    }
}

#[test]
fn data_size_rounds_halves_up_and_names_the_error() {
    assert_eq!(DataSize::new(1536).to_size(), "1536 B");
    assert_eq!(DataSize::new(15 * 1024 + 512).to_size(), "16 K");
    assert_eq!(DataSize::new(15 * 1024 + 511).to_size(), "15 K");
    assert_eq!(DataSize::from_str("+2K").unwrap().get_bytes(), 2048);
    assert_eq!(
        DataSize::from_str("x").unwrap_err(),
        "Cannot parse data size 'x'. The input should be a number followed by a letter (B, K, M, G or T) for bytes, kilobytes, etc. Example: 1G for one gigabyte."
    );
}

#[test]
fn test_paths() {
    let env = Environment::new(
        UserName::from_str("testuser").unwrap(),
        "/data/cubic".to_string(),
        "/cache/cubic".to_string(),
        "/runtime/cubic".to_string(),
    );
    fn join_all(base: &str, segments: &[&str]) -> PathBuf {
        segments.iter().fold(PathBuf::from(base), |path, segment| path.join(segment))
    }
    assert_eq!(env.get_username().as_str(), "testuser");
    assert_eq!(env.get_cache_dir(), "/cache/cubic");
    assert_eq!(
        PathBuf::from(env.get_ssh_private_key_file("mymachine")),
        join_all("/data/cubic", &["machines", "mymachine", "ssh_client_key"])
    );
    assert_eq!(env.get_runtime_dir(), "/runtime/cubic");
    assert_eq!(PathBuf::from(env.get_instance_dir()), PathBuf::from("/data/cubic").join("machines"));
    assert_eq!(PathBuf::from(env.get_image_dir()), PathBuf::from("/cache/cubic").join("images"));
    assert_eq!(
        PathBuf::from(env.get_image_file("debian_bookworm_amd64")),
        join_all("/cache/cubic", &["images", "debian_bookworm_amd64"])
    );
    assert_eq!(PathBuf::from(env.get_image_cache_file()), PathBuf::from("/cache/cubic").join("images.cache"));
    assert_eq!(PathBuf::from(env.get_instance_dir2("mymachine")), join_all("/data/cubic", &["machines", "mymachine"]));
    assert_eq!(
        PathBuf::from(env.get_instance_yaml_config_file("mymachine")),
        join_all("/data/cubic", &["machines", "mymachine", "machine.yaml"])
    );
    assert_eq!(
        PathBuf::from(env.get_instance_toml_config_file("mymachine")),
        join_all("/data/cubic", &["machines", "mymachine", "instance.toml"])
    );
    assert_eq!(
        PathBuf::from(env.get_instance_image_file("mymachine")),
        join_all("/data/cubic", &["machines", "mymachine", "machine.img"])
    );
    assert_eq!(PathBuf::from(env.get_instance_cache_dir("mymachine")), join_all("/cache/cubic", &["instances", "mymachine"]));
    assert_eq!(
        PathBuf::from(env.get_user_data_image_file("mymachine")),
        join_all("/cache/cubic", &["instances", "mymachine", "user-data.img"])
    );
    assert_eq!(PathBuf::from(env.get_instance_runtime_dir("mymachine")), join_all("/runtime/cubic", &["instances", "mymachine"]));
    assert_eq!(
        PathBuf::from(env.get_qemu_pid_file("mymachine")),
        join_all("/runtime/cubic", &["instances", "mymachine", "qemu.pid"])
    );
}

#[test]
fn home_ssh_keys_are_private_keys_of_both_homes() {
    let env = Environment::default();
    let system = SystemMock::new()
        .add_env_var("HOME", "/home/tux")
        .add_dir("/home/tux/.ssh")
        .add_file("/home/tux/.ssh/id_ed25519", b"k")
        .add_file("/home/tux/.ssh/id_ed25519.pub", b"p")
        .add_file("/home/tux/.ssh/known_hosts", b"h");
    assert_eq!(env.get_home_ssh_private_key_paths(&system), vec!["/home/tux/.ssh/id_ed25519".to_string()]);
}

#[test]
fn home_ssh_keys_of_the_snap_home_come_first() {
    let env = Environment::default();
    let system = SystemMock::new()
        .add_env_var("HOME", "/home/tux")
        .add_env_var("SNAP_REAL_HOME", "/real/tux")
        .add_file("/home/tux/.ssh/id_rsa", b"k")
        .add_file("/real/tux/.ssh/id_ed25519", b"k");
    assert_eq!(
        env.get_home_ssh_private_key_paths(&system),
        vec!["/real/tux/.ssh/id_ed25519".to_string(), "/home/tux/.ssh/id_rsa".to_string()]
    );
}

#[test]
fn home_keys_join_both_listings_in_order() {
    let snap = Some(vec!["/a/.ssh/id_x".to_string(), "/a/.ssh/id_x.pub".to_string()]);
    let home = Some(vec!["/b/.ssh/config".to_string(), "/b/.ssh/id_y".to_string()]);
    assert_eq!(
        home_keys(snap, home),
        vec!["/a/.ssh/id_x".to_string(), "/b/.ssh/id_y".to_string()]
    );
    assert_eq!(home_keys(None, Some(vec!["/b/.ssh/id_y".to_string()])), vec!["/b/.ssh/id_y".to_string()]);
    assert!(home_keys(None, None).is_empty());
}

fn build_image(vendor: &str, names: &[&str]) -> Image {
    Image {
        vendor: vendor.to_string(),
        names: names.iter().map(|name| name.to_string()).collect(),
        arch: Arch::AMD64,
        image_url: String::new(),
        checksum_url: String::new(),
        hash_alg: HashAlg::Sha512,
        size: None,
    }
}

#[test]
fn test_get_version_is_first_name() {
    assert_eq!(build_image("debian", &["12", "bookworm"]).get_version(), "12");
}

#[test]
fn test_get_name_prefers_second_name() {
    assert_eq!(build_image("debian", &["12", "bookworm"]).get_name(), "bookworm");
}

#[test]
fn test_get_name_falls_back_to_single_name() {
    assert_eq!(build_image("debian", &["bookworm"]).get_name(), "bookworm");
}

#[test]
fn test_get_image_names_joins_multiple_names() {
    assert_eq!(build_image("debian", &["12", "bookworm"]).get_image_names(), "debian:{12, bookworm}");
}

#[test]
fn test_get_image_names_with_single_name() {
    assert_eq!(build_image("debian", &["bookworm"]).get_image_names(), "debian:bookworm");
}

#[test]
fn test_to_name_uses_version_and_arch() {
    assert_eq!(build_image("debian", &["12", "bookworm"]).to_name(), "debian:12:amd64");
}

#[test]
fn test_to_file_name_uses_name_and_arch() {
    assert_eq!(build_image("debian", &["12", "bookworm"]).to_file_name(), "debian_bookworm_amd64");
}

#[test]
fn test_ord_compares_numeric_versions_numerically() {
    assert!(build_image("debian", &["10"]) > build_image("debian", &["9"]));
}

#[test]
fn test_ord_falls_back_to_lexical_comparison() {
    assert!(build_image("ubuntu", &["noble"]) > build_image("ubuntu", &["jammy"]));
}

#[test]
fn test_ord_compares_vendor_first() {
    assert!(build_image("alma", &["9"]) < build_image("debian", &["1"]));
}

#[test]
fn image_order_is_antisymmetric_on_examples() {
    let a = build_image("debian", &["9"]);
    let b = build_image("debian", &["10"]);
    assert_eq!(a.cmp(&b), std::cmp::Ordering::Less);
    assert_eq!(b.cmp(&a), std::cmp::Ordering::Greater);
    assert_eq!(a.cmp(&a), std::cmp::Ordering::Equal);
    assert_eq!(HashAlg::Sha256.to_string(), "sha256");
}

#[test]
fn test_load_builds_paths_in_instance_dir() {
    let paths = InstanceCertPaths::load("/data/machines/test");
    assert_eq!(paths.ca_cert, "/data/machines/test/ca-cert.pem");
    assert_eq!(paths.server_cert, "/data/machines/test/server-cert.pem");
    assert_eq!(paths.server_key, "/data/machines/test/server-key.pem");
    assert_eq!(paths.client_cert, "/data/machines/test/client-cert.pem");
    assert_eq!(paths.client_key, "/data/machines/test/client-key.pem");
}

#[test]
fn instance_name_test_accept_a_valid_name() {
    for input in ["foobar", "12345", "_", "-", "10foo-bar_5", "café"] {
        InstanceName::from_str(input).unwrap();
    }
}

#[test]
fn instance_name_test_reject_an_invalid_name() {
    assert!(InstanceName::from_str("foo/bar").is_err());
    assert!(InstanceName::from_str("/abs/path").is_err());
    assert!(InstanceName::from_str("").is_err());
}

#[test]
fn test_reject_path_traversal() {
    assert!(InstanceName::from_str("../../etc").is_err());
}

#[test]
fn user_name_test_accept_a_valid_name() {
    UserName::from_str("tux").unwrap();
    UserName::from_str("_tux").unwrap();
    UserName::from_str("tux-01_x").unwrap();
}

#[test]
fn user_name_test_reject_an_invalid_name() {
    assert!(UserName::from_str("1tux").is_err());
    assert!(UserName::from_str("-tux").is_err());
    assert!(UserName::from_str("").is_err());
    assert!(UserName::from_str("bad name").is_err());
    assert!(UserName::from_str("tux\nroot").is_err());
    assert!(UserName::from_str("tux\n  - name: root").is_err());
    assert!(UserName::from_str("Tux").is_err());
}

#[test]
fn user_name_from_stored_falls_back_to_default() {
    assert_eq!(UserName::from_stored("bad name").as_str(), "cubic");
    assert_eq!(UserName::from_stored("tux").as_str(), "tux");
    assert!(matches!(UserName::from_str("Tux"), Err(Error::InvalidUsername(n)) if n == "Tux"));
}

#[test]
fn test_read_from_host_uses_the_host_totals() {
    let system = SystemMock::new().set_host_resources((16 * GIB) as u64, (16 * GIB) as u64, 16);
    let (cpus, mem) = ResourceAllocator::read_from_host(&system).get_default_resources();
    assert_eq!(cpus, 6);
    assert_eq!(mem.get_bytes(), 3 * GIB);
}

#[test]
fn test_get_default_resources() {
    for (host_gib, threads, cpus, mem) in [
        (8, 8, 2, GIB),
        (12, 12, 4, 2 * GIB),
        (16, 16, 6, 3 * GIB),
        (20, 20, 8, 4 * GIB),
        (23, 23, 8, 4 * GIB),
        (24, 24, 10, 5 * GIB),
        (28, 28, 12, 6 * GIB),
        (32, 32, 14, 7 * GIB),
        (36, 36, 16, 8 * GIB),
        (35, 35, 14, 7 * GIB),
        (40, 40, 18, 9 * GIB),
        (80, 80, 38, 19 * GIB),
        (8, 64, 2, GIB),
        (64, 8, 2, GIB),
        (4, 4, 1, 512 * MIB),
        (1, 1, 1, 512 * MIB),
    ] {
        let allocator = ResourceAllocator::new(host_gib * GIB, threads);
        let expected = (cpus, DataSize::new(mem));
        assert_eq!(allocator.get_default_resources(), expected, "{host_gib} GiB");
    }
}

#[test]
fn test_get_resources_for_budget() {
    for (available, expected) in [
        (5 * GIB, Some((8, DataSize::new(4 * GIB)))),
        (3 * GIB + 512 * MIB, Some((4, DataSize::new(2 * GIB)))),
        (GIB + 512 * MIB, Some((1, DataSize::new(512 * MIB)))),
        (GIB, None),
        (0, None),
    ] {
        let resources = ResourceAllocator::get_resources_for_budget(available);
        assert_eq!(resources, expected, "available {available}");
    }
}

#[test]
fn test_enforce_minimums_raises_values_below_the_floor() {
    let mut cpus = 0;
    let mut mem = DataSize::new(0);
    let mut disk = DataSize::new(0);
    let warnings = ResourceAllocator::enforce_minimums(&mut cpus, &mut mem, &mut disk);
    assert_eq!(cpus, MIN_CPUS);
    assert_eq!(mem.get_bytes(), MIN_MEMORY);
    assert_eq!(disk.get_bytes(), MIN_DISK);
    assert_eq!(warnings.len(), 3);
}

#[test]
fn test_enforce_minimums_leaves_valid_values_untouched() {
    let mut cpus = 4;
    let mut mem = DataSize::new(4 * GIB);
    let mut disk = DataSize::new(50 * GIB);
    let warnings = ResourceAllocator::enforce_minimums(&mut cpus, &mut mem, &mut disk);
    assert_eq!(cpus, 4);
    assert_eq!(mem.get_bytes(), 4 * GIB);
    assert_eq!(disk.get_bytes(), 50 * GIB);
    assert!(warnings.is_empty());
}

#[test]
fn test_enforce_minimums_raises_only_the_values_that_are_too_low() {
    let mut cpus = 0;
    let mut mem = DataSize::new(4 * GIB);
    let mut disk = DataSize::new(50 * GIB);
    let warnings = ResourceAllocator::enforce_minimums(&mut cpus, &mut mem, &mut disk);
    assert_eq!(cpus, MIN_CPUS);
    assert_eq!(mem.get_bytes(), 4 * GIB);
    assert_eq!(disk.get_bytes(), 50 * GIB);
    assert_eq!(warnings.len(), 1);
}

#[test]
fn test_enforce_minimums_accepts_a_value_exactly_at_the_floor() {
    let mut cpus = MIN_CPUS;
    let mut mem = DataSize::new(MIN_MEMORY);
    let mut disk = DataSize::new(MIN_DISK);
    let warnings = ResourceAllocator::enforce_minimums(&mut cpus, &mut mem, &mut disk);
    assert_eq!(cpus, MIN_CPUS);
    assert_eq!(mem.get_bytes(), MIN_MEMORY);
    assert_eq!(disk.get_bytes(), MIN_DISK);
    assert!(warnings.is_empty());
}

#[test]
fn enforce_minimums_twice_changes_nothing_more() {
    let mut cpus = 0;
    let mut mem = DataSize::new(0);
    let mut disk = DataSize::new(GIB / 2);
    let first = ResourceAllocator::enforce_minimums(&mut cpus, &mut mem, &mut disk);
    assert_eq!(first[0], "CPUs raised from 0 to 1 (minimum usable value).");
    assert_eq!(first[1], "Memory raised from 0 B to 512 M (minimum usable value).");
    assert_eq!(first[2], "Disk raised from 512 M to 1024 M (minimum usable value).");
    let second = ResourceAllocator::enforce_minimums(&mut cpus, &mut mem, &mut disk);
    assert!(second.is_empty());
    assert_eq!((cpus, mem.get_bytes(), disk.get_bytes()), (MIN_CPUS, MIN_MEMORY, MIN_DISK));
}

#[test]
fn default_resources_keep_half_a_gib_per_cpu() {
    for gib in [8usize, 16, 40, 80] {
        let (cpus, mem) = ResourceAllocator::new(gib * GIB, gib as u16).get_default_resources();
        assert_eq!(mem.get_bytes() * 2, cpus as usize * GIB);
        assert!((cpus as usize) * 2 < gib);
        assert!(mem.get_bytes() * 4 < gib * GIB);
    }
    assert!(ResourceAllocator::disk_space_low(Some(1)));
    assert!(!ResourceAllocator::disk_space_low(None));
}

fn parse(input: &str) -> String {
    PortForward::from_str(input).unwrap().to_string()
}

fn parse_qemu(input: &str) -> String {
    PortForward::from_qemu(input).unwrap().to_string()
}

#[test]
fn test_parse_a_forward() {
    assert_eq!(parse("1000:10"), "127.0.0.1:1000:10/tcp");
    assert_eq!(parse("127.0.0.1:2000:20"), "127.0.0.1:2000:20/tcp");
    assert_eq!(parse("3000:30/udp"), "127.0.0.1:3000:30/udp");
    assert_eq!(parse("4000:40/tcp"), "127.0.0.1:4000:40/tcp");
    assert_eq!(parse("0.0.0.0:5000:50/udp"), "0.0.0.0:5000:50/udp");
    assert_eq!(parse("192.168.0.1:6000:60/tcp"), "192.168.0.1:6000:60/tcp");
}

#[test]
fn test_parse_a_qemu_forward() {
    assert_eq!(parse_qemu("::1000-:10"), "127.0.0.1:1000:10/tcp");
    assert_eq!(parse_qemu(":127.0.0.1:2000-:20"), "127.0.0.1:2000:20/tcp");
    assert_eq!(parse_qemu("udp::3000-:30"), "127.0.0.1:3000:30/udp");
    assert_eq!(parse_qemu("tcp::4000-:40"), "127.0.0.1:4000:40/tcp");
    assert_eq!(parse_qemu("udp:0.0.0.0:5000-:50"), "0.0.0.0:5000:50/udp");
    assert_eq!(parse_qemu("tcp:192.168.0.1:6000-:60"), "192.168.0.1:6000:60/tcp");
}

#[test]
fn test_reject_an_invalid_forward() {
    assert!(PortForward::from_str("abc").is_err());
    assert!(PortForward::from_str("99999:80").is_err());
    assert!(PortForward::from_str("999.0.0.1:8000:80").is_err());
    assert!(PortForward::from_qemu("garbage").is_err());
    assert!(PortForward::from_qemu("tcp:127.0.0.1:8000-:99999").is_err());
    assert!(Protocol::from_str("sctp").is_err());
}

#[test]
fn forward_renders_in_both_formats() {
    let local = PortForward::new(HostIp::V4(127, 0, 0, 1), 1000, 10, Protocol::Tcp);
    assert_eq!(local.to_string(), "127.0.0.1:1000:10/tcp");
    assert_eq!(local.to_qemu(), "tcp:127.0.0.1:1000-:10");
    let any = PortForward::new(HostIp::V4(0, 0, 0, 0), 5000, 50, Protocol::Udp);
    assert_eq!(any.to_qemu(), "udp:0.0.0.0:5000-:50");
    let back = PortForward::from_qemu(&any.to_qemu()).unwrap();
    assert_eq!(back, any);
    assert!(cubic::models::port_forward::parse_ip("127.0.0.01").is_none());
    assert_eq!(cubic::models::port_forward::parse_ip("10.1.2.3"), Some(HostIp::V4(10, 1, 2, 3)));
}

fn build_path(user: Option<&str>, instance_user: Option<&str>, path: &str) -> String {
    TargetInstancePath {
        user: user.map(str::to_string),
        instance: instance_user.map(|name| Instance {
            user: UserName::from_str(name).unwrap(),
            ..Instance::default()
        }),
        path: path.to_string(),
    }
    .to_pathbuf()
}

#[test]
fn test_expand_a_tilde() {
    assert_eq!(build_path(None, None, "a/b/c"), "a/b/c");
    assert_eq!(build_path(None, None, "~/a/b/c"), "~/a/b/c");
    assert_eq!(build_path(Some("tux"), None, "~"), "/home/tux");
    assert_eq!(build_path(Some("tux"), None, "~/a/b/c"), "/home/tux/a/b/c");
    assert_eq!(build_path(None, Some("root"), "~/a/b/c"), "/home/root/a/b/c");

    // The name given on the command line wins over the instance one.
    let path = build_path(Some("tux"), Some("root"), "~/a/b/c");
    assert_eq!(path, "/home/tux/a/b/c");
}

#[test]
fn has_snapshot_finds_a_snapshot_by_name() {
    let instance = Instance { snapshots: vec!["before-upgrade".to_string()], ..Instance::default() };
    assert!(instance.has_snapshot("before-upgrade"));
    assert!(!instance.has_snapshot("after"));
    assert!(!Instance::default().has_snapshot("before-upgrade"));
    assert_eq!(Instance::default().user.as_str(), "cubic");
}

#[test]
fn test_render_a_forward() {
    let local = PortForward::new(HostIp::V4(127, 0, 0, 1), 1000, 10, Protocol::Tcp);
    assert_eq!(local.to_string(), "127.0.0.1:1000:10/tcp");
    assert_eq!(local.to_qemu(), "tcp:127.0.0.1:1000-:10");

    let udp = PortForward::new(HostIp::V4(127, 0, 0, 1), 3000, 30, Protocol::Udp);
    assert_eq!(udp.to_string(), "127.0.0.1:3000:30/udp");
    assert_eq!(udp.to_qemu(), "udp:127.0.0.1:3000-:30");

    let any = PortForward::new(HostIp::V4(0, 0, 0, 0), 5000, 50, Protocol::Udp);
    assert_eq!(any.to_string(), "0.0.0.0:5000:50/udp");
    assert_eq!(any.to_qemu(), "udp:0.0.0.0:5000-:50");

    let lan = PortForward::new(HostIp::V4(192, 168, 0, 1), 6000, 60, Protocol::Tcp);
    assert_eq!(lan.to_string(), "192.168.0.1:6000:60/tcp");
    assert_eq!(lan.to_qemu(), "tcp:192.168.0.1:6000-:60");
}

#[test]
fn a_decimal_reads_back_as_its_number() {
    for n in [0u64, 7, 10, 255, 65535, u64::MAX] {
        let text = cubic::text::decimal_string(n);
        assert_eq!(cubic::text::parse_unsigned_text(&text, n), Some(n));
    }
    assert_eq!(cubic::text::decimal_string(1234), "1234");
}
