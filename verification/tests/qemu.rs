use cubic::error::Error;
use cubic::models::Arch;
use cubic::platform::SystemMock;
use cubic::qemu::qemu_firmware_descriptor::QemuFirmwareDescriptor;
use cubic::qemu::qemu_path_builder::split_path_var;
use cubic::qemu::{FirmwareFinder, QemuImg, QemuAcceleratorProbe, QemuFirmware, QemuInstall, QemuPathBuilder, QemuSystem};

const FIRMWARE: &str = "/usr/share/qemu/OVMF.fd";

fn build_probe(arch: Arch) -> QemuAcceleratorProbe {
    QemuAcceleratorProbe::new(arch, FIRMWARE, None, None)
}

fn build_probe_command(arch: Arch, accel: &str) -> String {
    let system = SystemMock::new();
    build_probe(arch).build_command(&system, accel).unwrap().get_command()
}

fn build_descriptor(arch: &str, machine: &str, code: &str, features: &str) -> String {
    format!(
        r#"{{
          "description": "test",
          "interface-types": ["uefi"],
          "mapping": {{
            "device": "flash",
            "executable": {{ "filename": "{code}", "format": "raw" }},
            "nvram-template": {{ "filename": "/x/VARS.fd", "format": "raw" }}
          }},
          "targets": [{{ "architecture": "{arch}", "machines": ["{machine}"] }}],
          "features": [{features}],
          "tags": []
        }}"#
    )
}

fn build_descriptor_with_code(code: &str) -> QemuFirmwareDescriptor {
    QemuFirmwareDescriptor::parse(&build_descriptor("x86_64", "pc-q35-8.0", code, "")).unwrap()
}

#[test]
fn test_ovmf_candidates_snap_is_first() {
    let candidates = FirmwareFinder::new(Arch::AMD64, Some("/snap/cubic/current")).candidates(None);
    assert_eq!(candidates[0], "/snap/cubic/current/usr/share/OVMF/OVMF_CODE_4M.fd");
}

#[test]
fn test_ovmf_candidates_qemu_share_before_system() {
    let candidates = FirmwareFinder::new(Arch::AMD64, None).candidates(Some("/opt/homebrew/share/qemu"));
    let qemu_pos = candidates
        .iter()
        .position(|p| p.starts_with("/opt/homebrew/share/qemu"))
        .unwrap();
    let debian_pos = candidates
        .iter()
        .position(|p| p == "/usr/share/OVMF/OVMF_CODE_4M.fd")
        .unwrap();
    assert!(qemu_pos < debian_pos);
}

#[test]
fn test_ovmf_candidates_all_platforms_present() {
    let paths = FirmwareFinder::new(Arch::AMD64, None).candidates(None);
    assert!(paths.iter().any(|p| p.contains("/usr/share/OVMF/")), "Debian/Ubuntu missing");
    assert!(paths.iter().any(|p| p.contains("/usr/share/edk2/")), "Fedora missing");
    assert!(paths.iter().any(|p| p.contains("/usr/share/edk2/x64/")), "Arch missing");
    assert!(paths.iter().any(|p| p.contains("/usr/share/qemu/ovmf")), "openSUSE missing");
    assert!(paths.iter().any(|p| p.contains("/opt/homebrew/")), "Homebrew Apple Silicon missing");
    assert!(paths.iter().any(|p| p.contains("/usr/local/")), "Homebrew Intel missing");
    assert!(paths.iter().any(|p| p.contains("linuxbrew")), "Linux Homebrew non-root missing");
    assert!(paths.iter().any(|p| p.contains("Program Files/QEMU")), "Windows missing");
}

#[test]
fn test_arm_candidates_snap_is_first() {
    let candidates = FirmwareFinder::new(Arch::ARM64, Some("/snap/cubic/current")).candidates(None);
    assert_eq!(candidates[0], "/snap/cubic/current/usr/share/AAVMF/AAVMF_CODE.fd");
}

#[test]
fn test_arm_candidates_all_platforms_present() {
    let paths = FirmwareFinder::new(Arch::ARM64, None).candidates(None);
    assert!(paths.iter().any(|p| p.contains("AAVMF")), "Debian/Ubuntu missing");
    assert!(paths.iter().any(|p| p.contains("/usr/share/edk2/aarch64")), "Fedora missing");
    assert!(paths.iter().any(|p| p.contains("edk2-armvirt")), "Arch missing");
    assert!(paths.iter().any(|p| p.contains("/opt/homebrew/")), "Homebrew Apple Silicon missing");
    assert!(paths.iter().any(|p| p.contains("/usr/local/")), "Homebrew Intel missing");
    assert!(paths.iter().any(|p| p.contains("linuxbrew")), "Linux Homebrew non-root missing");
    assert!(paths.iter().any(|p| p.contains("Program Files/QEMU")), "Windows missing");
}

#[test]
fn test_get_enable_hints_asks_a_snap_to_connect_the_interface_first() {
    let system = SystemMock::new().add_env_var("SNAP", "/snap/cubic/current");
    let hints = QemuAcceleratorProbe::get_enable_hints(&system);
    assert_eq!(hints.len(), 2);
    assert!(hints[0].contains("snap connect cubic:kvm"));
}

#[test]
fn test_get_enable_hints_names_the_platform_alone_off_snap() {
    let hints = QemuAcceleratorProbe::get_enable_hints(&SystemMock::new());
    assert_eq!(hints.len(), 1);
    assert!(!hints[0].contains("snap"));
}

#[test]
fn test_detect_accepts_an_accelerator_that_comes_up() {
    let mut system = SystemMock::new().add_command_output(&build_probe_command(Arch::AMD64, "kvm"), b"");
    assert!(build_probe(Arch::AMD64).detect(&mut system, "kvm").is_ok());
}

#[test]
fn test_detect_reports_what_qemu_said() {
    let mut system = SystemMock::new().add_failing_command(&build_probe_command(Arch::AMD64, "kvm"), "no kvm");
    assert_eq!(build_probe(Arch::AMD64).detect(&mut system, "kvm"), Err("no kvm".to_string()));
}

#[test]
fn test_detect_names_a_qemu_that_says_nothing() {
    let mut system = SystemMock::new().add_failing_command(&build_probe_command(Arch::AMD64, "kvm"), "  ");
    assert_eq!(
        build_probe(Arch::AMD64).detect(&mut system, "kvm"),
        Err("QEMU did not come up".to_string())
    );
}

#[test]
fn test_detect_probes_the_binary_of_the_arch() {
    let mut system = SystemMock::new();
    build_probe(Arch::ARM64).detect(&mut system, "kvm").ok();
    assert!(system.get_executed_commands()[0].starts_with("qemu-system-aarch64 -machine virt"));
}

#[test]
fn test_detect_probes_with_the_firmware_of_the_start() {
    let mut system = SystemMock::new();
    build_probe(Arch::AMD64).detect(&mut system, "kvm").ok();
    assert!(system.get_executed_commands()[0].contains(&format!("-drive if=pflash,readonly=on,file={FIRMWARE}")));
}

#[test]
fn test_detect_asks_qemu_to_report_that_the_machine_is_up() {
    let mut system = SystemMock::new();
    build_probe(Arch::AMD64).detect(&mut system, "kvm").ok();
    assert!(system.get_executed_commands()[0].ends_with("-qmp stdio"));
}

#[test]
fn test_detect_probes_with_the_data_dir_of_the_install() {
    let mut system = SystemMock::new();
    QemuAcceleratorProbe::new(Arch::AMD64, FIRMWARE, Some("/usr/lib/qemu"), Some("/usr/share/qemu"))
        .detect(&mut system, "kvm")
        .ok();
    assert!(system.get_executed_commands()[0].contains("-L /usr/share/qemu"));
}

#[test]
fn describe_failure_names_a_missing_qemu() {
    let message = QemuAcceleratorProbe::describe_failure(Error::SystemCommandNotFound("qemu".to_string()));
    assert!(!message.is_empty());
    assert_ne!(message, "qemu");
}

#[test]
fn test_module_dir_candidates_cover_lib_layouts() {
    let install = QemuInstall { prefix: "/snap/cubic/current/usr".to_string() };
    let candidates = install.build_module_dir_candidates(&SystemMock::new());
    assert_eq!(
        candidates,
        vec![
            "/snap/cubic/current/usr/lib/qemu".to_string(),
            "/snap/cubic/current/usr/lib64/qemu".to_string(),
        ]
    );
}

#[test]
fn module_dir_candidates_put_the_triplet_dir_first() {
    let system = SystemMock::new().add_dir("/usr/lib/x86_64-linux-gnu/qemu");
    let install = QemuInstall { prefix: "/usr".to_string() };
    let candidates = install.build_module_dir_candidates(&system);
    assert_eq!(
        candidates,
        vec![
            "/usr/lib/x86_64-linux-gnu/qemu".to_string(),
            "/usr/lib/qemu".to_string(),
            "/usr/lib64/qemu".to_string(),
        ]
    );
}

#[test]
fn test_locate_trusts_override_env_var_without_scanning_dirs() {
    let system = SystemMock::new().add_env_var("CUBIC_QEMU_FW_AMD64", "/custom/fw.bin");
    let firmware = QemuFirmware::locate(&system, &vec![], Arch::AMD64);
    assert_eq!(firmware, Some("/custom/fw.bin".to_string()));
}

#[test]
fn test_locate_returns_none_when_no_override_and_no_install_found() {
    let system = SystemMock::new();
    let firmware = QemuFirmware::locate(&system, &vec![], Arch::AMD64);
    assert_eq!(firmware, None);
}

#[test]
fn locate_reads_the_code_of_a_matching_descriptor() {
    let descriptor = build_descriptor("x86_64", "pc-q35-8.0", "/usr/share/OVMF/OVMF_CODE.fd", "");
    let system = SystemMock::new()
        .add_file("/usr/bin/qemu-system-x86_64", b"")
        .add_file("/usr/share/qemu/firmware/60-ovmf.json", descriptor.as_bytes())
        .add_file("/usr/share/OVMF/OVMF_CODE.fd", b"code");
    let firmware = QemuFirmware::locate(&system, &vec!["/usr/bin".to_string()], Arch::AMD64);
    assert_eq!(firmware, Some("/usr/share/OVMF/OVMF_CODE.fd".to_string()));
}

#[test]
fn test_build_descriptor_dirs_prefers_xdg_config_home_over_home() {
    let system = SystemMock::new().add_env_var("XDG_CONFIG_HOME", "/xdg").add_env_var("HOME", "/home/user");
    let install = QemuInstall { prefix: "/prefix".to_string() };
    let dirs = install.build_descriptor_dirs(&system);
    assert_eq!(dirs.first(), Some(&"/xdg/qemu/firmware".to_string()));
}

#[test]
fn test_build_descriptor_dirs_falls_back_to_home() {
    let system = SystemMock::new().add_env_var("HOME", "/home/user");
    let install = QemuInstall { prefix: "/prefix".to_string() };
    let dirs = install.build_descriptor_dirs(&system);
    assert_eq!(dirs.first(), Some(&"/home/user/.config/qemu/firmware".to_string()));
}

#[test]
fn test_parse_descriptor() {
    let json = build_descriptor("x86_64", "pc-q35-8.0", "/fw/OVMF_CODE.fd", "");
    let parsed = QemuFirmwareDescriptor::parse(&json).unwrap();
    assert_eq!(parsed.mapping.device, "flash");
    assert_eq!(parsed.mapping.executable.filename, "/fw/OVMF_CODE.fd");
    assert!(parsed.interface_types.iter().any(|i| i == "uefi"));
    assert_eq!(parsed.targets[0].architecture, "x86_64");
    assert_eq!(parsed.targets[0].machines[0], "pc-q35-8.0");
}

#[test]
fn parse_rejects_a_descriptor_without_mapping() {
    assert!(QemuFirmwareDescriptor::parse(r#"{ "interface-types": ["uefi"] }"#).is_none());
    assert!(QemuFirmwareDescriptor::parse("not json").is_none());
}

#[test]
fn test_matches_plain_amd64() {
    let plain = QemuFirmwareDescriptor::parse(&build_descriptor("x86_64", "pc-q35-8.0", "/c", "")).unwrap();
    assert!(plain.matches(Arch::AMD64));
    assert!(!plain.matches(Arch::ARM64));
}

#[test]
fn test_matches_plain_descriptor_advertising_amd_sev() {
    let plain = QemuFirmwareDescriptor::parse(&build_descriptor(
        "x86_64",
        "pc-q35-8.0",
        "/c",
        "\"acpi-s3\", \"amd-sev\", \"amd-sev-es\", \"verbose-dynamic\"",
    ))
    .unwrap();
    assert!(plain.matches(Arch::AMD64));
}

#[test]
fn test_matches_rejects_non_q35_bios_and_secure_boot() {
    let i440fx = QemuFirmwareDescriptor::parse(&build_descriptor("x86_64", "pc-i440fx-8.0", "/c", "")).unwrap();
    assert!(!i440fx.matches(Arch::AMD64));

    let secure =
        QemuFirmwareDescriptor::parse(&build_descriptor("x86_64", "pc-q35-8.0", "/c", "\"secure-boot\"")).unwrap();
    assert!(!secure.matches(Arch::AMD64));

    let bios = QemuFirmwareDescriptor::parse(
        r#"{ "interface-types": ["bios"],
             "mapping": { "device": "flash", "executable": { "filename": "/c" } },
             "targets": [{ "architecture": "x86_64", "machines": ["pc-q35-8.0"] }] }"#,
    )
    .unwrap();
    assert!(!bios.matches(Arch::AMD64));
}

#[test]
fn test_matches_rejects_sev_and_tdx_specific() {
    for feature in ["amd-sev-snp", "intel-tdx", "requires-smm"] {
        let descriptor = QemuFirmwareDescriptor::parse(&build_descriptor(
            "x86_64",
            "pc-q35-8.0",
            "/c",
            &format!("\"{feature}\""),
        ))
        .unwrap();
        assert!(!descriptor.matches(Arch::AMD64), "{feature} should reject");
    }
}

#[test]
fn test_build_code_path_maps_absolute_onto_prefix() {
    assert_eq!(
        build_descriptor_with_code("/usr/share/OVMF/OVMF_CODE_4M.fd").build_code_path("/snap/cubic/current/usr"),
        "/snap/cubic/current/usr/share/OVMF/OVMF_CODE_4M.fd"
    );
}

#[test]
fn test_build_code_path_maps_relative_onto_prefix() {
    assert_eq!(
        build_descriptor_with_code("share/qemu/edk2-x86_64-code.fd").build_code_path("/opt/qemu"),
        "/opt/qemu/share/qemu/edk2-x86_64-code.fd"
    );
}

#[test]
fn test_build_code_path_without_share_segment_is_identity() {
    assert_eq!(
        build_descriptor_with_code("/custom/OVMF_CODE.fd").build_code_path("/opt/qemu"),
        "/custom/OVMF_CODE.fd"
    );
}

#[test]
fn test_new_from_dirs_keeps_order_and_drops_duplicates() {
    let builder = QemuPathBuilder::new_from_dirs(["/a", "/b", "/a", "/c", "/b"].map(String::from).to_vec());
    assert_eq!(builder.get_dirs(), &["/a", "/b", "/c"].map(String::from).to_vec());
}

#[test]
fn test_build_round_trips_through_path() {
    let builder = QemuPathBuilder::new_from_dirs(["/a", "/b", "/c"].map(String::from).to_vec());
    let joined = builder.build();
    assert_eq!(joined, "/a:/b:/c");
    assert_eq!(&split_path_var(&joined), builder.get_dirs());
}

#[test]
fn path_builder_starts_with_the_override_then_the_path() {
    let system = SystemMock::new().add_env_var("CUBIC_QEMU_DIR", "/qemu").add_env_var("PATH", "/bin:/usr/bin");
    let dirs = QemuPathBuilder::new(&system).get_dirs().clone();
    assert_eq!(dirs[0], "/qemu");
    assert_eq!(dirs[1], "/bin");
    assert_eq!(dirs[2], "/usr/bin");
    assert_eq!(dirs.iter().filter(|d| d.as_str() == "/usr/bin").count(), 1);
}

#[test]
fn qemu_system_test_map_error_translates_not_found() {
    assert!(matches!(
        QemuSystem::map_error(Error::SystemCommandNotFound("qemu-system-x86_64".to_string())),
        Error::QemuNotFound
    ));
}

#[test]
fn qemu_system_test_map_error_passes_other_errors_through() {
    assert!(matches!(
        QemuSystem::map_error(Error::SystemCommandFailed("cmd".to_string(), "boom".to_string())),
        Error::SystemCommandFailed(..)
    ));
}

#[test]
fn test_add_datadir_appends_dash_l() {
    let mut qemu = QemuSystem::from(&SystemMock::new(), Arch::AMD64).unwrap();
    qemu.add_datadir("/snap/cubic/current/usr/share/qemu");
    assert!(qemu.get_command().contains("-L /snap/cubic/current/usr/share/qemu"));
}

#[test]
fn test_from_suppresses_emulated_default_devices() {
    let qemu = QemuSystem::from(&SystemMock::new(), Arch::AMD64).unwrap();
    let command = qemu.get_command();
    assert!(command.contains("-nodefaults"));
    assert!(!command.contains("-vga none"));
}

#[test]
fn test_from_adds_virtio_rng_with_builtin_backend() {
    let qemu = QemuSystem::from(&SystemMock::new(), Arch::AMD64).unwrap();
    let command = qemu.get_command();
    assert!(command.contains("rng-builtin,id=rng0"));
    assert!(command.contains("virtio-rng-pci,rng=rng0"));
}

#[test]
fn test_from_adds_virtio_balloon() {
    let qemu = QemuSystem::from(&SystemMock::new(), Arch::ARM64).unwrap();
    assert!(qemu.get_command().contains("virtio-balloon-pci"));
}

#[test]
fn qemu_system_renders_memory_cpus_and_network() {
    let mut qemu = QemuSystem::from(&SystemMock::new(), Arch::AMD64).unwrap();
    qemu.set_cpus(4);
    qemu.set_memory(1024);
    qemu.set_network(&vec![], 2222, true);
    let command = qemu.get_command();
    assert!(command.starts_with("qemu-system-x86_64 -machine q35 -smbios type=0,uefi=on"));
    assert!(command.contains("-smp 4"));
    assert!(command.contains("-m 1024B"));
    assert!(command.contains("user,id=net0,restrict=on,hostfwd=tcp:127.0.0.1:2222-:22"));
}

#[test]
fn qemu_system_splits_extra_arguments_on_spaces() {
    let mut qemu = QemuSystem::from(&SystemMock::new(), Arch::ARM64).unwrap();
    qemu.set_qemu_args("-a b");
    assert!(qemu.get_command().ends_with("-a b"));
    assert_eq!(QemuSystem::get_accelerator("linux"), Some("kvm"));
    assert_eq!(QemuSystem::get_accelerator("macos"), Some("hvf"));
    assert_eq!(QemuSystem::get_accelerator("redox"), None);
}

#[test]
fn test_image_info() {
    let input = r#"
    {
    "virtual-size": 1073741824,
    "filename": "/tmp/cache/cubic/images/ubuntu_noble_amd64",
    "cluster-size": 65536,
    "format": "qcow2",
    "actual-size": 200704,
    "format-specific": {
        "type": "qcow2",
        "data": {
            "compat": "1.1",
            "compression-type": "zlib",
            "lazy-refcounts": false,
            "refcount-bits": 16,
            "corrupt": false,
            "extended-l2": false
        }
    },
    "dirty-flag": false
    }
    "#;
    let result = QemuImg::read_info(Ok(input.as_bytes().to_vec())).unwrap();
    assert_eq!(result.actual_size, 200704);
    assert_eq!(result.virtual_size, 1073741824);
}

#[test]
fn image_info_rejects_a_size_given_twice_or_negative() {
    assert!(QemuImg::read_info(Ok(br#"{"actual-size": 1, "actual_size": 1, "virtual-size": 2}"#.to_vec())).is_none());
    assert!(QemuImg::read_info(Ok(br#"{"actual-size": -1, "virtual-size": 2}"#.to_vec())).is_none());
    assert!(QemuImg::read_info(Ok(b"not json".to_vec())).is_none());
    assert!(QemuImg::read_info(Err(Error::QemuNotFound)).is_none());
}

#[test]
fn qemu_img_test_map_error_translates_not_found() {
    assert!(matches!(
        QemuImg::map_error(Error::SystemCommandNotFound("qemu-img".to_string())),
        Error::QemuNotFound
    ));
}

#[test]
fn qemu_img_test_map_error_passes_other_errors_through() {
    assert!(matches!(
        QemuImg::map_error(Error::SystemCommandFailed("cmd".to_string(), "boom".to_string())),
        Error::SystemCommandFailed(..)
    ));
}

#[test]
fn qemu_img_resize_runs_the_resize_command() {
    let mut system = SystemMock::new().add_command_output("qemu-img resize /img 2048", b"");
    assert!(QemuImg::new().resize(&mut system, "/img", 2048).is_ok());
    assert_eq!(system.get_executed_commands(), vec!["qemu-img resize /img 2048".to_string()]);
    let mut missing = SystemMock::new();
    assert!(QemuImg::new().convert(&mut missing, "/a", "/b").is_err());
    assert_eq!(missing.get_executed_commands(), vec!["qemu-img convert -f qcow2 -O qcow2 /a /b".to_string()]);
}

#[test]
fn qemu_system_run_spawns_the_command_line() {
    let mut qemu = QemuSystem::from(&SystemMock::new(), Arch::AMD64).unwrap();
    qemu.set_pid_file("/run/qemu.pid");
    let line = qemu.get_command();
    let mut system = SystemMock::new().add_command_output(&line, b"");
    assert!(qemu.run(&mut system).is_ok());
    assert_eq!(system.get_executed_commands(), vec![line]);
    let mut missing = SystemMock::new();
    assert!(matches!(qemu.run(&mut missing), Err(Error::QemuNotFound)));
}

#[test]
fn qemu_system_from_asks_for_the_host_accelerator_then_tcg() {
    let qemu = QemuSystem::from(&SystemMock::new(), Arch::AMD64).unwrap();
    assert!(qemu.get_command().contains("-cpu max -accel kvm -accel tcg -boot c"));
    let qemu = QemuSystem::from(&SystemMock::new(), Arch::ARM64).unwrap();
    assert!(qemu.get_command().starts_with("qemu-system-aarch64 -machine virt -cpu max -accel kvm -accel tcg"));
}

#[test]
fn the_install_prefix_is_the_parent_of_the_binary_directory() {
    let system = SystemMock::new().add_file("/usr/bin/qemu-system-x86_64", b"");
    let install = QemuInstall::find(&system, &vec!["/opt/none".to_string(), "/usr/bin".to_string()]).unwrap();
    assert_eq!(install.get_prefix(), "/usr");
    let relative = SystemMock::new().add_file("bin/qemu-system-aarch64", b"");
    let install = QemuInstall::find(&relative, &vec!["bin".to_string()]).unwrap();
    assert_eq!(install.get_prefix(), "");
    assert!(QemuInstall::find(&SystemMock::new(), &vec!["/usr/bin".to_string()]).is_none());
}

#[test]
fn on_windows_the_install_is_the_binary_directory_and_exe_counts() {
    let system = SystemMock::new().set_os("windows").add_file("C:/QEMU/qemu-system-x86_64.exe", b"");
    let install = QemuInstall::find(&system, &vec!["C:/QEMU".to_string()]).unwrap();
    assert_eq!(install.get_prefix(), "C:/QEMU");
    let linux = SystemMock::new().add_file("C:/QEMU/qemu-system-x86_64.exe", b"");
    assert!(QemuInstall::find(&linux, &vec!["C:/QEMU".to_string()]).is_none());
}

#[test]
fn locate_takes_the_first_fitting_descriptor_whose_code_exists() {
    let missing = build_descriptor("x86_64", "pc-q35-8.0", "/usr/share/OVMF/MISSING.fd", "");
    let present = build_descriptor("x86_64", "pc-q35-8.0", "/usr/share/OVMF/OVMF_CODE.fd", "");
    let system = SystemMock::new()
        .add_file("/usr/bin/qemu-system-x86_64", b"")
        .add_file("/usr/share/qemu/firmware/10-missing.json", missing.as_bytes())
        .add_file("/usr/share/qemu/firmware/20-present.json", present.as_bytes())
        .add_file("/usr/share/OVMF/OVMF_CODE.fd", b"code");
    let firmware = QemuFirmware::locate(&system, &vec!["/usr/bin".to_string()], Arch::AMD64);
    assert_eq!(firmware, Some("/usr/share/OVMF/OVMF_CODE.fd".to_string()));
    let none = SystemMock::new()
        .add_file("/usr/bin/qemu-system-x86_64", b"")
        .add_file("/usr/share/qemu/firmware/10-missing.json", missing.as_bytes());
    assert_eq!(QemuFirmware::locate(&none, &vec!["/usr/bin".to_string()], Arch::AMD64), None);
}

#[test]
fn probe_command_sets_search_path_and_module_dir() {
    let system = SystemMock::new().add_env_var("PATH", "/usr/bin");
    let probe = QemuAcceleratorProbe::new(Arch::AMD64, FIRMWARE, Some("/usr/lib/qemu"), None);
    let command = probe.build_command(&system, "kvm").unwrap();
    let search_path = QemuPathBuilder::new(&system).build();
    assert_eq!(
        command.get_envs(),
        &vec![
            ("PATH".to_string(), search_path),
            ("QEMU_MODULE_DIR".to_string(), "/usr/lib/qemu".to_string()),
        ]
    );
}

#[test]
fn probe_command_without_module_dir_sets_only_the_search_path() {
    let system = SystemMock::new();
    let command = build_probe(Arch::ARM64).build_command(&system, "tcg").unwrap();
    assert_eq!(command.get_envs().len(), 1);
    assert_eq!(command.get_envs()[0].0, "PATH");
}
