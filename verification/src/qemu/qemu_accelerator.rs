use vstd::prelude::*;
use vstd::string::{StrSliceExecFns, StringExecFns};
use crate::error::{error_message, Error};
use crate::models::arch::Arch;
use crate::platform::{Host, System};
use crate::qemu::qemu_path_builder::qemu_search_path;
use crate::qemu::qemu_system::{accel_args, base_args, binary_name, os_accelerator, path_env, QemuSystem, SOFTWARE_ACCEL};
use crate::text::{str_eq, trim_text, trimmed};
use crate::util::SystemCommand;

verus! {

/// How long a QEMU that hangs is given, in milliseconds; one that cannot
/// use an accelerator says so within milliseconds.
pub const PROBE_TIMEOUT_MS: u64 = 3000;

/// What QEMU greets a QMP client with once the machine stands.
pub const QMP_GREETING: &'static str = "\"QMP\"";

/// The hint for a snap, whose kvm interface is not connected on install.
pub const SNAP_HINT: &'static str = "Connect the kvm interface with sudo snap connect cubic:kvm.";

/// The accelerator an operating system offers, plain emulation on the rest.
pub open spec fn host_accelerator(os: Seq<char>) -> Seq<char> {
    if os == "linux"@ || os == "android"@ {
        "kvm"@
    } else if os == "macos"@ || os == "ios"@ {
        "hvf"@
    } else if os == "windows"@ {
        "whpx"@
    } else if os == "freebsd"@ || os == "dragonfly"@ || os == "openbsd"@ || os == "netbsd"@ {
        "nvmm"@
    } else {
        SOFTWARE_ACCEL@
    }
}

/// What a user can turn on to get hardware acceleration on an operating
/// system.
pub open spec fn platform_hint(os: Seq<char>) -> Seq<char> {
    if os == "macos"@ || os == "ios"@ {
        "Install QEMU from Homebrew to get the hypervisor entitlement."@
    } else if os == "windows"@ {
        "Enable virtualization in UEFI/BIOS and the Windows Hypervisor Platform."@
    } else if os == "freebsd"@ || os == "dragonfly"@ || os == "openbsd"@ || os == "netbsd"@ {
        "Enable virtualization in UEFI/BIOS and load the nvmm module."@
    } else {
        "Enable virtualization in UEFI/BIOS and add your user to the kvm group."@
    }
}

/// What a failed probe reports: what QEMU said on stderr, a plain note when
/// it said nothing, or the error itself.
pub open spec fn probe_failure(e: Error) -> Seq<char> {
    match e {
        Error::SystemCommandFailed(_, stderr) => if trimmed(stderr@).len() == 0 {
            "QEMU did not come up"@
        } else {
            trimmed(stderr@)
        },
        other => error_message(other),
    }
}

/// The arguments of a probe on accelerator `accel`: the machine of the
/// start on a host of operating system `os`, its firmware and data dir,
/// then the accelerator and QMP on stdio.
pub open spec fn probe_args(arch: Arch, os: Seq<char>, firmware: Seq<char>, datadir: Option<String>, accel: Seq<char>) -> Seq<Seq<char>> {
    base_args(arch, os)
        + seq!["-drive"@, "if=pflash,readonly=on,file="@ + firmware]
        + (match datadir { Some(d) => seq!["-L"@, d@], None => Seq::<Seq<char>>::empty() })
        + seq!["-accel"@, accel, "-qmp"@, "stdio"@]
}

/// The environment of a probe: the QEMU search path `path` as `PATH`, then
/// the module dir as `QEMU_MODULE_DIR` where the instance has one, so that
/// QEMU finds its accelerator modules.
pub open spec fn probe_envs(path: Seq<char>, module_dir: Option<String>) -> Seq<(Seq<char>, Seq<char>)> {
    path_env(path) + (match module_dir {
        Some(d) => seq![("QEMU_MODULE_DIR"@, d@)],
        None => Seq::<(Seq<char>, Seq<char>)>::empty(),
    })
}

/// What a probe reports for what its run came to: nothing once QEMU came
/// up, else the message of the failure.
pub open spec fn probe_outcome(o: Result<Seq<u8>, Error>) -> Result<(), Seq<char>> {
    match o {
        Ok(_) => Ok(()),
        Err(e) => Err(probe_failure(e)),
    }
}

/// A probe's answer as values.
pub open spec fn probe_answer_view(r: Result<(), String>) -> Result<(), Seq<char>> {
    match r {
        Ok(()) => Ok(()),
        Err(m) => Err(m@),
    }
}

/// Asks QEMU whether an accelerator works on this host, by starting the
/// machine the instance would start and killing it once it is up.
pub struct QemuAcceleratorProbe {
    pub arch: Arch,
    pub firmware: String,
    pub module_dir: Option<String>,
    pub datadir: Option<String>,
}

impl QemuAcceleratorProbe {
    /// A probe for the firmware, module dir and data dir of the instance,
    /// so that it answers for the machine the start builds.
    pub fn new(arch: Arch, firmware: &str, module_dir: Option<&str>, datadir: Option<&str>) -> (r: QemuAcceleratorProbe)
        ensures
            r.arch == arch,
            r.firmware@ == firmware@,
            r.module_dir matches Some(d) ==> (module_dir matches Some(e) && d@ == e@),
            r.module_dir is None <==> module_dir is None,
            r.datadir matches Some(d) ==> (datadir matches Some(e) && d@ == e@),
            r.datadir is None <==> datadir is None,
    {
        QemuAcceleratorProbe {
            arch,
            firmware: firmware.to_string(),
            module_dir: match module_dir { Some(d) => Some(d.to_string()), None => None },
            datadir: match datadir { Some(d) => Some(d.to_string()), None => None },
        }
    }

    /// The accelerator of an operating system, as Rust names the system.
    pub fn get_host_accelerator(os: &str) -> (r: &'static str)
        ensures
            r@ == host_accelerator(os@),
    {
        if str_eq(os, "linux") || str_eq(os, "android") {
            "kvm"
        } else if str_eq(os, "macos") || str_eq(os, "ios") {
            "hvf"
        } else if str_eq(os, "windows") {
            "whpx"
        } else if str_eq(os, "freebsd") || str_eq(os, "dragonfly") || str_eq(os, "openbsd") || str_eq(os, "netbsd") {
            "nvmm"
        } else {
            SOFTWARE_ACCEL
        }
    }

    /// The hint for an operating system.
    pub fn get_platform_hint(os: &str) -> (r: &'static str)
        ensures
            r@ == platform_hint(os@),
    {
        if str_eq(os, "macos") || str_eq(os, "ios") {
            "Install QEMU from Homebrew to get the hypervisor entitlement."
        } else if str_eq(os, "windows") {
            "Enable virtualization in UEFI/BIOS and the Windows Hypervisor Platform."
        } else if str_eq(os, "freebsd") || str_eq(os, "dragonfly") || str_eq(os, "openbsd") || str_eq(os, "netbsd") {
            "Enable virtualization in UEFI/BIOS and load the nvmm module."
        } else {
            "Enable virtualization in UEFI/BIOS and add your user to the kvm group."
        }
    }

    /// The hints for a host: the snap hint first when `in_snap`, then the
    /// hint of the operating system.
    pub fn enable_hints(in_snap: bool, os: &str) -> (r: Vec<&'static str>)
        ensures
            in_snap ==> r@.len() == 2 && r@[0]@ == SNAP_HINT@ && r@[1]@ == platform_hint(os@),
            !in_snap ==> r@.len() == 1 && r@[0]@ == platform_hint(os@),
    {
        let mut hints: Vec<&'static str> = Vec::new();
        if in_snap {
            hints.push(SNAP_HINT);
        }
        hints.push(Self::get_platform_hint(os));
        hints
    }

    /// What the user can turn on to get hardware acceleration on this
    /// host; a snap first has to connect its kvm interface.
    pub fn get_enable_hints<S: Host>(system: &S) -> (r: Vec<&'static str>)
        ensures
            system.keeps_model() ==> (system.env_value("SNAP"@) is Some ==> r@.len() == 2 && r@[0]@ == SNAP_HINT@
                && r@[1]@ == platform_hint(system.host_os())),
            system.keeps_model() ==> (system.env_value("SNAP"@) is None ==> r@.len() == 1 && r@[0]@ == platform_hint(system.host_os())),
            1 <= r@.len() <= 2,
    {
        let os = system.get_os();
        Self::enable_hints(system.read_env_var("SNAP").is_some(), os.as_str())
    }

    /// The message of a failed probe.
    pub fn describe_failure(error: Error) -> (r: String)
        ensures
            r@ == probe_failure(error),
    {
        match error {
            Error::SystemCommandFailed(_, stderr) => {
                let t = trim_text(stderr.as_str());
                if t.as_str().unicode_len() == 0 {
                    String::from_str("QEMU did not come up")
                } else {
                    t
                }
            },
            other => other.to_string(),
        }
    }

    /// The command of the probe: the machine of the start, firmware, module
    /// and data dirs included, on accelerator `accel`, with QMP on stdio so
    /// that QEMU greets once the machine is up.
    pub fn build_command<S: Host>(&self, system: &S, accel: &str) -> (r: Result<SystemCommand, Error>)
        ensures
            r is Ok,
            r matches Ok(c) ==> c.program_view() == binary_name(self.arch)
                && (exists|os: Seq<char>| c.args_view() == #[trigger] probe_args(self.arch, os, self.firmware@, self.datadir, accel@))
                && (exists|path: Seq<char>| c.envs_view() == #[trigger] probe_envs(path, self.module_dir))
                && (system.keeps_model() ==> c.args_view() == probe_args(self.arch, system.host_os(), self.firmware@, self.datadir, accel@))
                && (system.keeps_model() ==> c.envs_view() == probe_envs(qemu_search_path(system), self.module_dir)),
    {
        let mut qemu = match QemuSystem::from(system, self.arch) {
            Ok(q) => q,
            Err(e) => return Err(e),
        };
        let ghost os = choose|os: Seq<char>| qemu.args() == #[trigger] base_args(self.arch, os);
        let ghost path = choose|path: Seq<char>| qemu.command_view().envs_view() == #[trigger] path_env(path);
        proof {
            if system.keeps_model() {
                assert(base_args(self.arch, os) == base_args(self.arch, system.host_os()));
                assert(path_env(path) == path_env(qemu_search_path(system)));
            }
        }
        qemu.set_firmware(self.firmware.as_str());
        match &self.module_dir {
            Some(d) => qemu.set_module_dir(d.as_str()),
            None => {},
        }
        match &self.datadir {
            Some(d) => qemu.add_datadir(d.as_str()),
            None => {},
        }
        qemu.set_accelerator(accel);
        let mut command = qemu.build_command();
        command.arg("-qmp");
        command.arg("stdio");
        proof {
            reveal_strlit("-qmp");
            reveal_strlit("stdio");
            assert(command.args_view() =~= probe_args(self.arch, os, self.firmware@, self.datadir, accel@));
            assert(command.envs_view() =~= probe_envs(path, self.module_dir));
        }
        Ok(command)
    }

    /// Whether QEMU comes up on accelerator `accel`; a failure carries what
    /// QEMU said.
    pub fn detect<S: System>(&self, system: &mut S, accel: &str) -> (r: Result<(), String>)
        ensures
            old(system).keeps_model() ==> final(system).runs().len() == old(system).runs().len() + 1,
            old(system).keeps_model() ==> final(system).runs().drop_last() == old(system).runs(),
            old(system).keeps_model() ==> final(system).runs().last().0.program_view() == binary_name(self.arch),
            old(system).keeps_model() ==> final(system).runs().last().0.args_view()
                == probe_args(self.arch, old(system).host_os(), self.firmware@, self.datadir, accel@),
            old(system).keeps_model() ==> final(system).runs().last().0.envs_view()
                == probe_envs(qemu_search_path(old(system)), self.module_dir),
            old(system).keeps_model() ==> final(system).runs().last().1 == Some((QMP_GREETING@, PROBE_TIMEOUT_MS)),
            old(system).keeps_model() ==> probe_answer_view(r) == probe_outcome(final(system).runs().last().2),
            r matches Err(m) ==> exists|e: Error| m@ == #[trigger] probe_failure(e),
    {
        let command = match self.build_command(&*system, accel) {
            Ok(c) => c,
            Err(e) => return Err(e.to_string()),
        };
        let r = match system.run_command_until_output(&command, QMP_GREETING, PROBE_TIMEOUT_MS) {
            Ok(()) => Ok(()),
            Err(e) => Err(Self::describe_failure(e)),
        };
        proof {
            if old(system).keeps_model() {
                assert(system.runs().drop_last() =~= old(system).runs());
            }
        }
        r
    }
}

/// A probe tries the accelerator that a machine of the host starts with
/// first: the hardware accelerator of the operating system, and plain
/// emulation only on a system that has none.
pub proof fn lemma_probe_tries_the_machine_accelerator(arch: Arch, os: Seq<char>)
    ensures
        accel_args(os)[0] == "-accel"@,
        accel_args(os)[1] == host_accelerator(os),
        host_accelerator(os) == SOFTWARE_ACCEL@ <==> os_accelerator(os) is None,
        os_accelerator(os) matches Some(a) ==> a == host_accelerator(os),
{
    reveal_strlit("tcg");
    reveal_strlit("kvm");
    reveal_strlit("hvf");
    reveal_strlit("whpx");
    reveal_strlit("nvmm");
    reveal_strlit("linux");
    reveal_strlit("android");
    reveal_strlit("macos");
    reveal_strlit("ios");
    reveal_strlit("windows");
    reveal_strlit("freebsd");
    reveal_strlit("dragonfly");
    reveal_strlit("openbsd");
    reveal_strlit("netbsd");
    let bsds = seq!["freebsd"@, "dragonfly"@, "openbsd"@, "netbsd"@];
    assert forall|k: int| 0 <= k < 4 implies bsds[k] != "macos"@ && bsds[k] != "ios"@ && bsds[k] != "windows"@ by {
        assert(bsds[k].len() != "macos"@.len() && bsds[k].len() != "ios"@.len());
        if bsds[k].len() == "windows"@.len() {
            assert(bsds[k][0] != "windows"@[0]);
        }
    }
    assert(bsds[0] == "freebsd"@ && bsds[1] == "dragonfly"@ && bsds[2] == "openbsd"@ && bsds[3] == "netbsd"@);
    assert("kvm"@ != "tcg"@) by { assert("kvm"@[0] != "tcg"@[0]); }
    assert("hvf"@ != "tcg"@) by { assert("hvf"@[0] != "tcg"@[0]); }
    assert("whpx"@ != "tcg"@) by { assert("whpx"@.len() != "tcg"@.len()); }
    assert("nvmm"@ != "tcg"@) by { assert("nvmm"@.len() != "tcg"@.len()); }
}

} // verus!
