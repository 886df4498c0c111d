use vstd::prelude::*;
use vstd::string::{StrSliceExecFns, StringExecFns};
use crate::error::Error;
use crate::models::arch::{canonical_name, Arch};
use crate::models::port_forward::PortForward;
use crate::platform::{Host, Process};
use crate::qemu::qemu_path_builder::{qemu_search_path, QemuPathBuilder};
use crate::text::{decimal, decimal_string, str_eq};
use crate::util::SystemCommand;

verus! {

/// The accelerator QEMU always has: plain emulation.
pub const SOFTWARE_ACCEL: &'static str = "tcg";

/// The hardware accelerator QEMU offers on an operating system, as Rust
/// names the system.
pub open spec fn os_accelerator(os: Seq<char>) -> Option<Seq<char>> {
    if os == "linux"@ || os == "android"@ {
        Some("kvm"@)
    } else if os == "freebsd"@ || os == "dragonfly"@ || os == "openbsd"@ || os == "netbsd"@ {
        Some("nvmm"@)
    } else if os == "macos"@ || os == "ios"@ {
        Some("hvf"@)
    } else if os == "windows"@ {
        Some("whpx"@)
    } else {
        None
    }
}

/// The accelerators a machine asks for on an operating system: the
/// hardware one where the system has one, then plain emulation.
pub open spec fn accel_args(os: Seq<char>) -> Seq<Seq<char>> {
    match os_accelerator(os) {
        Some(a) => seq!["-accel"@, a, "-accel"@, SOFTWARE_ACCEL@],
        None => seq!["-accel"@, SOFTWARE_ACCEL@],
    }
}

/// The arguments every machine starts with on a host of operating system
/// `os`, behind the binary name: machine type, CPU model, accelerators,
/// boot order, no display, no emulated default devices, an entropy source
/// and a memory balloon.
pub open spec fn base_args(arch: Arch, os: Seq<char>) -> Seq<Seq<char>> {
    (match arch {
        Arch::AMD64 => seq!["-machine"@, "q35"@, "-smbios"@, "type=0,uefi=on"@],
        Arch::ARM64 => seq!["-machine"@, "virt"@],
    }) + seq!["-cpu"@, "max"@] + accel_args(os) + seq!["-boot"@, "c"@, "-display"@, "none"@, "-nodefaults"@,
        "-object"@, "rng-builtin,id=rng0"@, "-device"@, "virtio-rng-pci,rng=rng0"@,
        "-device"@, "virtio-balloon-pci"@]
}

/// The environment a machine starts with: the QEMU search path `path` as
/// its `PATH`, so that QEMU finds its helpers.
pub open spec fn path_env(path: Seq<char>) -> Seq<(Seq<char>, Seq<char>)> {
    seq![("PATH"@, path)]
}

/// The QEMU binary of an architecture.
pub open spec fn binary_name(arch: Arch) -> Seq<char> {
    "qemu-system-"@ + canonical_name(arch)
}

/// The command line that starts a machine.
pub struct QemuSystem {
    command: SystemCommand,
}

impl QemuSystem {
    pub closed spec fn command_view(&self) -> SystemCommand {
        self.command
    }

    /// The arguments so far.
    pub open spec fn args(&self) -> Seq<Seq<char>> {
        self.command_view().args_view()
    }

    /// Whether `other` is this command with `more` arguments behind it.
    pub open spec fn extends(&self, other: &QemuSystem, more: Seq<Seq<char>>) -> bool {
        &&& self.args() == other.args() + more
        &&& self.command_view().program_view() == other.command_view().program_view()
        &&& self.command_view().envs_view() == other.command_view().envs_view()
    }

    /// The hardware accelerator of an operating system.
    pub fn get_accelerator(os: &str) -> (r: Option<&'static str>)
        ensures
            r matches Some(a) ==> os_accelerator(os@) == Some(a@),
            r is None ==> os_accelerator(os@) is None,
    {
        if str_eq(os, "linux") || str_eq(os, "android") {
            Some("kvm")
        } else if str_eq(os, "freebsd") || str_eq(os, "dragonfly") || str_eq(os, "openbsd") || str_eq(os, "netbsd") {
            Some("nvmm")
        } else if str_eq(os, "macos") || str_eq(os, "ios") {
            Some("hvf")
        } else if str_eq(os, "windows") {
            Some("whpx")
        } else {
            None
        }
    }

    fn push_arg(&mut self, arg: &str)
        ensures
            final(self).extends(&*old(self), seq![arg@]),
    {
        self.command.arg(arg);
        assert(self.args() =~= old(self).args() + seq![arg@]);
    }

    fn push_args(&mut self, a: &str, b: &str)
        ensures
            final(self).extends(&*old(self), seq![a@, b@]),
    {
        self.command.arg(a);
        self.command.arg(b);
        assert(self.args() =~= old(self).args() + seq![a@, b@]);
    }

    /// The machine of an architecture, with the binary resolved from the
    /// QEMU search path of the host, on the host's hardware accelerator
    /// where it has one, else on plain emulation.
    pub fn from<S: Host>(system: &S, arch: Arch) -> (r: Result<QemuSystem, Error>)
        ensures
            r is Ok,
            r matches Ok(q) ==> q.command_view().program_view() == binary_name(arch)
                && (exists|os: Seq<char>| q.args() == #[trigger] base_args(arch, os))
                && (exists|path: Seq<char>| q.command_view().envs_view() == #[trigger] path_env(path))
                && (system.keeps_model() ==> q.args() == base_args(arch, system.host_os()))
                && (system.keeps_model() ==> q.command_view().envs_view() == path_env(qemu_search_path(system))),
    {
        let mut binary = String::from_str("qemu-system-");
        binary.append(arch.as_canonical_str());
        let mut qemu = QemuSystem { command: SystemCommand::new(binary.as_str()) };
        let ghost start = qemu;
        match arch {
            Arch::AMD64 => {
                qemu.push_args("-machine", "q35");
                qemu.push_args("-smbios", "type=0,uefi=on");
            },
            Arch::ARM64 => {
                qemu.push_args("-machine", "virt");
            },
        }
        let search_path = QemuPathBuilder::new(system).build();
        qemu.command.set_env("PATH", search_path.as_str());
        assert(qemu.command_view().envs_view() =~= path_env(search_path@));
        qemu.push_args("-cpu", "max");
        let ghost before_accel = qemu.args();
        let os = system.get_os();
        match Self::get_accelerator(os.as_str()) {
            Some(a) => qemu.push_args("-accel", a),
            None => {},
        }
        qemu.push_args("-accel", SOFTWARE_ACCEL);
        assert(qemu.args() =~= before_accel + accel_args(os@));
        qemu.push_args("-boot", "c");
        qemu.push_args("-display", "none");
        qemu.push_arg("-nodefaults");
        qemu.push_args("-object", "rng-builtin,id=rng0");
        qemu.push_args("-device", "virtio-rng-pci,rng=rng0");
        qemu.push_args("-device", "virtio-balloon-pci");
        proof {
            reveal_strlit("-machine"); reveal_strlit("q35"); reveal_strlit("virt");
        }
        assert(qemu.args() =~= base_args(arch, os@));
        Ok(qemu)
    }

    /// Runs the machine on accelerator `accel`.
    pub fn set_accelerator(&mut self, accel: &str)
        ensures
            final(self).extends(&*old(self), seq!["-accel"@, accel@]),
    {
        self.push_args("-accel", accel);
    }

    pub fn set_cpus(&mut self, cpus: u16)
        ensures
            final(self).extends(&*old(self), seq!["-smp"@, decimal(cpus as nat)]),
    {
        self.push_args("-smp", decimal_string(cpus as u64).as_str());
    }

    /// The memory in bytes: `-m 1073741824B`.
    pub fn set_memory(&mut self, memory: u64)
        ensures
            final(self).extends(&*old(self), seq!["-m"@, decimal(memory as nat) + "B"@]),
    {
        let mut m = decimal_string(memory);
        m.append("B");
        self.push_args("-m", m.as_str());
    }

    /// The QMP monitor on a TLS socket of the loopback port `port`, with
    /// the certificates of `instance_dir`.
    pub fn set_monitor(&mut self, port: u16, instance_dir: &str)
        ensures
            final(self).extends(&*old(self), seq![
                "-object"@, "tls-creds-x509,id=qmp-tls,dir="@ + instance_dir@ + ",endpoint=server,verify-peer=yes"@,
                "-chardev"@, "socket,id=qmp,host=127.0.0.1,port="@ + decimal(port as nat)
                    + ",server=on,wait=off,tls-creds=qmp-tls"@,
                "-mon"@, "chardev=qmp,mode=control,pretty=off"@,
            ]),
    {
        let mut tls = String::from_str("tls-creds-x509,id=qmp-tls,dir=");
        tls.append(instance_dir);
        tls.append(",endpoint=server,verify-peer=yes");
        let mut socket = String::from_str("socket,id=qmp,host=127.0.0.1,port=");
        socket.append(decimal_string(port as u64).as_str());
        socket.append(",server=on,wait=off,tls-creds=qmp-tls");
        self.push_args("-object", tls.as_str());
        self.push_args("-chardev", socket.as_str());
        self.push_args("-mon", "chardev=qmp,mode=control,pretty=off");
        assert(self.args() =~= old(self).args() + seq![
            "-object"@, tls@, "-chardev"@, socket@, "-mon"@, "chardev=qmp,mode=control,pretty=off"@]);
    }

    /// The serial console on a TLS socket of the loopback port `port`.
    pub fn set_console(&mut self, port: u16, instance_dir: &str)
        ensures
            final(self).extends(&*old(self), seq![
                "-object"@, "tls-creds-x509,id=con-tls,dir="@ + instance_dir@ + ",endpoint=server,verify-peer=yes"@,
                "-chardev"@, "socket,host=127.0.0.1,port="@ + decimal(port as nat)
                    + ",server=on,wait=off,id=console,tls-creds=con-tls"@,
                "-serial"@, "chardev:console"@,
            ]),
    {
        let mut tls = String::from_str("tls-creds-x509,id=con-tls,dir=");
        tls.append(instance_dir);
        tls.append(",endpoint=server,verify-peer=yes");
        let mut socket = String::from_str("socket,host=127.0.0.1,port=");
        socket.append(decimal_string(port as u64).as_str());
        socket.append(",server=on,wait=off,id=console,tls-creds=con-tls");
        self.push_args("-object", tls.as_str());
        self.push_args("-chardev", socket.as_str());
        self.push_args("-serial", "chardev:console");
        assert(self.args() =~= old(self).args() + seq![
            "-object"@, tls@, "-chardev"@, socket@, "-serial"@, "chardev:console"@]);
    }

    /// User networking with SSH on the loopback port `ssh_port` and the
    /// given forwards; `isolate` cuts the guest off the outside.
    pub fn set_network(&mut self, hostfwd: &Vec<PortForward>, ssh_port: u16, isolate: bool)
        ensures
            final(self).extends(&*old(self), seq![
                "-device"@, "virtio-net-pci,netdev=net0,romfile="@,
                "-netdev"@, "user,id=net0,restrict="@ + (if isolate { "on"@ } else { "off"@ })
                    + ",hostfwd=tcp:127.0.0.1:"@ + decimal(ssh_port as nat) + "-:22"@ + forward_options(hostfwd@),
            ]),
    {
        let mut options = String::new();
        let mut i: usize = 0;
        while i < hostfwd.len()
            invariant
                0 <= i <= hostfwd@.len(),
                options@ == forward_options(hostfwd@.take(i as int)),
            decreases hostfwd@.len() - i,
        {
            proof { assert(hostfwd@.take(i as int + 1).drop_last() =~= hostfwd@.take(i as int)); }
            options.append(",hostfwd=");
            options.append(hostfwd[i].to_qemu().as_str());
            i = i + 1;
        }
        assert(hostfwd@.take(i as int) =~= hostfwd@);
        let mut netdev = String::from_str("user,id=net0,restrict=");
        netdev.append(if isolate { "on" } else { "off" });
        netdev.append(",hostfwd=tcp:127.0.0.1:");
        netdev.append(decimal_string(ssh_port as u64).as_str());
        netdev.append("-:22");
        netdev.append(options.as_str());
        self.push_args("-device", "virtio-net-pci,netdev=net0,romfile=");
        self.push_args("-netdev", netdev.as_str());
        assert(self.args() =~= old(self).args() + seq![
            "-device"@, "virtio-net-pci,netdev=net0,romfile="@, "-netdev"@, netdev@]);
    }

    pub fn add_drive(&mut self, path: &str, format: &str)
        ensures
            final(self).extends(&*old(self), seq!["-drive"@, "if=virtio,format="@ + format@ + ",file="@ + path@]),
    {
        let mut drive = String::from_str("if=virtio,format=");
        drive.append(format);
        drive.append(",file=");
        drive.append(path);
        self.push_args("-drive", drive.as_str());
    }

    /// Extra arguments the user gave, split at each space.
    pub fn set_qemu_args(&mut self, args: &str)
        ensures
            final(self).extends(&*old(self), crate::qemu::qemu_path_builder::split_on(args@, ' ')),
    {
        let parts = split_spaces(args);
        let mut i: usize = 0;
        while i < parts.len()
            invariant
                0 <= i <= parts@.len(),
                self.extends(&*old(self), crate::util::string_views(parts@).take(i as int)),
            decreases parts@.len() - i,
        {
            let ghost mid = self.args();
            self.push_arg(parts[i].as_str());
            assert(crate::util::string_views(parts@).take(i as int + 1)
                =~= crate::util::string_views(parts@).take(i as int).push(parts@[i as int]@));
            assert(self.args() =~= old(self).args() + crate::util::string_views(parts@).take(i as int + 1));
            i = i + 1;
        }
        assert(crate::util::string_views(parts@).take(i as int) =~= crate::util::string_views(parts@));
    }

    /// The firmware, read only in a flash device.
    pub fn set_firmware(&mut self, path: &str)
        ensures
            final(self).extends(&*old(self), seq!["-drive"@, "if=pflash,readonly=on,file="@ + path@]),
    {
        let mut drive = String::from_str("if=pflash,readonly=on,file=");
        drive.append(path);
        self.push_args("-drive", drive.as_str());
    }

    /// The directory QEMU loads its modules from.
    pub fn set_module_dir(&mut self, dir: &str)
        ensures
            final(self).args() == old(self).args(),
            final(self).command_view().program_view() == old(self).command_view().program_view(),
            final(self).command_view().envs_view() == old(self).command_view().envs_view().push(("QEMU_MODULE_DIR"@, dir@)),
    {
        self.command.set_env("QEMU_MODULE_DIR", dir);
    }

    /// A directory QEMU searches for firmware and option ROMs.
    pub fn add_datadir(&mut self, dir: &str)
        ensures
            final(self).extends(&*old(self), seq!["-L"@, dir@]),
    {
        self.push_args("-L", dir);
    }

    pub fn set_pid_file(&mut self, path: &str)
        ensures
            final(self).extends(&*old(self), seq!["-pidfile"@, path@]),
    {
        self.push_args("-pidfile", path);
    }

    /// A missing binary means QEMU is not installed.
    pub fn map_error(error: Error) -> (r: Error)
        ensures
            error is SystemCommandNotFound ==> r == Error::QemuNotFound,
            !(error is SystemCommandNotFound) ==> r == error,
    {
        match error {
            Error::SystemCommandNotFound(_) => Error::QemuNotFound,
            other => other,
        }
    }

    /// Starts the machine in the background, detached from this process; a
    /// missing binary means QEMU is not installed.
    pub fn run<S: Process>(&mut self, system: &mut S) -> (r: Result<(), Error>)
        ensures
            old(system).keeps_model() ==> final(system).runs()
                == old(system).runs().push((old(self).command_view(), None, final(system).runs().last().2)),
            old(system).keeps_model() ==> r == crate::qemu::qemu_img::run_outcome(final(system).runs().last().2),
            *final(self) == *old(self),
    {
        match system.spawn_command(&self.command) {
            Ok(()) => Ok(()),
            Err(e) => Err(Self::map_error(e)),
        }
    }

    /// The command that starts the machine.
    pub fn build_command(&self) -> (r: SystemCommand)
        ensures
            r.program_view() == self.command_view().program_view(),
            r.args_view() == self.args(),
            r.envs_view() == self.command_view().envs_view(),
    {
        self.command.clone()
    }

    /// The command line, as it is shown.
    pub fn get_command(&self) -> (r: String)
        ensures
            r@ == self.command_view().line(),
    {
        self.command.get_command()
    }
}

/// The `hostfwd` options of a list of forwards.
pub open spec fn forward_options(fwds: Seq<PortForward>) -> Seq<char>
    decreases fwds.len(),
{
    if fwds.len() == 0 {
        Seq::empty()
    } else {
        forward_options(fwds.drop_last()) + ",hostfwd="@ + crate::models::port_forward::forward_qemu_text(fwds.last()@)
    }
}

/// The parts of `s` between single spaces, empty parts included.
pub fn split_spaces(s: &str) -> (r: Vec<String>)
    ensures
        crate::util::string_views(r@) == crate::qemu::qemu_path_builder::split_on(s@, ' '),
{
    split_on_char(s, ' ')
}

/// The parts of `s` between separators `sep`, empty parts included.
pub fn split_on_char(s: &str, sep: char) -> (r: Vec<String>)
    ensures
        crate::util::string_views(r@) == crate::qemu::qemu_path_builder::split_on(s@, sep),
{
    let n = s.unicode_len();
    let mut parts: Vec<String> = Vec::new();
    let mut current = String::new();
    let mut i: usize = 0;
    assert(s@.take(0) =~= Seq::<char>::empty());
    while i < n
        invariant
            n == s@.len(),
            0 <= i <= n,
            crate::util::string_views(parts@).push(current@) == crate::qemu::qemu_path_builder::split_on(s@.take(i as int), sep),
        decreases n - i,
    {
        let c = s.get_char(i);
        let ghost before = crate::util::string_views(parts@).push(current@);
        assert(s@.take(i as int + 1).drop_last() =~= s@.take(i as int));
        assert(s@.take(i as int + 1).last() == c);
        if c == sep {
            let ghost prev = parts@;
            parts.push(current);
            current = String::new();
            assert(crate::util::string_views(parts@) =~= crate::util::string_views(prev).push(before.last()));
            assert(crate::util::string_views(parts@).push(current@) =~= before.push(Seq::empty()));
        } else {
            let piece = s.substring_char(i, i + 1);
            assert(piece@ =~= seq![c]);
            let ghost cur0 = current@;
            assert(before.last() == cur0);
            current.append(piece);
            assert(current@ =~= cur0.push(c));
            assert(crate::util::string_views(parts@).push(current@) =~= before.update(before.len() - 1, before.last().push(c)));
        }
        i = i + 1;
    }
    assert(s@.take(n as int) =~= s@);
    let ghost last = current@;
    let ghost prev = parts@;
    parts.push(current);
    assert(crate::util::string_views(parts@) =~= crate::util::string_views(prev).push(last));
    parts
}

} // verus!
