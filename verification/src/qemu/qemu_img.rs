use vstd::prelude::*;
use crate::error::Error;
use crate::paths::join_path;
use crate::json::{get, parse_json, json_parse, Json};
use crate::models::environment::Environment;
use crate::platform::{run_result_view, Host, Process, System};
use crate::qemu::qemu_path_builder::{qemu_search_path, QemuPathBuilder};
use crate::qemu::qemu_system::path_env;
use crate::text::{decimal, decimal_string, parse_unsigned, parse_unsigned_text, text_from_utf8};
use crate::util::SystemCommand;
use vstd::utf8::{decode_utf8, valid_utf8};

verus! {

/// The sizes `qemu-img info` reports of a disk image, in bytes.
#[derive(Debug, Clone, Copy, PartialEq, Eq, Structural)]
pub struct ImageInfo {
    pub actual_size: u64,
    pub virtual_size: u64,
}

/// A whole number that fits in a `u64`, as JSON writes it.
pub open spec fn json_u64(j: Option<Json>) -> Option<u64> {
    match j {
        Some(Json::Number(t)) => if t@.len() > 0 && t@[0] != '+' {
            match parse_unsigned(t@, u64::MAX as nat) {
                Some(v) => Some(v as u64),
                None => None,
            }
        } else {
            None
        },
        _ => None,
    }
}

/// A size under its name or under its alias, which may not both be given.
pub open spec fn size_field(j: Json, name: Seq<char>, alias: Seq<char>) -> Option<u64> {
    match (get(j, name), get(j, alias)) {
        (Some(v), None) => json_u64(Some(v)),
        (None, Some(v)) => json_u64(Some(v)),
        _ => None,
    }
}

/// The image info a JSON object describes; other members are ignored.
pub open spec fn image_info_of(j: Json) -> Option<ImageInfo> {
    match (size_field(j, "actual_size"@, "actual-size"@), size_field(j, "virtual_size"@, "virtual-size"@)) {
        (Some(a), Some(v)) => if j is Object { Some(ImageInfo { actual_size: a, virtual_size: v }) } else { None },
        _ => None,
    }
}

/// The arguments of a `qemu-img` command, behind the binary name.
pub open spec fn info_args(image: Seq<char>) -> Seq<Seq<char>> {
    seq!["info"@, "--force-share"@, "--output"@, "json"@, image]
}

pub open spec fn convert_args(src: Seq<char>, dst: Seq<char>) -> Seq<Seq<char>> {
    seq!["convert"@, "-f"@, "qcow2"@, "-O"@, "qcow2"@, src, dst]
}

pub open spec fn resize_args(image: Seq<char>, size: u64) -> Seq<Seq<char>> {
    seq!["resize"@, image, decimal(size as nat)]
}

/// What a finished `qemu-img` run comes to: a missing binary means QEMU is
/// not installed; other failures pass through.
pub open spec fn run_outcome(r: Result<Seq<u8>, Error>) -> Result<(), Error> {
    match r {
        Ok(_) => Ok(()),
        Err(Error::SystemCommandNotFound(_)) => Err(Error::QemuNotFound),
        Err(e) => Err(e),
    }
}

/// What the output of `qemu-img info` comes to.
pub open spec fn info_outcome(r: Result<Seq<u8>, Error>) -> Option<ImageInfo> {
    match r {
        Ok(out) => if valid_utf8(out) {
            match json_parse(decode_utf8(out)) {
                Some(j) => image_info_of(j),
                None => None,
            }
        } else {
            None
        },
        Err(_) => None,
    }
}

/// Whether `after` is `before` with one more `qemu-img` run with the
/// arguments `args` handed to the host, on the QEMU search path of `before`.
pub open spec fn ran_once<S: Process + Host>(before: S, after: S, args: Seq<Seq<char>>) -> bool {
    &&& after.runs().len() == before.runs().len() + 1
    &&& after.runs().drop_last() == before.runs()
    &&& after.runs().last().0.program_view() == "qemu-img"@
    &&& after.runs().last().0.args_view() == args
    &&& after.runs().last().0.envs_view() == seq![("PATH"@, qemu_search_path(&before))]
}

impl ImageInfo {
    /// Reads the sizes out of the JSON `qemu-img info` prints.
    pub fn from_json(j: &Json) -> (r: Option<ImageInfo>)
        ensures
            r == image_info_of(*j),
    {
        match j {
            Json::Object(_) => {},
            _ => return None,
        }
        let actual = match read_size(j, "actual_size", "actual-size") {
            Some(a) => a,
            None => return None,
        };
        let virtual_size = match read_size(j, "virtual_size", "virtual-size") {
            Some(v) => v,
            None => return None,
        };
        Some(ImageInfo { actual_size: actual, virtual_size })
    }
}

fn read_u64(j: Option<&Json>) -> (r: Option<u64>)
    ensures
        r == json_u64(match j { Some(v) => Some(*v), None => None }),
{
    match j {
        Some(Json::Number(t)) => {
            let s = t.as_str();
            if s.unicode_len() > 0 && s.get_char(0) != '+' {
                parse_unsigned_text(s, u64::MAX)
            } else {
                None
            }
        },
        _ => None,
    }
}

fn read_size(j: &Json, name: &str, alias: &str) -> (r: Option<u64>)
    ensures
        r == size_field(*j, name@, alias@),
{
    let a = crate::json::get_member(j, name);
    let b = crate::json::get_member(j, alias);
    match (a, b) {
        (Some(v), None) => read_u64(Some(v)),
        (None, Some(v)) => read_u64(Some(v)),
        _ => None,
    }
}

/// The disk image tool of QEMU.
pub struct QemuImg;

impl QemuImg {
    pub fn new() -> (r: QemuImg) {
        QemuImg
    }

    /// `qemu-img`, found on the QEMU search path of the host.
    pub fn command<S: Host>(system: &S) -> (r: SystemCommand)
        ensures
            r.program_view() == "qemu-img"@,
            r.args_view() == Seq::<Seq<char>>::empty(),
            exists|path: Seq<char>| r.envs_view() == #[trigger] path_env(path),
            system.keeps_model() ==> r.envs_view() == seq![("PATH"@, qemu_search_path(system))],
    {
        let mut cmd = SystemCommand::new("qemu-img");
        let search_path = QemuPathBuilder::new(system).build();
        cmd.set_env("PATH", search_path.as_str());
        assert(cmd.envs_view() =~= path_env(search_path@));
        cmd
    }

    /// A missing binary means QEMU is not installed.
    pub fn map_error(error: Error) -> (r: Error)
        ensures
            error is SystemCommandNotFound ==> r == Error::QemuNotFound,
            !(error is SystemCommandNotFound) ==> r == error,
    {
        match error {
            Error::SystemCommandNotFound(_) => Error::QemuNotFound,
            other => other,
        }
    }

    /// What a finished run comes to.
    pub fn finish(r: Result<Vec<u8>, Error>) -> (out: Result<(), Error>)
        ensures
            out == run_outcome(run_result_view(r)),
    {
        match r {
            Ok(_) => Ok(()),
            Err(e) => Err(Self::map_error(e)),
        }
    }

    /// What the output of `qemu-img info` says of the image; anything that
    /// is no such JSON gives none.
    pub fn read_info(r: Result<Vec<u8>, Error>) -> (out: Option<ImageInfo>)
        ensures
            out == info_outcome(run_result_view(r)),
    {
        match r {
            Ok(bytes) => match text_from_utf8(bytes.as_slice()) {
                Some(text) => match parse_json(text.as_str()) {
                    Some(j) => ImageInfo::from_json(&j),
                    None => None,
                },
                None => None,
            },
            Err(_) => None,
        }
    }

    pub fn info_command<S: Host>(system: &S, image: &str) -> (r: SystemCommand)
        ensures
            r.program_view() == "qemu-img"@,
            r.args_view() == info_args(image@),
            exists|path: Seq<char>| r.envs_view() == #[trigger] path_env(path),
            system.keeps_model() ==> r.envs_view() == seq![("PATH"@, qemu_search_path(system))],
    {
        let mut cmd = Self::command(system);
        let ghost path = choose|path: Seq<char>| cmd.envs_view() == #[trigger] path_env(path);
        cmd.arg("info").arg("--force-share").arg("--output").arg("json").arg(image);
        proof { assert(cmd.args_view() =~= info_args(image@)); }
        cmd
    }

    pub fn convert_command<S: Host>(system: &S, src: &str, dst: &str) -> (r: SystemCommand)
        ensures
            r.program_view() == "qemu-img"@,
            r.args_view() == convert_args(src@, dst@),
            exists|path: Seq<char>| r.envs_view() == #[trigger] path_env(path),
            system.keeps_model() ==> r.envs_view() == seq![("PATH"@, qemu_search_path(system))],
    {
        let mut cmd = Self::command(system);
        let ghost path = choose|path: Seq<char>| cmd.envs_view() == #[trigger] path_env(path);
        cmd.arg("convert").arg("-f").arg("qcow2").arg("-O").arg("qcow2").arg(src).arg(dst);
        proof { assert(cmd.args_view() =~= convert_args(src@, dst@)); }
        cmd
    }

    pub fn resize_command<S: Host>(system: &S, image: &str, size: u64) -> (r: SystemCommand)
        ensures
            r.program_view() == "qemu-img"@,
            r.args_view() == resize_args(image@, size),
            exists|path: Seq<char>| r.envs_view() == #[trigger] path_env(path),
            system.keeps_model() ==> r.envs_view() == seq![("PATH"@, qemu_search_path(system))],
    {
        let mut cmd = Self::command(system);
        let ghost path = choose|path: Seq<char>| cmd.envs_view() == #[trigger] path_env(path);
        let size_text = decimal_string(size);
        cmd.arg("resize").arg(image).arg(size_text.as_str());
        proof { assert(cmd.args_view() =~= resize_args(image@, size)); }
        cmd
    }

    /// The sizes of the disk image of an instance; none where `qemu-img`
    /// fails or prints no such JSON.
    pub fn get_image_info<S: System>(&self, system: &mut S, env: &Environment, instance: &str) -> (r: Option<ImageInfo>)
        ensures
            old(system).keeps_model() ==> ran_once(*old(system), *final(system), info_args(join_path(env.instance_dir_of(instance@), "machine.img"@))),
            old(system).keeps_model() ==> r == info_outcome(final(system).runs().last().2),
    {
        let image = env.get_instance_image_file(instance);
        let cmd = Self::info_command(&*system, image.as_str());
        let out = system.run_command(&cmd);
        proof {
            if old(system).keeps_model() {
                assert(system.runs().drop_last() =~= old(system).runs());
            }
        }
        Self::read_info(out)
    }

    /// Copies a qcow2 image to a new qcow2 image.
    pub fn convert<S: System>(&self, system: &mut S, src: &str, dst: &str) -> (r: Result<(), Error>)
        ensures
            old(system).keeps_model() ==> ran_once(*old(system), *final(system), convert_args(src@, dst@)),
            old(system).keeps_model() ==> r == run_outcome(final(system).runs().last().2),
    {
        let cmd = Self::convert_command(&*system, src, dst);
        let out = system.run_command(&cmd);
        proof {
            if old(system).keeps_model() {
                assert(system.runs().drop_last() =~= old(system).runs());
            }
        }
        Self::finish(out)
    }

    /// Grows an image to `size` bytes.
    pub fn resize<S: System>(&self, system: &mut S, image: &str, size: u64) -> (r: Result<(), Error>)
        ensures
            old(system).keeps_model() ==> ran_once(*old(system), *final(system), resize_args(image@, size)),
            old(system).keeps_model() ==> r == run_outcome(final(system).runs().last().2),
    {
        let cmd = Self::resize_command(&*system, image, size);
        let out = system.run_command(&cmd);
        proof {
            if old(system).keeps_model() {
                assert(system.runs().drop_last() =~= old(system).runs());
            }
        }
        Self::finish(out)
    }
}

} // verus!
