use vstd::prelude::*;
use vstd::string::StrSliceExecFns;
use crate::models::user_name::UserName;
use crate::paths::{has_prefix, join_path, path_join, starts_with};
use crate::platform::file_system_mock::{last_slash, normalize, normalize_path};
use crate::platform::System;
use crate::util::string_views;

verus! {

/// The last component of a path, the whole path when it has no separator.
pub open spec fn file_name_of(p: Seq<char>) -> Seq<char> {
    let q = normalize(p);
    match last_slash(q) {
        None => q,
        Some(k) => q.skip(k + 1),
    }
}

/// Whether a file name has an extension: a dot after its first character.
pub open spec fn has_extension(name: Seq<char>) -> bool {
    exists|i: int| 1 <= i < name.len() && #[trigger] name[i] == '.'
}

/// Whether a path names a private SSH key: a file name starting with `id_`
/// and without an extension, which leaves out the `.pub` halves.
pub open spec fn is_private_key(p: Seq<char>) -> bool {
    has_prefix(file_name_of(p), "id_"@) && !has_extension(file_name_of(p))
}

/// The paths of a listing that name private keys, in order.
pub open spec fn private_keys(listing: Seq<Seq<char>>) -> Seq<Seq<char>>
    decreases listing.len(),
{
    if listing.len() == 0 {
        Seq::empty()
    } else if is_private_key(listing.last()) {
        private_keys(listing.drop_last()).push(listing.last())
    } else {
        private_keys(listing.drop_last())
    }
}

/// The file name of a path.
pub fn file_name(p: &str) -> (r: String)
    ensures
        r@ == file_name_of(p@),
{
    let q = normalize_path(p);
    let n = q.as_str().unicode_len();
    let mut i: usize = n;
    assert(q@.take(n as int) =~= q@);
    while i > 0
        invariant
            i <= n,
            n == q@.len(),
            q@ == normalize(p@),
            last_slash(q@) == last_slash(q@.take(i as int)),
        decreases i,
    {
        let c = q.as_str().get_char(i - 1);
        assert(q@.take(i as int).last() == c);
        if c == '/' {
            assert(last_slash(q@.take(i as int)) == Some(i - 1));
            let r = q.as_str().substring_char(i, n).to_string();
            assert(r@ =~= q@.skip(i as int));
            return r;
        }
        assert(q@.take(i as int).drop_last() =~= q@.take(i - 1));
        i = i - 1;
    }
    assert(q@.take(0) =~= Seq::<char>::empty());
    q
}

/// Whether a path names a private SSH key.
pub fn is_private_key_path(p: &str) -> (r: bool)
    ensures
        r == is_private_key(p@),
{
    let name = file_name(p);
    proof { reveal_strlit("id_"); }
    if !starts_with(name.as_str(), "id_") {
        return false;
    }
    let n = name.as_str().unicode_len();
    let mut i: usize = 1;
    while i < n
        invariant
            n == name@.len(),
            name@ == file_name_of(p@),
            1 <= i <= n || n == 0,
            forall|j: int| 1 <= j < i ==> name@[j] != '.',
        decreases n - i,
    {
        if name.as_str().get_char(i) == '.' {
            assert(name@[i as int] == '.');
            assert(has_extension(name@));
            return false;
        }
        i = i + 1;
    }
    true
}

/// The paths of a directory listing that name private keys, in order.
pub fn private_key_paths(listing: &Vec<String>) -> (r: Vec<String>)
    ensures
        string_views(r@) == private_keys(string_views(listing@)),
{
    let mut keys: Vec<String> = Vec::new();
    let mut i: usize = 0;
    while i < listing.len()
        invariant
            0 <= i <= listing@.len(),
            string_views(keys@) == private_keys(string_views(listing@).take(i as int)),
        decreases listing@.len() - i,
    {
        let ghost before = keys@;
        proof {
            assert(string_views(listing@).take(i as int + 1).drop_last() =~= string_views(listing@).take(i as int));
        }
        if is_private_key_path(listing[i].as_str()) {
            keys.push(listing[i].clone());
            assert(string_views(keys@) =~= string_views(before).push(listing@[i as int]@));
        }
        i = i + 1;
    }
    assert(string_views(listing@).take(listing@.len() as int) =~= string_views(listing@));
    keys
}

/// Where cubic keeps its machines, images, caches and runtime files.
pub struct Environment {
    username: UserName,
    data_dir: String,
    cache_dir: String,
    runtime_dir: String,
}

impl Default for Environment {
    fn default() -> (r: Environment)
        ensures
            r.username_view() == crate::models::user_name::DEFAULT_USERNAME@,
            r.data_dir_view() == Seq::<char>::empty(),
            r.cache_dir_view() == Seq::<char>::empty(),
            r.runtime_dir_view() == Seq::<char>::empty(),
    {
        Environment { username: UserName::default(), data_dir: String::new(), cache_dir: String::new(), runtime_dir: String::new() }
    }
}

impl Clone for Environment {
    fn clone(&self) -> (r: Environment)
        ensures
            r.username_view() == self.username_view(),
            r.data_dir_view() == self.data_dir_view(),
            r.cache_dir_view() == self.cache_dir_view(),
            r.runtime_dir_view() == self.runtime_dir_view(),
    {
        Environment {
            username: self.username.clone(),
            data_dir: self.data_dir.clone(),
            cache_dir: self.cache_dir.clone(),
            runtime_dir: self.runtime_dir.clone(),
        }
    }
}

impl Environment {
    pub closed spec fn username_view(&self) -> Seq<char> {
        self.username@
    }

    pub closed spec fn data_dir_view(&self) -> Seq<char> {
        self.data_dir@
    }

    pub closed spec fn cache_dir_view(&self) -> Seq<char> {
        self.cache_dir@
    }

    pub closed spec fn runtime_dir_view(&self) -> Seq<char> {
        self.runtime_dir@
    }

    /// The directory of the machines.
    pub open spec fn instance_dir(&self) -> Seq<char> {
        join_path(self.data_dir_view(), "machines"@)
    }

    /// The directory of one machine.
    pub open spec fn instance_dir_of(&self, instance: Seq<char>) -> Seq<char> {
        join_path(self.instance_dir(), instance)
    }

    /// The cache directory of one machine.
    pub open spec fn instance_cache_dir_of(&self, instance: Seq<char>) -> Seq<char> {
        join_path(join_path(self.cache_dir_view(), "instances"@), instance)
    }

    /// The runtime directory of one machine.
    pub open spec fn instance_runtime_dir_of(&self, instance: Seq<char>) -> Seq<char> {
        join_path(join_path(self.runtime_dir_view(), "instances"@), instance)
    }

    pub fn new(username: UserName, data_dir: String, cache_dir: String, runtime_dir: String) -> (r: Environment)
        ensures
            r.username_view() == username@,
            r.data_dir_view() == data_dir@,
            r.cache_dir_view() == cache_dir@,
            r.runtime_dir_view() == runtime_dir@,
    {
        Environment { username, data_dir, cache_dir, runtime_dir }
    }

    pub fn get_username(&self) -> (r: &UserName)
        ensures
            r@ == self.username_view(),
    {
        &self.username
    }

    pub fn get_cache_dir(&self) -> (r: &str)
        ensures
            r@ == self.cache_dir_view(),
    {
        self.cache_dir.as_str()
    }

    pub fn get_runtime_dir(&self) -> (r: &str)
        ensures
            r@ == self.runtime_dir_view(),
    {
        self.runtime_dir.as_str()
    }

    pub fn get_instance_dir(&self) -> (r: String)
        ensures
            r@ == self.instance_dir(),
    {
        path_join(self.data_dir.as_str(), "machines")
    }

    pub fn get_image_dir(&self) -> (r: String)
        ensures
            r@ == join_path(self.cache_dir_view(), "images"@),
    {
        path_join(self.cache_dir.as_str(), "images")
    }

    pub fn get_image_file(&self, image: &str) -> (r: String)
        ensures
            r@ == join_path(join_path(self.cache_dir_view(), "images"@), image@),
    {
        path_join(self.get_image_dir().as_str(), image)
    }

    pub fn get_image_cache_file(&self) -> (r: String)
        ensures
            r@ == join_path(self.cache_dir_view(), "images.cache"@),
    {
        path_join(self.cache_dir.as_str(), "images.cache")
    }

    pub fn get_instance_dir2(&self, instance: &str) -> (r: String)
        ensures
            r@ == self.instance_dir_of(instance@),
    {
        path_join(self.get_instance_dir().as_str(), instance)
    }

    pub fn get_instance_yaml_config_file(&self, instance: &str) -> (r: String)
        ensures
            r@ == join_path(self.instance_dir_of(instance@), "machine.yaml"@),
    {
        path_join(self.get_instance_dir2(instance).as_str(), "machine.yaml")
    }

    pub fn get_instance_toml_config_file(&self, instance: &str) -> (r: String)
        ensures
            r@ == join_path(self.instance_dir_of(instance@), "instance.toml"@),
    {
        path_join(self.get_instance_dir2(instance).as_str(), "instance.toml")
    }

    pub fn get_instance_image_file(&self, instance: &str) -> (r: String)
        ensures
            r@ == join_path(self.instance_dir_of(instance@), "machine.img"@),
    {
        path_join(self.get_instance_dir2(instance).as_str(), "machine.img")
    }

    pub fn get_instance_cache_dir(&self, instance: &str) -> (r: String)
        ensures
            r@ == self.instance_cache_dir_of(instance@),
    {
        let instances = path_join(self.cache_dir.as_str(), "instances");
        path_join(instances.as_str(), instance)
    }

    pub fn get_user_data_image_file(&self, instance: &str) -> (r: String)
        ensures
            r@ == join_path(self.instance_cache_dir_of(instance@), "user-data.img"@),
    {
        path_join(self.get_instance_cache_dir(instance).as_str(), "user-data.img")
    }

    pub fn get_instance_runtime_dir(&self, instance: &str) -> (r: String)
        ensures
            r@ == self.instance_runtime_dir_of(instance@),
    {
        let instances = path_join(self.runtime_dir.as_str(), "instances");
        path_join(instances.as_str(), instance)
    }

    pub fn get_qemu_pid_file(&self, instance: &str) -> (r: String)
        ensures
            r@ == join_path(self.instance_runtime_dir_of(instance@), "qemu.pid"@),
    {
        path_join(self.get_instance_runtime_dir(instance).as_str(), "qemu.pid")
    }

    pub fn get_ssh_private_key_file(&self, instance: &str) -> (r: String)
        ensures
            r@ == join_path(self.instance_dir_of(instance@), "ssh_client_key"@),
    {
        path_join(self.get_instance_dir2(instance).as_str(), "ssh_client_key")
    }

    /// The private SSH keys in the `.ssh` directories of `SNAP_REAL_HOME`
    /// and `HOME`, in that order: a variable that is unset or a directory
    /// that cannot be listed gives none.
    pub fn get_home_ssh_private_key_paths<S: System>(&self, system: &S) -> (r: Vec<String>)
        ensures
            system.keeps_model() ==> exists|a: Option<Seq<Seq<char>>>, b: Option<Seq<Seq<char>>>|
                home_listing(system, "SNAP_REAL_HOME"@, a) && home_listing(system, "HOME"@, b)
                && string_views(r@) == #[trigger] keys_of(a) + #[trigger] keys_of(b),
            exists|a: Option<Seq<Seq<char>>>, b: Option<Seq<Seq<char>>>|
                string_views(r@) == #[trigger] keys_of(a) + #[trigger] keys_of(b),
    {
        let snap = home_ssh_listing(system, "SNAP_REAL_HOME");
        let home = home_ssh_listing(system, "HOME");
        let ghost a = opt_views(snap);
        let ghost b = opt_views(home);
        let r = home_keys(snap, home);
        assert(system.keeps_model() ==> home_listing(system, "SNAP_REAL_HOME"@, a) && home_listing(system, "HOME"@, b));
        assert(string_views(r@) == keys_of(a) + keys_of(b));
        r
    }
}

/// The texts of an optional list.
pub open spec fn opt_views(v: Option<Vec<String>>) -> Option<Seq<Seq<char>>> {
    match v {
        Some(l) => Some(string_views(l@)),
        None => None,
    }
}

/// The private keys of a listing; none where there is no listing.
pub open spec fn keys_of(listing: Option<Seq<Seq<char>>>) -> Seq<Seq<char>> {
    match listing {
        Some(l) => private_keys(l),
        None => Seq::empty(),
    }
}

/// Whether `listing` is what the host gives for the `.ssh` directory of
/// the home that the variable `var` names: none where the variable is
/// unset or the directory cannot be listed.
pub open spec fn home_listing<S: System>(system: &S, var: Seq<char>, listing: Option<Seq<Seq<char>>>) -> bool {
    match system.env_value(var) {
        None => listing is None,
        Some(h) => if system.listing_fails(join_path(h, ".ssh"@)) {
            listing is None
        } else {
            listing matches Some(l) && system.lists(join_path(h, ".ssh"@), l)
        },
    }
}

/// The listing of the `.ssh` directory of the home that `var` names.
fn home_ssh_listing<S: System>(system: &S, var: &str) -> (r: Option<Vec<String>>)
    ensures
        system.keeps_model() ==> home_listing(system, var@, opt_views(r)),
{
    match system.read_env_var(var) {
        None => None,
        Some(h) => {
            let dir = path_join(h.as_str(), ".ssh");
            match system.read_dir(dir.as_str()) {
                Ok(listing) => Some(listing),
                Err(_) => None,
            }
        },
    }
}

/// The private keys of the `.ssh` listing of `SNAP_REAL_HOME`, then those
/// of `HOME`, each in listing order; a missing listing adds none.
pub fn home_keys(snap: Option<Vec<String>>, home: Option<Vec<String>>) -> (r: Vec<String>)
    ensures
        string_views(r@) == keys_of(opt_views(snap)) + keys_of(opt_views(home)),
{
    let mut keys: Vec<String> = match &snap {
        Some(l) => private_key_paths(l),
        None => Vec::new(),
    };
    assert(string_views(keys@) =~= keys_of(opt_views(snap)));
    let more: Vec<String> = match &home {
        Some(l) => private_key_paths(l),
        None => Vec::new(),
    };
    assert(string_views(more@) =~= keys_of(opt_views(home)));
    let ghost start = string_views(keys@);
    let mut j: usize = 0;
    while j < more.len()
        invariant
            0 <= j <= more@.len(),
            string_views(keys@) == start + string_views(more@).take(j as int),
        decreases more@.len() - j,
    {
        let ghost before = keys@;
        keys.push(more[j].clone());
        assert(string_views(keys@) =~= string_views(before).push(more@[j as int]@));
        assert(string_views(more@).take(j as int + 1) =~= string_views(more@).take(j as int).push(more@[j as int]@));
        j = j + 1;
    }
    assert(string_views(more@).take(j as int) =~= string_views(more@));
    keys
}

/// Every path `private_keys` keeps names a private key.
pub proof fn lemma_private_keys_are_keys(listing: Seq<Seq<char>>)
    ensures
        forall|i: int| 0 <= i < private_keys(listing).len() ==> #[trigger] is_private_key(private_keys(listing)[i]),
    decreases listing.len(),
{
    if listing.len() > 0 {
        lemma_private_keys_are_keys(listing.drop_last());
        let before = private_keys(listing.drop_last());
        assert forall|i: int| 0 <= i < private_keys(listing).len() implies #[trigger] is_private_key(private_keys(listing)[i]) by {
            if is_private_key(listing.last()) {
                if i < before.len() {
                    assert(private_keys(listing)[i] == before[i]);
                }
            }
        }
    }
}

} // verus!
