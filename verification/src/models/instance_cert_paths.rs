use vstd::prelude::*;
use crate::paths::{join_path, path_join};
use crate::platform::FileSystem;

verus! {

/// The TLS certificates and keys of an instance, all in its directory.
pub struct InstanceCertPaths {
    pub ca_cert: String,
    pub server_cert: String,
    pub server_key: String,
    pub client_cert: String,
    pub client_key: String,
}

impl InstanceCertPaths {
    /// The certificate paths inside `dir`.
    pub fn load(dir: &str) -> (r: InstanceCertPaths)
        ensures
            r.ca_cert@ == join_path(dir@, "ca-cert.pem"@),
            r.server_cert@ == join_path(dir@, "server-cert.pem"@),
            r.server_key@ == join_path(dir@, "server-key.pem"@),
            r.client_cert@ == join_path(dir@, "client-cert.pem"@),
            r.client_key@ == join_path(dir@, "client-key.pem"@),
    {
        InstanceCertPaths {
            ca_cert: path_join(dir, "ca-cert.pem"),
            server_cert: path_join(dir, "server-cert.pem"),
            server_key: path_join(dir, "server-key.pem"),
            client_cert: path_join(dir, "client-cert.pem"),
            client_key: path_join(dir, "client-key.pem"),
        }
    }

    /// Whether the certificates were made: the CA certificate stands for
    /// the set.
    pub fn does_exist<S: FileSystem>(&self, system: &S) -> (r: bool)
        ensures
            system.keeps_model() ==> r == system.path_exists(self.ca_cert@),
    {
        system.exists_path(self.ca_cert.as_str())
    }
}

} // verus!
