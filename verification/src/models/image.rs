use vstd::prelude::*;
use vstd::string::StringExecFns;
use crate::models::arch::{vendor_name, Arch};

verus! {

/// The hash a vendor publishes its image checksums with.
#[derive(Debug, Clone, Copy, PartialEq, Eq, Structural)]
pub enum HashAlg {
    Sha512,
    Sha256,
}

/// The name of a hash algorithm, as it is displayed.
pub open spec fn hash_alg_name(h: HashAlg) -> Seq<char> {
    match h {
        HashAlg::Sha512 => "sha512"@,
        HashAlg::Sha256 => "sha256"@,
    }
}

impl HashAlg {
    pub fn to_string(&self) -> (r: String)
        ensures
            r@ == hash_alg_name(*self),
    {
        match self {
            HashAlg::Sha512 => String::from_str("sha512"),
            HashAlg::Sha256 => String::from_str("sha256"),
        }
    }
}

/// A cloud image a vendor publishes: its names, the first being the
/// version, and where to fetch it.
#[derive(Debug, PartialEq, Eq)]
pub struct Image {
    pub vendor: String,
    pub names: Vec<String>,
    pub arch: Arch,
    pub image_url: String,
    pub checksum_url: String,
    pub hash_alg: HashAlg,
    pub size: Option<u64>,
}

/// The names of an image joined by `", "`.
pub open spec fn joined(names: Seq<Seq<char>>) -> Seq<char>
    decreases names.len(),
{
    if names.len() == 0 {
        Seq::empty()
    } else if names.len() == 1 {
        names[0]
    } else {
        joined(names.drop_last()) + ", "@ + names.last()
    }
}

impl Image {
    pub open spec fn names_view(&self) -> Seq<Seq<char>> {
        Seq::new(self.names@.len(), |i: int| self.names@[i]@)
    }

    /// The version: the first name.
    pub open spec fn version(&self) -> Seq<char> {
        self.names@[0]@
    }

    /// The name: the second name, or the first when there is one only.
    pub open spec fn name(&self) -> Seq<char> {
        if self.names@.len() > 1 { self.names@[1]@ } else { self.names@[0]@ }
    }

    pub fn get_version(&self) -> (r: &str)
        requires
            self.names@.len() > 0,
        ensures
            r@ == self.version(),
    {
        self.names[0].as_str()
    }

    pub fn get_name(&self) -> (r: &str)
        requires
            self.names@.len() > 0,
        ensures
            r@ == self.name(),
    {
        if self.names.len() > 1 {
            self.names[1].as_str()
        } else {
            self.names[0].as_str()
        }
    }

    /// The vendor and every name: `debian:{12, bookworm}`, or
    /// `debian:bookworm` for a single name.
    pub fn get_image_names(&self) -> (r: String)
        requires
            self.names@.len() > 0,
        ensures
            r@ == self.vendor@ + ":"@ + (if self.names@.len() > 1 {
                "{"@ + joined(self.names_view()) + "}"@
            } else {
                self.names@[0]@
            }),
    {
        let mut r = self.vendor.clone();
        r.append(":");
        if self.names.len() > 1 {
            r.append("{");
            let mut list = self.names[0].clone();
            let mut i: usize = 1;
            assert(self.names_view().take(1).drop_last() =~= Seq::<Seq<char>>::empty());
            while i < self.names.len()
                invariant
                    1 <= i <= self.names@.len(),
                    list@ == joined(self.names_view().take(i as int)),
                decreases self.names@.len() - i,
            {
                proof {
                    assert(self.names_view().take(i as int + 1).drop_last() =~= self.names_view().take(i as int));
                }
                list.append(", ");
                list.append(self.names[i].as_str());
                i = i + 1;
            }
            assert(self.names_view().take(i as int) =~= self.names_view());
            r.append(list.as_str());
            r.append("}");
        } else {
            r.append(self.names[0].as_str());
        }
        r
    }

    /// `vendor:version:arch`.
    pub fn to_name(&self) -> (r: String)
        requires
            self.names@.len() > 0,
        ensures
            r@ == self.vendor@ + ":"@ + self.version() + ":"@ + vendor_name(self.arch),
    {
        let mut r = self.vendor.clone();
        r.append(":");
        r.append(self.get_version());
        r.append(":");
        r.append(self.arch.as_vendor_str());
        r
    }

    /// `vendor_name_arch`, the name of the downloaded file.
    pub fn to_file_name(&self) -> (r: String)
        requires
            self.names@.len() > 0,
        ensures
            r@ == self.vendor@ + "_"@ + self.name() + "_"@ + vendor_name(self.arch),
    {
        let mut r = self.vendor.clone();
        r.append("_");
        r.append(self.get_name());
        r.append("_");
        r.append(self.arch.as_vendor_str());
        r
    }
}

} // verus!
