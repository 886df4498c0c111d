use vstd::prelude::*;
use crate::error::Error;
use crate::text::str_eq;

verus! {

/// The processor architectures a machine can run.
#[derive(Debug, Clone, Copy, PartialEq, Eq, Structural, Hash, Default)]
pub enum Arch {
    #[default]
    AMD64,
    ARM64,
}

/// The name an image vendor gives the architecture.
pub open spec fn vendor_name(arch: Arch) -> Seq<char> {
    match arch {
        Arch::AMD64 => "amd64"@,
        Arch::ARM64 => "arm64"@,
    }
}

/// The name the toolchains and QEMU give the architecture.
pub open spec fn canonical_name(arch: Arch) -> Seq<char> {
    match arch {
        Arch::AMD64 => "x86_64"@,
        Arch::ARM64 => "aarch64"@,
    }
}

impl Arch {
    pub fn as_vendor_str(&self) -> (r: &'static str)
        ensures
            r@ == vendor_name(*self),
    {
        match self {
            Arch::AMD64 => "amd64",
            Arch::ARM64 => "arm64",
        }
    }

    pub fn as_canonical_str(&self) -> (r: &'static str)
        ensures
            r@ == canonical_name(*self),
    {
        match self {
            Arch::AMD64 => "x86_64",
            Arch::ARM64 => "aarch64",
        }
    }

    /// The architecture a vendor name stands for; any other name is an
    /// unknown architecture.
    pub fn from_str(arch: &str) -> (r: Result<Arch, Error>)
        ensures
            arch@ == "amd64"@ ==> r == Ok::<Arch, Error>(Arch::AMD64),
            arch@ == "arm64"@ ==> r == Ok::<Arch, Error>(Arch::ARM64),
            arch@ != "amd64"@ && arch@ != "arm64"@ ==> (r matches Err(Error::UnknownArch(s)) && s@ == arch@),
    {
        proof { lemma_vendor_name_read_back(Arch::ARM64); }
        if str_eq(arch, "amd64") {
            Ok(Arch::AMD64)
        } else if str_eq(arch, "arm64") {
            Ok(Arch::ARM64)
        } else {
            Err(Error::UnknownArch(arch.to_string()))
        }
    }

    /// The vendor name, as the architecture is displayed.
    pub fn to_string(&self) -> (r: String)
        ensures
            r@ == vendor_name(*self),
    {
        self.as_vendor_str().to_string()
    }
}

/// Reading back the name an architecture is displayed as gives the
/// architecture.
pub proof fn lemma_vendor_name_read_back(arch: Arch)
    ensures
        vendor_name(arch) != "amd64"@ || arch == Arch::AMD64,
        vendor_name(arch) != "arm64"@ || arch == Arch::ARM64,
        vendor_name(arch) == "amd64"@ || vendor_name(arch) == "arm64"@,
{
    reveal_strlit("amd64");
    reveal_strlit("arm64");
    assert("amd64"@[1] != "arm64"@[1]);
}

} // verus!
