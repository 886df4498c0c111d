//! Building blocks of a virtual machine manager: the ISO 9660 image writer
//! used for cloud-init seed disks, the data models of machines and images,
//! the rules that size a new machine, and the QEMU command line builder.

pub mod error;
pub mod iso9660;
pub mod json;
pub mod machine;
pub mod models;
pub mod paths;
pub mod pattern;
pub mod platform;
pub mod qemu;
pub mod text;
pub mod util;

use vstd::prelude::*;

verus! {


} // verus!
