pub mod arch;
pub mod data_size;
pub mod environment;
pub mod forward_laws;
pub mod image;
pub mod image_order;
pub mod instance;
pub mod instance_cert_paths;
pub mod instance_name;
pub mod ipv6;
pub mod ipv6_laws;
pub mod port_forward;
pub mod resource_allocator;
pub mod target_instance_path;
pub mod target_path;
pub mod user_name;

pub use arch::Arch;
pub use data_size::DataSize;
pub use resource_allocator::ResourceAllocator;
pub use instance_name::InstanceName;
pub use user_name::UserName;
pub use environment::Environment;
pub use image::{HashAlg, Image};
pub use instance::Instance;
pub use instance_cert_paths::InstanceCertPaths;
pub use target_instance_path::TargetInstancePath;
pub use target_path::{Target, TargetPath};
pub use port_forward::{HostIp, PortForward, Protocol};
