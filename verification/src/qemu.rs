pub mod firmware;
pub mod qemu_accelerator;
pub mod qemu_firmware;
pub mod qemu_firmware_descriptor;
pub mod qemu_img;
pub mod guest_agent;
pub mod monitor;
pub mod qmp;
pub mod qmp_laws;
pub mod qmp_message;
pub mod qemu_path_builder;
pub mod qemu_system;

pub use qemu_path_builder::QemuPathBuilder;
pub use qemu_system::QemuSystem;
pub use qemu_img::{ImageInfo, QemuImg};
pub use qmp::Qmp;
pub use qmp_message::{QmpError, QmpMessage, QmpTimestamp};
pub use qemu_accelerator::QemuAcceleratorProbe;
pub use firmware::FirmwareFinder;
pub use qemu_firmware::{QemuFirmware, QemuInstall};
