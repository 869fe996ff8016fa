//! Verified core of the "create disk image" dialog: naming the image file,
//! reading the device path that the disk service reports, deciding what the
//! dialog does next, and the copy of the device, with zeros where it cannot
//! be read.
pub mod copy;
pub mod device;
pub mod flow;
pub mod naming;
pub mod text;
