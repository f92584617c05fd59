//! GPU metrics: sysfs-derived device information, backend selection and
//! per-process usage from DRM `fdinfo`.

pub mod fdinfo;
pub mod collector;
pub mod detect;
pub mod backend;
