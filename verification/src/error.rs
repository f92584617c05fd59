//! Collector error types.
use vstd::prelude::*;

use crate::text::{chars_of, string_of, append_chars};

verus! {

/// Errors that can occur in collector operations.
#[derive(Debug, Clone)]
pub enum CollectorError {
    /// eBPF program not found in loaded object.
    ProgramNotFound(String),
    /// eBPF program type mismatch (expected kprobe but found different type).
    ProgramTypeMismatch(String),
    /// eBPF map not found in loaded object.
    MapNotFound(String),
    /// Underlying eBPF loader error.
    EbpfError(String),
    /// Network monitoring not yet implemented for this platform.
    PlatformNotSupported(String),
    /// System time error (e.g., clock not available).
    SystemTimeError,
    /// Wayland wlr-foreign-toplevel protocol unavailable.
    WlrToplevelUnavailable,
    /// D-Bus connection failed (GNOME fallback).
    DbusError(String),
    /// Focus tracking unavailable on this compositor.
    FocusUnavailable,
    /// Network collector initialization failed (e.g., missing eBPF capabilities).
    NetworkInitializationFailed(String),
    /// CPU collector initialization failed (e.g., missing eBPF capabilities).
    CpuInitializationFailed(String),
    /// Disk collector initialization failed (e.g., missing eBPF capabilities).
    DiskInitializationFailed(String),
}

/// The human-readable message of each error.
pub open spec fn message_spec(e: CollectorError) -> Seq<char> {
    match e {
        CollectorError::ProgramNotFound(s) => "eBPF program not found: "@ + s@,
        CollectorError::ProgramTypeMismatch(s) => "eBPF program type mismatch: "@ + s@,
        CollectorError::MapNotFound(s) => "eBPF map not found: "@ + s@,
        CollectorError::EbpfError(s) => "eBPF error: "@ + s@,
        CollectorError::PlatformNotSupported(s) => "network monitoring not yet implemented on "@
            + s@,
        CollectorError::SystemTimeError => "system time error"@,
        CollectorError::WlrToplevelUnavailable => "wlr-foreign-toplevel protocol unavailable"@,
        CollectorError::DbusError(s) => "D-Bus connection failed: "@ + s@,
        CollectorError::FocusUnavailable =>
            "focus tracking unavailable: no supported compositor found"@,
        CollectorError::NetworkInitializationFailed(s) =>
            "network collector initialization failed: "@ + s@,
        CollectorError::CpuInitializationFailed(s) => "CPU collector initialization failed: "@
            + s@,
        CollectorError::DiskInitializationFailed(s) => "disk collector initialization failed: "@
            + s@,
    }
}

fn with_detail(prefix: &str, detail: &String) -> (r: String)
    ensures
        r@ == prefix@ + detail@,
{
    let mut v = chars_of(prefix);
    let d = chars_of(detail.as_str());
    append_chars(&mut v, d.as_slice());
    string_of(v.as_slice())
}

fn fixed(text: &str) -> (r: String)
    ensures
        r@ == text@,
{
    let v = chars_of(text);
    string_of(v.as_slice())
}

impl CollectorError {
    /// The error's message, as it is displayed.
    pub fn message(&self) -> (r: String)
        ensures
            r@ == message_spec(*self),
    {
        match self {
            CollectorError::ProgramNotFound(s) => with_detail("eBPF program not found: ", s),
            CollectorError::ProgramTypeMismatch(s) => with_detail(
                "eBPF program type mismatch: ",
                s,
            ),
            CollectorError::MapNotFound(s) => with_detail("eBPF map not found: ", s),
            CollectorError::EbpfError(s) => with_detail("eBPF error: ", s),
            CollectorError::PlatformNotSupported(s) => with_detail(
                "network monitoring not yet implemented on ",
                s,
            ),
            CollectorError::SystemTimeError => fixed("system time error"),
            CollectorError::WlrToplevelUnavailable => fixed(
                "wlr-foreign-toplevel protocol unavailable",
            ),
            CollectorError::DbusError(s) => with_detail("D-Bus connection failed: ", s),
            CollectorError::FocusUnavailable => fixed(
                "focus tracking unavailable: no supported compositor found",
            ),
            CollectorError::NetworkInitializationFailed(s) => with_detail(
                "network collector initialization failed: ",
                s,
            ),
            CollectorError::CpuInitializationFailed(s) => with_detail(
                "CPU collector initialization failed: ",
                s,
            ),
            CollectorError::DiskInitializationFailed(s) => with_detail(
                "disk collector initialization failed: ",
                s,
            ),
        }
    }
}

} // verus!
