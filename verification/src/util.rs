//! Shared utilities: kernel `comm` names and the wall clock.
use vstd::prelude::*;
use vstd::utf8::*;

use crate::text::{dec_chars, label_with_number};

verus! {

/// `a + b`, saturating at `u64::MAX` (`u64::saturating_add`).
pub open spec fn sat_add(a: u64, b: u64) -> u64 {
    if a + b > u64::MAX {
        u64::MAX
    } else {
        (a + b) as u64
    }
}

/// `a - b`, saturating at zero (`u64::saturating_sub`).
pub open spec fn sat_sub(a: u64, b: u64) -> u64 {
    if a < b {
        0
    } else {
        (a - b) as u64
    }
}

/// Index of the first NUL byte of `comm`, or its length when it holds none.
pub open spec fn comm_len(comm: Seq<u8>) -> int
    decreases comm.len(),
{
    if comm.len() == 0 {
        0
    } else if comm[0] == 0 {
        0
    } else {
        1 + comm_len(comm.drop_first())
    }
}

proof fn lemma_comm_len_at(comm: Seq<u8>, i: int)
    requires
        0 <= i <= comm.len(),
        forall|k: int| 0 <= k < i ==> comm[k] != 0,
        i == comm.len() || comm[i] == 0,
    ensures
        comm_len(comm) == i,
    decreases i,
{
    if i > 0 {
        lemma_comm_len_at(comm.drop_first(), i - 1);
    }
}

/// The name bytes of a kernel `comm` field: those before its first NUL.
pub open spec fn comm_bytes(comm: Seq<u8>) -> Seq<u8> {
    comm.take(comm_len(comm))
}

/// The name held in a kernel `comm` field: `None` when it is empty or its
/// bytes are not valid UTF-8, else their decoding.
pub open spec fn comm_name_spec(comm: Seq<u8>) -> Option<Seq<char>> {
    if comm_len(comm) == 0 || !valid_utf8(comm_bytes(comm)) {
        None
    } else {
        Some(decode_utf8(comm_bytes(comm)))
    }
}

/// What `String::from_utf8_lossy` makes of a byte sequence: its UTF-8
/// decoding with each invalid sequence replaced by U+FFFD.
pub uninterp spec fn utf8_lossy(bytes: Seq<u8>) -> Seq<char>;

/// The name held in a kernel `comm` field, decoded lossily: `None` when it
/// is empty.
pub open spec fn comm_lossy_spec(comm: Seq<u8>) -> Option<Seq<char>> {
    if comm_len(comm) == 0 {
        None
    } else {
        Some(utf8_lossy(comm_bytes(comm)))
    }
}

/// `String::from_utf8_lossy(bytes).into_owned()`. Its result is named by
/// `utf8_lossy`; on valid UTF-8 it is the decoding of the bytes, as std's
/// documentation says (the input is returned unchanged). Nothing is stated of
/// how invalid sequences are replaced.
#[verifier::external_body]
fn string_from_utf8_lossy(bytes: &[u8]) -> (s: String)
    ensures
        s@ == utf8_lossy(bytes@),
        valid_utf8(bytes@) ==> s@ == decode_utf8(bytes@),
{
    String::from_utf8_lossy(bytes).into_owned()
}

/// `String::from_utf8(bytes).ok()`. As std documents, the conversion
/// succeeds exactly when the bytes are valid UTF-8, and then the string holds
/// their decoding.
#[verifier::external_body]
fn string_from_utf8(bytes: Vec<u8>) -> (r: Option<String>)
    ensures
        r is Some <==> valid_utf8(bytes@),
        r matches Some(s) ==> s@ == decode_utf8(bytes@),
{
    String::from_utf8(bytes).ok()
}

/// The bytes of `comm` before its first NUL.
fn comm_name_bytes(comm: &[u8; 16]) -> (r: Vec<u8>)
    ensures
        r@ == comm_bytes(comm@),
        comm_len(comm@) == r@.len(),
{
    let mut end: usize = 0;
    while end < 16 && comm[end] != 0
        invariant
            end <= 16,
            comm@.len() == 16,
            forall|k: int| 0 <= k < end ==> comm@[k] != 0,
        decreases 16 - end,
    {
        end = end + 1;
    }
    proof {
        lemma_comm_len_at(comm@, end as int);
    }
    let mut bytes: Vec<u8> = Vec::new();
    let mut i: usize = 0;
    while i < end
        invariant
            i <= end <= 16,
            comm@.len() == 16,
            bytes@ == comm@.take(i as int),
        decreases end - i,
    {
        bytes.push(comm[i]);
        i = i + 1;
        assert(bytes@ =~= comm@.take(i as int));
    }
    bytes
}

/// Convert a NUL-terminated kernel `comm` field into a `String`. Returns
/// `None` when the name is empty or is not valid UTF-8.
pub fn comm_to_string(comm: &[u8; 16]) -> (r: Option<String>)
    ensures
        match r {
            Some(s) => comm_name_spec(comm@) == Some(s@),
            None => comm_name_spec(comm@) is None,
        },
{
    let bytes = comm_name_bytes(comm);
    if bytes.len() == 0 {
        return None;
    }
    string_from_utf8(bytes)
}

/// Convert a NUL-terminated kernel `comm` field into a `String`, replacing
/// invalid UTF-8 lossily. Returns `None` when the name is empty.
pub fn comm_to_string_lossy(comm: &[u8; 16]) -> (r: Option<String>)
    ensures
        match r {
            Some(s) => comm_lossy_spec(comm@) == Some(s@),
            None => comm_lossy_spec(comm@) is None,
        },
        r matches Some(s) ==> (valid_utf8(comm_bytes(comm@)) ==> s@ == decode_utf8(comm_bytes(comm@))),
{
    let bytes = comm_name_bytes(comm);
    if bytes.len() == 0 {
        return None;
    }
    Some(string_from_utf8_lossy(bytes.as_slice()))
}

#[verifier::external_type_specification]
#[verifier::external_body]
pub struct ExSystemTime(std::time::SystemTime);

/// `SystemTime::now()`: the system clock's current time. Nothing is stated
/// of it: it depends on the time.
#[verifier::external_body]
fn system_time_now() -> (t: std::time::SystemTime) {
    std::time::SystemTime::now()
}

/// `t.duration_since(UNIX_EPOCH)`, or `None` when `t` is before the epoch.
/// Nothing is stated of it: `SystemTime` is opaque here.
#[verifier::external_body]
fn duration_since_epoch(t: &std::time::SystemTime) -> (d: Option<std::time::Duration>) {
    t.duration_since(std::time::UNIX_EPOCH).ok()
}

/// `Duration::as_secs`: the whole seconds of `d`. Nothing is stated of it:
/// `Duration` is opaque here.
#[verifier::external_body]
fn duration_as_secs(d: &std::time::Duration) -> (s: u64) {
    d.as_secs()
}

/// Seconds since the Unix epoch as the system clock gives them, or `None`
/// when the clock is before the epoch.
fn read_clock_secs() -> (r: Option<u64>) {
    let now = system_time_now();
    match duration_since_epoch(&now) {
        Some(d) => Some(duration_as_secs(&d)),
        None => None,
    }
}

/// The error of `current_unix_timestamp`: the system clock could not be
/// read as a time after the Unix epoch.
#[derive(Debug, Clone, Copy, PartialEq, Eq, Structural)]
pub struct TimestampError;

pub open spec fn timestamp_error_message() -> Seq<char> {
    "Failed to get current timestamp"@
}

impl TimestampError {
    /// The error's message, as it is displayed.
    pub fn message(&self) -> (r: String)
        ensures
            r@ == timestamp_error_message(),
    {
        String::from_str("Failed to get current timestamp")
    }
}

/// The timestamp for a clock reading: the reading itself, or
/// `TimestampError` when the clock could not be read.
pub fn timestamp_from_clock(reading: Option<u64>) -> (r: Result<u64, TimestampError>)
    ensures
        match reading {
            Some(t) => r == Ok::<u64, TimestampError>(t),
            None => r == Err::<u64, TimestampError>(TimestampError),
        },
{
    match reading {
        Some(t) => Ok(t),
        None => Err(TimestampError),
    }
}

/// The current Unix timestamp in seconds, or `TimestampError` when the
/// clock reads a time before the epoch. Which of the two comes back, and the
/// value, depend on the clock; `timestamp_from_clock` states the outcome for
/// each reading.
pub fn current_unix_timestamp() -> (r: Result<u64, TimestampError>) {
    timestamp_from_clock(read_clock_secs())
}

/// The fallback label of a process whose name is unknown: `pid:<pid>`.
pub open spec fn pid_label_spec(pid: u32) -> Seq<char> {
    "pid:"@ + dec_chars(pid as nat)
}

/// `format!("pid:{}", pid)`.
pub fn pid_label(pid: u32) -> (r: String)
    ensures
        r@ == pid_label_spec(pid),
{
    label_with_number("pid:", pid as u64)
}

} // verus!
