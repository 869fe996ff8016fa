//! Copying a block device into an image file.
//!
//! The reads from the device and the writes to the image are done by the
//! caller; [`CopySession`] decides, after each of them, what comes next and
//! keeps the accounting. Every byte read is written as it was read. When a
//! read of a block fails, the block is read again sector by sector; a sector
//! that cannot be read is written as zeros and counted as unreadable, and the
//! copy goes on after it. The image thus holds the device's data, with zeros
//! only in the sectors that could not be read.
use vstd::prelude::*;
use crate::device::{is_optical_device, DeviceSizeError};
use crate::text::{has_prefix, same_text};

verus! {

/// Largest stretch of the device read at once: 1 MiB.
pub const BLOCK_SIZE: usize = 1048576;

/// Size of the sectors in which a block whose read failed is read again.
pub const SECTOR_SIZE: usize = 512;

/// Why a copy could not be done.
#[derive(Debug, Clone, Copy, PartialEq, Eq)]
pub enum CopyError {
    /// The size of the device could not be determined.
    SizeUnknown,
    /// The device reports a size of zero bytes.
    EmptyDevice,
    /// Reserving room for the image failed with the given error number.
    AllocationFailed(i32),
    /// Reading from the device failed where it holds no more data.
    ReadFailed,
    /// Writing to the image failed.
    WriteFailed,
}

/// What one read from the device gave.
#[derive(Debug, Clone, Copy, PartialEq, Eq)]
pub enum ReadOutcome {
    /// The read placed this many bytes at the start of the buffer (0: end of device).
    Data(usize),
    /// The read was interrupted before anything was read.
    Interrupted,
    /// The read failed: some of the bytes asked for cannot be read.
    Failed,
}

/// What the caller does next.
#[derive(Debug, Clone, Copy, PartialEq, Eq)]
pub enum CopyAction {
    /// Read at most `len` bytes from the device at byte `offset` into the
    /// start of the buffer.
    ReadAt { offset: u64, len: usize },
    /// Write the first `len` bytes of the buffer to the end of the image.
    WriteBlock { len: usize },
    /// The copy is complete: `unreadable_bytes` bytes of the device of
    /// `device_size` bytes could not be read and are zeros in the image.
    Finished { unreadable_bytes: u64, device_size: u64 },
    /// The copy stops with this error.
    Abort(CopyError),
}

/// Where a copy stands.
#[derive(Debug, Clone, Copy, PartialEq, Eq)]
pub enum CopyPhase {
    /// Waiting for the outcome of a read.
    Reading,
    /// `len` bytes wait to be written: zeros for an unreadable sector
    /// (`unreadable`), otherwise bytes read from the device.
    Writing { len: usize, unreadable: bool },
    /// The end of the device was reached.
    Finished,
    /// The copy stopped on an error.
    Failed,
}

/// `n` zero bytes.
pub open spec fn zeros(n: nat) -> Seq<u8> {
    Seq::new(n, |i: int| 0u8)
}

/// `n` copies of the flag `b`.
pub open spec fn flags(n: nat, b: bool) -> Seq<bool> {
    Seq::new(n, |i: int| b)
}

/// Number of set flags.
pub open spec fn count_lost(lost: Seq<bool>) -> nat
    decreases lost.len(),
{
    if lost.len() == 0 {
        0
    } else {
        count_lost(lost.drop_last()) + if lost.last() {
            1nat
        } else {
            0nat
        }
    }
}

/// The device's data with the bytes flagged in `lost` replaced by zeros.
pub open spec fn masked(device: Seq<u8>, lost: Seq<bool>) -> Seq<u8> {
    Seq::new(lost.len(), |i: int| if lost[i] { 0u8 } else { device[i] })
}

/// Offsets `i` and `j` lie in the same sector of `sector_len` bytes.
pub open spec fn same_sector(i: int, j: int, sector_len: nat) -> bool {
    i / (sector_len as int) == j / (sector_len as int)
}

/// Abstract state of a copy.
pub struct CopyState {
    pub block_len: nat,
    pub sector_len: nat,
    pub device_size: nat,
    /// Bytes written to the image; also the device offset of the next read.
    pub completed: nat,
    /// Bytes of the device that could not be read.
    pub unreadable: nat,
    /// End of the block that is being read again sector by sector; the
    /// copy reads whole blocks again once `completed` reaches it.
    pub recovery_end: nat,
    pub phase: CopyPhase,
    /// The bytes that wait to be written.
    pub pending: Seq<u8>,
    /// The image written so far.
    pub image: Seq<u8>,
    /// For each byte of the image, whether it stands for unreadable data.
    pub lost: Seq<bool>,
}

/// The block at `s.completed` is being read again sector by sector.
pub open spec fn recovering(s: CopyState) -> bool {
    s.completed < s.recovery_end
}

/// Most bytes that the next read asks for: a block; or, while a block is
/// read again, the rest of the sector at `s.completed` (no more than what is
/// left of that block).
pub open spec fn request_len(s: CopyState) -> nat {
    if recovering(s) {
        let to_sector_end = (s.sector_len - s.completed % s.sector_len) as nat;
        let to_block_end = (s.recovery_end - s.completed) as nat;
        if to_block_end < to_sector_end {
            to_block_end
        } else {
            to_sector_end
        }
    } else {
        s.block_len
    }
}

impl CopyState {
    /// The accounting of a copy is consistent.
    pub open spec fn inv(self) -> bool {
        &&& 0 < self.sector_len <= self.block_len <= usize::MAX
        &&& 0 < self.device_size <= u64::MAX
        &&& self.completed <= u64::MAX
        &&& self.recovery_end <= self.device_size
        &&& self.image.len() == self.completed
        &&& self.lost.len() == self.completed
        &&& self.unreadable == count_lost(self.lost)
        &&& self.unreadable <= self.completed
        &&& self.unreadable <= self.device_size
        &&& forall|i: int| 0 <= i < self.completed && #[trigger] self.lost[i] ==> self.image[i] == 0u8
        &&& (self.phase matches CopyPhase::Writing { len, unreadable } ==> {
            &&& self.pending.len() == len
            &&& 0 < len <= self.block_len
            &&& unreadable ==> {
                &&& self.pending == zeros(len as nat)
                &&& recovering(self)
                &&& len == request_len(self)
            }
        })
    }
}

/// The state of a copy of `device_size` bytes in reads of at most
/// `block_len` bytes, read again in sectors of `sector_len` bytes where a
/// read fails, before anything was read.
pub open spec fn initial_state(block_len: nat, sector_len: nat, device_size: nat) -> CopyState {
    CopyState {
        block_len,
        sector_len,
        device_size,
        completed: 0,
        unreadable: 0,
        recovery_end: 0,
        phase: CopyPhase::Reading,
        pending: Seq::empty(),
        image: Seq::empty(),
        lost: Seq::empty(),
    }
}

/// The read that `s` waits for.
pub open spec fn next_read(s: CopyState) -> CopyAction {
    CopyAction::ReadAt { offset: s.completed as u64, len: request_len(s) as usize }
}

/// The state and action after a read with the given outcome, `buffer`
/// being the buffer as the read left it.
pub open spec fn after_read(s: CopyState, outcome: ReadOutcome, buffer: Seq<u8>) -> (CopyState, CopyAction) {
    match outcome {
        ReadOutcome::Data(n) => if n == 0 {
            (
                CopyState { phase: CopyPhase::Finished, ..s },
                CopyAction::Finished { unreadable_bytes: s.unreadable as u64, device_size: s.device_size as u64 },
            )
        } else {
            (
                CopyState { phase: CopyPhase::Writing { len: n, unreadable: false }, pending: buffer.take(n as int), ..s },
                CopyAction::WriteBlock { len: n },
            )
        },
        ReadOutcome::Interrupted => (s, next_read(s)),
        ReadOutcome::Failed => if recovering(s) {
            (
                CopyState {
                    phase: CopyPhase::Writing { len: request_len(s) as usize, unreadable: true },
                    pending: zeros(request_len(s)),
                    ..s
                },
                CopyAction::WriteBlock { len: request_len(s) as usize },
            )
        } else if s.completed >= s.device_size {
            (CopyState { phase: CopyPhase::Failed, ..s }, CopyAction::Abort(CopyError::ReadFailed))
        } else {
            let span = if s.device_size - s.completed < s.block_len {
                (s.device_size - s.completed) as nat
            } else {
                s.block_len
            };
            let t = CopyState { recovery_end: s.completed + span, ..s };
            (t, next_read(t))
        },
    }
}

/// The state and action after the pending bytes were written (`written`)
/// or their write failed.
pub open spec fn after_write(s: CopyState, written: bool) -> (CopyState, CopyAction) {
    match s.phase {
        CopyPhase::Writing { len, unreadable } => if written {
            let t = CopyState {
                completed: s.completed + len as nat,
                unreadable: if unreadable {
                    s.unreadable + len as nat
                } else {
                    s.unreadable
                },
                phase: CopyPhase::Reading,
                pending: Seq::empty(),
                image: s.image + s.pending,
                lost: s.lost + flags(len as nat, unreadable),
                ..s
            };
            (t, next_read(t))
        } else {
            (CopyState { phase: CopyPhase::Failed, ..s }, CopyAction::Abort(CopyError::WriteFailed))
        },
        _ => (s, CopyAction::Abort(CopyError::WriteFailed)),
    }
}

/// Where the bytes of the device are read from.
#[derive(Debug, Clone, Copy, PartialEq, Eq)]
pub enum CopySource {
    /// The device file itself, opened directly (optical drives).
    DeviceFile,
    /// A file handle that the disk service opens for backup.
    ServiceHandle,
}

/// Where the bytes of `device` are read from: optical drives are opened
/// directly, any other device through the disk service.
pub fn copy_source(device: &str) -> (r: CopySource)
    ensures
        r == (if has_prefix(device@, "/dev/sr"@) {
            CopySource::DeviceFile
        } else {
            CopySource::ServiceHandle
        }),
{
    if is_optical_device(device) {
        CopySource::DeviceFile
    } else {
        CopySource::ServiceHandle
    }
}

/// Whether the disc is a UDF file system in an optical drive, as video discs
/// are, whose reading needs decryption that is not supported. Each property
/// is `None` where the disk service could not report it.
pub fn needs_disc_decryption(usage: Option<&str>, fs_type: Option<&str>, media: Option<&str>) -> (r: bool)
    ensures
        r == ((usage matches Some(u) && u@ == "filesystem"@)
            && (fs_type matches Some(t) && t@ == "udf"@)
            && (media matches Some(m) && m@ == "optical_drive"@)),
{
    let usage_ok = match usage {
        Some(u) => same_text(u, "filesystem"),
        None => false,
    };
    let type_ok = match fs_type {
        Some(t) => same_text(t, "udf"),
        None => false,
    };
    let media_ok = match media {
        Some(m) => same_text(m, "optical_drive"),
        None => false,
    };
    usage_ok && type_ok && media_ok
}

/// The size to copy: the device size when it is known and not zero.
pub fn usable_device_size(size: Result<u64, DeviceSizeError>) -> (r: Result<u64, CopyError>)
    ensures
        r == (match size {
            Err(_) => Err(CopyError::SizeUnknown),
            Ok(n) => if n == 0 {
                Err(CopyError::EmptyDevice)
            } else {
                Ok::<u64, CopyError>(n)
            },
        }),
{
    match size {
        Err(_) => Err(CopyError::SizeUnknown),
        Ok(n) => if n == 0 {
            Err(CopyError::EmptyDevice)
        } else {
            Ok(n)
        },
    }
}

/// The error numbers with which reserving room for a file fails where the
/// kernel or the file system cannot do it.
#[derive(Debug, Clone, Copy, PartialEq, Eq)]
pub struct UnsupportedErrnos {
    /// The kernel does not implement the call.
    pub no_sys: i32,
    /// The file system does not support the operation.
    pub not_supported: i32,
}

/// Whether the copy goes on after reserving room for the image gave
/// `result`: it does when room was reserved and when the kernel or file
/// system cannot reserve room (the image then grows as it is written); any
/// other error stops the copy.
pub open spec fn allocation_verdict_spec(result: Result<(), i32>, unsupported: UnsupportedErrnos) -> Result<(), CopyError> {
    match result {
        Ok(()) => Ok(()),
        Err(e) => if e == unsupported.no_sys || e == unsupported.not_supported {
            Ok(())
        } else {
            Err(CopyError::AllocationFailed(e))
        },
    }
}

/// Reserving room stops the copy on every error but the two that mean the
/// kernel or file system cannot reserve room: an error number other than
/// those is reported as it is, and only a success or one of those two lets
/// the copy go on.
pub proof fn lemma_allocation_errors_stop_the_copy(result: Result<(), i32>, unsupported: UnsupportedErrnos)
    ensures
        forall|e: i32|
            e != unsupported.no_sys && e != unsupported.not_supported ==> #[trigger] allocation_verdict_spec(
                Err(e),
                unsupported,
            ) == Err::<(), CopyError>(CopyError::AllocationFailed(e)),
        allocation_verdict_spec(result, unsupported) is Ok <==> (result is Ok || result
            == Err::<(), i32>(unsupported.no_sys) || result == Err::<(), i32>(unsupported.not_supported)),
{
}

/// Whether the copy goes on after reserving room for the image gave
/// `result` (see [`allocation_verdict_spec`]).
pub fn allocation_verdict(result: Result<(), i32>, unsupported: UnsupportedErrnos) -> (r: Result<(), CopyError>)
    ensures
        r == allocation_verdict_spec(result, unsupported),
{
    match result {
        Ok(()) => Ok(()),
        Err(e) => if e == unsupported.no_sys || e == unsupported.not_supported {
            Ok(())
        } else {
            Err(CopyError::AllocationFailed(e))
        },
    }
}

/// `libc::ENOSYS`, the error number for a call that the kernel does not
/// implement. Its value depends on the target (negative on some); the
/// contract claims only that it is not zero, as no error number is.
#[verifier::external_body]
fn errno_no_sys() -> (code: i32)
    ensures
        code != 0,
{
    libc::ENOSYS
}

/// `libc::EOPNOTSUPP`, the error number for an operation that is not
/// supported. Its value depends on the target (negative on some); the
/// contract claims only that it is not zero, as no error number is.
#[verifier::external_body]
fn errno_not_supported() -> (code: i32)
    ensures
        code != 0,
{
    libc::EOPNOTSUPP
}

/// The error numbers of this system that mean "cannot reserve room here".
pub fn unsupported_errnos() -> (u: UnsupportedErrnos)
    ensures
        u.no_sys != 0,
        u.not_supported != 0,
{
    UnsupportedErrnos { no_sys: errno_no_sys(), not_supported: errno_not_supported() }
}

/// Whether the copy goes on after reserving room for the image gave
/// `result`, with this system's error numbers (see [`allocation_verdict`]).
pub fn check_allocation(result: Result<(), i32>) -> (r: Result<(), CopyError>)
    ensures
        exists|u: UnsupportedErrnos|
            u.no_sys != 0 && u.not_supported != 0 && r == #[trigger] allocation_verdict_spec(result, u),
{
    let u = unsupported_errnos();
    allocation_verdict(result, u)
}


/// Appending `n` copies of a flag adds `n` or nothing to the count.
pub proof fn lemma_count_lost_append(lost: Seq<bool>, n: nat, b: bool)
    ensures
        count_lost(lost + flags(n, b)) == count_lost(lost) + if b {
            n
        } else {
            0nat
        },
    decreases n,
{
    if n > 0 {
        lemma_count_lost_append(lost, (n - 1) as nat, b);
        assert((lost + flags(n, b)).drop_last() =~= lost + flags((n - 1) as nat, b));
    } else {
        assert(lost + flags(0, b) =~= lost);
    }
}

/// A stretch that starts at `c` and does not reach past the end of the
/// sector that holds `c` lies within that one sector.
pub proof fn lemma_piece_in_sector(c: int, len: int, sector_len: nat, i: int)
    requires
        sector_len > 0,
        0 <= c,
        len <= sector_len - c % (sector_len as int),
        c <= i < c + len,
    ensures
        same_sector(i, c, sector_len),
{
    let d = sector_len as int;
    vstd::arithmetic::div_mod::lemma_fundamental_div_mod(c, d);
    let q = c / d;
    let r = c % d + (i - c);
    assert(i == q * d + r) by (nonlinear_arith)
        requires
            c == d * q + c % d,
            r == c % d + (i - c),
    ;
    vstd::arithmetic::div_mod::lemma_fundamental_div_mod_converse(i, d, q, r);
}

/// A read keeps the accounting of a copy consistent.
pub proof fn lemma_after_read_inv(s: CopyState, outcome: ReadOutcome, buffer: Seq<u8>)
    requires
        s.inv(),
        s.phase is Reading,
        buffer.len() == s.block_len,
        outcome matches ReadOutcome::Data(n) ==> n <= s.block_len,
    ensures
        after_read(s, outcome, buffer).0.inv(),
{
    if outcome is Failed && recovering(s) {
        assert(s.completed % s.sector_len < s.sector_len);
    }
}

/// A write keeps the accounting of a copy consistent.
pub proof fn lemma_after_write_inv(s: CopyState, written: bool)
    requires
        s.inv(),
        s.phase is Writing,
        s.completed + s.pending.len() <= u64::MAX,
    ensures
        after_write(s, written).0.inv(),
{
    if written {
        let t = after_write(s, written).0;
        if let CopyPhase::Writing { len, unreadable } = s.phase {
            lemma_count_lost_append(s.lost, len as nat, unreadable);
            assert forall|i: int| 0 <= i < t.completed && #[trigger] t.lost[i] implies t.image[i] == 0u8 by {
                if i < s.completed {
                    assert(t.lost[i] == s.lost[i]);
                    assert(t.image[i] == s.image[i]);
                } else {
                    assert(t.lost[i] == unreadable);
                    assert(t.image[i] == s.pending[i - s.completed]);
                }
            }
        }
    }
}

/// Some byte of `device` in `[from, to)` cannot be read.
pub open spec fn has_bad(bad: Seq<bool>, from: int, to: int) -> bool {
    exists|j: int| from <= j < to && 0 <= j < bad.len() && #[trigger] bad[j]
}

/// The copy so far agrees with a device of content `device` whose
/// unreadable bytes are flagged in `bad`: every byte of the image that does
/// not stand for unreadable data is the device's byte at that offset and can
/// be read, and every byte that does lies in a sector holding an unreadable
/// byte; the bytes waiting to be written are likewise the device's next
/// bytes, or zeros for a stretch holding an unreadable byte.
pub open spec fn agrees_with(s: CopyState, device: Seq<u8>, bad: Seq<bool>) -> bool {
    &&& s.device_size == device.len()
    &&& bad.len() == device.len()
    &&& s.completed <= device.len()
    &&& s.phase is Finished ==> s.completed == device.len()
    &&& forall|i: int| 0 <= i < s.image.len() && !s.lost[i] ==> #[trigger] s.image[i] == device[i] && !bad[i]
    &&& forall|i: int|
        0 <= i < s.image.len() && #[trigger] s.lost[i] ==> exists|j: int|
            0 <= j < bad.len() && #[trigger] bad[j] && same_sector(i, j, s.sector_len)
    &&& (s.phase matches CopyPhase::Writing { len, unreadable } ==> if unreadable {
        has_bad(bad, s.completed as int, s.completed + len)
    } else {
        &&& s.completed + len <= device.len()
        &&& s.pending == device.subrange(s.completed as int, s.completed + len)
        &&& forall|k: int| s.completed <= k < s.completed + len ==> !#[trigger] bad[k]
    })
}

/// One event of a copy: a read with its outcome and the buffer as it left
/// it, or the outcome of a write.
pub enum CopyStep {
    Read(ReadOutcome, Seq<u8>),
    Write(bool),
}

/// The state after `step`; a step that the state does not wait for changes nothing.
pub open spec fn apply_step(s: CopyState, step: CopyStep) -> CopyState {
    match step {
        CopyStep::Read(outcome, buffer) => if s.phase is Reading {
            after_read(s, outcome, buffer).0
        } else {
            s
        },
        CopyStep::Write(written) => if s.phase is Writing {
            after_write(s, written).0
        } else {
            s
        },
    }
}

/// The state after the steps, in order.
pub open spec fn run_copy(s: CopyState, steps: Seq<CopyStep>) -> CopyState
    decreases steps.len(),
{
    if steps.len() == 0 {
        s
    } else {
        apply_step(run_copy(s, steps.drop_last()), steps.last())
    }
}

/// `step` is one that the session accepts and that a device of content
/// `device`, with its unreadable bytes flagged in `bad`, can give: a read
/// delivers no more than was asked for, and what it delivers are the
/// device's readable bytes at the offset read; a read delivers nothing (end
/// of file) only at the end of the device; a read fails only when some byte
/// asked for cannot be read.
pub open spec fn faithful_step(s: CopyState, step: CopyStep, device: Seq<u8>, bad: Seq<bool>) -> bool {
    match step {
        CopyStep::Read(outcome, buffer) => s.phase is Reading ==> {
            &&& buffer.len() == s.block_len
            &&& match outcome {
                ReadOutcome::Data(n) => {
                    &&& n <= request_len(s)
                    &&& n == 0 ==> s.completed >= device.len()
                    &&& n > 0 ==> {
                        &&& s.completed + n <= device.len()
                        &&& buffer.take(n as int) == device.subrange(s.completed as int, s.completed + n)
                        &&& forall|k: int| s.completed <= k < s.completed + n ==> !#[trigger] bad[k]
                    }
                },
                ReadOutcome::Failed => s.completed < device.len() ==> has_bad(
                    bad,
                    s.completed as int,
                    (s.completed + request_len(s)) as int,
                ),
                ReadOutcome::Interrupted => true,
            }
        },
        CopyStep::Write(_) => s.phase is Writing ==> s.completed + s.pending.len() <= u64::MAX,
    }
}

/// Every step of the run is faithful to the device.
pub open spec fn faithful_run(s: CopyState, steps: Seq<CopyStep>, device: Seq<u8>, bad: Seq<bool>) -> bool
    decreases steps.len(),
{
    if steps.len() == 0 {
        true
    } else {
        faithful_run(s, steps.drop_last(), device, bad) && faithful_step(
            run_copy(s, steps.drop_last()),
            steps.last(),
            device,
            bad,
        )
    }
}

proof fn lemma_step_agrees(s: CopyState, step: CopyStep, device: Seq<u8>, bad: Seq<bool>)
    requires
        s.inv(),
        agrees_with(s, device, bad),
        faithful_step(s, step, device, bad),
    ensures
        apply_step(s, step).inv(),
        agrees_with(apply_step(s, step), device, bad),
        apply_step(s, step).device_size == s.device_size,
        apply_step(s, step).block_len == s.block_len,
        apply_step(s, step).sector_len == s.sector_len,
{
    match step {
        CopyStep::Read(outcome, buffer) => {
            if s.phase is Reading {
                lemma_after_read_inv(s, outcome, buffer);
            }
            let t = apply_step(s, step);
            assert(t.image == s.image && t.lost == s.lost && t.completed == s.completed);
            assert forall|i: int| 0 <= i < t.image.len() && !t.lost[i] implies #[trigger] t.image[i] == device[i]
                && !bad[i] by {
                assert(s.image[i] == device[i]);
            }
            assert forall|i: int| 0 <= i < t.image.len() && #[trigger] t.lost[i] implies exists|j: int|
                0 <= j < bad.len() && #[trigger] bad[j] && same_sector(i, j, t.sector_len) by {
                assert(s.lost[i]);
            }
        },
        CopyStep::Write(written) => {
            if s.phase is Writing {
                lemma_after_write_inv(s, written);
                let t = apply_step(s, step);
                if written {
                    if let CopyPhase::Writing { len, unreadable } = s.phase {
                        assert forall|i: int| 0 <= i < t.image.len() && !t.lost[i] implies #[trigger] t.image[i]
                            == device[i] && !bad[i] by {
                            if i < s.completed {
                                assert(t.lost[i] == s.lost[i]);
                                assert(t.image[i] == s.image[i]);
                            } else {
                                assert(t.lost[i] == unreadable);
                                assert(t.image[i] == s.pending[i - s.completed]);
                            }
                        }
                        assert forall|i: int| 0 <= i < t.image.len() && #[trigger] t.lost[i] implies exists|j: int|
                            0 <= j < bad.len() && #[trigger] bad[j] && same_sector(i, j, t.sector_len) by {
                            if i < s.completed {
                                assert(t.lost[i] == s.lost[i]);
                                assert(s.lost[i]);
                            } else {
                                assert(t.lost[i] == unreadable);
                                let j = choose|j: int|
                                    s.completed <= j < s.completed + len && 0 <= j < bad.len() && #[trigger] bad[j];
                                assert(s.completed % s.sector_len < s.sector_len);
                                lemma_piece_in_sector(s.completed as int, len as int, s.sector_len, i);
                                lemma_piece_in_sector(s.completed as int, len as int, s.sector_len, j);
                                assert(bad[j] && same_sector(i, j, s.sector_len));
                            }
                        }
                    }
                }
            }
        },
    }
}

proof fn lemma_run_agrees(s: CopyState, steps: Seq<CopyStep>, device: Seq<u8>, bad: Seq<bool>)
    requires
        s.inv(),
        agrees_with(s, device, bad),
        faithful_run(s, steps, device, bad),
    ensures
        run_copy(s, steps).inv(),
        agrees_with(run_copy(s, steps), device, bad),
        run_copy(s, steps).device_size == s.device_size,
        run_copy(s, steps).block_len == s.block_len,
        run_copy(s, steps).sector_len == s.sector_len,
    decreases steps.len(),
{
    if steps.len() > 0 {
        lemma_run_agrees(s, steps.drop_last(), device, bad);
        lemma_step_agrees(run_copy(s, steps.drop_last()), steps.last(), device, bad);
    }
}

/// The copy reproduces the device. Take a device of content `device` whose
/// unreadable bytes are flagged in `bad`, and any course of reads and writes
/// (in pieces of any size, with failures and interruptions) that such a
/// device can give. Then the image holds the device's bytes at their
/// offsets; it holds zeros for every unreadable byte copied, and otherwise
/// only in sectors that hold an unreadable byte; the count of unreadable
/// bytes is the number of those zeros and never exceeds the device size.
/// A copy that finishes has copied the whole device. Once the whole device
/// was copied, the image is the device with those bytes zeroed, and exactly
/// the device, with nothing counted, when every byte can be read.
pub proof fn lemma_copy_reproduces_device(
    block_len: nat,
    sector_len: nat,
    device: Seq<u8>,
    bad: Seq<bool>,
    steps: Seq<CopyStep>,
)
    requires
        0 < sector_len <= block_len <= usize::MAX,
        0 < device.len() <= u64::MAX,
        bad.len() == device.len(),
        faithful_run(initial_state(block_len, sector_len, device.len()), steps, device, bad),
    ensures
        ({
            let t = run_copy(initial_state(block_len, sector_len, device.len()), steps);
            &&& t.inv()
            &&& agrees_with(t, device, bad)
            &&& t.unreadable == count_lost(t.lost)
            &&& t.unreadable <= device.len()
            &&& forall|i: int| 0 <= i < t.completed && #[trigger] bad[i] ==> t.lost[i]
            &&& forall|i: int|
                0 <= i < t.completed && #[trigger] t.lost[i] ==> exists|j: int|
                    0 <= j < bad.len() && #[trigger] bad[j] && same_sector(i, j, sector_len)
            &&& t.completed == device.len() ==> t.image == masked(device, t.lost)
            &&& t.phase is Finished ==> t.completed == device.len() && t.image == masked(device, t.lost)
            &&& (t.completed == device.len() && forall|i: int| 0 <= i < bad.len() ==> !#[trigger] bad[i])
                ==> t.image == device && t.unreadable == 0
        }),
{
    let s = initial_state(block_len, sector_len, device.len());
    lemma_run_agrees(s, steps, device, bad);
    let t = run_copy(s, steps);
    assert forall|i: int| 0 <= i < t.completed && #[trigger] bad[i] implies t.lost[i] by {
        assert(t.image.len() == t.completed);
        if !t.lost[i] {
            assert(t.image[i] == device[i]);
        }
    }
    if t.completed == device.len() {
        assert(t.image =~= masked(device, t.lost));
        if forall|i: int| 0 <= i < bad.len() ==> !#[trigger] bad[i] {
            assert forall|i: int| 0 <= i < t.lost.len() implies !#[trigger] t.lost[i] by {
                if t.lost[i] {
                    let j = choose|j: int| 0 <= j < bad.len() && #[trigger] bad[j] && same_sector(i, j, sector_len);
                    assert(!bad[j]);
                }
            }
            lemma_count_lost_none(t.lost);
            assert(t.image =~= device);
        }
    }
}

/// With no flag set, the count is zero.
proof fn lemma_count_lost_none(lost: Seq<bool>)
    requires
        forall|i: int| 0 <= i < lost.len() ==> !#[trigger] lost[i],
    ensures
        count_lost(lost) == 0,
    decreases lost.len(),
{
    if lost.len() > 0 {
        let init = lost.drop_last();
        assert forall|i: int| 0 <= i < init.len() implies !#[trigger] init[i] by {
            assert(init[i] == lost[i]);
        }
        lemma_count_lost_none(init);
        assert(!lost[lost.len() - 1]);
    }
}

/// A copy in progress: the block and sector lengths, the device size and the
/// accounting of what has been written to the image.
pub struct CopySession {
    block_len: usize,
    sector_len: usize,
    device_size: u64,
    bytes_completed: u64,
    unreadable_bytes: u64,
    recovery_end: u64,
    phase: CopyPhase,
    pending: Ghost<Seq<u8>>,
    image: Ghost<Seq<u8>>,
    lost: Ghost<Seq<bool>>,
}

impl View for CopySession {
    type V = CopyState;

    closed spec fn view(&self) -> CopyState {
        CopyState {
            block_len: self.block_len as nat,
            sector_len: self.sector_len as nat,
            device_size: self.device_size as nat,
            completed: self.bytes_completed as nat,
            unreadable: self.unreadable_bytes as nat,
            recovery_end: self.recovery_end as nat,
            phase: self.phase,
            pending: self.pending@,
            image: self.image@,
            lost: self.lost@,
        }
    }
}

impl CopySession {
    /// Starts the copy of a device of `device_size` bytes, read at most
    /// `block_len` bytes at a time and, where a read fails, again in sectors
    /// of `sector_len` bytes. The first read is at offset 0 (see
    /// [`CopySession::next_read`]).
    pub fn new(block_len: usize, sector_len: usize, device_size: u64) -> (s: CopySession)
        requires
            0 < sector_len <= block_len,
            device_size > 0,
        ensures
            s@ == initial_state(block_len as nat, sector_len as nat, device_size as nat),
            s@.inv(),
    {
        CopySession {
            block_len,
            sector_len,
            device_size,
            bytes_completed: 0,
            unreadable_bytes: 0,
            recovery_end: 0,
            phase: CopyPhase::Reading,
            pending: Ghost(Seq::empty()),
            image: Ghost(Seq::empty()),
            lost: Ghost(Seq::empty()),
        }
    }

    /// Largest number of bytes read at once.
    pub fn block_len(&self) -> (r: usize)
        ensures
            r == self@.block_len,
    {
        self.block_len
    }

    /// Size of the sectors read one by one after a failed read.
    pub fn sector_len(&self) -> (r: usize)
        ensures
            r == self@.sector_len,
    {
        self.sector_len
    }

    /// Size of the device being copied.
    pub fn device_size(&self) -> (r: u64)
        ensures
            r == self@.device_size,
    {
        self.device_size
    }

    /// Bytes written to the image so far; the device offset of the next read.
    pub fn bytes_completed(&self) -> (r: u64)
        ensures
            r == self@.completed,
    {
        self.bytes_completed
    }

    /// Bytes of the device found unreadable so far.
    pub fn unreadable_bytes(&self) -> (r: u64)
        ensures
            r == self@.unreadable,
    {
        self.unreadable_bytes
    }

    /// Where the copy stands.
    pub fn phase(&self) -> (r: CopyPhase)
        ensures
            r == self@.phase,
    {
        self.phase
    }

    fn request_len(&self) -> (r: usize)
        requires
            self@.inv(),
        ensures
            r == request_len(self@),
            0 < r <= self@.block_len,
    {
        if self.bytes_completed < self.recovery_end {
            let into_sector = (self.bytes_completed % (self.sector_len as u64)) as usize;
            let to_sector_end = self.sector_len - into_sector;
            let to_block_end = self.recovery_end - self.bytes_completed;
            if to_block_end < to_sector_end as u64 {
                to_block_end as usize
            } else {
                to_sector_end
            }
        } else {
            self.block_len
        }
    }

    /// The read that the session waits for: at the offset of the next byte
    /// of the image, of a block, or of the rest of a sector while a block is
    /// read again.
    pub fn next_read(&self) -> (action: CopyAction)
        requires
            self@.inv(),
        ensures
            action == next_read(self@),
            action matches CopyAction::ReadAt { len, .. } && 0 < len <= self@.block_len,
    {
        CopyAction::ReadAt { offset: self.bytes_completed, len: self.request_len() }
    }

    /// Takes the outcome of the read that the session asked for, into
    /// `buffer`. The end of the device finishes the copy and an interrupted
    /// read is retried. The bytes read are to be written as they are. When a
    /// read of a block fails, the block (or what is left of the device) is
    /// read again sector by sector; when the read of a sector fails, the
    /// start of the buffer is filled with zeros for it, which are to be
    /// written and are counted as unreadable, and the copy goes on after it.
    /// A failed read past the device's size stops the copy with an error.
    pub fn on_read(&mut self, buffer: &mut Vec<u8>, outcome: ReadOutcome) -> (action: CopyAction)
        requires
            old(self)@.inv(),
            old(self)@.phase is Reading,
            old(buffer)@.len() == old(self)@.block_len,
            outcome matches ReadOutcome::Data(n) ==> n <= request_len(old(self)@),
        ensures
            (final(self)@, action) == after_read(old(self)@, outcome, old(buffer)@),
            final(self)@.inv(),
            action matches CopyAction::Finished { unreadable_bytes, device_size } ==> 0 < device_size
                && unreadable_bytes <= device_size,
            final(buffer)@ == (if outcome is Failed && recovering(old(self)@) {
                zeros(request_len(old(self)@)) + old(buffer)@.skip(request_len(old(self)@) as int)
            } else {
                old(buffer)@
            }),
    {
        proof {
            lemma_after_read_inv(self@, outcome, buffer@);
        }
        match outcome {
            ReadOutcome::Data(n) => {
                if n == 0 {
                    self.phase = CopyPhase::Finished;
                    CopyAction::Finished { unreadable_bytes: self.unreadable_bytes, device_size: self.device_size }
                } else {
                    self.phase = CopyPhase::Writing { len: n, unreadable: false };
                    self.pending = Ghost(buffer@.take(n as int));
                    CopyAction::WriteBlock { len: n }
                }
            },
            ReadOutcome::Interrupted => self.next_read(),
            ReadOutcome::Failed => {
                if self.bytes_completed < self.recovery_end {
                    let len = self.request_len();
                    let ghost before = buffer@;
                    let mut k: usize = 0;
                    while k < len
                        invariant
                            k <= len <= buffer.len(),
                            buffer@.len() == before.len(),
                            forall|j: int| 0 <= j < k ==> buffer@[j] == 0u8,
                            forall|j: int| len <= j < buffer.len() ==> buffer@[j] == before[j],
                        decreases len - k,
                    {
                        buffer.set(k, 0u8);
                        k = k + 1;
                    }
                    assert(buffer@ =~= zeros(len as nat) + before.skip(len as int));
                    self.phase = CopyPhase::Writing { len, unreadable: true };
                    self.pending = Ghost(zeros(len as nat));
                    CopyAction::WriteBlock { len }
                } else if self.bytes_completed >= self.device_size {
                    self.phase = CopyPhase::Failed;
                    CopyAction::Abort(CopyError::ReadFailed)
                } else {
                    let remaining = self.device_size - self.bytes_completed;
                    let span: u64 = if remaining < self.block_len as u64 {
                        remaining
                    } else {
                        self.block_len as u64
                    };
                    self.recovery_end = self.bytes_completed + span;
                    self.next_read()
                }
            },
        }
    }

    /// Takes the outcome of writing the pending bytes (`written` when they
    /// were written whole). Written bytes are counted, and counted as
    /// unreadable when they stand for an unreadable sector; the next read is
    /// at the offset after them. A failed write stops the copy.
    pub fn on_written(&mut self, written: bool) -> (action: CopyAction)
        requires
            old(self)@.inv(),
            old(self)@.phase is Writing,
            old(self)@.completed + old(self)@.pending.len() <= u64::MAX,
        ensures
            (final(self)@, action) == after_write(old(self)@, written),
            final(self)@.inv(),
    {
        proof {
            lemma_after_write_inv(self@, written);
        }
        let (len, unreadable) = match self.phase {
            CopyPhase::Writing { len, unreadable } => (len, unreadable),
            _ => (0, false),
        };
        if written {
            self.bytes_completed = self.bytes_completed + len as u64;
            if unreadable {
                self.unreadable_bytes = self.unreadable_bytes + len as u64;
            }
            self.phase = CopyPhase::Reading;
            self.image = Ghost(self.image@ + self.pending@);
            self.lost = Ghost(self.lost@ + flags(len as nat, unreadable));
            self.pending = Ghost(Seq::empty());
            self.next_read()
        } else {
            self.phase = CopyPhase::Failed;
            CopyAction::Abort(CopyError::WriteFailed)
        }
    }
}

} // verus!
