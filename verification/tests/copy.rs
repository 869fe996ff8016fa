use disk_image::copy::{
    allocation_verdict, check_allocation, copy_source, needs_disc_decryption, usable_device_size,
    unsupported_errnos, CopyAction, CopyError, CopyPhase, CopySession, CopySource, ReadOutcome,
    UnsupportedErrnos, BLOCK_SIZE, SECTOR_SIZE,
};
use disk_image::device::DeviceSizeError;

/// A simulated device: its bytes, which of them cannot be read, and the
/// most bytes that one read delivers.
struct Device {
    data: Vec<u8>,
    bad: Vec<bool>,
    max_read: usize,
    interrupt_first: bool,
}

impl Device {
    fn new(data: Vec<u8>) -> Self {
        let bad = vec![false; data.len()];
        Device { data, bad, max_read: usize::MAX, interrupt_first: false }
    }

    fn read(&mut self, offset: usize, buffer: &mut [u8]) -> ReadOutcome {
        if self.interrupt_first {
            self.interrupt_first = false;
            return ReadOutcome::Interrupted;
        }
        let end = (offset + buffer.len()).min(self.data.len());
        if offset < end && self.bad[offset..end].iter().any(|b| *b) {
            return ReadOutcome::Failed;
        }
        let n = end.saturating_sub(offset).min(self.max_read);
        buffer[..n].copy_from_slice(&self.data[offset..offset + n]);
        ReadOutcome::Data(n)
    }
}

/// Copies `device` as an application would, into an in-memory image.
fn copy(block_len: usize, sector_len: usize, device: &mut Device) -> (Vec<u8>, CopyAction) {
    let mut session = CopySession::new(block_len, sector_len, device.data.len() as u64);
    let mut image = Vec::new();
    let mut buffer = vec![0xEEu8; block_len];
    let mut action = session.next_read();
    loop {
        match action {
            CopyAction::ReadAt { offset, len } => {
                let outcome = device.read(offset as usize, &mut buffer[..len]);
                action = session.on_read(&mut buffer, outcome);
            }
            CopyAction::WriteBlock { len } => {
                image.extend_from_slice(&buffer[..len]);
                action = session.on_written(true);
            }
            other => return (image, other),
        }
    }
}

fn pattern(len: usize) -> Vec<u8> {
    (0..len).map(|i| (i % 251) as u8 + 1).collect()
}

#[test]
fn one_and_a_half_mebibytes_are_copied_exactly() {
    let mut device = Device::new(vec![0xABu8; 1572864]);
    let (image, last) = copy(BLOCK_SIZE, SECTOR_SIZE, &mut device);
    assert_eq!(last, CopyAction::Finished { unreadable_bytes: 0, device_size: 1572864 });
    assert_eq!(image, device.data);
}

#[test]
fn short_reads_are_written_as_read() {
    let mut device = Device::new(pattern(1000));
    device.max_read = 3;
    let (image, last) = copy(16, 4, &mut device);
    assert_eq!(image, device.data);
    assert_eq!(last, CopyAction::Finished { unreadable_bytes: 0, device_size: 1000 });
}

#[test]
fn small_device_is_not_padded() {
    let mut device = Device::new(vec![7u8; 512]);
    let (image, last) = copy(BLOCK_SIZE, SECTOR_SIZE, &mut device);
    assert_eq!(image, device.data);
    assert_eq!(last, CopyAction::Finished { unreadable_bytes: 0, device_size: 512 });
}

#[test]
fn only_unreadable_sectors_are_zeroed() {
    let mut device = Device::new(pattern(2 * 1048576));
    for b in &mut device.bad[..512] {
        *b = true;
    }
    let (image, last) = copy(BLOCK_SIZE, SECTOR_SIZE, &mut device);
    assert_eq!(last, CopyAction::Finished { unreadable_bytes: 512, device_size: 2 * 1048576 });
    assert_eq!(image.len(), device.data.len());
    assert!(image[..512].iter().all(|b| *b == 0));
    assert_eq!(image[512..], device.data[512..]);
    assert_eq!(image[600], device.data[600]);
}

#[test]
fn single_bad_byte_costs_its_sector() {
    let mut device = Device::new(pattern(64));
    device.bad[21] = true;
    let (image, last) = copy(16, 4, &mut device);
    assert_eq!(last, CopyAction::Finished { unreadable_bytes: 4, device_size: 64 });
    let mut expected = device.data.clone();
    for b in &mut expected[20..24] {
        *b = 0;
    }
    assert_eq!(image, expected);
}

#[test]
fn unreadable_partial_last_sector() {
    let mut device = Device::new(pattern(30));
    device.bad[29] = true;
    let (image, last) = copy(16, 4, &mut device);
    assert_eq!(last, CopyAction::Finished { unreadable_bytes: 2, device_size: 30 });
    assert_eq!(image[..28], device.data[..28]);
    assert_eq!(image[28..], [0, 0]);
}

#[test]
fn unreadable_device_counts_at_most_its_size() {
    let mut device = Device::new(vec![1u8; 6]);
    device.bad = vec![true; 6];
    let (image, last) = copy(4, 2, &mut device);
    assert_eq!(image, vec![0u8; 6]);
    assert_eq!(last, CopyAction::Finished { unreadable_bytes: 6, device_size: 6 });
}

#[test]
fn failed_block_read_asks_for_the_first_sector() {
    let mut session = CopySession::new(16, 4, 64);
    let mut buffer = vec![9u8; 16];
    assert_eq!(session.next_read(), CopyAction::ReadAt { offset: 0, len: 16 });
    assert_eq!(session.on_read(&mut buffer, ReadOutcome::Failed), CopyAction::ReadAt { offset: 0, len: 4 });
    assert_eq!(buffer, vec![9u8; 16]);
    assert_eq!(session.on_read(&mut buffer, ReadOutcome::Failed), CopyAction::WriteBlock { len: 4 });
    assert_eq!(buffer[..4], [0, 0, 0, 0]);
    assert_eq!(session.phase(), CopyPhase::Writing { len: 4, unreadable: true });
    assert_eq!(session.on_written(true), CopyAction::ReadAt { offset: 4, len: 4 });
    assert_eq!(session.unreadable_bytes(), 4);
}

#[test]
fn sector_reads_stop_at_sector_boundaries() {
    let mut session = CopySession::new(16, 4, 64);
    let mut buffer = vec![9u8; 16];
    assert_eq!(session.on_read(&mut buffer, ReadOutcome::Data(3)), CopyAction::WriteBlock { len: 3 });
    assert_eq!(session.on_written(true), CopyAction::ReadAt { offset: 3, len: 16 });
    assert_eq!(session.on_read(&mut buffer, ReadOutcome::Failed), CopyAction::ReadAt { offset: 3, len: 1 });
}

#[test]
fn interrupted_read_is_retried_at_same_offset() {
    let mut device = Device::new(pattern(10));
    device.interrupt_first = true;
    let (image, last) = copy(4, 2, &mut device);
    assert_eq!(image, device.data);
    assert_eq!(last, CopyAction::Finished { unreadable_bytes: 0, device_size: 10 });
    let mut session = CopySession::new(4, 2, 8);
    let mut buffer = vec![1u8; 4];
    assert_eq!(session.on_read(&mut buffer, ReadOutcome::Interrupted), CopyAction::ReadAt { offset: 0, len: 4 });
    assert_eq!(buffer, vec![1u8; 4]);
}

#[test]
fn failed_write_aborts_without_counting() {
    let mut session = CopySession::new(4, 2, 8);
    let mut buffer = vec![7u8; 4];
    assert_eq!(session.on_read(&mut buffer, ReadOutcome::Data(1)), CopyAction::WriteBlock { len: 1 });
    assert_eq!(buffer, vec![7u8; 4]);
    assert_eq!(session.on_written(false), CopyAction::Abort(CopyError::WriteFailed));
    assert_eq!(session.bytes_completed(), 0);
    assert_eq!(session.unreadable_bytes(), 0);
    assert_eq!(session.phase(), CopyPhase::Failed);
}

#[test]
fn failed_read_past_device_size_aborts() {
    let mut session = CopySession::new(4, 2, 2);
    let mut buffer = vec![7u8; 4];
    assert_eq!(session.on_read(&mut buffer, ReadOutcome::Data(2)), CopyAction::WriteBlock { len: 2 });
    assert_eq!(session.on_written(true), CopyAction::ReadAt { offset: 2, len: 4 });
    assert_eq!(session.on_read(&mut buffer, ReadOutcome::Failed), CopyAction::Abort(CopyError::ReadFailed));
    assert_eq!(session.phase(), CopyPhase::Failed);
}

#[test]
fn block_size_is_one_mebibyte() {
    assert_eq!(BLOCK_SIZE, 1024 * 1024);
    assert_eq!(SECTOR_SIZE, 512);
    let session = CopySession::new(BLOCK_SIZE, SECTOR_SIZE, 5);
    assert_eq!(session.block_len(), BLOCK_SIZE);
    assert_eq!(session.sector_len(), SECTOR_SIZE);
    assert_eq!(session.device_size(), 5);
}

#[test]
fn sources() {
    assert_eq!(copy_source("/dev/sr0"), CopySource::DeviceFile);
    assert_eq!(copy_source("/dev/sdb"), CopySource::ServiceHandle);
}

#[test]
fn disc_decryption() {
    assert!(needs_disc_decryption(Some("filesystem"), Some("udf"), Some("optical_drive")));
    assert!(!needs_disc_decryption(Some("filesystem"), Some("iso9660"), Some("optical_drive")));
    assert!(!needs_disc_decryption(None, Some("udf"), Some("optical_drive")));
    assert!(!needs_disc_decryption(Some("filesystem"), Some("udf"), None));
}

#[test]
fn device_sizes() {
    assert_eq!(usable_device_size(Ok(512)), Ok(512));
    assert_eq!(usable_device_size(Ok(0)), Err(CopyError::EmptyDevice));
    assert_eq!(usable_device_size(Err(DeviceSizeError::NotABlockDevice)), Err(CopyError::SizeUnknown));
}

#[test]
fn allocation_verdicts() {
    let u = UnsupportedErrnos { no_sys: 38, not_supported: 95 };
    assert_eq!(allocation_verdict(Ok(()), u), Ok(()));
    assert_eq!(allocation_verdict(Err(38), u), Ok(()));
    assert_eq!(allocation_verdict(Err(95), u), Ok(()));
    assert_eq!(allocation_verdict(Err(28), u), Err(CopyError::AllocationFailed(28)));
}

#[test]
fn allocation_with_this_systems_errnos() {
    let u = unsupported_errnos();
    assert_eq!(u.no_sys, libc::ENOSYS);
    assert_eq!(u.not_supported, libc::EOPNOTSUPP);
    assert_eq!(check_allocation(Err(libc::ENOSYS)), Ok(()));
    assert_eq!(check_allocation(Err(libc::EOPNOTSUPP)), Ok(()));
    assert_eq!(check_allocation(Err(libc::ENOSPC)), Err(CopyError::AllocationFailed(libc::ENOSPC)));
    assert_eq!(check_allocation(Ok(())), Ok(()));
}
