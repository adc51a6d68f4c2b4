use preclear::driver::{Outcome, Phase, Progress, Run, Step};
use preclear::error::PreclearError;
use preclear::key::{strip_dashes, KeyMaterial};
use preclear::options::{Options, WriteMode};
use preclear::pattern::PatternEngine;
use preclear::plan::{
    block_count, block_offset, choose_block_size, validate_block_size, DevicePlan, MAX_BLOCK_SIZE,
    MIN_BLOCK_SIZE,
};

const MIB: u64 = 1024 * 1024;
const KEY_TEXT: &str = "00112233-44556677-8899aabb-ccddeeff-00112233-44556677-8899aabb-ccddeeff";

fn test_key() -> KeyMaterial {
    KeyMaterial::from_hex(KEY_TEXT.as_bytes()).unwrap()
}

/// Runs the write pass, then lets `tamper` change the device, then runs the
/// verify pass; returns the final step or the error.
fn run_on_memory(
    disk: &mut Vec<u8>,
    options: Options,
    tamper: &dyn Fn(&mut Vec<u8>),
) -> Result<Step, PreclearError> {
    let mut run = Run::new(options, disk.len() as u64, 0)?;
    let mut buffer = vec![0u8; run.plan.block_size as usize];
    let mut tampered = false;
    loop {
        match run.next_step() {
            Step::Write { first, len, .. } => {
                let data = run.block_data();
                assert_eq!(data.len() as u64, len);
                disk[first as usize..(first + len) as usize].copy_from_slice(&data);
                run.block_written(1, 1);
            }
            Step::Read { first, len, .. } => {
                if !tampered {
                    tamper(disk);
                    tampered = true;
                }
                buffer[..len as usize]
                    .copy_from_slice(&disk[first as usize..(first + len) as usize]);
                run.block_read(&mut buffer, 1, 1)?;
            }
            other => return Ok(other),
        }
    }
}

#[test]
fn block_count_is_ceiling() {
    assert_eq!(block_count(100, 40), 3);
    assert_eq!(block_count(120, 40), 3);
    assert_eq!(block_count(1, 40), 1);
    assert_eq!(block_count(u64::MAX, 2), u64::MAX / 2 + 1);
}

#[test]
fn block_ranges_tile_device() {
    let (disk, size) = (100u64, 40u64);
    let count = block_count(disk, size);
    let mut next = 0u64;
    for i in 0..count {
        let (first, last) = block_offset(disk, size, i).unwrap();
        assert_eq!(first, next);
        assert!(last - first + 1 <= size);
        if i + 1 < count {
            assert_eq!(last - first + 1, size);
        }
        next = last + 1;
    }
    assert_eq!(next, disk);
    assert_eq!(block_offset(disk, size, 2), Ok((80, 99)));
}

#[test]
fn block_offset_out_of_range() {
    assert_eq!(block_offset(100, 40, 3), Err(PreclearError::BlockOutOfRange));
    assert_eq!(block_offset(100, 40, u64::MAX), Err(PreclearError::BlockOutOfRange));
    assert_eq!(block_offset(100, 50, 2), Err(PreclearError::BlockOutOfRange));
}

#[test]
fn block_size_policy() {
    assert_eq!(choose_block_size(1_000_000, 0, None), MIN_BLOCK_SIZE);
    assert_eq!(choose_block_size(u64::MAX, 4096, None), MAX_BLOCK_SIZE);
    // 4 GB over 1000 parts of 512-byte sectors
    assert_eq!(choose_block_size(4_000_000_000, 0, None), 3_999_744);
    assert_eq!(choose_block_size(4_000_000_000, 4096, None), 3_997_696);
    assert_eq!(choose_block_size(1_000_000, 0, Some(48)), 48);
}

#[test]
fn scenario_small_device_plan() {
    let plan = DevicePlan::new(1_000_000, 0, None);
    assert_eq!(plan.block_size, MIB);
    assert_eq!(plan.block_count, 1);
    assert_eq!(plan.block_range(0), Ok((0, 999_999)));
}

#[test]
fn explicit_block_size_validation() {
    assert_eq!(validate_block_size(0), Err(PreclearError::BlockSizeTooSmall));
    assert_eq!(validate_block_size(15), Err(PreclearError::BlockSizeTooSmall));
    assert_eq!(validate_block_size(24), Err(PreclearError::BlockSizeNotMultipleOf16));
    assert_eq!(validate_block_size(32), Ok(32));
}

#[test]
fn key_parsing() {
    let key = test_key();
    assert_eq!(key.as_bytes()[0], 0x00);
    assert_eq!(key.as_bytes()[1], 0x11);
    assert_eq!(key.as_bytes()[15], 0xff);
    assert_eq!(key.as_bytes().len(), 32);
    let upper = KeyMaterial::from_hex(KEY_TEXT.to_uppercase().as_bytes()).unwrap();
    assert_eq!(upper.as_bytes(), key.as_bytes());
    assert_eq!(strip_dashes(b"ab-cd--e"), b"abcde".to_vec());
}

#[test]
fn key_errors() {
    assert!(matches!(KeyMaterial::from_hex(b"zz"), Err(PreclearError::InvalidKeyHex)));
    assert!(matches!(KeyMaterial::from_hex(b"abc"), Err(PreclearError::InvalidKeyHex)));
    assert!(matches!(KeyMaterial::from_hex(b"abcd"), Err(PreclearError::InvalidKeyLength)));
    assert!(matches!(KeyMaterial::from_hex(b""), Err(PreclearError::InvalidKeyLength)));
}

#[test]
fn random_keys_differ() {
    let a = KeyMaterial::random();
    let b = KeyMaterial::random();
    assert_eq!(a.as_bytes().len(), 32);
    assert_ne!(a.as_bytes(), b.as_bytes());
}

#[test]
fn option_errors_in_order() {
    let key = Some(KEY_TEXT.as_bytes());
    assert!(matches!(
        Options::new(Some(8), 0, true, true, Some(b"zz")),
        Err(PreclearError::BlockSizeTooSmall)
    ));
    assert!(matches!(
        Options::new(Some(40), 0, true, true, key),
        Err(PreclearError::BlockSizeNotMultipleOf16)
    ));
    assert!(matches!(
        Options::new(None, 0, true, true, key),
        Err(PreclearError::ConflictingWriteModes)
    ));
    assert!(matches!(
        Options::new(None, 0, true, false, Some(b"0g")),
        Err(PreclearError::InvalidKeyHex)
    ));
    let o = Options::new(Some(64), 7, false, true, None).unwrap();
    assert_eq!(o.mode, WriteMode::Zero);
    assert_eq!(o.block_size, Some(64));
    assert!(o.key.is_none());
    assert_eq!(WriteMode::from_flags(false, false), Ok(WriteMode::ReadOnly));
}

#[test]
fn start_beyond_disk_is_rejected() {
    let o = Options::new(None, 100, false, false, None).unwrap();
    assert!(matches!(Run::new(o, 100, 0), Err(PreclearError::StartBeyondDisk)));
    let o = Options::new(None, 0, false, false, None).unwrap();
    assert!(matches!(Run::new(o, 0, 0), Err(PreclearError::StartBeyondDisk)));
}

#[test]
fn fill_then_invert_gives_zeros() {
    let engine = PatternEngine::new(test_key());
    let mut buffer = vec![0u8; 4096];
    engine.fill(&mut buffer);
    assert!(buffer.iter().any(|b| *b != 0));
    engine.invert(&mut buffer);
    assert!(buffer.iter().all(|b| *b == 0));
}

#[test]
fn fill_is_deterministic() {
    let engine = PatternEngine::new(test_key());
    let mut a = vec![0u8; 1024];
    let mut b = vec![0u8; 1024];
    engine.fill(&mut a);
    engine.fill(&mut b);
    assert_eq!(a, b);
    let other = PatternEngine::new(KeyMaterial::from_hex(&[b'1'; 64]).unwrap());
    let mut c = vec![0u8; 1024];
    other.fill(&mut c);
    assert_ne!(a, c);
}

#[test]
fn throughput_and_progress() {
    assert_eq!(preclear::driver::throughput(1_048_576, 1_000_000_000), 100);
    assert_eq!(preclear::driver::throughput(1_048_576, 0), 0);
    assert_eq!(preclear::driver::throughput(3 * 1_048_576, 2_000_000_000), 150);
    let o = Options::new(Some(48), 0, false, false, None).unwrap();
    let mut run = Run::new(o, 120, 0).unwrap();
    let mut buffer = vec![0u8; 48];
    let p = run.block_read(&mut buffer, 1_000_000_000, 1_000_000_000).unwrap();
    assert_eq!(
        p,
        Progress { percent: 40, bytes_done: 48, instant_speed: 0, overall_speed: 0 }
    );
    let p = run.block_read(&mut buffer, 48, 192).unwrap();
    assert_eq!(p.percent, 80);
    assert_eq!(p.instant_speed, 95_367);
    assert_eq!(p.overall_speed, 47_683);
    let p = run.block_read(&mut buffer, 1, 1).unwrap();
    assert_eq!(p.percent, 100);
    assert_eq!(p.bytes_done, 120);
    assert_eq!(run.phase, Phase::Done);
    assert_eq!(run.next_step(), Step::Finished(Outcome::ReadTest));
}

#[test]
fn scenario_random_write_and_verify() {
    let mut disk = vec![0xAAu8; (10 * MIB) as usize];
    let key = Some(KEY_TEXT.as_bytes());
    let o = Options::new(Some(MIB), 0, true, false, key).unwrap();
    let r = run_on_memory(&mut disk, o, &|_| {});
    assert_eq!(r, Ok(Step::Finished(Outcome::ReadWriteTest)));
    let first = disk[..MIB as usize].to_vec();
    assert!(first.iter().any(|b| *b != 0));
    for i in 1..10usize {
        assert_eq!(&disk[i * MIB as usize..(i + 1) * MIB as usize], &first[..]);
    }
}

#[test]
fn scenario_corrupted_byte_is_reported() {
    let mut disk = vec![0u8; (10 * MIB) as usize];
    let key = Some(KEY_TEXT.as_bytes());
    let o = Options::new(Some(MIB), 0, true, false, key).unwrap();
    let bad: usize = 3 * MIB as usize + 12345;
    let r = run_on_memory(&mut disk, o, &|d| d[bad] ^= 0x01);
    let e = r.unwrap_err();
    assert_eq!(e.exit_code(), 2);
    // XTS garbles the whole 16-byte cipher block around the bad byte.
    match e {
        PreclearError::ValidationFailed { offset } => {
            assert!(offset as usize <= bad);
            assert_eq!(offset as usize / 16, bad / 16);
        }
        other => panic!("unexpected {:?}", other),
    }
}

#[test]
fn scenario_zero_fill_reports_exact_offset() {
    let mut disk = vec![7u8; 300];
    let o = Options::new(Some(64), 0, false, true, None).unwrap();
    let r = run_on_memory(&mut disk, o, &|d| d[200] = 9);
    assert_eq!(r, Err(PreclearError::ValidationFailed { offset: 200 }));
    assert_eq!(PreclearError::StartBeyondDisk.exit_code(), 1);
    let mut disk = vec![7u8; 300];
    let o = Options::new(Some(64), 0, false, true, None).unwrap();
    assert_eq!(run_on_memory(&mut disk, o, &|_| {}), Ok(Step::Finished(Outcome::DiskCleaned)));
    assert!(disk.iter().all(|b| *b == 0));
}

#[test]
fn scenario_start_offset() {
    let mut disk = vec![0x55u8; (10 * MIB) as usize];
    let key = Some(KEY_TEXT.as_bytes());
    let o = Options::new(Some(MIB), 5 * MIB, true, false, key).unwrap();
    let run = Run::new(o, disk.len() as u64, 0).unwrap();
    assert_eq!(run.start_block, 5);
    assert_eq!(run.next_step(), Step::Write { index: 5, first: 5 * MIB, len: MIB });
    let o = Options::new(Some(MIB), 5 * MIB, true, false, key).unwrap();
    assert_eq!(
        run_on_memory(&mut disk, o, &|_| {}),
        Ok(Step::Finished(Outcome::ReadWriteTest))
    );
    assert!(disk[..(5 * MIB) as usize].iter().all(|b| *b == 0x55));
    assert!(disk[(5 * MIB) as usize..].iter().any(|b| *b != 0x55));
}

#[test]
fn last_partial_block_is_truncated() {
    let mut disk = vec![0u8; 100];
    let o = Options::new(Some(48), 0, true, false, Some(KEY_TEXT.as_bytes())).unwrap();
    let mut run = Run::new(o, 100, 0).unwrap();
    assert_eq!(run.plan.block_count, 3);
    run.block_written(1, 1);
    run.block_written(1, 1);
    assert_eq!(run.next_step(), Step::Write { index: 2, first: 96, len: 4 });
    assert_eq!(run.block_data().len(), 4);
    run.block_written(1, 1);
    assert_eq!(run.phase, Phase::Verify);
    assert_eq!(run.next_block, 0);
    let o = Options::new(Some(48), 0, true, false, Some(KEY_TEXT.as_bytes())).unwrap();
    assert_eq!(
        run_on_memory(&mut disk, o, &|_| {}),
        Ok(Step::Finished(Outcome::ReadWriteTest))
    );
}
