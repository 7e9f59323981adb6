use pyevereader::error::EngineError;
use pyevereader::process::Process;
use pyevereader::region::{MemoryRegion, ProcessHandle};

fn region(start: u64, size: usize, fill: u8) -> MemoryRegion {
    MemoryRegion::new(start, size, ProcessHandle::File, Some(vec![fill; size])).unwrap()
}

fn two_region_process() -> Process {
    Process::new(
        1,
        "p".to_string(),
        "t".to_string(),
        vec![region(0x1000, 0x100, 0xAA), region(0x3000, 0x50, 0xBB)],
        ProcessHandle::File,
    )
    .unwrap()
}

#[test]
fn locate_hits_inside_regions() {
    let p = two_region_process();
    assert_eq!(p.get_region_from_address(0x1000).unwrap(), (0, 0));
    assert_eq!(p.get_region_from_address(0x10FF).unwrap(), (0, 0xFF));
    assert_eq!(p.get_region_from_address(0x3010).unwrap(), (1, 0x10));
    assert_eq!(p.get_region_from_address(0x304F).unwrap(), (1, 0x4F));
}

#[test]
fn locate_rejects_outside_addresses() {
    let p = two_region_process();
    assert_eq!(p.get_region_from_address(0x0).unwrap_err(), EngineError::NotMapped);
    assert_eq!(p.get_region_from_address(0xFFF).unwrap_err(), EngineError::NotMapped);
    assert_eq!(p.get_region_from_address(0x1100).unwrap_err(), EngineError::NotMapped);
    assert_eq!(p.get_region_from_address(0x2000).unwrap_err(), EngineError::NotMapped);
    assert_eq!(p.get_region_from_address(0x3050).unwrap_err(), EngineError::NotMapped);
}

#[test]
fn locate_is_stable_across_repeats() {
    // The advisory lookup cache must never change observable behavior.
    let p = two_region_process();
    for _ in 0..3 {
        assert_eq!(p.get_region_from_address(0x1010).unwrap(), (0, 0x10));
        assert_eq!(p.get_region_from_address(0x3000).unwrap(), (1, 0));
        assert_eq!(p.get_region_from_address(0x2000).unwrap_err(), EngineError::NotMapped);
    }
}

#[test]
fn read_cache_bounds_are_enforced() {
    let p = two_region_process();
    let r = p.read_cache(0x10F0, 0x10).unwrap();
    assert_eq!(r.start, 0x10F0);
    assert_eq!(r.size, 0x10);
    assert_eq!(r.data, vec![0xAA; 0x10]);
    assert_eq!(p.read_cache(0x10F0, 0x11).unwrap_err(), EngineError::OutOfBounds);
    assert_eq!(p.read_cache(0x2000, 1).unwrap_err(), EngineError::NotMapped);
}

#[test]
fn process_new_rejects_unsorted_regions() {
    let r = Process::new(
        1,
        "p".to_string(),
        "t".to_string(),
        vec![region(0x3000, 0x50, 0), region(0x1000, 0x100, 0)],
        ProcessHandle::File,
    );
    assert!(matches!(r, Err(EngineError::InvalidAddr)));
}

#[test]
fn process_new_rejects_overlapping_regions() {
    let r = Process::new(
        1,
        "p".to_string(),
        "t".to_string(),
        vec![region(0x1000, 0x100, 0), region(0x10FF, 0x10, 0)],
        ProcessHandle::File,
    );
    assert!(matches!(r, Err(EngineError::InvalidAddr)));
}

#[test]
fn region_new_checks_supplied_buffer() {
    assert!(MemoryRegion::new(0x1000, 4, ProcessHandle::File, Some(vec![1, 2, 3])).is_err());
    let zeroed = MemoryRegion::new(0x1000, 4, ProcessHandle::Unbound, None).unwrap();
    assert_eq!(zeroed.data, vec![0, 0, 0, 0]);
    let rebound = zeroed.bound(ProcessHandle::Live(9));
    assert!(matches!(rebound.handle, ProcessHandle::Live(9)));
}

#[test]
fn region_readers_decode_little_endian() {
    let mut data = vec![0u8; 16];
    data[0..8].copy_from_slice(&0x0102_0304_0506_0708u64.to_le_bytes());
    data[8..12].copy_from_slice(&(-5i32).to_le_bytes());
    data[12..14].copy_from_slice(&0xBEEFu16.to_le_bytes());
    let r = MemoryRegion::new(0, 16, ProcessHandle::File, Some(data)).unwrap();
    assert_eq!(r.u64_at(0).unwrap(), 0x0102_0304_0506_0708);
    assert_eq!(r.i32_at(8).unwrap(), -5);
    assert_eq!(r.u16_at(12).unwrap(), 0xBEEF);
    assert_eq!(r.u64_at(9).unwrap_err(), EngineError::OutOfBounds);
    let copy = r.read_bytes(12, 2).unwrap();
    assert_eq!(copy.start, 12);
    assert_eq!(copy.data, vec![0xEF, 0xBE]);
    assert_eq!(r.view_bytes(8, 4).unwrap(), &(-5i32).to_le_bytes());
}

#[test]
fn region_i64_reader_sign_extends() {
    let mut data = vec![0u8; 8];
    data.copy_from_slice(&(-1234567890123i64).to_le_bytes());
    let r = MemoryRegion::new(0, 8, ProcessHandle::File, Some(data)).unwrap();
    assert_eq!(r.i64_at(0).unwrap(), -1234567890123);
}

#[test]
fn list_filters_by_pid_path_and_title() {
    let mk = |pid: u32, path: &str, title: &str| {
        Process::new(pid, path.to_string(), title.to_string(), vec![], ProcessHandle::Unbound)
            .unwrap()
    };
    let procs = vec![
        mk(1, "C:\\game\\exefile.exe", "alpha"),
        mk(2, "C:\\tools\\editor.exe", "beta"),
        mk(3, "D:\\exefile.exe", "alpha"),
    ];
    let kept = Process::list(procs, None, Some("*exefile*"), None).unwrap();
    assert_eq!(kept.len(), 2);
    assert_eq!(kept[0].pid, 1);
    assert_eq!(kept[1].pid, 3);

    let mk2 = || vec![mk(1, "C:\\game\\exefile.exe", "alpha"), mk(2, "C:\\x.exe", "beta")];
    let by_pid = Process::list(mk2(), Some(2), None, None).unwrap();
    assert_eq!(by_pid.len(), 1);
    assert_eq!(by_pid[0].pid, 2);

    let by_title = Process::list(mk2(), None, None, Some("al?ha")).unwrap();
    assert_eq!(by_title.len(), 1);
    assert_eq!(by_title[0].pid, 1);

    assert!(matches!(
        Process::list(mk2(), None, Some("*nomatch*"), None),
        Err(EngineError::NotFound)
    ));
}

#[test]
fn error_descriptions_are_distinct() {
    let kinds = [
        EngineError::NotFound,
        EngineError::InvalidAddr,
        EngineError::OutOfBounds,
        EngineError::NotMapped,
        EngineError::DecodeFail,
        EngineError::ReadError,
    ];
    for (i, a) in kinds.iter().enumerate() {
        assert!(!a.describe().is_empty());
        for b in kinds.iter().skip(i + 1) {
            assert_ne!(a.describe(), b.describe());
        }
    }
}
