use pyevereader::engine::EVEProcess;
use pyevereader::error::EngineError;
use pyevereader::process::Process;
use pyevereader::region::{MemoryRegion, ProcessHandle};
use pyevereader::scan::{scan_all, ScanKind};

fn put_u64(buf: &mut Vec<u8>, off: usize, v: u64) {
    buf[off..off + 8].copy_from_slice(&v.to_le_bytes());
}

fn put_i64(buf: &mut Vec<u8>, off: usize, v: i64) {
    buf[off..off + 8].copy_from_slice(&v.to_le_bytes());
}

/// One region holding a self-typed `type` descriptor at its base and an
/// `int` type plus one int object behind it.
fn typed_region(base: u64) -> MemoryRegion {
    let mut m = vec![0u8; 0x400];
    // self-typed meta at base.
    put_i64(&mut m, 0, 1);
    put_u64(&mut m, 8, base);
    put_u64(&mut m, 24, base + 0x100);
    m[0x100..0x105].copy_from_slice(b"type\0");
    // int type at base + 0x140.
    put_i64(&mut m, 0x140, 1);
    put_u64(&mut m, 0x148, base);
    put_u64(&mut m, 0x158, base + 0x110);
    m[0x110..0x114].copy_from_slice(b"int\0");
    // int object at base + 0x180 with value 7.
    put_u64(&mut m, 0x188, base + 0x140);
    m[0x190..0x194].copy_from_slice(&7i32.to_le_bytes());
    MemoryRegion::new(base, 0x400, ProcessHandle::File, Some(m)).unwrap()
}

fn process_with(regions: Vec<MemoryRegion>) -> Process {
    Process::new(1, "p".to_string(), "t".to_string(), regions, ProcessHandle::File).unwrap()
}

#[test]
fn scanner_finds_every_match_once() {
    // Two regions, each holding one self-typed descriptor: both appear in
    // the sweep, each exactly once, in region order.
    let p = process_with(vec![typed_region(0x1000), typed_region(0x8000)]);
    let hits = scan_all(&p, &ScanKind::TypeSelf);
    assert_eq!(hits, vec![0x1000, 0x8000]);
}

#[test]
fn scanner_yields_nothing_on_blank_memory() {
    let blank = MemoryRegion::new(0x1000, 0x200, ProcessHandle::File, None).unwrap();
    let p = process_with(vec![blank]);
    assert!(scan_all(&p, &ScanKind::TypeSelf).is_empty());
    assert!(scan_all(&p, &ScanKind::UiRootCand { tp_addr: 0x1000 }).is_empty());
}

#[test]
fn new_node_twice_returns_same_node() {
    let p = process_with(vec![typed_region(0x1000)]);
    let mut e = EVEProcess::attach(p);
    e.new_node(0x1180).unwrap();
    let (base1, type1, name1, parsed1) = {
        let n = e.get_node(0x1180).unwrap();
        (n.base_addr, n.ob_type, n.tp_name.clone(), n.is_parsed)
    };
    e.new_node(0x1180).unwrap();
    let n2 = e.get_node(0x1180).unwrap();
    assert_eq!(n2.base_addr, base1);
    assert_eq!(n2.ob_type, type1);
    assert_eq!(n2.tp_name, name1);
    assert_eq!(n2.is_parsed, parsed1);
    assert_eq!(n2.tp_name, "int");
    assert_eq!(e.parse_int(0x1180).unwrap(), 7);
}

#[test]
fn del_then_new_yields_unparsed_node() {
    let p = process_with(vec![typed_region(0x1000)]);
    let mut e = EVEProcess::attach(p);
    e.new_node(0x1180).unwrap();
    e.parse_node(0x1180).unwrap();
    e.del_node(0x1180).unwrap();
    assert!(e.get_node(0x1180).is_none());
    assert_eq!(e.del_node(0x1180).unwrap_err(), EngineError::InvalidAddr);
    e.new_node(0x1180).unwrap();
    let n = e.get_node(0x1180).unwrap();
    assert!(!n.is_parsed);
    assert!(n.attrs.is_empty());
    assert!(n.items.is_empty());
}

#[test]
fn new_node_rejects_zero_and_unmapped() {
    let p = process_with(vec![typed_region(0x1000)]);
    let mut e = EVEProcess::attach(p);
    assert_eq!(e.new_node(0).unwrap_err(), EngineError::InvalidAddr);
    assert_eq!(e.new_node(0x9999_0000).unwrap_err(), EngineError::NotMapped);
    assert_eq!(e.new_node(0x13F8).unwrap_err(), EngineError::OutOfBounds);
}

#[test]
fn init_without_candidates_is_not_found() {
    let blank = MemoryRegion::new(0x1000, 0x200, ProcessHandle::File, None).unwrap();
    let p = process_with(vec![blank]);
    let mut e = EVEProcess::attach(p);
    assert_eq!(e.init().unwrap_err(), EngineError::NotFound);
    assert_eq!(e.py_type, 0);
    assert_eq!(e.ui_root, 0);
}

#[test]
fn engine_list_filters_game_clients() {
    let mk = |pid: u32, path: &str, title: &str| {
        Process::new(pid, path.to_string(), title.to_string(), vec![], ProcessHandle::Unbound)
            .unwrap()
    };
    let procs = vec![
        mk(1, "C:\\eve\\bin\\exefile.exe", "\u{661f}\u{6218}\u{524d}\u{591c} - pilot"),
        mk(2, "C:\\eve\\bin\\exefile.exe", "launcher"),
        mk(3, "C:\\other.exe", "\u{661f}\u{6218}\u{524d}\u{591c}"),
    ];
    let engines = EVEProcess::list(procs).unwrap();
    assert_eq!(engines.len(), 1);
    assert_eq!(engines[0].process.pid, 1);
    assert_eq!(engines[0].py_type, 0);
    assert_eq!(engines[0].ui_root, 0);

    let none = vec![mk(4, "C:\\other.exe", "nothing")];
    assert!(matches!(EVEProcess::list(none), Err(EngineError::NotFound)));
}
