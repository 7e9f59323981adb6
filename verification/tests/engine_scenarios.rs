use pyevereader::engine::{EVEProcess, ObjKind};
use pyevereader::error::EngineError;
use pyevereader::process::Process;
use pyevereader::region::{MemoryRegion, ProcessHandle};

const BASE: u64 = 0x1000;
const SIZE: usize = 0x5000;

fn put(buf: &mut Vec<u8>, addr: u64, bytes: &[u8]) {
    let off = (addr - BASE) as usize;
    buf[off..off + bytes.len()].copy_from_slice(bytes);
}

fn put_u64(buf: &mut Vec<u8>, addr: u64, v: u64) {
    put(buf, addr, &v.to_le_bytes());
}

fn put_i64(buf: &mut Vec<u8>, addr: u64, v: i64) {
    put(buf, addr, &v.to_le_bytes());
}

fn put_u32(buf: &mut Vec<u8>, addr: u64, v: u32) {
    put(buf, addr, &v.to_le_bytes());
}

fn put_i32(buf: &mut Vec<u8>, addr: u64, v: i32) {
    put(buf, addr, &v.to_le_bytes());
}

/// A type descriptor: refcount 1, meta type, size 0, name pointer.
fn put_type(buf: &mut Vec<u8>, addr: u64, meta: u64, name_ptr: u64) {
    put_i64(buf, addr, 1);
    put_u64(buf, addr + 8, meta);
    put_i64(buf, addr + 16, 0);
    put_u64(buf, addr + 24, name_ptr);
}

/// The synthesized client memory image used by the scenarios.
fn snapshot() -> Vec<u8> {
    let mut m = vec![0u8; SIZE];
    // Meta-type at 0x1000, self-typed, named "type".
    put_type(&mut m, 0x1000, 0x1000, 0x1100);
    put(&mut m, 0x1100, b"type\0");
    put(&mut m, 0x1110, b"int\0");
    put(&mut m, 0x1120, b"list\0");
    put(&mut m, 0x1130, b"dict\0");
    put(&mut m, 0x1140, b"str\0");
    put(&mut m, 0x1150, b"bool\0");
    put(&mut m, 0x1160, b"float\0");
    put(&mut m, 0x1170, b"long\0");
    put(&mut m, 0x1180, b"unicode\0");
    put(&mut m, 0x1190, b"NoneType\0");
    put(&mut m, 0x11A0, b"Widget\0");
    // 0x11B0 stays zero: an empty type name.
    put_type(&mut m, 0x1200, 0x1000, 0x1110); // int
    put_type(&mut m, 0x1240, 0x1000, 0x1120); // list
    put_type(&mut m, 0x1280, 0x1000, 0x1130); // dict
    put_type(&mut m, 0x12C0, 0x1000, 0x1140); // str
    put_type(&mut m, 0x1300, 0x1000, 0x1150); // bool
    put_type(&mut m, 0x1340, 0x1000, 0x1160); // float
    put_type(&mut m, 0x1380, 0x1000, 0x1170); // long
    put_type(&mut m, 0x13C0, 0x1000, 0x1180); // unicode
    put_type(&mut m, 0x1400, 0x1000, 0x1190); // NoneType
    put_type(&mut m, 0x1440, 0x1000, 0x11A0); // Widget (custom)
    put_type(&mut m, 0x1480, 0x1000, 0x11B0); // empty name
    // UIRoot type at 0x2000.
    put_type(&mut m, 0x2000, 0x1000, 0x2100);
    put(&mut m, 0x2100, b"UIRoot\0");
    // int object at 0x3000 with value -42.
    put_i64(&mut m, 0x3000, 1);
    put_u64(&mut m, 0x3008, 0x1200);
    put_i32(&mut m, 0x3010, -42);
    // bool objects.
    put_u64(&mut m, 0x3108, 0x1300);
    put_i32(&mut m, 0x3110, 1);
    put_u64(&mut m, 0x3148, 0x1300);
    put_i32(&mut m, 0x3150, 0);
    // float object with value 3.5.
    put_u64(&mut m, 0x3188, 0x1340);
    put_u64(&mut m, 0x3190, 3.5f64.to_bits());
    // long object: sign -1, digits [1, 2].
    put_u64(&mut m, 0x31C8, 0x1380);
    put_i64(&mut m, 0x31D0, -2);
    put_u32(&mut m, 0x31D8, 1);
    put_u32(&mut m, 0x31DC, 2);
    // long object: zero digits.
    put_u64(&mut m, 0x3248, 0x1380);
    put_i64(&mut m, 0x3250, 0);
    // NoneType object.
    put_u64(&mut m, 0x3288, 0x1400);
    // custom object of type Widget, attributes -> dict at 0x5000.
    put_u64(&mut m, 0x32C8, 0x1440);
    put_u64(&mut m, 0x32D0, 0x5000);
    // str object "hello".
    put_u64(&mut m, 0x3308, 0x12C0);
    put_i64(&mut m, 0x3310, 5);
    put(&mut m, 0x3320, b"hello");
    // str object with invalid UTF-8 payload.
    put_u64(&mut m, 0x3348, 0x12C0);
    put_i64(&mut m, 0x3350, 2);
    put(&mut m, 0x3360, &[0xFF, 0x41]);
    // unicode object "hi", units at 0x5600.
    put_u64(&mut m, 0x3388, 0x13C0);
    put_i64(&mut m, 0x3390, 2);
    put_u64(&mut m, 0x3398, 0x5600);
    // object whose type has an empty name.
    put_u64(&mut m, 0x3408, 0x1480);
    // UIRoot-typed object whose attributes point at the dict below.
    put_u64(&mut m, 0x3508, 0x2000);
    put_u64(&mut m, 0x3510, 0x5000);
    // list object at 0x4000 with items [0x3000, 0x3000, 0x0].
    put_u64(&mut m, 0x4008, 0x1240);
    put_i64(&mut m, 0x4010, 3);
    put_u64(&mut m, 0x4018, 0x3000);
    put_u64(&mut m, 0x4020, 0x3000);
    put_u64(&mut m, 0x4028, 0x0000);
    // dict object at 0x5000: ma_mask 7, ma_table 0x5100.
    put_u64(&mut m, 0x5008, 0x1280);
    put_i64(&mut m, 0x5020, 7);
    put_u64(&mut m, 0x5028, 0x5100);
    // occupied slots 2 and 5 with str keys "a" and "b".
    put_u64(&mut m, 0x5100 + 2 * 24 + 8, 0x5300);
    put_u64(&mut m, 0x5100 + 2 * 24 + 16, 0x3000);
    put_u64(&mut m, 0x5100 + 5 * 24 + 8, 0x5340);
    put_u64(&mut m, 0x5100 + 5 * 24 + 16, 0x3000);
    // key strings.
    put_u64(&mut m, 0x5308, 0x12C0);
    put_i64(&mut m, 0x5310, 1);
    put(&mut m, 0x5320, b"a");
    put_u64(&mut m, 0x5348, 0x12C0);
    put_i64(&mut m, 0x5350, 1);
    put(&mut m, 0x5360, b"b");
    // UTF-16 units "hi".
    put(&mut m, 0x5600, &[0x68, 0x00, 0x69, 0x00]);
    // unicode object with a surrogate pair (U+1F600), units at 0x5610.
    put_u64(&mut m, 0x3448, 0x13C0);
    put_i64(&mut m, 0x3450, 2);
    put_u64(&mut m, 0x3458, 0x5610);
    put(&mut m, 0x5610, &[0x3D, 0xD8, 0x00, 0xDE]);
    // long object whose digit sum is exactly 2^64: the value wraps to zero.
    put_u64(&mut m, 0x3608, 0x1380);
    put_i64(&mut m, 0x3610, 3);
    put_u32(&mut m, 0x3618, 0);
    put_u32(&mut m, 0x361C, 0);
    put_u32(&mut m, 0x3620, 16);
    m
}

fn engine() -> EVEProcess {
    let region = MemoryRegion::new(BASE, SIZE, ProcessHandle::File, Some(snapshot())).unwrap();
    let process =
        Process::new(7, "client".to_string(), "client".to_string(), vec![region], ProcessHandle::File)
            .unwrap();
    EVEProcess::attach(process)
}

#[test]
fn init_finds_self_typed_meta() {
    let mut e = engine();
    let got = e.init().unwrap();
    assert_eq!(got, 0x1000);
    assert_eq!(e.py_type, 0x1000);
    let meta = e.get_node(0x1000).unwrap();
    assert_eq!(meta.base_addr, 0x1000);
    assert_eq!(meta.ob_type, 0x1000);
    assert_eq!(meta.tp_name, "type");
}

#[test]
fn init_records_ui_root_type() {
    let mut e = engine();
    e.init().unwrap();
    assert_eq!(e.ui_root, 0x2000);
    let found = e.search_type("UIRoot", None).unwrap();
    assert_eq!(found, vec![0x2000]);
}

#[test]
fn search_ui_root_finds_candidate() {
    let mut e = engine();
    e.init().unwrap();
    let candidates = e.search_ui_root(None).unwrap();
    assert_eq!(candidates, vec![0x3500]);
}

#[test]
fn decode_int_returns_value() {
    let mut e = engine();
    e.init().unwrap();
    e.new_node(0x3000).unwrap();
    assert_eq!(e.parse_int(0x3000).unwrap(), -42);
}

#[test]
fn decode_list_returns_item_addresses() {
    let mut e = engine();
    e.init().unwrap();
    e.new_node(0x4000).unwrap();
    let items = e.parse_list(0x4000).unwrap();
    assert_eq!(items, vec![0x3000, 0x3000, 0x0]);
    let node = e.get_node(0x4000).unwrap();
    assert_eq!(node.items, vec![0x3000, 0x3000, 0x0]);
    assert!(node.is_parsed);
}

#[test]
fn decode_dict_visits_every_slot() {
    let mut e = engine();
    e.init().unwrap();
    e.new_node(0x5000).unwrap();
    e.parse_dict(0x5000).unwrap();
    let node = e.get_node(0x5000).unwrap();
    assert_eq!(node.attrs.len(), 2);
    assert_eq!(node.attrs[0], ("a".to_string(), 0x3000));
    assert_eq!(node.attrs[1], ("b".to_string(), 0x3000));
    assert!(node.is_parsed);
    assert_eq!(node.attr("a"), Some(0x3000));
    assert_eq!(node.attr("b"), Some(0x3000));
    assert_eq!(node.attr("c"), None);
}

#[test]
fn attr_lookup_last_write_wins() {
    let node = pyevereader::engine::PyObjectNode {
        base_addr: 0,
        ob_type: 0,
        tp_name: "dict".to_string(),
        kind: pyevereader::engine::ObjKind::Dict,
        attrs: vec![
            ("k".to_string(), 0x10),
            ("other".to_string(), 0x20),
            ("k".to_string(), 0x30),
        ],
        items: vec![],
        extras: vec![],
        is_parsed: true,
    };
    assert_eq!(node.attr("k"), Some(0x30));
    assert_eq!(node.attr("other"), Some(0x20));
    assert_eq!(node.attr("missing"), None);
}

#[test]
fn corrupt_name_pointer_fails_discovery() {
    // With the UIRoot type's name pointer pointing into an unmapped range,
    // no meta-type candidate verifies: discovery reports NotFound, leaves
    // the engine untouched, and the named type cannot be found.
    let mut bytes = snapshot();
    let off = (0x2000 + 24 - BASE) as usize;
    bytes[off..off + 8].copy_from_slice(&0x9999_0000u64.to_le_bytes());
    let region = MemoryRegion::new(BASE, SIZE, ProcessHandle::File, Some(bytes)).unwrap();
    let process =
        Process::new(7, "client".to_string(), "client".to_string(), vec![region], ProcessHandle::File)
            .unwrap();
    let mut e = EVEProcess::attach(process);
    assert_eq!(e.init().unwrap_err(), EngineError::NotFound);
    assert_eq!(e.py_type, 0);
    assert_eq!(e.ui_root, 0);
    let found = e.search_type("UIRoot", Some(0x1000)).unwrap();
    assert!(found.is_empty());
    assert_eq!(e.search_type("UIRoot", None).unwrap_err(), EngineError::InvalidAddr);
}

#[test]
fn decode_bool_nonzero_is_true() {
    let mut e = engine();
    e.init().unwrap();
    e.new_node(0x3100).unwrap();
    e.new_node(0x3140).unwrap();
    assert_eq!(e.parse_bool(0x3100).unwrap(), true);
    assert_eq!(e.parse_bool(0x3140).unwrap(), false);
}

#[test]
fn decode_float_returns_bits() {
    let mut e = engine();
    e.init().unwrap();
    e.new_node(0x3180).unwrap();
    let bits = e.parse_float(0x3180).unwrap();
    assert_eq!(f64::from_bits(bits), 3.5);
}

#[test]
fn decode_long_applies_sign_and_digits() {
    let mut e = engine();
    e.init().unwrap();
    e.new_node(0x31C0).unwrap();
    // -(1 + 2 * 2^30)
    assert_eq!(e.parse_long(0x31C0).unwrap(), -2147483649);
    e.new_node(0x3240).unwrap();
    assert_eq!(e.parse_long(0x3240).unwrap(), 0);
}

#[test]
fn decode_str_round_trips_utf8() {
    let mut e = engine();
    e.init().unwrap();
    e.new_node(0x3300).unwrap();
    assert_eq!(e.parse_str(0x3300).unwrap(), "hello");
}

#[test]
fn decode_str_replaces_invalid_utf8() {
    let mut e = engine();
    e.init().unwrap();
    e.new_node(0x3340).unwrap();
    let s = e.parse_str(0x3340).unwrap();
    assert_eq!(s, "\u{FFFD}A");
}

#[test]
fn decode_unicode_reads_wide_buffer() {
    let mut e = engine();
    e.init().unwrap();
    e.new_node(0x3380).unwrap();
    assert_eq!(e.parse_unicode(0x3380).unwrap(), "hi");
}

#[test]
fn decode_unicode_combines_surrogate_pairs() {
    let mut e = engine();
    e.init().unwrap();
    e.new_node(0x3440).unwrap();
    assert_eq!(e.parse_unicode(0x3440).unwrap(), "\u{1F600}");
}

#[test]
fn decode_long_wraps_undetected_overflow() {
    // 16 * 2^60 == 2^64: the 64-bit reduction yields zero.
    let mut e = engine();
    e.init().unwrap();
    e.new_node(0x3600).unwrap();
    assert_eq!(e.parse_long(0x3600).unwrap(), 0);
}

#[test]
fn decode_none_type_validates() {
    let mut e = engine();
    e.init().unwrap();
    e.new_node(0x3280).unwrap();
    assert!(e.parse_NoneType(0x3280).is_ok());
}

#[test]
fn decode_custom_returns_attribute_pointer() {
    let mut e = engine();
    e.init().unwrap();
    e.new_node(0x32C0).unwrap();
    let node = e.get_node(0x32C0).unwrap();
    assert_eq!(node.tp_name, "Widget");
    assert!(matches!(node.kind, ObjKind::Custom));
    assert_eq!(e.parse_custom(0x32C0).unwrap(), 0x5000);
}

#[test]
fn decoder_rejects_wrong_type() {
    let mut e = engine();
    e.init().unwrap();
    e.new_node(0x3300).unwrap();
    assert_eq!(e.parse_int(0x3300).unwrap_err(), EngineError::DecodeFail);
    assert_eq!(e.parse_dict(0x3300).unwrap_err(), EngineError::DecodeFail);
}

#[test]
fn decoder_requires_existing_node() {
    let mut e = engine();
    e.init().unwrap();
    assert_eq!(e.parse_int(0x3000).unwrap_err(), EngineError::InvalidAddr);
}

#[test]
fn parse_node_dispatches_by_name() {
    let mut e = engine();
    e.init().unwrap();
    e.new_node(0x3000).unwrap();
    assert!(e.parse_node(0x3000).is_ok());
    e.new_node(0x5000).unwrap();
    assert!(e.parse_node(0x5000).is_ok());
    assert_eq!(e.get_node(0x5000).unwrap().attrs.len(), 2);
    // A type descriptor has no decoder.
    assert_eq!(e.parse_node(0x1000).unwrap_err(), EngineError::DecodeFail);
}

#[test]
fn parse_ui_tree_expands_root() {
    // Expansion resolves the root's type name through the snapshot, so it
    // runs on a fresh engine whose cache does not yet alias the UIRoot
    // type descriptor to an instance of `type`.
    let mut e = engine();
    assert_eq!(e.parse_ui_tree(0x3500), Some(0x3500));
    let node = e.get_node(0x3500).unwrap();
    assert_eq!(node.tp_name, "UIRoot");
}

#[test]
fn cached_type_node_names_follow_creation_order() {
    // After discovery the UIRoot descriptor is cached as an instance of
    // `type`; an object typed by it then inherits that name and expansion
    // prunes the edge instead of failing.
    let mut e = engine();
    e.init().unwrap();
    assert_eq!(e.get_node(0x2000).unwrap().tp_name, "type");
    let root = e.search_ui_root(None).unwrap()[0];
    assert_eq!(e.parse_ui_tree(root), None);
    assert_eq!(e.get_node(root).unwrap().tp_name, "type");
}

#[test]
fn empty_type_name_is_decode_failure() {
    let mut e = engine();
    e.init().unwrap();
    assert_eq!(e.new_node(0x3400).unwrap_err(), EngineError::DecodeFail);
}
