use wari::driver_iface::{
    build_manifest, magic, section_name, DriverKind, DriverManifestError, FuncSig,
    MANIFEST_ABI_VERSION, MODULE_MAX, NAME_MAX,
};
use wari::parse::{find_section_payload, parse_from_wasm, read_leb128_u32, trim_nul};

const WASM_MAGIC: [u8; 4] = [0x00, 0x61, 0x73, 0x6d];
const WASM_VERSION: [u8; 4] = [0x01, 0x00, 0x00, 0x00];
const SECTION_ID_CUSTOM: u8 = 0;

fn synth_wasm(manifest: &[u8]) -> Vec<u8> {
    let name = section_name();
    let mut sec_payload = Vec::new();
    sec_payload.push(name.len() as u8);
    sec_payload.extend_from_slice(&name);
    sec_payload.extend_from_slice(manifest);

    let mut wasm = Vec::new();
    wasm.extend_from_slice(&WASM_MAGIC);
    wasm.extend_from_slice(&WASM_VERSION);
    wasm.push(SECTION_ID_CUSTOM);
    let mut s = sec_payload.len() as u32;
    loop {
        let mut b = (s & 0x7f) as u8;
        s >>= 7;
        if s != 0 {
            b |= 0x80;
        }
        wasm.push(b);
        if s == 0 {
            break;
        }
    }
    wasm.extend_from_slice(&sec_payload);
    wasm
}

fn uart_manifest_bytes() -> Vec<u8> {
    let exports: [(&[u8], FuncSig); 2] = [(b"write", FuncSig::U32xU32I32), (b"_start", FuncSig::UnitUnit)];
    let imports: [(&[u8], &[u8], FuncSig); 2] = [
        (b"wari", b"mmio_write8", FuncSig::U32xU32I32),
        (b"wari", b"mmio_read8", FuncSig::U32U32),
    ];
    build_manifest(DriverKind::Uart, &exports, &imports)
}

fn manifest_start_offset(wasm: &[u8]) -> usize {
    let name = section_name();
    let (a, _b) = find_section_payload(wasm, &name).unwrap().unwrap();
    a
}

#[test]
fn round_trip_uart() {
    let wasm = synth_wasm(&uart_manifest_bytes());
    let view = parse_from_wasm(&wasm).expect("parse ok");
    assert_eq!(view.kind().expect("kind ok"), DriverKind::Uart);
    assert_eq!(view.abi_version(), MANIFEST_ABI_VERSION);
    assert_eq!(view.exports.len(), 2);
    assert_eq!(view.imports.len(), 2);
    assert_eq!(trim_nul(&view.exports[0].name), b"write");
    assert_eq!(view.exports[0].sig, FuncSig::U32xU32I32.to_raw());
    assert_eq!(trim_nul(&view.exports[1].name), b"_start");
    assert_eq!(view.exports[1].sig, FuncSig::UnitUnit.to_raw());
    assert_eq!(trim_nul(&view.imports[0].module), b"wari");
    assert_eq!(trim_nul(&view.imports[0].name), b"mmio_write8");
    assert_eq!(trim_nul(&view.imports[1].name), b"mmio_read8");
}

#[test]
fn rejects_bad_magic() {
    let mut wasm = synth_wasm(&uart_manifest_bytes());
    let off = manifest_start_offset(&wasm);
    wasm[off] = b'X';
    assert!(matches!(parse_from_wasm(&wasm), Err(DriverManifestError::BadMagic)));
}

#[test]
fn rejects_bad_abi_version() {
    let mut wasm = synth_wasm(&uart_manifest_bytes());
    let off = manifest_start_offset(&wasm);
    wasm[off + 4] = 0xff;
    wasm[off + 5] = 0xff;
    assert!(matches!(parse_from_wasm(&wasm), Err(DriverManifestError::UnsupportedAbiVersion)));
}

#[test]
fn rejects_unknown_sig_in_export() {
    let mut wasm = synth_wasm(&uart_manifest_bytes());
    let off = manifest_start_offset(&wasm);
    wasm[off + 16 + NAME_MAX] = 0xff;
    assert!(matches!(parse_from_wasm(&wasm), Err(DriverManifestError::UnknownSig)));
}

#[test]
fn rejects_unknown_sig_in_import() {
    let mut wasm = synth_wasm(&uart_manifest_bytes());
    let off = manifest_start_offset(&wasm);
    wasm[off + 88 + MODULE_MAX + NAME_MAX] = 0xff;
    assert!(matches!(parse_from_wasm(&wasm), Err(DriverManifestError::UnknownSig)));
}

#[test]
fn rejects_truncated_header() {
    let mut bytes = [0u8; 8];
    bytes[0..4].copy_from_slice(&magic());
    let wasm = synth_wasm(&bytes);
    assert!(matches!(parse_from_wasm(&wasm), Err(DriverManifestError::Truncated)));
}

#[test]
fn rejects_truncated_export_array() {
    let mut bytes = [0u8; 16];
    bytes[0..4].copy_from_slice(&magic());
    bytes[4] = MANIFEST_ABI_VERSION as u8;
    bytes[5] = (MANIFEST_ABI_VERSION >> 8) as u8;
    bytes[6] = DriverKind::Uart.to_raw() as u8;
    bytes[8] = 99;
    let wasm = synth_wasm(&bytes);
    assert!(matches!(parse_from_wasm(&wasm), Err(DriverManifestError::Truncated)));
}

#[test]
fn rejects_unknown_kind_in_view() {
    let mut bytes = [0u8; 16];
    bytes[0..4].copy_from_slice(&magic());
    bytes[4] = MANIFEST_ABI_VERSION as u8;
    bytes[5] = (MANIFEST_ABI_VERSION >> 8) as u8;
    bytes[6] = 99;
    let wasm = synth_wasm(&bytes);
    let view = parse_from_wasm(&wasm).expect("header parses");
    assert_eq!(view.kind(), Err(DriverManifestError::UnknownKind));
}

#[test]
fn missing_when_no_section() {
    let mut wasm = Vec::new();
    wasm.extend_from_slice(&WASM_MAGIC);
    wasm.extend_from_slice(&WASM_VERSION);
    assert!(matches!(parse_from_wasm(&wasm), Err(DriverManifestError::Missing)));
}

#[test]
fn missing_when_wrong_section_name() {
    let mut wasm = synth_wasm(&uart_manifest_bytes());
    let needle = section_name();
    let pos = wasm
        .windows(needle.len())
        .position(|w| w == &needle[..])
        .expect("wasm contains the section name");
    wasm[pos] = b'X';
    assert!(matches!(parse_from_wasm(&wasm), Err(DriverManifestError::Missing)));
}

#[test]
fn rejects_truncated_input() {
    let wasm = synth_wasm(&uart_manifest_bytes());
    for cut in 0..wasm.len() {
        let _ = parse_from_wasm(&wasm[..cut]);
    }
}

#[test]
fn leb128_one_byte() {
    let buf = [0x00, 0x7f, 0x01, 0x42];
    assert_eq!(read_leb128_u32(&buf, 0).unwrap(), (0, 1));
    assert_eq!(read_leb128_u32(&buf, 1).unwrap(), (127, 2));
    assert_eq!(read_leb128_u32(&buf, 2).unwrap(), (1, 3));
    assert_eq!(read_leb128_u32(&buf, 3).unwrap(), (66, 4));
}

#[test]
fn leb128_multi_byte() {
    let buf = [0xE5, 0x8E, 0x26];
    assert_eq!(read_leb128_u32(&buf, 0).unwrap(), (624485, 3));
}

#[test]
fn leb128_rejects_overlong() {
    let buf = [0x80, 0x80, 0x80, 0x80, 0x80, 0x80];
    assert!(read_leb128_u32(&buf, 0).is_err());
}

#[test]
fn leb128_rejects_truncated() {
    let buf = [0x80];
    assert!(read_leb128_u32(&buf, 0).is_err());
}

#[test]
fn parser_is_total_on_short_inputs() {
    let wasm = synth_wasm(&uart_manifest_bytes());
    for i in 0..wasm.len().min(64) {
        for v in [0u8, 0x01, 0x80, 0xff] {
            let mut copy = wasm.clone();
            copy[i] = v;
            let _ = parse_from_wasm(&copy);
        }
    }
}

#[test]
fn trim_nul_removes_only_trailing_nuls() {
    assert_eq!(trim_nul(b"ab\0\0"), b"ab");
    assert_eq!(trim_nul(b"a\0b"), b"a\0b");
    assert_eq!(trim_nul(b"abc"), b"abc");
    assert_eq!(trim_nul(b"\0"), b"");
}
