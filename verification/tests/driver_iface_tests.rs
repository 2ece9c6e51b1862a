use wari::driver_iface::{
    build_manifest, manifest_size, pad_name, DriverKind, ExportDecl, FuncSig, ImportDecl,
    ManifestHeader, SocketProto, MANIFEST_ABI_VERSION, MODULE_MAX, NAME_MAX,
};

#[test]
fn header_is_16_bytes_packed() {
    assert_eq!(core::mem::size_of::<ManifestHeader>(), 16);
    assert_eq!(core::mem::align_of::<ManifestHeader>(), 1);
}

#[test]
fn export_decl_is_36_bytes_packed() {
    assert_eq!(core::mem::size_of::<ExportDecl>(), 36);
    assert_eq!(core::mem::align_of::<ExportDecl>(), 1);
}

#[test]
fn import_decl_is_52_bytes_packed() {
    assert_eq!(core::mem::size_of::<ImportDecl>(), 52);
    assert_eq!(core::mem::align_of::<ImportDecl>(), 1);
}

#[test]
fn driver_kind_round_trips() {
    for k in [DriverKind::Uart, DriverKind::Net, DriverKind::Block] {
        assert_eq!(DriverKind::from_raw(k.to_raw()), Some(k));
    }
    assert_eq!(DriverKind::from_raw(0), None);
    assert_eq!(DriverKind::from_raw(0xFFFF), None);
}

#[test]
fn func_sig_round_trips() {
    let all = [
        FuncSig::UnitUnit,
        FuncSig::U32xU32I32,
        FuncSig::U32I32,
        FuncSig::U32U32,
        FuncSig::U64I32,
        FuncSig::UnitU64,
        FuncSig::U32x5I32,
    ];
    for s in all {
        assert_eq!(FuncSig::from_raw(s.to_raw()), Some(s));
    }
    assert_eq!(FuncSig::from_raw(0), None);
    assert_eq!(FuncSig::from_raw(0xFF), None);
}

#[test]
fn pad_name_writes_nul_terminator() {
    let n: [u8; 8] = pad_name(b"write");
    assert_eq!(&n[..5], b"write");
    assert_eq!(n[5], 0);
    assert_eq!(n[6], 0);
    assert_eq!(n[7], 0);
}

fn uart_manifest() -> Vec<u8> {
    let exports: [(&[u8], FuncSig); 2] = [(b"write", FuncSig::U32xU32I32), (b"_start", FuncSig::UnitUnit)];
    let imports: [(&[u8], &[u8], FuncSig); 2] = [
        (b"wari", b"wari_mmio_write8", FuncSig::U32xU32I32),
        (b"wari", b"wari_mmio_read8", FuncSig::U32U32),
    ];
    build_manifest(DriverKind::Uart, &exports, &imports)
}

#[test]
fn build_manifest_uart_round_trip() {
    let m = uart_manifest();
    assert_eq!(m.len(), 192);
    assert_eq!(&m[0..4], b"WDM\0");
    assert_eq!(u16::from_le_bytes([m[4], m[5]]), MANIFEST_ABI_VERSION);
    assert_eq!(u16::from_le_bytes([m[6], m[7]]), DriverKind::Uart.to_raw());
    assert_eq!(u16::from_le_bytes([m[8], m[9]]), 2);
    assert_eq!(u16::from_le_bytes([m[10], m[11]]), 2);
    let off = 16;
    assert_eq!(&m[off..off + 5], b"write");
    assert_eq!(m[off + 5], 0);
    assert_eq!(m[off + NAME_MAX], FuncSig::U32xU32I32.to_raw());
    let off = 16 + 36;
    assert_eq!(&m[off..off + 6], b"_start");
    assert_eq!(m[off + NAME_MAX], FuncSig::UnitUnit.to_raw());
    let off = 16 + 2 * 36;
    assert_eq!(&m[off..off + 4], b"wari");
    assert_eq!(m[off + 4], 0);
    assert_eq!(&m[off + MODULE_MAX..off + MODULE_MAX + 16], b"wari_mmio_write8");
    assert_eq!(m[off + MODULE_MAX + NAME_MAX], FuncSig::U32xU32I32.to_raw());
}

#[test]
fn worked_uart_manifest_size() {
    let h = core::mem::size_of::<ManifestHeader>();
    let e = core::mem::size_of::<ExportDecl>();
    let i = core::mem::size_of::<ImportDecl>();
    assert_eq!(h + 2 * e + 2 * i, 192);
}

#[test]
fn manifest_size_matches_formula() {
    assert_eq!(manifest_size(2, 2), 192);
    assert_eq!(manifest_size(0, 0), 16);
    assert_eq!(manifest_size(3, 7), 16 + 3 * 36 + 7 * 52);
}

#[test]
fn socket_proto_round_trips() {
    assert_eq!(SocketProto::from_raw(1), Some(SocketProto::Tcp));
    assert_eq!(SocketProto::from_raw(2), Some(SocketProto::Udp));
    assert_eq!(SocketProto::from_raw(0), None);
    assert_eq!(SocketProto::from_raw(SocketProto::Udp.to_raw()), Some(SocketProto::Udp));
}

#[test]
fn wasm_shape_of_five_argument_signature() {
    let s = FuncSig::U32x5I32.wasm_shape();
    assert_eq!(s.params.len(), 5);
    assert_eq!(s.results.len(), 1);
    let u = FuncSig::UnitUnit.wasm_shape();
    assert_eq!(u.params.len(), 0);
    assert_eq!(u.results.len(), 0);
}
