use wari::driver_iface::{build_manifest, DriverKind, FuncSig};
use wari::error::KernelError;
use wari::manifest::verify_exports;
use wari::parse::parse_payload;

fn uart_view() -> wari::parse::DriverManifestView {
    let exports: [(&[u8], FuncSig); 2] = [(b"write", FuncSig::U32xU32I32), (b"_start", FuncSig::UnitUnit)];
    let imports: [(&[u8], &[u8], FuncSig); 1] = [(b"wari", b"mmio_write8", FuncSig::U32xU32I32)];
    parse_payload(&build_manifest(DriverKind::Uart, &exports, &imports)).expect("parse ok")
}

#[test]
fn all_exports_present_is_ok() {
    assert_eq!(verify_exports(&uart_view(), &[true, true]), Ok(()));
}

#[test]
fn missing_export_is_bad_export() {
    assert_eq!(verify_exports(&uart_view(), &[true, false]), Err(KernelError::DriverBadExport));
    assert_eq!(verify_exports(&uart_view(), &[false, true]), Err(KernelError::DriverBadExport));
}

#[test]
fn unknown_signature_is_malformed_in_order() {
    let mut view = uart_view();
    view.exports[1].sig = 0;
    assert_eq!(verify_exports(&view, &[true, true]), Err(KernelError::DriverManifestMalformed));
    // An earlier missing export is reported first.
    assert_eq!(verify_exports(&view, &[false, true]), Err(KernelError::DriverBadExport));
    view.exports[0].sig = 9;
    assert_eq!(verify_exports(&view, &[false, false]), Err(KernelError::DriverManifestMalformed));
}

#[test]
fn manifest_without_exports_is_ok() {
    let exports: [(&[u8], FuncSig); 0] = [];
    let imports: [(&[u8], &[u8], FuncSig); 0] = [];
    let view = parse_payload(&build_manifest(DriverKind::Net, &exports, &imports)).expect("parse ok");
    assert_eq!(verify_exports(&view, &[]), Ok(()));
}
