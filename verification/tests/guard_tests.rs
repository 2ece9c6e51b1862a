use wari::events::{code, encode_record};
use wari::guard::{banner, cursor_words, decode, on_read, render_lost, render_record, Event, GuardStep};
use wari::modreg::{AuditEvent, EventKind};

fn text(v: &[u8]) -> String {
    String::from_utf8(v.to_vec()).unwrap()
}

#[test]
fn record_line_format() {
    let e = Event { seq: 12, kind: 3, a: 7, b: 0 };
    assert_eq!(text(&render_record(&e)), "[guard] #12 tenant-exited a=7 b=0\r\n");
    let e = Event { seq: 0, kind: 9, a: 65535, b: 4_294_967_295 };
    assert_eq!(text(&render_record(&e)), "[guard] #0 unknown-kind a=65535 b=4294967295\r\n");
    let e = Event { seq: u64::MAX, kind: 2, a: 1, b: 2 };
    assert_eq!(text(&render_record(&e)), "[guard] #18446744073709551615 SPAWN-REJECTED a=1 b=2\r\n");
}

#[test]
fn kind_labels() {
    let names = ["module-staged", "spawn-verified", "SPAWN-REJECTED", "tenant-exited", "TENANT-FAULTED"];
    for (k, name) in names.iter().enumerate() {
        let line = text(&render_record(&Event { seq: 1, kind: k as u16, a: 0, b: 0 }));
        assert_eq!(line, format!("[guard] #1 {} a=0 b=0\r\n", name));
    }
}

#[test]
fn lost_and_banner_lines() {
    assert_eq!(text(&render_lost(5)), "[guard] LOST 5 records\r\n");
    assert_eq!(text(&banner()), "[guard] watching the audit stream\r\n");
}

#[test]
fn cursor_split_into_words() {
    assert_eq!(cursor_words(0x0000_0002_0000_0010), (0x10, 2));
    assert_eq!(cursor_words(u64::MAX), (u32::MAX, u32::MAX));
}

#[test]
fn on_read_record_advances_cursor() {
    let bytes = encode_record(4, &AuditEvent { kind: EventKind::SpawnVerified, a: 0, b: 5 });
    let mut cursor = 4u64;
    match on_read(&mut cursor, 0, &bytes) {
        GuardStep::Print { lines } => {
            assert_eq!(lines.len(), 1);
            assert_eq!(text(&lines[0]), "[guard] #4 spawn-verified a=0 b=5\r\n");
        }
        GuardStep::Exit { .. } => panic!("unexpected exit"),
    }
    assert_eq!(cursor, 5);
}

#[test]
fn on_read_lagged_reports_gap() {
    let bytes = encode_record(10, &AuditEvent { kind: EventKind::TenantFaulted, a: 6, b: 0 });
    let mut cursor = 3u64;
    match on_read(&mut cursor, 2, &bytes) {
        GuardStep::Print { lines } => {
            assert_eq!(lines.len(), 2);
            assert_eq!(text(&lines[0]), "[guard] LOST 7 records\r\n");
            assert_eq!(text(&lines[1]), "[guard] #10 TENANT-FAULTED a=6 b=0\r\n");
        }
        GuardStep::Exit { .. } => panic!("unexpected exit"),
    }
    assert_eq!(cursor, 11);
}

#[test]
fn on_read_up_to_date_and_error() {
    let bytes = [0u8; 16];
    let mut cursor = 9u64;
    match on_read(&mut cursor, 1, &bytes) {
        GuardStep::Print { lines } => assert!(lines.is_empty()),
        GuardStep::Exit { .. } => panic!("unexpected exit"),
    }
    assert_eq!(cursor, 9);
    match on_read(&mut cursor, -1, &bytes) {
        GuardStep::Exit { line } => assert_eq!(text(&line), "[guard] read err, exiting\r\n"),
        GuardStep::Print { .. } => panic!("expected exit"),
    }
    assert_eq!(cursor, 9);
}

#[test]
fn on_read_wraps_cursor_at_end() {
    let bytes = encode_record(u64::MAX, &AuditEvent { kind: EventKind::ModuleStaged, a: 0, b: 1 });
    let mut cursor = u64::MAX;
    let _ = on_read(&mut cursor, 0, &bytes);
    assert_eq!(cursor, 0);
}

#[test]
fn encoded_record_decodes_back() {
    let e = AuditEvent { kind: EventKind::DaemonGaveUp, a: 0x1234, b: 0xdead_beef };
    let bytes = encode_record(0x0102_0304_0506_0708, &e);
    assert_eq!(bytes, [8, 7, 6, 5, 4, 3, 2, 1, 7, 0, 0x34, 0x12, 0xef, 0xbe, 0xad, 0xde]);
    assert_eq!(decode(&bytes), Event { seq: 0x0102_0304_0506_0708, kind: 7, a: 0x1234, b: 0xdead_beef });
    assert_eq!(code(EventKind::ModuleStaged), 0);
    assert_eq!(code(EventKind::GrantAttenuated), 5);
}
