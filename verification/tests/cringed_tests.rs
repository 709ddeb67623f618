use cringed::bridge::{events_socket_path, frame_line, hello_event};
use cringed::cli::debug_message;
use cringed::daemon_types::{self, CRINGED_TMP_PATH};
use cringed::digits::parse_numeric_field;
use cringed::edge_types;
use cringed::daemon_types::EvtType as D;
use cringed::edge_types::EvtType as E;
use cringed::listener::{next_action, ListenerAction, ReadOutcome};
use cringed::serial::{
    compatible_ports, device_tmp_path, first_port, log_file_path, receive_step, start_log_entry,
    PortEntry, PortKind, SerialAction, SerialRead, UsbPortInfo, ESP_USB_PID, ESP_USB_VID,
};
use cringed::server::{connect_ops, probe_ops, SocketOp};
use cringed::text::trim;

fn daemon_evt(bank: u8, t: daemon_types::EvtType, ts: u32) -> Option<daemon_types::CringeEvt> {
    Some(daemon_types::CringeEvt { io_bank_num: bank, event_type: t, timestamp_ms: ts })
}

fn edge_evt(bank: u8, t: edge_types::EvtType, ts: u32) -> Option<edge_types::CringeEvt> {
    Some(edge_types::CringeEvt { io_bank_num: bank, event_type: t, timestamp_ms: ts })
}

#[test]
fn daemon_reads_press_line() {
    assert_eq!(daemon_types::CringeEvt::from_serial("<I11H T114374>"), daemon_evt(11, D::ButtonPress, 114374));
}

#[test]
fn daemon_reads_release_line_with_line_ending() {
    assert_eq!(daemon_types::CringeEvt::from_serial("<I3L T5>\r\n"), daemon_evt(3, D::ButtonRelease, 5));
}

#[test]
fn daemon_unknown_line_is_parse_error() {
    assert_eq!(daemon_types::CringeEvt::from_serial("hello board"), daemon_evt(0, D::ParseError, 0));
    assert_eq!(daemon_types::CringeEvt::from_serial(""), daemon_evt(0, D::ParseError, 0));
}

#[test]
fn daemon_bank_past_u8_reads_zero() {
    assert_eq!(daemon_types::CringeEvt::from_serial("<I300H T7>"), daemon_evt(0, D::ButtonPress, 7));
    assert_eq!(daemon_types::CringeEvt::from_serial("<I255H T7>"), daemon_evt(255, D::ButtonPress, 7));
}

#[test]
fn daemon_timestamp_past_u32_reads_zero() {
    assert_eq!(daemon_types::CringeEvt::from_serial("<I1L T4294967296>"), daemon_evt(1, D::ButtonRelease, 0));
    assert_eq!(daemon_types::CringeEvt::from_serial("<I1L T4294967295>"), daemon_evt(1, D::ButtonRelease, 4294967295));
}

#[test]
fn daemon_skips_input_field_without_known_ending() {
    assert_eq!(daemon_types::CringeEvt::from_serial("<I12X T9>"), daemon_evt(0, D::ParseError, 9));
}

#[test]
fn daemon_later_fields_override() {
    assert_eq!(daemon_types::CringeEvt::from_serial("<I1H T1 I2L T2>"), daemon_evt(2, D::ButtonRelease, 2));
    assert_eq!(daemon_types::CringeEvt::from_serial("I5H I6X"), daemon_evt(5, D::ButtonPress, 0));
}

#[test]
fn daemon_drops_brackets_anywhere() {
    assert_eq!(daemon_types::CringeEvt::from_serial("I1<2>H\tT<3>4"), daemon_evt(12, D::ButtonPress, 34));
}

#[test]
fn daemon_splits_on_ascii_whitespace_only() {
    // a no-break space is not a separator: "I1H\u{a0}T5" is one field ending in '5'
    assert_eq!(daemon_types::CringeEvt::from_serial("I1H\u{a0}T5"), daemon_evt(0, D::ParseError, 0));
    assert_eq!(daemon_types::CringeEvt::from_serial("I1H\x0cT5"), daemon_evt(1, D::ButtonPress, 5));
}

#[test]
fn daemon_non_ascii_numeric_fails_field() {
    // '٣' is numeric but not an ASCII digit, so the bank does not parse
    assert_eq!(daemon_types::CringeEvt::from_serial("<I1\u{663}H T5>"), daemon_evt(0, D::ButtonPress, 5));
    // '²' is numeric too
    assert_eq!(daemon_types::CringeEvt::from_serial("<I4H T1\u{b2}>"), daemon_evt(4, D::ButtonPress, 0));
    // letters are not numeric and are skipped
    assert_eq!(daemon_types::CringeEvt::from_serial("<I4aH Tx12y>"), daemon_evt(4, D::ButtonPress, 12));
}

#[test]
fn edge_reads_line() {
    assert_eq!(edge_types::CringeEvt::from_serial("<I1H T114374>"), edge_evt(1, E::ButtonPress, 114374));
    assert_eq!(edge_types::CringeEvt::from_serial("<I2L T5>"), edge_evt(2, E::ButtonRelease, 5));
    assert_eq!(edge_types::CringeEvt::from_serial("<I3O T5>"), edge_evt(3, E::Overcurrent, 5));
    assert_eq!(edge_types::CringeEvt::from_serial("<I4C T5>"), edge_evt(4, E::CriticalError, 5));
    assert_eq!(edge_types::CringeEvt::from_serial("<I5T T5>"), edge_evt(5, E::TransportError, 5));
}

#[test]
fn edge_unknown_kind_is_none() {
    assert_eq!(edge_types::CringeEvt::from_serial("<I1X T5>"), None);
}

#[test]
fn edge_non_digit_bank_is_zero() {
    assert_eq!(edge_types::CringeEvt::from_serial("<IxH T5>"), edge_evt(0, E::ButtonPress, 5));
}

#[test]
fn edge_timestamp_from_sixth_byte() {
    // digits before byte six are not part of the timestamp
    assert_eq!(edge_types::CringeEvt::from_serial("<I1H 9T7>"), edge_evt(1, E::ButtonPress, 7));
    assert_eq!(edge_types::CringeEvt::from_serial("<I1H T>"), edge_evt(1, E::ButtonPress, 0));
    assert_eq!(edge_types::CringeEvt::from_serial("<I1HéT12>"), edge_evt(1, E::ButtonPress, 12));
    assert_eq!(edge_types::CringeEvt::from_serial("<I1H T99999999999>"), edge_evt(1, E::ButtonPress, 0));
}

#[test]
fn numeric_field_parses_digits() {
    let f: Vec<char> = "a1b2c".chars().collect();
    assert_eq!(parse_numeric_field(&f, 255), 12);
    let f: Vec<char> = "256".chars().collect();
    assert_eq!(parse_numeric_field(&f, 255), 0);
    let f: Vec<char> = "none".chars().collect();
    assert_eq!(parse_numeric_field(&f, 255), 0);
    let f: Vec<char> = "0007".chars().collect();
    assert_eq!(parse_numeric_field(&f, 255), 7);
}

#[test]
fn trim_removes_unicode_whitespace() {
    assert_eq!(trim("  hi there \n"), "hi there");
    assert_eq!(trim("\u{3000}x\u{a0}"), "x");
    assert_eq!(trim(" \t\r\n"), "");
    assert_eq!(trim("a"), "a");
}

#[test]
fn trim_twice_is_trim_once() {
    for s in ["  a b  ", "\u{2003}x\t", "", "   ", "plain"] {
        let once = trim(s);
        assert_eq!(trim(&once), once);
    }
}

#[test]
fn daemon_board_lines_read_back() {
    assert_eq!(daemon_types::CringeEvt::from_serial("<I0L T0>"), daemon_evt(0, D::ButtonRelease, 0));
    assert_eq!(
        daemon_types::CringeEvt::from_serial("<I255H T4294967295>"),
        daemon_evt(255, D::ButtonPress, 4294967295)
    );
}

#[test]
fn daemon_appended_field_applies_last() {
    assert_eq!(daemon_types::CringeEvt::from_serial("<I7H T1> T99"), daemon_evt(7, D::ButtonPress, 99));
    assert_eq!(daemon_types::CringeEvt::from_serial("<I7H T1> I8L"), daemon_evt(8, D::ButtonRelease, 1));
}

#[test]
fn listener_actions() {
    assert!(matches!(next_action(ReadOutcome::Closed), ListenerAction::EndSession));
    assert!(matches!(next_action(ReadOutcome::Failed), ListenerAction::EndSession));
    assert!(matches!(next_action(ReadOutcome::WouldBlock), ListenerAction::ReadAgain));
    assert!(matches!(next_action(ReadOutcome::Line(" \n".to_string())), ListenerAction::Wait));
    match next_action(ReadOutcome::Line("  {\"a\":1}\n".to_string())) {
        ListenerAction::Show(t) => assert_eq!(t, "{\"a\":1}"),
        other => panic!("unexpected {:?}", other),
    }
}

fn usb(name: &str, vid: u16, pid: u16, sn: Option<&str>) -> PortEntry {
    PortEntry {
        port_name: name.to_string(),
        port_type: PortKind::Usb(UsbPortInfo { vid, pid, serial_number: sn.map(|s| s.to_string()) }),
    }
}

#[test]
fn compatible_ports_keeps_matching_usb_ports_in_order() {
    let ports = vec![
        usb("/dev/ttyACM0", ESP_USB_VID, ESP_USB_PID, Some("AA:BB")),
        usb("/dev/ttyUSB0", 0x10c4, 0xea60, Some("x")),
        PortEntry { port_name: "/dev/ttyS0".to_string(), port_type: PortKind::Other },
        usb("/dev/ttyACM1", ESP_USB_VID, ESP_USB_PID, None),
        usb("/dev/ttyACM2", ESP_USB_VID, 0x1002, None),
    ];
    let r = compatible_ports(&ports);
    assert_eq!(
        r,
        vec![
            ("/dev/ttyACM0".to_string(), "AA:BB".to_string()),
            ("/dev/ttyACM1".to_string(), "".to_string()),
        ]
    );
    assert_eq!(ESP_USB_VID, 0x303A);
    assert_eq!(ESP_USB_PID, 0x1001);
}

#[test]
fn first_port_picks_first() {
    assert_eq!(first_port(&vec![]), None);
    let ports = vec![("a".to_string(), "1".to_string()), ("b".to_string(), "2".to_string())];
    assert_eq!(first_port(&ports), Some(("a".to_string(), "1".to_string())));
}

#[test]
fn receive_step_actions() {
    match receive_step(SerialRead::Line("<I2H T10>\n".to_string())) {
        SerialAction::Forward(e) => assert_eq!(
            Some(e),
            daemon_evt(2, daemon_types::EvtType::ButtonPress, 10)
        ),
        other => panic!("unexpected {:?}", other),
    }
    match receive_step(SerialRead::Line("boot ok\n".to_string())) {
        SerialAction::Record(t) => assert_eq!(t, "boot ok\n"),
        other => panic!("unexpected {:?}", other),
    }
    assert!(matches!(receive_step(SerialRead::Line(String::new())), SerialAction::Skip));
    assert!(matches!(receive_step(SerialRead::TimedOut), SerialAction::Skip));
    assert!(matches!(receive_step(SerialRead::Failed), SerialAction::Stop));
}

#[test]
fn paths_and_log_entry() {
    assert_eq!(CRINGED_TMP_PATH, "/tmp/cringed");
    assert_eq!(device_tmp_path("AA:BB"), "/tmp/cringed/AA:BB");
    assert_eq!(log_file_path("/tmp/cringed/AA", "runtime_log"), "/tmp/cringed/AA/runtime_log.txt");
    assert_eq!(start_log_entry("2024-01-31"), "start log, date 2024-01-31");
    assert_eq!(events_socket_path(), "/tmp/cringed/events.sock");
}

#[test]
fn framing_and_hello() {
    assert_eq!(frame_line(b"{}"), b"{}\n".to_vec());
    assert_eq!(frame_line(b""), b"\n".to_vec());
    assert_eq!(
        Some(hello_event()),
        daemon_evt(0, daemon_types::EvtType::BoardBoot, 0)
    );
}

#[test]
fn server_operations() {
    let ops = connect_ops();
    assert_eq!(ops.len(), 3);
    match &ops[0] {
        SocketOp::Emit { event, data } => {
            assert_eq!(event, "log");
            assert_eq!(data, "hello there");
        }
        other => panic!("unexpected {:?}", other),
    }
    match &ops[1] {
        SocketOp::Join { rooms } => assert_eq!(rooms, &vec!["ESP".to_string(), "logs".to_string()]),
        other => panic!("unexpected {:?}", other),
    }
    match &ops[2] {
        SocketOp::EmitToRoom { room, event, data } => {
            assert_eq!(room, "logs");
            assert_eq!(event, "log");
            assert_eq!(data, "new challenger approaches");
        }
        other => panic!("unexpected {:?}", other),
    }
    let ops = probe_ops();
    assert_eq!(ops.len(), 2);
    match (&ops[0], &ops[1]) {
        (SocketOp::Emit { event: e0, data: d0 }, SocketOp::Emit { event: e1, data: d1 }) => {
            assert_eq!((e0.as_str(), d0.as_str()), ("log", "probed"));
            assert_eq!((e1.as_str(), d1.as_str()), ("probe", "testdata"));
        }
        other => panic!("unexpected {:?}", other),
    }
}

#[test]
fn debug_messages() {
    assert_eq!(debug_message(0), "Debug mode is off");
    assert_eq!(debug_message(1), "Debug mode is kind of on");
    assert_eq!(debug_message(2), "Debug mode is on");
    assert_eq!(debug_message(3), "Don't be crazy");
    assert_eq!(debug_message(255), "Don't be crazy");
}
