use ble_uart::address::BdAddr;
use ble_uart::error::BleError;
use ble_uart::locate::{discovery_step, match_address, select_adapter, text_holds, DiscoveryEvent, DiscoveryStep};
use ble_uart::protocol::{classify, MessageKind, INVALID_RSSI, UART_RX_CHAR_UUID, UART_SERVICE_UUID, UART_TX_CHAR_UUID};
use ble_uart::scan::{collect_scan_results, AdvertisedProperties};
use ble_uart::session::{
    line_action, notification_text, outbound_line, resolve_characteristics, LineAction, SendAction,
    SendEvent, SendPhase, SendSession,
};

fn props(octets: [u8; 6], name: Option<&str>, rssi: Option<i16>, services: Vec<u128>) -> Option<AdvertisedProperties> {
    Some(AdvertisedProperties {
        address: BdAddr::new(octets),
        local_name: name.map(|n| n.to_string()),
        rssi,
        services,
    })
}

#[test]
fn address_text_is_upper_hex_with_colons() {
    let a = BdAddr::new([0x2A, 0xCC, 0x00, 0x34, 0xFA, 0x00]);
    assert_eq!(a.to_string(), "2A:CC:00:34:FA:00");
    let b = BdAddr::new([0xff, 0x0a, 0x9b, 0x10, 0x01, 0xe7]);
    assert_eq!(b.to_string(), "FF:0A:9B:10:01:E7");
}

#[test]
fn classify_by_first_character() {
    assert_eq!(classify("!status"), MessageKind::Command);
    assert_eq!(classify("!"), MessageKind::Command);
    assert_eq!(classify("hello"), MessageKind::Plain);
    assert_eq!(classify(" !status"), MessageKind::Plain);
    assert_eq!(classify("status!"), MessageKind::Plain);
    assert_eq!(classify(""), MessageKind::Plain);
}

#[test]
fn scan_keeps_only_the_uart_service() {
    let ps = vec![
        props([1, 2, 3, 4, 5, 6], Some("uart"), Some(-40), vec![UART_SERVICE_UUID]),
        props([6, 5, 4, 3, 2, 1], Some("other"), Some(-30), vec![0x1234]),
    ];
    let r = collect_scan_results(&ps).unwrap();
    assert_eq!(r.len(), 1);
    assert_eq!(r[0].local_name, "uart");
    assert_eq!(r[0].rssi, -40);
    assert_eq!(r[0].address, BdAddr::new([1, 2, 3, 4, 5, 6]));
}

#[test]
fn scan_ranks_by_descending_rssi_keeping_ties_in_order() {
    let ps = vec![
        props([0, 0, 0, 0, 0, 1], Some("a"), Some(-70), vec![0x1, UART_SERVICE_UUID]),
        props([0, 0, 0, 0, 0, 2], Some("b"), Some(-40), vec![UART_SERVICE_UUID]),
        props([0, 0, 0, 0, 0, 3], Some("c"), Some(-70), vec![UART_SERVICE_UUID]),
        props([0, 0, 0, 0, 0, 4], Some("d"), Some(-20), vec![UART_SERVICE_UUID]),
        props([0, 0, 0, 0, 0, 5], Some("e"), Some(-40), vec![UART_SERVICE_UUID]),
    ];
    let r = collect_scan_results(&ps).unwrap();
    let names: Vec<&str> = r.iter().map(|x| x.local_name.as_str()).collect();
    assert_eq!(names, vec!["d", "b", "e", "a", "c"]);
    for w in r.windows(2) {
        assert!(w[0].rssi >= w[1].rssi);
    }
}

#[test]
fn scan_defaults_for_missing_name_and_rssi() {
    let ps = vec![
        props([0xAB, 0, 0, 0, 0, 0x0C], None, None, vec![UART_SERVICE_UUID]),
        props([0, 0, 0, 0, 0, 1], Some("n"), Some(-90), vec![UART_SERVICE_UUID]),
    ];
    let r = collect_scan_results(&ps).unwrap();
    assert_eq!(r.len(), 2);
    assert_eq!(r[0].local_name, "n");
    assert_eq!(r[1].local_name, "AB:00:00:00:00:0C");
    assert_eq!(r[1].rssi, INVALID_RSSI);
}

#[test]
fn scan_empty_and_unreadable() {
    let none: Vec<Option<AdvertisedProperties>> = vec![];
    assert_eq!(collect_scan_results(&none).unwrap().len(), 0);
    let ps = vec![props([0, 0, 0, 0, 0, 1], Some("n"), Some(-90), vec![UART_SERVICE_UUID]), None];
    assert_eq!(collect_scan_results(&ps).unwrap_err(), BleError::PropertyUnavailable);
}

#[test]
fn adapter_selected_by_substring() {
    let d = vec!["usb:hci1 (Realtek)".to_string(), "hci0 (Intel)".to_string(), "hci0 second".to_string()];
    assert_eq!(select_adapter(&d, "hci0"), Ok(1));
    assert_eq!(select_adapter(&d, "Realtek"), Ok(0));
    assert_eq!(select_adapter(&d, "hci2"), Err(BleError::AdapterNotFound));
    assert_eq!(select_adapter(&vec![], "hci0"), Err(BleError::AdapterNotFound));
    assert!(text_holds("abc", ""));
    assert!(text_holds("abc", "abc"));
    assert!(!text_holds("ab", "abc"));
}

#[test]
fn address_match_in_adapter_order() {
    let a = BdAddr::new([0x2A, 0xCC, 0x00, 0x34, 0xFA, 0x00]);
    let b = BdAddr::new([1, 2, 3, 4, 5, 6]);
    let list = vec![Some(b), Some(a)];
    assert_eq!(match_address(&list, "2A:CC:00:34:FA:00"), Ok(Some(1)));
    assert_eq!(match_address(&list, "2a:cc:00:34:fa:00"), Ok(None));
    let broken = vec![Some(b), None, Some(a)];
    assert_eq!(match_address(&broken, "2A:CC:00:34:FA:00"), Err(BleError::PropertyUnavailable));
    let found_first = vec![Some(a), None];
    assert_eq!(match_address(&found_first, "2A:CC:00:34:FA:00"), Ok(Some(0)));
}

#[test]
fn discovery_ends_without_device() {
    let addr = "01:02:03:04:05:06";
    assert_eq!(discovery_step(&DiscoveryEvent::Other, addr), DiscoveryStep::Continue);
    let seen = DiscoveryEvent::DeviceDiscovered(vec![Some(BdAddr::new([9, 9, 9, 9, 9, 9]))]);
    assert_eq!(discovery_step(&seen, addr), DiscoveryStep::Continue);
    assert_eq!(discovery_step(&DiscoveryEvent::StreamEnded, addr), DiscoveryStep::Fail(BleError::DeviceNotFound));
    let hit = DiscoveryEvent::DeviceDiscovered(vec![
        Some(BdAddr::new([9, 9, 9, 9, 9, 9])),
        Some(BdAddr::new([1, 2, 3, 4, 5, 6])),
    ]);
    assert_eq!(discovery_step(&hit, addr), DiscoveryStep::Found(1));
}

#[test]
fn characteristics_resolved_by_uuid() {
    let u = vec![0x1, UART_RX_CHAR_UUID, UART_TX_CHAR_UUID, UART_TX_CHAR_UUID];
    let c = resolve_characteristics(&u).unwrap();
    assert_eq!((c.tx, c.rx), (2, 1));
    assert_eq!(resolve_characteristics(&vec![UART_TX_CHAR_UUID]), Err(BleError::CharacteristicNotFound));
    assert_eq!(resolve_characteristics(&vec![UART_RX_CHAR_UUID]), Err(BleError::CharacteristicNotFound));
}

#[test]
fn notification_text_trims_and_decodes() {
    assert_eq!(notification_text(b"OK\n"), Ok("OK".to_string()));
    assert_eq!(notification_text(b"a b \r\n"), Ok("a b".to_string()));
    assert_eq!(notification_text(b""), Ok(String::new()));
    assert_eq!(notification_text(&[0x4f, 0xff]), Err(BleError::DecodeError));
}

#[test]
fn operator_lines() {
    assert!(matches!(outbound_line("quit()\n"), LineAction::Quit));
    assert!(matches!(outbound_line("  quit()  "), LineAction::Quit));
    assert!(matches!(outbound_line("   \n"), LineAction::Skip));
    assert!(matches!(outbound_line(""), LineAction::Skip));
    match outbound_line("  hello world\n") {
        LineAction::Send(t) => assert_eq!(t, "hello world"),
        other => panic!("unexpected {:?}", other),
    }
    match outbound_line("quit() now") {
        LineAction::Send(t) => assert_eq!(t, "quit() now"),
        other => panic!("unexpected {:?}", other),
    }
    assert!(matches!(line_action("quit()".to_string()), LineAction::Quit));
    assert!(matches!(line_action(String::new()), LineAction::Skip));
}

fn uart_chars() -> Vec<u128> {
    vec![0x99, UART_TX_CHAR_UUID, UART_RX_CHAR_UUID]
}

#[test]
fn command_send_subscribes_writes_then_waits() {
    let (mut s, a) = SendSession::start("!status");
    assert!(matches!(a, SendAction::Locate));
    assert_eq!(s.kind, MessageKind::Command);
    assert!(matches!(s.step(SendEvent::Completed), SendAction::Connect));
    assert!(matches!(s.step(SendEvent::Completed), SendAction::CheckLink));
    assert!(matches!(s.step(SendEvent::Linked(true)), SendAction::DiscoverServices));
    assert!(matches!(s.step(SendEvent::Discovered(uart_chars())), SendAction::Subscribe(2)));
    assert!(matches!(
        s.step(SendEvent::Completed),
        SendAction::Write { characteristic: 1, acknowledged: true }
    ));
    assert!(matches!(s.step(SendEvent::Completed), SendAction::AwaitNotification));
    let reply = notification_text(b"OK\n").unwrap();
    match s.step(SendEvent::Replied(reply)) {
        SendAction::Show(t) => assert_eq!(t, "OK"),
        _ => panic!("expected the reply to be shown"),
    }
    assert!(matches!(s.step(SendEvent::Completed), SendAction::Disconnect));
    assert!(matches!(s.step(SendEvent::Completed), SendAction::Finish(Ok(()))));
    assert_eq!(s.phase, SendPhase::Finished);
}

#[test]
fn plain_send_writes_once_without_waiting() {
    let (mut s, _) = SendSession::start("hello");
    assert_eq!(s.kind, MessageKind::Plain);
    let mut actions = Vec::new();
    let events = vec![
        SendEvent::Completed,
        SendEvent::Completed,
        SendEvent::Linked(true),
        SendEvent::Discovered(uart_chars()),
        SendEvent::Completed,
        SendEvent::Completed,
    ];
    for e in events {
        actions.push(s.step(e));
    }
    assert!(matches!(actions[3], SendAction::Write { characteristic: 1, acknowledged: false }));
    assert!(matches!(actions[4], SendAction::Disconnect));
    assert!(matches!(actions[5], SendAction::Finish(Ok(()))));
    assert!(!actions.iter().any(|a| matches!(a, SendAction::Subscribe(_) | SendAction::AwaitNotification)));
}

#[test]
fn failed_write_still_disconnects_once() {
    let (mut s, _) = SendSession::start("!reset");
    s.step(SendEvent::Completed);
    s.step(SendEvent::Completed);
    s.step(SendEvent::Linked(true));
    s.step(SendEvent::Discovered(uart_chars()));
    s.step(SendEvent::Completed);
    assert!(matches!(s.step(SendEvent::Failed(BleError::TransportError)), SendAction::Disconnect));
    assert!(matches!(s.step(SendEvent::Completed), SendAction::Finish(Err(BleError::TransportError))));
    assert!(matches!(s.step(SendEvent::Completed), SendAction::Finish(Err(BleError::TransportError))));
}

#[test]
fn missing_characteristic_disconnects() {
    let (mut s, _) = SendSession::start("hello");
    s.step(SendEvent::Completed);
    s.step(SendEvent::Completed);
    s.step(SendEvent::Linked(true));
    assert!(matches!(s.step(SendEvent::Discovered(vec![UART_TX_CHAR_UUID])), SendAction::Disconnect));
    assert!(matches!(
        s.step(SendEvent::Failed(BleError::TransportError)),
        SendAction::Finish(Err(BleError::CharacteristicNotFound))
    ));
}

#[test]
fn link_down_finishes_without_disconnect() {
    let (mut s, _) = SendSession::start("!status");
    s.step(SendEvent::Completed);
    s.step(SendEvent::Completed);
    assert!(matches!(s.step(SendEvent::Linked(false)), SendAction::Finish(Ok(()))));
    assert!(!s.disconnected);
}

#[test]
fn locate_failure_finishes_with_its_error() {
    let (mut s, _) = SendSession::start("hello");
    assert!(matches!(
        s.step(SendEvent::Failed(BleError::DeviceNotFound)),
        SendAction::Finish(Err(BleError::DeviceNotFound))
    ));
}

#[test]
fn reply_stream_end_disconnects_successfully() {
    let (mut s, _) = SendSession::start("!x");
    for e in vec![SendEvent::Completed, SendEvent::Completed, SendEvent::Linked(true), SendEvent::Discovered(uart_chars()), SendEvent::Completed, SendEvent::Completed] {
        s.step(e);
    }
    assert!(matches!(s.step(SendEvent::StreamEnded), SendAction::Disconnect));
    assert!(matches!(s.step(SendEvent::Failed(BleError::TransportError)), SendAction::Finish(Err(BleError::TransportError))));
}

#[test]
fn error_messages_are_distinct() {
    let all = [
        BleError::AdapterNotFound,
        BleError::DeviceNotFound,
        BleError::PropertyUnavailable,
        BleError::CharacteristicNotFound,
        BleError::DecodeError,
        BleError::TransportError,
    ];
    for (i, a) in all.iter().enumerate() {
        for b in all.iter().skip(i + 1) {
            assert_ne!(a.message(), b.message());
        }
    }
}
