use pin_control::lines::{lookup, resolve_node_lines, NodeLines};
use pin_control::pin_controller::PinController;

fn entry(name: &str, offset: u32) -> (String, u32) {
    (name.to_string(), offset)
}

fn full_table() -> Vec<(String, u32)> {
    vec![
        entry("node1-usbotg-dev", 10),
        entry("node2-usbotg-dev", 11),
        entry("node3-usbotg-dev", 12),
        entry("node4-usbotg-dev", 13),
        entry("node1-rpiboot", 20),
        entry("node2-rpiboot", 21),
        entry("node3-rpiboot", 22),
        entry("node4-rpiboot", 23),
    ]
}

#[test]
fn construction_succeeds_with_all_names() {
    let (controller, lines) = match PinController::new(&full_table()) {
        Ok(p) => p,
        Err(e) => panic!("construction failed on {}", e.name),
    };
    assert_eq!(
        lines,
        NodeLines { usb1: 10, usb2: 11, usb3: 12, usb4: 13, rpi1: 20, rpi2: 21, rpi3: 22, rpi4: 23 }
    );
    // a new controller commands every line low
    assert_eq!(controller.usb_vbus, 0);
    assert_eq!(controller.usb_mux, 0);
    assert_eq!(controller.usb_switch, 0);
    assert_eq!(controller.rpi_boot, 0);
    assert_eq!(controller.rtl_reset, 0);
}

#[test]
fn construction_order_of_table_does_not_matter() {
    let mut table = full_table();
    table.reverse();
    assert!(PinController::new(&table).is_ok());
}

#[test]
fn missing_usbotg_line_fails_construction() {
    let table: Vec<(String, u32)> = full_table()
        .into_iter()
        .filter(|e| e.0 != "node3-usbotg-dev")
        .collect();
    match PinController::new(&table) {
        Ok(_) => panic!("construction should have failed"),
        Err(e) => assert_eq!(e.name, "node3-usbotg-dev"),
    }
}

#[test]
fn missing_rpiboot_line_fails_construction() {
    let table: Vec<(String, u32)> = full_table()
        .into_iter()
        .filter(|e| e.0 != "node2-rpiboot")
        .collect();
    match PinController::new(&table) {
        Ok(_) => panic!("construction should have failed"),
        Err(e) => assert_eq!(e.name, "node2-rpiboot"),
    }
}

#[test]
fn first_missing_name_in_resolution_order_is_reported() {
    // both a usbotg and an rpiboot name are absent; the usbotg one comes
    // first in resolution order
    let table: Vec<(String, u32)> = full_table()
        .into_iter()
        .filter(|e| e.0 != "node2-usbotg-dev" && e.0 != "node1-rpiboot")
        .collect();
    match resolve_node_lines(&table) {
        Ok(_) => panic!("resolution should have failed"),
        Err(e) => assert_eq!(e.name, "node2-usbotg-dev"),
    }
}

#[test]
fn empty_table_reports_the_first_required_name() {
    match PinController::new(&Vec::new()) {
        Ok(_) => panic!("construction should have failed"),
        Err(e) => assert_eq!(e.name, "node1-usbotg-dev"),
    }
}

#[test]
fn lookup_returns_first_match() {
    let table = vec![entry("dup", 1), entry("other", 2), entry("dup", 3)];
    assert_eq!(lookup(&table, &"dup".to_string()), Some(1));
    assert_eq!(lookup(&table, &"other".to_string()), Some(2));
    assert_eq!(lookup(&table, &"absent".to_string()), None);
}
