use pin_control::bits::bit_iterator;
use pin_control::pin_controller::{LineGroup, LineWrite, PinController, ResetPulse, RoutePlan};
use pin_control::types::{NodeId, UsbMode, UsbRoute};

fn table() -> Vec<(String, u32)> {
    vec![
        ("node1-usbotg-dev".to_string(), 10),
        ("node2-usbotg-dev".to_string(), 11),
        ("node3-usbotg-dev".to_string(), 12),
        ("node4-usbotg-dev".to_string(), 13),
        ("node1-rpiboot".to_string(), 20),
        ("node2-rpiboot".to_string(), 21),
        ("node3-rpiboot".to_string(), 22),
        ("node4-rpiboot".to_string(), 23),
    ]
}

fn fresh() -> PinController {
    let (controller, _) = PinController::new(&table()).ok().unwrap();
    controller
}

const NODES: [NodeId; 4] = [NodeId::Node1, NodeId::Node2, NodeId::Node3, NodeId::Node4];

#[test]
fn mux_words_match_board_wiring() {
    let expected: [u8; 4] = [0b1100, 0b1101, 0b0011, 0b0111];
    for (node, want) in NODES.iter().zip(expected.iter()) {
        let mut c = fresh();
        let writes = c.select_usb(*node, UsbMode::Device);
        assert_eq!(writes[0], LineWrite { group: LineGroup::UsbMux, value: *want });
        assert_eq!(c.usb_mux, *want);
    }
}

#[test]
fn mux_words_are_pairwise_distinct() {
    let mut words = Vec::new();
    for node in NODES.iter() {
        let mut c = fresh();
        c.select_usb(*node, UsbMode::Device);
        words.push(c.usb_mux);
    }
    for i in 0..4 {
        for j in 0..4 {
            if i != j {
                assert_ne!(words[i], words[j]);
            }
        }
    }
}

#[test]
fn host_vbus_is_complement_of_node_bit() {
    for node in NODES.iter() {
        let mut c = fresh();
        let writes = c.select_usb(*node, UsbMode::Host);
        let want = !node.to_bitfield() & 0x0F;
        assert_eq!(writes[1], LineWrite { group: LineGroup::UsbVbus, value: want });
        assert_eq!(c.usb_vbus, want);
    }
}

#[test]
fn device_and_flash_vbus_power_all_nodes() {
    for node in NODES.iter() {
        for mode in [UsbMode::Device, UsbMode::Flash] {
            let mut c = fresh();
            c.select_usb(*node, mode);
            assert_eq!(c.usb_vbus, 0b1111);
        }
    }
}

#[test]
fn select_usb_write_order_for_device() {
    let mut c = fresh();
    let writes = c.select_usb(NodeId::Node1, UsbMode::Device);
    assert_eq!(
        writes,
        vec![
            LineWrite { group: LineGroup::UsbMux, value: 0b1100 },
            LineWrite { group: LineGroup::UsbVbus, value: 0b1111 },
            LineWrite { group: LineGroup::RpiBoot(0), value: 0 },
            LineWrite { group: LineGroup::RpiBoot(1), value: 0 },
            LineWrite { group: LineGroup::RpiBoot(2), value: 0 },
            LineWrite { group: LineGroup::RpiBoot(3), value: 0 },
        ]
    );
}

#[test]
fn flash_asserts_only_the_nodes_own_boot_line() {
    let mut c = fresh();
    // leave node2's and node4's boot-strap lines asserted beforehand
    c.set_usb_boot(0b1010, 0b1111);
    assert_eq!(c.rpi_boot, 0b1010);
    let writes = c.select_usb(NodeId::Node1, UsbMode::Flash);
    assert_eq!(writes.len(), 3);
    assert_eq!(writes[2], LineWrite { group: LineGroup::RpiBoot(0), value: 1 });
    // node1's line gained its bit; the other three kept theirs
    assert_eq!(c.rpi_boot, 0b1011);
}

#[test]
fn host_and_device_clear_all_boot_lines() {
    for mode in [UsbMode::Host, UsbMode::Device] {
        let mut c = fresh();
        c.set_usb_boot(0b1111, 0b1111);
        let writes = c.select_usb(NodeId::Node3, mode);
        assert_eq!(c.rpi_boot, 0);
        assert_eq!(writes.len(), 6);
        for i in 0..4usize {
            assert_eq!(writes[2 + i], LineWrite { group: LineGroup::RpiBoot(i), value: 0 });
        }
    }
}

#[test]
fn select_usb_twice_is_idempotent() {
    for node in NODES.iter() {
        for mode in [UsbMode::Host, UsbMode::Device, UsbMode::Flash] {
            let mut c = fresh();
            c.set_usb_boot(0b0110, 0b1111);
            let first_writes = c.select_usb(*node, mode);
            let after_once = c;
            let second_writes = c.select_usb(*node, mode);
            assert_eq!(c, after_once);
            assert_eq!(first_writes, second_writes);
        }
    }
}

#[test]
fn bit_iterator_yields_masked_bits_in_order() {
    assert_eq!(
        bit_iterator(0b1010, 0b1111),
        vec![(0usize, 0u8), (1, 1), (2, 0), (3, 1)]
    );
    assert_eq!(bit_iterator(0b1010, 0b0000), vec![]);
    assert_eq!(bit_iterator(0b0001, 0b0001), vec![(0usize, 1u8)]);
    assert_eq!(bit_iterator(0b0000, 0b0110), vec![(1usize, 0u8), (2, 0)]);
}

#[test]
fn bit_iterator_ignores_bits_beyond_the_four_lines() {
    assert_eq!(bit_iterator(0xFF, 0xF0), vec![]);
    assert_eq!(bit_iterator(0xFF, 0xF1), vec![(0usize, 1u8)]);
}

#[test]
fn set_usb_boot_writes_only_masked_lines() {
    let mut c = fresh();
    c.set_usb_boot(0b1000, 0b1000);
    assert_eq!(c.rpi_boot, 0b1000);
    let writes = c.set_usb_boot(0b0101, 0b0011);
    assert_eq!(
        writes,
        vec![
            LineWrite { group: LineGroup::RpiBoot(0), value: 1 },
            LineWrite { group: LineGroup::RpiBoot(1), value: 0 },
        ]
    );
    // bit 0 taken from the state, bits 2 and 3 untouched
    assert_eq!(c.rpi_boot, 0b1001);
}

#[test]
fn route_usba_enables_port_power() {
    let mut c = fresh();
    let plan: RoutePlan = c.set_usb_route(UsbRoute::UsbA);
    assert_eq!(plan.switch_write, LineWrite { group: LineGroup::UsbSwitch, value: 0 });
    assert_eq!(plan.power_payload.as_bytes(), b"enabled");
    assert_eq!(c.usb_switch, 0);
}

#[test]
fn route_bmc_disables_port_power() {
    let mut c = fresh();
    let plan: RoutePlan = c.set_usb_route(UsbRoute::Bmc);
    assert_eq!(plan.switch_write, LineWrite { group: LineGroup::UsbSwitch, value: 1 });
    assert_eq!(plan.power_payload.as_bytes(), b"disabled");
    assert_eq!(c.usb_switch, 1);
}

#[test]
fn rtl_reset_pulse_asserts_then_deasserts() {
    let mut c = fresh();
    let pulse: ResetPulse = c.rtl_reset();
    assert_eq!(pulse.set_write, LineWrite { group: LineGroup::RtlReset, value: 1 });
    assert_eq!(pulse.hold_seconds, 1);
    assert_eq!(pulse.clear_write, LineWrite { group: LineGroup::RtlReset, value: 0 });
    assert_eq!(c.rtl_reset, 0);
}

#[test]
fn node_bitfields() {
    assert_eq!(NodeId::Node1.to_bitfield(), 0b0001);
    assert_eq!(NodeId::Node2.to_bitfield(), 0b0010);
    assert_eq!(NodeId::Node3.to_bitfield(), 0b0100);
    assert_eq!(NodeId::Node4.to_bitfield(), 0b1000);
    for node in NODES.iter() {
        assert_eq!(node.to_inverse_bitfield(), !node.to_bitfield() & 0x0F);
        assert_eq!(node.to_bitfield(), 1 << node.to_line_index());
    }
}
