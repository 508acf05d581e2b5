//! Resolution of the required chip1 line names to line offsets. The
//! controller needs eight named lines there — one USB-OTG-device line and
//! one rpiboot line per node — and construction must fail as a whole,
//! naming the missing line, when any of them is absent.

use crate::types::NodeId;
use vstd::prelude::*;

verus! {

/// The required chip1 line name at position `i` of the fixed resolution
/// order: the four per-node USB-OTG-device lines, then the four per-node
/// rpiboot lines.
pub open spec fn spec_required_name(i: int) -> Seq<char> {
    if i == 0 {
        "node1-usbotg-dev"@
    } else if i == 1 {
        "node2-usbotg-dev"@
    } else if i == 2 {
        "node3-usbotg-dev"@
    } else if i == 3 {
        "node4-usbotg-dev"@
    } else if i == 4 {
        "node1-rpiboot"@
    } else if i == 5 {
        "node2-rpiboot"@
    } else if i == 6 {
        "node3-rpiboot"@
    } else {
        "node4-rpiboot"@
    }
}

/// The name of the node's USB-OTG-device line on chip1.
pub fn usbotg_dev_line_name(node: NodeId) -> (r: String)
    ensures
        r@ == spec_required_name(node.spec_line_index()),
{
    match node {
        NodeId::Node1 => String::from_str("node1-usbotg-dev"),
        NodeId::Node2 => String::from_str("node2-usbotg-dev"),
        NodeId::Node3 => String::from_str("node3-usbotg-dev"),
        NodeId::Node4 => String::from_str("node4-usbotg-dev"),
    }
}

/// The name of the node's rpiboot boot-strap line on chip1.
pub fn rpiboot_line_name(node: NodeId) -> (r: String)
    ensures
        r@ == spec_required_name(4 + node.spec_line_index()),
{
    match node {
        NodeId::Node1 => String::from_str("node1-rpiboot"),
        NodeId::Node2 => String::from_str("node2-rpiboot"),
        NodeId::Node3 => String::from_str("node3-rpiboot"),
        NodeId::Node4 => String::from_str("node4-rpiboot"),
    }
}

/// The offset of the first table entry whose name equals `name`, if any.
pub open spec fn spec_lookup(table: Seq<(String, u32)>, name: Seq<char>) -> Option<u32>
    decreases table.len(),
{
    if table.len() == 0 {
        None
    } else if table[0].0@ == name {
        Some(table[0].1)
    } else {
        spec_lookup(table.drop_first(), name)
    }
}

/// Linear search of a name → offset table for `name`; first match wins.
pub fn lookup(table: &Vec<(String, u32)>, name: &String) -> (r: Option<u32>)
    ensures
        r == spec_lookup(table@, name@),
{
    proof {
        assert(table@.skip(0) =~= table@);
    }
    let mut k: usize = 0;
    while k < table.len()
        invariant
            k <= table.len(),
            spec_lookup(table@.skip(k as int), name@) == spec_lookup(table@, name@),
        decreases table.len() - k,
    {
        if table[k].0 == *name {
            proof {
                assert(table@.skip(k as int)[0] == table@[k as int]);
            }
            return Some(table[k].1);
        }
        proof {
            assert(table@.skip(k as int)[0] == table@[k as int]);
            assert(table@.skip(k as int).drop_first() =~= table@.skip(k as int + 1));
        }
        k = k + 1;
    }
    None
}

/// The resolved chip1 line offsets, one field per required name.
#[derive(Clone, Copy, Debug, PartialEq, Eq, Structural)]
pub struct NodeLines {
    pub usb1: u32,
    pub usb2: u32,
    pub usb3: u32,
    pub usb4: u32,
    pub rpi1: u32,
    pub rpi2: u32,
    pub rpi3: u32,
    pub rpi4: u32,
}

/// Construction failure: the required chip1 line of this name is absent
/// from the chip's name → offset table.
pub struct MissingLine {
    pub name: String,
}

/// The position of the first required name the table lacks, in resolution
/// order; 8 when every required name resolves.
pub open spec fn spec_first_missing(table: Seq<(String, u32)>) -> int {
    if spec_lookup(table, spec_required_name(0)) is None {
        0
    } else if spec_lookup(table, spec_required_name(1)) is None {
        1
    } else if spec_lookup(table, spec_required_name(2)) is None {
        2
    } else if spec_lookup(table, spec_required_name(3)) is None {
        3
    } else if spec_lookup(table, spec_required_name(4)) is None {
        4
    } else if spec_lookup(table, spec_required_name(5)) is None {
        5
    } else if spec_lookup(table, spec_required_name(6)) is None {
        6
    } else if spec_lookup(table, spec_required_name(7)) is None {
        7
    } else {
        8
    }
}

/// Every resolved offset is what the table holds under the matching
/// required name.
pub open spec fn spec_lines_resolved(l: NodeLines, table: Seq<(String, u32)>) -> bool {
    spec_lookup(table, spec_required_name(0)) == Some(l.usb1) && spec_lookup(
        table,
        spec_required_name(1),
    ) == Some(l.usb2) && spec_lookup(table, spec_required_name(2)) == Some(l.usb3) && spec_lookup(
        table,
        spec_required_name(3),
    ) == Some(l.usb4) && spec_lookup(table, spec_required_name(4)) == Some(l.rpi1) && spec_lookup(
        table,
        spec_required_name(5),
    ) == Some(l.rpi2) && spec_lookup(table, spec_required_name(6)) == Some(l.rpi3) && spec_lookup(
        table,
        spec_required_name(7),
    ) == Some(l.rpi4)
}

/// Resolves all eight required chip1 line names against a name → offset
/// table. All-or-nothing: succeeds exactly when every required name is
/// present, and otherwise fails naming the first absent one in resolution
/// order, before anything else is touched.
pub fn resolve_node_lines(chip1_lines: &Vec<(String, u32)>) -> (r: Result<NodeLines, MissingLine>)
    ensures
        r is Ok <==> spec_first_missing(chip1_lines@) == 8,
        r matches Ok(l) ==> spec_lines_resolved(l, chip1_lines@),
        r matches Err(e) ==> e.name@ == spec_required_name(spec_first_missing(chip1_lines@)),
{
    let name1 = usbotg_dev_line_name(NodeId::Node1);
    let usb1 = match lookup(chip1_lines, &name1) {
        Some(v) => v,
        None => {
            return Err(MissingLine { name: name1 });
        },
    };
    let name2 = usbotg_dev_line_name(NodeId::Node2);
    let usb2 = match lookup(chip1_lines, &name2) {
        Some(v) => v,
        None => {
            return Err(MissingLine { name: name2 });
        },
    };
    let name3 = usbotg_dev_line_name(NodeId::Node3);
    let usb3 = match lookup(chip1_lines, &name3) {
        Some(v) => v,
        None => {
            return Err(MissingLine { name: name3 });
        },
    };
    let name4 = usbotg_dev_line_name(NodeId::Node4);
    let usb4 = match lookup(chip1_lines, &name4) {
        Some(v) => v,
        None => {
            return Err(MissingLine { name: name4 });
        },
    };
    let name5 = rpiboot_line_name(NodeId::Node1);
    let rpi1 = match lookup(chip1_lines, &name5) {
        Some(v) => v,
        None => {
            return Err(MissingLine { name: name5 });
        },
    };
    let name6 = rpiboot_line_name(NodeId::Node2);
    let rpi2 = match lookup(chip1_lines, &name6) {
        Some(v) => v,
        None => {
            return Err(MissingLine { name: name6 });
        },
    };
    let name7 = rpiboot_line_name(NodeId::Node3);
    let rpi3 = match lookup(chip1_lines, &name7) {
        Some(v) => v,
        None => {
            return Err(MissingLine { name: name7 });
        },
    };
    let name8 = rpiboot_line_name(NodeId::Node4);
    let rpi4 = match lookup(chip1_lines, &name8) {
        Some(v) => v,
        None => {
            return Err(MissingLine { name: name8 });
        },
    };
    Ok(NodeLines { usb1, usb2, usb3, usb4, rpi1, rpi2, rpi3, rpi4 })
}

} // verus!
