//! Node identifiers and the USB mode / route selectors, with the per-node
//! bit encodings that the line-group bitfields are built from.

use vstd::prelude::*;

verus! {

/// Identifies one of the four compute nodes on the board.
#[derive(Clone, Copy, Debug, PartialEq, Eq, Structural)]
pub enum NodeId {
    Node1,
    Node2,
    Node3,
    Node4,
}

/// The electrical role a node's USB interface is placed in.
#[derive(Clone, Copy, Debug, PartialEq, Eq, Structural)]
pub enum UsbMode {
    /// The node acts as a USB host; the board must not feed it bus power.
    Host,
    /// The node acts as a USB device.
    Device,
    /// The node is forced into USB firmware-download mode on next power-on.
    Flash,
}

/// Which side the shared USB switch connects to the muxed node port.
#[derive(Clone, Copy, Debug, PartialEq, Eq, Structural)]
pub enum UsbRoute {
    /// External USB-A connector.
    UsbA,
    /// The board's own controller.
    Bmc,
}

impl NodeId {
    /// Zero-based position of the node in every four-line group.
    pub open spec fn spec_line_index(self) -> int {
        match self {
            NodeId::Node1 => 0,
            NodeId::Node2 => 1,
            NodeId::Node3 => 2,
            NodeId::Node4 => 3,
        }
    }

    /// The node's single-bit field: bit `spec_line_index` set, nothing else.
    pub open spec fn spec_bitfield(self) -> u8 {
        match self {
            NodeId::Node1 => 0b0001,
            NodeId::Node2 => 0b0010,
            NodeId::Node3 => 0b0100,
            NodeId::Node4 => 0b1000,
        }
    }

    /// All four low bits set except the node's own.
    pub open spec fn spec_inverse_bitfield(self) -> u8 {
        match self {
            NodeId::Node1 => 0b1110,
            NodeId::Node2 => 0b1101,
            NodeId::Node3 => 0b1011,
            NodeId::Node4 => 0b0111,
        }
    }

    /// Zero-based position of the node in every four-line group.
    pub fn to_line_index(self) -> (r: usize)
        ensures
            r == self.spec_line_index(),
    {
        match self {
            NodeId::Node1 => 0,
            NodeId::Node2 => 1,
            NodeId::Node3 => 2,
            NodeId::Node4 => 3,
        }
    }

    /// The bitfield identifying this node among the four.
    pub fn to_bitfield(self) -> (r: u8)
        ensures
            r == self.spec_bitfield(),
    {
        match self {
            NodeId::Node1 => 0b0001,
            NodeId::Node2 => 0b0010,
            NodeId::Node3 => 0b0100,
            NodeId::Node4 => 0b1000,
        }
    }

    /// The complement of the node's bitfield, masked to the four line bits.
    pub fn to_inverse_bitfield(self) -> (r: u8)
        ensures
            r == self.spec_inverse_bitfield(),
    {
        match self {
            NodeId::Node1 => 0b1110,
            NodeId::Node2 => 0b1101,
            NodeId::Node3 => 0b1011,
            NodeId::Node4 => 0b0111,
        }
    }
}

/// The inverse bitfield is exactly the bitwise complement of the node's
/// single-bit field, masked to the four line bits.
pub proof fn lemma_inverse_bitfield_is_complement(node: NodeId)
    ensures
        node.spec_inverse_bitfield() == !node.spec_bitfield() & 0x0Fu8,
{
    match node {
        NodeId::Node1 => {
            assert(!0b0001u8 & 0x0Fu8 == 0b1110u8) by (bit_vector);
        },
        NodeId::Node2 => {
            assert(!0b0010u8 & 0x0Fu8 == 0b1101u8) by (bit_vector);
        },
        NodeId::Node3 => {
            assert(!0b0100u8 & 0x0Fu8 == 0b1011u8) by (bit_vector);
        },
        NodeId::Node4 => {
            assert(!0b1000u8 & 0x0Fu8 == 0b0111u8) by (bit_vector);
        },
    }
}

/// The node's bitfield is the single bit at its line index.
pub proof fn lemma_bitfield_is_index_bit(node: NodeId)
    ensures
        node.spec_bitfield() == 1u8 << node.spec_line_index(),
{
    match node {
        NodeId::Node1 => {
            assert(1u8 << 0u8 == 0b0001u8) by (bit_vector);
        },
        NodeId::Node2 => {
            assert(1u8 << 1u8 == 0b0010u8) by (bit_vector);
        },
        NodeId::Node3 => {
            assert(1u8 << 2u8 == 0b0100u8) by (bit_vector);
        },
        NodeId::Node4 => {
            assert(1u8 << 3u8 == 0b1000u8) by (bit_vector);
        },
    }
}

} // verus!
