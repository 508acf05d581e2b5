//! The pin controller: the commanded state of the five owned line groups,
//! and the translation of node / mode / route intents into the exact
//! ordered GPIO writes that realise them.

use crate::bits::{bit_is_set, bit_iterator, nth_bit, spec_bit_updates, spec_bit_updates_upto};
use crate::lines::{
    resolve_node_lines, spec_first_missing, spec_lines_resolved, spec_required_name, MissingLine,
    NodeLines,
};
use crate::types::{
    lemma_bitfield_is_index_bit, lemma_inverse_bitfield_is_complement, NodeId, UsbMode, UsbRoute,
};
use vstd::prelude::*;

verus! {

/// Names one of the five line groups the controller owns.
#[derive(Clone, Copy, Debug, PartialEq, Eq, Structural)]
pub enum LineGroup {
    /// Four vbus power lines, one per node (bit i drives node i+1).
    UsbVbus,
    /// The four mux select / output-enable lines, in construction order.
    UsbMux,
    /// The single shared USB switch line.
    UsbSwitch,
    /// The single rpiboot boot-strap line of the node at this index (0-based).
    RpiBoot(usize),
    /// The single RTL transceiver reset line. The line is requested with
    /// active-low polarity, so value 1 asserts the physical reset.
    RtlReset,
}

/// One hardware write: drive every line of `group` from the bits of
/// `value`, bit i to logical line i.
#[derive(Clone, Copy, Debug, PartialEq, Eq, Structural)]
pub struct LineWrite {
    pub group: LineGroup,
    pub value: u8,
}

/// The plan `set_usb_route` hands back: the switch-line write, then the
/// byte-exact payload for the host's USB port-power control file. The
/// caller performs the line write first; if the file write then fails the
/// switch line stays changed — the two are not atomic.
pub struct RoutePlan {
    /// Drive the shared switch line.
    pub switch_write: LineWrite,
    /// Then write these bytes to the port-power control file.
    pub power_payload: String,
}

/// The plan `rtl_reset` hands back: assert the RTL transceiver reset,
/// hold, deassert. The caller must perform `set_write`, then wait
/// `hold_seconds`, then perform `clear_write`, in that order; a caller
/// cancelled after the first write leaves the reset asserted.
pub struct ResetPulse {
    /// Assert the reset (value 1 on the active-low line pulls it low).
    pub set_write: LineWrite,
    /// Hold the reset asserted this long.
    pub hold_seconds: u64,
    /// Deassert the reset.
    pub clear_write: LineWrite,
}

/// The pin controller's commanded line state. Each field is the bitfield
/// most recently commanded on that group; a freshly constructed controller
/// holds all lines driven to 0, the state the output request leaves them in.
///
/// Exactly one controller should exist per physical board: it models lines
/// it assumes nothing else writes.
#[derive(Clone, Copy, Debug, PartialEq, Eq, Structural)]
pub struct PinController {
    /// Per-node vbus power lines (4 bits).
    pub usb_vbus: u8,
    /// The mux select / output-enable word (4 bits).
    pub usb_mux: u8,
    /// The shared switch line (1 bit).
    pub usb_switch: u8,
    /// Per-node rpiboot boot-strap lines (4 bits).
    pub rpi_boot: u8,
    /// The RTL reset line (1 bit, logical value; hardware is active-low).
    pub rtl_reset: u8,
}

/// The mux select / output-enable word that routes the shared USB bus to
/// `node`'s port. A fixed board-wiring table: the two select and two
/// output-enable lines must take exactly these values, nothing else routes
/// that node.
pub open spec fn spec_mux_word(node: NodeId) -> u8 {
    match node {
        NodeId::Node1 => 0b1100,
        NodeId::Node2 => 0b1101,
        NodeId::Node3 => 0b0011,
        NodeId::Node4 => 0b0111,
    }
}

/// The vbus word for selecting `node` in `mode`: a host-mode node must not
/// receive board-side bus power, so its own bit is cleared; in device and
/// flash mode all four nodes stay powered.
pub open spec fn spec_vbus_word(node: NodeId, mode: UsbMode) -> u8 {
    match mode {
        UsbMode::Host => node.spec_inverse_bitfield(),
        UsbMode::Device => 0b1111,
        UsbMode::Flash => 0b1111,
    }
}

/// The rpiboot desired-state field that `select_usb` applies.
pub open spec fn spec_boot_state(node: NodeId, mode: UsbMode) -> u8 {
    match mode {
        UsbMode::Flash => node.spec_bitfield(),
        UsbMode::Host => 0,
        UsbMode::Device => 0,
    }
}

/// The rpiboot mask that `select_usb` applies: flash touches only the
/// selected node's line, the other modes clear all four.
pub open spec fn spec_boot_mask(node: NodeId, mode: UsbMode) -> u8 {
    match mode {
        UsbMode::Flash => node.spec_bitfield(),
        UsbMode::Host => 0b1111,
        UsbMode::Device => 0b1111,
    }
}

/// The switch line value for a route: 0 connects the external USB-A side,
/// 1 the board's own controller.
pub open spec fn spec_switch_value(route: UsbRoute) -> u8 {
    match route {
        UsbRoute::UsbA => 0,
        UsbRoute::Bmc => 1,
    }
}

/// The four rpiboot bits after a masked update: where a mask bit is set the
/// bit comes from `state`, elsewhere the old bit is kept. Only the low four
/// bits take part; there is no fifth line.
pub open spec fn spec_masked_update(cur: u8, state: u8, mask: u8) -> u8 {
    (cur & !(mask & 0x0Fu8)) | (state & (mask & 0x0Fu8))
}

/// The writes a masked rpiboot update performs, in ascending node order:
/// one single-line write per set mask bit.
pub open spec fn spec_boot_writes(state: u8, mask: u8) -> Seq<LineWrite> {
    spec_bit_updates(state, mask).map_values(
        |u: (usize, u8)| LineWrite { group: LineGroup::RpiBoot(u.0), value: u.1 },
    )
}

/// The line state a freshly constructed controller commands.
pub open spec fn spec_initial() -> PinController {
    PinController { usb_vbus: 0, usb_mux: 0, usb_switch: 0, rpi_boot: 0, rtl_reset: 0 }
}

/// The commanded state after `select_usb(node, mode)`.
pub open spec fn spec_select_usb_state(s: PinController, node: NodeId, mode: UsbMode) -> PinController {
    PinController {
        usb_mux: spec_mux_word(node),
        usb_vbus: spec_vbus_word(node, mode),
        rpi_boot: spec_masked_update(
            s.rpi_boot,
            spec_boot_state(node, mode),
            spec_boot_mask(node, mode),
        ),
        ..s
    }
}

/// The ordered writes `select_usb(node, mode)` issues: mux word first, then
/// vbus, then the masked rpiboot updates.
pub open spec fn spec_select_usb_writes(node: NodeId, mode: UsbMode) -> Seq<LineWrite> {
    seq![
        LineWrite { group: LineGroup::UsbMux, value: spec_mux_word(node) },
        LineWrite { group: LineGroup::UsbVbus, value: spec_vbus_word(node, mode) },
    ] + spec_boot_writes(spec_boot_state(node, mode), spec_boot_mask(node, mode))
}

impl PinController {
    /// All commanded bitfields fit their group's line count.
    pub open spec fn wf(self) -> bool {
        self.usb_vbus < 16 && self.usb_mux < 16 && self.usb_switch < 2 && self.rpi_boot < 16
            && self.rtl_reset < 2
    }

    /// Creates a pin controller from chip1's name → offset table. All five
    /// line groups must be constructible or construction fails as a whole:
    /// when any of the eight required per-node line names is absent the
    /// first missing one (in resolution order) is reported and no offsets
    /// are handed out, so the caller has touched no line yet and requests
    /// the chip0 groups only after this succeeds. On success the returned
    /// offsets tell the caller which chip1 lines to request, and the
    /// controller starts from the all-lines-low state that the output
    /// requests establish.
    pub fn new(chip1_lines: &Vec<(String, u32)>) -> (r: Result<(PinController, NodeLines), MissingLine>)
        ensures
            r is Ok <==> spec_first_missing(chip1_lines@) == 8,
            r matches Ok(p) ==> p.0 == spec_initial() && p.0.wf() && spec_lines_resolved(
                p.1,
                chip1_lines@,
            ),
            r matches Err(e) ==> e.name@ == spec_required_name(spec_first_missing(chip1_lines@)),
    {
        match resolve_node_lines(chip1_lines) {
            Ok(lines) => {
                let controller = PinController {
                    usb_vbus: 0,
                    usb_mux: 0,
                    usb_switch: 0,
                    rpi_boot: 0,
                    rtl_reset: 0,
                };
                Ok((controller, lines))
            },
            Err(e) => Err(e),
        }
    }

    /// Selects which node's USB interface is active on the shared mux and
    /// in which electrical mode, and returns the writes to issue, in order.
    /// The caller must perform them in exactly that order and may stop at
    /// the first failing write: the hardware is then part-way between the
    /// old and the new commanded state, and re-issuing the same selection
    /// converges it (no rollback is attempted).
    pub fn select_usb(&mut self, node: NodeId, mode: UsbMode) -> (writes: Vec<LineWrite>)
        requires
            old(self).wf(),
        ensures
            final(self).wf(),
            *final(self) == spec_select_usb_state(*old(self), node, mode),
            writes@ == spec_select_usb_writes(node, mode),
    {
        let values: u8 = match node {
            NodeId::Node1 => 0b1100,
            NodeId::Node2 => 0b1101,
            NodeId::Node3 => 0b0011,
            NodeId::Node4 => 0b0111,
        };
        let mut writes: Vec<LineWrite> = Vec::new();
        self.usb_mux = values;
        writes.push(LineWrite { group: LineGroup::UsbMux, value: values });

        let vbus: u8 = match mode {
            UsbMode::Host => node.to_inverse_bitfield(),
            UsbMode::Device | UsbMode::Flash => 0b1111,
        };
        self.usb_vbus = vbus;
        writes.push(LineWrite { group: LineGroup::UsbVbus, value: vbus });

        let mut boot_writes = if UsbMode::Flash == mode {
            let field = node.to_bitfield();
            self.set_usb_boot(field, field)
        } else {
            self.set_usb_boot(0, 0b1111)
        };
        writes.append(&mut boot_writes);
        proof {
            assert(writes@ =~= spec_select_usb_writes(node, mode));
        }
        writes
    }

    /// Applies a masked update to the rpiboot boot-strap lines: for every
    /// line index whose bit in `nodes_mask` is set, that line is to be
    /// driven to the matching bit of `nodes_state`; lines whose mask bit is
    /// clear are not written at all and keep their value. Returns the
    /// single-line writes to perform, in ascending node order.
    pub fn set_usb_boot(&mut self, nodes_state: u8, nodes_mask: u8) -> (writes: Vec<LineWrite>)
        requires
            old(self).wf(),
        ensures
            final(self).wf(),
            *final(self) == (PinController {
                rpi_boot: spec_masked_update(old(self).rpi_boot, nodes_state, nodes_mask),
                ..*old(self)
            }),
            writes@ == spec_boot_writes(nodes_state, nodes_mask),
    {
        let updates = bit_iterator(nodes_state, nodes_mask);
        let mut writes: Vec<LineWrite> = Vec::new();
        let mut k: usize = 0;
        while k < updates.len()
            invariant
                k <= updates.len(),
                updates@ == spec_bit_updates(nodes_state, nodes_mask),
                writes@.len() == k,
                forall|j: int|
                    0 <= j < k ==> writes@[j] == (LineWrite {
                        group: LineGroup::RpiBoot(updates@[j].0),
                        value: updates@[j].1,
                    }),
            decreases updates.len() - k,
        {
            let (idx, value) = updates[k];
            writes.push(LineWrite { group: LineGroup::RpiBoot(idx), value });
            k = k + 1;
        }
        proof {
            assert(writes@ =~= spec_boot_writes(nodes_state, nodes_mask));
        }
        let cur = self.rpi_boot;
        let new_boot: u8 = (cur & !(nodes_mask & 0x0Fu8)) | (nodes_state & (nodes_mask & 0x0Fu8));
        proof {
            assert((cur & !(nodes_mask & 0x0Fu8)) | (nodes_state & (nodes_mask & 0x0Fu8)) < 16)
                by (bit_vector)
                requires
                    cur < 16,
            ;
        }
        self.rpi_boot = new_boot;
        writes
    }

    /// Routes the shared USB switch either to the external USB-A connector
    /// (`UsbA`: switch line 0, port power `"enabled"`) or to the board's
    /// own controller (`Bmc`: switch line 1, port power `"disabled"`).
    /// The caller performs the switch write, then writes the payload to the
    /// port-power control file; a failure of the file write leaves the
    /// switch line already changed.
    pub fn set_usb_route(&mut self, route: UsbRoute) -> (plan: RoutePlan)
        requires
            old(self).wf(),
        ensures
            final(self).wf(),
            *final(self) == (PinController { usb_switch: spec_switch_value(route), ..*old(self) }),
            plan.switch_write == (LineWrite {
                group: LineGroup::UsbSwitch,
                value: spec_switch_value(route),
            }),
            route == UsbRoute::UsbA ==> plan.power_payload@ == "enabled"@,
            route == UsbRoute::Bmc ==> plan.power_payload@ == "disabled"@,
    {
        match route {
            UsbRoute::UsbA => {
                self.usb_switch = 0;
                RoutePlan {
                    switch_write: LineWrite { group: LineGroup::UsbSwitch, value: 0 },
                    power_payload: String::from_str("enabled"),
                }
            },
            UsbRoute::Bmc => {
                self.usb_switch = 1;
                RoutePlan {
                    switch_write: LineWrite { group: LineGroup::UsbSwitch, value: 1 },
                    power_payload: String::from_str("disabled"),
                }
            },
        }
    }

    /// Pulses the RTL transceiver reset: assert, hold one second, deassert.
    /// The caller performs the three steps of the returned pulse strictly
    /// in order and must not start a second pulse before this one is done.
    pub fn rtl_reset(&mut self) -> (pulse: ResetPulse)
        requires
            old(self).wf(),
        ensures
            final(self).wf(),
            *final(self) == (PinController { rtl_reset: 0u8, ..*old(self) }),
            pulse.set_write == (LineWrite { group: LineGroup::RtlReset, value: 1 }),
            pulse.hold_seconds == 1,
            pulse.clear_write == (LineWrite { group: LineGroup::RtlReset, value: 0 }),
    {
        self.rtl_reset = 0;
        ResetPulse {
            set_write: LineWrite { group: LineGroup::RtlReset, value: 1 },
            hold_seconds: 1,
            clear_write: LineWrite { group: LineGroup::RtlReset, value: 0 },
        }
    }
}

/// The line state after performing one write: the named group takes the
/// written bitfield; a single rpiboot line write moves only that node's
/// bit. A write naming a rpiboot index with no line (there are four) moves
/// nothing.
pub open spec fn spec_apply_write(s: PinController, w: LineWrite) -> PinController {
    match w.group {
        LineGroup::UsbVbus => PinController { usb_vbus: w.value, ..s },
        LineGroup::UsbMux => PinController { usb_mux: w.value, ..s },
        LineGroup::UsbSwitch => PinController { usb_switch: w.value, ..s },
        LineGroup::RpiBoot(i) => {
            if i < 4 {
                PinController {
                    rpi_boot: if w.value != 0 {
                        s.rpi_boot | (1u8 << (i as u8))
                    } else {
                        s.rpi_boot & !(1u8 << (i as u8))
                    },
                    ..s
                }
            } else {
                s
            }
        },
        LineGroup::RtlReset => PinController { rtl_reset: w.value, ..s },
    }
}

/// The line state after performing a sequence of writes, first to last.
pub open spec fn spec_apply_writes(s: PinController, ws: Seq<LineWrite>) -> PinController
    decreases ws.len(),
{
    if ws.len() == 0 {
        s
    } else {
        spec_apply_writes(spec_apply_write(s, ws[0]), ws.drop_first())
    }
}

/// Bit `i` of a single-bit field `1 << d` is set exactly when `i == d`,
/// and that bit's value is 1.
proof fn lemma_single_bit(d: u8, i: u8)
    requires
        d < 4,
        i < 4,
    ensures
        bit_is_set(1u8 << d, i) <==> i == d,
        nth_bit(1u8 << d, d) == 1,
{
    assert((((1u8 << d) & (1u8 << i)) != 0) <==> i == d) by (bit_vector)
        requires
            d < 4,
            i < 4,
    ;
    assert((((1u8 << d) >> d) & 1u8) == 1) by (bit_vector)
        requires
            d < 4,
    ;
}

/// How a masked update moves single bits: where the mask bit is set the
/// line takes the matching bit of `state`, where it is clear the line
/// keeps the bit it had. This is the per-line meaning of `set_usb_boot`.
pub proof fn lemma_masked_update_bit(cur: u8, state: u8, mask: u8, i: u8)
    requires
        i < 4,
    ensures
        bit_is_set(mask, i) ==> nth_bit(spec_masked_update(cur, state, mask), i) == nth_bit(
            state,
            i,
        ),
        !bit_is_set(mask, i) ==> nth_bit(spec_masked_update(cur, state, mask), i) == nth_bit(
            cur,
            i,
        ),
{
    assert((mask & (1u8 << i) != 0) ==> ((((cur & !(mask & 0x0Fu8)) | (state & (mask & 0x0Fu8)))
        >> i) & 1u8) == ((state >> i) & 1u8)) by (bit_vector)
        requires
            i < 4,
    ;
    assert((mask & (1u8 << i) == 0) ==> ((((cur & !(mask & 0x0Fu8)) | (state & (mask & 0x0Fu8)))
        >> i) & 1u8) == ((cur >> i) & 1u8)) by (bit_vector)
        requires
            i < 4,
    ;
}

/// The low `n` bits, as a mask.
spec fn spec_low_mask(n: int) -> u8 {
    ((1u8 << (n as u8)) - 1) as u8
}

/// A masked update restricted to the low `n` line bits.
spec fn spec_masked_update_low(cur: u8, state: u8, mask: u8, n: int) -> u8 {
    (cur & !(mask & spec_low_mask(n))) | (state & (mask & spec_low_mask(n)))
}

/// Appending one write to a plan performs it last.
proof fn lemma_apply_writes_push(s: PinController, ws: Seq<LineWrite>, w: LineWrite)
    ensures
        spec_apply_writes(s, ws.push(w)) == spec_apply_write(spec_apply_writes(s, ws), w),
    decreases ws.len(),
{
    reveal_with_fuel(spec_apply_writes, 3);
    if ws.len() == 0 {
        assert(ws.push(w)[0] == w);
        assert(ws.push(w).drop_first() =~= Seq::<LineWrite>::empty());
    } else {
        assert(ws.push(w)[0] == ws[0]);
        assert(ws.push(w).drop_first() =~= ws.drop_first().push(w));
        lemma_apply_writes_push(spec_apply_write(s, ws[0]), ws.drop_first(), w);
    }
}

/// Performing the first `n` indices' worth of masked rpiboot writes moves
/// exactly the masked low `n` bits of the boot-strap field.
proof fn lemma_apply_boot_upto(s: PinController, state: u8, mask: u8, n: int)
    requires
        0 <= n <= 4,
    ensures
        spec_apply_writes(
            s,
            spec_bit_updates_upto(state, mask, n).map_values(
                |u: (usize, u8)| LineWrite { group: LineGroup::RpiBoot(u.0), value: u.1 },
            ),
        ) == (PinController { rpi_boot: spec_masked_update_low(s.rpi_boot, state, mask, n), ..s }),
    decreases n,
{
    let bw = |u: (usize, u8)| LineWrite { group: LineGroup::RpiBoot(u.0), value: u.1 };
    let c = s.rpi_boot;
    if n == 0 {
        assert(spec_bit_updates_upto(state, mask, 0).map_values(bw) =~= Seq::<LineWrite>::empty());
        assert((c & !(mask & (((1u8 << 0u8) - 1) as u8))) | (state & (mask & (((1u8 << 0u8)
            - 1) as u8))) == c) by (bit_vector);
    } else {
        lemma_apply_boot_upto(s, state, mask, n - 1);
        let j = (n - 1) as u8;
        let prev = spec_bit_updates_upto(state, mask, n - 1);
        assert(spec_low_mask(n - 1) == ((1u8 << j) - 1) as u8);
        assert(spec_low_mask(n) == ((1u8 << ((j + 1) as u8)) - 1) as u8);
        if bit_is_set(mask, j) {
            let e = (((n - 1) as usize), nth_bit(state, j));
            assert(spec_bit_updates_upto(state, mask, n) == prev.push(e));
            assert(prev.push(e).map_values(bw) =~= prev.map_values(bw).push(bw(e)));
            lemma_apply_writes_push(s, prev.map_values(bw), bw(e));
            assert((mask & (1u8 << j) != 0 && (state >> j) & 1u8 != 0) ==> (((c & !(mask & (((1u8
                << j) - 1) as u8))) | (state & (mask & (((1u8 << j) - 1) as u8)))) | (1u8 << j))
                == ((c & !(mask & (((1u8 << ((j + 1) as u8)) - 1) as u8))) | (state & (mask & (((
            1u8 << ((j + 1) as u8)) - 1) as u8))))) by (bit_vector)
                requires
                    j < 4,
            ;
            assert((mask & (1u8 << j) != 0 && (state >> j) & 1u8 == 0) ==> (((c & !(mask & (((1u8
                << j) - 1) as u8))) | (state & (mask & (((1u8 << j) - 1) as u8)))) & !(1u8 << j))
                == ((c & !(mask & (((1u8 << ((j + 1) as u8)) - 1) as u8))) | (state & (mask & (((
            1u8 << ((j + 1) as u8)) - 1) as u8))))) by (bit_vector)
                requires
                    j < 4,
            ;
        } else {
            assert(spec_bit_updates_upto(state, mask, n) == prev);
            assert((mask & (1u8 << j) == 0) ==> ((c & !(mask & (((1u8 << j) - 1) as u8))) | (state
                & (mask & (((1u8 << j) - 1) as u8)))) == ((c & !(mask & (((1u8 << ((j
                + 1) as u8)) - 1) as u8))) | (state & (mask & (((1u8 << ((j + 1) as u8))
                - 1) as u8))))) by (bit_vector)
                requires
                    j < 4,
            ;
        }
    }
}

/// Performing the writes of a masked rpiboot update, in order, leaves the
/// four boot-strap lines exactly in the commanded masked-update state.
pub proof fn lemma_boot_writes_realise_masked_update(s: PinController, state: u8, mask: u8)
    ensures
        spec_apply_writes(s, spec_boot_writes(state, mask)) == (PinController {
            rpi_boot: spec_masked_update(s.rpi_boot, state, mask),
            ..s
        }),
{
    lemma_apply_boot_upto(s, state, mask, 4);
    let bw = |u: (usize, u8)| LineWrite { group: LineGroup::RpiBoot(u.0), value: u.1 };
    assert(spec_boot_writes(state, mask) =~= spec_bit_updates_upto(state, mask, 4).map_values(bw));
    assert(((1u8 << 4u8) - 1) as u8 == 0x0Fu8) by (bit_vector);
    assert(spec_low_mask(4) == 0x0Fu8);
}

/// Performing the writes that `select_usb` hands back, first to last, on
/// lines that stood in the controller's previous commanded state leaves
/// them exactly in the new commanded state: the commanded-state model and
/// the hardware agree whenever every write lands.
pub proof fn lemma_select_usb_writes_realise_state(s: PinController, node: NodeId, mode: UsbMode)
    ensures
        spec_apply_writes(s, spec_select_usb_writes(node, mode)) == spec_select_usb_state(
            s,
            node,
            mode,
        ),
{
    reveal_with_fuel(spec_apply_writes, 3);
    let ws = spec_select_usb_writes(node, mode);
    let w0 = LineWrite { group: LineGroup::UsbMux, value: spec_mux_word(node) };
    let w1 = LineWrite { group: LineGroup::UsbVbus, value: spec_vbus_word(node, mode) };
    let bws = spec_boot_writes(spec_boot_state(node, mode), spec_boot_mask(node, mode));
    assert(ws[0] == w0);
    assert(ws.drop_first() =~= seq![w1] + bws);
    let s1 = spec_apply_write(s, w0);
    assert((seq![w1] + bws)[0] == w1);
    assert((seq![w1] + bws).drop_first() =~= bws);
    let s2 = spec_apply_write(s1, w1);
    lemma_boot_writes_realise_masked_update(
        s2,
        spec_boot_state(node, mode),
        spec_boot_mask(node, mode),
    );
}

/// The reset pulse's two writes, with the hold between them, first assert
/// the reset (the line commanded to 1, physically low) and then leave it
/// deasserted: the state between the writes has the reset asserted, the
/// state after both has it released.
pub proof fn lemma_reset_pulse_realises_state(s: PinController)
    ensures
        spec_apply_write(s, LineWrite { group: LineGroup::RtlReset, value: 1 }).rtl_reset == 1,
        spec_apply_writes(
            s,
            seq![
                (LineWrite { group: LineGroup::RtlReset, value: 1 }),
                (LineWrite { group: LineGroup::RtlReset, value: 0 }),
            ],
        ) == (PinController { rtl_reset: 0u8, ..s }),
{
    reveal_with_fuel(spec_apply_writes, 3);
    let w0 = LineWrite { group: LineGroup::RtlReset, value: 1 };
    let w1 = LineWrite { group: LineGroup::RtlReset, value: 0 };
    let ws = seq![w0, w1];
    assert(ws[0] == w0);
    assert(ws.drop_first() =~= seq![w1]);
    assert(seq![w1].drop_first() =~= Seq::<LineWrite>::empty());
}

/// The mux lookup table, bit-exact, and its injectivity: each node has its
/// own select / output-enable word, and no two nodes share one, so the
/// shared bus is routed to exactly one node's port.
pub proof fn lemma_mux_table()
    ensures
        spec_mux_word(NodeId::Node1) == 0b1100,
        spec_mux_word(NodeId::Node2) == 0b1101,
        spec_mux_word(NodeId::Node3) == 0b0011,
        spec_mux_word(NodeId::Node4) == 0b0111,
        forall|a: NodeId, b: NodeId| spec_mux_word(a) == spec_mux_word(b) ==> a == b,
{
}

/// Selecting a node as USB host powers every node but that one: the vbus
/// word is the bitwise complement of the node's single-bit field, masked
/// to the four vbus lines.
pub proof fn lemma_vbus_host_is_complement(node: NodeId)
    ensures
        spec_vbus_word(node, UsbMode::Host) == !node.spec_bitfield() & 0x0Fu8,
{
    lemma_inverse_bitfield_is_complement(node);
}

/// Selecting a node in device or flash mode drives all four vbus lines on.
pub proof fn lemma_vbus_powered_when_not_host(node: NodeId, mode: UsbMode)
    requires
        mode != UsbMode::Host,
    ensures
        spec_vbus_word(node, mode) == 0b1111,
{
}

/// Flash mode touches exactly one rpiboot line: the selected node's own,
/// driven to 1, in a single write; every other node's boot-strap line is
/// not written and keeps the bit it had.
pub proof fn lemma_select_usb_flash_boot(s: PinController, node: NodeId)
    ensures
        spec_boot_writes(
            spec_boot_state(node, UsbMode::Flash),
            spec_boot_mask(node, UsbMode::Flash),
        ) == seq![
            (LineWrite { group: LineGroup::RpiBoot(node.spec_line_index() as usize), value: 1 }),
        ],
        nth_bit(
            spec_select_usb_state(s, node, UsbMode::Flash).rpi_boot,
            node.spec_line_index() as u8,
        ) == 1,
        forall|j: u8|
            j < 4 && j != node.spec_line_index() ==> #[trigger] nth_bit(
                spec_select_usb_state(s, node, UsbMode::Flash).rpi_boot,
                j,
            ) == nth_bit(s.rpi_boot, j),
{
    reveal_with_fuel(crate::bits::spec_bit_updates_upto, 5);
    lemma_bitfield_is_index_bit(node);
    let d = node.spec_line_index() as u8;
    let field = node.spec_bitfield();
    assert forall|j: u8| j < 4 implies (bit_is_set(field, j) <==> j == d) by {
        lemma_single_bit(d, j);
    }
    lemma_single_bit(d, d);
    assert(spec_bit_updates(field, field) =~= seq![(d as usize, 1u8)]);
    assert(spec_boot_writes(field, field) =~= seq![
        (LineWrite { group: LineGroup::RpiBoot(d as usize), value: 1 }),
    ]);
    lemma_masked_update_bit(s.rpi_boot, field, field, d);
    assert forall|j: u8|
        j < 4 && j != node.spec_line_index() implies #[trigger] nth_bit(
        spec_select_usb_state(s, node, UsbMode::Flash).rpi_boot,
        j,
    ) == nth_bit(s.rpi_boot, j) by {
        lemma_masked_update_bit(s.rpi_boot, field, field, j);
    }
}

/// Host and device mode clear the boot-strap state of all four nodes
/// unconditionally: every rpiboot line is written to 0, in node order, and
/// the commanded boot-strap field ends at 0.
pub proof fn lemma_select_usb_clears_boot(s: PinController, node: NodeId, mode: UsbMode)
    requires
        s.wf(),
        mode != UsbMode::Flash,
    ensures
        spec_boot_state(node, mode) == 0,
        spec_boot_mask(node, mode) == 0b1111,
        spec_boot_writes(spec_boot_state(node, mode), spec_boot_mask(node, mode)) == seq![
            (LineWrite { group: LineGroup::RpiBoot(0), value: 0 }),
            (LineWrite { group: LineGroup::RpiBoot(1), value: 0 }),
            (LineWrite { group: LineGroup::RpiBoot(2), value: 0 }),
            (LineWrite { group: LineGroup::RpiBoot(3), value: 0 }),
        ],
        spec_select_usb_state(s, node, mode).rpi_boot == 0,
{
    reveal_with_fuel(crate::bits::spec_bit_updates_upto, 5);
    assert(forall|i: u8| i < 4 ==> bit_is_set(0b1111u8, i) && nth_bit(0u8, i) == 0u8)
        by (bit_vector);
    assert(spec_bit_updates(0, 0b1111) =~= seq![
        (0usize, 0u8),
        (1usize, 0u8),
        (2usize, 0u8),
        (3usize, 0u8),
    ]);
    assert(spec_boot_writes(0, 0b1111) =~= seq![
        (LineWrite { group: LineGroup::RpiBoot(0), value: 0 }),
        (LineWrite { group: LineGroup::RpiBoot(1), value: 0 }),
        (LineWrite { group: LineGroup::RpiBoot(2), value: 0 }),
        (LineWrite { group: LineGroup::RpiBoot(3), value: 0 }),
    ]);
    let cur = s.rpi_boot;
    assert((cur & !(0b1111u8 & 0x0Fu8)) | (0u8 & (0b1111u8 & 0x0Fu8)) == 0u8) by (bit_vector)
        requires
            cur < 16,
    ;
}

/// Selecting the same node and mode twice in a row commands the same final
/// line state as selecting it once, whatever state the controller started
/// from — and since the write plan is a pure function of node and mode,
/// the second call also issues exactly the same writes as the first.
pub proof fn lemma_select_usb_idempotent(s: PinController, node: NodeId, mode: UsbMode)
    ensures
        spec_select_usb_state(spec_select_usb_state(s, node, mode), node, mode)
            == spec_select_usb_state(s, node, mode),
        spec_apply_writes(
            spec_apply_writes(s, spec_select_usb_writes(node, mode)),
            spec_select_usb_writes(node, mode),
        ) == spec_apply_writes(s, spec_select_usb_writes(node, mode)),
{
    let c = s.rpi_boot;
    let st = spec_boot_state(node, mode);
    let m = spec_boot_mask(node, mode);
    assert((((c & !(m & 0x0Fu8)) | (st & (m & 0x0Fu8))) & !(m & 0x0Fu8)) | (st & (m & 0x0Fu8))
        == (c & !(m & 0x0Fu8)) | (st & (m & 0x0Fu8))) by (bit_vector);
    lemma_select_usb_writes_realise_state(s, node, mode);
    lemma_select_usb_writes_realise_state(spec_select_usb_state(s, node, mode), node, mode);
}

} // verus!
