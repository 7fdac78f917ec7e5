//! Fan and LED hub: four channels, each with a fan ring group and an edge strip group.
//!
//! Switching it off sends, per channel in order, a black color packet for each group
//! and then a commit packet for each group at zero brightness. The caller waits
//! `INTER_COMMAND_DELAY_MS` after each packet. A lost color packet is tolerated; a
//! lost commit ends the operation.
use vstd::prelude::*;
use crate::bytes::zeroed;

verus! {

pub const VID: u16 = 0x0cf2;
pub const PID: u16 = 0xa104;
pub const TRANSACTION_ID: u8 = 0xe0;
/// Length of a commit packet.
pub const PACKET_SIZE: usize = 65;
/// Length of a color packet.
pub const COLOR_PACKET_SIZE: usize = 146;
pub const MODE_STATIC: u8 = 0x01;
pub const SPEED_VERY_SLOW: u8 = 0x02;
pub const DIRECTION_LEFT_TO_RIGHT: u8 = 0x00;
/// Brightness code of 0%.
pub const BRIGHTNESS_OFF: u8 = 0x08;
pub const NUM_CHANNELS: u8 = 4;
pub const COLOR_REG_FAN: u8 = 0x30;
pub const COLOR_REG_EDGE: u8 = 0x31;
pub const COMMIT_REG_FAN: u8 = 0x10;
pub const COMMIT_REG_EDGE: u8 = 0x11;
/// Packets per channel: two color packets, then two commits.
pub const STEPS_PER_CHANNEL: u8 = 4;
/// Packets in the whole sequence.
pub const SEQUENCE_LEN: u8 = 16;
/// Firmware processing time to leave after each packet.
pub const INTER_COMMAND_DELAY_MS: u64 = 20;

/// The first enumerated HID device, given as pairs of vendor and product id, that is
/// the hub.
pub fn find_hub(devices: &Vec<(u16, u16)>) -> (r: Option<usize>)
    ensures
        r matches Some(i) ==> i < devices@.len() && devices@[i as int] == (VID, PID)
            && forall|j: int| 0 <= j < i ==> #[trigger] devices@[j] != (VID, PID),
        r is None <==> forall|j: int| 0 <= j < devices@.len() ==> #[trigger] devices@[j] != (VID, PID),
{
    let mut i: usize = 0;
    while i < devices.len()
        invariant
            i <= devices@.len(),
            forall|j: int| 0 <= j < i ==> #[trigger] devices@[j] != (VID, PID),
        decreases devices@.len() - i,
    {
        let (v, p) = devices[i];
        if v == VID && p == PID {
            return Some(i);
        }
        i = i + 1;
    }
    None
}

/// What a packet of the sequence does.
#[derive(Clone, Copy, Debug, PartialEq, Eq, Structural)]
pub enum HubPacketKind {
    ColorFan,
    ColorEdge,
    CommitFan,
    CommitEdge,
}

/// The channel that packet `pos` of the sequence addresses.
pub open spec fn channel_at(pos: int) -> int {
    pos / STEPS_PER_CHANNEL as int
}

/// The kind of packet `pos` of the sequence.
pub open spec fn kind_at(pos: int) -> HubPacketKind {
    let step = pos % STEPS_PER_CHANNEL as int;
    if step == 0 {
        HubPacketKind::ColorFan
    } else if step == 1 {
        HubPacketKind::ColorEdge
    } else if step == 2 {
        HubPacketKind::CommitFan
    } else {
        HubPacketKind::CommitEdge
    }
}

pub open spec fn is_commit(pos: int) -> bool {
    kind_at(pos) == HubPacketKind::CommitFan || kind_at(pos) == HubPacketKind::CommitEdge
}

/// The register that a packet of kind `kind` for channel `ch` targets.
pub open spec fn target_register(kind: HubPacketKind, ch: int) -> int {
    let base = match kind {
        HubPacketKind::ColorFan => COLOR_REG_FAN,
        HubPacketKind::ColorEdge => COLOR_REG_EDGE,
        HubPacketKind::CommitFan => COMMIT_REG_FAN,
        HubPacketKind::CommitEdge => COMMIT_REG_EDGE,
    };
    base as int + 2 * ch
}

/// Packet `pos` of the sequence. A color packet carries an all-zero (black) payload;
/// a commit packet sets static mode, slowest speed, fixed direction, 0% brightness.
pub open spec fn hub_packet(pos: int) -> Seq<u8> {
    let reg = target_register(kind_at(pos), channel_at(pos)) as u8;
    if is_commit(pos) {
        Seq::new(
            PACKET_SIZE as nat,
            |i: int|
                if i == 0 {
                    TRANSACTION_ID
                } else if i == 1 {
                    reg
                } else if i == 2 {
                    MODE_STATIC
                } else if i == 3 {
                    SPEED_VERY_SLOW
                } else if i == 4 {
                    DIRECTION_LEFT_TO_RIGHT
                } else if i == 5 {
                    BRIGHTNESS_OFF
                } else {
                    0u8
                },
        )
    } else {
        Seq::new(
            COLOR_PACKET_SIZE as nat,
            |i: int|
                if i == 0 {
                    TRANSACTION_ID
                } else if i == 1 {
                    reg
                } else {
                    0u8
                },
        )
    }
}

/// The kind of packet `pos` of the sequence.
pub fn packet_kind(pos: u8) -> (r: HubPacketKind)
    ensures
        r == kind_at(pos as int),
{
    let step = pos % STEPS_PER_CHANNEL;
    if step == 0 {
        HubPacketKind::ColorFan
    } else if step == 1 {
        HubPacketKind::ColorEdge
    } else if step == 2 {
        HubPacketKind::CommitFan
    } else {
        HubPacketKind::CommitEdge
    }
}

/// The bytes of packet `pos` of the sequence.
pub fn hub_packet_at(pos: u8) -> (r: Vec<u8>)
    requires
        pos < SEQUENCE_LEN,
    ensures
        r@ == hub_packet(pos as int),
{
    let kind = packet_kind(pos);
    let ch = pos / STEPS_PER_CHANNEL;
    let base = match kind {
        HubPacketKind::ColorFan => COLOR_REG_FAN,
        HubPacketKind::ColorEdge => COLOR_REG_EDGE,
        HubPacketKind::CommitFan => COMMIT_REG_FAN,
        HubPacketKind::CommitEdge => COMMIT_REG_EDGE,
    };
    let reg = base + 2 * ch;
    match kind {
        HubPacketKind::CommitFan | HubPacketKind::CommitEdge => {
            let mut buf = zeroed(PACKET_SIZE);
            buf.set(0, TRANSACTION_ID);
            buf.set(1, reg);
            buf.set(2, MODE_STATIC);
            buf.set(3, SPEED_VERY_SLOW);
            buf.set(4, DIRECTION_LEFT_TO_RIGHT);
            buf.set(5, BRIGHTNESS_OFF);
            assert(buf@ =~= hub_packet(pos as int));
            buf
        },
        _ => {
            let mut buf = zeroed(COLOR_PACKET_SIZE);
            buf.set(0, TRANSACTION_ID);
            buf.set(1, reg);
            assert(buf@ =~= hub_packet(pos as int));
            buf
        },
    }
}

/// What to do after a packet of the sequence was written.
#[derive(Clone, Copy, Debug, PartialEq, Eq, Structural)]
pub enum HubNext {
    /// Send packet `pos` next.
    Send(u8),
    /// Every packet was sent; the hub is dark.
    Done,
    /// A commit packet was not accepted; stop here.
    Abort,
}

/// The step after writing packet `pos` with outcome `ok`.
pub open spec fn hub_next(pos: int, ok: bool) -> HubNext {
    if !ok && is_commit(pos) {
        HubNext::Abort
    } else if pos + 1 >= SEQUENCE_LEN {
        HubNext::Done
    } else {
        HubNext::Send((pos + 1) as u8)
    }
}

/// Decides what follows the write of packet `pos`, given whether it was accepted.
pub fn hub_after_write(pos: u8, ok: bool) -> (r: HubNext)
    requires
        pos < SEQUENCE_LEN,
    ensures
        r == hub_next(pos as int, ok),
{
    let kind = packet_kind(pos);
    let commit = match kind {
        HubPacketKind::CommitFan | HubPacketKind::CommitEdge => true,
        _ => false,
    };
    if !ok && commit {
        HubNext::Abort
    } else if pos + 1 >= SEQUENCE_LEN {
        HubNext::Done
    } else {
        HubNext::Send(pos + 1)
    }
}

/// The positions of the packets sent from `pos` on, where `oks[k]` is whether the
/// write of packet `k` was accepted.
pub open spec fn hub_trace(oks: Seq<bool>, pos: int) -> Seq<int>
    decreases SEQUENCE_LEN - pos,
{
    if pos < 0 || pos >= SEQUENCE_LEN {
        seq![]
    } else {
        seq![pos] + match hub_next(pos, oks[pos]) {
            HubNext::Send(p) => if p as int == pos + 1 { hub_trace(oks, pos + 1) } else { seq![] },
            _ => seq![],
        }
    }
}

proof fn lemma_trace_from(oks: Seq<bool>, pos: int, stop: int)
    requires
        0 <= pos <= stop,
        stop < SEQUENCE_LEN,
        oks.len() == SEQUENCE_LEN,
        forall|q: int| pos <= q < stop && is_commit(q) ==> oks[q],
        stop == SEQUENCE_LEN - 1 || (is_commit(stop) && !oks[stop]),
    ensures
        hub_trace(oks, pos) == Seq::new((stop + 1 - pos) as nat, |i: int| pos + i),
    decreases SEQUENCE_LEN - pos,
{
    if pos == stop {
        assert(hub_trace(oks, pos) =~= Seq::new((stop + 1 - pos) as nat, |i: int| pos + i));
    } else {
        lemma_trace_from(oks, pos + 1, stop);
        assert(hub_trace(oks, pos) =~= Seq::new((stop + 1 - pos) as nat, |i: int| pos + i));
    }
}

/// Within each channel the packets go color fan, color edge, commit fan, commit edge,
/// and the channels go in order, four packets each: sixteen in all.
pub proof fn lemma_hub_sequence_layout(ch: int)
    requires
        0 <= ch < NUM_CHANNELS,
    ensures
        kind_at(4 * ch) == HubPacketKind::ColorFan,
        kind_at(4 * ch + 1) == HubPacketKind::ColorEdge,
        kind_at(4 * ch + 2) == HubPacketKind::CommitFan,
        kind_at(4 * ch + 3) == HubPacketKind::CommitEdge,
        forall|k: int| 0 <= k < 4 ==> #[trigger] channel_at(4 * ch + k) == ch,
        SEQUENCE_LEN == NUM_CHANNELS * STEPS_PER_CHANNEL,
{
}

/// When every commit packet is accepted, all sixteen packets are sent in order,
/// whatever became of the color packets.
pub proof fn lemma_hub_all_commits_accepted(oks: Seq<bool>)
    requires
        oks.len() == SEQUENCE_LEN,
        forall|q: int| 0 <= q < SEQUENCE_LEN && is_commit(q) ==> oks[q],
    ensures
        hub_trace(oks, 0) == Seq::new(SEQUENCE_LEN as nat, |i: int| i),
{
    lemma_trace_from(oks, 0, SEQUENCE_LEN - 1);
    assert(hub_trace(oks, 0) =~= Seq::new(SEQUENCE_LEN as nat, |i: int| i));
}

/// A rejected commit packet is the last one sent: the sequence runs in order up to
/// the first rejected commit and stops there. Rejected color packets before it change
/// nothing.
pub proof fn lemma_hub_commit_rejected(oks: Seq<bool>, p: int)
    requires
        oks.len() == SEQUENCE_LEN,
        0 <= p < SEQUENCE_LEN,
        is_commit(p),
        !oks[p],
        forall|q: int| 0 <= q < p && is_commit(q) ==> oks[q],
    ensures
        hub_trace(oks, 0) == Seq::new((p + 1) as nat, |i: int| i),
{
    lemma_trace_from(oks, 0, p);
    assert(hub_trace(oks, 0) =~= Seq::new((p + 1) as nat, |i: int| i));
}

} // verus!
