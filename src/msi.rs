//! MSI liquid cooler: feature-report zone table, fan mode handshake and CPU status
//! reports, all sent over HID.
use vstd::prelude::*;
use crate::bytes::zeroed;

verus! {

pub const VID: u16 = 0x0db0;
pub const PID: u16 = 0xb130;
/// Report id of the feature report that holds the LED zone table.
pub const FEATURE_REPORT_ID: u8 = 0x52;
/// Length of the feature report buffer, report id included.
pub const MAX_DATA_LEN: usize = 185;
/// Length of an output report: 64 bytes and the leading command prefix.
pub const HID_REPORT_LEN: usize = 65;
pub const CMD_PREFIX: u8 = 0xD0;
pub const CMD_LCD_DISABLE: u8 = 0x7F;
pub const LED_MODE_DISABLE: u8 = 0;
pub const CMD_FAN_MODE_1: u8 = 0x40;
pub const CMD_FAN_MODE_2: u8 = 0x41;
pub const CMD_CPU_STATUS: u8 = 0x85;
/// Placeholder CPU frequency in a status report; the cooler ignores it.
pub const DUMMY_CPU_FREQ: u16 = 3000;
pub const NUM_FAN_ZONES: usize = 5;
pub const NUM_LED_ZONES: usize = 17;

/// Fan modes of the cooler. The protocol codes are 0, 1, 2, 4 and 5 (3 is unused).
#[derive(Clone, Copy, Debug, PartialEq, Eq, Structural)]
pub enum FanMode {
    /// Quietest, lower cooling.
    Silent,
    /// Balanced noise and cooling.
    Balance,
    /// Higher cooling, more noise.
    Game,
    /// Constant speed.
    Default,
    /// Follows the CPU temperature pushed by the host.
    Smart,
}

impl FanMode {
    pub open spec fn code_spec(self) -> u8 {
        match self {
            FanMode::Silent => 0,
            FanMode::Balance => 1,
            FanMode::Game => 2,
            FanMode::Default => 4,
            FanMode::Smart => 5,
        }
    }

    /// The byte that selects this mode on the wire.
    #[verifier::when_used_as_spec(code_spec)]
    pub fn code(self) -> (r: u8)
        ensures
            r == self.code_spec(),
    {
        match self {
            FanMode::Silent => 0,
            FanMode::Balance => 1,
            FanMode::Game => 2,
            FanMode::Default => 4,
            FanMode::Smart => 5,
        }
    }

    /// The mode whose wire code is `v`, if any.
    pub fn from_code(v: u8) -> (r: Option<FanMode>)
        ensures
            r matches Some(m) ==> m.code() == v,
            r is None <==> !(v == 0 || v == 1 || v == 2 || v == 4 || v == 5),
    {
        match v {
            0 => Some(FanMode::Silent),
            1 => Some(FanMode::Balance),
            2 => Some(FanMode::Game),
            4 => Some(FanMode::Default),
            5 => Some(FanMode::Smart),
            _ => None,
        }
    }
}

/// Offsets, in an output report, of the mode byte of each of the five fan zones.
pub open spec fn fan_zone_offset(k: int) -> int {
    2 + 8 * k
}

pub open spec fn is_fan_zone_offset(i: int) -> bool {
    exists|k: int| 0 <= k < NUM_FAN_ZONES && #[trigger] fan_zone_offset(k) == i
}

/// The output report of one half of the fan mode handshake, with selector `cmd`.
pub open spec fn fan_mode_report(mode: FanMode, cmd: u8) -> Seq<u8> {
    Seq::new(
        HID_REPORT_LEN as nat,
        |i: int|
            if i == 0 {
                CMD_PREFIX
            } else if i == 1 {
                cmd
            } else if is_fan_zone_offset(i) {
                mode.code()
            } else {
                0u8
            },
    )
}

fn build_fan_mode_report(mode: FanMode, cmd: u8) -> (r: Vec<u8>)
    ensures
        r@ == fan_mode_report(mode, cmd),
{
    let mut buf = zeroed(HID_REPORT_LEN);
    buf.set(0, CMD_PREFIX);
    buf.set(1, cmd);
    let code = mode.code();
    let mut k: usize = 0;
    while k < NUM_FAN_ZONES
        invariant
            k <= NUM_FAN_ZONES,
            code == mode.code(),
            buf@.len() == HID_REPORT_LEN,
            forall|i: int|
                0 <= i < HID_REPORT_LEN ==> #[trigger] buf@[i] == if i == 0 {
                    CMD_PREFIX
                } else if i == 1 {
                    cmd
                } else if exists|j: int| 0 <= j < k && #[trigger] fan_zone_offset(j) == i {
                    code
                } else {
                    0u8
                },
        decreases NUM_FAN_ZONES - k,
    {
        let off: usize = 2 + 8 * k;
        buf.set(off, code);
        assert forall|i: int| 0 <= i < HID_REPORT_LEN implies #[trigger] buf@[i] == if i == 0 {
            CMD_PREFIX
        } else if i == 1 {
            cmd
        } else if exists|j: int| 0 <= j < k + 1 && #[trigger] fan_zone_offset(j) == i {
            code
        } else {
            0u8
        } by {
            if i == off {
                assert(fan_zone_offset(k as int) == i);
            } else if exists|j: int| 0 <= j < k + 1 && #[trigger] fan_zone_offset(j) == i {
                let j = choose|j: int| 0 <= j < k + 1 && #[trigger] fan_zone_offset(j) == i;
                assert(j < k);
            }
        }
        k = k + 1;
    }
    assert(buf@ =~= fan_mode_report(mode, cmd));
    buf
}

/// The two output reports of a fan mode change, in the order they must be sent:
/// first with selector `CMD_FAN_MODE_1`, then with `CMD_FAN_MODE_2`. Both carry the
/// mode's code at every fan zone offset.
pub fn fan_mode_commands(mode: FanMode) -> (r: (Vec<u8>, Vec<u8>))
    ensures
        r.0@ == fan_mode_report(mode, CMD_FAN_MODE_1),
        r.1@ == fan_mode_report(mode, CMD_FAN_MODE_2),
{
    (build_fan_mode_report(mode, CMD_FAN_MODE_1), build_fan_mode_report(mode, CMD_FAN_MODE_2))
}

/// Offset, in the feature report, of the mode byte of LED zone `k` (of 17).
pub open spec fn led_zone_offset(k: int) -> int {
    seq![1int, 11, 21, 31, 42, 53, 74, 84, 94, 104, 114, 124, 134, 144, 154, 164, 174][k]
}

pub open spec fn is_led_zone_offset(i: int) -> bool {
    exists|k: int| 0 <= k < NUM_LED_ZONES && #[trigger] led_zone_offset(k) == i
}

/// The LED zone offsets of the feature report, in zone order.
pub fn led_zone_offsets() -> (r: Vec<usize>)
    ensures
        r@.len() == NUM_LED_ZONES,
        forall|k: int| 0 <= k < NUM_LED_ZONES ==> r@[k] as int == #[trigger] led_zone_offset(k),
{
    let r: Vec<usize> = vec![1, 11, 21, 31, 42, 53, 74, 84, 94, 104, 114, 124, 134, 144, 154, 164, 174];
    assert forall|k: int| 0 <= k < NUM_LED_ZONES implies r@[k] as int == #[trigger] led_zone_offset(k) by {
        assert(r@[k] as int == seq![1int, 11, 21, 31, 42, 53, 74, 84, 94, 104, 114, 124, 134, 144, 154, 164, 174][k]);
    }
    r
}

/// The buffer handed to a feature report read: `MAX_DATA_LEN` zero bytes but the
/// report id in front.
pub fn feature_report_request() -> (r: Vec<u8>)
    ensures
        r@.len() == MAX_DATA_LEN,
        r@[0] == FEATURE_REPORT_ID,
        forall|i: int| 1 <= i < MAX_DATA_LEN ==> r@[i] == 0,
{
    let mut buf = zeroed(MAX_DATA_LEN);
    buf.set(0, FEATURE_REPORT_ID);
    buf
}

/// What the feature report `old` becomes when every LED zone is switched off: each
/// byte at an LED zone offset inside the report is `LED_MODE_DISABLE`, every other
/// byte is kept.
pub open spec fn leds_disabled(old: Seq<u8>) -> Seq<u8> {
    Seq::new(old.len(), |i: int| if is_led_zone_offset(i) { LED_MODE_DISABLE } else { old[i] })
}

/// Switches off every LED zone of a feature report read from the cooler. Offsets past
/// the end of the report are skipped.
pub fn disable_led_zones(report: &mut Vec<u8>)
    ensures
        final(report)@ == leds_disabled(old(report)@),
{
    let offsets = led_zone_offsets();
    let mut k: usize = 0;
    while k < offsets.len()
        invariant
            k <= offsets@.len() == NUM_LED_ZONES,
            forall|j: int| 0 <= j < NUM_LED_ZONES ==> offsets@[j] as int == #[trigger] led_zone_offset(j),
            report@.len() == old(report)@.len(),
            forall|i: int| 0 <= i < report@.len() ==> #[trigger] report@[i] == if exists|j: int| 0 <= j < k && #[trigger] led_zone_offset(j) == i {
                LED_MODE_DISABLE
            } else {
                old(report)@[i]
            },
        decreases NUM_LED_ZONES - k,
    {
        let off = offsets[k];
        if off < report.len() {
            report.set(off, LED_MODE_DISABLE);
        }
        assert forall|i: int| 0 <= i < report@.len() implies #[trigger] report@[i] == if exists|j: int| 0 <= j < k + 1 && #[trigger] led_zone_offset(j) == i {
            LED_MODE_DISABLE
        } else {
            old(report)@[i]
        } by {
            if i == off {
                assert(led_zone_offset(k as int) == i);
            } else if exists|j: int| 0 <= j < k + 1 && #[trigger] led_zone_offset(j) == i {
                let j = choose|j: int| 0 <= j < k + 1 && #[trigger] led_zone_offset(j) == i;
                assert(j < k);
            }
        }
        k = k + 1;
    }
    assert(report@ =~= leds_disabled(old(report)@));
}

/// The pairs of offset and mode byte of LED zones `0..n` whose offset lies inside
/// `report`, in zone order.
pub open spec fn zone_modes(report: Seq<u8>, n: int) -> Seq<(usize, u8)>
    decreases n,
{
    if n <= 0 {
        seq![]
    } else {
        let prev = zone_modes(report, n - 1);
        let off = led_zone_offset(n - 1);
        if off < report.len() {
            prev.push((off as usize, report[off]))
        } else {
            prev
        }
    }
}

/// The mode byte of each LED zone whose offset lies inside `report`, as pairs of
/// offset and value, in zone order.
pub fn led_zone_modes(report: &Vec<u8>) -> (r: Vec<(usize, u8)>)
    ensures
        r@ == zone_modes(report@, NUM_LED_ZONES as int),
{
    let offsets = led_zone_offsets();
    let mut out: Vec<(usize, u8)> = Vec::new();
    let mut k: usize = 0;
    while k < offsets.len()
        invariant
            k <= offsets@.len() == NUM_LED_ZONES,
            forall|j: int| 0 <= j < NUM_LED_ZONES ==> offsets@[j] as int == #[trigger] led_zone_offset(j),
            out@ == zone_modes(report@, k as int),
        decreases NUM_LED_ZONES - k,
    {
        let off = offsets[k];
        assert(led_zone_offset(k as int) == off);
        if off < report.len() {
            out.push((off, report[off]));
        }
        k = k + 1;
    }
    out
}

/// The output report that blanks the cooler's display.
pub open spec fn lcd_disable_report() -> Seq<u8> {
    Seq::new(HID_REPORT_LEN as nat, |i: int| if i == 0 { CMD_PREFIX } else if i == 1 { CMD_LCD_DISABLE } else { 0u8 })
}

pub fn lcd_disable_command() -> (r: Vec<u8>)
    ensures
        r@ == lcd_disable_report(),
{
    let mut buf = zeroed(HID_REPORT_LEN);
    buf.set(0, CMD_PREFIX);
    buf.set(1, CMD_LCD_DISABLE);
    assert(buf@ =~= lcd_disable_report());
    buf
}

/// The value of a 16-bit two's complement field stored little-endian as `lo`, `hi`.
pub open spec fn decode_le_i16(lo: u8, hi: u8) -> int {
    let w = lo as int + 256 * hi as int;
    if w >= 32768 { w - 65536 } else { w }
}

/// The CPU status report for temperature `temp`: the dummy frequency little-endian at
/// offsets 2 and 3, and the temperature's low 16 bits little-endian at 4 and 5.
pub open spec fn cpu_status_report(temp: i32) -> Seq<u8> {
    let w = (temp as int) % 65536;
    Seq::new(
        HID_REPORT_LEN as nat,
        |i: int|
            if i == 0 {
                CMD_PREFIX
            } else if i == 1 {
                CMD_CPU_STATUS
            } else if i == 2 {
                (DUMMY_CPU_FREQ % 256) as u8
            } else if i == 3 {
                (DUMMY_CPU_FREQ / 256) as u8
            } else if i == 4 {
                (w % 256) as u8
            } else if i == 5 {
                (w / 256) as u8
            } else {
                0u8
            },
    )
}

/// Builds the report that hands the cooler a CPU temperature in whole degrees.
pub fn cpu_status_command(temp: i32) -> (r: Vec<u8>)
    ensures
        r@ == cpu_status_report(temp),
        -32768 <= temp < 32768 ==> decode_le_i16(r@[4], r@[5]) == temp,
{
    let mut buf = zeroed(HID_REPORT_LEN);
    buf.set(0, CMD_PREFIX);
    buf.set(1, CMD_CPU_STATUS);
    buf.set(2, (DUMMY_CPU_FREQ % 256) as u8);
    buf.set(3, (DUMMY_CPU_FREQ / 256) as u8);
    let w: u64 = ((temp as i64 + 2147483648i64) as u64) % 65536;
    assert(w as int == (temp as int) % 65536) by (nonlinear_arith)
        requires w as int == (temp as int + 2147483648) % 65536;
    let lo = (w % 256) as u8;
    let hi = (w / 256) as u8;
    buf.set(4, lo);
    buf.set(5, hi);
    assert(buf@ =~= cpu_status_report(temp));
    buf
}

/// Every fan zone byte of a fan mode report is the mode's code, the code is one of
/// 0, 1, 2, 4 and 5, and past the two header bytes no byte is anything but that code
/// or zero.
pub proof fn lemma_fan_mode_report_bytes(mode: FanMode, cmd: u8)
    ensures
        forall|k: int| 0 <= k < NUM_FAN_ZONES ==> fan_mode_report(mode, cmd)[#[trigger] fan_zone_offset(k)] == mode.code(),
        mode.code() == 0 || mode.code() == 1 || mode.code() == 2 || mode.code() == 4 || mode.code() == 5,
        forall|i: int| 2 <= i < HID_REPORT_LEN ==> #[trigger] fan_mode_report(mode, cmd)[i] == mode.code() || fan_mode_report(mode, cmd)[i] == 0,
        fan_mode_report(mode, cmd).len() == HID_REPORT_LEN,
{
    assert forall|k: int| 0 <= k < NUM_FAN_ZONES implies fan_mode_report(mode, cmd)[#[trigger] fan_zone_offset(k)] == mode.code() by {
        assert(is_fan_zone_offset(fan_zone_offset(k)));
    }
}

/// Encoding a temperature is a function of the temperature alone, and for every
/// temperature that fits in 16 bits the field at offsets 4 and 5 decodes back to it.
pub proof fn lemma_cpu_status_round_trip(t1: i32, t2: i32)
    ensures
        t1 == t2 ==> cpu_status_report(t1) == cpu_status_report(t2),
        -32768 <= t1 < 32768 ==> decode_le_i16(cpu_status_report(t1)[4], cpu_status_report(t1)[5]) == t1,
{
    let w = (t1 as int) % 65536;
    assert(0 <= w < 65536);
    assert(w / 256 < 256);
    let r = cpu_status_report(t1);
    assert(r[4] as int == w % 256 && r[5] as int == w / 256);
    assert(r[4] as int + 256 * r[5] as int == w);
}

} // verus!
