//! CPU temperature sensor and GPU lighting bus discovery over a scanned device tree,
//! and the reading of a sensor's millidegree file.
//!
//! The caller walks the tree and hands over what it found; the choice of entry and
//! the parsing of file contents happen here.
use vstd::prelude::*;

verus! {

/// Why discovery or a sensor reading failed.
#[derive(Clone, Copy, Debug, PartialEq, Eq, Structural)]
pub enum SensorError {
    /// No thermal entry is named `k10temp` or `coretemp` with a `temp1_input` file.
    SensorNotFound,
    /// No I2C bus is named with both `AMDGPU` and `OEM`.
    BusNotFound,
    /// The sensor file does not hold a decimal integer that fits in an `i32`.
    Malformed,
}

pub open spec fn is_space(b: u8) -> bool {
    b == 9 || b == 10 || b == 11 || b == 12 || b == 13 || b == 32
}

pub open spec fn trim_start(s: Seq<u8>) -> Seq<u8>
    decreases s.len(),
{
    if s.len() > 0 && is_space(s[0]) {
        trim_start(s.drop_first())
    } else {
        s
    }
}

pub open spec fn trim_end(s: Seq<u8>) -> Seq<u8>
    decreases s.len(),
{
    if s.len() > 0 && is_space(s.last()) {
        trim_end(s.drop_last())
    } else {
        s
    }
}

/// `s` without leading and trailing ASCII whitespace.
pub open spec fn trimmed(s: Seq<u8>) -> Seq<u8> {
    trim_end(trim_start(s))
}

/// Leading and trailing ASCII whitespace removed, as the bounds of what is left.
fn trim_bounds(s: &[u8]) -> (r: (usize, usize))
    ensures
        r.0 <= r.1 <= s@.len(),
        s@.subrange(r.0 as int, r.1 as int) == trimmed(s@),
{
    let n = s.len();
    let mut a: usize = 0;
    assert(s@.subrange(0, n as int) =~= s@);
    while a < n && (s[a] == 9 || s[a] == 10 || s[a] == 11 || s[a] == 12 || s[a] == 13 || s[a] == 32)
        invariant
            a <= n == s@.len(),
            trim_start(s@) == trim_start(s@.subrange(a as int, n as int)),
        decreases n - a,
    {
        assert(s@.subrange(a as int, n as int).drop_first() =~= s@.subrange(a + 1, n as int));
        a = a + 1;
    }
    assert(trim_start(s@) == s@.subrange(a as int, n as int));
    let mut b: usize = n;
    while b > a && (s[b - 1] == 9 || s[b - 1] == 10 || s[b - 1] == 11 || s[b - 1] == 12 || s[b - 1] == 13 || s[b - 1] == 32)
        invariant
            a <= b <= n == s@.len(),
            trim_end(s@.subrange(a as int, n as int)) == trim_end(s@.subrange(a as int, b as int)),
        decreases b - a,
    {
        assert(s@.subrange(a as int, b as int).drop_last() =~= s@.subrange(a as int, b - 1));
        b = b - 1;
    }
    (a, b)
}

pub open spec fn is_digit(b: u8) -> bool {
    48 <= b <= 57
}

pub open spec fn all_digits(s: Seq<u8>) -> bool {
    forall|i: int| 0 <= i < s.len() ==> is_digit(#[trigger] s[i])
}

/// The number that the decimal digits `s` spell.
pub open spec fn decimal_value(s: Seq<u8>) -> int
    decreases s.len(),
{
    if s.len() == 0 {
        0
    } else {
        decimal_value(s.drop_last()) * 10 + (s.last() - 48)
    }
}

/// The integer that `s` spells: an optional `+` or `-` and one or more decimal digits.
pub open spec fn signed_decimal(s: Seq<u8>) -> Option<int> {
    if s.len() >= 2 && s[0] == 45 && all_digits(s.drop_first()) {
        Some(-decimal_value(s.drop_first()))
    } else if s.len() >= 2 && s[0] == 43 && all_digits(s.drop_first()) {
        Some(decimal_value(s.drop_first()))
    } else if s.len() >= 1 && all_digits(s) {
        Some(decimal_value(s))
    } else {
        None
    }
}

/// The `i32` that `s` holds, surrounding whitespace aside, if it holds one.
pub open spec fn parse_i32_spec(s: Seq<u8>) -> Option<int> {
    match signed_decimal(trimmed(s)) {
        Some(v) => if i32::MIN <= v <= i32::MAX { Some(v) } else { None },
        None => None,
    }
}

proof fn lemma_decimal_nonneg(s: Seq<u8>)
    requires
        all_digits(s),
    ensures
        decimal_value(s) >= 0,
    decreases s.len(),
{
    if s.len() > 0 {
        assert(all_digits(s.drop_last()));
        lemma_decimal_nonneg(s.drop_last());
    }
}

/// Above this every magnitude is out of range for an `i32`.
const MAGNITUDE_CAP: u64 = 2147483649;

/// The value of the digits `s[a..b]`, or `MAGNITUDE_CAP` where it is at least that,
/// or `None` where some byte is not a digit.
fn capped_digits(s: &[u8], a: usize, b: usize) -> (r: Option<u64>)
    requires
        a <= b <= s@.len(),
    ensures
        r is Some <==> all_digits(s@.subrange(a as int, b as int)),
        r matches Some(v) ==> v as int == if decimal_value(s@.subrange(a as int, b as int)) < MAGNITUDE_CAP {
            decimal_value(s@.subrange(a as int, b as int))
        } else {
            MAGNITUDE_CAP as int
        },
{
    let mut acc: u64 = 0;
    let mut i: usize = a;
    while i < b
        invariant
            a <= i <= b <= s@.len(),
            all_digits(s@.subrange(a as int, i as int)),
            acc as int == if decimal_value(s@.subrange(a as int, i as int)) < MAGNITUDE_CAP {
                decimal_value(s@.subrange(a as int, i as int))
            } else {
                MAGNITUDE_CAP as int
            },
        decreases b - i,
    {
        let c = s[i];
        let prefix = Ghost(s@.subrange(a as int, i as int));
        let next = Ghost(s@.subrange(a as int, i + 1));
        assert(next@.drop_last() =~= prefix@);
        if c < 48 || c > 57 {
            assert(!is_digit(s@.subrange(a as int, b as int)[i - a]));
            return None;
        }
        assert(all_digits(next@)) by {
            assert forall|j: int| 0 <= j < next@.len() implies is_digit(#[trigger] next@[j]) by {
                if j < prefix@.len() {
                    assert(next@[j] == prefix@[j]);
                }
            }
        }
        proof {
            lemma_decimal_nonneg(prefix@);
        }
        let d = (c - 48) as u64;
        if acc >= MAGNITUDE_CAP {
            assert(decimal_value(prefix@) * 10 + d >= MAGNITUDE_CAP) by (nonlinear_arith)
                requires decimal_value(prefix@) >= MAGNITUDE_CAP, d >= 0;
        } else {
            let v = acc * 10 + d;
            if v >= MAGNITUDE_CAP {
                acc = MAGNITUDE_CAP;
            } else {
                acc = v;
            }
        }
        i = i + 1;
    }
    Some(acc)
}

/// Parses a decimal `i32`, optionally signed, with surrounding ASCII whitespace.
pub fn parse_i32(s: &[u8]) -> (r: Result<i32, SensorError>)
    ensures
        r matches Ok(v) ==> parse_i32_spec(s@) == Some(v as int),
        r is Err ==> parse_i32_spec(s@) is None && r == Err::<i32, SensorError>(SensorError::Malformed),
        parse_i32_spec(s@) is Some ==> r is Ok,
{
    let (a, b) = trim_bounds(s);
    let t = Ghost(s@.subrange(a as int, b as int));
    if b - a >= 2 && (s[a] == 45 || s[a] == 43) {
        let neg = s[a] == 45;
        assert(t@.drop_first() =~= s@.subrange(a + 1, b as int));
        match capped_digits(s, a + 1, b) {
            Some(m) => {
                if neg {
                    if m <= 2147483648 {
                        return Ok((0i64 - m as i64) as i32);
                    }
                } else if m <= 2147483647 {
                    return Ok(m as i32);
                }
                Err(SensorError::Malformed)
            },
            None => {
                assert(!all_digits(t@)) by {
                    assert(!is_digit(t@[0]));
                }
                Err(SensorError::Malformed)
            },
        }
    } else {
        match capped_digits(s, a, b) {
            Some(m) => {
                if b > a && m <= 2147483647 {
                    Ok(m as i32)
                } else {
                    Err(SensorError::Malformed)
                }
            },
            None => Err(SensorError::Malformed),
        }
    }
}

/// `m / d` rounded toward zero.
pub open spec fn trunc_div(m: int, d: int) -> int {
    if m >= 0 { m / d } else { -((-m) / d) }
}

/// Whole degrees Celsius in a millidegree reading, rounded toward zero.
pub fn celsius_from_millidegrees(m: i32) -> (r: i32)
    ensures
        r as int == trunc_div(m as int, 1000),
{
    let w = m as i64;
    if w >= 0 {
        (w / 1000) as i32
    } else {
        (0i64 - ((0i64 - w) / 1000)) as i32
    }
}

/// The temperature, in whole degrees, that a sensor file holding `content` reports.
pub fn read_temperature(content: &[u8]) -> (r: Result<i32, SensorError>)
    ensures
        r matches Ok(t) ==> parse_i32_spec(content@) matches Some(m) && t as int == trunc_div(m, 1000),
        r is Err <==> parse_i32_spec(content@) is None,
        r is Err ==> r == Err::<i32, SensorError>(SensorError::Malformed),
{
    match parse_i32(content) {
        Ok(m) => Ok(celsius_from_millidegrees(m)),
        Err(e) => Err(e),
    }
}

/// Whether `s[a..a + lit.len()]` is `lit`.
fn matches_at(s: &[u8], a: usize, lit: &Vec<u8>) -> (r: bool)
    requires
        a + lit@.len() <= s@.len(),
    ensures
        r == (s@.subrange(a as int, a + lit@.len()) == lit@),
{
    let n = s.len();
    let mut i: usize = 0;
    while i < lit.len()
        invariant
            n == s@.len(),
            i <= lit@.len(),
            a + lit@.len() <= s@.len(),
            forall|j: int| 0 <= j < i ==> s@[a + j] == lit@[j],
        decreases lit@.len() - i,
    {
        assert(a + i < s@.len());
        if s[a + i] != lit[i] {
            assert(s@.subrange(a as int, a + lit@.len())[i as int] != lit@[i as int]);
            return false;
        }
        i = i + 1;
    }
    assert(s@.subrange(a as int, a + lit@.len()) =~= lit@);
    true
}

pub open spec fn k10temp_name() -> Seq<u8> {
    seq![107u8, 49, 48, 116, 101, 109, 112]
}

pub open spec fn coretemp_name() -> Seq<u8> {
    seq![99u8, 111, 114, 101, 116, 101, 109, 112]
}

fn k10temp_bytes() -> (r: Vec<u8>)
    ensures
        r@ == k10temp_name(),
{
    let r: Vec<u8> = vec![107u8, 49, 48, 116, 101, 109, 112];
    assert(r@ =~= k10temp_name());
    r
}

fn coretemp_bytes() -> (r: Vec<u8>)
    ensures
        r@ == coretemp_name(),
{
    let r: Vec<u8> = vec![99u8, 111, 114, 101, 116, 101, 109, 112];
    assert(r@ =~= coretemp_name());
    r
}

/// Whether a thermal chip name, whitespace aside, names a CPU temperature driver:
/// `k10temp` (AMD) or `coretemp` (Intel).
pub open spec fn is_cpu_sensor_name(name: Seq<u8>) -> bool {
    trimmed(name) == k10temp_name() || trimmed(name) == coretemp_name()
}

pub fn is_cpu_sensor(name: &[u8]) -> (r: bool)
    ensures
        r == is_cpu_sensor_name(name@),
{
    let (a, b) = trim_bounds(name);
    let k10 = k10temp_bytes();
    let core = coretemp_bytes();
    if b - a == k10.len() && matches_at(name, a, &k10) {
        return true;
    }
    if b - a == core.len() && matches_at(name, a, &core) {
        return true;
    }
    false
}

/// One entry of the thermal device tree, as the caller found it: the contents of its
/// `name` file where that could be read, and whether it has a `temp1_input` file.
#[derive(Debug)]
pub struct SensorEntry {
    pub name: Option<Vec<u8>>,
    pub has_temp_input: bool,
}

pub open spec fn sensor_accepted(e: SensorEntry) -> bool {
    &&& e.name matches Some(n) && is_cpu_sensor_name(n@)
    &&& e.has_temp_input
}

/// The first entry of a scanned thermal tree that is a CPU temperature chip with a
/// `temp1_input` file.
pub fn find_cpu_sensor(entries: &Vec<SensorEntry>) -> (r: Result<usize, SensorError>)
    ensures
        r matches Ok(i) ==> i < entries@.len() && sensor_accepted(entries@[i as int])
            && forall|j: int| 0 <= j < i ==> !sensor_accepted(#[trigger] entries@[j]),
        r is Err <==> forall|j: int| 0 <= j < entries@.len() ==> !sensor_accepted(#[trigger] entries@[j]),
        r is Err ==> r == Err::<usize, SensorError>(SensorError::SensorNotFound),
{
    let mut i: usize = 0;
    while i < entries.len()
        invariant
            i <= entries@.len(),
            forall|j: int| 0 <= j < i ==> !sensor_accepted(#[trigger] entries@[j]),
        decreases entries@.len() - i,
    {
        let e = &entries[i];
        if e.has_temp_input {
            match &e.name {
                Some(n) => {
                    if is_cpu_sensor(n.as_slice()) {
                        return Ok(i);
                    }
                },
                None => {},
            }
        }
        i = i + 1;
    }
    Err(SensorError::SensorNotFound)
}

pub open spec fn occurs_at(s: Seq<u8>, p: Seq<u8>, i: int) -> bool {
    0 <= i && i + p.len() <= s.len() && s.subrange(i, i + p.len()) == p
}

/// Whether `p` occurs in `s`.
pub open spec fn contains_bytes(s: Seq<u8>, p: Seq<u8>) -> bool {
    exists|i: int| occurs_at(s, p, i)
}

fn contains(s: &[u8], p: &Vec<u8>) -> (r: bool)
    ensures
        r == contains_bytes(s@, p@),
{
    if p.len() > s.len() {
        return false;
    }
    let last = s.len() - p.len();
    let mut i: usize = 0;
    loop
        invariant
            i <= last,
            last == s@.len() - p@.len(),
            forall|j: int| 0 <= j < i ==> !occurs_at(s@, p@, j),
        ensures
            forall|j: int| 0 <= j <= last ==> !occurs_at(s@, p@, j),
        decreases last - i,
    {
        if matches_at(s, i, p) {
            assert(occurs_at(s@, p@, i as int));
            return true;
        }
        assert(!occurs_at(s@, p@, i as int));
        if i == last {
            break;
        }
        i = i + 1;
    }
    assert forall|j: int| !occurs_at(s@, p@, j) by {
        if j > last {
            assert(j + p@.len() > s@.len());
        }
    }
    false
}

pub open spec fn amdgpu_marker() -> Seq<u8> {
    seq![65u8, 77, 68, 71, 80, 85]
}

pub open spec fn oem_marker() -> Seq<u8> {
    seq![79u8, 69, 77]
}

/// Whether an I2C bus name marks the GPU's OEM bus: it holds both `AMDGPU` and `OEM`.
pub open spec fn is_gpu_bus_name(name: Seq<u8>) -> bool {
    contains_bytes(name, amdgpu_marker()) && contains_bytes(name, oem_marker())
}

pub fn is_gpu_bus(name: &[u8]) -> (r: bool)
    ensures
        r == is_gpu_bus_name(name@),
{
    let amd: Vec<u8> = vec![65u8, 77, 68, 71, 80, 85];
    let oem: Vec<u8> = vec![79u8, 69, 77];
    assert(amd@ =~= amdgpu_marker());
    assert(oem@ =~= oem_marker());
    contains(name, &amd) && contains(name, &oem)
}

pub open spec fn bus_accepted(name: Option<Vec<u8>>) -> bool {
    name matches Some(n) && is_gpu_bus_name(n@)
}

/// The first entry of a scanned I2C device class tree whose name marks the GPU's OEM
/// bus; `names[i]` is the contents of entry `i`'s `name` file where it could be read.
pub fn find_gpu_bus(names: &Vec<Option<Vec<u8>>>) -> (r: Result<usize, SensorError>)
    ensures
        r matches Ok(i) ==> i < names@.len() && bus_accepted(names@[i as int])
            && forall|j: int| 0 <= j < i ==> !bus_accepted(#[trigger] names@[j]),
        r is Err <==> forall|j: int| 0 <= j < names@.len() ==> !bus_accepted(#[trigger] names@[j]),
        r is Err ==> r == Err::<usize, SensorError>(SensorError::BusNotFound),
{
    let mut i: usize = 0;
    while i < names.len()
        invariant
            i <= names@.len(),
            forall|j: int| 0 <= j < i ==> !bus_accepted(#[trigger] names@[j]),
        decreases names@.len() - i,
    {
        match &names[i] {
            Some(n) => {
                if is_gpu_bus(n.as_slice()) {
                    return Ok(i);
                }
            },
            None => {},
        }
        i = i + 1;
    }
    Err(SensorError::BusNotFound)
}

pub open spec fn dev_dir() -> Seq<u8> {
    seq![47u8, 100, 101, 118, 47]
}

/// The device node of the I2C bus whose class entry is named `entry`: `/dev/<entry>`.
pub fn device_node_path(entry: &[u8]) -> (r: Vec<u8>)
    ensures
        r@ == dev_dir() + entry@,
{
    let mut r: Vec<u8> = vec![47u8, 100, 101, 118, 47];
    assert(r@ =~= dev_dir());
    let mut i: usize = 0;
    while i < entry.len()
        invariant
            i <= entry@.len(),
            r@ == dev_dir() + entry@.subrange(0, i as int),
        decreases entry@.len() - i,
    {
        r.push(entry[i]);
        i = i + 1;
        assert(r@ =~= dev_dir() + entry@.subrange(0, i as int));
    }
    assert(entry@.subrange(0, entry@.len() as int) =~= entry@);
    r
}

} // verus!
