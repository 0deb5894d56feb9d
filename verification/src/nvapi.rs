//! Decisions of the NVIDIA NVAPI backend: which V/F points a driver exposes,
//! how the curve is reported to clients, how a point's clock target becomes a
//! driver offset, and how the voltage boost is validated.
//!
//! The driver tables are held here as plain values; the foreign calls that
//! fill and send them belong to the platform glue.
use vstd::prelude::*;
use vstd::arithmetic::power2::{pow2, lemma_pow2_unfold, lemma2_to64};
use crate::text::{decimal, signed_decimal, hex_padded, push_decimal, push_signed_decimal, push_hex_padded, string_of, is_numeral_of, is_signed_numeral_of, hex_digits_value, lemma_decimal_is_numeral, lemma_signed_decimal_is_numeral, lemma_hex_padded_is_numeral};

verus! {

/// Number of V/F point slots in every NVAPI V/F table.
pub const NVAPI_MAX_VF_POINTS: usize = 255;

/// Type tag of a programmable (offset-carrying) V/F point.
pub const CLOCK_CLIENT_CLK_VF_POINT_TYPE_PROG: u32 = 0;

/// Smallest voltage boost, in percent, that the driver accepts.
pub const VOLTAGE_BOOST_MIN: i32 = 0;

/// Largest voltage boost, in percent, that the driver accepts.
pub const VOLTAGE_BOOST_MAX: i32 = 100;

/// Static description of one V/F point slot.
#[derive(Clone, Copy, Debug, PartialEq, Eq, Structural)]
pub struct ClockClientClkVfPointInfoV1 {
    pub type_: u32,
    pub b_voltage_based: u8,
}

/// The description of all V/F point slots, with the mask of the slots in use.
#[derive(Clone, Copy, Debug)]
pub struct ClockClientClkVfPointsInfoV1 {
    pub vf_points_mask: [u32; 8],
    pub vf_points: [ClockClientClkVfPointInfoV1; 255],
}

/// A frequency / voltage pair as reported by the driver.
#[derive(Clone, Copy, Debug, PartialEq, Eq, Structural)]
pub struct ClockClientClkVfPointTupleV1 {
    pub freq_khz: u32,
    pub voltage_uv: u32,
}

/// The live state of one V/F point.
#[derive(Clone, Copy, Debug, PartialEq, Eq, Structural)]
pub struct ClockClientClkVfPointStatusV3 {
    pub type_: u32,
    pub freq_khz: u32,
    pub voltage_uv: u32,
    pub vf_tuple_base: ClockClientClkVfPointTupleV1,
    pub vf_tuple_offset: ClockClientClkVfPointTupleV1,
}

/// The live state of all V/F points.
#[derive(Clone, Copy, Debug)]
pub struct ClockClientClkVfPointsStatusV3 {
    pub vf_points_mask: [u32; 8],
    pub b_vf_tuple_base_supported: u8,
    pub vf_points: [ClockClientClkVfPointStatusV3; 255],
}

/// Control data of a programmable point: its frequency offset.
#[derive(Clone, Copy, Debug, PartialEq, Eq, Structural)]
pub struct ClockClientClkVfPointControlProgV1 {
    pub freq_offset_khz: i32,
}

/// The control data of one point, seen as the programmable variant.
#[derive(Clone, Copy, Debug, PartialEq, Eq, Structural)]
pub struct ClockClientClkVfPointControlDataV1 {
    pub prog: ClockClientClkVfPointControlProgV1,
}

/// The writable control entry of one V/F point.
#[derive(Clone, Copy, Debug, PartialEq, Eq, Structural)]
pub struct ClockClientClkVfPointControlV1 {
    pub type_: u32,
    pub data: ClockClientClkVfPointControlDataV1,
}

/// The writable control entries of all V/F points.
#[derive(Clone, Copy, Debug)]
pub struct ClockClientClkVfPointsControlV1 {
    pub vf_points_mask: [u32; 8],
    pub vf_points: [ClockClientClkVfPointControlV1; 255],
}

/// One editable point of the V/F curve, as reported to clients (MHz and mV).
#[derive(Clone, Copy, Debug, PartialEq, Eq, Structural)]
pub struct NvidiaVfPoint {
    pub index: u8,
    pub freq: u32,
    pub voltage: u32,
    pub base_freq: u32,
    pub base_voltage: u32,
}

/// The voltage boost and the range in which it may be set, in percent.
#[derive(Clone, Copy, Debug, PartialEq, Eq, Structural)]
pub struct NvidiaVoltageBoost {
    pub current: i32,
    pub min: i32,
    pub max: i32,
}

/// Why a V/F point clock cannot be set.
#[derive(Clone, Copy, Debug, PartialEq, Eq, Structural)]
pub enum VfCurveError {
    /// The index lies beyond the points that the driver reports.
    PointOutOfRange { index: u8 },
    /// The point exists but does not take a clock offset.
    PointNotWritable { index: u8 },
    /// The offset that the target needs lies outside the driver's range.
    OffsetOutOfRange { index: u8, offset_mhz: i64, min_offset_mhz: i32, max_offset_mhz: i32 },
    /// The offset that the target needs does not fit the driver's field.
    OffsetTooLarge { offset_khz: i64 },
}

/// Why a voltage boost request fails.
#[derive(Clone, Copy, Debug, PartialEq, Eq, Structural)]
pub enum VoltageBoostError {
    /// The requested percentage is outside `VOLTAGE_BOOST_MIN..=VOLTAGE_BOOST_MAX`.
    OutOfRange { percent: i32 },
    /// The driver reports another value than the one that was written.
    NotApplied { requested: u8, applied: u8 },
}

// ---------------------------------------------------------------------------
// Point counting
// ---------------------------------------------------------------------------

/// Number of set bits of `x`.
pub open spec fn popcount(x: nat) -> nat
    decreases x,
{
    if x == 0 {
        0
    } else {
        (x % 2) + popcount(x / 2)
    }
}

/// Number of V/F points that a mask announces: the set bits of all its words.
pub open spec fn mask_point_count(mask: Seq<u32>) -> nat
    decreases mask.len(),
{
    if mask.len() == 0 {
        0
    } else {
        mask_point_count(mask.drop_last()) + popcount(mask.last() as nat)
    }
}

proof fn lemma_popcount_bound(x: nat, k: nat)
    requires
        x < pow2(k),
    ensures
        popcount(x) <= k,
    decreases k,
{
    if x != 0 {
        if k == 0 {
            vstd::arithmetic::power2::lemma_pow2_pos(0);
            lemma2_to64();
        } else {
            lemma_pow2_unfold(k);
            lemma_popcount_bound(x / 2, (k - 1) as nat);
        }
    }
}

proof fn lemma_popcount_u32(x: u32)
    ensures
        popcount(x as nat) <= 32,
{
    lemma2_to64();
    lemma_popcount_bound(x as nat, 32);
}

/// Bit `i` of `x` is set.
pub open spec fn bit_is_set(x: nat, i: nat) -> bool {
    (x / pow2(i)) % 2 == 1
}

/// How many of the bits `0..n` of `x` are set.
pub open spec fn set_bits_below(x: nat, n: nat) -> nat
    decreases n,
{
    if n == 0 {
        0
    } else {
        set_bits_below(x, (n - 1) as nat) + if bit_is_set(x, (n - 1) as nat) { 1nat } else { 0nat }
    }
}

proof fn lemma_set_bits_shift(x: nat, n: nat)
    ensures
        set_bits_below(x, n + 1) == x % 2 + set_bits_below(x / 2, n),
    decreases n,
{
    vstd::arithmetic::power2::lemma_pow2_pos(0);
    lemma2_to64();
    if n == 0 {
        assert(x / pow2(0) == x);
        assert(set_bits_below(x, 1) == set_bits_below(x, 0) + if bit_is_set(x, 0) { 1nat } else { 0nat });
    } else {
        lemma_set_bits_shift(x, (n - 1) as nat);
        lemma_pow2_unfold(n);
        vstd::arithmetic::power2::lemma_pow2_pos((n - 1) as nat);
        vstd::arithmetic::div_mod::lemma_div_denominator(x as int, 2, pow2((n - 1) as nat) as int);
        assert(x / pow2(n) == (x / 2) / pow2((n - 1) as nat));
        assert(bit_is_set(x, n) == bit_is_set(x / 2, (n - 1) as nat));
    }
}

proof fn lemma_popcount_is_set_bits(x: nat, k: nat)
    requires
        x < pow2(k),
    ensures
        popcount(x) == set_bits_below(x, k),
    decreases k,
{
    if k == 0 {
        lemma2_to64();
    } else {
        lemma_pow2_unfold(k);
        lemma_popcount_is_set_bits(x / 2, (k - 1) as nat);
        lemma_set_bits_shift(x, (k - 1) as nat);
    }
}

/// A mask announces as many points as its eight 32-bit words have set bits.
pub proof fn lemma_mask_point_count_counts_set_bits(mask: Seq<u32>)
    requires
        mask.len() == 8,
    ensures
        mask_point_count(mask) == set_bits_below(mask[0] as nat, 32) + set_bits_below(mask[1] as nat, 32)
            + set_bits_below(mask[2] as nat, 32) + set_bits_below(mask[3] as nat, 32)
            + set_bits_below(mask[4] as nat, 32) + set_bits_below(mask[5] as nat, 32)
            + set_bits_below(mask[6] as nat, 32) + set_bits_below(mask[7] as nat, 32),
{
    lemma2_to64();
    lemma_popcount_is_set_bits(mask[0] as nat, 32);
    lemma_popcount_is_set_bits(mask[1] as nat, 32);
    lemma_popcount_is_set_bits(mask[2] as nat, 32);
    lemma_popcount_is_set_bits(mask[3] as nat, 32);
    lemma_popcount_is_set_bits(mask[4] as nat, 32);
    lemma_popcount_is_set_bits(mask[5] as nat, 32);
    lemma_popcount_is_set_bits(mask[6] as nat, 32);
    lemma_popcount_is_set_bits(mask[7] as nat, 32);
    let m7 = mask.drop_last();
    let m6 = m7.drop_last();
    let m5 = m6.drop_last();
    let m4 = m5.drop_last();
    let m3 = m4.drop_last();
    let m2 = m3.drop_last();
    let m1 = m2.drop_last();
    let m0 = m1.drop_last();
    assert(m0.len() == 0);
    assert(mask_point_count(m1) == mask_point_count(m0) + popcount(mask[0] as nat));
    assert(mask_point_count(m2) == mask_point_count(m1) + popcount(mask[1] as nat));
    assert(mask_point_count(m3) == mask_point_count(m2) + popcount(mask[2] as nat));
    assert(mask_point_count(m4) == mask_point_count(m3) + popcount(mask[3] as nat));
    assert(mask_point_count(m5) == mask_point_count(m4) + popcount(mask[4] as nat));
    assert(mask_point_count(m6) == mask_point_count(m5) + popcount(mask[5] as nat));
    assert(mask_point_count(m7) == mask_point_count(m6) + popcount(mask[6] as nat));
    assert(mask_point_count(mask) == mask_point_count(m7) + popcount(mask[7] as nat));
}

/// The number of set bits of one mask word.
fn word_point_count(word: u32) -> (r: usize)
    ensures
        r == popcount(word as nat),
        r <= 32,
{
    proof {
        lemma_popcount_u32(word);
    }
    let mut rest: u32 = word;
    let mut count: usize = 0;
    while rest != 0
        invariant
            count + popcount(rest as nat) == popcount(word as nat),
            popcount(word as nat) <= 32,
        decreases rest,
    {
        count = count + (rest % 2) as usize;
        rest = rest / 2;
    }
    count
}

/// Number of V/F points that the driver announces in `mask`.
pub fn point_count_from_mask(mask: [u32; 8]) -> (r: usize)
    ensures
        r == mask_point_count(mask@),
        r == set_bits_below(mask@[0] as nat, 32) + set_bits_below(mask@[1] as nat, 32)
            + set_bits_below(mask@[2] as nat, 32) + set_bits_below(mask@[3] as nat, 32)
            + set_bits_below(mask@[4] as nat, 32) + set_bits_below(mask@[5] as nat, 32)
            + set_bits_below(mask@[6] as nat, 32) + set_bits_below(mask@[7] as nat, 32),
        r <= 256,
{
    let mut total: usize = 0;
    let mut i: usize = 0;
    while i < 8
        invariant
            i <= 8,
            mask@.len() == 8,
            total == mask_point_count(mask@.take(i as int)),
            total <= 32 * i,
        decreases 8 - i,
    {
        let n = word_point_count(mask[i]);
        proof {
            assert(mask@.take(i as int + 1).drop_last() =~= mask@.take(i as int));
        }
        total = total + n;
        i = i + 1;
    }
    proof {
        assert(mask@.take(8) =~= mask@);
        lemma_mask_point_count_counts_set_bits(mask@);
    }
    total
}

// ---------------------------------------------------------------------------
// Editable points and the reported curve
// ---------------------------------------------------------------------------

/// A point takes a clock offset when it is voltage based and programmable.
pub open spec fn point_is_editable(point: ClockClientClkVfPointInfoV1) -> bool {
    point.b_voltage_based == 1 && point.type_ == CLOCK_CLIENT_CLK_VF_POINT_TYPE_PROG
}

/// Whether the point described by `point` takes a clock offset.
pub fn vf_curve_point_is_editable(point: ClockClientClkVfPointInfoV1) -> (r: bool)
    ensures
        r == point_is_editable(point),
        r == (point.b_voltage_based == 1 && point.type_ == 0),
{
    point.b_voltage_based == 1 && point.type_ == CLOCK_CLIENT_CLK_VF_POINT_TYPE_PROG
}

/// The offset (kHz) that an optional control table holds for point `i`; zero without one.
pub open spec fn control_offset_khz(control: Option<ClockClientClkVfPointsControlV1>, i: int) -> int {
    match control {
        Some(c) => c.vf_points@[i].data.prog.freq_offset_khz as int,
        None => 0,
    }
}

/// The base frequency (kHz) reported for point `i`: the driver's base tuple
/// where it has one, else the current frequency less the control offset,
/// floored at zero and taken as `u32`.
pub open spec fn reported_base_freq_khz(
    status: ClockClientClkVfPointsStatusV3,
    control: Option<ClockClientClkVfPointsControlV1>,
    i: int,
) -> u32 {
    let point = status.vf_points@[i];
    if status.b_vf_tuple_base_supported != 0 {
        point.vf_tuple_base.freq_khz
    } else {
        let base = point.freq_khz as int - control_offset_khz(control, i);
        (if base < 0 { 0 } else { base }) as u32
    }
}

/// The base voltage (uV) reported for point `i`.
pub open spec fn reported_base_voltage_uv(status: ClockClientClkVfPointsStatusV3, i: int) -> u32 {
    if status.b_vf_tuple_base_supported != 0 {
        status.vf_points@[i].vf_tuple_base.voltage_uv
    } else {
        status.vf_points@[i].voltage_uv
    }
}

/// The curve point reported for slot `i`, in MHz and mV.
pub open spec fn vf_curve_point(
    status: ClockClientClkVfPointsStatusV3,
    control: Option<ClockClientClkVfPointsControlV1>,
    i: int,
) -> NvidiaVfPoint {
    let point = status.vf_points@[i];
    NvidiaVfPoint {
        index: i as u8,
        freq: point.freq_khz / 1000,
        voltage: point.voltage_uv / 1000,
        base_freq: reported_base_freq_khz(status, control, i) / 1000,
        base_voltage: reported_base_voltage_uv(status, i) / 1000,
    }
}

/// The curve made of the editable points among the first `n` slots, in slot order.
pub open spec fn vf_curve_prefix(
    info: ClockClientClkVfPointsInfoV1,
    status: ClockClientClkVfPointsStatusV3,
    control: Option<ClockClientClkVfPointsControlV1>,
    n: nat,
) -> Seq<NvidiaVfPoint>
    decreases n,
{
    if n == 0 {
        Seq::empty()
    } else {
        let prev = vf_curve_prefix(info, status, control, (n - 1) as nat);
        if point_is_editable(info.vf_points@[n - 1]) {
            prev.push(vf_curve_point(status, control, n - 1))
        } else {
            prev
        }
    }
}

/// The curve reported to clients: the editable points among the slots that
/// the mask announces.
pub open spec fn vf_curve(
    info: ClockClientClkVfPointsInfoV1,
    status: ClockClientClkVfPointsStatusV3,
    control: Option<ClockClientClkVfPointsControlV1>,
) -> Seq<NvidiaVfPoint> {
    vf_curve_prefix(info, status, control, mask_point_count(info.vf_points_mask@))
}

/// Builds the V/F curve reported to clients from the driver's point table,
/// the live point states and, where the driver gave one, the control table.
/// The driver's slots hold 255 points, so the mask may announce at most 255.
pub fn build_vf_curve(
    info: &ClockClientClkVfPointsInfoV1,
    status: &ClockClientClkVfPointsStatusV3,
    control: Option<ClockClientClkVfPointsControlV1>,
) -> (curve: Vec<NvidiaVfPoint>)
    requires
        mask_point_count(info.vf_points_mask@) <= NVAPI_MAX_VF_POINTS,
    ensures
        curve@ == vf_curve(*info, *status, control),
{
    let point_count = point_count_from_mask(info.vf_points_mask);
    let mut curve: Vec<NvidiaVfPoint> = Vec::new();
    let mut index: usize = 0;
    while index < point_count
        invariant
            index <= point_count,
            point_count <= 255,
            point_count == mask_point_count(info.vf_points_mask@),
            curve@ == vf_curve_prefix(*info, *status, control, index as nat),
        decreases point_count - index,
    {
        let point_info = info.vf_points[index];
        if vf_curve_point_is_editable(point_info) {
            let point = status.vf_points[index];
            let (base_freq_khz, base_voltage_uv) = if status.b_vf_tuple_base_supported != 0 {
                (point.vf_tuple_base.freq_khz, point.vf_tuple_base.voltage_uv)
            } else {
                let offset_khz: i32 = match control {
                    Some(c) => c.vf_points[index].data.prog.freq_offset_khz,
                    None => 0,
                };
                let base: i64 = point.freq_khz as i64 - offset_khz as i64;
                let floored: i64 = if base < 0 { 0 } else { base };
                (floored as u32, point.voltage_uv)
            };
            curve.push(
                NvidiaVfPoint {
                    index: index as u8,
                    freq: point.freq_khz / 1000,
                    voltage: point.voltage_uv / 1000,
                    base_freq: base_freq_khz / 1000,
                    base_voltage: base_voltage_uv / 1000,
                },
            );
        }
        index = index + 1;
    }
    curve
}


// ---------------------------------------------------------------------------
// Setting a point's clock
// ---------------------------------------------------------------------------

/// Rust's integer division of `a` by a positive `d`: rounds toward zero.
pub open spec fn div_toward_zero(a: int, d: int) -> int {
    if a >= 0 {
        a / d
    } else {
        -((-a) / d)
    }
}

/// The base frequency (kHz) against which a new target is measured: the
/// driver's base tuple where it has one, else the current frequency less the
/// offset that the control table holds.
pub open spec fn target_base_freq_khz(
    status: ClockClientClkVfPointsStatusV3,
    control: ClockClientClkVfPointsControlV1,
    i: int,
) -> int {
    let point = status.vf_points@[i];
    if status.b_vf_tuple_base_supported != 0 {
        point.vf_tuple_base.freq_khz as int
    } else {
        point.freq_khz as int - control.vf_points@[i].data.prog.freq_offset_khz as int
    }
}

/// The offset (kHz) that brings point `i` to `target_mhz`.
pub open spec fn requested_offset_khz(
    status: ClockClientClkVfPointsStatusV3,
    control: ClockClientClkVfPointsControlV1,
    i: int,
    target_mhz: i32,
) -> int {
    target_mhz as int * 1000 - target_base_freq_khz(status, control, i)
}

/// The control entry `point` with its frequency offset replaced.
pub open spec fn with_offset(
    point: ClockClientClkVfPointControlV1,
    offset_khz: i32,
) -> ClockClientClkVfPointControlV1 {
    ClockClientClkVfPointControlV1 {
        type_: point.type_,
        data: ClockClientClkVfPointControlDataV1 {
            prog: ClockClientClkVfPointControlProgV1 { freq_offset_khz: offset_khz },
        },
    }
}

/// Computes the control table that sets V/F point `index` to `target_mhz`,
/// given the point table, the live states and the current control table.
/// The offset must lie in `min_offset_mhz..=max_offset_mhz` (in whole MHz,
/// rounded toward zero) and fit the driver's 32-bit kHz field; only the
/// chosen point's offset changes.
pub fn apply_vf_point_clock(
    info: &ClockClientClkVfPointsInfoV1,
    status: &ClockClientClkVfPointsStatusV3,
    control: ClockClientClkVfPointsControlV1,
    index: u8,
    target_mhz: i32,
    min_offset_mhz: i32,
    max_offset_mhz: i32,
) -> (r: Result<ClockClientClkVfPointsControlV1, VfCurveError>)
    requires
        index < 255 || mask_point_count(info.vf_points_mask@) <= NVAPI_MAX_VF_POINTS,
    ensures
        ({
            let i = index as int;
            let count = mask_point_count(info.vf_points_mask@);
            let offset_khz = requested_offset_khz(*status, control, i, target_mhz);
            let offset_mhz = div_toward_zero(offset_khz, 1000);
            &&& (i >= count <==> r == Err::<ClockClientClkVfPointsControlV1, VfCurveError>(
                VfCurveError::PointOutOfRange { index },
            ))
            &&& (i < count && !point_is_editable(info.vf_points@[i]) ==> r == Err::<
                ClockClientClkVfPointsControlV1,
                VfCurveError,
            >(VfCurveError::PointNotWritable { index }))
            &&& (i < count && point_is_editable(info.vf_points@[i]) && !(min_offset_mhz
                <= offset_mhz <= max_offset_mhz) ==> r == Err::<
                ClockClientClkVfPointsControlV1,
                VfCurveError,
            >(
                VfCurveError::OffsetOutOfRange {
                    index,
                    offset_mhz: offset_mhz as i64,
                    min_offset_mhz,
                    max_offset_mhz,
                },
            ))
            &&& (i < count && point_is_editable(info.vf_points@[i]) && min_offset_mhz
                <= offset_mhz <= max_offset_mhz && !(i32::MIN <= offset_khz <= i32::MAX)
                ==> r == Err::<ClockClientClkVfPointsControlV1, VfCurveError>(
                VfCurveError::OffsetTooLarge { offset_khz: offset_khz as i64 },
            ))
            &&& (r is Ok <==> (i < count && point_is_editable(info.vf_points@[i])
                && min_offset_mhz <= offset_mhz <= max_offset_mhz && i32::MIN <= offset_khz
                <= i32::MAX))
            &&& (r matches Ok(updated) ==> {
                &&& updated.vf_points_mask == control.vf_points_mask
                &&& updated.vf_points@ == control.vf_points@.update(
                    i,
                    with_offset(control.vf_points@[i], offset_khz as i32),
                )
            })
        }),
{
    let point_count = point_count_from_mask(info.vf_points_mask);
    let i = index as usize;
    if i >= point_count {
        return Err(VfCurveError::PointOutOfRange { index });
    }
    if !vf_curve_point_is_editable(info.vf_points[i]) {
        return Err(VfCurveError::PointNotWritable { index });
    }
    let point = status.vf_points[i];
    let base_freq_khz: i64 = if status.b_vf_tuple_base_supported != 0 {
        point.vf_tuple_base.freq_khz as i64
    } else {
        point.freq_khz as i64 - control.vf_points[i].data.prog.freq_offset_khz as i64
    };
    let target_khz: i64 = target_mhz as i64 * 1000;
    let offset_khz: i64 = target_khz - base_freq_khz;
    let offset_mhz: i64 = if offset_khz >= 0 {
        offset_khz / 1000
    } else {
        -((-offset_khz) / 1000)
    };
    if !(min_offset_mhz as i64 <= offset_mhz && offset_mhz <= max_offset_mhz as i64) {
        return Err(
            VfCurveError::OffsetOutOfRange { index, offset_mhz, min_offset_mhz, max_offset_mhz },
        );
    }
    if !(i32::MIN as i64 <= offset_khz && offset_khz <= i32::MAX as i64) {
        return Err(VfCurveError::OffsetTooLarge { offset_khz });
    }
    let mut updated = control;
    let mut entry = updated.vf_points[i];
    entry.data.prog.freq_offset_khz = offset_khz as i32;
    updated.vf_points[i] = entry;
    proof {
        assert(updated.vf_points@ =~= control.vf_points@.update(
            i as int,
            with_offset(control.vf_points@[i as int], offset_khz as i32),
        ));
    }
    Ok(updated)
}

/// The control entry of slot `i` after a reset of the curve.
pub open spec fn reset_point(
    info: ClockClientClkVfPointsInfoV1,
    control: ClockClientClkVfPointsControlV1,
    i: int,
) -> ClockClientClkVfPointControlV1 {
    if i < mask_point_count(info.vf_points_mask@) && point_is_editable(info.vf_points@[i]) {
        with_offset(control.vf_points@[i], 0)
    } else {
        control.vf_points@[i]
    }
}

/// Computes the control table that resets the curve: every editable point
/// among the announced slots gets a zero offset; all else stays.
pub fn reset_vf_control(
    info: &ClockClientClkVfPointsInfoV1,
    control: ClockClientClkVfPointsControlV1,
) -> (r: ClockClientClkVfPointsControlV1)
    requires
        mask_point_count(info.vf_points_mask@) <= NVAPI_MAX_VF_POINTS,
    ensures
        r.vf_points_mask == control.vf_points_mask,
        forall|i: int| 0 <= i < 255 ==> #[trigger] r.vf_points@[i] == reset_point(*info, control, i),
{
    let point_count = point_count_from_mask(info.vf_points_mask);
    let mut updated = control;
    let mut index: usize = 0;
    while index < point_count
        invariant
            index <= point_count,
            point_count <= 255,
            point_count == mask_point_count(info.vf_points_mask@),
            updated.vf_points_mask == control.vf_points_mask,
            forall|i: int| 0 <= i < index ==> #[trigger] updated.vf_points@[i] == reset_point(*info, control, i),
            forall|i: int| index <= i < 255 ==> #[trigger] updated.vf_points@[i] == control.vf_points@[i],
        decreases point_count - index,
    {
        if vf_curve_point_is_editable(info.vf_points[index]) {
            let mut entry = updated.vf_points[index];
            entry.data.prog.freq_offset_khz = 0;
            updated.vf_points[index] = entry;
        }
        index = index + 1;
    }
    updated
}

// ---------------------------------------------------------------------------
// Voltage boost
// ---------------------------------------------------------------------------

/// The voltage boost reported for the raw percentage `current` of the driver.
pub open spec fn voltage_boost_report(current: u8) -> NvidiaVoltageBoost {
    NvidiaVoltageBoost { current: current as i32, min: VOLTAGE_BOOST_MIN, max: VOLTAGE_BOOST_MAX }
}

/// The voltage boost reported for the raw percentage that the driver returns.
pub fn voltage_boost_from_raw(current: u8) -> (r: NvidiaVoltageBoost)
    ensures
        r == voltage_boost_report(current),
        r.current == current as i32,
        r.min == VOLTAGE_BOOST_MIN,
        r.max == VOLTAGE_BOOST_MAX,
{
    NvidiaVoltageBoost { current: current as i32, min: VOLTAGE_BOOST_MIN, max: VOLTAGE_BOOST_MAX }
}

/// Checks a requested voltage boost and gives the byte that is written to the driver.
pub fn validate_voltage_boost(percent: i32) -> (r: Result<u8, VoltageBoostError>)
    ensures
        (VOLTAGE_BOOST_MIN <= percent <= VOLTAGE_BOOST_MAX) ==> r == Ok::<u8, VoltageBoostError>(percent as u8),
        !(VOLTAGE_BOOST_MIN <= percent <= VOLTAGE_BOOST_MAX) ==> r == Err::<u8, VoltageBoostError>(VoltageBoostError::OutOfRange { percent }),
{
    if VOLTAGE_BOOST_MIN <= percent && percent <= VOLTAGE_BOOST_MAX {
        Ok(percent as u8)
    } else {
        Err(VoltageBoostError::OutOfRange { percent })
    }
}

/// Compares the boost that was written with the one that the driver reads back.
pub fn check_voltage_boost_applied(requested: u8, applied: u8) -> (r: Result<(), VoltageBoostError>)
    ensures
        requested == applied ==> r == Ok::<(), VoltageBoostError>(()),
        requested != applied ==> r == Err::<(), VoltageBoostError>(VoltageBoostError::NotApplied { requested, applied }),
{
    if applied == requested {
        Ok(())
    } else {
        Err(VoltageBoostError::NotApplied { requested, applied })
    }
}

// ---------------------------------------------------------------------------
// Laws of the V/F curve
// ---------------------------------------------------------------------------

proof fn lemma_vf_curve_prefix_shape(
    info: ClockClientClkVfPointsInfoV1,
    status: ClockClientClkVfPointsStatusV3,
    control: Option<ClockClientClkVfPointsControlV1>,
    n: nat,
)
    requires
        n <= 255,
    ensures
        ({
            let curve = vf_curve_prefix(info, status, control, n);
            &&& forall|k: int| 0 <= k < curve.len() ==> {
                let i = (#[trigger] curve[k]).index as int;
                &&& i < n
                &&& point_is_editable(info.vf_points@[i])
                &&& curve[k] == vf_curve_point(status, control, i)
            }
            &&& forall|j: int, k: int| 0 <= j < k < curve.len() ==> (#[trigger] curve[j]).index < (#[trigger] curve[k]).index
            &&& forall|i: int| 0 <= i < n && point_is_editable(#[trigger] info.vf_points@[i]) ==> exists|k: int| 0 <= k < curve.len() && (#[trigger] curve[k]).index == i
        }),
    decreases n,
{
    if n > 0 {
        lemma_vf_curve_prefix_shape(info, status, control, (n - 1) as nat);
        let prev = vf_curve_prefix(info, status, control, (n - 1) as nat);
        let curve = vf_curve_prefix(info, status, control, n);
        let last = n - 1;
        assert(vf_curve_point(status, control, last).index == last as u8);
        assert((last as u8) as int == last);
        if point_is_editable(info.vf_points@[last]) {
            assert(curve == prev.push(vf_curve_point(status, control, last)));
            assert forall|i: int| 0 <= i < n && point_is_editable(#[trigger] info.vf_points@[i]) implies exists|k: int| 0 <= k < curve.len() && (#[trigger] curve[k]).index == i by {
                if i == last {
                    assert(curve[prev.len() as int].index == i);
                } else {
                    let k = choose|k: int| 0 <= k < prev.len() && (#[trigger] prev[k]).index == i;
                    assert(curve[k] == prev[k]);
                }
            }
        } else {
            assert forall|i: int| 0 <= i < n && point_is_editable(#[trigger] info.vf_points@[i]) implies exists|k: int| 0 <= k < curve.len() && (#[trigger] curve[k]).index == i by {
                let k = choose|k: int| 0 <= k < prev.len() && (#[trigger] prev[k]).index == i;
                assert(curve[k] == prev[k]);
            }
        }
    }
}

/// The reported curve lists exactly the editable points among the slots
/// that the mask announces, in slot order. Each point carries its slot
/// index, its live frequency and voltage in whole MHz and mV, and its base:
/// the driver's base tuple where the driver has one, else the live voltage
/// and the live frequency less the control offset (zero without a control
/// table), floored at zero.
pub proof fn lemma_vf_curve_lists_editable_points(
    info: ClockClientClkVfPointsInfoV1,
    status: ClockClientClkVfPointsStatusV3,
    control: Option<ClockClientClkVfPointsControlV1>,
)
    requires
        mask_point_count(info.vf_points_mask@) <= NVAPI_MAX_VF_POINTS,
    ensures
        ({
            let count = mask_point_count(info.vf_points_mask@);
            let curve = vf_curve(info, status, control);
            &&& forall|k: int| 0 <= k < curve.len() ==> {
                let i = (#[trigger] curve[k]).index as int;
                let p = status.vf_points@[i];
                let offset = match control {
                    Some(c) => c.vf_points@[i].data.prog.freq_offset_khz as int,
                    None => 0,
                };
                let derived = p.freq_khz as int - offset;
                &&& i < count
                &&& info.vf_points@[i].b_voltage_based == 1
                &&& info.vf_points@[i].type_ == 0
                &&& curve[k].freq == p.freq_khz / 1000
                &&& curve[k].voltage == p.voltage_uv / 1000
                &&& status.b_vf_tuple_base_supported != 0 ==> curve[k].base_freq == p.vf_tuple_base.freq_khz / 1000
                    && curve[k].base_voltage == p.vf_tuple_base.voltage_uv / 1000
                &&& status.b_vf_tuple_base_supported == 0 ==> curve[k].base_freq == (if derived < 0 { 0 } else { derived }) as u32 / 1000
                    && curve[k].base_voltage == p.voltage_uv / 1000
            }
            &&& forall|j: int, k: int| 0 <= j < k < curve.len() ==> (#[trigger] curve[j]).index < (#[trigger] curve[k]).index
            &&& forall|i: int| 0 <= i < count && point_is_editable(#[trigger] info.vf_points@[i]) ==> exists|k: int| 0 <= k < curve.len() && (#[trigger] curve[k]).index == i
        }),
{
    let count = mask_point_count(info.vf_points_mask@);
    lemma_vf_curve_prefix_shape(info, status, control, count);
    assert(vf_curve(info, status, control) == vf_curve_prefix(info, status, control, count));
}

/// Setting a point's clock is stateless. Take the control table that
/// `apply_vf_point_clock` computes for `target_mhz` and a driver that then
/// runs the point at its base frequency plus the new offset. Then the curve
/// reports the point at `target_mhz`, its reported base frequency is the one
/// reported before, and asking for the same target again yields the same
/// offset: repeated edits do not accumulate.
pub proof fn lemma_vf_point_clock_is_stateless(
    status: ClockClientClkVfPointsStatusV3,
    control: ClockClientClkVfPointsControlV1,
    updated: ClockClientClkVfPointsControlV1,
    new_status: ClockClientClkVfPointsStatusV3,
    index: u8,
    target_mhz: i32,
)
    requires
        index < 255,
        i32::MIN <= requested_offset_khz(status, control, index as int, target_mhz) <= i32::MAX,
        updated.vf_points@ == control.vf_points@.update(
            index as int,
            with_offset(
                control.vf_points@[index as int],
                requested_offset_khz(status, control, index as int, target_mhz) as i32,
            ),
        ),
        new_status.b_vf_tuple_base_supported == status.b_vf_tuple_base_supported,
        new_status.vf_points@[index as int].vf_tuple_base == status.vf_points@[index as int].vf_tuple_base,
        new_status.vf_points@[index as int].freq_khz == target_base_freq_khz(status, control, index as int)
            + requested_offset_khz(status, control, index as int, target_mhz),
    ensures
        vf_curve_point(new_status, Some(updated), index as int).freq == target_mhz,
        reported_base_freq_khz(new_status, Some(updated), index as int) == reported_base_freq_khz(
            status,
            Some(control),
            index as int,
        ),
        requested_offset_khz(new_status, updated, index as int, target_mhz) == requested_offset_khz(
            status,
            control,
            index as int,
            target_mhz,
        ),
{
    let i = index as int;
    assert(updated.vf_points@[i].data.prog.freq_offset_khz == requested_offset_khz(status, control, i, target_mhz));
    assert(new_status.vf_points@[i].freq_khz == target_mhz * 1000);
}

/// Resetting a curve that was just reset changes nothing.
pub proof fn lemma_reset_is_idempotent(
    info: ClockClientClkVfPointsInfoV1,
    control: ClockClientClkVfPointsControlV1,
    once: ClockClientClkVfPointsControlV1,
)
    requires
        forall|i: int| 0 <= i < 255 ==> #[trigger] once.vf_points@[i] == reset_point(info, control, i),
    ensures
        forall|i: int| 0 <= i < 255 ==> #[trigger] reset_point(info, once, i) == once.vf_points@[i],
{
}

/// Setting a point's clock asks for the offset that moves the point's base
/// frequency to the target: the target in kHz less the driver's base tuple,
/// or, without one, less the live frequency minus the current offset. The
/// range check uses that offset in whole MHz rounded toward zero, and the
/// new control entry keeps the point's type and holds the new offset.
pub proof fn lemma_vf_point_clock_offset(
    status: ClockClientClkVfPointsStatusV3,
    control: ClockClientClkVfPointsControlV1,
    i: int,
    target_mhz: i32,
    offset_khz: i32,
    a: int,
)
    ensures
        requested_offset_khz(status, control, i, target_mhz) == target_mhz as int * 1000 - (
            if status.b_vf_tuple_base_supported != 0 {
                status.vf_points@[i].vf_tuple_base.freq_khz as int
            } else {
                status.vf_points@[i].freq_khz as int - control.vf_points@[i].data.prog.freq_offset_khz as int
            }),
        a >= 0 ==> 0 <= a - 1000 * div_toward_zero(a, 1000) < 1000,
        a < 0 ==> -1000 < a - 1000 * div_toward_zero(a, 1000) <= 0,
        with_offset(control.vf_points@[i], offset_khz).type_ == control.vf_points@[i].type_,
        with_offset(control.vf_points@[i], offset_khz).data.prog.freq_offset_khz == offset_khz,
{
}

/// A curve reset zeroes the offset of every editable slot whose index is
/// below the number of set bits of the whole eight-word mask, keeping its
/// type; every other slot keeps its control entry.
pub proof fn lemma_reset_zeroes_announced_editable_points(
    info: ClockClientClkVfPointsInfoV1,
    control: ClockClientClkVfPointsControlV1,
)
    ensures
        forall|i: int| 0 <= i < 255 ==> {
            let m = info.vf_points_mask@;
            let announced = set_bits_below(m[0] as nat, 32) + set_bits_below(m[1] as nat, 32)
                + set_bits_below(m[2] as nat, 32) + set_bits_below(m[3] as nat, 32)
                + set_bits_below(m[4] as nat, 32) + set_bits_below(m[5] as nat, 32)
                + set_bits_below(m[6] as nat, 32) + set_bits_below(m[7] as nat, 32);
            let editable = info.vf_points@[i].b_voltage_based == 1 && info.vf_points@[i].type_ == 0;
            let r = #[trigger] reset_point(info, control, i);
            &&& (i < announced && editable) ==> r.data.prog.freq_offset_khz == 0 && r.type_ == control.vf_points@[i].type_
            &&& !(i < announced && editable) ==> r == control.vf_points@[i]
        },
{
    lemma_mask_point_count_counts_set_bits(info.vf_points_mask@);
}

/// The voltage boost is reported with the range that the range check
/// accepts, 0 to 100 percent, whatever the driver's current value, and the
/// current value as the driver gave it.
pub proof fn lemma_voltage_boost_report_range(current: u8, percent: i32)
    ensures
        voltage_boost_report(current).current == current as i32,
        voltage_boost_report(current).min == 0,
        voltage_boost_report(current).max == 100,
        (voltage_boost_report(current).min <= percent <= voltage_boost_report(current).max)
            <==> (VOLTAGE_BOOST_MIN <= percent <= VOLTAGE_BOOST_MAX),
{
}

/// A boost that the range check accepts is reported back unchanged, within
/// the reported range, once the driver applied it.
pub proof fn lemma_voltage_boost_round_trip(percent: i32)
    requires
        VOLTAGE_BOOST_MIN <= percent <= VOLTAGE_BOOST_MAX,
    ensures
        voltage_boost_report(percent as u8).current == percent,
        voltage_boost_report(percent as u8).min <= percent <= voltage_boost_report(percent as u8).max,
{
}

// ---------------------------------------------------------------------------
// Finding the GPU on a PCI bus
// ---------------------------------------------------------------------------

/// What the search for the GPU on a given PCI bus does next.
#[derive(Clone, Copy, Debug, PartialEq, Eq, Structural)]
pub enum GpuSearchStep {
    /// Ask the driver for the bus id of GPU `index`.
    QueryBusId { index: usize },
    /// GPU `index` is on the requested bus.
    Found { index: usize },
    /// No GPU is on the requested bus.
    NotFound,
}

/// The first step of the search among `gpu_count` GPUs.
pub open spec fn gpu_search_start(gpu_count: nat) -> GpuSearchStep {
    if gpu_count > 0 {
        GpuSearchStep::QueryBusId { index: 0 }
    } else {
        GpuSearchStep::NotFound
    }
}

/// The step after GPU `index` reported `reported_bus_id`.
pub open spec fn gpu_search_next(gpu_count: nat, bus_id: u32, index: nat, reported_bus_id: u32) -> GpuSearchStep {
    if reported_bus_id == bus_id {
        GpuSearchStep::Found { index: index as usize }
    } else if index + 1 < gpu_count {
        GpuSearchStep::QueryBusId { index: (index + 1) as usize }
    } else {
        GpuSearchStep::NotFound
    }
}

/// Starts the search for a GPU among the `gpu_count` GPUs that the driver enumerates.
pub fn find_matching_gpu_start(gpu_count: usize) -> (r: GpuSearchStep)
    ensures
        r == gpu_search_start(gpu_count as nat),
{
    if gpu_count > 0 {
        GpuSearchStep::QueryBusId { index: 0 }
    } else {
        GpuSearchStep::NotFound
    }
}

/// Continues the search for the GPU on `bus_id` after GPU `index` reported
/// `reported_bus_id`.
pub fn find_matching_gpu_next(gpu_count: usize, bus_id: u32, index: usize, reported_bus_id: u32) -> (r: GpuSearchStep)
    requires
        index < gpu_count,
    ensures
        r == gpu_search_next(gpu_count as nat, bus_id, index as nat, reported_bus_id),
{
    if reported_bus_id == bus_id {
        GpuSearchStep::Found { index }
    } else if index + 1 < gpu_count {
        GpuSearchStep::QueryBusId { index: index + 1 }
    } else {
        GpuSearchStep::NotFound
    }
}

/// Most physical GPU handles that one enumeration returns.
pub const NVAPI_MAX_PHYSICAL_GPUS: usize = 64;

/// Number of GPU handles that an enumeration yields when the driver reports
/// `reported` GPUs: the handle table holds at most `NVAPI_MAX_PHYSICAL_GPUS`.
pub fn enumerated_gpu_count(reported: u32) -> (r: usize)
    ensures
        r == (if reported as int <= NVAPI_MAX_PHYSICAL_GPUS as int { reported as int } else { NVAPI_MAX_PHYSICAL_GPUS as int }),
{
    if reported as u64 <= NVAPI_MAX_PHYSICAL_GPUS as u64 {
        reported as usize
    } else {
        NVAPI_MAX_PHYSICAL_GPUS
    }
}

/// The first GPU at or after `from` whose bus id is `bus_id`.
pub open spec fn first_matching_gpu(bus_ids: Seq<u32>, bus_id: u32, from: nat) -> Option<nat>
    decreases bus_ids.len() - from,
{
    if from >= bus_ids.len() {
        None
    } else if bus_ids[from as int] == bus_id {
        Some(from)
    } else {
        first_matching_gpu(bus_ids, bus_id, from + 1)
    }
}

/// The search answers with the first GPU on the requested bus: its first
/// step and every later step keep that answer, and it ends in `Found` at that
/// GPU, or in `NotFound` when no GPU is on the bus.
pub proof fn lemma_gpu_search_finds_first_match(bus_ids: Seq<u32>, bus_id: u32, index: nat)
    requires
        bus_ids.len() <= usize::MAX,
        index < bus_ids.len(),
    ensures
        gpu_search_start(bus_ids.len()) == (if bus_ids.len() > 0 {
            GpuSearchStep::QueryBusId { index: 0 }
        } else {
            GpuSearchStep::NotFound
        }),
        ({
            let step = gpu_search_next(bus_ids.len(), bus_id, index, bus_ids[index as int]);
            let answer = first_matching_gpu(bus_ids, bus_id, index);
            &&& (step matches GpuSearchStep::QueryBusId { index: next } ==> next == index + 1
                && first_matching_gpu(bus_ids, bus_id, next as nat) == answer)
            &&& (step matches GpuSearchStep::Found { index: found } ==> answer == Some(found as nat))
            &&& (step is NotFound ==> answer is None)
        }),
{
    if bus_ids[index as int] != bus_id && index + 1 >= bus_ids.len() {
        assert(first_matching_gpu(bus_ids, bus_id, index + 1) is None);
    }
}

// ---------------------------------------------------------------------------
// Messages
// ---------------------------------------------------------------------------

/// The text that describes a V/F curve error.
pub open spec fn vf_curve_error_text(e: VfCurveError) -> Seq<char> {
    match e {
        VfCurveError::PointOutOfRange { index } => "NVAPI V/F point "@ + decimal(index as nat)
            + " is out of range"@,
        VfCurveError::PointNotWritable { index } => "NVAPI V/F point "@ + decimal(index as nat)
            + " is not writable"@,
        VfCurveError::OffsetOutOfRange { index, offset_mhz, min_offset_mhz, max_offset_mhz } =>
            "Requested V/F offset "@ + signed_decimal(offset_mhz as int) + " MHz for point "@
            + decimal(index as nat) + " is outside the driver range "@ + signed_decimal(
            min_offset_mhz as int) + "..="@ + signed_decimal(max_offset_mhz as int) + " MHz"@,
        VfCurveError::OffsetTooLarge { offset_khz } =>
            "Requested V/F clock offset does not fit in NVAPI range"@,
    }
}

impl VfCurveError {
    /// The message that describes this error.
    pub fn message(&self) -> (r: String)
        ensures
            r@ == vf_curve_error_text(*self),
    {
        match *self {
            VfCurveError::PointOutOfRange { index } => {
                let mut s = string_of("NVAPI V/F point ");
                push_decimal(&mut s, index as u64);
                s.append(" is out of range");
                s
            },
            VfCurveError::PointNotWritable { index } => {
                let mut s = string_of("NVAPI V/F point ");
                push_decimal(&mut s, index as u64);
                s.append(" is not writable");
                s
            },
            VfCurveError::OffsetOutOfRange { index, offset_mhz, min_offset_mhz, max_offset_mhz } => {
                let mut s = string_of("Requested V/F offset ");
                push_signed_decimal(&mut s, offset_mhz);
                s.append(" MHz for point ");
                push_decimal(&mut s, index as u64);
                s.append(" is outside the driver range ");
                push_signed_decimal(&mut s, min_offset_mhz as i64);
                s.append("..=");
                push_signed_decimal(&mut s, max_offset_mhz as i64);
                s.append(" MHz");
                s
            },
            VfCurveError::OffsetTooLarge { .. } => {
                string_of("Requested V/F clock offset does not fit in NVAPI range")
            },
        }
    }
}

/// The text that describes a voltage boost error.
pub open spec fn voltage_boost_error_text(e: VoltageBoostError) -> Seq<char> {
    match e {
        VoltageBoostError::OutOfRange { percent } => "Voltage boost "@ + signed_decimal(
            percent as int) + "% is outside the allowed range "@ + signed_decimal(
            VOLTAGE_BOOST_MIN as int) + "..="@ + signed_decimal(VOLTAGE_BOOST_MAX as int) + "%"@,
        VoltageBoostError::NotApplied { requested, applied } =>
            "NVIDIA driver did not apply voltage boost: requested "@ + decimal(requested as nat)
            + "%, driver reports "@ + decimal(applied as nat) + "%"@,
    }
}

impl VoltageBoostError {
    /// The message that describes this error.
    pub fn message(&self) -> (r: String)
        ensures
            r@ == voltage_boost_error_text(*self),
    {
        match *self {
            VoltageBoostError::OutOfRange { percent } => {
                let mut s = string_of("Voltage boost ");
                push_signed_decimal(&mut s, percent as i64);
                s.append("% is outside the allowed range ");
                push_signed_decimal(&mut s, VOLTAGE_BOOST_MIN as i64);
                s.append("..=");
                push_signed_decimal(&mut s, VOLTAGE_BOOST_MAX as i64);
                s.append("%");
                s
            },
            VoltageBoostError::NotApplied { requested, applied } => {
                let mut s = string_of("NVIDIA driver did not apply voltage boost: requested ");
                push_decimal(&mut s, requested as u64);
                s.append("%, driver reports ");
                push_decimal(&mut s, applied as u64);
                s.append("%");
                s
            },
        }
    }
}

/// The message for a failed NVAPI call with status `status` (non-zero), given
/// the status of the error text lookup and, when that lookup succeeded, its text.
pub open spec fn status_error_text(status: i32, lookup_status: i32, text: Seq<char>) -> Seq<char> {
    if lookup_status != 0 {
        "NVAPI returned status "@ + signed_decimal(status as int)
            + " and error text lookup returned "@ + signed_decimal(lookup_status as int)
    } else {
        "NVAPI error "@ + signed_decimal(status as int) + ": "@ + text
    }
}

/// Builds the message for a failed NVAPI call; `text` is the driver's error
/// text and is used only when its lookup succeeded (`lookup_status == 0`).
pub fn status_error_message(status: i32, lookup_status: i32, text: &str) -> (r: String)
    ensures
        r@ == status_error_text(status, lookup_status, text@),
{
    if lookup_status != 0 {
        let mut s = string_of("NVAPI returned status ");
        push_signed_decimal(&mut s, status as i64);
        s.append(" and error text lookup returned ");
        push_signed_decimal(&mut s, lookup_status as i64);
        s
    } else {
        let mut s = string_of("NVAPI error ");
        push_signed_decimal(&mut s, status as i64);
        s.append(": ");
        s.append(text);
        s
    }
}

/// The message for an interface id that the driver does not resolve.
pub open spec fn null_interface_text(id: u32) -> Seq<char> {
    "NVAPI query interface returned null for id 0x"@ + hex_padded(id as nat, 8)
}

/// Builds the message for an interface id that the driver does not resolve.
pub fn null_interface_message(id: u32) -> (r: String)
    ensures
        r@ == null_interface_text(id),
{
    let mut s = string_of("NVAPI query interface returned null for id 0x");
    push_hex_padded(&mut s, id, 8);
    s
}

/// The numbers in the V/F curve messages are the error's own values in base
/// 10: the point index, and the offset and the driver's bounds with a `-`
/// when negative.
pub proof fn lemma_vf_curve_error_numbers(index: u8, offset_mhz: i64, min_offset_mhz: i32, max_offset_mhz: i32)
    ensures
        exists|d: Seq<char>| vf_curve_error_text(VfCurveError::PointOutOfRange { index })
            == "NVAPI V/F point "@ + d + " is out of range"@ && is_numeral_of(d, index as int),
        exists|d: Seq<char>| vf_curve_error_text(VfCurveError::PointNotWritable { index })
            == "NVAPI V/F point "@ + d + " is not writable"@ && is_numeral_of(d, index as int),
        exists|o: Seq<char>, d: Seq<char>, lo: Seq<char>, hi: Seq<char>|
            vf_curve_error_text(VfCurveError::OffsetOutOfRange { index, offset_mhz, min_offset_mhz, max_offset_mhz })
            == "Requested V/F offset "@ + o + " MHz for point "@ + d + " is outside the driver range "@
                + lo + "..="@ + hi + " MHz"@
            && is_signed_numeral_of(o, offset_mhz as int) && is_numeral_of(d, index as int)
            && is_signed_numeral_of(lo, min_offset_mhz as int) && is_signed_numeral_of(hi, max_offset_mhz as int),
{
    lemma_decimal_is_numeral(index as nat);
    lemma_signed_decimal_is_numeral(offset_mhz as int);
    lemma_signed_decimal_is_numeral(min_offset_mhz as int);
    lemma_signed_decimal_is_numeral(max_offset_mhz as int);
    let d = decimal(index as nat);
    assert(vf_curve_error_text(VfCurveError::PointOutOfRange { index }) == "NVAPI V/F point "@ + d + " is out of range"@ && is_numeral_of(d, index as int));
    assert(vf_curve_error_text(VfCurveError::PointNotWritable { index }) == "NVAPI V/F point "@ + d + " is not writable"@ && is_numeral_of(d, index as int));
    let o = signed_decimal(offset_mhz as int);
    let lo = signed_decimal(min_offset_mhz as int);
    let hi = signed_decimal(max_offset_mhz as int);
    assert(vf_curve_error_text(VfCurveError::OffsetOutOfRange { index, offset_mhz, min_offset_mhz, max_offset_mhz })
        == "Requested V/F offset "@ + o + " MHz for point "@ + d + " is outside the driver range "@ + lo + "..="@ + hi + " MHz"@);
}

/// The voltage boost messages carry the requested and reported percentages
/// in base 10, and the accepted range 0..=100.
pub proof fn lemma_voltage_boost_error_numbers(percent: i32, requested: u8, applied: u8)
    ensures
        exists|p: Seq<char>, lo: Seq<char>, hi: Seq<char>|
            voltage_boost_error_text(VoltageBoostError::OutOfRange { percent })
            == "Voltage boost "@ + p + "% is outside the allowed range "@ + lo + "..="@ + hi + "%"@
            && is_signed_numeral_of(p, percent as int) && is_numeral_of(lo, 0) && is_numeral_of(hi, 100),
        exists|r: Seq<char>, a: Seq<char>|
            voltage_boost_error_text(VoltageBoostError::NotApplied { requested, applied })
            == "NVIDIA driver did not apply voltage boost: requested "@ + r + "%, driver reports "@ + a + "%"@
            && is_numeral_of(r, requested as int) && is_numeral_of(a, applied as int),
{
    lemma_signed_decimal_is_numeral(percent as int);
    lemma_signed_decimal_is_numeral(0);
    lemma_signed_decimal_is_numeral(100);
    lemma_decimal_is_numeral(requested as nat);
    lemma_decimal_is_numeral(applied as nat);
    let p = signed_decimal(percent as int);
    let lo = signed_decimal(0);
    let hi = signed_decimal(100);
    assert(voltage_boost_error_text(VoltageBoostError::OutOfRange { percent })
        == "Voltage boost "@ + p + "% is outside the allowed range "@ + lo + "..="@ + hi + "%"@);
    assert(is_numeral_of(lo, 0) && is_numeral_of(hi, 100));
    let r = decimal(requested as nat);
    let a = decimal(applied as nat);
    assert(voltage_boost_error_text(VoltageBoostError::NotApplied { requested, applied })
        == "NVIDIA driver did not apply voltage boost: requested "@ + r + "%, driver reports "@ + a + "%"@
        && is_numeral_of(r, requested as int) && is_numeral_of(a, applied as int));
}

/// A failed call's message carries the call's status in base 10, then either
/// the lookup's own status or the driver's text unchanged; an unresolved
/// interface's message carries its id as eight hexadecimal digits.
pub proof fn lemma_status_message_numbers(status: i32, lookup_status: i32, text: Seq<char>, id: u32)
    ensures
        lookup_status != 0 ==> exists|s: Seq<char>, l: Seq<char>|
            status_error_text(status, lookup_status, text)
            == "NVAPI returned status "@ + s + " and error text lookup returned "@ + l
            && is_signed_numeral_of(s, status as int) && is_signed_numeral_of(l, lookup_status as int),
        lookup_status == 0 ==> exists|s: Seq<char>|
            status_error_text(status, lookup_status, text) == "NVAPI error "@ + s + ": "@ + text
            && is_signed_numeral_of(s, status as int),
        exists|h: Seq<char>| null_interface_text(id) == "NVAPI query interface returned null for id 0x"@ + h
            && h.len() == 8 && hex_digits_value(h) == id as int,
{
    lemma_signed_decimal_is_numeral(status as int);
    lemma_signed_decimal_is_numeral(lookup_status as int);
    lemma_hex_padded_is_numeral(id as nat, 8);
    let s = signed_decimal(status as int);
    let l = signed_decimal(lookup_status as int);
    if lookup_status != 0 {
        assert(status_error_text(status, lookup_status, text)
            == "NVAPI returned status "@ + s + " and error text lookup returned "@ + l);
    } else {
        assert(status_error_text(status, lookup_status, text) == "NVAPI error "@ + s + ": "@ + text);
    }
    let h = hex_padded(id as nat, 8);
    assert(crate::text::sixteen_to(0) == 1);
    assert(crate::text::sixteen_to(1) == 16);
    assert(crate::text::sixteen_to(2) == 256);
    assert(crate::text::sixteen_to(3) == 4096);
    assert(crate::text::sixteen_to(4) == 65536);
    assert(crate::text::sixteen_to(5) == 1048576);
    assert(crate::text::sixteen_to(6) == 16777216);
    assert(crate::text::sixteen_to(7) == 268435456);
    assert(crate::text::sixteen_to(8) == 0x1_0000_0000);
    assert((id as nat) % crate::text::sixteen_to(8) == id as nat);
    assert(null_interface_text(id) == "NVAPI query interface returned null for id 0x"@ + h
        && h.len() == 8 && hex_digits_value(h) == id as int);
}

// ---------------------------------------------------------------------------
// Structure versions
// ---------------------------------------------------------------------------

/// The version word of an NVAPI structure: its size in the low 16 bits and
/// the structure revision above them, truncated to 32 bits.
pub fn make_version<T>(version: usize) -> (r: u32)
    ensures
        r == (vstd::layout::size_of::<T>() as usize | (version << 16usize)) as u32,
{
    (core::mem::size_of::<T>() | (version << 16)) as u32
}

} // verus!
