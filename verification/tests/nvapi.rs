use lact::nvapi::{
    apply_vf_point_clock, build_vf_curve, check_voltage_boost_applied, enumerated_gpu_count,
    find_matching_gpu_next, find_matching_gpu_start, make_version, null_interface_message,
    point_count_from_mask, reset_vf_control, status_error_message, validate_voltage_boost,
    vf_curve_point_is_editable, voltage_boost_from_raw, ClockClientClkVfPointControlDataV1,
    ClockClientClkVfPointControlProgV1, ClockClientClkVfPointControlV1,
    ClockClientClkVfPointInfoV1, ClockClientClkVfPointStatusV3, ClockClientClkVfPointTupleV1,
    ClockClientClkVfPointsControlV1, ClockClientClkVfPointsInfoV1,
    ClockClientClkVfPointsStatusV3, GpuSearchStep, NvidiaVfPoint, NvidiaVoltageBoost,
    VfCurveError, VoltageBoostError,
};

const EDITABLE: ClockClientClkVfPointInfoV1 = ClockClientClkVfPointInfoV1 { type_: 0, b_voltage_based: 1 };
const FIXED: ClockClientClkVfPointInfoV1 = ClockClientClkVfPointInfoV1 { type_: 1, b_voltage_based: 1 };

fn tuple(freq_khz: u32, voltage_uv: u32) -> ClockClientClkVfPointTupleV1 {
    ClockClientClkVfPointTupleV1 { freq_khz, voltage_uv }
}

fn status_point(freq_khz: u32, voltage_uv: u32, base_freq_khz: u32, base_voltage_uv: u32) -> ClockClientClkVfPointStatusV3 {
    ClockClientClkVfPointStatusV3 {
        type_: 0,
        freq_khz,
        voltage_uv,
        vf_tuple_base: tuple(base_freq_khz, base_voltage_uv),
        vf_tuple_offset: tuple(0, 0),
    }
}

fn control_point(offset_khz: i32) -> ClockClientClkVfPointControlV1 {
    ClockClientClkVfPointControlV1 {
        type_: 0,
        data: ClockClientClkVfPointControlDataV1 {
            prog: ClockClientClkVfPointControlProgV1 { freq_offset_khz: offset_khz },
        },
    }
}

/// Three announced points: 0 editable, 1 fixed, 2 editable.
fn info() -> ClockClientClkVfPointsInfoV1 {
    let mut vf_points = [FIXED; 255];
    vf_points[0] = EDITABLE;
    vf_points[2] = EDITABLE;
    vf_points[3] = EDITABLE;
    ClockClientClkVfPointsInfoV1 { vf_points_mask: [0b111, 0, 0, 0, 0, 0, 0, 0], vf_points }
}

fn status(base_supported: bool) -> ClockClientClkVfPointsStatusV3 {
    let mut vf_points = [status_point(0, 0, 0, 0); 255];
    vf_points[0] = status_point(1_500_000, 800_000, 1_400_000, 790_000);
    vf_points[1] = status_point(1_600_000, 850_000, 1_550_000, 840_000);
    vf_points[2] = status_point(1_700_500, 900_999, 1_650_000, 890_000);
    ClockClientClkVfPointsStatusV3 {
        vf_points_mask: [0b111, 0, 0, 0, 0, 0, 0, 0],
        b_vf_tuple_base_supported: if base_supported { 1 } else { 0 },
        vf_points,
    }
}

fn control(offsets: [i32; 3]) -> ClockClientClkVfPointsControlV1 {
    let mut vf_points = [control_point(0); 255];
    vf_points[0] = control_point(offsets[0]);
    vf_points[1] = control_point(offsets[1]);
    vf_points[2] = control_point(offsets[2]);
    vf_points[3] = control_point(77);
    ClockClientClkVfPointsControlV1 { vf_points_mask: [0b111, 0, 0, 0, 0, 0, 0, 0], vf_points }
}

#[test]
fn point_count_sums_set_bits_of_all_words() {
    assert_eq!(point_count_from_mask([0; 8]), 0);
    assert_eq!(point_count_from_mask([0b1011, 0, 0, 0, 0, 0, 0, 0x8000_0001]), 5);
    assert_eq!(point_count_from_mask([1, 1, 1, 1, 1, 1, 1, 1]), 8);
    assert_eq!(point_count_from_mask([u32::MAX; 8]), 256);
    assert_eq!(point_count_from_mask([0xFF, 0, 0, 0, 0, 0, 0, 0]), 8);
}

#[test]
fn editable_points_are_voltage_based_and_programmable() {
    assert!(vf_curve_point_is_editable(EDITABLE));
    assert!(!vf_curve_point_is_editable(FIXED));
    assert!(!vf_curve_point_is_editable(ClockClientClkVfPointInfoV1 { type_: 0, b_voltage_based: 0 }));
    assert!(!vf_curve_point_is_editable(ClockClientClkVfPointInfoV1 { type_: 0, b_voltage_based: 2 }));
}

#[test]
fn curve_uses_base_tuple_when_supported() {
    let curve = build_vf_curve(&info(), &status(true), Some(control([100_000, 0, -50_000])));
    assert_eq!(
        curve,
        vec![
            NvidiaVfPoint { index: 0, freq: 1500, voltage: 800, base_freq: 1400, base_voltage: 790 },
            NvidiaVfPoint { index: 2, freq: 1700, voltage: 900, base_freq: 1650, base_voltage: 890 },
        ]
    );
}

#[test]
fn curve_derives_base_from_offset_without_base_tuple() {
    let curve = build_vf_curve(&info(), &status(false), Some(control([100_000, 0, -50_000])));
    assert_eq!(
        curve,
        vec![
            NvidiaVfPoint { index: 0, freq: 1500, voltage: 800, base_freq: 1400, base_voltage: 800 },
            NvidiaVfPoint { index: 2, freq: 1700, voltage: 900, base_freq: 1750, base_voltage: 900 },
        ]
    );
}

#[test]
fn curve_without_control_uses_current_frequency_as_base() {
    let curve = build_vf_curve(&info(), &status(false), None);
    assert_eq!(curve[0].base_freq, 1500);
    assert_eq!(curve[1].base_freq, 1700);
}

#[test]
fn curve_base_is_floored_at_zero() {
    let curve = build_vf_curve(&info(), &status(false), Some(control([2_000_000, 0, 0])));
    assert_eq!(curve[0].base_freq, 0);
}

#[test]
fn curve_is_empty_without_announced_points() {
    let mut i = info();
    i.vf_points_mask = [0; 8];
    assert!(build_vf_curve(&i, &status(true), None).is_empty());
}

#[test]
fn setting_a_point_changes_only_its_offset() {
    let before = control([100_000, 0, -50_000]);
    let updated = apply_vf_point_clock(&info(), &status(true), before, 0, 1600, -1000, 1000).unwrap();
    assert_eq!(updated.vf_points[0].data.prog.freq_offset_khz, 200_000);
    for i in 1..255 {
        assert_eq!(updated.vf_points[i], before.vf_points[i]);
    }
    assert_eq!(updated.vf_points_mask, before.vf_points_mask);
}

#[test]
fn setting_a_point_without_base_tuple_measures_from_current_minus_offset() {
    let updated =
        apply_vf_point_clock(&info(), &status(false), control([100_000, 0, -50_000]), 2, 1800, -1000, 1000).unwrap();
    // base = 1_700_500 + 50_000 = 1_750_500 kHz, target 1_800_000 kHz
    assert_eq!(updated.vf_points[2].data.prog.freq_offset_khz, 49_500);
}

#[test]
fn setting_a_point_beyond_the_curve_fails() {
    let r = apply_vf_point_clock(&info(), &status(true), control([0, 0, 0]), 3, 1600, -1000, 1000);
    assert_eq!(r.unwrap_err(), VfCurveError::PointOutOfRange { index: 3 });
}

#[test]
fn setting_a_fixed_point_fails() {
    let r = apply_vf_point_clock(&info(), &status(true), control([0, 0, 0]), 1, 1600, -1000, 1000);
    assert_eq!(r.unwrap_err(), VfCurveError::PointNotWritable { index: 1 });
}

#[test]
fn setting_an_offset_outside_the_driver_range_fails() {
    let r = apply_vf_point_clock(&info(), &status(true), control([0, 0, 0]), 0, 2500, -1000, 1000);
    assert_eq!(
        r.unwrap_err(),
        VfCurveError::OffsetOutOfRange { index: 0, offset_mhz: 1100, min_offset_mhz: -1000, max_offset_mhz: 1000 }
    );
    let r = apply_vf_point_clock(&info(), &status(true), control([0, 0, 0]), 0, 300, -1000, 1000);
    assert_eq!(
        r.unwrap_err(),
        VfCurveError::OffsetOutOfRange { index: 0, offset_mhz: -1100, min_offset_mhz: -1000, max_offset_mhz: 1000 }
    );
}

#[test]
fn offset_in_mhz_rounds_toward_zero() {
    // base 1_700_500 kHz: target 1700 MHz needs -500 kHz, i.e. 0 MHz after truncation.
    let r = apply_vf_point_clock(&info(), &status(false), control([0, 0, 0]), 2, 1700, 0, 0).unwrap();
    assert_eq!(r.vf_points[2].data.prog.freq_offset_khz, -500);
}

#[test]
fn offset_that_does_not_fit_the_driver_field_fails() {
    let r = apply_vf_point_clock(&info(), &status(true), control([0, 0, 0]), 0, i32::MAX, i32::MIN, i32::MAX);
    let expected = i32::MAX as i64 * 1000 - 1_400_000;
    assert_eq!(r.unwrap_err(), VfCurveError::OffsetTooLarge { offset_khz: expected });
}

#[test]
fn set_then_read_reports_target_without_accumulating() {
    let info = info();
    let before_status = status(false);
    let before = control([100_000, 0, -50_000]);
    let base_before = build_vf_curve(&info, &before_status, Some(before))[1].base_freq;
    let updated = apply_vf_point_clock(&info, &before_status, before, 2, 1800, -1000, 1000).unwrap();
    // The driver runs the point at base + new offset.
    let mut after_status = before_status;
    after_status.vf_points[2].freq_khz = 1_800_000;
    let curve = build_vf_curve(&info, &after_status, Some(updated));
    assert_eq!(curve[1].freq, 1800);
    assert_eq!(curve[1].base_freq, base_before);
    let again = apply_vf_point_clock(&info, &after_status, updated, 2, 1800, -1000, 1000).unwrap();
    assert_eq!(again.vf_points[2], updated.vf_points[2]);
}

#[test]
fn reset_zeroes_editable_announced_points_only() {
    let before = control([100_000, 5_000, -50_000]);
    let reset = reset_vf_control(&info(), before);
    assert_eq!(reset.vf_points[0].data.prog.freq_offset_khz, 0);
    assert_eq!(reset.vf_points[1].data.prog.freq_offset_khz, 5_000);
    assert_eq!(reset.vf_points[2].data.prog.freq_offset_khz, 0);
    // slot 3 is editable but not announced by the mask
    assert_eq!(reset.vf_points[3].data.prog.freq_offset_khz, 77);
    let twice = reset_vf_control(&info(), reset);
    for i in 0..255 {
        assert_eq!(twice.vf_points[i], reset.vf_points[i]);
    }
}

#[test]
fn voltage_boost_is_reported_with_its_range() {
    assert_eq!(voltage_boost_from_raw(37), NvidiaVoltageBoost { current: 37, min: 0, max: 100 });
}

#[test]
fn voltage_boost_range_is_checked() {
    assert_eq!(validate_voltage_boost(0), Ok(0));
    assert_eq!(validate_voltage_boost(100), Ok(100));
    assert_eq!(validate_voltage_boost(55), Ok(55));
    assert_eq!(validate_voltage_boost(101), Err(VoltageBoostError::OutOfRange { percent: 101 }));
    assert_eq!(validate_voltage_boost(-1), Err(VoltageBoostError::OutOfRange { percent: -1 }));
}

#[test]
fn voltage_boost_round_trip() {
    let byte = validate_voltage_boost(42).unwrap();
    assert_eq!(voltage_boost_from_raw(byte).current, 42);
    assert_eq!(check_voltage_boost_applied(byte, byte), Ok(()));
}

#[test]
fn voltage_boost_not_applied_is_reported() {
    assert_eq!(
        check_voltage_boost_applied(50, 20),
        Err(VoltageBoostError::NotApplied { requested: 50, applied: 20 })
    );
}

#[test]
fn error_messages() {
    assert_eq!(VfCurveError::PointOutOfRange { index: 12 }.message(), "NVAPI V/F point 12 is out of range");
    assert_eq!(VfCurveError::PointNotWritable { index: 0 }.message(), "NVAPI V/F point 0 is not writable");
    assert_eq!(
        VfCurveError::OffsetOutOfRange { index: 7, offset_mhz: -1100, min_offset_mhz: -1000, max_offset_mhz: 1000 }
            .message(),
        "Requested V/F offset -1100 MHz for point 7 is outside the driver range -1000..=1000 MHz"
    );
    assert_eq!(
        VfCurveError::OffsetTooLarge { offset_khz: 5 }.message(),
        "Requested V/F clock offset does not fit in NVAPI range"
    );
    assert_eq!(
        VoltageBoostError::OutOfRange { percent: 150 }.message(),
        "Voltage boost 150% is outside the allowed range 0..=100%"
    );
    assert_eq!(
        VoltageBoostError::NotApplied { requested: 50, applied: 20 }.message(),
        "NVIDIA driver did not apply voltage boost: requested 50%, driver reports 20%"
    );
}

#[test]
fn status_messages() {
    assert_eq!(status_error_message(-5, 0, "NVAPI_INVALID_ARGUMENT"), "NVAPI error -5: NVAPI_INVALID_ARGUMENT");
    assert_eq!(
        status_error_message(-104, -3, "ignored"),
        "NVAPI returned status -104 and error text lookup returned -3"
    );
    assert_eq!(status_error_message(i32::MIN, 0, ""), format!("NVAPI error {}: ", i32::MIN));
}

#[test]
fn null_interface_message_uses_eight_hex_digits() {
    assert_eq!(null_interface_message(0x0150e828), "NVAPI query interface returned null for id 0x0150e828");
    assert_eq!(null_interface_message(0xd22bdd7e), "NVAPI query interface returned null for id 0xd22bdd7e");
    assert_eq!(null_interface_message(0), "NVAPI query interface returned null for id 0x00000000");
}

#[test]
fn structure_version_holds_size_and_revision() {
    assert_eq!(make_version::<[u8; 40]>(1), 40 | (1 << 16));
    assert_eq!(make_version::<[u32; 3]>(3), 12 | (3 << 16));
    assert_eq!(make_version::<u64>(0), 8);
}

#[test]
fn gpu_search_finds_first_match() {
    let ids = [3u32, 7, 7, 9];
    let mut step = find_matching_gpu_start(ids.len());
    let found = loop {
        match step {
            GpuSearchStep::QueryBusId { index } => step = find_matching_gpu_next(ids.len(), 7, index, ids[index]),
            GpuSearchStep::Found { index } => break Some(index),
            GpuSearchStep::NotFound => break None,
        }
    };
    assert_eq!(found, Some(1));
}

#[test]
fn gpu_search_without_match_or_gpus() {
    assert_eq!(find_matching_gpu_start(0), GpuSearchStep::NotFound);
    assert_eq!(find_matching_gpu_start(2), GpuSearchStep::QueryBusId { index: 0 });
    assert_eq!(find_matching_gpu_next(2, 5, 0, 4), GpuSearchStep::QueryBusId { index: 1 });
    assert_eq!(find_matching_gpu_next(2, 5, 1, 4), GpuSearchStep::NotFound);
    assert_eq!(find_matching_gpu_next(2, 5, 1, 5), GpuSearchStep::Found { index: 1 });
}

#[test]
fn enumeration_is_capped_by_the_handle_table() {
    assert_eq!(enumerated_gpu_count(0), 0);
    assert_eq!(enumerated_gpu_count(3), 3);
    assert_eq!(enumerated_gpu_count(64), 64);
    assert_eq!(enumerated_gpu_count(1000), 64);
}
