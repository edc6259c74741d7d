use ohmnote::meter::{Meter, MeterOutput, SAMPLE_COUNT};
use ohmnote::range::{
    correction_permille, divider_milliohms, reference_resistance, select_lines, TOP_RANGE,
};
use ohmnote::text::format_ohms;

fn text_of(out: &MeterOutput) -> Option<String> {
    match out {
        MeterOutput::Reading(t) => Some(t.as_str().to_string()),
        _ => None,
    }
}

fn formatted(ohms: u64) -> Option<String> {
    format_ohms(ohms).map(|t| t.as_str().to_string())
}

#[test]
fn half_scale_code_is_one_kilohm() {
    let milli = divider_milliohms(2048, 1000, 1000, 4096);
    assert_eq!(milli, 1_000_000);
    assert_eq!(formatted(milli / 1000), Some("1.000K".to_string()));
}

#[test]
fn low_code_stays_in_ohm_band() {
    let milli = divider_milliohms(410, 1000, 1000, 4096);
    assert_eq!(milli, 111_231);
    assert_eq!(formatted(milli / 1000), Some("111".to_string()));
    assert_eq!(formatted(100), Some("100".to_string()));
}

#[test]
fn correction_scales_the_result() {
    assert_eq!(divider_milliohms(2048, 1000, 1100, 4096), 1_100_000);
    assert_eq!(divider_milliohms(0, 1000, 1000, 4096), 0);
}

#[test]
fn formatting_bands() {
    assert_eq!(formatted(0), Some("0".to_string()));
    assert_eq!(formatted(7), Some("7".to_string()));
    assert_eq!(formatted(999), Some("999".to_string()));
    assert_eq!(formatted(4700), Some("4.700K".to_string()));
    assert_eq!(formatted(9999), Some("9.999K".to_string()));
    assert_eq!(formatted(10_000), Some("10.00K".to_string()));
    assert_eq!(formatted(47_300), Some("47.30K".to_string()));
    assert_eq!(formatted(99_999), Some("99.99K".to_string()));
    assert_eq!(formatted(100_000), Some("100.0K".to_string()));
    assert_eq!(formatted(473_000), Some("473.0K".to_string()));
    assert_eq!(formatted(999_999), Some("999.9K".to_string()));
    assert_eq!(formatted(1_000_000), Some("1.000M".to_string()));
    assert_eq!(formatted(1_700_000), Some("1.700M".to_string()));
    assert_eq!(formatted(3_999_999), Some("3.999M".to_string()));
    assert_eq!(formatted(4_000_000), None);
    assert_eq!(formatted(u64::MAX), None);
}

#[test]
fn range_table() {
    assert_eq!(reference_resistance(0), 100);
    assert_eq!(reference_resistance(1), 1000);
    assert_eq!(reference_resistance(2), 10_000);
    assert_eq!(reference_resistance(3), 100_000);
    assert_eq!(reference_resistance(4), 1_700_000);
    for r in 0..5u8 {
        assert_eq!(correction_permille(r), 1000);
    }
}

#[test]
fn exactly_one_line_is_selected() {
    assert_eq!(select_lines(0), vec![true, false, false, false, false]);
    assert_eq!(select_lines(2), vec![false, false, true, false, false]);
    assert_eq!(select_lines(4), vec![false, false, false, false, true]);
}

#[test]
fn new_meter_starts_in_top_range() {
    let m = Meter::new();
    assert_eq!(m.channel, TOP_RANGE);
    assert_eq!(m.res, 1_700_000);
    assert_eq!(m.sample_index, 0);
    assert_eq!(m.samples, vec![0u64; SAMPLE_COUNT]);
}

#[test]
fn in_band_code_keeps_range_and_is_stored() {
    let mut m = Meter::new();
    m.set_channel(2);
    let out = m.read(1000);
    assert!(matches!(out, MeterOutput::Reading(_)));
    assert_eq!(m.channel, 2);
    assert_eq!(m.sample_index, 1);
    assert_eq!(m.samples[0], 1000 * 10_000 * 1000 / 2250);
    for code in [271u16, 800, 1649] {
        m.read(code);
        assert_eq!(m.channel, 2);
    }
    assert_eq!(m.sample_index, 4);
}

#[test]
fn high_code_steps_up_and_clears_buffer() {
    let mut m = Meter::new();
    m.set_channel(1);
    m.read(1000);
    m.read(1200);
    let out = m.read(1650);
    assert!(matches!(out, MeterOutput::Settling));
    assert_eq!(m.channel, 2);
    assert_eq!(m.res, 10_000);
    assert_eq!(m.sample_index, 0);
    assert_eq!(m.samples, vec![0u64; SAMPLE_COUNT]);
    m.read(1000);
    let v = 1000u64 * 10_000 * 1000 / 2250;
    let mut expected = vec![0u64; SAMPLE_COUNT];
    expected[0] = v;
    assert_eq!(m.samples, expected);
}

#[test]
fn low_code_steps_down() {
    let mut m = Meter::new();
    m.set_channel(3);
    let out = m.read(270);
    assert!(matches!(out, MeterOutput::Settling));
    assert_eq!(m.channel, 2);
    assert_eq!(m.samples, vec![0u64; SAMPLE_COUNT]);
}

#[test]
fn set_channel_twice_is_fresh_both_times() {
    let mut m = Meter::new();
    m.read(1000);
    m.set_channel(3);
    assert_eq!(m.channel, 3);
    assert_eq!(m.sample_index, 0);
    assert_eq!(m.samples, vec![0u64; SAMPLE_COUNT]);
    m.read(1000);
    m.set_channel(3);
    assert_eq!(m.channel, 3);
    assert_eq!(m.res, 100_000);
    assert_eq!(m.sample_index, 0);
    assert_eq!(m.samples, vec![0u64; SAMPLE_COUNT]);
}

#[test]
fn full_buffer_of_one_value_reads_that_value() {
    let mut m = Meter::new();
    m.set_channel(2);
    let mut last = MeterOutput::Settling;
    for _ in 0..SAMPLE_COUNT {
        last = m.read(1625);
    }
    assert_eq!(m.samples, vec![10_000_000u64; SAMPLE_COUNT]);
    assert_eq!(text_of(&last), Some("10.00K".to_string()));
}

#[test]
fn early_readings_lean_toward_zero() {
    let mut m = Meter::new();
    m.set_channel(2);
    let out = m.read(1625);
    assert_eq!(text_of(&out), Some("200".to_string()));
}

#[test]
fn over_range_code_reports_over_range() {
    let mut m = Meter::new();
    assert!(matches!(m.read(2700), MeterOutput::OverRange));
    assert!(matches!(m.read(3249), MeterOutput::OverRange));
    assert!(matches!(m.read(4095), MeterOutput::OverRange));
    assert_eq!(m.sample_index, 0);
    assert_eq!(m.channel, TOP_RANGE);
}

#[test]
fn upper_threshold_in_top_range_keeps_range() {
    let mut m = Meter::new();
    let out = m.read(2000);
    assert_eq!(m.channel, TOP_RANGE);
    assert_eq!(m.samples[0], 2_720_000_000);
    assert_eq!(text_of(&out), Some("54.40K".to_string()));
}

#[test]
fn lower_threshold_in_lowest_range_keeps_range() {
    let mut m = Meter::new();
    m.set_channel(0);
    let out = m.read(100);
    assert_eq!(m.channel, 0);
    assert_eq!(m.sample_index, 1);
    assert_eq!(text_of(&out), Some("0".to_string()));
    m.read(0);
    assert_eq!(m.channel, 0);
}

#[test]
fn large_smoothed_value_is_over_range() {
    let mut m = Meter::new();
    for _ in 0..SAMPLE_COUNT {
        m.read(2600);
    }
    assert!(matches!(m.read(2600), MeterOutput::OverRange));
}

#[test]
fn connection_check() {
    let m = Meter::new();
    assert!(m.is_connected(0));
    assert!(m.is_connected(1000));
    assert!(!m.is_connected(3000));
    assert!(!m.is_connected(3250));
    assert!(!m.is_connected(4000));
}

#[test]
fn published_values() {
    assert!(MeterOutput::Settling.published().is_none());
    let over = MeterOutput::OverRange.published().unwrap();
    assert_eq!(over.as_str(), "OL");
    let t = format_ohms(4700).unwrap();
    let r = MeterOutput::Reading(t).published().unwrap();
    assert_eq!(r.as_str(), "4.700K");
}
