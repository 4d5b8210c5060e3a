use prelude_power_controller::error::PowerControllerError;
use prelude_power_controller::power::PowerController;
use prelude_power_controller::rails::{
    bits_for, frame_of, mask_of_frame, parse_side, DeviceSide, Rail, WireMode, INITIAL_STATE,
    RESET_HOLD_MS,
};

#[test]
fn baud_rate_of_each_mode() {
    assert_eq!(WireMode::SingleWire.baud_rate(), 9600);
    assert_eq!(WireMode::DoubleWire.baud_rate(), 192000);
}

#[test]
fn connect_writes_all_rails_off() {
    let (c, frame) = PowerController::connect(WireMode::DoubleWire);
    assert_eq!(frame, [0x55, 0x55, 0x55, 0x55, 0x55, 0x55, 0xC0]);
    assert_eq!(c.state(), INITIAL_STATE);
    assert_eq!(c.mode(), WireMode::DoubleWire);
    assert_eq!(c.payload(), frame);
}

#[test]
fn bits_of_each_rail() {
    assert_eq!(bits_for(Rail::Power, DeviceSide::Device1), 0x10);
    assert_eq!(bits_for(Rail::Power, DeviceSide::Device2), 0x20);
    assert_eq!(bits_for(Rail::Power, DeviceSide::Both), 0x30);
    assert_eq!(bits_for(Rail::Charger, DeviceSide::Both), 0x0C);
    assert_eq!(bits_for(Rail::Reset, DeviceSide::Device1), 0x01);
    assert_eq!(bits_for(Rail::Reset, DeviceSide::Both), 0x03);
}

#[test]
fn power_on_and_off_per_side() {
    let (mut c, _) = PowerController::connect(WireMode::SingleWire);
    assert_eq!(c.power_on(DeviceSide::Device1)[6], 0xD0);
    assert_eq!(c.power_on(DeviceSide::Both)[6], 0xF0);
    assert_eq!(c.power_off(DeviceSide::Device1)[6], 0xE0);
    assert_eq!(c.power_off(DeviceSide::Both)[6], 0xC0);
}

#[test]
fn charger_enable_and_disable() {
    let (mut c, _) = PowerController::connect(WireMode::SingleWire);
    assert_eq!(c.enable_vcharger(DeviceSide::Both)[6], 0xCC);
    assert_eq!(c.disable_vcharger(DeviceSide::Device2)[6], 0xC4);
    assert_eq!(c.disable_vcharger(DeviceSide::Device1)[6], 0xC0);
}

#[test]
fn every_write_is_a_full_frame() {
    let (mut c, _) = PowerController::connect(WireMode::SingleWire);
    let f = c.enable_vcharger(DeviceSide::Device1);
    assert_eq!(f.len(), 7);
    assert_eq!(&f[..6], &[0x55; 6]);
}

#[test]
fn disjoint_operations_commute() {
    let (mut a, _) = PowerController::connect(WireMode::SingleWire);
    a.power_on(DeviceSide::Device1);
    let fa = a.enable_vcharger(DeviceSide::Device2);
    let (mut b, _) = PowerController::connect(WireMode::SingleWire);
    b.enable_vcharger(DeviceSide::Device2);
    let fb = b.power_on(DeviceSide::Device1);
    assert_eq!(fa, fb);
    assert_eq!(fa[6], 0xC0 | 0x10 | 0x08);
}

#[test]
fn repeated_operation_changes_nothing() {
    let (mut c, _) = PowerController::connect(WireMode::SingleWire);
    let first = c.power_on(DeviceSide::Device2);
    let second = c.power_on(DeviceSide::Device2);
    assert_eq!(first, second);
    let off1 = c.power_off(DeviceSide::Device1);
    assert_eq!(off1, second);
}

#[test]
fn last_operation_on_a_rail_wins() {
    let (mut c, _) = PowerController::connect(WireMode::SingleWire);
    c.power_on(DeviceSide::Both);
    c.enable_vcharger(DeviceSide::Device1);
    c.power_off(DeviceSide::Device2);
    c.disable_vcharger(DeviceSide::Device1);
    let f = c.power_on(DeviceSide::Device2);
    assert_eq!(f[6], 0xC0 | 0x10 | 0x20);
}

#[test]
fn reset_pulse_sets_then_clears() {
    let (mut c, _) = PowerController::connect(WireMode::SingleWire);
    c.power_on(DeviceSide::Device1);
    let asserted = c.reset(DeviceSide::Device1);
    assert_eq!(asserted, [0x55, 0x55, 0x55, 0x55, 0x55, 0x55, 0xD1]);
    assert_eq!(c.state(), 0xD1);
    let released = c.release_reset(DeviceSide::Device1);
    assert_eq!(released, [0x55, 0x55, 0x55, 0x55, 0x55, 0x55, 0xD0]);
    assert_eq!(RESET_HOLD_MS, 100);
    assert_eq!(c.state(), 0xD0);
}

#[test]
fn reset_left_set_when_pulse_stops_after_first_write() {
    let (mut c, _) = PowerController::connect(WireMode::SingleWire);
    c.reset(DeviceSide::Device2);
    assert_eq!(c.state(), 0xC2);
    assert_eq!(c.payload()[6], 0xC2);
}

#[test]
fn reset_both_keeps_other_rails() {
    let (mut c, _) = PowerController::connect(WireMode::SingleWire);
    c.enable_vcharger(DeviceSide::Both);
    c.power_on(DeviceSide::Device2);
    let asserted = c.reset(DeviceSide::Both);
    let released = c.release_reset(DeviceSide::Both);
    assert_eq!(asserted[6], 0xC0 | 0x0C | 0x20 | 0x03);
    assert_eq!(released[6], 0xC0 | 0x0C | 0x20);
    assert_eq!(released[6] & 0x03, 0);
}

#[test]
fn frame_round_trip_for_every_mask() {
    for m in 0..=255u8 {
        let f = frame_of(m);
        assert_eq!(f.len(), 7);
        assert_eq!(mask_of_frame(&f), m);
        assert!(f[..6].iter().all(|b| *b == 0x55));
    }
}

#[test]
fn parse_side_accepts_each_name() {
    assert_eq!(parse_side("device1"), Ok(DeviceSide::Device1));
    assert_eq!(parse_side("Device1"), Ok(DeviceSide::Device1));
    assert_eq!(parse_side("1"), Ok(DeviceSide::Device1));
    assert_eq!(parse_side("DEVICE2"), Ok(DeviceSide::Device2));
    assert_eq!(parse_side("2"), Ok(DeviceSide::Device2));
    assert_eq!(parse_side("Both"), Ok(DeviceSide::Both));
    assert_eq!(parse_side("ALL"), Ok(DeviceSide::Both));
}

#[test]
fn parse_side_rejects_other_text() {
    assert_eq!(parse_side("three"), Err(PowerControllerError::InvalidDeviceSide));
    assert_eq!(parse_side(""), Err(PowerControllerError::InvalidDeviceSide));
    assert_eq!(parse_side(" both"), Err(PowerControllerError::InvalidDeviceSide));
    assert_eq!(parse_side("device12"), Err(PowerControllerError::InvalidDeviceSide));
}
