use std::collections::HashMap;

use ledmon::decimal::parse_number;
use ledmon::driver::{
    attribute_path, drive, file_writes, Attribute, AttributeWrite, FileWrite, CHANNEL_DIRECTORY,
    OFF_VALUE, PATH_SEPARATOR, PULSE_PERIOD, PULSE_STEP, PULSE_TRIGGER,
};
use ledmon::level::Level;

fn level(value: u8) -> Level {
    Level::new(value).unwrap()
}

/// Makes the writes on a channel that keeps the last bytes written to each
/// attribute.
fn apply(state: &mut HashMap<Attribute, Vec<u8>>, writes: &[AttributeWrite]) {
    for write in writes {
        state.insert(write.attribute(), write.value());
    }
}

#[test]
fn pulse_constants_are_the_known_ones() {
    assert_eq!(PULSE_PERIOD, 1000);
    assert_eq!(PULSE_STEP, 10);
    assert_eq!(OFF_VALUE, "0");
    assert_eq!(PULSE_TRIGGER, "timer");
    assert_eq!(CHANNEL_DIRECTORY, "/sys/class/leds/");
    assert_eq!(PATH_SEPARATOR, "/");
}

#[test]
fn level_zero_switches_off() {
    assert_eq!(drive(level(0)), vec![AttributeWrite::SwitchOff]);
}

#[test]
fn higher_level_pulses() {
    assert_eq!(
        drive(level(3)),
        vec![
            AttributeWrite::SelectPulse,
            AttributeWrite::SetDelayOn(30),
            AttributeWrite::SetDelayOff(970),
        ]
    );
}

#[test]
fn each_level_has_its_delays() {
    for value in 1..=5u8 {
        let on = value as u16 * 10;
        assert_eq!(
            drive(level(value)),
            vec![
                AttributeWrite::SelectPulse,
                AttributeWrite::SetDelayOn(on),
                AttributeWrite::SetDelayOff(1000 - on),
            ]
        );
    }
}

#[test]
fn brightest_level_is_on_for_fifty_of_a_thousand() {
    assert_eq!(
        drive(level(5)),
        vec![
            AttributeWrite::SelectPulse,
            AttributeWrite::SetDelayOn(50),
            AttributeWrite::SetDelayOff(950),
        ]
    );
}

#[test]
fn writes_go_to_their_attributes() {
    assert_eq!(AttributeWrite::SwitchOff.attribute(), Attribute::Brightness);
    assert_eq!(AttributeWrite::SelectPulse.attribute(), Attribute::Trigger);
    assert_eq!(AttributeWrite::SetDelayOn(30).attribute(), Attribute::DelayOn);
    assert_eq!(AttributeWrite::SetDelayOff(970).attribute(), Attribute::DelayOff);
}

#[test]
fn writes_carry_their_bytes() {
    assert_eq!(AttributeWrite::SwitchOff.value(), b"0".to_vec());
    assert_eq!(AttributeWrite::SelectPulse.value(), b"timer".to_vec());
    assert_eq!(AttributeWrite::SetDelayOn(30).value(), b"30".to_vec());
    assert_eq!(AttributeWrite::SetDelayOff(970).value(), b"970".to_vec());
    assert_eq!(AttributeWrite::SetDelayOn(0).value(), b"0".to_vec());
    assert_eq!(AttributeWrite::SetDelayOff(65535).value(), b"65535".to_vec());
}

#[test]
fn delays_read_back_as_numbers() {
    for write in drive(level(4)) {
        match write {
            AttributeWrite::SetDelayOn(delay) | AttributeWrite::SetDelayOff(delay) => {
                assert_eq!(parse_number(&write.value()), Some(delay as u64));
            }
            _ => assert_eq!(parse_number(&write.value()), None),
        }
    }
}

#[test]
fn attributes_have_their_file_names() {
    assert_eq!(Attribute::Brightness.file_name(), "brightness");
    assert_eq!(Attribute::Trigger.file_name(), "trigger");
    assert_eq!(Attribute::DelayOn.file_name(), "delay_on");
    assert_eq!(Attribute::DelayOff.file_name(), "delay_off");
}

#[test]
fn attribute_path_names_channel_and_attribute() {
    assert_eq!(
        attribute_path("rgb-led-r", Attribute::Brightness),
        "/sys/class/leds/rgb-led-r/brightness"
    );
    assert_eq!(
        attribute_path("rgb-led-g", Attribute::Trigger),
        "/sys/class/leds/rgb-led-g/trigger"
    );
    assert_eq!(
        attribute_path("rgb-led-b", Attribute::DelayOn),
        "/sys/class/leds/rgb-led-b/delay_on"
    );
    assert_eq!(attribute_path("", Attribute::DelayOff), "/sys/class/leds//delay_off");
}

#[test]
fn file_writes_to_switch_off_are_one_zero_to_brightness() {
    assert_eq!(
        file_writes("rgb-led-b", &drive(level(0))),
        vec![FileWrite {
            path: String::from("/sys/class/leds/rgb-led-b/brightness"),
            content: b"0".to_vec(),
        }]
    );
}

#[test]
fn file_writes_to_pulse_stay_on_one_channel() {
    assert_eq!(
        file_writes("rgb-led-g", &drive(level(2))),
        vec![
            FileWrite {
                path: String::from("/sys/class/leds/rgb-led-g/trigger"),
                content: b"timer".to_vec(),
            },
            FileWrite {
                path: String::from("/sys/class/leds/rgb-led-g/delay_on"),
                content: b"20".to_vec(),
            },
            FileWrite {
                path: String::from("/sys/class/leds/rgb-led-g/delay_off"),
                content: b"980".to_vec(),
            },
        ]
    );
}

#[test]
fn file_writes_of_no_writes_are_none() {
    assert_eq!(file_writes("rgb-led-r", &Vec::new()), Vec::new());
}

#[test]
fn driving_twice_leaves_the_channel_as_driving_once() {
    for value in 0..=5u8 {
        for before in 0..=5u8 {
            let mut once = HashMap::new();
            apply(&mut once, &drive(level(before)));
            let mut twice = once.clone();
            apply(&mut once, &drive(level(value)));
            apply(&mut twice, &drive(level(value)));
            apply(&mut twice, &drive(level(value)));
            assert_eq!(once, twice);
        }
    }
}

#[test]
fn last_write_to_an_attribute_wins() {
    let mut state = HashMap::new();
    apply(&mut state, &drive(level(2)));
    apply(&mut state, &drive(level(0)));
    apply(&mut state, &drive(level(5)));
    assert_eq!(state.get(&Attribute::Brightness), Some(&b"0".to_vec()));
    assert_eq!(state.get(&Attribute::Trigger), Some(&b"timer".to_vec()));
    assert_eq!(state.get(&Attribute::DelayOn), Some(&b"50".to_vec()));
    assert_eq!(state.get(&Attribute::DelayOff), Some(&b"950".to_vec()));
}
