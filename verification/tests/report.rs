use keyboard_rs::action::KeyAction;
use keyboard_rs::action::ReportKey;
use keyboard_rs::report::modifier_mask;
use keyboard_rs::report::modifier_usages;
use keyboard_rs::report::Overflow;
use keyboard_rs::report::Report;
use keyboard_rs::report::ReportBuilder;
use keyboard_rs::report::TransportFault;
use keyboard_rs::report::TransportOutcome;
use keyboard_rs::report::MAX_CONSUMER;
use keyboard_rs::report::MAX_KEYS;

const VOLUME_UP: u16 = 0xE9;
const VOLUME_DOWN: u16 = 0xEA;
const MUTE: u16 = 0xE2;
const PLAY_PAUSE: u16 = 0xCD;
const SCAN_NEXT: u16 = 0xB5;

#[test]
fn capacities_are_those_of_the_boot_report() {
    assert_eq!(MAX_KEYS, 6);
    assert_eq!(MAX_CONSUMER, 4);
}

#[test]
fn default_report_is_empty() {
    let report = Report::default();
    assert_eq!(report, Report { modifiers: 0, keys: [0; 6], consumer: [0; 4] });
}

#[test]
fn new_builder_finishes_an_empty_report() {
    let builder = ReportBuilder::new();
    assert_eq!(builder.finish_tick(), Report::default());
    assert_eq!(builder.pending_consumer(), None);
}

#[test]
fn keys_are_reported_in_the_order_added() {
    let mut builder = ReportBuilder::new();
    builder.begin_tick();
    assert_eq!(builder.add_key(ReportKey::Key(0x06)), Ok(()));
    assert_eq!(builder.add_key(ReportKey::Key(0x04)), Ok(()));
    assert_eq!(builder.add_key(ReportKey::Key(0x05)), Ok(()));
    let report = builder.finish_tick();
    assert_eq!(report.keys, [0x06, 0x04, 0x05, 0, 0, 0]);
    assert_eq!(report.modifiers, 0);
    assert_eq!(report.consumer, [0; 4]);
}

#[test]
fn modifier_bits_are_ored() {
    let mut builder = ReportBuilder::new();
    builder.begin_tick();
    assert_eq!(builder.add_key(ReportKey::Modifier(0x02)), Ok(()));
    assert_eq!(builder.add_key(ReportKey::Modifier(0x40)), Ok(()));
    assert_eq!(builder.add_key(ReportKey::Modifier(0x02)), Ok(()));
    let report = builder.finish_tick();
    assert_eq!(report.modifiers, 0x42);
    assert_eq!(report.keys, [0; 6]);
}

#[test]
fn seven_keys_leave_six_in_the_report() {
    let mut builder = ReportBuilder::new();
    builder.begin_tick();
    for code in 0x04u8..0x0A {
        assert_eq!(builder.add_key(ReportKey::Key(code)), Ok(()));
    }
    assert_eq!(builder.add_key(ReportKey::Key(0x0A)), Err(Overflow));
    let report = builder.finish_tick();
    assert_eq!(report.keys, [0x04, 0x05, 0x06, 0x07, 0x08, 0x09]);
}

#[test]
fn the_seventh_key_is_reported_once_one_of_the_six_is_gone() {
    let mut builder = ReportBuilder::new();
    builder.begin_tick();
    for code in 0x04u8..0x0B {
        let _ = builder.add_key(ReportKey::Key(code));
    }
    assert_eq!(builder.finish_tick().keys, [0x04, 0x05, 0x06, 0x07, 0x08, 0x09]);
    builder.begin_tick();
    for code in 0x04u8..0x0B {
        if code != 0x06 {
            assert_eq!(builder.add_key(ReportKey::Key(code)), Ok(()));
        }
    }
    assert_eq!(builder.finish_tick().keys, [0x04, 0x05, 0x07, 0x08, 0x09, 0x0A]);
}

#[test]
fn overflow_leaves_the_report_as_it_was() {
    let mut builder = ReportBuilder::new();
    builder.begin_tick();
    for code in 0x04u8..0x0A {
        let _ = builder.push_key(code);
    }
    let before = builder.finish_tick();
    assert_eq!(builder.push_key(0x20), Err(Overflow));
    assert_eq!(builder.finish_tick(), before);
}

#[test]
fn modifiers_are_taken_when_the_keys_are_full() {
    let mut builder = ReportBuilder::new();
    builder.begin_tick();
    for code in 0x04u8..0x0A {
        let _ = builder.add_key(ReportKey::Key(code));
    }
    assert_eq!(builder.add_key(ReportKey::Modifier(0x01)), Ok(()));
    assert_eq!(builder.finish_tick().modifiers, 0x01);
}

#[test]
fn a_chord_is_two_keys() {
    let mut builder = ReportBuilder::new();
    builder.begin_tick();
    assert_eq!(builder.add_key(ReportKey::Chord(0x2D, 0x2E)), Ok(()));
    assert_eq!(builder.finish_tick().keys, [0x2D, 0x2E, 0, 0, 0, 0]);
}

#[test]
fn a_chord_with_room_for_one_key_keeps_the_first() {
    let mut builder = ReportBuilder::new();
    builder.begin_tick();
    for code in 0x04u8..0x09 {
        let _ = builder.add_key(ReportKey::Key(code));
    }
    assert_eq!(builder.add_key(ReportKey::Chord(0x2D, 0x2E)), Err(Overflow));
    assert_eq!(builder.finish_tick().keys, [0x04, 0x05, 0x06, 0x07, 0x08, 0x2D]);
}

#[test]
fn a_chord_with_no_room_is_left_out() {
    let mut builder = ReportBuilder::new();
    builder.begin_tick();
    for code in 0x04u8..0x0A {
        let _ = builder.add_key(ReportKey::Key(code));
    }
    assert_eq!(builder.add_key(ReportKey::Chord(0x2D, 0x2E)), Err(Overflow));
    assert_eq!(builder.finish_tick().keys, [0x04, 0x05, 0x06, 0x07, 0x08, 0x09]);
}

#[test]
fn no_event_takes_no_slot() {
    let mut builder = ReportBuilder::new();
    builder.begin_tick();
    assert_eq!(builder.add_key(ReportKey::Key(0x00)), Ok(()));
    assert_eq!(builder.push_key(0), Ok(()));
    assert_eq!(builder.add_key(ReportKey::Key(0x04)), Ok(()));
    assert_eq!(builder.finish_tick().keys, [0x04, 0, 0, 0, 0, 0]);
}

#[test]
fn reserved_key_codes_are_no_event() {
    let mut builder = ReportBuilder::new();
    builder.begin_tick();
    assert_eq!(builder.add_key(ReportKey::Key(0xA5)), Ok(()));
    assert_eq!(builder.add_key(ReportKey::Key(0xDF)), Ok(()));
    assert_eq!(builder.add_key(ReportKey::Key(0xE8)), Ok(()));
    assert_eq!(builder.add_key(ReportKey::Key(0xFF)), Ok(()));
    assert_eq!(builder.finish_tick().keys, [0; 6]);
}

#[test]
fn defined_key_codes_are_kept_as_they_are() {
    let mut builder = ReportBuilder::new();
    builder.begin_tick();
    assert_eq!(builder.add_key(ReportKey::Key(0x01)), Ok(()));
    assert_eq!(builder.add_key(ReportKey::Key(0xA4)), Ok(()));
    assert_eq!(builder.finish_tick().keys, [0x01, 0xA4, 0, 0, 0, 0]);
}

#[test]
fn modifier_usages_set_their_bit() {
    let mut builder = ReportBuilder::new();
    builder.begin_tick();
    assert_eq!(builder.add_key(ReportKey::Key(0xE0)), Ok(()));
    assert_eq!(builder.add_key(ReportKey::Key(0xE7)), Ok(()));
    assert_eq!(builder.add_key(ReportKey::Chord(0xE1, 0x2E)), Ok(()));
    let report = builder.finish_tick();
    assert_eq!(report.modifiers, 0x83);
    assert_eq!(report.keys, [0x2E, 0, 0, 0, 0, 0]);
    assert_eq!(modifier_mask(0xE0), 0x01);
    assert_eq!(modifier_mask(0xE3), 0x08);
    assert_eq!(modifier_mask(0xE6), 0x40);
}

#[test]
fn modifier_usages_are_taken_when_the_keys_are_full() {
    let mut builder = ReportBuilder::new();
    builder.begin_tick();
    for code in 0x04u8..0x0A {
        let _ = builder.add_key(ReportKey::Key(code));
    }
    assert_eq!(builder.add_key(ReportKey::Chord(0xE5, 0xE2)), Ok(()));
    let report = builder.finish_tick();
    assert_eq!(report.modifiers, 0x24);
    assert_eq!(report.keys, [0x04, 0x05, 0x06, 0x07, 0x08, 0x09]);
}

#[test]
fn reserved_key_codes_are_taken_when_the_keys_are_full() {
    let mut builder = ReportBuilder::new();
    builder.begin_tick();
    for code in 0x04u8..0x0A {
        let _ = builder.add_key(ReportKey::Key(code));
    }
    assert_eq!(builder.add_key(ReportKey::Key(0xB0)), Ok(()));
    assert_eq!(builder.finish_tick().keys, [0x04, 0x05, 0x06, 0x07, 0x08, 0x09]);
}

#[test]
fn consumer_codes_are_reported_in_the_order_added() {
    let mut builder = ReportBuilder::new();
    builder.begin_tick();
    assert_eq!(builder.add_key(ReportKey::Consumer(VOLUME_UP)), Ok(()));
    assert_eq!(builder.add_key(ReportKey::Consumer(MUTE)), Ok(()));
    let report = builder.finish_tick();
    assert_eq!(report.consumer, [VOLUME_UP, MUTE, 0, 0]);
    assert_eq!(report.keys, [0; 6]);
}

#[test]
fn five_consumer_codes_leave_four_in_the_report() {
    let mut builder = ReportBuilder::new();
    builder.begin_tick();
    assert_eq!(builder.add_key(ReportKey::Consumer(VOLUME_UP)), Ok(()));
    assert_eq!(builder.add_key(ReportKey::Consumer(VOLUME_DOWN)), Ok(()));
    assert_eq!(builder.add_key(ReportKey::Consumer(MUTE)), Ok(()));
    assert_eq!(builder.add_key(ReportKey::Consumer(PLAY_PAUSE)), Ok(()));
    assert_eq!(builder.add_key(ReportKey::Consumer(SCAN_NEXT)), Err(Overflow));
    assert_eq!(builder.finish_tick().consumer, [VOLUME_UP, VOLUME_DOWN, MUTE, PLAY_PAUSE]);
}

#[test]
fn reserved_consumer_codes_are_unassigned() {
    let mut builder = ReportBuilder::new();
    builder.begin_tick();
    assert_eq!(builder.add_key(ReportKey::Consumer(0x07)), Ok(()));
    assert_eq!(builder.add_key(ReportKey::Consumer(0xFFFF)), Ok(()));
    assert_eq!(builder.add_key(ReportKey::Consumer(VOLUME_UP)), Ok(()));
    assert_eq!(builder.finish_tick().consumer, [VOLUME_UP, 0, 0, 0]);
}

#[test]
fn begin_tick_forgets_the_keys() {
    let mut builder = ReportBuilder::new();
    builder.begin_tick();
    let _ = builder.add_key(ReportKey::Key(0x04));
    let _ = builder.add_key(ReportKey::Modifier(0x02));
    let _ = builder.add_key(ReportKey::Consumer(MUTE));
    builder.begin_tick();
    assert_eq!(builder.finish_tick(), Report::default());
}

#[test]
fn identical_consumer_reports_are_sent_once() {
    let mut builder = ReportBuilder::new();
    builder.begin_tick();
    let _ = builder.add_key(ReportKey::Consumer(VOLUME_UP));
    let due = builder.pending_consumer();
    assert_eq!(due, Some([VOLUME_UP, 0, 0, 0]));
    assert_eq!(builder.acknowledge_consumer([VOLUME_UP, 0, 0, 0], TransportOutcome::Sent), Ok(()));
    assert_eq!(builder.pending_consumer(), None);
    builder.begin_tick();
    let _ = builder.add_key(ReportKey::Consumer(VOLUME_UP));
    assert_eq!(builder.pending_consumer(), None);
}

#[test]
fn a_changed_consumer_report_is_sent_again() {
    let mut builder = ReportBuilder::new();
    builder.begin_tick();
    let _ = builder.add_key(ReportKey::Consumer(VOLUME_UP));
    let _ = builder.acknowledge_consumer([VOLUME_UP, 0, 0, 0], TransportOutcome::Sent);
    builder.begin_tick();
    let _ = builder.add_key(ReportKey::Consumer(VOLUME_DOWN));
    assert_eq!(builder.pending_consumer(), Some([VOLUME_DOWN, 0, 0, 0]));
    let _ = builder.acknowledge_consumer([VOLUME_DOWN, 0, 0, 0], TransportOutcome::Sent);
    assert_eq!(builder.pending_consumer(), None);
    builder.begin_tick();
    assert_eq!(builder.pending_consumer(), Some([0, 0, 0, 0]));
}

#[test]
fn an_empty_consumer_report_is_not_sent_first() {
    let mut builder = ReportBuilder::new();
    builder.begin_tick();
    let _ = builder.add_key(ReportKey::Key(0x04));
    assert_eq!(builder.pending_consumer(), None);
}

#[test]
fn a_busy_transport_leaves_the_consumer_report_due() {
    let mut builder = ReportBuilder::new();
    builder.begin_tick();
    let _ = builder.add_key(ReportKey::Consumer(MUTE));
    assert_eq!(builder.acknowledge_consumer([MUTE, 0, 0, 0], TransportOutcome::WouldBlock), Ok(()));
    assert_eq!(builder.pending_consumer(), Some([MUTE, 0, 0, 0]));
    assert_eq!(builder.acknowledge_consumer([MUTE, 0, 0, 0], TransportOutcome::Duplicate), Ok(()));
    assert_eq!(builder.pending_consumer(), Some([MUTE, 0, 0, 0]));
}

#[test]
fn a_failed_transport_is_a_fault() {
    let mut builder = ReportBuilder::new();
    builder.begin_tick();
    let _ = builder.add_key(ReportKey::Consumer(MUTE));
    assert_eq!(
        builder.acknowledge_consumer([MUTE, 0, 0, 0], TransportOutcome::Failed),
        Err(TransportFault)
    );
    assert_eq!(builder.pending_consumer(), Some([MUTE, 0, 0, 0]));
}

#[test]
fn only_a_failure_is_fatal() {
    assert!(TransportOutcome::Failed.is_fatal());
    assert!(!TransportOutcome::Sent.is_fatal());
    assert!(!TransportOutcome::WouldBlock.is_fatal());
    assert!(!TransportOutcome::Duplicate.is_fatal());
}

#[test]
fn actions_have_their_report_entries() {
    assert_eq!(KeyAction::Plain(4).to_report_key(), Some(ReportKey::Key(4)));
    assert_eq!(KeyAction::Modifier(2).to_report_key(), Some(ReportKey::Modifier(2)));
    assert_eq!(KeyAction::Chord(4, 5).to_report_key(), Some(ReportKey::Chord(4, 5)));
    assert_eq!(KeyAction::Consumer(0xE9).to_report_key(), Some(ReportKey::Consumer(0xE9)));
    assert_eq!(KeyAction::MomentaryLayer(1).to_report_key(), None);
    assert_eq!(KeyAction::SwitchLayer(1).to_report_key(), None);
    assert_eq!(KeyAction::Transparent.to_report_key(), None);
    assert_eq!(KeyAction::NoOp.to_report_key(), None);
}

#[test]
fn layer_keys_fit_the_layers_they_point_at() {
    assert!(KeyAction::MomentaryLayer(1).fits_layers(2));
    assert!(!KeyAction::MomentaryLayer(2).fits_layers(2));
    assert!(KeyAction::SwitchLayer(0).fits_layers(1));
    assert!(!KeyAction::SwitchLayer(5).fits_layers(3));
    assert!(KeyAction::Plain(4).fits_layers(0));
}

/// The usages that the keyboard page defines.
fn keyboard_page_defines(code: u8) -> bool {
    code <= 0xA4 || (0xE0..=0xE7).contains(&code)
}

/// The usages that the consumer page defines.
fn consumer_page_defines(code: u16) -> bool {
    const DEFINED: [(u16, u16); 18] = [
        (0x00, 0x06),
        (0x20, 0x22),
        (0x30, 0x36),
        (0x40, 0x48),
        (0x60, 0x66),
        (0x80, 0x9E),
        (0xA0, 0xA4),
        (0xB0, 0xCE),
        (0xE0, 0xEA),
        (0xF0, 0xF5),
        (0x100, 0x10D),
        (0x150, 0x155),
        (0x160, 0x16A),
        (0x170, 0x174),
        (0x180, 0x1BA),
        (0x1BC, 0x1C7),
        (0x200, 0x209),
        (0x21A, 0x29C),
    ];
    DEFINED.iter().any(|(first, last)| *first <= code && code <= *last)
}

#[test]
fn every_key_code_is_reported_as_the_keyboard_page_has_it() {
    for code in 0..=u8::MAX {
        let mut builder = ReportBuilder::new();
        builder.begin_tick();
        assert_eq!(builder.add_key(ReportKey::Key(code)), Ok(()));
        let report = builder.finish_tick();
        if code == 0 || !keyboard_page_defines(code) {
            assert_eq!(report, Report::default(), "code {code:#x}");
        } else if code >= 0xE0 {
            let expected = Report { modifiers: 1 << (code - 0xE0), ..Report::default() };
            assert_eq!(report, expected, "code {code:#x}");
        } else {
            let expected = Report { keys: [code, 0, 0, 0, 0, 0], ..Report::default() };
            assert_eq!(report, expected, "code {code:#x}");
        }
    }
}

#[test]
fn every_consumer_code_is_reported_as_the_consumer_page_has_it() {
    for code in 0..=u16::MAX {
        let mut builder = ReportBuilder::new();
        builder.begin_tick();
        assert_eq!(builder.add_key(ReportKey::Consumer(code)), Ok(()));
        let report = builder.finish_tick();
        if code == 0 || !consumer_page_defines(code) {
            assert_eq!(report, Report::default(), "code {code:#x}");
        } else {
            let expected = Report { consumer: [code, 0, 0, 0], ..Report::default() };
            assert_eq!(report, expected, "code {code:#x}");
        }
    }
}

#[test]
fn modifier_usages_are_those_whose_bit_is_set() {
    assert_eq!(modifier_usages(0x00), Vec::<u8>::new());
    assert_eq!(modifier_usages(0x01), vec![0xE0]);
    assert_eq!(modifier_usages(0x80), vec![0xE7]);
    assert_eq!(modifier_usages(0x42), vec![0xE1, 0xE6]);
    assert_eq!(modifier_usages(0xFF), vec![0xE0, 0xE1, 0xE2, 0xE3, 0xE4, 0xE5, 0xE6, 0xE7]);
}

#[test]
fn modifier_usages_give_the_modifier_byte_back() {
    for modifiers in 0..=u8::MAX {
        let mut builder = ReportBuilder::new();
        builder.begin_tick();
        for usage in modifier_usages(modifiers) {
            assert_eq!(builder.push_key(usage), Ok(()));
        }
        let expected = Report { modifiers, ..Report::default() };
        assert_eq!(builder.finish_tick(), expected);
    }
}
