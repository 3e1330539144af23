use keyboard_rs::encoder::ChannelFault;
use keyboard_rs::encoder::Dir;
use keyboard_rs::encoder::Encoder;
use keyboard_rs::encoder::DETENT;
use keyboard_rs::encoder::LOOKUP_TABLE;

const CLOCKWISE: [(bool, bool); 4] = [(true, false), (true, true), (false, true), (false, false)];
const COUNTER_CLOCKWISE: [(bool, bool); 4] =
    [(false, true), (true, true), (true, false), (false, false)];

fn count(encoder: &mut Encoder, samples: &[(bool, bool)], dir: Dir) -> usize {
    let mut n = 0;
    for (a, b) in samples {
        if encoder.update(*a, *b) == dir {
            n += 1;
        }
    }
    n
}

#[test]
fn lookup_table_has_the_gray_code_pulses() {
    assert_eq!(LOOKUP_TABLE, [0, -1, 1, 0, 1, 0, 0, -1, -1, 0, 0, 1, 0, 1, -1, 0]);
    assert_eq!(DETENT, 4);
}

#[test]
fn new_encoder_reports_no_detent() {
    let encoder = Encoder::new();
    assert_eq!(encoder.direction(), Dir::Same);
}

#[test]
fn one_clockwise_detent_reports_one_clockwise_event() {
    let mut encoder = Encoder::new();
    assert_eq!(encoder.update(true, false), Dir::Same);
    assert_eq!(encoder.update(true, true), Dir::Same);
    assert_eq!(encoder.update(false, true), Dir::Same);
    assert_eq!(encoder.update(false, false), Dir::Cw);
    assert_eq!(encoder.direction(), Dir::Cw);
}

#[test]
fn one_counter_clockwise_detent_reports_one_counter_clockwise_event() {
    let mut encoder = Encoder::new();
    assert_eq!(encoder.update(false, true), Dir::Same);
    assert_eq!(encoder.update(true, true), Dir::Same);
    assert_eq!(encoder.update(true, false), Dir::Same);
    assert_eq!(encoder.update(false, false), Dir::Cww);
    assert_eq!(encoder.direction(), Dir::Cww);
}

#[test]
fn five_clockwise_detents_report_five_clockwise_events() {
    let mut samples = Vec::new();
    for _ in 0..5 {
        samples.extend_from_slice(&CLOCKWISE);
    }
    let mut encoder = Encoder::new();
    assert_eq!(count(&mut encoder, &samples, Dir::Cw), 5);
    let mut encoder = Encoder::new();
    assert_eq!(count(&mut encoder, &samples, Dir::Cww), 0);
}

#[test]
fn five_counter_clockwise_detents_report_five_counter_clockwise_events() {
    let mut samples = Vec::new();
    for _ in 0..5 {
        samples.extend_from_slice(&COUNTER_CLOCKWISE);
    }
    let mut encoder = Encoder::new();
    assert_eq!(count(&mut encoder, &samples, Dir::Cww), 5);
    let mut encoder = Encoder::new();
    assert_eq!(count(&mut encoder, &samples, Dir::Cw), 0);
}

#[test]
fn repeated_sample_reports_nothing_and_keeps_the_pulses() {
    let mut encoder = Encoder::new();
    assert_eq!(encoder.update(true, false), Dir::Same);
    assert_eq!(encoder.update(true, false), Dir::Same);
    assert_eq!(encoder.update(true, false), Dir::Same);
    assert_eq!(encoder.update(true, true), Dir::Same);
    assert_eq!(encoder.update(false, true), Dir::Same);
    assert_eq!(encoder.update(false, false), Dir::Cw);
    assert_eq!(encoder.update(false, false), Dir::Same);
}

#[test]
fn double_flip_from_rest_reports_nothing() {
    let mut encoder = Encoder::new();
    assert_eq!(encoder.update(true, true), Dir::Same);
    assert_eq!(encoder.direction(), Dir::Same);
}

#[test]
fn double_flip_adds_no_pulse() {
    let mut encoder = Encoder::new();
    assert_eq!(encoder.update(true, false), Dir::Same);
    assert_eq!(encoder.update(true, true), Dir::Same);
    assert_eq!(encoder.update(false, true), Dir::Same);
    // Both channels change at once: three pulses stay three pulses.
    assert_eq!(encoder.update(true, false), Dir::Same);
    // One more step clockwise completes the detent.
    assert_eq!(encoder.update(true, true), Dir::Cw);
}

#[test]
fn a_step_back_cancels_a_step_forward() {
    let mut encoder = Encoder::new();
    assert_eq!(encoder.update(true, false), Dir::Same);
    assert_eq!(encoder.update(false, false), Dir::Same);
    let mut events = 0;
    for (a, b) in CLOCKWISE {
        if encoder.update(a, b) == Dir::Cw {
            events += 1;
        }
    }
    assert_eq!(events, 1);
}

#[test]
fn update_sampled_passes_both_levels_on() {
    let mut encoder = Encoder::new();
    let a: Result<bool, u8> = Ok(true);
    let b: Result<bool, u16> = Ok(false);
    assert_eq!(encoder.update_sampled(a, b), Ok(Dir::Same));
    assert_eq!(encoder.update_sampled(Ok::<bool, u8>(true), Ok::<bool, u16>(true)), Ok(Dir::Same));
    assert_eq!(encoder.update_sampled(Ok::<bool, u8>(false), Ok::<bool, u16>(true)), Ok(Dir::Same));
    assert_eq!(encoder.update_sampled(Ok::<bool, u8>(false), Ok::<bool, u16>(false)), Ok(Dir::Cw));
}

#[test]
fn update_sampled_names_channel_a() {
    let mut encoder = Encoder::new();
    let r = encoder.update_sampled(Err::<bool, u8>(7), Ok::<bool, u16>(true));
    assert_eq!(r, Err(ChannelFault::ChannelA(7)));
}

#[test]
fn update_sampled_names_channel_b() {
    let mut encoder = Encoder::new();
    let r = encoder.update_sampled(Ok::<bool, u8>(true), Err::<bool, u16>(9));
    assert_eq!(r, Err(ChannelFault::ChannelB(9)));
}

#[test]
fn update_sampled_names_channel_a_where_both_fail() {
    let mut encoder = Encoder::new();
    let r = encoder.update_sampled(Err::<bool, u8>(1), Err::<bool, u16>(2));
    assert_eq!(r, Err(ChannelFault::ChannelA(1)));
}

#[test]
fn a_fault_leaves_the_decoder_as_it_was() {
    let mut encoder = Encoder::new();
    assert_eq!(encoder.update(true, false), Dir::Same);
    assert_eq!(encoder.update(true, true), Dir::Same);
    assert_eq!(encoder.update(false, true), Dir::Same);
    let r = encoder.update_sampled(Err::<bool, u8>(1), Ok::<bool, u8>(false));
    assert_eq!(r, Err(ChannelFault::ChannelA(1)));
    assert_eq!(encoder.update(false, false), Dir::Cw);
}

#[test]
fn last_sample_is_the_sample_seen_last() {
    let mut encoder = Encoder::new();
    assert_eq!(encoder.last_sample(), (false, false));
    encoder.update(true, false);
    assert_eq!(encoder.last_sample(), (true, false));
    encoder.update(true, true);
    assert_eq!(encoder.last_sample(), (true, true));
    encoder.update(false, true);
    assert_eq!(encoder.last_sample(), (false, true));
    // Handed in again, it changes nothing: the detent completes as before.
    let (a, b) = encoder.last_sample();
    assert_eq!(encoder.update(a, b), Dir::Same);
    assert_eq!(encoder.update(false, false), Dir::Cw);
}

#[test]
fn channel_a_passes_a_level_on_and_names_a_fault() {
    let read: Result<bool, ChannelFault<u8, u16>> = ChannelFault::channel_a(Ok(true));
    assert_eq!(read, Ok(true));
    let read: Result<bool, ChannelFault<u8, u16>> = ChannelFault::channel_a(Ok(false));
    assert_eq!(read, Ok(false));
    let read: Result<bool, ChannelFault<u8, u16>> = ChannelFault::channel_a(Err(3));
    assert_eq!(read, Err(ChannelFault::ChannelA(3)));
}

#[test]
fn channel_b_passes_a_level_on_and_names_a_fault() {
    let read: Result<bool, ChannelFault<u8, u16>> = ChannelFault::channel_b(Ok(true));
    assert_eq!(read, Ok(true));
    let read: Result<bool, ChannelFault<u8, u16>> = ChannelFault::channel_b(Err(300));
    assert_eq!(read, Err(ChannelFault::ChannelB(300)));
}
