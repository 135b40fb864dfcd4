use autocrap::config::{CtrlKind, Mapping, MidiKind, MidiSpec, OnOffMode, RelativeMode};
use autocrap::interpreter::{
    CtrlLogic, CtrlResponse, EightBitLogic, MidiResponse, OnOffLogic, OscArg, OscFloat, OscInput,
    OscResponse, RelativeLogic, Response,
};

fn mapping(name: &str, kind: CtrlKind, midi: Option<MidiSpec>) -> Mapping {
    Mapping {
        name: name.to_string(),
        ctrl_in_sequence: None,
        ctrl_in_num: Some(0x10),
        ctrl_out_num: Some(0x20),
        ctrl_kind: kind,
        midi,
    }
}

fn cc(channel: u8, num: u8) -> Option<MidiSpec> {
    Some(MidiSpec { channel, kind: MidiKind::Cc, num })
}

fn note(channel: u8, num: u8) -> Option<MidiSpec> {
    Some(MidiSpec { channel, kind: MidiKind::NoteOnOff, num })
}

fn ctrl_of(r: &Response) -> Option<Vec<u8>> {
    r.ctrl.as_ref().map(|c| c.data.clone())
}

fn midi_of(r: &Response) -> Option<Vec<u8>> {
    r.midi.as_ref().map(|m| m.data.clone())
}

fn osc_of(r: &Response) -> Option<(String, Vec<OscFloat>)> {
    r.osc.as_ref().map(|o| (o.addr.clone(), o.args.clone()))
}

fn is_empty(r: &Response) -> bool {
    r.ctrl.is_none() && r.osc.is_none() && r.midi.is_none()
}

fn float_arg(nonzero: bool, seven_bit: u8) -> OscArg {
    OscArg::Float { nonzero, seven_bit }
}

fn osc_in(addr: &str, args: Vec<OscArg>) -> OscInput {
    OscInput { addr: addr.to_string(), args }
}

fn frac(num: i16, den: u16) -> OscFloat {
    OscFloat { num, den }
}

fn on_off(mode: OnOffMode, midi: Option<MidiSpec>) -> OnOffLogic {
    OnOffLogic::from_mapping(&mapping("btn", CtrlKind::OnOff { mode }, midi)).unwrap()
}

fn relative(mode: RelativeMode, midi: Option<MidiSpec>) -> RelativeLogic {
    RelativeLogic::from_mapping(&mapping("enc", CtrlKind::Relative { mode }, midi)).unwrap()
}

fn eight_bit(midi: Option<MidiSpec>) -> EightBitLogic {
    let mut m = mapping("fader", CtrlKind::EightBit, midi);
    m.ctrl_in_sequence = Some(vec![0x30, 0x31]);
    EightBitLogic::from_mapping(&m).unwrap()
}

#[test]
fn constructors_accept_only_their_kind() {
    let m = mapping("btn", CtrlKind::OnOff { mode: OnOffMode::Raw }, None);
    assert!(OnOffLogic::from_mapping(&m).is_some());
    assert!(EightBitLogic::from_mapping(&m).is_none());
    assert!(RelativeLogic::from_mapping(&m).is_none());
    let mut e = mapping("f", CtrlKind::EightBit, None);
    assert!(EightBitLogic::from_mapping(&e).is_none());
    e.ctrl_in_sequence = Some(vec![1]);
    assert!(EightBitLogic::from_mapping(&e).is_none());
    e.ctrl_in_sequence = Some(vec![1, 2]);
    assert!(EightBitLogic::from_mapping(&e).is_some());
}

#[test]
fn on_off_ignores_other_numbers() {
    let mut c = on_off(OnOffMode::Momentary, cc(0, 1));
    assert!(c.handle_ctrl(0x11, 0x7f).is_none());
}

#[test]
fn raw_on_off_reports_without_feedback() {
    let mut c = on_off(OnOffMode::Raw, cc(2, 40));
    let r = c.handle_ctrl(0x10, 0x7f).unwrap();
    assert_eq!(ctrl_of(&r), None);
    assert_eq!(osc_of(&r), Some(("/btn".to_string(), vec![frac(1, 1)])));
    assert_eq!(midi_of(&r), Some(vec![0xb2, 40, 0x7f]));
    let r = c.handle_ctrl(0x10, 0x7f).unwrap();
    assert_eq!(midi_of(&r), Some(vec![0xb2, 40, 0x7f]));
    let r = c.handle_ctrl(0x10, 0x00).unwrap();
    assert_eq!(osc_of(&r), Some(("/btn".to_string(), vec![frac(0, 1)])));
    assert_eq!(midi_of(&r), Some(vec![0xb2, 40, 0x00]));
}

#[test]
fn momentary_press_twice_emits_once() {
    let mut c = on_off(OnOffMode::Momentary, cc(0, 7));
    let first = c.handle_ctrl(0x10, 0x7f).unwrap();
    assert_eq!(ctrl_of(&first), Some(vec![0x20, 0x7f]));
    assert_eq!(osc_of(&first), Some(("/btn".to_string(), vec![frac(1, 1)])));
    assert_eq!(midi_of(&first), Some(vec![0xb0, 7, 0x7f]));
    let second = c.handle_ctrl(0x10, 0x7f).unwrap();
    assert!(is_empty(&second));
    let release = c.handle_ctrl(0x10, 0x00).unwrap();
    assert_eq!(ctrl_of(&release), Some(vec![0x20, 0x00]));
}

#[test]
fn toggle_flips_on_press_and_ignores_releases() {
    let mut c = on_off(OnOffMode::Toggle, note(1, 60));
    let r = c.handle_ctrl(0x10, 0x7f).unwrap();
    assert_eq!(ctrl_of(&r), Some(vec![0x20, 0x7f]));
    assert_eq!(midi_of(&r), Some(vec![0x91, 60, 0x7f]));
    for _ in 0..5 {
        let r = c.handle_ctrl(0x10, 0x00).unwrap();
        assert!(is_empty(&r));
    }
    let r = c.handle_ctrl(0x10, 0x01).unwrap();
    assert_eq!(ctrl_of(&r), Some(vec![0x20, 0x00]));
    assert_eq!(osc_of(&r), Some(("/btn".to_string(), vec![frac(0, 1)])));
    assert_eq!(midi_of(&r), Some(vec![0x81, 60, 0x00]));
    let r = c.handle_ctrl(0x10, 0x00).unwrap();
    assert!(is_empty(&r));
}

#[test]
fn osc_on_turns_on_and_feeds_back_only() {
    let mut c = on_off(OnOffMode::Toggle, cc(0, 7));
    let r = c.handle_osc(&osc_in("/btn", vec![float_arg(true, 127)])).unwrap();
    assert_eq!(ctrl_of(&r), Some(vec![0x20, 0x7f]));
    assert!(r.osc.is_none());
    assert!(r.midi.is_none());
    // the stored state is now on: a press turns it off
    let r = c.handle_ctrl(0x10, 0x7f).unwrap();
    assert_eq!(ctrl_of(&r), Some(vec![0x20, 0x00]));
}

#[test]
fn osc_messages_not_for_the_control_are_declined() {
    let mut c = on_off(OnOffMode::Toggle, None);
    assert!(c.handle_osc(&osc_in("/other", vec![float_arg(true, 127)])).is_none());
    assert!(c.handle_osc(&osc_in("/btn", vec![])).is_none());
    assert!(c.handle_osc(&osc_in("/btn", vec![OscArg::Other])).is_none());
    let r = c.handle_osc(&osc_in("/btn", vec![float_arg(false, 0)])).unwrap();
    assert!(is_empty(&r));
}

#[test]
fn midi_note_messages_set_on_off() {
    let mut c = on_off(OnOffMode::Toggle, note(2, 64));
    let r = c.handle_midi(&[0x92, 64, 100]).unwrap();
    assert_eq!(ctrl_of(&r), Some(vec![0x20, 0x7f]));
    assert!(r.midi.is_none());
    let r = c.handle_midi(&[0x92, 64, 0]).unwrap();
    assert_eq!(ctrl_of(&r), Some(vec![0x20, 0x00]));
    c.handle_midi(&[0x92, 64, 1]).unwrap();
    let r = c.handle_midi(&[0x82, 64, 90]).unwrap();
    assert_eq!(ctrl_of(&r), Some(vec![0x20, 0x00]));
    assert!(c.handle_midi(&[0x93, 64, 100]).is_none());
    assert!(c.handle_midi(&[0x92, 65, 100]).is_none());
    assert!(c.handle_midi(&[0xb2, 64, 100]).is_none());
    assert!(c.handle_midi(&[0x92, 64]).is_none());
}

#[test]
fn midi_cc_sets_on_off() {
    let mut c = on_off(OnOffMode::Momentary, cc(0, 7));
    let r = c.handle_midi(&[0xb0, 7, 1]).unwrap();
    assert_eq!(ctrl_of(&r), Some(vec![0x20, 0x7f]));
    let r = c.handle_midi(&[0xb0, 7, 5]).unwrap();
    assert!(is_empty(&r));
    assert!(c.handle_midi(&[0x90, 7, 5]).is_none());
}

#[test]
fn eight_bit_assembles_two_parts() {
    let mut c = eight_bit(cc(1, 20));
    let hi = c.handle_ctrl(0x30, 0x40).unwrap();
    assert!(is_empty(&hi));
    let r = c.handle_ctrl(0x31, 0x01).unwrap();
    assert_eq!(osc_of(&r), Some(("/fader".to_string(), vec![frac(0x81, 255)])));
    assert_eq!(midi_of(&r), Some(vec![0xb1, 20, 0x40]));
    assert!(r.ctrl.is_none());
    let r = c.handle_ctrl(0x31, 0x00).unwrap();
    assert_eq!(osc_of(&r), Some(("/fader".to_string(), vec![frac(0x80, 255)])));
    assert!(c.handle_ctrl(0x32, 0x00).is_none());
}

#[test]
fn eight_bit_high_part_drops_its_top_bit() {
    let mut c = eight_bit(None);
    c.handle_ctrl(0x30, 0xff).unwrap();
    let r = c.handle_ctrl(0x31, 0x7f).unwrap();
    assert_eq!(osc_of(&r), Some(("/fader".to_string(), vec![frac(0xff, 255)])));
    assert!(r.midi.is_none());
}

#[test]
fn eight_bit_sends_no_note_messages_and_takes_no_input() {
    let mut c = eight_bit(note(0, 1));
    let r = c.handle_ctrl(0x31, 0x01).unwrap();
    assert!(r.midi.is_none());
    assert!(c.handle_osc(&osc_in("/fader", vec![float_arg(true, 64)])).is_none());
    assert!(c.handle_midi(&[0xb0, 1, 64]).is_none());
}

#[test]
fn relative_raw_reports_signed_delta() {
    let mut c = relative(RelativeMode::Raw, cc(0, 1));
    let r = c.handle_ctrl(0x10, 0x05).unwrap();
    assert_eq!(osc_of(&r), Some(("/enc".to_string(), vec![frac(5, 1)])));
    assert!(r.ctrl.is_none() && r.midi.is_none());
    let r = c.handle_ctrl(0x10, 0x7f).unwrap();
    assert_eq!(osc_of(&r), Some(("/enc".to_string(), vec![frac(-1, 1)])));
    let r = c.handle_ctrl(0x10, 0x40).unwrap();
    assert_eq!(osc_of(&r), Some(("/enc".to_string(), vec![frac(-64, 1)])));
    let r = c.handle_ctrl(0x10, 0x64).unwrap();
    assert_eq!(osc_of(&r), Some(("/enc".to_string(), vec![frac(-28, 1)])));
}

#[test]
fn relative_accumulate_clamps_at_127() {
    let mut c = relative(RelativeMode::Accumulate, cc(4, 9));
    let r = c.handle_ctrl(0x10, 0x3f).unwrap();
    assert_eq!(osc_of(&r), Some(("/enc".to_string(), vec![frac(63, 127)])));
    assert_eq!(midi_of(&r), Some(vec![0xb4, 9, 63]));
    assert_eq!(ctrl_of(&r), Some(vec![0x20, 62]));
    let r = c.handle_ctrl(0x10, 0x3f).unwrap();
    assert_eq!(midi_of(&r), Some(vec![0xb4, 9, 126]));
    let r = c.handle_ctrl(0x10, 0x3f).unwrap();
    assert_eq!(midi_of(&r), Some(vec![0xb4, 9, 127]));
    assert_eq!(ctrl_of(&r), None);
    for _ in 0..3 {
        let r = c.handle_ctrl(0x10, 0x3f).unwrap();
        assert!(is_empty(&r));
    }
    let r = c.handle_ctrl(0x10, 0x64).unwrap();
    assert_eq!(midi_of(&r), Some(vec![0xb4, 9, 99]));
}

#[test]
fn relative_accumulate_clamps_at_zero() {
    let mut c = relative(RelativeMode::Accumulate, None);
    let r = c.handle_ctrl(0x10, 0x7f).unwrap();
    assert!(is_empty(&r));
    c.handle_ctrl(0x10, 0x03).unwrap();
    let r = c.handle_ctrl(0x10, 0x40).unwrap();
    assert_eq!(osc_of(&r), Some(("/enc".to_string(), vec![frac(0, 127)])));
}

#[test]
fn led_segment_change_alone_sends_feedback() {
    let mut c = relative(RelativeMode::Accumulate, None);
    let r = c.handle_ctrl(0x10, 0x05).unwrap();
    assert_eq!(ctrl_of(&r), None);
    let r = c.handle_ctrl(0x10, 0x01).unwrap();
    assert_eq!(osc_of(&r), Some(("/enc".to_string(), vec![frac(6, 127)])));
    assert_eq!(ctrl_of(&r), None);
    let r = c.handle_ctrl(0x10, 0x01).unwrap();
    assert_eq!(ctrl_of(&r), Some(vec![0x20, 7]));
}

#[test]
fn relative_midi_and_osc_feed_back_only() {
    let mut c = relative(RelativeMode::Accumulate, cc(3, 11));
    let r = c.handle_midi(&[0xb3, 11, 5]).unwrap();
    assert!(is_empty(&r));
    let r = c.handle_midi(&[0xb3, 11, 6]).unwrap();
    assert!(is_empty(&r));
    let r = c.handle_midi(&[0xb3, 11, 7]).unwrap();
    assert_eq!(ctrl_of(&r), Some(vec![0x20, 7]));
    assert!(r.osc.is_none() && r.midi.is_none());
    assert!(c.handle_midi(&[0x93, 11, 7]).is_none());
    assert!(c.handle_midi(&[0xb2, 11, 7]).is_none());
    assert!(c.handle_midi(&[0xb3, 12, 7]).is_none());
    let r = c.handle_osc(&osc_in("/enc", vec![float_arg(true, 127)])).unwrap();
    assert_eq!(ctrl_of(&r), Some(vec![0x20, 117]));
    assert!(c.handle_osc(&osc_in("/enc", vec![OscArg::Other])).is_none());
}

#[test]
fn encoder_led_values() {
    for v in 0..7u8 {
        assert_eq!(RelativeLogic::encoder_led_val(v), 0);
    }
    assert_eq!(RelativeLogic::encoder_led_val(7), 7);
    assert_eq!(RelativeLogic::encoder_led_val(17), 7);
    assert_eq!(RelativeLogic::encoder_led_val(18), 18);
    assert_eq!(RelativeLogic::encoder_led_val(64), 62);
    assert_eq!(RelativeLogic::encoder_led_val(127), 117);
    assert_eq!(RelativeLogic::encoder_led_val(255), 249);
}

#[test]
fn response_from_single_parts() {
    let r = Response::from(CtrlResponse { data: vec![1, 2] });
    assert_eq!(ctrl_of(&r), Some(vec![1, 2]));
    assert!(r.osc.is_none() && r.midi.is_none());
    let r = Response::from(MidiResponse { data: vec![0xb0, 1, 2] });
    assert_eq!(midi_of(&r), Some(vec![0xb0, 1, 2]));
    assert!(r.ctrl.is_none() && r.osc.is_none());
    let r = Response::from(OscResponse { addr: "/a".to_string(), args: vec![frac(1, 1)] });
    assert_eq!(osc_of(&r), Some(("/a".to_string(), vec![frac(1, 1)])));
    assert!(is_empty(&Response::new()));
}
