use autocrap::config::{AbstractMapping, CtrlKind, Mapping, MidiKind, MidiSpec, OnOffMode};
use autocrap::text::decimal_text;

fn template(name: &str) -> Mapping {
    Mapping {
        name: name.to_string(),
        ctrl_in_sequence: Some(vec![10, 20]),
        ctrl_in_num: Some(5),
        ctrl_out_num: Some(7),
        ctrl_kind: CtrlKind::OnOff { mode: OnOffMode::Toggle },
        midi: Some(MidiSpec { channel: 3, kind: MidiKind::Cc, num: 30 }),
    }
}

#[test]
fn range_expands_into_shifted_mappings() {
    let am = AbstractMapping::Range { count: 3, mapping: template("knob{i}") };
    assert!(am.is_in_range());
    let ms = am.expand_iter();
    assert_eq!(ms.len(), 3);
    for (i, m) in ms.iter().enumerate() {
        let i = i as u8;
        assert_eq!(m.name, format!("knob{}", i));
        assert_eq!(m.ctrl_in_sequence, Some(vec![10 + i, 20 + i]));
        assert_eq!(m.ctrl_in_num, Some(5 + i));
        assert_eq!(m.ctrl_out_num, Some(7 + i));
        assert_eq!(m.ctrl_kind, CtrlKind::OnOff { mode: OnOffMode::Toggle });
        assert_eq!(m.midi, Some(MidiSpec { channel: 3, kind: MidiKind::Cc, num: 30 + i }));
    }
}

#[test]
fn single_expands_with_index_zero() {
    let am = AbstractMapping::Single(template("pad{i}"));
    let ms = am.expand_iter();
    assert_eq!(ms.len(), 1);
    assert_eq!(ms[0].name, "pad0");
    assert_eq!(ms[0].ctrl_in_num, Some(5));
    assert_eq!(ms[0].ctrl_in_sequence, Some(vec![10, 20]));
}

#[test]
fn empty_range_expands_to_nothing() {
    let am = AbstractMapping::Range { count: 0, mapping: template("x{i}") };
    assert!(am.is_in_range());
    assert_eq!(am.expand_iter().len(), 0);
}

#[test]
fn name_without_placeholder_is_kept() {
    let m = template("fader").index(4);
    assert_eq!(m.name, "fader");
    assert_eq!(m.ctrl_in_num, Some(9));
}

#[test]
fn only_the_first_placeholder_is_replaced() {
    let m = template("a{i}b{i}").index(12);
    assert_eq!(m.name, "a12b{i}");
}

#[test]
fn index_past_a_byte_is_out_of_range() {
    let mut t = template("k{i}");
    t.ctrl_out_num = Some(250);
    assert!(!AbstractMapping::Range { count: 7, mapping: t.clone() }.is_in_range());
    assert!(AbstractMapping::Range { count: 6, mapping: t.clone() }.is_in_range());
    assert!(t.fits_at(5));
    assert!(!t.fits_at(6));
}

#[test]
fn midi_spec_index_moves_number_only() {
    let m = MidiSpec { channel: 9, kind: MidiKind::NoteOnOff, num: 60 };
    assert_eq!(m.index(4), MidiSpec { channel: 9, kind: MidiKind::NoteOnOff, num: 64 });
}

#[test]
fn osc_address_is_slash_and_name() {
    assert_eq!(template("knob3").osc_addr(), "/knob3");
    assert_eq!(template("").osc_addr(), "/");
}

#[test]
fn decimal_text_of_bytes() {
    assert_eq!(decimal_text(0), "0");
    assert_eq!(decimal_text(9), "9");
    assert_eq!(decimal_text(10), "10");
    assert_eq!(decimal_text(99), "99");
    assert_eq!(decimal_text(100), "100");
    assert_eq!(decimal_text(255), "255");
}
