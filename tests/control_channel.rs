use last_snow::control::{apply_command, handle_datagram, Action, Command, ControlArg, ControlMessage, MAX_BUNDLE_DEPTH, MAX_DATAGRAM};
use last_snow::control::{collect_commands, ControlPacket};
use last_snow::layout::LogFile;
use last_snow::settings::{SettingValue, Settings};
use rosc::{OscBundle, OscMessage, OscPacket, OscTime, OscType};

fn int_of(s: &Settings, key: &str) -> Option<i64> {
    match s.get(key) {
        Some(SettingValue::Int(n)) => Some(*n),
        _ => None,
    }
}

fn msg(addr: &str, args: Vec<OscType>) -> OscPacket {
    OscPacket::Message(OscMessage { addr: addr.to_string(), args })
}

fn encode(p: &OscPacket) -> Vec<u8> {
    rosc::encoder::encode(p).unwrap()
}

#[test]
fn init_fills_missing_defaults() {
    let mut s = Settings::new();
    s.init_defaults();
    assert_eq!(int_of(&s, "max_characters"), Some(160));
    assert_eq!(int_of(&s, "max_sentences_per_csv"), Some(100));
    assert_eq!(s.row_cap(), 100);
}

#[test]
fn init_twice_keeps_custom_values() {
    let mut s = Settings::new();
    s.insert("max_sentences_per_csv", SettingValue::Int(7));
    s.init_defaults();
    s.init_defaults();
    assert_eq!(int_of(&s, "max_sentences_per_csv"), Some(7));
    assert_eq!(int_of(&s, "max_characters"), Some(160));
    assert_eq!(s.entries().len(), 2);
}

#[test]
fn row_cap_falls_back_to_default() {
    let mut s = Settings::new();
    assert_eq!(s.row_cap(), 100);
    s.insert("max_sentences_per_csv", SettingValue::Int(0));
    assert_eq!(s.row_cap(), 100);
    s.insert("max_sentences_per_csv", SettingValue::Text("x".to_string()));
    assert_eq!(s.row_cap(), 100);
    s.insert("max_sentences_per_csv", SettingValue::Int(25));
    assert_eq!(s.row_cap(), 25);
}

#[test]
fn insert_replaces_and_from_entries_keeps_last() {
    let s = Settings::from_entries(vec![
        ("a".to_string(), SettingValue::Int(1)),
        ("b".to_string(), SettingValue::Other("null".to_string())),
        ("a".to_string(), SettingValue::Int(2)),
    ]);
    assert_eq!(int_of(&s, "a"), Some(2));
    assert!(s.has("b"));
    assert!(!s.has("c"));
    assert_eq!(s.entries().len(), 2);
}

#[test]
fn serialized_cap_updates_keep_the_later_value() {
    let mut s = Settings::new();
    s.init_defaults();
    apply_command(&mut s, &Command::SetMaxSentences(5));
    apply_command(&mut s, &Command::SetMaxSentences(9));
    assert_eq!(s.row_cap(), 9);
    apply_command(&mut s, &Command::SetMaxSentences(5));
    assert_eq!(s.row_cap(), 5);
}

#[test]
fn messages_become_commands() {
    let m = ControlMessage { addr: "/max_characters".to_string(), args: vec![ControlArg::Int(80)] };
    assert!(matches!(m.command(), Command::SetMaxCharacters(80)));
    let m = ControlMessage { addr: "/max_characters".to_string(), args: vec![ControlArg::Text("80".to_string())] };
    assert!(matches!(m.command(), Command::Unknown(a) if a == "/max_characters"));
    let m = ControlMessage { addr: "/remove_tmp_csv".to_string(), args: vec![] };
    assert!(matches!(m.command(), Command::RemoveTmpCsv));
    let m = ControlMessage { addr: "/remove_output_csv".to_string(), args: vec![ControlArg::Text("3.csv".to_string())] };
    assert!(matches!(m.command(), Command::RemoveOutputCsv(f) if f == "3.csv"));
    let m = ControlMessage { addr: "/nope".to_string(), args: vec![] };
    assert!(matches!(m.command(), Command::Unknown(a) if a == "/nope"));
}

#[test]
fn datagram_sets_osc_address() {
    let mut s = Settings::new();
    let d = encode(&msg("/td_osc_address", vec![OscType::String("10.0.0.2:7002".to_string())]));
    let actions = handle_datagram(&mut s, &d).unwrap();
    assert!(matches!(s.get("td_osc_address"), Some(SettingValue::Text(a)) if a == "10.0.0.2:7002"));
    assert_eq!(actions.len(), 1);
    assert!(matches!(actions[0], Action::Save));
}

#[test]
fn datagram_sets_max_characters_and_announces() {
    let mut s = Settings::new();
    let d = encode(&msg("/max_characters", vec![OscType::Int(200)]));
    let actions = handle_datagram(&mut s, &d).unwrap();
    assert_eq!(int_of(&s, "max_characters"), Some(200));
    assert_eq!(actions.len(), 2);
    assert!(matches!(actions[0], Action::AnnounceMaxCharacters(200)));
    assert!(matches!(actions[1], Action::Save));
}

#[test]
fn datagram_removal_commands() {
    let mut s = Settings::new();
    let actions = handle_datagram(&mut s, &encode(&msg("/remove_all_csv", vec![]))).unwrap();
    assert_eq!(actions.len(), 2);
    assert!(matches!(actions[0], Action::ClearRotationDir));
    assert!(matches!(actions[1], Action::RemoveFile(LogFile::Hot)));
    let actions = handle_datagram(&mut s, &encode(&msg("/remove_output_csv", vec![OscType::String("2.csv".to_string())]))).unwrap();
    assert!(matches!(&actions[0], Action::RemoveFile(LogFile::Output(f)) if f == "2.csv"));
    let actions = handle_datagram(&mut s, &encode(&msg("/remove_tmp_csv", vec![]))).unwrap();
    assert!(matches!(actions[0], Action::RemoveFile(LogFile::Hot)));
    assert_eq!(s.entries().len(), 0);
}

#[test]
fn unknown_address_is_ignored() {
    let mut s = Settings::new();
    let actions = handle_datagram(&mut s, &encode(&msg("/other", vec![OscType::Float(1.5)]))).unwrap();
    assert_eq!(actions.len(), 1);
    assert!(matches!(&actions[0], Action::Ignore(a) if a == "/other"));
    assert_eq!(s.entries().len(), 0);
}

#[test]
fn malformed_datagram_is_dropped() {
    let mut s = Settings::new();
    s.insert("max_characters", SettingValue::Int(1));
    assert!(handle_datagram(&mut s, b"garbage").is_none());
    assert!(handle_datagram(&mut s, b"").is_none());
    assert_eq!(int_of(&s, "max_characters"), Some(1));
}

#[test]
fn bundles_apply_in_order() {
    let mut s = Settings::new();
    let inner = OscPacket::Bundle(OscBundle {
        timetag: OscTime { seconds: 0, fractional: 1 },
        content: vec![msg("/max_sentences_per_csv", vec![OscType::Int(3)])],
    });
    let outer = OscPacket::Bundle(OscBundle {
        timetag: OscTime { seconds: 0, fractional: 1 },
        content: vec![msg("/max_sentences_per_csv", vec![OscType::Int(2)]), inner, msg("/remove_tmp_csv", vec![])],
    });
    let actions = handle_datagram(&mut s, &encode(&outer)).unwrap();
    assert_eq!(s.row_cap(), 3);
    assert_eq!(actions.len(), 3);
    assert!(matches!(actions[2], Action::RemoveFile(LogFile::Hot)));
}

#[test]
fn bundles_below_the_depth_limit_are_dropped() {
    let mut p = ControlPacket::Message(ControlMessage { addr: "/remove_tmp_csv".to_string(), args: vec![] });
    for _ in 0..MAX_BUNDLE_DEPTH {
        p = ControlPacket::Bundle(vec![p]);
    }
    let mut out = Vec::new();
    collect_commands(&vec![p], MAX_BUNDLE_DEPTH, &mut out);
    assert_eq!(out.len(), 1);
    let empty_nest = ControlPacket::Bundle(vec![ControlPacket::Bundle(vec![])]);
    let deep = {
        let mut q = ControlPacket::Message(ControlMessage { addr: "/remove_tmp_csv".to_string(), args: vec![] });
        for _ in 0..(MAX_BUNDLE_DEPTH + 1) {
            q = ControlPacket::Bundle(vec![q]);
        }
        q
    };
    let mut out2 = Vec::new();
    collect_commands(&vec![deep, empty_nest], MAX_BUNDLE_DEPTH, &mut out2);
    assert_eq!(out2.len(), 0);
}

#[test]
fn row_cap_below_one_is_not_stored() {
    let mut s = Settings::new();
    s.insert("max_sentences_per_csv", SettingValue::Int(4));
    for n in [0, -3] {
        let actions = handle_datagram(&mut s, &encode(&msg("/max_sentences_per_csv", vec![OscType::Int(n)]))).unwrap();
        assert_eq!(actions.len(), 1);
        assert!(matches!(&actions[0], Action::Ignore(a) if a == "/max_sentences_per_csv"));
        assert_eq!(int_of(&s, "max_sentences_per_csv"), Some(4));
    }
    let actions = apply_command(&mut s, &Command::SetMaxSentences(1));
    assert!(matches!(actions[0], Action::Save));
    assert_eq!(int_of(&s, "max_sentences_per_csv"), Some(1));
}

#[test]
fn overlong_datagram_is_dropped() {
    let mut s = Settings::new();
    let mut p = msg("/max_characters", vec![OscType::Int(9)]);
    for _ in 0..100 {
        p = OscPacket::Bundle(OscBundle { timetag: OscTime { seconds: 0, fractional: 1 }, content: vec![p] });
    }
    let d = encode(&p);
    assert!(d.len() > MAX_DATAGRAM);
    assert!(handle_datagram(&mut s, &d).is_none());
    assert_eq!(s.entries().len(), 0);
}
