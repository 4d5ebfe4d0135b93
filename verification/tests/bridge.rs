use cue_bridge::cue::parse_cue_info;
use cue_bridge::dispatch::{
    dispatch_message, handle_cues, handle_datagram, Disposition, Step, FADER_BUTTON,
};
use cue_bridge::error::BridgeError;
use cue_bridge::osc::{
    decode_datagram, encode_out_message, extract_osc_messages, match_osc_pattern,
    osc_address_valid, Message, OscArg, OutMessage, Packet,
};
use cue_bridge::sequence::{Action, Movement, Sequence, SequenceRegistry};
use cue_bridge::text::{i32_to_string, parse_i32, trailing_segment};
use cue_bridge::util::IntoResult;

#[test]
fn parse_full_slug() {
    let info = parse_cue_info("Act1 12 House Lights".to_string()).unwrap();
    assert_eq!(info.sequence_name, "Act1");
    assert_eq!(info.number, "12");
    assert_eq!(info.name, "House Lights");
}

#[test]
fn parse_slug_without_name() {
    let info = parse_cue_info("Act1 12".to_string()).unwrap();
    assert_eq!(info.sequence_name, "Act1");
    assert_eq!(info.number, "12");
    assert_eq!(info.name, "");
}

#[test]
fn parse_single_token_fails() {
    let err = parse_cue_info("Act1".to_string()).unwrap_err();
    assert_eq!(err, BridgeError::ParseError);
}

#[test]
fn parse_empty_slug_fails() {
    assert_eq!(parse_cue_info("".to_string()).unwrap_err(), BridgeError::ParseError);
    assert_eq!(parse_cue_info("   ".to_string()).unwrap_err(), BridgeError::ParseError);
}

#[test]
fn parse_collapses_extra_spaces() {
    let info = parse_cue_info("  Act1   12   House   Lights ".to_string()).unwrap();
    assert_eq!(info.sequence_name, "Act1");
    assert_eq!(info.number, "12");
    assert_eq!(info.name, "House Lights");
}

#[test]
fn pattern_matches_sequence_three() {
    assert_eq!(match_osc_pattern(FADER_BUTTON, "/14.14.1.6.3"), Some(true));
    assert_eq!(match_osc_pattern(FADER_BUTTON, "/14.14.1.7.3"), Some(false));
}

#[test]
fn pattern_rejects_invalid_inputs() {
    // an empty pattern is invalid, an empty address too
    assert_eq!(match_osc_pattern("", "/14.14.1.6.3"), None);
    assert_eq!(match_osc_pattern(FADER_BUTTON, "no slash"), None);
    assert!(osc_address_valid("/14.14.1.6.3"));
    assert!(!osc_address_valid("not an address"));
}

#[test]
fn sequence_id_extraction() {
    let seg = trailing_segment("/14.14.1.6.3");
    assert_eq!(seg, "3");
    assert_eq!(parse_i32(&seg), Some(3));
    assert_eq!(parse_i32("-17"), Some(-17));
    assert_eq!(parse_i32("+8"), Some(8));
    assert_eq!(parse_i32("abc"), None);
    assert_eq!(parse_i32(""), None);
    assert_eq!(parse_i32("2147483647"), Some(i32::MAX));
    assert_eq!(parse_i32("2147483648"), None);
    assert_eq!(parse_i32("-2147483648"), Some(i32::MIN));
    assert_eq!(parse_i32("-2147483649"), None);
    assert_eq!(parse_i32("00012"), Some(12));
}

#[test]
fn decimal_rendering() {
    assert_eq!(i32_to_string(0), "0");
    assert_eq!(i32_to_string(3), "3");
    assert_eq!(i32_to_string(-12), "-12");
    assert_eq!(i32_to_string(2147483647), "2147483647");
}

#[test]
fn register_cue_is_idempotent() {
    let mut sequence = Sequence::new(3);
    let info = parse_cue_info("Act1 12 House Lights".to_string()).unwrap();
    let first = sequence.register_cue(&info);
    assert_eq!(first.len(), 2);
    assert!(matches!(
        &first[0],
        Action::ProvisionCueTarget { sequence_id: 3, .. }
    ));
    assert!(matches!(&first[1], Action::RenameSequence { sequence_id: 3, .. }));
    assert_eq!(sequence.cues.len(), 1);
    assert_eq!(sequence.cues[0].number, "12");
    // the second registration returns no actions: no re-provisioning
    let second = sequence.register_cue(&info);
    assert_eq!(second.len(), 0);
    assert_eq!(sequence.cues.len(), 1);
}

#[test]
fn movement_requires_registration() {
    let mut sequence = Sequence::new(3);
    let info = parse_cue_info("Act1 12 House Lights".to_string()).unwrap();
    let err = sequence.go_plus(info).unwrap_err();
    assert_eq!(err, BridgeError::CueNotFound);
    assert_eq!(sequence.cues.len(), 0);
}

#[test]
fn movement_after_registration() {
    let mut sequence = Sequence::new(3);
    let info = parse_cue_info("Act1 12 House Lights".to_string()).unwrap();
    sequence.register_cue(&info);
    let info2 = parse_cue_info("Act1 12 House Lights".to_string()).unwrap();
    let actions = sequence.go_minus(info2).unwrap();
    assert_eq!(actions.len(), 2);
    match &actions[0] {
        Action::RenameCue { sequence_id, number, name } => {
            assert_eq!(*sequence_id, 3);
            assert_eq!(number, "12");
            assert_eq!(name, "House Lights");
        }
        other => panic!("unexpected action {:?}", action_kind(other)),
    }
    match &actions[1] {
        Action::TriggerMomentary { sequence_id, number, movement } => {
            assert_eq!(*sequence_id, 3);
            assert_eq!(number, "12");
            assert!(matches!(movement, Movement::GoMinus));
        }
        other => panic!("unexpected action {:?}", action_kind(other)),
    }
}

fn action_kind(a: &Action) -> &'static str {
    match a {
        Action::ProvisionSequenceTarget { .. } => "ProvisionSequenceTarget",
        Action::ProvisionCueTarget { .. } => "ProvisionCueTarget",
        Action::RenameSequence { .. } => "RenameSequence",
        Action::RenameCue { .. } => "RenameCue",
        Action::TriggerMomentary { .. } => "TriggerMomentary",
        Action::ProvisionFader { .. } => "ProvisionFader",
        Action::UpdateFaderLevel { .. } => "UpdateFaderLevel",
    }
}

#[test]
fn fader_keys_are_per_sequence() {
    let level = 0.5f32.to_bits();
    let args = vec![
        OscArg::Str("FaderA".to_string()),
        OscArg::Int(1),
        OscArg::Float(level),
    ];
    let mut one = Sequence::new(1);
    let mut two = Sequence::new(2);
    let f = "FaderA".to_string();
    let a1 = one.process_fader(&f, &args).unwrap();
    let a2 = two.process_fader(&f, &args).unwrap();
    assert_eq!(one.faders, vec!["1FaderA".to_string()]);
    assert_eq!(two.faders, vec!["2FaderA".to_string()]);
    assert!(matches!(&a1[0], Action::ProvisionFader { .. }));
    assert!(matches!(&a2[0], Action::ProvisionFader { .. }));
    // a repeated message updates the existing emitter instead of duplicating it
    let again = one.process_fader(&f, &args).unwrap();
    assert_eq!(one.faders.len(), 1);
    assert_eq!(again.len(), 1);
    match &again[0] {
        Action::UpdateFaderLevel { sequence_id, key, level_bits } => {
            assert_eq!(*sequence_id, 1);
            assert_eq!(key, "1FaderA");
            assert_eq!(*level_bits, level);
        }
        other => panic!("unexpected action {:?}", action_kind(other)),
    }
}

#[test]
fn fader_rejects_other_functions() {
    let mut sequence = Sequence::new(1);
    let args = vec![
        OscArg::Str("Go+".to_string()),
        OscArg::Int(1),
        OscArg::Float(0.5f32.to_bits()),
    ];
    let f = "Go+".to_string();
    assert_eq!(sequence.process_fader(&f, &args).unwrap_err(), BridgeError::ArgumentError);
    // a fader message without a float level is rejected too
    let bad = vec![OscArg::Str("FaderA".to_string()), OscArg::Int(1)];
    let f2 = "FaderA".to_string();
    assert_eq!(sequence.process_fader(&f2, &bad).unwrap_err(), BridgeError::ArgumentError);
    assert_eq!(sequence.faders.len(), 0);
}

#[test]
fn handle_cues_off_sends_nothing() {
    let mut sequence = Sequence::new(3);
    let f = "Off".to_string();
    let args = vec![
        OscArg::Str("Off".to_string()),
        OscArg::Int(0),
        OscArg::Str("Act1 12".to_string()),
    ];
    let steps = handle_cues(&f, &args, &mut sequence).unwrap();
    // registration only: no outbound console message
    assert_eq!(steps.len(), 2);
    assert!(steps.iter().all(|s| matches!(s, Step::Remote(_))));
    assert_eq!(sequence.cues.len(), 1);
}

#[test]
fn handle_cues_needs_slug() {
    let mut sequence = Sequence::new(3);
    let f = "Go+".to_string();
    let args = vec![OscArg::Str("Go+".to_string()), OscArg::Int(1)];
    assert_eq!(handle_cues(&f, &args, &mut sequence).unwrap_err(), BridgeError::ArgumentError);
    let bad_slug = vec![
        OscArg::Str("Go+".to_string()),
        OscArg::Int(1),
        OscArg::Str("Act1".to_string()),
    ];
    assert_eq!(
        handle_cues(&f, &bad_slug, &mut sequence).unwrap_err(),
        BridgeError::ParseError
    );
    assert_eq!(sequence.cues.len(), 0);
}

#[test]
fn end_to_end_go_plus() {
    let mut registry = SequenceRegistry::new();
    let message = Message {
        addr: "/14.14.1.6.3".to_string(),
        args: vec![
            OscArg::Str("Go+".to_string()),
            OscArg::Int(1),
            OscArg::Str("Act1 12 House Lights".to_string()),
        ],
    };
    let outcome = dispatch_message(&mut registry, FADER_BUTTON, &message);
    // a sequence with id 3 exists and knows cue 12
    assert_eq!(registry.sequences.len(), 1);
    assert_eq!(registry.sequences[0].id, 3);
    assert_eq!(registry.sequences[0].cues.len(), 1);
    assert_eq!(registry.sequences[0].cues[0].number, "12");
    let (steps, cue_error, fader_error) = match outcome {
        Disposition::Handled { steps, cue_error, fader_error } => (steps, cue_error, fader_error),
        _ => panic!("message should have been handled"),
    };
    assert_eq!(cue_error, None);
    // "Go+" is not a fader function, so the fader branch reports its error
    assert_eq!(fader_error, Some(BridgeError::ArgumentError));
    // provision sequence, provision cue, rename sequence, pulse pair, state,
    // rename cue, momentary
    assert_eq!(steps.len(), 8);
    assert!(matches!(
        &steps[0],
        Step::Remote(Action::ProvisionSequenceTarget { sequence_id: 3 })
    ));
    assert!(matches!(&steps[1], Step::Remote(Action::ProvisionCueTarget { .. })));
    assert!(matches!(&steps[2], Step::Remote(Action::RenameSequence { .. })));
    match &steps[3] {
        Step::Send(t) => {
            assert_eq!(t.delay_before_ms, 0);
            assert_eq!(t.message.addr, "/ma/seq/3/cue/12/Go+");
            assert_eq!(t.message.value, 1);
        }
        _ => panic!("expected the pulse-on send"),
    }
    match &steps[4] {
        Step::Send(t) => {
            assert_eq!(t.delay_before_ms, 50);
            assert_eq!(t.message.addr, "/ma/seq/3/cue/12/Go+");
            assert_eq!(t.message.value, 0);
        }
        _ => panic!("expected the pulse-off send"),
    }
    match &steps[5] {
        Step::Send(t) => {
            assert_eq!(t.delay_before_ms, 0);
            assert_eq!(t.message.addr, "/ma/seq/3/Go+");
            assert_eq!(t.message.value, 1);
        }
        _ => panic!("expected the sequence-state send"),
    }
    assert!(matches!(&steps[6], Step::Remote(Action::RenameCue { .. })));
    match &steps[7] {
        Step::Remote(Action::TriggerMomentary { sequence_id, number, movement }) => {
            assert_eq!(*sequence_id, 3);
            assert_eq!(number, "12");
            assert!(matches!(movement, Movement::GoPlus));
        }
        _ => panic!("expected the momentary trigger"),
    }
}

#[test]
fn dispatch_drops_unmatched_addresses() {
    let mut registry = SequenceRegistry::new();
    let message = Message { addr: "/14.14.1.7.3".to_string(), args: vec![] };
    let outcome = dispatch_message(&mut registry, FADER_BUTTON, &message);
    match outcome {
        Disposition::Skipped(reason) => {
            assert_eq!(reason, cue_bridge::dispatch::DropReason::Unmatched);
            assert_eq!(reason.error(), BridgeError::AddressError);
        }
        _ => panic!("expected the message to be dropped"),
    }
    assert_eq!(registry.sequences.len(), 0);
}

#[test]
fn dispatch_skips_bad_sequence_id() {
    let mut registry = SequenceRegistry::new();
    let message = Message { addr: "/14.14.1.6.x3".to_string(), args: vec![] };
    let outcome = dispatch_message(&mut registry, FADER_BUTTON, &message);
    assert!(matches!(
        outcome,
        Disposition::Skipped(cue_bridge::dispatch::DropReason::BadSequenceId)
    ));
    assert_eq!(registry.sequences.len(), 0);
}

#[test]
fn dispatch_without_string_function() {
    let mut registry = SequenceRegistry::new();
    let message = Message { addr: "/14.14.1.6.5".to_string(), args: vec![OscArg::Int(1)] };
    let outcome = dispatch_message(&mut registry, FADER_BUTTON, &message);
    // the sequence is still created
    assert_eq!(registry.sequences.len(), 1);
    assert_eq!(registry.sequences[0].id, 5);
    match outcome {
        Disposition::NoFunction { steps } => {
            assert_eq!(steps.len(), 1);
            assert!(matches!(
                &steps[0],
                Step::Remote(Action::ProvisionSequenceTarget { sequence_id: 5 })
            ));
        }
        _ => panic!("expected the no-function disposition"),
    }
}

#[test]
fn encode_and_decode_round_trip() {
    let out = OutMessage { addr: "/ma/seq/3/Go+".to_string(), value: 1 };
    let bytes = encode_out_message(&out);
    assert!(!bytes.is_empty());
    let packet = match decode_datagram(&bytes) {
        Ok(p) => p,
        Err(_) => panic!("bytes produced by encode must decode"),
    };
    let messages = extract_osc_messages(&packet);
    assert_eq!(messages.len(), 1);
    assert_eq!(messages[0].addr, "/ma/seq/3/Go+");
    assert_eq!(messages[0].args.len(), 1);
    assert!(matches!(messages[0].args[0], OscArg::Int(1)));
}

#[test]
fn decode_rejects_garbage() {
    assert!(matches!(
        decode_datagram(&[0x01, 0x02, 0x03]),
        Err(BridgeError::DecodeError)
    ));
}

#[test]
fn flatten_preserves_bundle_order() {
    let m = |addr: &str, v: i32| Packet::Message(Message {
        addr: addr.to_string(),
        args: vec![OscArg::Int(v)],
    });
    let packet = Packet::Bundle(vec![
        m("/a", 1),
        Packet::Bundle(vec![m("/b", 2), m("/c", 3)]),
        m("/d", 4),
    ]);
    let messages = extract_osc_messages(&packet);
    let addrs: Vec<&str> = messages.iter().map(|x| x.addr.as_str()).collect();
    assert_eq!(addrs, vec!["/a", "/b", "/c", "/d"]);
}

#[test]
fn decode_flattens_real_bundles() {
    // build a nested bundle with rosc itself and run it through the bridge
    let inner = rosc::OscPacket::Bundle(rosc::OscBundle {
        timetag: rosc::OscTime { seconds: 0, fractional: 1 },
        content: vec![rosc::OscPacket::Message(rosc::OscMessage {
            addr: "/14.14.1.6.3".to_string(),
            args: vec![rosc::OscType::String("Go+".to_string())],
        })],
    });
    let outer = rosc::OscPacket::Bundle(rosc::OscBundle {
        timetag: rosc::OscTime { seconds: 0, fractional: 1 },
        content: vec![
            rosc::OscPacket::Message(rosc::OscMessage {
                addr: "/first".to_string(),
                args: vec![rosc::OscType::Float(0.25)],
            }),
            inner,
        ],
    });
    let bytes = rosc::encoder::encode(&outer).unwrap();
    let packet = match decode_datagram(&bytes) {
        Ok(p) => p,
        Err(_) => panic!("a well-formed bundle decodes"),
    };
    let messages = extract_osc_messages(&packet);
    assert_eq!(messages.len(), 2);
    assert_eq!(messages[0].addr, "/first");
    assert!(matches!(messages[0].args[0], OscArg::Float(b) if b == 0.25f32.to_bits()));
    assert_eq!(messages[1].addr, "/14.14.1.6.3");
    assert!(matches!(&messages[1].args[0], OscArg::Str(s) if s == "Go+"));
}

#[test]
fn datagram_end_to_end() {
    // a real datagram built with rosc, carrying a Go+ press for sequence 3
    let packet = rosc::OscPacket::Message(rosc::OscMessage {
        addr: "/14.14.1.6.3".to_string(),
        args: vec![
            rosc::OscType::String("Go+".to_string()),
            rosc::OscType::Int(1),
            rosc::OscType::String("Act1 12 House Lights".to_string()),
        ],
    });
    let bytes = rosc::encoder::encode(&packet).unwrap();
    let mut registry = SequenceRegistry::new();
    let dispositions = handle_datagram(&mut registry, FADER_BUTTON, &bytes).unwrap();
    assert_eq!(dispositions.len(), 1);
    assert!(matches!(dispositions[0], Disposition::Handled { .. }));
    assert_eq!(registry.sequences.len(), 1);
    assert_eq!(registry.sequences[0].id, 3);
    assert_eq!(registry.sequences[0].cues[0].number, "12");
    // malformed bytes report a decode error and change nothing
    assert!(matches!(
        handle_datagram(&mut registry, FADER_BUTTON, &[1, 2, 3]),
        Err(BridgeError::DecodeError)
    ));
    assert_eq!(registry.sequences.len(), 1);
}

#[test]
fn into_result_reports_missing_values() {
    let some: Option<u32> = Some(7);
    assert_eq!(some.into_result(), Ok(7));
    let none: Option<u32> = None;
    assert_eq!(none.into_result(), Err(BridgeError::ArgumentError));
}
