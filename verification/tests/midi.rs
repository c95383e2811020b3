use lightspeed::midi::{
    choose_launchpad_port, command_messages, launchpad_present, parse_midi_input, service_step,
    MidiCommand, MidiEvent, ServiceAction, ServiceInput, HEARTBEAT, PROGRAMMER_MODE_SYSEX,
};

#[test]
fn note_on_and_control_change_are_decoded() {
    assert_eq!(parse_midi_input(&[0x90, 11, 127]), Some(MidiEvent::NoteOn { note: 11, velocity: 127 }));
    // Any channel.
    assert_eq!(parse_midi_input(&[0x93, 81, 5]), Some(MidiEvent::NoteOn { note: 81, velocity: 5 }));
    assert_eq!(
        parse_midi_input(&[0xB0, 104, 127]),
        Some(MidiEvent::ControlChange { controller: 104, value: 127 })
    );
}

#[test]
fn releases_and_other_messages_are_ignored() {
    assert_eq!(parse_midi_input(&[0x90, 11, 0]), None);
    assert_eq!(parse_midi_input(&[0xB0, 104, 0]), None);
    assert_eq!(parse_midi_input(&[0x80, 11, 64]), None);
    assert_eq!(parse_midi_input(&[0x90, 11]), None);
    assert_eq!(parse_midi_input(&[]), None);
    assert_eq!(parse_midi_input(&[0xF0, 0x00, 0x20, 0x29]), None);
}

#[test]
fn colour_commands_encode_as_messages() {
    let pad: MidiCommand<()> = MidiCommand::SetPadColor { note: 11, color: 5 };
    assert_eq!(command_messages(&pad), vec![[0x90, 11, 5]]);
    let button: MidiCommand<()> = MidiCommand::SetButtonColor { cc: 104, color: 21 };
    assert_eq!(command_messages(&button), vec![[0xB0, 104, 21]]);
    let none: MidiCommand<()> = MidiCommand::Disconnect;
    assert!(command_messages(&none).is_empty());
}

#[test]
fn clear_all_turns_every_pad_and_button_off() {
    let clear: MidiCommand<()> = MidiCommand::ClearAll;
    let messages = command_messages(&clear);
    assert_eq!(messages.len(), 254);
    assert_eq!(messages[0], [0x90, 0, 0]);
    assert_eq!(messages[1], [0xB0, 0, 0]);
    assert_eq!(messages[252], [0x90, 126, 0]);
    assert_eq!(messages[253], [0xB0, 126, 0]);
}

#[test]
fn protocol_constants() {
    assert_eq!(PROGRAMMER_MODE_SYSEX, [0xF0, 0x00, 0x20, 0x29, 0x02, 0x0D, 0x0E, 0x01, 0xF7]);
    assert_eq!(HEARTBEAT, [0x80, 0, 0]);
}

#[test]
fn idle_service_only_answers_connect() {
    match service_step(false, ServiceInput::Command(MidiCommand::Connect(7u32))) {
        ServiceAction::Connect(p) => assert_eq!(p, 7),
        _ => panic!("expected a connection"),
    }
    assert!(matches!(
        service_step::<u32>(false, ServiceInput::Command(MidiCommand::ClearAll)),
        ServiceAction::Ignore
    ));
    assert!(matches!(service_step::<u32>(false, ServiceInput::Timeout), ServiceAction::Ignore));
    assert!(matches!(service_step::<u32>(false, ServiceInput::ChannelClosed), ServiceAction::Exit));
}

#[test]
fn connected_service_forwards_and_beats() {
    match service_step::<u32>(true, ServiceInput::Command(MidiCommand::SetPadColor { note: 12, color: 3 })) {
        ServiceAction::Send(m) => assert_eq!(m, vec![[0x90, 12, 3]]),
        _ => panic!("expected messages"),
    }
    match service_step::<u32>(true, ServiceInput::Timeout) {
        ServiceAction::Send(m) => assert_eq!(m, vec![HEARTBEAT]),
        _ => panic!("expected a heartbeat"),
    }
    assert!(matches!(
        service_step(true, ServiceInput::Command(MidiCommand::Connect(1u32))),
        ServiceAction::Ignore
    ));
    assert!(matches!(
        service_step::<u32>(true, ServiceInput::Command(MidiCommand::Disconnect)),
        ServiceAction::Disconnect
    ));
    assert!(matches!(service_step::<u32>(true, ServiceInput::ChannelClosed), ServiceAction::Disconnect));
}

fn names(list: &[Option<&str>]) -> Vec<Option<String>> {
    list.iter().map(|n| n.map(|s| s.to_string())).collect()
}

#[test]
fn prefers_the_launchpad_midi_port() {
    let ports = names(&[
        Some("Midi Through"),
        Some("Launchpad Mini MK3 LPMiniMK3 DAW"),
        Some("Launchpad Mini MK3 LPMiniMK3 MIDI"),
    ]);
    assert_eq!(choose_launchpad_port(&ports), Some(2));
}

#[test]
fn falls_back_to_non_daw_then_any_launchpad_port() {
    let ports = names(&[Some("Launchpad X DAW"), Some("Launchpad X Out"), None]);
    assert_eq!(choose_launchpad_port(&ports), Some(1));
    let ports = names(&[None, Some("Keyboard"), Some("Launchpad DAW")]);
    assert_eq!(choose_launchpad_port(&ports), Some(2));
    let ports = names(&[None, Some("Keyboard"), Some("launchpad")]);
    assert_eq!(choose_launchpad_port(&ports), None);
    assert_eq!(choose_launchpad_port(&Vec::new()), None);
}

#[test]
fn watchdog_sees_any_launchpad_port() {
    assert!(launchpad_present(&names(&[Some("x"), Some("Launchpad Pro")])));
    assert!(!launchpad_present(&names(&[Some("x"), None])));
}
