use lightspeed::midi::{MidiCommand, MidiEvent};
use lightspeed::pads::{
    board_refresh_commands, filter_shows, grid_notes, label_needs_dark_text, pad_note, pad_owner,
    pad_taken_by_other, reassign_pad, recolor_pad, release_pad_command, scene_for_event, LinkCheck,
    MidiFilter, MidiLink, PadBinding,
};

fn bind(scene_id: u64, button: Option<u8>, is_cc: bool, color: Option<u8>) -> PadBinding {
    PadBinding { scene_id, button, is_cc, color }
}

fn same<P>(a: &MidiCommand<P>, b: &MidiCommand<P>) -> bool {
    match (a, b) {
        (MidiCommand::ClearAll, MidiCommand::ClearAll) => true,
        (MidiCommand::Disconnect, MidiCommand::Disconnect) => true,
        (MidiCommand::SetPadColor { note: n1, color: c1 }, MidiCommand::SetPadColor { note: n2, color: c2 }) => {
            n1 == n2 && c1 == c2
        }
        (MidiCommand::SetButtonColor { cc: n1, color: c1 }, MidiCommand::SetButtonColor { cc: n2, color: c2 }) => {
            n1 == n2 && c1 == c2
        }
        _ => false,
    }
}

#[test]
fn press_selects_first_bound_scene() {
    let scenes = vec![
        bind(10, Some(11), false, None),
        bind(20, Some(11), true, None),
        bind(30, Some(11), false, None),
    ];
    assert_eq!(scene_for_event(&scenes, &MidiEvent::NoteOn { note: 11, velocity: 100 }), Some(10));
    assert_eq!(scene_for_event(&scenes, &MidiEvent::ControlChange { controller: 11, value: 1 }), Some(20));
    assert_eq!(scene_for_event(&scenes, &MidiEvent::NoteOn { note: 12, velocity: 100 }), None);
    assert_eq!(scene_for_event(&scenes, &MidiEvent::Connected), None);
}

#[test]
fn board_refresh_clears_then_lights() {
    let scenes = vec![
        bind(1, Some(11), false, Some(5)),
        bind(2, Some(12), false, None),
        bind(3, Some(104), true, Some(21)),
        bind(4, None, false, Some(9)),
    ];
    let cmds: Vec<MidiCommand<()>> = board_refresh_commands(&scenes);
    assert_eq!(cmds.len(), 3);
    assert!(same(&cmds[0], &MidiCommand::ClearAll));
    assert!(same(&cmds[1], &MidiCommand::SetPadColor { note: 11, color: 5 }));
    assert!(same(&cmds[2], &MidiCommand::SetButtonColor { cc: 104, color: 21 }));
}

#[test]
fn grid_note_numbers() {
    assert_eq!(pad_note(0, 0), 81);
    assert_eq!(pad_note(7, 7), 18);
    let notes = grid_notes();
    assert_eq!(notes.len(), 64);
    assert_eq!(notes[0], 81);
    assert_eq!(notes[7], 88);
    assert_eq!(notes[56], 11);
    assert_eq!(notes[63], 18);
}

#[test]
fn pad_ownership_is_the_last_binding() {
    let scenes = vec![bind(1, Some(11), false, None), bind(2, Some(11), false, None), bind(3, Some(0), false, None)];
    assert_eq!(pad_owner(&scenes, false, 11), Some(1));
    assert_eq!(pad_owner(&scenes, true, 11), None);
    assert_eq!(pad_owner(&scenes, false, 0), None);
    assert!(pad_taken_by_other(&scenes, 11, 1));
    assert!(!pad_taken_by_other(&scenes, 11, 2));
    assert!(!pad_taken_by_other(&scenes, 12, 1));
}

#[test]
fn reassigning_a_pad_moves_its_light() {
    let mut b = bind(1, Some(11), false, Some(5));
    let cmds: Vec<MidiCommand<()>> = reassign_pad(&mut b, 12);
    assert_eq!(b.button, Some(12));
    assert_eq!(cmds.len(), 2);
    assert!(same(&cmds[0], &MidiCommand::SetPadColor { note: 11, color: 0 }));
    assert!(same(&cmds[1], &MidiCommand::SetPadColor { note: 12, color: 5 }));

    let cmds: Vec<MidiCommand<()>> = reassign_pad(&mut b, 12);
    assert!(cmds.is_empty());
    assert_eq!(b.button, Some(12));

    let cmds: Vec<MidiCommand<()>> = reassign_pad(&mut b, 0);
    assert_eq!(b.button, None);
    assert_eq!(cmds.len(), 1);
    assert!(same(&cmds[0], &MidiCommand::SetPadColor { note: 12, color: 0 }));

    let mut unlit = bind(2, None, false, None);
    let cmds: Vec<MidiCommand<()>> = reassign_pad(&mut unlit, 33);
    assert!(cmds.is_empty());
    assert_eq!(unlit.button, Some(33));
}

#[test]
fn recolouring_lights_the_pad() {
    let mut b = bind(1, Some(11), false, None);
    let cmd: Option<MidiCommand<()>> = recolor_pad(&mut b, 9);
    assert_eq!(b.color, Some(9));
    assert!(same(&cmd.unwrap(), &MidiCommand::SetPadColor { note: 11, color: 9 }));
    let mut unbound = bind(2, None, false, None);
    let cmd: Option<MidiCommand<()>> = recolor_pad(&mut unbound, 9);
    assert!(cmd.is_none());
    assert_eq!(unbound.color, Some(9));
}

#[test]
fn deleting_a_scene_switches_its_pad_off() {
    let cmd: Option<MidiCommand<()>> = release_pad_command(&bind(1, Some(11), false, Some(5)));
    assert!(same(&cmd.unwrap(), &MidiCommand::SetPadColor { note: 11, color: 0 }));
    let cmd: Option<MidiCommand<()>> = release_pad_command(&bind(1, Some(104), true, None));
    assert!(same(&cmd.unwrap(), &MidiCommand::SetButtonColor { cc: 104, color: 0 }));
    let cmd: Option<MidiCommand<()>> = release_pad_command(&bind(1, Some(0), false, None));
    assert!(cmd.is_none());
    let cmd: Option<MidiCommand<()>> = release_pad_command(&bind(1, None, false, None));
    assert!(cmd.is_none());
}

#[test]
fn midi_filter() {
    let linked = bind(1, Some(11), false, None);
    let free = bind(2, None, false, None);
    assert_eq!(MidiFilter::default(), MidiFilter::All);
    assert!(filter_shows(MidiFilter::All, &linked) && filter_shows(MidiFilter::All, &free));
    assert!(filter_shows(MidiFilter::Linked, &linked) && !filter_shows(MidiFilter::Linked, &free));
    assert!(!filter_shows(MidiFilter::NotLinked, &linked) && filter_shows(MidiFilter::NotLinked, &free));
}

#[test]
fn label_contrast() {
    assert!(label_needs_dark_text((252, 252, 252)));
    assert!(!label_needs_dark_text((128, 128, 128)));
    assert!(label_needs_dark_text((128, 128, 129)));
}

const S: u64 = 1_000_000_000;

#[test]
fn link_detects_then_watches() {
    let mut link = MidiLink::new();
    assert_eq!(link.poll(true, 0), LinkCheck::Detect);
    assert_eq!(link.last_check, Some(0));
    // Within two seconds of the last check: nothing.
    assert_eq!(link.poll(true, S), LinkCheck::Wait);
    assert_eq!(link.poll(true, 2 * S), LinkCheck::Wait);
    assert_eq!(link.poll(true, 2 * S + 1), LinkCheck::Detect);
    link.on_detected();
    assert!(link.connected);
    assert_eq!(link.poll(true, 5 * S), LinkCheck::Watchdog);
    assert!(!link.on_watchdog(true));
    assert!(link.connected);
    assert_eq!(link.poll(true, 8 * S), LinkCheck::Watchdog);
    assert!(link.on_watchdog(false));
    assert!(!link.connected);
}

#[test]
fn disabling_midi_disconnects() {
    let mut link = MidiLink { connected: true, last_check: Some(0) };
    assert_eq!(link.poll(false, S), LinkCheck::Disconnect);
    assert!(!link.connected);
    assert_eq!(link.poll(false, 2 * S), LinkCheck::Wait);
}

#[test]
fn service_events_update_the_link() {
    let scenes = vec![bind(7, Some(11), false, Some(5))];
    let mut link = MidiLink::new();
    let r = link.on_event::<()>(&MidiEvent::Connected, &scenes, 10);
    assert!(link.connected);
    assert_eq!(r.selected, None);
    assert_eq!(r.commands.len(), 2);
    assert!(same(&r.commands[0], &MidiCommand::ClearAll));
    let r = link.on_event::<()>(&MidiEvent::NoteOn { note: 11, velocity: 90 }, &scenes, 20);
    assert_eq!(r.selected, Some(7));
    assert!(r.commands.is_empty());
    let r = link.on_event::<()>(&MidiEvent::Disconnected, &scenes, 30);
    assert!(!link.connected);
    assert_eq!(link.last_check, Some(30));
    assert!(r.commands.is_empty());
}
