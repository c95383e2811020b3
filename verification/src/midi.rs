//! The Launchpad MIDI protocol as the controller speaks it: decoding pad and
//! button presses, encoding colour commands, the decisions of the background
//! MIDI service, and the choice of the Launchpad's ports by name.
use vstd::prelude::*;
use crate::text::{seq_contains, text_contains};

verus! {

/// Something that happened on the MIDI side.
#[derive(Clone, Copy, Debug, PartialEq, Eq, Structural)]
pub enum MidiEvent {
    NoteOn { note: u8, velocity: u8 },
    ControlChange { controller: u8, value: u8 },
    Connected,
    Disconnected,
}

/// A request to the MIDI service. `P` is what a connection is made from.
pub enum MidiCommand<P> {
    SetPadColor { note: u8, color: u8 },
    SetButtonColor { cc: u8, color: u8 },
    ClearAll,
    Connect(P),
    Disconnect,
}

/// SysEx that switches a Launchpad Mini MK3 into programmer mode.
pub const PROGRAMMER_MODE_SYSEX: [u8; 9] = [0xF0, 0x00, 0x20, 0x29, 0x02, 0x0D, 0x0E, 0x01, 0xF7];

/// Note Off on channel 1, note 0: sent when the service has been idle for a
/// second, to find out whether the device is still there.
pub const HEARTBEAT: [u8; 3] = [0x80, 0, 0];

/// Highest note and controller number that `ClearAll` turns off, plus one.
pub const CLEARED_CONTROLS: u8 = 127;

/// The event an incoming MIDI message stands for: a Note On or Control Change
/// (on any channel) with a non-zero velocity or value; anything else, or a
/// message shorter than three bytes, stands for none.
pub open spec fn spec_midi_input(message: Seq<u8>) -> Option<MidiEvent> {
    if message.len() < 3 {
        None
    } else if message[0] & 0xF0u8 == 0x90u8 && message[2] > 0 {
        Some(MidiEvent::NoteOn { note: message[1], velocity: message[2] })
    } else if message[0] & 0xF0u8 == 0xB0u8 && message[2] > 0 {
        Some(MidiEvent::ControlChange { controller: message[1], value: message[2] })
    } else {
        None
    }
}

/// Decodes an incoming MIDI message from the Launchpad.
pub fn parse_midi_input(message: &[u8]) -> (event: Option<MidiEvent>)
    ensures
        event == spec_midi_input(message@),
{
    if message.len() < 3 {
        return None;
    }
    let status = message[0] & 0xF0;
    if status == 0x90 && message[2] > 0 {
        Some(MidiEvent::NoteOn { note: message[1], velocity: message[2] })
    } else if status == 0xB0 && message[2] > 0 {
        Some(MidiEvent::ControlChange { controller: message[1], value: message[2] })
    } else {
        None
    }
}

/// The three-byte messages sent for `ClearAll`: for every number below 127,
/// a pad-off (Note On, velocity 0) followed by a button-off (Control Change,
/// value 0).
pub open spec fn clear_all_messages() -> Seq<[u8; 3]> {
    Seq::new(
        254,
        |k: int|
            if k % 2 == 0 {
                [0x90u8, (k / 2) as u8, 0u8]
            } else {
                [0xB0u8, (k / 2) as u8, 0u8]
            },
    )
}

/// The messages a connected service sends for a command; `Connect` and
/// `Disconnect` send nothing.
pub open spec fn spec_command_messages<P>(command: MidiCommand<P>) -> Seq<[u8; 3]> {
    match command {
        MidiCommand::SetPadColor { note, color } => seq![[0x90u8, note, color]],
        MidiCommand::SetButtonColor { cc, color } => seq![[0xB0u8, cc, color]],
        MidiCommand::ClearAll => clear_all_messages(),
        MidiCommand::Connect(_) => Seq::empty(),
        MidiCommand::Disconnect => Seq::empty(),
    }
}

/// Encodes a command as the MIDI messages to send.
pub fn command_messages<P>(command: &MidiCommand<P>) -> (messages: Vec<[u8; 3]>)
    ensures
        messages@ == spec_command_messages(*command),
{
    let mut messages: Vec<[u8; 3]> = Vec::new();
    match command {
        MidiCommand::SetPadColor { note, color } => {
            messages.push([0x90, *note, *color]);
        },
        MidiCommand::SetButtonColor { cc, color } => {
            messages.push([0xB0, *cc, *color]);
        },
        MidiCommand::ClearAll => {
            let mut i: u8 = 0;
            while i < CLEARED_CONTROLS
                invariant
                    i <= CLEARED_CONTROLS,
                    messages@.len() == 2 * i,
                    forall|k: int|
                        0 <= k < messages@.len() ==> #[trigger] messages@[k]
                            == clear_all_messages()[k],
                decreases CLEARED_CONTROLS - i,
            {
                messages.push([0x90, i, 0]);
                messages.push([0xB0, i, 0]);
                i = i + 1;
            }
            assert(messages@ =~= clear_all_messages());
        },
        MidiCommand::Connect(_) => {},
        MidiCommand::Disconnect => {},
    }
    messages
}

/// What reaches the MIDI service while it waits.
pub enum ServiceInput<P> {
    Command(MidiCommand<P>),
    /// A second passed without a command (only while connected).
    Timeout,
    /// Every sender of commands is gone.
    ChannelClosed,
}

/// What the MIDI service does next.
pub enum ServiceAction<P> {
    /// Nothing; keep waiting.
    Ignore,
    /// Open a connection from this payload, enter programmer mode, report
    /// `Connected`.
    Connect(P),
    /// Send these messages on the open connection.
    Send(Vec<[u8; 3]>),
    /// Close the connection and wait for the next `Connect`.
    Disconnect,
    /// Stop the service.
    Exit,
}

/// A command that sets or clears colours on the board.
pub open spec fn is_colour_command<P>(command: MidiCommand<P>) -> bool {
    command is SetPadColor || command is SetButtonColor || command is ClearAll
}

/// `messages` include the message of kind `status` (Note On or Control
/// Change) that sets number `n` to 0.
pub open spec fn switches_off(messages: Seq<[u8; 3]>, status: u8, n: u8) -> bool {
    messages.contains([status, n, 0u8])
}

/// `messages` switch off every pad and every button numbered below 127, one
/// Note On and one Control Change of value 0 for each, and nothing else.
pub open spec fn board_goes_dark(messages: Seq<[u8; 3]>) -> bool {
    &&& messages.len() == 254
    &&& forall|n: u8| n < 127 ==> #[trigger] switches_off(messages, 0x90, n)
    &&& forall|n: u8| n < 127 ==> #[trigger] switches_off(messages, 0xB0, n)
    &&& forall|k: int|
        0 <= k < messages.len() ==> (#[trigger] messages[k])[2] == 0 && messages[k][1] < 127 && (
        messages[k][0] == 0x90 || messages[k][0] == 0xB0)
}

/// The service's decision for `input`, as a relation on its result.
pub open spec fn service_step_spec<P>(connected: bool, input: ServiceInput<P>, action: ServiceAction<P>) -> bool {
    match input {
        ServiceInput::Command(command) => if !connected {
            match command {
                MidiCommand::Connect(p) => action == ServiceAction::Connect(p),
                _ => action is Ignore,
            }
        } else {
            match command {
                MidiCommand::Connect(_) => action is Ignore,
                MidiCommand::Disconnect => action is Disconnect,
                _ => action matches ServiceAction::Send(messages) && messages@ == spec_command_messages(
                    command,
                ),
            }
        },
        ServiceInput::Timeout => if connected {
            action matches ServiceAction::Send(messages) && messages@ == seq![HEARTBEAT]
        } else {
            action is Ignore
        },
        ServiceInput::ChannelClosed => if connected {
            action is Disconnect
        } else {
            action is Exit
        },
    }
}

/// Decides what the MIDI service does with what it received. While
/// disconnected it only answers `Connect`; while connected it forwards colour
/// commands, ignores a second `Connect`, sends a heartbeat after a quiet
/// second, and leaves the connection on `Disconnect` or when the channel
/// closes; a closed channel while disconnected ends the service.
pub fn service_step<P>(connected: bool, input: ServiceInput<P>) -> (action: ServiceAction<P>)
    ensures
        service_step_spec(connected, input, action),
        connected && input is Command && is_colour_command(input->Command_0) ==> action is Send
            && action->Send_0@ == spec_command_messages(input->Command_0),
        connected && input is Command && input->Command_0 is ClearAll ==> action is Send && board_goes_dark(
            action->Send_0@,
        ),
{
    match input {
        ServiceInput::Command(command) => {
            proof {
                lemma_clear_all_darkens_board::<P>();
            }
            if !connected {
                match command {
                    MidiCommand::Connect(p) => ServiceAction::Connect(p),
                    _ => ServiceAction::Ignore,
                }
            } else {
                match command {
                    MidiCommand::Connect(_) => ServiceAction::Ignore,
                    MidiCommand::Disconnect => ServiceAction::Disconnect,
                    _ => ServiceAction::Send(command_messages(&command)),
                }
            }
        },
        ServiceInput::Timeout => {
            if connected {
                let mut messages: Vec<[u8; 3]> = Vec::new();
                messages.push(HEARTBEAT);
                ServiceAction::Send(messages)
            } else {
                ServiceAction::Ignore
            }
        },
        ServiceInput::ChannelClosed => {
            if connected {
                ServiceAction::Disconnect
            } else {
                ServiceAction::Exit
            }
        },
    }
}

/// `ClearAll` switches the whole board off: it is sent as 254 messages, a
/// pad-off and a button-off for every number below 127.
pub proof fn lemma_clear_all_darkens_board<P>()
    ensures
        board_goes_dark(spec_command_messages(MidiCommand::<P>::ClearAll)),
{
    let m = spec_command_messages(MidiCommand::<P>::ClearAll);
    assert forall|n: u8| n < 127 implies #[trigger] switches_off(m, 0x90, n) by {
        assert(m[2 * n] == [0x90u8, n, 0u8]);
    }
    assert forall|n: u8| n < 127 implies #[trigger] switches_off(m, 0xB0, n) by {
        assert(m[2 * n + 1] == [0xB0u8, n, 0u8]);
    }
}

/// While connected, the service answers every colour command by sending
/// exactly that command's messages, and never ignores one.
pub proof fn lemma_connected_service_forwards_colours<P>(command: MidiCommand<P>, action: ServiceAction<P>)
    requires
        is_colour_command(command),
        service_step_spec(true, ServiceInput::Command(command), action),
    ensures
        action is Send,
        action->Send_0@ == spec_command_messages(command),
        command is ClearAll ==> board_goes_dark(action->Send_0@),
        command is SetPadColor ==> action->Send_0@ == seq![[0x90u8, command->note, command->SetPadColor_color]],
        command is SetButtonColor ==> action->Send_0@ == seq![[0xB0u8, command->cc, command->SetButtonColor_color]],
{
    lemma_clear_all_darkens_board::<P>();
}

/// The port's name mentions a Launchpad.
pub open spec fn names_launchpad(name: Seq<char>) -> bool {
    seq_contains(name, "Launchpad"@)
}

/// How well a port name fits, by preference: 0, a Launchpad's MIDI port;
/// 1, a Launchpad port that is not its DAW port; 2, any Launchpad port.
pub open spec fn port_fits(name: Option<String>, preference: int) -> bool {
    match name {
        None => false,
        Some(n) => names_launchpad(n@) && if preference == 0 {
            seq_contains(n@, "MIDI"@) || seq_contains(n@, "LPMiniMK3 MIDI"@)
        } else if preference == 1 {
            !seq_contains(n@, "DAW"@)
        } else {
            true
        },
    }
}

/// Some port fits at this preference.
pub open spec fn some_port_fits(names: Seq<Option<String>>, preference: int) -> bool {
    exists|j: int| 0 <= j < names.len() && port_fits(#[trigger] names[j], preference)
}

/// Port `i` is the first that fits at this preference.
pub open spec fn first_fitting_port(names: Seq<Option<String>>, preference: int, i: int) -> bool {
    &&& 0 <= i < names.len()
    &&& port_fits(names[i], preference)
    &&& forall|j: int| 0 <= j < i ==> !port_fits(#[trigger] names[j], preference)
}

/// The port chosen among ports named `names` (`None` where a name could not be
/// read): the first port of the best preference that any port fits.
pub open spec fn is_chosen_port(names: Seq<Option<String>>, i: int) -> bool {
    ||| first_fitting_port(names, 0, i)
    ||| !some_port_fits(names, 0) && first_fitting_port(names, 1, i)
    ||| !some_port_fits(names, 0) && !some_port_fits(names, 1) && first_fitting_port(names, 2, i)
}

fn name_fits(name: &Option<String>, preference: u8) -> (fits: bool)
    requires
        preference <= 2,
    ensures
        fits == port_fits(*name, preference as int),
{
    match name {
        None => false,
        Some(n) => {
            let s = n.as_str();
            if !text_contains(s, "Launchpad") {
                false
            } else if preference == 0 {
                text_contains(s, "MIDI") || text_contains(s, "LPMiniMK3 MIDI")
            } else if preference == 1 {
                !text_contains(s, "DAW")
            } else {
                true
            }
        },
    }
}

fn first_port_fitting(names: &Vec<Option<String>>, preference: u8) -> (found: Option<usize>)
    requires
        preference <= 2,
    ensures
        found matches Some(i) ==> first_fitting_port(names@, preference as int, i as int),
        found is None ==> !some_port_fits(names@, preference as int),
{
    let mut i: usize = 0;
    while i < names.len()
        invariant
            i <= names@.len(),
            preference <= 2,
            forall|j: int| 0 <= j < i ==> !port_fits(#[trigger] names@[j], preference as int),
        decreases names@.len() - i,
    {
        if name_fits(&names[i], preference) {
            return Some(i);
        }
        i = i + 1;
    }
    None
}

/// Chooses the Launchpad's port among the ports named `names` (`None` where a
/// name could not be read): the first Launchpad MIDI port, else the first
/// Launchpad port other than its DAW port, else the first Launchpad port.
pub fn choose_launchpad_port(names: &Vec<Option<String>>) -> (chosen: Option<usize>)
    ensures
        chosen matches Some(i) ==> is_chosen_port(names@, i as int),
        chosen is None <==> !some_port_fits(names@, 2),
{
    let first = first_port_fitting(names, 0);
    if first.is_some() {
        return first;
    }
    let second = first_port_fitting(names, 1);
    if second.is_some() {
        return second;
    }
    let third = first_port_fitting(names, 2);
    proof {
        if third is None {
            assert forall|j: int| 0 <= j < names@.len() implies !port_fits(#[trigger] names@[j], 2) by {
                assert(!port_fits(names@[j], 2));
            }
        }
    }
    third
}

/// Whether any of the ports named `names` is a Launchpad's (the watchdog's
/// test that the device is still plugged in).
pub fn launchpad_present(names: &Vec<Option<String>>) -> (present: bool)
    ensures
        present == some_port_fits(names@, 2),
{
    first_port_fitting(names, 2).is_some()
}

} // verus!
