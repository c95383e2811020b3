//! Scenes bound to Launchpad pads and buttons: which scene a press selects,
//! the colour commands that keep the board in step with the scenes, pad
//! reassignment, and the controller's side of the MIDI connection (detection,
//! watchdog, reaction to service events).
use vstd::prelude::*;
use crate::midi::{MidiCommand, MidiEvent};
use crate::tempo::elapsed;

verus! {

/// What the pad logic reads of a scene.
#[derive(Clone, Copy, Debug, PartialEq, Eq, Structural)]
pub struct PadBinding {
    pub scene_id: u64,
    /// Note (pad) or controller (button) number the scene is bound to.
    pub button: Option<u8>,
    /// The binding is a Control Change button rather than a note pad.
    pub is_cc: bool,
    /// Launchpad palette code the pad is lit with.
    pub color: Option<u8>,
}

/// `b` answers to the event `note`/`is_cc`.
pub open spec fn binding_answers(b: PadBinding, is_cc: bool, number: u8) -> bool {
    b.is_cc == is_cc && b.button == Some(number)
}

/// The kind and number of the pad or button a press event names.
pub open spec fn pressed_control(event: MidiEvent) -> Option<(bool, u8)> {
    match event {
        MidiEvent::NoteOn { note, .. } => Some((false, note)),
        MidiEvent::ControlChange { controller, .. } => Some((true, controller)),
        _ => None,
    }
}

/// Binding `i` is the first that answers to this pad or button.
pub open spec fn first_answering(bindings: Seq<PadBinding>, is_cc: bool, number: u8, i: int) -> bool {
    &&& 0 <= i < bindings.len()
    &&& binding_answers(bindings[i], is_cc, number)
    &&& forall|j: int| 0 <= j < i ==> !binding_answers(#[trigger] bindings[j], is_cc, number)
}

/// The scene a MIDI event selects: the first scene bound to the pressed pad
/// (Note On) or button (Control Change); other events select none.
pub open spec fn selected_by(bindings: Seq<PadBinding>, event: MidiEvent, scene: Option<u64>) -> bool {
    match pressed_control(event) {
        None => scene is None,
        Some((is_cc, number)) => match scene {
            Some(id) => exists|i: int|
                first_answering(bindings, is_cc, number, i) && #[trigger] bindings[i].scene_id == id,
            None => forall|j: int|
                0 <= j < bindings.len() ==> !binding_answers(#[trigger] bindings[j], is_cc, number),
        },
    }
}

/// The scene that a MIDI event selects, if any.
pub fn scene_for_event(bindings: &Vec<PadBinding>, event: &MidiEvent) -> (scene: Option<u64>)
    ensures
        selected_by(bindings@, *event, scene),
{
    let (is_cc, number) = match event {
        MidiEvent::NoteOn { note, .. } => (false, *note),
        MidiEvent::ControlChange { controller, .. } => (true, *controller),
        _ => {
            return None;
        },
    };
    assert(pressed_control(*event) == Some((is_cc, number)));
    let mut i: usize = 0;
    while i < bindings.len()
        invariant
            i <= bindings@.len(),
            pressed_control(*event) == Some((is_cc, number)),
            forall|j: int| 0 <= j < i ==> !binding_answers(#[trigger] bindings@[j], is_cc, number),
        decreases bindings@.len() - i,
    {
        let b = bindings[i];
        if b.is_cc == is_cc && b.button == Some(number) {
            assert(binding_answers(bindings@[i as int], is_cc, number));
            assert(first_answering(bindings@, is_cc, number, i as int));
            assert(bindings@[i as int].scene_id == b.scene_id);
            return Some(b.scene_id);
        }
        i = i + 1;
    }
    None
}

/// The command that lights a binding's pad or button in its colour, when it
/// has both.
pub open spec fn color_command<P>(b: PadBinding) -> Option<MidiCommand<P>> {
    match (b.button, b.color) {
        (Some(button), Some(color)) => if b.is_cc {
            Some(MidiCommand::SetButtonColor { cc: button, color })
        } else {
            Some(MidiCommand::SetPadColor { note: button, color })
        },
        _ => None,
    }
}

/// The colour commands of the bindings, in order.
pub open spec fn color_commands<P>(bindings: Seq<PadBinding>) -> Seq<MidiCommand<P>>
    decreases bindings.len(),
{
    if bindings.len() == 0 {
        Seq::empty()
    } else {
        let earlier = color_commands(bindings.drop_last());
        match color_command::<P>(bindings.last()) {
            Some(c) => earlier.push(c),
            None => earlier,
        }
    }
}

fn color_command_exec<P>(b: &PadBinding) -> (c: Option<MidiCommand<P>>)
    ensures
        c == color_command::<P>(*b),
{
    match (b.button, b.color) {
        (Some(button), Some(color)) => {
            if b.is_cc {
                Some(MidiCommand::SetButtonColor { cc: button, color })
            } else {
                Some(MidiCommand::SetPadColor { note: button, color })
            }
        },
        _ => None,
    }
}

/// Commands that repaint the board: clear everything, then light every bound
/// and coloured scene's pad or button, in scene order.
pub fn board_refresh_commands<P>(bindings: &Vec<PadBinding>) -> (commands: Vec<MidiCommand<P>>)
    ensures
        commands@ == seq![MidiCommand::<P>::ClearAll] + color_commands::<P>(bindings@),
{
    let mut commands: Vec<MidiCommand<P>> = Vec::new();
    commands.push(MidiCommand::ClearAll);
    let mut i: usize = 0;
    while i < bindings.len()
        invariant
            i <= bindings@.len(),
            commands@ == seq![MidiCommand::<P>::ClearAll] + color_commands::<P>(
                bindings@.take(i as int),
            ),
        decreases bindings@.len() - i,
    {
        assert(bindings@.take(i + 1).drop_last() =~= bindings@.take(i as int));
        match color_command_exec::<P>(&bindings[i]) {
            Some(c) => {
                commands.push(c);
                assert(commands@ =~= seq![MidiCommand::<P>::ClearAll] + color_commands::<P>(
                    bindings@.take(i + 1),
                ));
            },
            None => {},
        }
        i = i + 1;
    }
    assert(bindings@.take(bindings@.len() as int) =~= bindings@);
    commands
}

/// A board repaint lights every scene that has both a pad (or button) and a
/// colour: its colour command is among the repaint's commands.
pub proof fn lemma_refresh_lights_every_bound_scene<P>(bindings: Seq<PadBinding>, i: int)
    requires
        0 <= i < bindings.len(),
        bindings[i].button is Some,
        bindings[i].color is Some,
    ensures
        color_command::<P>(bindings[i]) is Some,
        color_commands::<P>(bindings).contains(color_command::<P>(bindings[i])->0),
    decreases bindings.len(),
{
    let c = color_command::<P>(bindings[i])->0;
    let all = color_commands::<P>(bindings);
    if i == bindings.len() - 1 {
        assert(bindings.last() == bindings[i]);
        assert(all.last() == c);
        assert(all[all.len() - 1] == c);
    } else {
        let earlier = bindings.drop_last();
        assert(earlier[i] == bindings[i]);
        lemma_refresh_lights_every_bound_scene::<P>(earlier, i);
        let prev = color_commands::<P>(earlier);
        let k = choose|k: int| 0 <= k < prev.len() && prev[k] == c;
        assert(all[k] == prev[k]);
    }
}

/// Note number of the pad in `row` (0 = top) and `col` (0 = left) of the 8×8
/// grid: the bottom row is 11–18, the top row 81–88.
pub open spec fn spec_pad_note(row: int, col: int) -> int {
    (8 - row) * 10 + 1 + col
}

/// Note number of a grid pad.
pub fn pad_note(row: u8, col: u8) -> (note: u8)
    requires
        row < 8,
        col < 8,
    ensures
        note == spec_pad_note(row as int, col as int),
{
    (8 - row) * 10 + 1 + col
}

/// Note numbers of all 64 grid pads, row by row from the top, left to right.
pub fn grid_notes() -> (notes: Vec<u8>)
    ensures
        notes@.len() == 64,
        forall|k: int| 0 <= k < 64 ==> #[trigger] notes@[k] == spec_pad_note(k / 8, k % 8),
{
    let mut notes: Vec<u8> = Vec::new();
    let mut row: u8 = 0;
    while row < 8
        invariant
            row <= 8,
            notes@.len() == 8 * row,
            forall|k: int| 0 <= k < notes@.len() ==> #[trigger] notes@[k] == spec_pad_note(k / 8, k % 8),
        decreases 8 - row,
    {
        let mut col: u8 = 0;
        while col < 8
            invariant
                row < 8,
                col <= 8,
                notes@.len() == 8 * row + col,
                forall|k: int|
                    0 <= k < notes@.len() ==> #[trigger] notes@[k] == spec_pad_note(k / 8, k % 8),
            decreases 8 - col,
        {
            notes.push(pad_note(row, col));
            col = col + 1;
        }
        row = row + 1;
    }
    notes
}

/// Position of the last binding on this (non-zero) button number of this kind.
pub open spec fn is_last_binding(bindings: Seq<PadBinding>, is_cc: bool, number: u8, found: Option<usize>) -> bool {
    match found {
        Some(i) => {
            &&& i < bindings.len()
            &&& number != 0
            &&& binding_answers(bindings[i as int], is_cc, number)
            &&& forall|j: int|
                i < j < bindings.len() ==> !binding_answers(#[trigger] bindings[j], is_cc, number)
        },
        None => number == 0 || forall|j: int|
            0 <= j < bindings.len() ==> !binding_answers(#[trigger] bindings[j], is_cc, number),
    }
}

/// The scene that owns a pad or button: the last one bound to it. Number 0
/// stands for "no pad" and is owned by none.
pub fn pad_owner(bindings: &Vec<PadBinding>, is_cc: bool, number: u8) -> (found: Option<usize>)
    ensures
        is_last_binding(bindings@, is_cc, number, found),
{
    if number == 0 {
        return None;
    }
    let mut i: usize = bindings.len();
    while i > 0
        invariant
            i <= bindings@.len(),
            number != 0,
            forall|j: int| i <= j < bindings@.len() ==> !binding_answers(#[trigger] bindings@[j], is_cc, number),
        decreases i,
    {
        let b = bindings[i - 1];
        if b.is_cc == is_cc && b.button == Some(number) {
            assert(binding_answers(bindings@[i - 1], is_cc, number));
            return Some(i - 1);
        }
        i = i - 1;
    }
    None
}

/// Whether the note pad `note` already belongs to a scene other than
/// `scene_id` (the pad picker marks such pads and refuses them).
pub fn pad_taken_by_other(bindings: &Vec<PadBinding>, note: u8, scene_id: u64) -> (taken: bool)
    ensures
        taken == exists|i: usize|
            is_last_binding(bindings@, false, note, Some(i)) && bindings@[i as int].scene_id != scene_id,
{
    match pad_owner(bindings, false, note) {
        Some(i) => {
            let taken = bindings[i].scene_id != scene_id;
            proof {
                if !taken {
                    assert forall|k: usize|
                        is_last_binding(bindings@, false, note, Some(k)) implies bindings@[k as int].scene_id
                        == scene_id by {
                        if k < i {
                            assert(!binding_answers(bindings@[i as int], false, note));
                        } else if k > i {
                            assert(!binding_answers(bindings@[k as int], false, note));
                        }
                    }
                }
            }
            taken
        },
        None => {
            proof {
                assert forall|k: usize| !is_last_binding(bindings@, false, note, Some(k)) by {
                    if k < bindings@.len() && note != 0 {
                        assert(!binding_answers(bindings@[k as int], false, note));
                    }
                }
            }
            false
        },
    }
}

/// Moves a scene to note pad `new_note` (0 for none). Nothing changes when
/// the pad stays the same; otherwise the old pad is switched off, the binding
/// moves, and the new pad is lit in the scene's colour if it has one.
pub fn reassign_pad<P>(binding: &mut PadBinding, new_note: u8) -> (commands: Vec<MidiCommand<P>>)
    ensures
        new_note == match old(binding).button {
            Some(b) => b,
            None => 0,
        } ==> *final(binding) == *old(binding) && commands@.len() == 0,
        new_note != match old(binding).button {
            Some(b) => b,
            None => 0,
        } ==> {
            &&& final(binding).button == if new_note == 0 {
                None
            } else {
                Some(new_note)
            }
            &&& final(binding).scene_id == old(binding).scene_id
            &&& final(binding).is_cc == old(binding).is_cc
            &&& final(binding).color == old(binding).color
            &&& commands@ == (match old(binding).button {
                Some(b) => seq![MidiCommand::<P>::SetPadColor { note: b, color: 0 }],
                None => Seq::empty(),
            }) + (match (final(binding).button, final(binding).color) {
                (Some(n), Some(c)) => seq![MidiCommand::<P>::SetPadColor { note: n, color: c }],
                _ => Seq::empty(),
            })
        },
{
    let current = match binding.button {
        Some(b) => b,
        None => 0,
    };
    let mut commands: Vec<MidiCommand<P>> = Vec::new();
    if new_note == current {
        return commands;
    }
    match binding.button {
        Some(old_note) => {
            commands.push(MidiCommand::SetPadColor { note: old_note, color: 0 });
        },
        None => {},
    }
    binding.button = if new_note == 0 {
        None
    } else {
        Some(new_note)
    };
    match (binding.button, binding.color) {
        (Some(n), Some(c)) => {
            commands.push(MidiCommand::SetPadColor { note: n, color: c });
        },
        _ => {},
    }
    commands
}

/// Gives a scene a new pad colour; its pad, if it has one, is lit at once.
pub fn recolor_pad<P>(binding: &mut PadBinding, color: u8) -> (command: Option<MidiCommand<P>>)
    ensures
        *final(binding) == (PadBinding { color: Some(color), ..*old(binding) }),
        command == match old(binding).button {
            Some(n) => Some(MidiCommand::<P>::SetPadColor { note: n, color }),
            None => None,
        },
{
    binding.color = Some(color);
    match binding.button {
        Some(n) => Some(MidiCommand::SetPadColor { note: n, color }),
        None => None,
    }
}

/// The command that switches off a deleted scene's pad or button, if it had
/// one (number 0 means none).
pub fn release_pad_command<P>(binding: &PadBinding) -> (command: Option<MidiCommand<P>>)
    ensures
        command == match binding.button {
            Some(b) => if b > 0 {
                if binding.is_cc {
                    Some(MidiCommand::<P>::SetButtonColor { cc: b, color: 0 })
                } else {
                    Some(MidiCommand::<P>::SetPadColor { note: b, color: 0 })
                }
            } else {
                None
            },
            None => None,
        },
{
    match binding.button {
        Some(b) => {
            if b > 0 {
                if binding.is_cc {
                    Some(MidiCommand::SetButtonColor { cc: b, color: 0 })
                } else {
                    Some(MidiCommand::SetPadColor { note: b, color: 0 })
                }
            } else {
                None
            }
        },
        None => None,
    }
}

/// Which scenes the scene list shows, by their MIDI binding.
#[derive(Clone, Copy, Debug, PartialEq, Eq, Structural)]
pub enum MidiFilter {
    All,
    /// Scenes bound to a pad or button.
    Linked,
    /// Scenes without a binding.
    NotLinked,
}

impl Default for MidiFilter {
    fn default() -> (filter: MidiFilter)
        ensures
            filter == MidiFilter::All,
    {
        MidiFilter::All
    }
}

/// Whether the scene list shows a scene under the filter.
pub fn filter_shows(filter: MidiFilter, binding: &PadBinding) -> (shown: bool)
    ensures
        shown == match filter {
            MidiFilter::All => true,
            MidiFilter::Linked => binding.button is Some,
            MidiFilter::NotLinked => binding.button is None,
        },
{
    match filter {
        MidiFilter::All => true,
        MidiFilter::Linked => binding.button.is_some(),
        MidiFilter::NotLinked => binding.button.is_none(),
    }
}

/// Whether a pad lit in `rgb` needs dark label text to stay readable.
pub fn label_needs_dark_text(rgb: (u8, u8, u8)) -> (dark: bool)
    ensures
        dark == (rgb.0 + rgb.1 + rgb.2 > 384),
{
    rgb.0 as u32 + rgb.1 as u32 + rgb.2 as u32 > 384
}

/// Seconds between two detection or watchdog checks, in nanoseconds.
pub const LINK_CHECK_INTERVAL_NANOS: u64 = 2_000_000_000;

/// What the controller does about the Launchpad connection on this frame.
#[derive(Clone, Copy, Debug, PartialEq, Eq, Structural)]
pub enum LinkCheck {
    /// Nothing this frame.
    Wait,
    /// Look for a Launchpad; if one is found, hand it to the service with
    /// `Connect` and call `on_detected`.
    Detect,
    /// See whether the Launchpad is still plugged in and call `on_watchdog`.
    Watchdog,
    /// MIDI was switched off while connected: send `Disconnect`.
    Disconnect,
}

/// The controller's view of the Launchpad connection.
#[derive(Clone, Copy, Debug, PartialEq, Eq, Structural)]
pub struct MidiLink {
    /// A Launchpad has been handed to the service and not lost since.
    pub connected: bool,
    /// When the last detection or watchdog check ran (or the last disconnect
    /// was reported), in nanoseconds.
    pub last_check: Option<u64>,
}

/// A check is due at `now`.
pub open spec fn check_due(last_check: Option<u64>, now: u64) -> bool {
    match last_check {
        None => true,
        Some(t) => elapsed(t, now) > LINK_CHECK_INTERVAL_NANOS,
    }
}

/// The controller's reaction to a service event.
pub struct LinkReaction<P> {
    /// Scene to select, if the event selects one.
    pub selected: Option<u64>,
    /// Commands to send to the service.
    pub commands: Vec<MidiCommand<P>>,
}

impl MidiLink {
    /// Not connected, never checked.
    pub fn new() -> (link: MidiLink)
        ensures
            !link.connected,
            link.last_check is None,
    {
        MidiLink { connected: false, last_check: None }
    }

    /// Decides the frame's connection work. With MIDI on, a check runs at
    /// most every two seconds: detection while disconnected, the watchdog
    /// while connected. With MIDI off, a live connection is dropped.
    pub fn poll(&mut self, midi_enabled: bool, now: u64) -> (check: LinkCheck)
        ensures
            midi_enabled && check_due(old(self).last_check, now) ==> {
                &&& check == if old(self).connected {
                    LinkCheck::Watchdog
                } else {
                    LinkCheck::Detect
                }
                &&& *final(self) == (MidiLink { connected: old(self).connected, last_check: Some(now) })
            },
            midi_enabled && !check_due(old(self).last_check, now) ==> check == LinkCheck::Wait
                && *final(self) == *old(self),
            !midi_enabled ==> check == (if old(self).connected {
                LinkCheck::Disconnect
            } else {
                LinkCheck::Wait
            }) && *final(self) == (MidiLink { connected: false, last_check: old(self).last_check }),
    {
        if midi_enabled {
            let due = match self.last_check {
                None => true,
                Some(t) => (if now >= t {
                    now - t
                } else {
                    0
                }) > LINK_CHECK_INTERVAL_NANOS,
            };
            if due {
                self.last_check = Some(now);
                if self.connected {
                    LinkCheck::Watchdog
                } else {
                    LinkCheck::Detect
                }
            } else {
                LinkCheck::Wait
            }
        } else if self.connected {
            self.connected = false;
            LinkCheck::Disconnect
        } else {
            LinkCheck::Wait
        }
    }

    /// A Launchpad was found and handed to the service.
    pub fn on_detected(&mut self)
        ensures
            *final(self) == (MidiLink { connected: true, last_check: old(self).last_check }),
    {
        self.connected = true;
    }

    /// The watchdog's finding; returns whether to send `Disconnect` because the
    /// Launchpad is gone from the port list.
    pub fn on_watchdog(&mut self, present: bool) -> (disconnect: bool)
        ensures
            disconnect == !present,
            *final(self) == (MidiLink {
                connected: old(self).connected && present,
                last_check: old(self).last_check,
            }),
    {
        if !present {
            self.connected = false;
        }
        !present
    }

    /// Reacts to an event from the service: a press selects the scene bound
    /// to it (see `scene_for_event`); `Connected` marks the link up and
    /// repaints the board; `Disconnected` marks it down and delays the next
    /// detection by counting `now` as a check.
    pub fn on_event<P>(&mut self, event: &MidiEvent, bindings: &Vec<PadBinding>, now: u64) -> (reaction: LinkReaction<P>)
        ensures
            selected_by(bindings@, *event, reaction.selected),
            *event is Connected ==> final(self).connected && final(self).last_check == old(self).last_check
                && reaction.commands@ == seq![MidiCommand::<P>::ClearAll] + color_commands::<P>(bindings@),
            *event is Disconnected ==> *final(self) == (MidiLink { connected: false, last_check: Some(now) })
                && reaction.commands@.len() == 0,
            !(*event is Connected) && !(*event is Disconnected) ==> *final(self) == *old(self)
                && reaction.commands@.len() == 0,
    {
        let scene = scene_for_event(bindings, event);
        match event {
            MidiEvent::Connected => {
                self.connected = true;
                LinkReaction { selected: scene, commands: board_refresh_commands(bindings) }
            },
            MidiEvent::Disconnected => {
                self.connected = false;
                self.last_check = Some(now);
                LinkReaction { selected: scene, commands: Vec::new() }
            },
            _ => LinkReaction { selected: scene, commands: Vec::new() },
        }
    }
}

} // verus!
