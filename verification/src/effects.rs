//! The settings vocabulary of masks and global effects (musical rates, start
//! positions, LFO waveforms, pulse directions, zone modes), strip targeting,
//! and the colour and group logic of the zone-alternate effect.
use vstd::prelude::*;
use crate::text::text_equals;

verus! {

/// A musical rate's length in half beats: "4 Bar" 32, "2 Bar" 16, "1 Bar" 8,
/// "1/2" 4, "1/4" 2, "1/8" 1; any other name counts as "1/4".
pub open spec fn spec_rate_half_beats(rate: Seq<char>) -> u32 {
    if rate == "4 Bar"@ {
        32
    } else if rate == "2 Bar"@ {
        16
    } else if rate == "1 Bar"@ {
        8
    } else if rate == "1/2"@ {
        4
    } else if rate == "1/4"@ {
        2
    } else if rate == "1/8"@ {
        1
    } else {
        2
    }
}

/// Length of a rate in half beats (the beat divisor times two).
pub fn rate_half_beats(rate: &str) -> (halves: u32)
    ensures
        halves == spec_rate_half_beats(rate@),
{
    if text_equals(rate, "4 Bar") {
        32
    } else if text_equals(rate, "2 Bar") {
        16
    } else if text_equals(rate, "1 Bar") {
        8
    } else if text_equals(rate, "1/2") {
        4
    } else if text_equals(rate, "1/4") {
        2
    } else if text_equals(rate, "1/8") {
        1
    } else {
        2
    }
}

/// The flash effect's rates in half beats: "4 Bar" 32, "1 Bar" 8, "1/2" 4,
/// "1/4" 2, "1/8" 1; any other name, "2 Bar" included, counts as a bar (8).
pub open spec fn spec_flash_rate_half_beats(rate: Seq<char>) -> u32 {
    if rate == "4 Bar"@ {
        32
    } else if rate == "1 Bar"@ {
        8
    } else if rate == "1/2"@ {
        4
    } else if rate == "1/4"@ {
        2
    } else if rate == "1/8"@ {
        1
    } else {
        8
    }
}

/// Length of a flash rate in half beats.
pub fn flash_rate_half_beats(rate: &str) -> (halves: u32)
    ensures
        halves == spec_flash_rate_half_beats(rate@),
{
    if text_equals(rate, "4 Bar") {
        32
    } else if text_equals(rate, "1 Bar") {
        8
    } else if text_equals(rate, "1/2") {
        4
    } else if text_equals(rate, "1/4") {
        2
    } else if text_equals(rate, "1/8") {
        1
    } else {
        8
    }
}

proof fn lemma_rate_names_differ()
    ensures
        "4 Bar"@ != "2 Bar"@,
        "4 Bar"@ != "1 Bar"@,
        "2 Bar"@ != "1 Bar"@,
        "1/2"@ != "1/4"@,
        "1/2"@ != "1/8"@,
        "1/4"@ != "1/8"@,
        "4 Bar"@ != "1/2"@,
        "4 Bar"@ != "1/4"@,
        "4 Bar"@ != "1/8"@,
        "2 Bar"@ != "1/2"@,
        "2 Bar"@ != "1/4"@,
        "2 Bar"@ != "1/8"@,
        "1 Bar"@ != "1/2"@,
        "1 Bar"@ != "1/4"@,
        "1 Bar"@ != "1/8"@,
{
    reveal_strlit("4 Bar");
    reveal_strlit("2 Bar");
    reveal_strlit("1 Bar");
    reveal_strlit("1/2");
    reveal_strlit("1/4");
    reveal_strlit("1/8");
    assert("4 Bar"@[0] != "2 Bar"@[0]);
    assert("4 Bar"@[0] != "1 Bar"@[0]);
    assert("2 Bar"@[0] != "1 Bar"@[0]);
    assert("1/2"@[2] != "1/4"@[2]);
    assert("1/2"@[2] != "1/8"@[2]);
    assert("1/4"@[2] != "1/8"@[2]);
    assert("4 Bar"@.len() == 5 && "2 Bar"@.len() == 5 && "1 Bar"@.len() == 5);
    assert("1/2"@.len() == 3 && "1/4"@.len() == 3 && "1/8"@.len() == 3);
}

/// The rates follow musical note lengths: an eighth is half a beat (one half
/// beat), each shorter note is half the next longer one, a bar is four beats,
/// and two and four bars are two and four bars; any other name is a beat.
pub proof fn lemma_rates_follow_note_lengths(rate: Seq<char>)
    ensures
        spec_rate_half_beats("1/8"@) == 1,
        spec_rate_half_beats("1/4"@) == 2 * spec_rate_half_beats("1/8"@),
        spec_rate_half_beats("1/2"@) == 2 * spec_rate_half_beats("1/4"@),
        spec_rate_half_beats("1 Bar"@) == 4 * spec_rate_half_beats("1/4"@),
        spec_rate_half_beats("2 Bar"@) == 2 * spec_rate_half_beats("1 Bar"@),
        spec_rate_half_beats("4 Bar"@) == 4 * spec_rate_half_beats("1 Bar"@),
        rate != "4 Bar"@ && rate != "2 Bar"@ && rate != "1 Bar"@ && rate != "1/2"@ && rate
            != "1/4"@ && rate != "1/8"@ ==> spec_rate_half_beats(rate) == spec_rate_half_beats(
            "1/4"@,
        ),
{
    reveal_strlit("4 Bar");
    reveal_strlit("2 Bar");
    reveal_strlit("1 Bar");
    reveal_strlit("1/2");
    reveal_strlit("1/4");
    reveal_strlit("1/8");
    lemma_rate_names_differ();
}

/// The flash effect's rates are the musical rates it offers ("4 Bar",
/// "1 Bar", "1/2", "1/4", "1/8"), of the same lengths as everywhere else
/// (an eighth is one half beat, each shorter note half the next, a bar four
/// beats); any other name, "2 Bar" included, flashes once a bar.
pub proof fn lemma_flash_rates_follow_note_lengths(rate: Seq<char>)
    ensures
        spec_flash_rate_half_beats("1/8"@) == 1,
        spec_flash_rate_half_beats("1/4"@) == 2 * spec_flash_rate_half_beats("1/8"@),
        spec_flash_rate_half_beats("1/2"@) == 2 * spec_flash_rate_half_beats("1/4"@),
        spec_flash_rate_half_beats("1 Bar"@) == 4 * spec_flash_rate_half_beats("1/4"@),
        spec_flash_rate_half_beats("4 Bar"@) == 4 * spec_flash_rate_half_beats("1 Bar"@),
        rate != "4 Bar"@ && rate != "1 Bar"@ && rate != "1/2"@ && rate != "1/4"@ && rate
            != "1/8"@ ==> spec_flash_rate_half_beats(rate) == spec_flash_rate_half_beats(
            "1 Bar"@,
        ),
        rate == "4 Bar"@ || rate == "1 Bar"@ || rate == "1/2"@ || rate == "1/4"@ || rate == "1/8"@
            ==> spec_flash_rate_half_beats(rate) == spec_rate_half_beats(rate),
{
    reveal_strlit("4 Bar");
    reveal_strlit("2 Bar");
    reveal_strlit("1 Bar");
    reveal_strlit("1/2");
    reveal_strlit("1/4");
    reveal_strlit("1/8");
    lemma_rate_names_differ();
}

/// Where a beat-synced scanner starts its sweep, in quarters of a cycle:
/// "Right" 1, "Left" 3, anything else (centre) 0.
pub fn start_offset_quarters(start_pos: &str) -> (quarters: u32)
    ensures
        quarters == if start_pos@ == "Right"@ {
            1u32
        } else if start_pos@ == "Left"@ {
            3u32
        } else {
            0u32
        },
{
    if text_equals(start_pos, "Right") {
        1
    } else if text_equals(start_pos, "Left") {
        3
    } else {
        0
    }
}

/// Shape of a parameter's LFO.
#[derive(Clone, Copy, Debug, PartialEq, Eq, Structural)]
pub enum Waveform {
    Sine,
    Triangle,
    Sawtooth,
    /// An unknown waveform name: no modulation.
    Flat,
}

/// Reads an LFO waveform name.
pub fn waveform_from_name(name: &str) -> (w: Waveform)
    ensures
        w == if name@ == "sine"@ {
            Waveform::Sine
        } else if name@ == "triangle"@ {
            Waveform::Triangle
        } else if name@ == "sawtooth"@ {
            Waveform::Sawtooth
        } else {
            Waveform::Flat
        },
{
    if text_equals(name, "sine") {
        Waveform::Sine
    } else if text_equals(name, "triangle") {
        Waveform::Triangle
    } else if text_equals(name, "sawtooth") {
        Waveform::Sawtooth
    } else {
        Waveform::Flat
    }
}

/// How a pulse wave travels along a strip.
#[derive(Clone, Copy, Debug, PartialEq, Eq, Structural)]
pub enum PulseDirection {
    Forward,
    Reverse,
    Bounce,
}

/// Reads a pulse direction name; anything but "Reverse" and "Bounce" is
/// forward.
pub fn pulse_direction_from_name(name: &str) -> (d: PulseDirection)
    ensures
        d == if name@ == "Reverse"@ {
            PulseDirection::Reverse
        } else if name@ == "Bounce"@ {
            PulseDirection::Bounce
        } else {
            PulseDirection::Forward
        },
{
    if text_equals(name, "Reverse") {
        PulseDirection::Reverse
    } else if text_equals(name, "Bounce") {
        PulseDirection::Bounce
    } else {
        PulseDirection::Forward
    }
}

/// How the two groups of the zone-alternate effect share their colours.
#[derive(Clone, Copy, Debug, PartialEq, Eq, Structural)]
pub enum ZoneMode {
    /// The groups trade colours every half cycle.
    Swap,
    /// Only the active group is lit, in its own colour.
    Pulse,
}

/// Reads a zone mode name; anything but "Pulse" swaps.
pub fn zone_mode_from_name(name: &str) -> (m: ZoneMode)
    ensures
        m == if name@ == "Pulse"@ {
            ZoneMode::Pulse
        } else {
            ZoneMode::Swap
        },
{
    if text_equals(name, "Pulse") {
        ZoneMode::Pulse
    } else {
        ZoneMode::Swap
    }
}

/// Colours of group A's and group B's strips for this half cycle.
pub fn zone_colors(mode: ZoneMode, a_active: bool, color_a: [u8; 3], color_b: [u8; 3]) -> (colors: (
    [u8; 3],
    [u8; 3],
))
    ensures
        colors == match mode {
            ZoneMode::Pulse => if a_active {
                (color_a, [0u8, 0u8, 0u8])
            } else {
                ([0u8, 0u8, 0u8], color_b)
            },
            ZoneMode::Swap => if a_active {
                (color_a, color_b)
            } else {
                (color_b, color_a)
            },
        },
{
    match mode {
        ZoneMode::Pulse => if a_active {
            (color_a, [0, 0, 0])
        } else {
            ([0, 0, 0], color_b)
        },
        ZoneMode::Swap => if a_active {
            (color_a, color_b)
        } else {
            (color_b, color_a)
        },
    }
}

fn id_listed(ids: &Vec<u64>, id: u64) -> (listed: bool)
    ensures
        listed == ids@.contains(id),
{
    let mut k: usize = 0;
    while k < ids.len()
        invariant
            k <= ids@.len(),
            forall|m: int| 0 <= m < k ==> ids@[m] != id,
        decreases ids@.len() - k,
    {
        if ids[k] == id {
            return true;
        }
        k = k + 1;
    }
    false
}

/// The colour a strip takes in the zone-alternate effect: group A's colour
/// if it is in group A, else group B's if it is in group B, else none (the
/// strip is left alone).
pub fn zone_color_for_strip(
    strip_id: u64,
    group_a: &Vec<u64>,
    group_b: &Vec<u64>,
    colors: ([u8; 3], [u8; 3]),
) -> (color: Option<[u8; 3]>)
    ensures
        color == if group_a@.contains(strip_id) {
            Some(colors.0)
        } else if group_b@.contains(strip_id) {
            Some(colors.1)
        } else {
            None
        },
{
    if id_listed(group_a, strip_id) {
        Some(colors.0)
    } else if id_listed(group_b, strip_id) {
        Some(colors.1)
    } else {
        None
    }
}

/// An effect reaches a strip when it targets all strips or lists the strip.
pub open spec fn spec_targets(targets: Option<Seq<u64>>, strip_id: u64) -> bool {
    match targets {
        None => true,
        Some(t) => t.contains(strip_id),
    }
}

/// Whether an effect with these targets reaches the strip.
pub fn is_targeted(targets: Option<&Vec<u64>>, strip_id: u64) -> (reached: bool)
    ensures
        reached == match targets {
            None => true,
            Some(t) => t@.contains(strip_id),
        },
{
    match targets {
        None => true,
        Some(t) => id_listed(t, strip_id),
    }
}

fn without_id(ids: &Vec<u64>, id: u64) -> (rest: Vec<u64>)
    ensures
        rest@ == ids@.filter(|x: u64| x != id),
{
    let mut rest: Vec<u64> = Vec::new();
    let mut k: usize = 0;
    while k < ids.len()
        invariant
            k <= ids@.len(),
            rest@ == ids@.take(k as int).filter(|x: u64| x != id),
        decreases ids@.len() - k,
    {
        proof {
            reveal_with_fuel(Seq::<_>::filter, 1);
            assert(ids@.take(k + 1).drop_last() =~= ids@.take(k as int));
        }
        if ids[k] != id {
            rest.push(ids[k]);
        }
        k = k + 1;
    }
    assert(ids@.take(ids@.len() as int) =~= ids@);
    rest
}

/// The strips an effect targets after the user ticks (`selected`) or unticks
/// one strip in the target list. Unticking a strip of "all strips" targets
/// every other strip of `all_ids`; otherwise a ticked strip is added once and
/// an unticked one removed.
pub fn toggle_target(targets: Option<Vec<u64>>, all_ids: &Vec<u64>, strip_id: u64, selected: bool) -> (next: Option<Vec<u64>>)
    ensures
        match targets {
            None => if selected {
                next is None
            } else {
                next matches Some(t) && t@ == all_ids@.filter(|x: u64| x != strip_id)
            },
            Some(old_t) => next matches Some(t) && if selected {
                if old_t@.contains(strip_id) {
                    t@ == old_t@
                } else {
                    t@ == old_t@.push(strip_id)
                }
            } else {
                t@ == old_t@.filter(|x: u64| x != strip_id)
            },
        },
{
    match targets {
        None => {
            if selected {
                None
            } else {
                Some(without_id(all_ids, strip_id))
            }
        },
        Some(t) => {
            if selected {
                let mut t = t;
                if !id_listed(&t, strip_id) {
                    t.push(strip_id);
                }
                Some(t)
            } else {
                Some(without_id(&t, strip_id))
            }
        },
    }
}

/// Moves a strip in or out of a zone group after its checkbox changed:
/// joining one group (`join_a` for A) takes the strip out of the other and
/// adds it once; leaving removes it.
pub fn set_zone_membership(group_a: &mut Vec<u64>, group_b: &mut Vec<u64>, strip_id: u64, join_a: bool, member: bool)
    ensures
        member && join_a ==> final(group_a)@ == (if old(group_a)@.contains(strip_id) {
            old(group_a)@
        } else {
            old(group_a)@.push(strip_id)
        }) && final(group_b)@ == old(group_b)@.filter(|x: u64| x != strip_id),
        member && !join_a ==> final(group_b)@ == (if old(group_b)@.contains(strip_id) {
            old(group_b)@
        } else {
            old(group_b)@.push(strip_id)
        }) && final(group_a)@ == old(group_a)@.filter(|x: u64| x != strip_id),
        !member && join_a ==> final(group_a)@ == old(group_a)@.filter(|x: u64| x != strip_id)
            && final(group_b)@ == old(group_b)@,
        !member && !join_a ==> final(group_b)@ == old(group_b)@.filter(|x: u64| x != strip_id)
            && final(group_a)@ == old(group_a)@,
        groups_disjoint(old(group_a)@, old(group_b)@) ==> groups_disjoint(
            final(group_a)@,
            final(group_b)@,
        ),
{
    let ghost a0 = group_a@;
    let ghost b0 = group_b@;
    if join_a {
        if member {
            if !id_listed(group_a, strip_id) {
                group_a.push(strip_id);
            }
            *group_b = without_id(group_b, strip_id);
        } else {
            *group_a = without_id(group_a, strip_id);
        }
    } else {
        if member {
            if !id_listed(group_b, strip_id) {
                group_b.push(strip_id);
            }
            *group_a = without_id(group_a, strip_id);
        } else {
            *group_b = without_id(group_b, strip_id);
        }
    }
    proof {
        if groups_disjoint(a0, b0) {
            lemma_zone_groups_stay_disjoint(a0, b0, group_a@, group_b@, strip_id, join_a, member);
        }
    }
}

/// Two strip groups share no strip.
pub open spec fn groups_disjoint(a: Seq<u64>, b: Seq<u64>) -> bool {
    forall|i: int, j: int| 0 <= i < a.len() && 0 <= j < b.len() ==> a[i] != b[j]
}

/// Changing a strip's zone membership never puts a strip in both groups when
/// none was before.
pub proof fn lemma_zone_groups_stay_disjoint(
    a: Seq<u64>,
    b: Seq<u64>,
    next_a: Seq<u64>,
    next_b: Seq<u64>,
    strip_id: u64,
    join_a: bool,
    member: bool,
)
    requires
        groups_disjoint(a, b),
        member && join_a ==> next_a == (if a.contains(strip_id) {
            a
        } else {
            a.push(strip_id)
        }) && next_b == b.filter(|x: u64| x != strip_id),
        member && !join_a ==> next_b == (if b.contains(strip_id) {
            b
        } else {
            b.push(strip_id)
        }) && next_a == a.filter(|x: u64| x != strip_id),
        !member && join_a ==> next_a == a.filter(|x: u64| x != strip_id) && next_b == b,
        !member && !join_a ==> next_b == b.filter(|x: u64| x != strip_id) && next_a == a,
    ensures
        groups_disjoint(next_a, next_b),
{
    let keep = |x: u64| x != strip_id;
    assert forall|i: int, j: int|
        0 <= i < next_a.len() && 0 <= j < next_b.len() implies next_a[i] != next_b[j] by {
        if member && join_a {
            assert(next_b.contains(next_b[j]));
            assert(b.filter(keep).contains(next_b[j]));
            b.lemma_filter_contains_rev(keep, next_b[j]);
            if !a.contains(strip_id) && i == a.len() {
                assert(next_a[i] == strip_id);
            } else {
                assert(next_a[i] == a[i]);
                let k = choose|k: int| 0 <= k < b.len() && b[k] == next_b[j];
                assert(a[i] != b[k]);
            }
        } else if member && !join_a {
            assert(a.filter(keep).contains(next_a[i]));
            a.lemma_filter_contains_rev(keep, next_a[i]);
            if !b.contains(strip_id) && j == b.len() {
                assert(next_b[j] == strip_id);
            } else {
                assert(next_b[j] == b[j]);
                let k = choose|k: int| 0 <= k < a.len() && a[k] == next_a[i];
                assert(a[k] != b[j]);
            }
        } else if join_a {
            assert(a.filter(keep).contains(next_a[i]));
            a.lemma_filter_contains_rev(keep, next_a[i]);
            let k = choose|k: int| 0 <= k < a.len() && a[k] == next_a[i];
            assert(a[k] != b[j]);
        } else {
            assert(b.filter(keep).contains(next_b[j]));
            b.lemma_filter_contains_rev(keep, next_b[j]);
            let k = choose|k: int| 0 <= k < b.len() && b[k] == next_b[j];
            assert(a[i] != b[k]);
        }
    }
}

/// Additive light mixing: each channel of `light` is added to `pixel`,
/// saturating at 255.
pub fn add_light(pixel: [u8; 3], light: [u8; 3]) -> (mixed: [u8; 3])
    ensures
        forall|k: int| 0 <= k < 3 ==> mixed[k] == pixel[k].saturating_add(light[k]),
{
    [pixel[0].saturating_add(light[0]), pixel[1].saturating_add(light[1]), pixel[2].saturating_add(
        light[2],
    )]
}

/// How far along its strip pixel `index` sits, counted in pixel spacings
/// from the strip's anchor; a flipped strip runs from its far end.
pub fn strip_position_index(pixel_count: usize, index: usize, flipped: bool) -> (position: usize)
    requires
        index < pixel_count,
    ensures
        position == if flipped {
            (pixel_count - 1 - index) as usize
        } else {
            index
        },
        position < pixel_count,
{
    if flipped {
        (pixel_count - 1) - index
    } else {
        index
    }
}

/// What the sparkle effects read of a strip.
#[derive(Clone, Copy, Debug, PartialEq, Eq, Structural)]
pub struct StripExtent {
    pub id: u64,
    pub pixel_count: usize,
    /// Length of the strip's pixel buffer.
    pub buffer_len: usize,
}

/// How many pixels of a strip are drawn: its pixel count, but no more than
/// its buffer holds.
pub open spec fn extent_drawn(s: StripExtent) -> int {
    if s.pixel_count < s.buffer_len {
        s.pixel_count as int
    } else {
        s.buffer_len as int
    }
}

/// The targets an effect names, as a sequence.
pub open spec fn targets_view(targets: Option<&Vec<u64>>) -> Option<Seq<u64>> {
    match targets {
        None => None,
        Some(t) => Some(t@),
    }
}

/// The pixels a sparkle may land on: each drawn pixel of each targeted strip,
/// as (strip id, pixel index), strip by strip and pixel by pixel.
pub open spec fn spec_sparkle_slots(strips: Seq<StripExtent>, targets: Option<Seq<u64>>) -> Seq<(u64, usize)>
    decreases strips.len(),
{
    if strips.len() == 0 {
        Seq::empty()
    } else {
        let earlier = spec_sparkle_slots(strips.drop_last(), targets);
        let s = strips.last();
        if spec_targets(targets, s.id) {
            earlier + Seq::new(extent_drawn(s) as nat, |i: int| (s.id, i as usize))
        } else {
            earlier
        }
    }
}

/// Lists the pixels a glitch sparkle may be spawned on (see
/// `spec_sparkle_slots`); their number is the effect's pixel total.
pub fn sparkle_slots(strips: &Vec<StripExtent>, targets: Option<&Vec<u64>>) -> (slots: Vec<(u64, usize)>)
    ensures
        slots@ == spec_sparkle_slots(strips@, targets_view(targets)),
{
    let mut slots: Vec<(u64, usize)> = Vec::new();
    let mut j: usize = 0;
    while j < strips.len()
        invariant
            j <= strips@.len(),
            slots@ == spec_sparkle_slots(strips@.take(j as int), targets_view(targets)),
        decreases strips@.len() - j,
    {
        let s = strips[j];
        let ghost before = slots@;
        assert(strips@.take(j + 1).drop_last() =~= strips@.take(j as int));
        assert(strips@.take(j + 1).last() == s);
        if is_targeted(targets, s.id) {
            let limit = if s.pixel_count < s.buffer_len {
                s.pixel_count
            } else {
                s.buffer_len
            };
            let mut i: usize = 0;
            while i < limit
                invariant
                    limit == extent_drawn(s),
                    i <= limit,
                    slots@ == before + Seq::new(i as nat, |k: int| (s.id, k as usize)),
                decreases limit - i,
            {
                slots.push((s.id, i));
                i = i + 1;
                assert(slots@ =~= before + Seq::new(i as nat, |k: int| (s.id, k as usize)));
            }
        }
        j = j + 1;
    }
    assert(strips@.take(strips@.len() as int) =~= strips@);
    slots
}

/// What a scene shows.
#[derive(Clone, Copy, Debug, PartialEq, Eq, Structural)]
pub enum SceneKind {
    /// Masks over the strips.
    Masks,
    /// Global effects on the strips.
    Global,
    /// An unknown kind: shows the free-standing masks.
    Other,
}

/// Reads a scene kind name.
pub fn scene_kind_from_name(name: &str) -> (kind: SceneKind)
    ensures
        kind == if name@ == "Masks"@ {
            SceneKind::Masks
        } else if name@ == "Global"@ {
            SceneKind::Global
        } else {
            SceneKind::Other
        },
{
    if text_equals(name, "Masks") {
        SceneKind::Masks
    } else if text_equals(name, "Global") {
        SceneKind::Global
    } else {
        SceneKind::Other
    }
}

/// What the renderer reads of a scene.
#[derive(Clone, Copy, Debug, PartialEq, Eq, Structural)]
pub struct SceneRef {
    pub id: u64,
    pub kind: SceneKind,
}

/// What a frame is rendered from.
#[derive(Clone, Copy, Debug, PartialEq, Eq, Structural)]
pub enum RenderSource {
    /// The free-standing masks of the configuration.
    LooseMasks,
    /// The masks of the scene at this position.
    SceneMasks(usize),
    /// The global effects of the scene at this position.
    SceneEffects(usize),
}

/// Position of the first scene with this id.
pub open spec fn first_scene_with_id(scenes: Seq<SceneRef>, id: u64, i: int) -> bool {
    &&& 0 <= i < scenes.len()
    &&& scenes[i].id == id
    &&& forall|j: int| 0 <= j < i ==> #[trigger] scenes[j].id != id
}

/// Chooses what to render: the selected scene (the first with its id) shows
/// its masks or its global effects by its kind; with no scene selected, the
/// selected scene missing, or a scene of unknown kind, the free-standing masks
/// are shown.
pub fn render_source(selected: Option<u64>, scenes: &Vec<SceneRef>) -> (source: RenderSource)
    ensures
        match source {
            RenderSource::SceneMasks(i) => selected matches Some(id) && first_scene_with_id(
                scenes@,
                id,
                i as int,
            ) && scenes@[i as int].kind == SceneKind::Masks,
            RenderSource::SceneEffects(i) => selected matches Some(id) && first_scene_with_id(
                scenes@,
                id,
                i as int,
            ) && scenes@[i as int].kind == SceneKind::Global,
            RenderSource::LooseMasks => match selected {
                None => true,
                Some(id) => forall|i: int|
                    first_scene_with_id(scenes@, id, i) ==> scenes@[i].kind == SceneKind::Other,
            },
        },
{
    match selected {
        None => RenderSource::LooseMasks,
        Some(id) => {
            let mut i: usize = 0;
            while i < scenes.len()
                invariant
                    i <= scenes@.len(),
                    selected == Some(id),
                    forall|j: int| 0 <= j < i ==> #[trigger] scenes@[j].id != id,
                decreases scenes@.len() - i,
            {
                if scenes[i].id == id {
                    proof {
                        assert forall|k: int| first_scene_with_id(scenes@, id, k) implies k == i by {
                            if k > i {
                                assert(scenes@[i as int].id == id);
                            }
                        }
                    }
                    return match scenes[i].kind {
                        SceneKind::Masks => RenderSource::SceneMasks(i),
                        SceneKind::Global => RenderSource::SceneEffects(i),
                        SceneKind::Other => RenderSource::LooseMasks,
                    };
                }
                i = i + 1;
            }
            RenderSource::LooseMasks
        },
    }
}

/// A strip's pixel buffer cleared to black for a new frame.
pub fn blank_pixels(pixel_count: usize) -> (pixels: Vec<[u8; 3]>)
    ensures
        pixels@.len() == pixel_count,
        forall|i: int| 0 <= i < pixel_count ==> #[trigger] pixels@[i] == [0u8, 0u8, 0u8],
{
    let mut pixels: Vec<[u8; 3]> = Vec::new();
    let mut i: usize = 0;
    while i < pixel_count
        invariant
            i <= pixel_count,
            pixels@.len() == i,
            forall|k: int| 0 <= k < i ==> #[trigger] pixels@[k] == [0u8, 0u8, 0u8],
        decreases pixel_count - i,
    {
        pixels.push([0, 0, 0]);
        i = i + 1;
    }
    pixels
}

/// How many pixels of a strip are drawn: its pixel count, but no more than
/// its buffer holds.
pub open spec fn drawn_pixels(pixel_count: usize, pixels: Seq<[u8; 3]>) -> int {
    if pixel_count < pixels.len() {
        pixel_count as int
    } else {
        pixels.len() as int
    }
}

/// Adds `light` to each drawn pixel of a strip (see `add_light`).
pub fn light_pixels(pixels: &mut Vec<[u8; 3]>, pixel_count: usize, light: [u8; 3])
    ensures
        final(pixels)@.len() == old(pixels)@.len(),
        forall|i: int|
            0 <= i < old(pixels)@.len() ==> #[trigger] final(pixels)@[i] == if i < drawn_pixels(
                pixel_count,
                old(pixels)@,
            ) {
                [
                    old(pixels)@[i][0].saturating_add(light[0]),
                    old(pixels)@[i][1].saturating_add(light[1]),
                    old(pixels)@[i][2].saturating_add(light[2]),
                ]
            } else {
                old(pixels)@[i]
            },
{
    let limit = if pixel_count < pixels.len() {
        pixel_count
    } else {
        pixels.len()
    };
    let mut i: usize = 0;
    while i < limit
        invariant
            limit == drawn_pixels(pixel_count, old(pixels)@),
            i <= limit,
            pixels@.len() == old(pixels)@.len(),
            forall|k: int|
                0 <= k < old(pixels)@.len() ==> #[trigger] pixels@[k] == if k < i {
                    [
                        old(pixels)@[k][0].saturating_add(light[0]),
                        old(pixels)@[k][1].saturating_add(light[1]),
                        old(pixels)@[k][2].saturating_add(light[2]),
                    ]
                } else {
                    old(pixels)@[k]
                },
        decreases limit - i,
    {
        let mixed = add_light(pixels[i], light);
        pixels.set(i, mixed);
        proof {
            assert(mixed =~= [
                old(pixels)@[i as int][0].saturating_add(light[0]),
                old(pixels)@[i as int][1].saturating_add(light[1]),
                old(pixels)@[i as int][2].saturating_add(light[2]),
            ]);
        }
        i = i + 1;
    }
}

/// Sets each drawn pixel of a strip to `color`.
pub fn paint_pixels(pixels: &mut Vec<[u8; 3]>, pixel_count: usize, color: [u8; 3])
    ensures
        final(pixels)@.len() == old(pixels)@.len(),
        forall|i: int|
            0 <= i < old(pixels)@.len() ==> #[trigger] final(pixels)@[i] == if i < drawn_pixels(
                pixel_count,
                old(pixels)@,
            ) {
                color
            } else {
                old(pixels)@[i]
            },
{
    let limit = if pixel_count < pixels.len() {
        pixel_count
    } else {
        pixels.len()
    };
    let mut i: usize = 0;
    while i < limit
        invariant
            limit == drawn_pixels(pixel_count, old(pixels)@),
            i <= limit,
            pixels@.len() == old(pixels)@.len(),
            forall|k: int|
                0 <= k < old(pixels)@.len() ==> #[trigger] pixels@[k] == if k < i {
                    color
                } else {
                    old(pixels)@[k]
                },
        decreases limit - i,
    {
        pixels.set(i, color);
        i = i + 1;
    }
}

/// Sets every pixel of a strip's buffer to `color`, whatever its pixel count.
pub fn flood_pixels(pixels: &mut Vec<[u8; 3]>, color: [u8; 3])
    ensures
        final(pixels)@.len() == old(pixels)@.len(),
        forall|i: int| 0 <= i < old(pixels)@.len() ==> #[trigger] final(pixels)@[i] == color,
{
    let n = pixels.len();
    let mut i: usize = 0;
    while i < n
        invariant
            n == old(pixels)@.len(),
            i <= n,
            pixels@.len() == n,
            forall|k: int| 0 <= k < i ==> #[trigger] pixels@[k] == color,
        decreases n - i,
    {
        pixels.set(i, color);
        i = i + 1;
    }
}

} // verus!
