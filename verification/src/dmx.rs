//! Packing rendered LED strips into 512-channel DMX frames, one per sACN
//! universe, and framing those for transmission.
use vstd::prelude::*;
use crate::text::text_equals;

verus! {

/// Number of channels in one DMX universe.
pub const DMX_CHANNELS: usize = 512;

/// Highest universe number that sACN allows.
pub const MAX_UNIVERSE: u16 = 63999;

/// The order in which a strip's hardware expects the three colour channels.
#[derive(Clone, Copy, Debug, PartialEq, Eq, Structural)]
pub enum ColorOrder {
    Rgb,
    Grb,
    Bgr,
}

/// The colour order that a strip's protocol name stands for: "GRB", "BGR",
/// and RGB for any other name.
pub open spec fn spec_color_order(name: Seq<char>) -> ColorOrder {
    if name == "GRB"@ {
        ColorOrder::Grb
    } else if name == "BGR"@ {
        ColorOrder::Bgr
    } else {
        ColorOrder::Rgb
    }
}

/// Reads a strip's colour-order name.
pub fn color_order_from_name(name: &str) -> (order: ColorOrder)
    ensures
        order == spec_color_order(name@),
{
    if text_equals(name, "GRB") {
        ColorOrder::Grb
    } else if text_equals(name, "BGR") {
        ColorOrder::Bgr
    } else {
        ColorOrder::Rgb
    }
}

/// The `k`-th byte (0, 1 or 2) that goes on the wire for an RGB pixel.
pub open spec fn wire_byte(order: ColorOrder, pixel: [u8; 3], k: int) -> u8 {
    let source = match order {
        ColorOrder::Rgb => k,
        ColorOrder::Grb => if k == 0 {
            1
        } else if k == 1 {
            0
        } else {
            2
        },
        ColorOrder::Bgr => 2 - k,
    };
    pixel[source]
}

/// The three bytes that go on the wire for an RGB pixel, in the strip's order.
pub fn wire_pixel(order: ColorOrder, pixel: [u8; 3]) -> (bytes: [u8; 3])
    ensures
        forall|k: int| 0 <= k < 3 ==> bytes[k] == wire_byte(order, pixel, k),
{
    match order {
        ColorOrder::Rgb => [pixel[0], pixel[1], pixel[2]],
        ColorOrder::Grb => [pixel[1], pixel[0], pixel[2]],
        ColorOrder::Bgr => [pixel[2], pixel[1], pixel[0]],
    }
}

/// What the framing reads of one rendered strip.
pub struct StripFrame {
    /// The strip's own universe, before the global universe offset.
    pub universe: u16,
    /// First DMX channel of the strip, counted from 1.
    pub start_channel: u16,
    pub order: ColorOrder,
    /// Rendered RGB pixels, first pixel first.
    pub pixels: Vec<[u8; 3]>,
}

/// The universe a frame for one strip is sent on: the strip's universe moved
/// up by the global universe minus one, both steps saturating, then held to
/// `1..=63999`.
pub open spec fn spec_output_universe(strip_universe: u16, global_universe: u16) -> u16 {
    let shifted = strip_universe.saturating_add(global_universe.saturating_sub(1));
    if shifted > MAX_UNIVERSE {
        MAX_UNIVERSE
    } else if shifted < 1 {
        1
    } else {
        shifted
    }
}

/// The universe a strip's pixels go out on.
pub fn output_universe(strip_universe: u16, global_universe: u16) -> (universe: u16)
    ensures
        universe == spec_output_universe(strip_universe, global_universe),
        1 <= universe <= MAX_UNIVERSE,
{
    let shifted = strip_universe.saturating_add(global_universe.saturating_sub(1));
    if shifted > MAX_UNIVERSE {
        MAX_UNIVERSE
    } else if shifted < 1 {
        1
    } else {
        shifted
    }
}

/// Zero-based DMX channel of a strip's first byte.
pub open spec fn channel_base(start_channel: u16) -> int {
    start_channel.saturating_sub(1) as int
}

/// The byte a strip writes at channel `ch` of its universe, if it writes one:
/// pixel `i` fills channels `base + 3i .. base + 3i + 2` in wire order, when
/// all three fall inside the universe.
pub open spec fn strip_channel(strip: StripFrame, ch: int) -> Option<u8> {
    let offset = ch - channel_base(strip.start_channel);
    let i = offset / 3;
    if 0 <= offset && i < strip.pixels@.len() && channel_base(strip.start_channel) + 3 * i + 2
        < DMX_CHANNELS {
        Some(wire_byte(strip.order, strip.pixels@[i], offset % 3))
    } else {
        None
    }
}

/// Channel `ch` of universe `universe` after all `strips` were written in
/// order: the byte of the last strip on that universe that writes `ch`, else 0.
pub open spec fn frame_channel(strips: Seq<StripFrame>, global_universe: u16, universe: u16, ch: int) -> u8
    decreases strips.len(),
{
    if strips.len() == 0 {
        0
    } else {
        let last = strips.last();
        if spec_output_universe(last.universe, global_universe) == universe && strip_channel(
            last,
            ch,
        ) is Some {
            strip_channel(last, ch)->0
        } else {
            frame_channel(strips.drop_last(), global_universe, universe, ch)
        }
    }
}

/// The universes that `strips` go out on, each once, in order of first use.
pub open spec fn frame_universes(strips: Seq<StripFrame>, global_universe: u16) -> Seq<u16>
    decreases strips.len(),
{
    if strips.len() == 0 {
        Seq::empty()
    } else {
        let earlier = frame_universes(strips.drop_last(), global_universe);
        let u = spec_output_universe(strips.last().universe, global_universe);
        if earlier.contains(u) {
            earlier
        } else {
            earlier.push(u)
        }
    }
}

/// One universe's worth of channel data.
pub struct UniverseFrame {
    pub universe: u16,
    /// The 512 DMX channel values.
    pub data: Vec<u8>,
}

/// `frame` holds universe `universe` exactly as `strips` fill it.
pub open spec fn frame_matches(
    frame: UniverseFrame,
    strips: Seq<StripFrame>,
    global_universe: u16,
    universe: u16,
) -> bool {
    &&& frame.universe == universe
    &&& frame.data@.len() == DMX_CHANNELS
    &&& forall|ch: int|
        0 <= ch < DMX_CHANNELS ==> #[trigger] frame.data@[ch] == frame_channel(
            strips,
            global_universe,
            universe,
            ch,
        )
}

proof fn lemma_pixel_channels(base: int, i: int, ch: int)
    requires
        base + 3 * i <= ch <= base + 3 * i + 2,
        base >= 0,
        i >= 0,
    ensures
        (ch - base) / 3 == i,
        (ch - base) % 3 == ch - base - 3 * i,
{
    let offset = ch - base;
    assert(offset == 3 * i + (offset - 3 * i));
    vstd::arithmetic::div_mod::lemma_fundamental_div_mod_converse(offset, 3, i, offset - 3 * i);
}

fn write_strip(data: &mut Vec<u8>, strip: &StripFrame)
    requires
        old(data)@.len() == DMX_CHANNELS,
    ensures
        final(data)@.len() == DMX_CHANNELS,
        forall|ch: int|
            0 <= ch < DMX_CHANNELS ==> #[trigger] final(data)@[ch] == match strip_channel(*strip, ch) {
                Some(v) => v,
                None => old(data)@[ch],
            },
{
    let base: usize = strip.start_channel.saturating_sub(1) as usize;
    let n = strip.pixels.len();
    let mut i: usize = 0;
    while i < n && base + 3 * i + 2 < DMX_CHANNELS
        invariant
            base == channel_base(strip.start_channel),
            base <= 65534,
            n == strip.pixels@.len(),
            i <= n,
            i <= 200,
            data@.len() == DMX_CHANNELS,
            forall|ch: int|
                0 <= ch < DMX_CHANNELS ==> #[trigger] data@[ch] == if strip_channel(*strip, ch) is Some
                    && (ch - base) / 3 < i {
                    strip_channel(*strip, ch)->0
                } else {
                    old(data)@[ch]
                },
        decreases n - i,
    {
        let idx = base + 3 * i;
        let bytes = wire_pixel(strip.order, strip.pixels[i]);
        data.set(idx, bytes[0]);
        data.set(idx + 1, bytes[1]);
        data.set(idx + 2, bytes[2]);
        proof {
            assert forall|ch: int| 0 <= ch < DMX_CHANNELS implies #[trigger] data@[ch] == if strip_channel(
                *strip,
                ch,
            ) is Some && (ch - base) / 3 < i + 1 {
                strip_channel(*strip, ch)->0
            } else {
                old(data)@[ch]
            } by {
                if idx <= ch <= idx + 2 {
                    lemma_pixel_channels(base as int, i as int, ch);
                } else if ch < idx {
                    if ch >= base {
                        vstd::arithmetic::div_mod::lemma_div_is_ordered(ch - base, 3 * i, 3);
                        vstd::arithmetic::div_mod::lemma_div_multiples_vanish(i as int, 3);
                    }
                } else {
                    vstd::arithmetic::div_mod::lemma_div_is_ordered(3 * i + 3, ch - base, 3);
                    vstd::arithmetic::div_mod::lemma_div_multiples_vanish(i + 1, 3);
                }
            }
        }
        i = i + 1;
    }
    proof {
        assert forall|ch: int| 0 <= ch < DMX_CHANNELS && strip_channel(*strip, ch) is Some implies (
        ch - base) / 3 < i by {
            if (ch - base) / 3 >= i {
                let j = (ch - base) / 3;
                if i < n {
                    assert(base + 3 * j + 2 >= base + 3 * i + 2);
                }
            }
        }
    }
}

fn universe_listed(universes: &Vec<u16>, universe: u16) -> (listed: bool)
    ensures
        listed == universes@.contains(universe),
{
    let mut k: usize = 0;
    while k < universes.len()
        invariant
            k <= universes@.len(),
            forall|m: int| 0 <= m < k ==> universes@[m] != universe,
        decreases universes@.len() - k,
    {
        if universes[k] == universe {
            return true;
        }
        k = k + 1;
    }
    false
}

fn build_frame(strips: &Vec<StripFrame>, global_universe: u16, universe: u16) -> (frame: UniverseFrame)
    ensures
        frame_matches(frame, strips@, global_universe, universe),
{
    let mut data: Vec<u8> = Vec::new();
    let mut c: usize = 0;
    while c < DMX_CHANNELS
        invariant
            c <= DMX_CHANNELS,
            data@.len() == c,
            forall|ch: int| 0 <= ch < c ==> data@[ch] == 0,
        decreases DMX_CHANNELS - c,
    {
        data.push(0);
        c = c + 1;
    }
    let mut j: usize = 0;
    while j < strips.len()
        invariant
            j <= strips@.len(),
            data@.len() == DMX_CHANNELS,
            forall|ch: int|
                0 <= ch < DMX_CHANNELS ==> #[trigger] data@[ch] == frame_channel(
                    strips@.take(j as int),
                    global_universe,
                    universe,
                    ch,
                ),
        decreases strips@.len() - j,
    {
        let ghost before = data@;
        assert(strips@.take(j + 1).drop_last() =~= strips@.take(j as int));
        if output_universe(strips[j].universe, global_universe) == universe {
            write_strip(&mut data, &strips[j]);
        }
        j = j + 1;
    }
    assert(strips@.take(strips@.len() as int) =~= strips@);
    UniverseFrame { universe, data }
}

/// Packs rendered strips into one 512-channel frame per universe they use.
/// Strips sharing a universe are written in order, so where their channels
/// overlap the later strip's bytes stand.
pub fn build_universe_frames(strips: &Vec<StripFrame>, global_universe: u16) -> (frames: Vec<UniverseFrame>)
    ensures
        frames@.len() == frame_universes(strips@, global_universe).len(),
        forall|k: int|
            0 <= k < frames@.len() ==> frame_matches(
                #[trigger] frames@[k],
                strips@,
                global_universe,
                frame_universes(strips@, global_universe)[k],
            ),
{
    let mut universes: Vec<u16> = Vec::new();
    let mut j: usize = 0;
    while j < strips.len()
        invariant
            j <= strips@.len(),
            universes@ == frame_universes(strips@.take(j as int), global_universe),
        decreases strips@.len() - j,
    {
        assert(strips@.take(j + 1).drop_last() =~= strips@.take(j as int));
        let u = output_universe(strips[j].universe, global_universe);
        if !universe_listed(&universes, u) {
            universes.push(u);
        }
        j = j + 1;
    }
    assert(strips@.take(strips@.len() as int) =~= strips@);
    let mut frames: Vec<UniverseFrame> = Vec::new();
    let mut k: usize = 0;
    while k < universes.len()
        invariant
            k <= universes@.len(),
            universes@ == frame_universes(strips@, global_universe),
            frames@.len() == k,
            forall|m: int|
                0 <= m < k ==> frame_matches(
                    #[trigger] frames@[m],
                    strips@,
                    global_universe,
                    universes@[m],
                ),
        decreases universes@.len() - k,
    {
        let frame = build_frame(strips, global_universe, universes[k]);
        frames.push(frame);
        k = k + 1;
    }
    frames
}

/// The sACN payload for a universe frame: the DMX start code 0, then the data.
pub fn sacn_payload(data: &Vec<u8>) -> (payload: Vec<u8>)
    ensures
        payload@ == seq![0u8] + data@,
{
    let mut payload: Vec<u8> = Vec::new();
    payload.push(0);
    let mut i: usize = 0;
    while i < data.len()
        invariant
            i <= data@.len(),
            payload@ == seq![0u8] + data@.take(i as int),
        decreases data@.len() - i,
    {
        payload.push(data[i]);
        i = i + 1;
        assert(seq![0u8] + data@.take(i as int) =~= (seq![0u8] + data@.take(i - 1)).push(
            data@[i - 1],
        ));
    }
    assert(data@.take(data@.len() as int) =~= data@);
    payload
}

/// Every universe that a strip goes out on gets exactly one frame, and no
/// other universe gets one.
pub proof fn lemma_frame_universes_distinct_and_complete(strips: Seq<StripFrame>, global_universe: u16)
    ensures
        forall|a: int, b: int|
            0 <= a < b < frame_universes(strips, global_universe).len() ==> frame_universes(
                strips,
                global_universe,
            )[a] != frame_universes(strips, global_universe)[b],
        forall|i: int|
            0 <= i < strips.len() ==> frame_universes(strips, global_universe).contains(
                spec_output_universe(#[trigger] strips[i].universe, global_universe),
            ),
        forall|k: int|
            0 <= k < frame_universes(strips, global_universe).len() ==> exists|i: int|
                0 <= i < strips.len() && spec_output_universe(strips[i].universe, global_universe)
                    == #[trigger] frame_universes(strips, global_universe)[k],
    decreases strips.len(),
{
    if strips.len() > 0 {
        let earlier = strips.drop_last();
        lemma_frame_universes_distinct_and_complete(earlier, global_universe);
        let fu = frame_universes(strips, global_universe);
        let fe = frame_universes(earlier, global_universe);
        assert forall|i: int| 0 <= i < strips.len() implies fu.contains(
            spec_output_universe(#[trigger] strips[i].universe, global_universe),
        ) by {
            if i < strips.len() - 1 {
                assert(earlier[i] == strips[i]);
                let w = choose|w: int| 0 <= w < fe.len() && fe[w] == spec_output_universe(
                    earlier[i].universe,
                    global_universe,
                );
                assert(fu[w] == fe[w]);
            } else {
                if !fe.contains(spec_output_universe(strips.last().universe, global_universe)) {
                    assert(fu[fu.len() - 1] == spec_output_universe(
                        strips.last().universe,
                        global_universe,
                    ));
                }
            }
        }
        assert forall|k: int| 0 <= k < fu.len() implies exists|i: int|
            0 <= i < strips.len() && spec_output_universe(strips[i].universe, global_universe)
                == #[trigger] fu[k] by {
            if k < fe.len() {
                assert(fu[k] == fe[k]);
                let i = choose|i: int|
                    0 <= i < earlier.len() && spec_output_universe(earlier[i].universe, global_universe)
                        == fe[k];
                assert(strips[i] == earlier[i]);
            } else {
                assert(spec_output_universe(strips[strips.len() - 1].universe, global_universe)
                    == fu[k]);
            }
        }
    }
}

/// What a strip writes is what its universe's frame carries, unless a later
/// strip on the same universe writes that same channel.
pub proof fn lemma_frame_shows_last_writer(
    strips: Seq<StripFrame>,
    global_universe: u16,
    idx: int,
    ch: int,
)
    requires
        0 <= idx < strips.len(),
        strip_channel(strips[idx], ch) is Some,
        forall|j: int|
            idx < j < strips.len() && spec_output_universe(strips[j].universe, global_universe)
                == spec_output_universe(strips[idx].universe, global_universe) ==> strip_channel(
                #[trigger] strips[j],
                ch,
            ) is None,
    ensures
        frame_channel(
            strips,
            global_universe,
            spec_output_universe(strips[idx].universe, global_universe),
            ch,
        ) == strip_channel(strips[idx], ch)->0,
    decreases strips.len(),
{
    if idx < strips.len() - 1 {
        let earlier = strips.drop_last();
        assert(strips[strips.len() - 1] == strips.last());
        assert(earlier[idx] == strips[idx]);
        assert forall|j: int|
            idx < j < earlier.len() && spec_output_universe(earlier[j].universe, global_universe)
                == spec_output_universe(earlier[idx].universe, global_universe) implies strip_channel(
            #[trigger] earlier[j],
            ch,
        ) is None by {
            assert(earlier[j] == strips[j]);
        }
        lemma_frame_shows_last_writer(earlier, global_universe, idx, ch);
    }
}

/// A channel that no strip on a universe writes stays dark (0).
pub proof fn lemma_unwritten_channel_is_dark(
    strips: Seq<StripFrame>,
    global_universe: u16,
    universe: u16,
    ch: int,
)
    requires
        forall|j: int|
            0 <= j < strips.len() && spec_output_universe(strips[j].universe, global_universe)
                == universe ==> strip_channel(#[trigger] strips[j], ch) is None,
    ensures
        frame_channel(strips, global_universe, universe, ch) == 0,
    decreases strips.len(),
{
    if strips.len() > 0 {
        let earlier = strips.drop_last();
        assert(strips[strips.len() - 1] == strips.last());
        assert forall|j: int|
            0 <= j < earlier.len() && spec_output_universe(earlier[j].universe, global_universe)
                == universe implies strip_channel(#[trigger] earlier[j], ch) is None by {
            assert(earlier[j] == strips[j]);
        }
        lemma_unwritten_channel_is_dark(earlier, global_universe, universe, ch);
    }
}

} // verus!
