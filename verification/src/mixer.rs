//! The mixer: the input strips, the routing matrix and the list of
//! soloed strips, behind the operations that clients drive.

use crate::channel::{
    Channel, ChannelView, FADER_MAX, FADER_MIN, FADER_UNITY, PAN_CENTER, PAN_LEFT, PAN_RIGHT,
};
use crate::ieee::{clamped, ONE, ZERO};
use crate::protocol::{ChannelId, ChannelState, MixerState, StripView};
use crate::routing::{cells, identity, with_cell, RoutingMatrix};
use crate::text::{
    ascii, ascii_bytes, chars_of, decimal_digits, is_ascii_text, lemma_digits_are_ascii,
    push_bytes, push_decimal, text_of,
};
use vstd::prelude::*;
use vstd::string::*;

verus! {

/// The mixer. The number of strips is fixed when it is made, and strip
/// `i` has the identifier `i`.
pub struct Mixer {
    input_count: usize,
    output_count: usize,
    channels: Vec<Channel>,
    routing: RoutingMatrix,
    solo_active: Vec<ChannelId>,
}

/// The name of the strip with index `i`: `CH` and its number, counted
/// from one.
pub open spec fn default_name(i: int) -> Seq<char> {
    chars_of(ascii("CH "@) + decimal_digits((i + 1) as nat))
}

/// The strip with index `i` of a new mixer.
pub open spec fn default_strip(i: int) -> ChannelView {
    ChannelView {
        id: i as u32,
        name: default_name(i),
        fader: FADER_UNITY,
        mute: false,
        solo: false,
        pan: PAN_CENTER,
        gain: 0,
        phase_invert: false,
        color: "#3B82F6"@,
        meter_peak: 0,
        meter_peak_hold: 0,
    }
}

/// `list` with `id` at its end, unless it is in the list already.
pub open spec fn with_solo(list: Seq<ChannelId>, id: ChannelId) -> Seq<ChannelId> {
    if list.contains(id) {
        list
    } else {
        list.push(id)
    }
}

/// `list` without `id`.
pub open spec fn without_solo(list: Seq<ChannelId>, id: ChannelId) -> Seq<ChannelId>
    decreases list.len(),
{
    if list.len() == 0 {
        list
    } else if list.last() == id {
        without_solo(list.drop_last(), id)
    } else {
        without_solo(list.drop_last(), id).push(list.last())
    }
}

/// The snapshots of a list of strips.
pub open spec fn snapshots(states: Seq<ChannelState>) -> Seq<StripView> {
    Seq::new(states.len(), |i: int| states[i]@)
}

impl Mixer {
    /// Number of input strips.
    pub closed spec fn inputs(&self) -> nat {
        self.input_count as nat
    }

    /// Number of outputs.
    pub closed spec fn outputs(&self) -> nat {
        self.output_count as nat
    }

    /// The strips, by identifier.
    pub closed spec fn strips(&self) -> Seq<ChannelView> {
        Seq::new(self.channels@.len(), |i: int| self.channels@[i]@)
    }

    /// The routing matrix, input by output.
    pub closed spec fn routes(&self) -> Seq<Seq<u32>> {
        self.routing@
    }

    /// The soloed strips, in the order in which they were soloed.
    pub closed spec fn soloed(&self) -> Seq<ChannelId> {
        self.solo_active@
    }

    /// The representation invariant: as many strips as inputs, each with
    /// its index as identifier and its parameters in range, and a matrix
    /// of inputs by outputs with every cell from 0 to 1.
    pub closed spec fn wf(&self) -> bool {
        &&& self.channels@.len() == self.input_count
        &&& self.input_count <= u32::MAX
        &&& self.output_count <= u32::MAX
        &&& forall|i: int|
            0 <= i < self.channels@.len() ==> (#[trigger] self.channels@[i])@.id == i
                && self.channels@[i]@.in_range()
        &&& self.routing.wf()
        &&& self.routing.input_count == self.input_count
        &&& self.routing.output_count == self.output_count
    }

    /// What the invariant means for the values that contracts speak of.
    pub proof fn lemma_wf(&self)
        requires
            self.wf(),
        ensures
            self.strips().len() == self.inputs(),
            self.inputs() <= u32::MAX,
            self.outputs() <= u32::MAX,
            forall|i: int|
                0 <= i < self.inputs() ==> (#[trigger] self.strips()[i]).id == i
                    && self.strips()[i].in_range(),
            self.routes().len() == self.inputs(),
            forall|i: int|
                0 <= i < self.inputs() ==> (#[trigger] self.routes()[i]).len() == self.outputs(),
            forall|i: int, j: int|
                0 <= i < self.inputs() && 0 <= j < self.outputs() ==> crate::ieee::within(
                    #[trigger] self.routes()[i][j],
                    ZERO,
                    ONE,
                ),
    {
    }

    /// Whether `self` is `before` with at most its strips changed.
    pub open spec fn same_but_strips(&self, before: &Self) -> bool {
        &&& self.wf()
        &&& self.inputs() == before.inputs()
        &&& self.outputs() == before.outputs()
        &&& self.routes() == before.routes()
        &&& self.soloed() == before.soloed()
    }

    /// A mixer of `input_count` strips named `CH 1`, `CH 2` and so on,
    /// each routed to the output of its own index.
    pub fn new(input_count: usize, output_count: usize) -> (m: Self)
        requires
            input_count <= u32::MAX,
            output_count <= u32::MAX,
        ensures
            m.wf(),
            m.inputs() == input_count,
            m.outputs() == output_count,
            m.strips() == Seq::new(input_count as nat, |i: int| default_strip(i)),
            m.routes() == identity(input_count as nat, output_count as nat),
            m.soloed() == Seq::<ChannelId>::empty(),
    {
        let mut channels: Vec<Channel> = Vec::new();
        let mut i: usize = 0;
        while i < input_count
            invariant
                i <= input_count <= u32::MAX,
                channels@.len() == i,
                forall|k: int| 0 <= k < i ==> (#[trigger] channels@[k])@ == default_strip(k),
            decreases input_count - i,
        {
            proof {
                reveal_strlit("CH ");
                lemma_digits_are_ascii((i + 1) as nat);
            }
            let mut label: Vec<u8> = Vec::new();
            push_bytes(&mut label, ascii_bytes("CH "));
            push_decimal(&mut label, i as u64 + 1);
            assert(label@ =~= ascii("CH "@) + decimal_digits((i + 1) as nat));
            assert(is_ascii_text(label@));
            let channel = Channel::new(i as u32, text_of(label.as_slice()));
            channels.push(channel);
            i = i + 1;
        }
        let routing = RoutingMatrix::new(input_count, output_count);
        let m = Mixer { input_count, output_count, channels, routing, solo_active: Vec::new() };
        assert(m.strips() =~= Seq::new(input_count as nat, |i: int| default_strip(i)));
        m
    }

    pub fn input_count(&self) -> (n: usize)
        ensures
            n == self.inputs(),
    {
        self.input_count
    }

    pub fn output_count(&self) -> (n: usize)
        ensures
            n == self.outputs(),
    {
        self.output_count
    }

    /// The snapshot of the strip `id`, or `None` when there is no such
    /// strip.
    pub fn get_channel(&self, id: ChannelId) -> (r: Option<ChannelState>)
        requires
            self.wf(),
        ensures
            match r {
                Some(s) => id < self.inputs() && s@ == self.strips()[id as int].snapshot(),
                None => id >= self.inputs(),
            },
    {
        if (id as usize) < self.channels.len() {
            Some(self.channels[id as usize].state())
        } else {
            None
        }
    }

    /// The snapshots of all strips, by identifier.
    pub fn get_all_channels(&self) -> (r: Vec<ChannelState>)
        requires
            self.wf(),
        ensures
            r@.len() == self.inputs(),
            forall|i: int| 0 <= i < r@.len() ==> (#[trigger] r@[i])@ == self.strips()[i].snapshot(),
    {
        let mut r: Vec<ChannelState> = Vec::new();
        let mut i: usize = 0;
        while i < self.channels.len()
            invariant
                i <= self.channels@.len(),
                self.channels@.len() == self.input_count,
                r@.len() == i,
                forall|k: int| 0 <= k < i ==> (#[trigger] r@[k])@ == self.channels@[k]@.snapshot(),
            decreases self.channels@.len() - i,
        {
            r.push(self.channels[i].state());
            i = i + 1;
        }
        r
    }

    /// Sets the fader of the strip `id`, held to the range from 0 to
    /// 1.25, and returns the snapshot of the strip. `None`, and nothing
    /// changed, when there is no such strip.
    pub fn set_fader(&mut self, id: ChannelId, value: u32) -> (r: Option<ChannelState>)
        requires
            old(self).wf(),
        ensures
            final(self).same_but_strips(old(self)),
            match r {
                Some(s) => {
                    &&& id < old(self).inputs()
                    &&& final(self).strips() == old(self).strips().update(
                        id as int,
                        ChannelView {
                            fader: clamped(value, FADER_MIN, FADER_MAX),
                            ..old(self).strips()[id as int]
                        },
                    )
                    &&& s@ == final(self).strips()[id as int].snapshot()
                },
                None => id >= old(self).inputs() && final(self).strips() == old(self).strips(),
            },
    {
        let k = id as usize;
        if k >= self.channels.len() {
            return None;
        }
        self.channels[k].set_fader(value);
        assert(self.strips() =~= old(self).strips().update(
            id as int,
            ChannelView {
                fader: clamped(value, FADER_MIN, FADER_MAX),
                ..old(self).strips()[id as int]
            },
        ));
        Some(self.channels[k].state())
    }

    /// Sets the mute of the strip `id` to the value given and returns the
    /// snapshot of the strip. `None`, and nothing changed, when there is
    /// no such strip.
    pub fn set_mute(&mut self, id: ChannelId, muted: bool) -> (r: Option<ChannelState>)
        requires
            old(self).wf(),
        ensures
            final(self).same_but_strips(old(self)),
            match r {
                Some(s) => {
                    &&& id < old(self).inputs()
                    &&& final(self).strips() == old(self).strips().update(
                        id as int,
                        ChannelView { mute: muted, ..old(self).strips()[id as int] },
                    )
                    &&& s@ == final(self).strips()[id as int].snapshot()
                },
                None => id >= old(self).inputs() && final(self).strips() == old(self).strips(),
            },
    {
        let k = id as usize;
        if k >= self.channels.len() {
            return None;
        }
        self.channels[k].set_mute(muted);
        assert(self.strips() =~= old(self).strips().update(
            id as int,
            ChannelView { mute: muted, ..old(self).strips()[id as int] },
        ));
        Some(self.channels[k].state())
    }

    /// Sets the solo of the strip `id` to the value given, keeps the list
    /// of soloed strips in step, and returns the snapshot of the strip.
    /// `None`, and nothing changed, when there is no such strip.
    pub fn set_solo(&mut self, id: ChannelId, solo: bool) -> (r: Option<ChannelState>)
        requires
            old(self).wf(),
        ensures
            final(self).wf(),
            final(self).inputs() == old(self).inputs(),
            final(self).outputs() == old(self).outputs(),
            final(self).routes() == old(self).routes(),
            match r {
                Some(s) => {
                    &&& id < old(self).inputs()
                    &&& final(self).strips() == old(self).strips().update(
                        id as int,
                        ChannelView { solo, ..old(self).strips()[id as int] },
                    )
                    &&& s@ == final(self).strips()[id as int].snapshot()
                    &&& final(self).soloed() == if solo {
                        with_solo(old(self).soloed(), id)
                    } else {
                        without_solo(old(self).soloed(), id)
                    }
                },
                None => {
                    &&& id >= old(self).inputs()
                    &&& final(self).strips() == old(self).strips()
                    &&& final(self).soloed() == old(self).soloed()
                },
            },
    {
        let k = id as usize;
        if k >= self.channels.len() {
            return None;
        }
        self.channels[k].set_solo(solo);
        assert(self.strips() =~= old(self).strips().update(
            id as int,
            ChannelView { solo, ..old(self).strips()[id as int] },
        ));
        if solo {
            if !holds(&self.solo_active, id) {
                self.solo_active.push(id);
            }
        } else {
            self.solo_active = dropped(&self.solo_active, id);
        }
        Some(self.channels[k].state())
    }

    /// Sets the pan of the strip `id`, held to the range from -1 to +1,
    /// and returns the snapshot of the strip. `None`, and nothing
    /// changed, when there is no such strip.
    pub fn set_pan(&mut self, id: ChannelId, pan: u32) -> (r: Option<ChannelState>)
        requires
            old(self).wf(),
        ensures
            final(self).same_but_strips(old(self)),
            match r {
                Some(s) => {
                    &&& id < old(self).inputs()
                    &&& final(self).strips() == old(self).strips().update(
                        id as int,
                        ChannelView {
                            pan: clamped(pan, PAN_LEFT, PAN_RIGHT),
                            ..old(self).strips()[id as int]
                        },
                    )
                    &&& s@ == final(self).strips()[id as int].snapshot()
                },
                None => id >= old(self).inputs() && final(self).strips() == old(self).strips(),
            },
    {
        let k = id as usize;
        if k >= self.channels.len() {
            return None;
        }
        self.channels[k].set_pan(pan);
        assert(self.strips() =~= old(self).strips().update(
            id as int,
            ChannelView {
                pan: clamped(pan, PAN_LEFT, PAN_RIGHT),
                ..old(self).strips()[id as int]
            },
        ));
        Some(self.channels[k].state())
    }

    /// Names the strip `id` and returns the snapshot of the strip.
    /// `None`, and nothing changed, when there is no such strip.
    pub fn set_channel_name(&mut self, id: ChannelId, name: String) -> (r: Option<ChannelState>)
        requires
            old(self).wf(),
        ensures
            final(self).same_but_strips(old(self)),
            match r {
                Some(s) => {
                    &&& id < old(self).inputs()
                    &&& final(self).strips() == old(self).strips().update(
                        id as int,
                        ChannelView { name: name@, ..old(self).strips()[id as int] },
                    )
                    &&& s@ == final(self).strips()[id as int].snapshot()
                },
                None => id >= old(self).inputs() && final(self).strips() == old(self).strips(),
            },
    {
        let k = id as usize;
        if k >= self.channels.len() {
            return None;
        }
        let ghost text = name@;
        self.channels[k].set_name(name);
        assert(self.strips() =~= old(self).strips().update(
            id as int,
            ChannelView { name: text, ..old(self).strips()[id as int] },
        ));
        Some(self.channels[k].state())
    }

    /// Sets the gain from `input` to `output`, held to the range from 0
    /// to 1. Returns `false`, and changes nothing, when there is no such
    /// cell.
    pub fn set_routing(&mut self, input: usize, output: usize, gain: u32) -> (ok: bool)
        requires
            old(self).wf(),
        ensures
            final(self).wf(),
            final(self).inputs() == old(self).inputs(),
            final(self).outputs() == old(self).outputs(),
            final(self).strips() == old(self).strips(),
            final(self).soloed() == old(self).soloed(),
            ok == (input < old(self).inputs() && output < old(self).outputs()),
            final(self).routes() == if ok {
                with_cell(old(self).routes(), input as int, output as int, clamped(gain, ZERO, ONE))
            } else {
                old(self).routes()
            },
    {
        self.routing.set(input, output, gain)
    }

    /// A copy of the routing matrix.
    pub fn get_routing(&self) -> (r: Vec<Vec<u32>>)
        ensures
            cells(r@) == self.routes(),
    {
        self.routing.snapshot()
    }

    /// The snapshot of the whole mixer.
    pub fn get_state(&self) -> (s: MixerState)
        requires
            self.wf(),
        ensures
            s.input_count == self.inputs(),
            s.output_count == self.outputs(),
            cells(s.routing@) == self.routes(),
            s.channels@.len() == self.inputs(),
            forall|i: int|
                0 <= i < s.channels@.len() ==> (#[trigger] s.channels@[i])@
                    == self.strips()[i].snapshot(),
    {
        MixerState {
            channels: self.get_all_channels(),
            routing: self.get_routing(),
            input_count: self.input_count as u32,
            output_count: self.output_count as u32,
        }
    }

    /// The peak readings of all strips, by identifier.
    pub fn get_meters(&self) -> (r: Vec<u32>)
        requires
            self.wf(),
        ensures
            r@.len() == self.inputs(),
            forall|i: int| 0 <= i < r@.len() ==> #[trigger] r@[i] == self.strips()[i].meter_peak,
    {
        let mut r: Vec<u32> = Vec::new();
        let mut i: usize = 0;
        while i < self.channels.len()
            invariant
                i <= self.channels@.len(),
                self.channels@.len() == self.input_count,
                r@.len() == i,
                forall|k: int| 0 <= k < i ==> #[trigger] r@[k] == self.channels@[k]@.meter_peak,
            decreases self.channels@.len() - i,
        {
            r.push(self.channels[i].get_meter());
            i = i + 1;
        }
        r
    }

    /// Takes the peak of one block into the meter of the strip `id`;
    /// `released` is what the present reading falls to when the block
    /// stays below it. Nothing happens when there is no such strip.
    pub fn update_meter(&mut self, id: ChannelId, peak: u32, released: u32)
        requires
            old(self).wf(),
        ensures
            final(self).same_but_strips(old(self)),
            final(self).strips() == if id < old(self).inputs() {
                old(self).strips().update(
                    id as int,
                    old(self).strips()[id as int].metered(peak, released),
                )
            } else {
                old(self).strips()
            },
    {
        let k = id as usize;
        if k < self.channels.len() {
            self.channels[k].update_meter(peak, released);
            assert(self.strips() =~= old(self).strips().update(
                id as int,
                old(self).strips()[id as int].metered(peak, released),
            ));
        }
    }
}

fn holds(list: &Vec<ChannelId>, id: ChannelId) -> (r: bool)
    ensures
        r == list@.contains(id),
{
    let mut i: usize = 0;
    while i < list.len()
        invariant
            i <= list@.len(),
            forall|k: int| 0 <= k < i ==> list@[k] != id,
        decreases list@.len() - i,
    {
        if list[i] == id {
            return true;
        }
        i = i + 1;
    }
    false
}

fn dropped(list: &Vec<ChannelId>, id: ChannelId) -> (r: Vec<ChannelId>)
    ensures
        r@ == without_solo(list@, id),
{
    let mut r: Vec<ChannelId> = Vec::new();
    let mut i: usize = 0;
    assert(list@.take(0) =~= Seq::<ChannelId>::empty());
    while i < list.len()
        invariant
            i <= list@.len(),
            r@ == without_solo(list@.take(i as int), id),
        decreases list@.len() - i,
    {
        assert(list@.take(i as int + 1).drop_last() =~= list@.take(i as int));
        if list[i] != id {
            r.push(list[i]);
        }
        i = i + 1;
    }
    assert(list@.take(list@.len() as int) =~= list@);
    r
}

/// Muting a strip twice leaves the mixer as muting it once does.
pub proof fn lemma_set_mute_idempotent(strips: Seq<ChannelView>, id: int, muted: bool)
    requires
        0 <= id < strips.len(),
    ensures
        ({
            let once = strips.update(id, ChannelView { mute: muted, ..strips[id] });
            once.update(id, ChannelView { mute: muted, ..once[id] }) == once
        }),
{
    let once = strips.update(id, ChannelView { mute: muted, ..strips[id] });
    assert(once.update(id, ChannelView { mute: muted, ..once[id] }) =~= once);
}

} // verus!
