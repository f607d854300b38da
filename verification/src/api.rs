//! The bodies of the requests of the HTTP interface, and what a request
//! that changes a strip does to the mixer.

use crate::channel::{ChannelView, FADER_MAX, FADER_MIN, PAN_LEFT, PAN_RIGHT};
use crate::ieee::clamped;
use crate::master::{
    MasterSection, MasterState, DIM_LEVEL_MIN, OSCILLATOR_FREQ_MAX, OSCILLATOR_FREQ_MIN,
    OSCILLATOR_LEVEL_MIN,
};
use crate::mixer::{with_solo, without_solo, Mixer};
use crate::protocol::{ApiResponse, ChannelId, ChannelState};
use crate::scenes::RecallFilter;
use crate::text::{
    ascii, ascii_bytes, chars_of, decimal_digits, is_ascii_text, lemma_digits_are_ascii,
    push_bytes, push_decimal, text_of,
};
use vstd::prelude::*;
use vstd::string::*;

verus! {

/// The parameters of a strip that a request sets; those left out stay
/// as they are.
#[derive(Debug, Clone)]
pub struct ChannelUpdate {
    pub fader: Option<u32>,
    pub mute: Option<bool>,
    pub solo: Option<bool>,
    pub pan: Option<u32>,
    pub name: Option<String>,
}

#[derive(Debug, Clone, Copy, PartialEq, Eq, Structural)]
pub struct FaderRequest {
    pub value: u32,
}

#[derive(Debug, Clone, Copy, PartialEq, Eq, Structural)]
pub struct MuteRequest {
    pub muted: bool,
}

#[derive(Debug, Clone, Copy, PartialEq, Eq, Structural)]
pub struct SoloRequest {
    pub solo: bool,
}

#[derive(Debug, Clone, Copy, PartialEq, Eq, Structural)]
pub struct RoutingRequest {
    pub input: usize,
    pub output: usize,
    pub gain: u32,
}

#[derive(Debug, Clone)]
pub struct SaveSceneRequest {
    pub name: String,
    pub description: Option<String>,
    pub category: Option<String>,
    pub color: Option<String>,
}

/// The parts of a scene that a recall asks for; a part left out is
/// recalled.
#[derive(Debug, Clone, Copy, PartialEq, Eq, Structural)]
pub struct RecallSceneRequest {
    pub faders: Option<bool>,
    pub mutes: Option<bool>,
    pub solos: Option<bool>,
    pub pans: Option<bool>,
    pub eq: Option<bool>,
    pub routing: Option<bool>,
    pub names: Option<bool>,
}

#[derive(Debug, Clone, Copy, PartialEq, Eq, Structural)]
pub struct MasterFaderRequest {
    pub value: u32,
}

#[derive(Debug, Clone, Copy, PartialEq, Eq, Structural)]
pub struct MasterMuteRequest {
    pub muted: bool,
}

#[derive(Debug, Clone, Copy, PartialEq, Eq, Structural)]
pub struct MasterDimRequest {
    pub dim: bool,
    pub level: Option<u32>,
}

#[derive(Debug, Clone, Copy, PartialEq, Eq, Structural)]
pub struct MasterMonoRequest {
    pub mono: bool,
}

#[derive(Debug, Clone, Copy, PartialEq, Eq, Structural)]
pub struct MasterTalkbackRequest {
    pub talkback: bool,
}

#[derive(Debug, Clone, Copy, PartialEq, Eq, Structural)]
pub struct MasterOscillatorRequest {
    pub enabled: bool,
    pub frequency: Option<u32>,
    pub level: Option<u32>,
}

/// Where a subscription maps the first channel of a stream.
#[derive(Debug, Clone, Copy, PartialEq, Eq, Structural)]
pub struct SubscribeRequest {
    pub start_channel: Option<u32>,
}

/// The filter that a recall request asks for.
pub fn recall_filter(req: &RecallSceneRequest) -> (f: RecallFilter)
    ensures
        f.faders == (req.faders != Some(false)),
        f.mutes == (req.mutes != Some(false)),
        f.solos == (req.solos != Some(false)),
        f.pans == (req.pans != Some(false)),
        f.eq == (req.eq != Some(false)),
        f.routing == (req.routing != Some(false)),
        f.names == (req.names != Some(false)),
        f.channels@.len() == 0,
{
    RecallFilter {
        faders: wanted(req.faders),
        mutes: wanted(req.mutes),
        solos: wanted(req.solos),
        pans: wanted(req.pans),
        eq: wanted(req.eq),
        routing: wanted(req.routing),
        names: wanted(req.names),
        channels: Vec::new(),
    }
}

fn wanted(part: Option<bool>) -> (b: bool)
    ensures
        b == (part != Some(false)),
{
    match part {
        Some(v) => v,
        None => true,
    }
}

/// The strip `strip` with the parameters of `update` set, fader and pan
/// held to their ranges.
pub open spec fn updated_strip(
    strip: ChannelView,
    fader: Option<u32>,
    mute: Option<bool>,
    solo: Option<bool>,
    pan: Option<u32>,
    name: Option<Seq<char>>,
) -> ChannelView {
    ChannelView {
        fader: match fader {
            Some(v) => clamped(v, FADER_MIN, FADER_MAX),
            None => strip.fader,
        },
        mute: match mute {
            Some(v) => v,
            None => strip.mute,
        },
        solo: match solo {
            Some(v) => v,
            None => strip.solo,
        },
        pan: match pan {
            Some(v) => clamped(v, PAN_LEFT, PAN_RIGHT),
            None => strip.pan,
        },
        name: match name {
            Some(v) => v,
            None => strip.name,
        },
        ..strip
    }
}

/// Sets the parameters of the strip `id` that `update` names and returns
/// the snapshot of the strip. `None`, and nothing changed, when there is
/// no such strip.
pub fn update_channel(mixer: &mut Mixer, id: ChannelId, update: ChannelUpdate) -> (r: Option<
    ChannelState,
>)
    requires
        old(mixer).wf(),
    ensures
        final(mixer).wf(),
        final(mixer).inputs() == old(mixer).inputs(),
        final(mixer).outputs() == old(mixer).outputs(),
        final(mixer).routes() == old(mixer).routes(),
        match r {
            Some(s) => {
                &&& id < old(mixer).inputs()
                &&& final(mixer).strips() == old(mixer).strips().update(
                    id as int,
                    updated_strip(
                        old(mixer).strips()[id as int],
                        update.fader,
                        update.mute,
                        update.solo,
                        update.pan,
                        match update.name {
                            Some(n) => Some(n@),
                            None => None,
                        },
                    ),
                )
                &&& s@ == final(mixer).strips()[id as int].snapshot()
                &&& final(mixer).soloed() == match update.solo {
                    Some(true) => with_solo(old(mixer).soloed(), id),
                    Some(false) => without_solo(old(mixer).soloed(), id),
                    None => old(mixer).soloed(),
                }
            },
            None => {
                &&& id >= old(mixer).inputs()
                &&& final(mixer).strips() == old(mixer).strips()
                &&& final(mixer).soloed() == old(mixer).soloed()
            },
        },
{
    proof {
        mixer.lemma_wf();
    }
    let ghost start = mixer.strips();
    if let Some(fader) = update.fader {
        mixer.set_fader(id, fader);
    }
    if let Some(mute) = update.mute {
        mixer.set_mute(id, mute);
    }
    if let Some(solo) = update.solo {
        mixer.set_solo(id, solo);
    }
    if let Some(pan) = update.pan {
        mixer.set_pan(id, pan);
    }
    let ghost text: Option<Seq<char>> = match &update.name {
        Some(n) => Some(n@),
        None => None,
    };
    if let Some(name) = update.name {
        mixer.set_channel_name(id, name);
    }
    let r = mixer.get_channel(id);
    proof {
        if id < old(mixer).inputs() {
            assert(mixer.strips() =~= start.update(
                id as int,
                updated_strip(start[id as int], update.fader, update.mute, update.solo, update.pan, text),
            ));
        }
    }
    r
}

/// The words for a strip that does not exist, as bytes.
pub open spec fn not_found_text(id: ChannelId) -> Seq<u8> {
    ascii("Kanal "@) + decimal_digits(id as nat) + ascii(" nicht gefunden"@)
}

/// The words for a strip that does not exist: `Kanal <id> nicht gefunden`.
pub fn channel_not_found(id: ChannelId) -> (text: String)
    ensures
        text@ == chars_of(not_found_text(id)),
{
    proof {
        reveal_strlit("Kanal ");
        reveal_strlit(" nicht gefunden");
        lemma_digits_are_ascii(id as nat);
    }
    let mut out: Vec<u8> = Vec::new();
    push_bytes(&mut out, ascii_bytes("Kanal "));
    push_decimal(&mut out, id as u64);
    push_bytes(&mut out, ascii_bytes(" nicht gefunden"));
    assert(out@ =~= not_found_text(id));
    assert(is_ascii_text(out@)) by {
        let a = ascii("Kanal "@);
        let d = decimal_digits(id as nat);
        let b = ascii(" nicht gefunden"@);
        assert forall|i: int| 0 <= i < out@.len() implies #[trigger] out@[i] < 128 by {
            if i < a.len() {
                assert(out@[i] == a[i]);
            } else if i < a.len() + d.len() {
                assert(out@[i] == d[i - a.len()]);
            } else {
                assert(out@[i] == b[i - a.len() - d.len()]);
            }
        }
    }
    text_of(out.as_slice())
}

/// The answer to a request for the strip `id`: the strip if it was found,
/// else the failure that says it was not.
pub fn channel_response(found: Option<ChannelState>, id: ChannelId) -> (r: ApiResponse<ChannelState>)
    ensures
        match found {
            Some(s) => r.success && r.data == Some(s) && r.error.is_none(),
            None => r.error matches Some(text) && text@ == chars_of(not_found_text(id))
                && !r.success && r.data.is_none(),
        },
{
    match found {
        Some(s) => ApiResponse::ok(s),
        None => ApiResponse::err(channel_not_found(id)),
    }
}

/// Sets DIM as the request asks: first the level, if one is given, then
/// the switch.
pub fn set_master_dim(master: &mut MasterSection, req: MasterDimRequest) -> (s: MasterState)
    ensures
        s == final(master)@,
        s == (MasterState {
            dim: req.dim,
            dim_level: match req.level {
                Some(level) => clamped(level, DIM_LEVEL_MIN, 0),
                None => old(master)@.dim_level,
            },
            ..old(master)@
        }),
{
    if let Some(level) = req.level {
        master.set_dim_level(level);
    }
    master.set_dim(req.dim)
}

/// Sets the oscillator as the request asks: first frequency and level,
/// where they are given, then the switch.
pub fn set_master_oscillator(master: &mut MasterSection, req: MasterOscillatorRequest) -> (s:
    MasterState)
    ensures
        s == final(master)@,
        s == (MasterState {
            oscillator: req.enabled,
            oscillator_freq: match req.frequency {
                Some(f) => clamped(f, OSCILLATOR_FREQ_MIN, OSCILLATOR_FREQ_MAX),
                None => old(master)@.oscillator_freq,
            },
            oscillator_level: match req.level {
                Some(l) => clamped(l, OSCILLATOR_LEVEL_MIN, 0),
                None => old(master)@.oscillator_level,
            },
            ..old(master)@
        }),
{
    if let Some(freq) = req.frequency {
        master.set_oscillator_freq(freq);
    }
    if let Some(level) = req.level {
        master.set_oscillator_level(level);
    }
    master.set_oscillator(req.enabled)
}

} // verus!
