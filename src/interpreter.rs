//! Per-control state machines and the engine that routes events to them.

use vstd::prelude::*;
use crate::config::{AbstractMapping, Config, CtrlKind, Mapping, MappingView, MidiKind, MidiSpec, OnOffMode, RelativeMode};

verus! {

// ---------------------------------------------------------------------------
// Responses

/// An OSC float argument, held exactly as the fraction `num / den`.
#[derive(Clone, Copy, Debug, PartialEq, Eq, Structural)]
pub struct OscFloat {
    pub num: i16,
    pub den: u16,
}

/// Bytes to write back to the surface: control number and value.
#[derive(Debug)]
pub struct CtrlResponse {
    pub data: Vec<u8>,
}

/// An OSC message to send.
#[derive(Debug)]
pub struct OscResponse {
    pub addr: String,
    pub args: Vec<OscFloat>,
}

/// A MIDI message to send.
#[derive(Debug)]
pub struct MidiResponse {
    pub data: Vec<u8>,
}

/// What handling one event produces; any of the three parts may be absent.
#[derive(Debug)]
pub struct Response {
    pub ctrl: Option<CtrlResponse>,
    pub osc: Option<OscResponse>,
    pub midi: Option<MidiResponse>,
}

/// An OSC message as a value: address and arguments.
pub struct OscView {
    pub addr: Seq<char>,
    pub args: Seq<OscFloat>,
}

/// A response as a value.
pub struct ResponseView {
    pub ctrl: Option<Seq<u8>>,
    pub osc: Option<OscView>,
    pub midi: Option<Seq<u8>>,
}

impl ResponseView {
    /// Nothing to emit.
    pub open spec fn empty() -> ResponseView {
        ResponseView { ctrl: None, osc: None, midi: None }
    }

    /// Only the hardware-feedback part.
    pub open spec fn feedback_only(self) -> ResponseView {
        ResponseView { ctrl: self.ctrl, osc: None, midi: None }
    }

    /// Something is to be emitted.
    pub open spec fn is_nonempty(self) -> bool {
        self.ctrl is Some || self.osc is Some || self.midi is Some
    }
}

impl View for Response {
    type V = ResponseView;

    open spec fn view(&self) -> ResponseView {
        ResponseView {
            ctrl: match self.ctrl {
                Some(c) => Some(c.data@),
                None => None,
            },
            osc: match self.osc {
                Some(o) => Some(OscView { addr: o.addr@, args: o.args@ }),
                None => None,
            },
            midi: match self.midi {
                Some(m) => Some(m.data@),
                None => None,
            },
        }
    }
}

/// The value of an optional response.
pub open spec fn opt_view(r: Option<Response>) -> Option<ResponseView> {
    match r {
        Some(r) => Some(r@),
        None => None,
    }
}

impl Response {
    /// An empty response.
    pub fn new() -> (r: Response)
        ensures
            r@ == ResponseView::empty(),
    {
        Response { ctrl: None, osc: None, midi: None }
    }
}

impl From<CtrlResponse> for Response {
    /// A response with the feedback part alone.
    fn from(ctrl: CtrlResponse) -> (r: Response) {
        Response { ctrl: Some(ctrl), osc: None, midi: None }
    }
}

impl vstd::std_specs::convert::FromSpecImpl<CtrlResponse> for Response {
    open spec fn obeys_from_spec() -> bool {
        true
    }

    open spec fn from_spec(ctrl: CtrlResponse) -> Response {
        Response { ctrl: Some(ctrl), osc: None, midi: None }
    }
}

impl From<OscResponse> for Response {
    /// A response with the OSC part alone.
    fn from(osc: OscResponse) -> (r: Response) {
        Response { ctrl: None, osc: Some(osc), midi: None }
    }
}

impl vstd::std_specs::convert::FromSpecImpl<OscResponse> for Response {
    open spec fn obeys_from_spec() -> bool {
        true
    }

    open spec fn from_spec(osc: OscResponse) -> Response {
        Response { ctrl: None, osc: Some(osc), midi: None }
    }
}

impl From<MidiResponse> for Response {
    /// A response with the MIDI part alone.
    fn from(midi: MidiResponse) -> (r: Response) {
        Response { ctrl: None, osc: None, midi: Some(midi) }
    }
}

impl vstd::std_specs::convert::FromSpecImpl<MidiResponse> for Response {
    open spec fn obeys_from_spec() -> bool {
        true
    }

    open spec fn from_spec(midi: MidiResponse) -> Response {
        Response { ctrl: None, osc: None, midi: Some(midi) }
    }
}

fn bytes2(a: u8, b: u8) -> (r: Vec<u8>)
    ensures
        r@ == seq![a, b],
{
    let mut v: Vec<u8> = Vec::new();
    v.push(a);
    v.push(b);
    proof { assert(v@ =~= seq![a, b]); }
    v
}

fn bytes3(a: u8, b: u8, c: u8) -> (r: Vec<u8>)
    ensures
        r@ == seq![a, b, c],
{
    let mut v: Vec<u8> = Vec::new();
    v.push(a);
    v.push(b);
    v.push(c);
    proof { assert(v@ =~= seq![a, b, c]); }
    v
}

fn osc_message(addr: &String, arg: OscFloat) -> (r: OscResponse)
    ensures
        r.addr@ == addr@,
        r.args@ == seq![arg],
{
    let mut args: Vec<OscFloat> = Vec::new();
    args.push(arg);
    proof { assert(args@ =~= seq![arg]); }
    OscResponse { addr: addr.clone(), args }
}

// ---------------------------------------------------------------------------
// Incoming events

/// The first argument of an incoming OSC message, as the controls read it: a
/// float is reduced to whether it is non-zero and to its 7-bit value
/// (the float clamped to [0, 1], times 127, rounded).
#[derive(Clone, Copy, Debug, PartialEq, Eq, Structural)]
pub enum OscArg {
    Float { nonzero: bool, seven_bit: u8 },
    Other,
}

/// An incoming OSC message.
#[derive(Clone, Debug)]
pub struct OscInput {
    pub addr: String,
    pub args: Vec<OscArg>,
}

/// An event that reaches the controls.
pub enum Event {
    /// A control number and value read from the surface.
    Hardware { num: u8, val: u8 },
    /// An OSC message.
    Osc { addr: Seq<char>, args: Seq<OscArg> },
    /// A MIDI message, as raw bytes.
    Midi { bytes: Seq<u8> },
}

impl OscInput {
    /// The message as an event.
    pub open spec fn event(&self) -> Event {
        Event::Osc { addr: self.addr@, args: self.args@ }
    }
}

/// The float argument an OSC message carries first, if it carries one.
pub open spec fn first_float(args: Seq<OscArg>) -> Option<(bool, u8)> {
    if args.len() > 0 && args[0] is Float {
        Some((args[0]->nonzero, args[0]->seven_bit))
    } else {
        None
    }
}

fn read_first_float(args: &Vec<OscArg>) -> (r: Option<(bool, u8)>)
    ensures
        r == first_float(args@),
{
    if args.len() < 1 {
        return None;
    }
    match args[0] {
        OscArg::Float { nonzero, seven_bit } => Some((nonzero, seven_bit)),
        OscArg::Other => None,
    }
}

// ---------------------------------------------------------------------------
// The common interface of controls

/// A control as a value, whatever its kind.
pub enum CtrlView {
    OnOff(OnOffView),
    EightBit(EightBitView),
    Relative(RelativeView),
}

impl CtrlView {
    /// The control after an event, and its response (`None`: not addressed to it).
    pub open spec fn step(self, e: Event) -> (CtrlView, Option<ResponseView>) {
        match self {
            CtrlView::OnOff(v) => (CtrlView::OnOff(v.step(e).0), v.step(e).1),
            CtrlView::EightBit(v) => (CtrlView::EightBit(v.step(e).0), v.step(e).1),
            CtrlView::Relative(v) => (CtrlView::Relative(v.step(e).0), v.step(e).1),
        }
    }

    /// Whether the control takes the event.
    pub open spec fn takes(self, e: Event) -> bool {
        self.step(e).1 is Some
    }
}

/// The control that a mapping yields: the first of on/off, eight-bit and
/// relative that accepts it, or none.
pub open spec fn ctrl_from(m: MappingView) -> Option<CtrlView> {
    if on_off_from(m) is Some {
        Some(CtrlView::OnOff(on_off_from(m)->0))
    } else if eight_bit_from(m) is Some {
        Some(CtrlView::EightBit(eight_bit_from(m)->0))
    } else if relative_from(m) is Some {
        Some(CtrlView::Relative(relative_from(m)->0))
    } else {
        None
    }
}

/// What every kind of control offers: construction from a mapping and the
/// handling of hardware, OSC and MIDI events. A handler returns `None` when
/// the event is not addressed to the control.
pub trait CtrlLogic: Sized {
    /// The control as a value.
    spec fn model(&self) -> CtrlView;

    /// The control that `from_mapping` builds, if any.
    spec fn spec_from_mapping(m: MappingView) -> Option<CtrlView>;

    fn from_mapping(mapping: &Mapping) -> (r: Option<Self>)
        ensures
            match r {
                Some(c) => Self::spec_from_mapping(mapping@) == Some(c.model()),
                None => Self::spec_from_mapping(mapping@) is None,
            },
    ;

    fn handle_ctrl(&mut self, num: u8, val: u8) -> (r: Option<Response>)
        ensures
            (final(self).model(), opt_view(r)) == old(self).model().step(
                Event::Hardware { num, val },
            ),
    ;

    fn handle_osc(&mut self, msg: &OscInput) -> (r: Option<Response>)
        ensures
            (final(self).model(), opt_view(r)) == old(self).model().step(msg.event()),
    ;

    fn handle_midi(&mut self, msg: &[u8]) -> (r: Option<Response>)
        ensures
            (final(self).model(), opt_view(r)) == old(self).model().step(
                Event::Midi { bytes: msg@ },
            ),
    ;
}

// ---------------------------------------------------------------------------
// Wire values

/// The value byte of an on/off state.
pub open spec fn level(s: bool) -> u8 {
    if s { 0x7f } else { 0x00 }
}

/// The MIDI message that announces on/off state `s`.
pub open spec fn on_off_midi(m: MidiSpec, s: bool) -> Seq<u8> {
    match m.kind {
        MidiKind::Cc => seq![0xb0u8 | m.channel, m.num, level(s)],
        MidiKind::NoteOnOff => if s {
            seq![0x90u8 | m.channel, m.num, 0x7fu8]
        } else {
            seq![0x80u8 | m.channel, m.num, 0x00u8]
        },
    }
}

/// A Control-Change message carrying `v`, for a binding of kind Cc.
pub open spec fn cc_midi(m: Option<MidiSpec>, v: u8) -> Option<Seq<u8>> {
    match m {
        Some(m) => match m.kind {
            MidiKind::Cc => Some(seq![0xb0u8 | m.channel, m.num, v]),
            MidiKind::NoteOnOff => None,
        },
        None => None,
    }
}

fn make_cc_midi(m: Option<MidiSpec>, v: u8) -> (r: Option<MidiResponse>)
    ensures
        match r {
            Some(x) => cc_midi(m, v) == Some(x.data@),
            None => cc_midi(m, v) is None,
        },
{
    match m {
        Some(m) => match m.kind {
            MidiKind::Cc => Some(MidiResponse { data: bytes3(0xb0u8 | m.channel, m.num, v) }),
            MidiKind::NoteOnOff => None,
        },
        None => None,
    }
}

// ---------------------------------------------------------------------------
// On/off controls

/// An on/off control as a value.
pub struct OnOffView {
    pub mode: OnOffMode,
    pub ctrl_in_num: Option<u8>,
    pub ctrl_out_num: Option<u8>,
    pub midi: Option<MidiSpec>,
    pub osc_addr: Seq<char>,
    pub state: bool,
}

impl OnOffView {
    /// Everything that announces state `s`: OSC 1 or 0, feedback 0x7f or 0x00
    /// where an output number is set, and the bound MIDI message.
    pub open spec fn full_response(self, s: bool) -> ResponseView {
        ResponseView {
            ctrl: match self.ctrl_out_num {
                Some(n) => Some(seq![n, level(s)]),
                None => None,
            },
            osc: Some(
                OscView {
                    addr: self.osc_addr,
                    args: seq![OscFloat { num: if s { 1 } else { 0 }, den: 1 }],
                },
            ),
            midi: match self.midi {
                Some(m) => Some(on_off_midi(m, s)),
                None => None,
            },
        }
    }

    pub open spec fn with_state(self, s: bool) -> OnOffView {
        OnOffView { state: s, ..self }
    }

    /// Stores `s`; announces it only if it differs from the stored state.
    pub open spec fn remember(self, s: bool) -> (OnOffView, ResponseView) {
        if s == self.state {
            (self, ResponseView::empty())
        } else {
            (self.with_state(s), self.full_response(s))
        }
    }

    /// The state an incoming MIDI message sets, if it is addressed to this
    /// control: a CC sets "on" when its value is non-zero; a Note-On with
    /// velocity above zero sets "on", any other Note-On or Note-Off "off".
    pub open spec fn midi_state(self, b: Seq<u8>) -> Option<bool> {
        if self.ctrl_out_num is None || self.midi is None || b.len() != 3 {
            None
        } else {
            let m = self.midi->0;
            let status = b[0] & 0xf0u8;
            if b[0] & 0x0fu8 != m.channel || b[1] != m.num {
                None
            } else {
                match m.kind {
                    MidiKind::Cc => if status == 0xb0u8 {
                        Some(b[2] > 0)
                    } else {
                        None
                    },
                    MidiKind::NoteOnOff => if status == 0x90u8 {
                        Some(b[2] > 0)
                    } else if status == 0x80u8 {
                        Some(false)
                    } else {
                        None
                    },
                }
            }
        }
    }

    /// The state an incoming OSC message sets, if it is addressed to this control.
    pub open spec fn osc_state(self, addr: Seq<char>, args: Seq<OscArg>) -> Option<bool> {
        if self.ctrl_out_num is None || addr != self.osc_addr {
            None
        } else {
            match first_float(args) {
                Some((nonzero, _)) => Some(nonzero),
                None => None,
            }
        }
    }

    /// The control after an event, and its response (`None`: not addressed to it).
    pub open spec fn step(self, e: Event) -> (OnOffView, Option<ResponseView>) {
        match e {
            Event::Hardware { num, val } => if self.ctrl_in_num != Some(num) {
                (self, None)
            } else {
                let pressed = val != 0;
                match self.mode {
                    OnOffMode::Raw => (
                        self,
                        Some(ResponseView { ctrl: None, ..self.full_response(pressed) }),
                    ),
                    OnOffMode::Momentary => (
                        self.remember(pressed).0,
                        Some(self.remember(pressed).1),
                    ),
                    OnOffMode::Toggle => if pressed {
                        (self.remember(!self.state).0, Some(self.remember(!self.state).1))
                    } else {
                        (self, Some(ResponseView::empty()))
                    },
                }
            },
            Event::Osc { addr, args } => match self.osc_state(addr, args) {
                Some(s) => (self.remember(s).0, Some(self.remember(s).1.feedback_only())),
                None => (self, None),
            },
            Event::Midi { bytes } => match self.midi_state(bytes) {
                Some(s) => (self.remember(s).0, Some(self.remember(s).1.feedback_only())),
                None => (self, None),
            },
        }
    }
}

/// A button or switch.
#[derive(Debug)]
pub struct OnOffLogic {
    mode: OnOffMode,
    ctrl_in_num: Option<u8>,
    ctrl_out_num: Option<u8>,
    midi: Option<MidiSpec>,
    osc_addr: String,
    state: bool,
}

impl View for OnOffLogic {
    type V = OnOffView;

    closed spec fn view(&self) -> OnOffView {
        OnOffView {
            mode: self.mode,
            ctrl_in_num: self.ctrl_in_num,
            ctrl_out_num: self.ctrl_out_num,
            midi: self.midi,
            osc_addr: self.osc_addr@,
            state: self.state,
        }
    }
}

/// The on/off control a mapping describes, if it is of that kind (state off).
pub open spec fn on_off_from(m: MappingView) -> Option<OnOffView> {
    match m.ctrl_kind {
        CtrlKind::OnOff { mode } => Some(
            OnOffView {
                mode,
                ctrl_in_num: m.ctrl_in_num,
                ctrl_out_num: m.ctrl_out_num,
                midi: m.midi,
                osc_addr: m.osc_addr(),
                state: false,
            },
        ),
        _ => None,
    }
}

impl OnOffLogic {
    fn full_response(&self, s: bool) -> (r: Response)
        ensures
            r@ == self@.full_response(s),
    {
        let osc = osc_message(&self.osc_addr, OscFloat { num: if s { 1 } else { 0 }, den: 1 });
        let ctrl = match self.ctrl_out_num {
            Some(n) => Some(CtrlResponse { data: bytes2(n, if s { 0x7f } else { 0x00 }) }),
            None => None,
        };
        let midi = match self.midi {
            Some(m) => {
                let data = match m.kind {
                    MidiKind::Cc => bytes3(0xb0u8 | m.channel, m.num, if s { 0x7f } else { 0x00 }),
                    MidiKind::NoteOnOff => if s {
                        bytes3(0x90u8 | m.channel, m.num, 0x7f)
                    } else {
                        bytes3(0x80u8 | m.channel, m.num, 0x00)
                    },
                };
                Some(MidiResponse { data })
            },
            None => None,
        };
        Response { osc: Some(osc), ctrl, midi }
    }

    /// Stores `new_state` and announces it if it changed.
    fn update(&mut self, new_state: bool) -> (r: Response)
        ensures
            (final(self)@, r@) == old(self)@.remember(new_state),
    {
        if new_state == self.state {
            return Response::new();
        }
        self.state = new_state;
        self.full_response(new_state)
    }
}

impl CtrlLogic for OnOffLogic {
    open spec fn model(&self) -> CtrlView {
        CtrlView::OnOff(self@)
    }

    open spec fn spec_from_mapping(m: MappingView) -> Option<CtrlView> {
        match on_off_from(m) {
            Some(v) => Some(CtrlView::OnOff(v)),
            None => None,
        }
    }

    fn from_mapping(mapping: &Mapping) -> (r: Option<OnOffLogic>) {
        match mapping.ctrl_kind {
            CtrlKind::OnOff { mode } => Some(
                OnOffLogic {
                    mode,
                    ctrl_in_num: mapping.ctrl_in_num,
                    ctrl_out_num: mapping.ctrl_out_num,
                    midi: mapping.midi,
                    osc_addr: mapping.osc_addr(),
                    state: false,
                },
            ),
            _ => None,
        }
    }

    fn handle_ctrl(&mut self, num: u8, val: u8) -> (r: Option<Response>) {
        let ctrl_in_num = match self.ctrl_in_num {
            Some(n) => n,
            None => { return None; },
        };
        if num != ctrl_in_num {
            return None;
        }
        let pressed = val != 0x00;
        match self.mode {
            OnOffMode::Raw => {
                let mut response = self.full_response(pressed);
                response.ctrl = None;
                Some(response)
            },
            OnOffMode::Momentary => Some(self.update(pressed)),
            OnOffMode::Toggle => {
                if pressed {
                    let flipped = !self.state;
                    Some(self.update(flipped))
                } else {
                    Some(Response::new())
                }
            },
        }
    }

    fn handle_osc(&mut self, msg: &OscInput) -> (r: Option<Response>) {
        if self.ctrl_out_num.is_none() {
            return None;
        }
        if !string_eq(&msg.addr, &self.osc_addr) {
            return None;
        }
        let nonzero = match read_first_float(&msg.args) {
            Some(f) => f.0,
            None => { return None; },
        };
        let mut response = Response::new();
        response.ctrl = self.update(nonzero).ctrl;
        Some(response)
    }

    fn handle_midi(&mut self, msg: &[u8]) -> (r: Option<Response>) {
        if self.ctrl_out_num.is_none() {
            return None;
        }
        let midi_spec = match self.midi {
            Some(m) => m,
            None => { return None; },
        };
        if msg.len() != 3 {
            return None;
        }
        let status_byte = msg[0];
        let data1 = msg[1];
        let data2 = msg[2];
        let channel = status_byte & 0x0f;
        let status = status_byte & 0xf0;
        if channel != midi_spec.channel || data1 != midi_spec.num {
            return None;
        }
        let is_on = match midi_spec.kind {
            MidiKind::Cc => {
                if status != 0xb0 {
                    return None;
                }
                data2 > 0
            },
            MidiKind::NoteOnOff => {
                if status != 0x90 && status != 0x80 {
                    return None;
                }
                status == 0x90 && data2 > 0
            },
        };
        let mut response = Response::new();
        response.ctrl = self.update(is_on).ctrl;
        Some(response)
    }
}

fn string_eq(a: &String, b: &String) -> (r: bool)
    ensures
        r == (a@ == b@),
{
    a.eq(b)
}

// ---------------------------------------------------------------------------
// Eight-bit controls

/// An eight-bit control as a value: its two input numbers and the last byte
/// seen on each.
pub struct EightBitView {
    pub hi_num: u8,
    pub lo_num: u8,
    pub midi: Option<MidiSpec>,
    pub osc_addr: Seq<char>,
    pub hi: u8,
    pub lo: u8,
}

/// The 8-bit value assembled from the two parts: `(hi << 1) | (lo != 0)`.
pub open spec fn assemble(hi: u8, lo: u8) -> u8 {
    ((hi * 2) % 256 + if lo != 0 { 1int } else { 0int }) as u8
}

impl EightBitView {
    /// The control after an event, and its response (`None`: not addressed to it).
    /// The high part is stored silently; the low part completes the value,
    /// sent as OSC `v / 255` and as a CC carrying `v >> 1`. Incoming OSC and
    /// MIDI are not taken.
    pub open spec fn step(self, e: Event) -> (EightBitView, Option<ResponseView>) {
        match e {
            Event::Hardware { num, val } => if num == self.hi_num {
                (EightBitView { hi: val, ..self }, Some(ResponseView::empty()))
            } else if num == self.lo_num {
                let v = assemble(self.hi, val);
                (
                    EightBitView { lo: val, ..self },
                    Some(
                        ResponseView {
                            ctrl: None,
                            osc: Some(
                                OscView {
                                    addr: self.osc_addr,
                                    args: seq![OscFloat { num: v as i16, den: 255 }],
                                },
                            ),
                            midi: cc_midi(self.midi, v / 2),
                        },
                    ),
                )
            } else {
                (self, None)
            },
            _ => (self, None),
        }
    }
}

/// A value sent in two parts: seven high bits, then one low bit.
#[derive(Debug)]
pub struct EightBitLogic {
    ctrl_in_hi_num: u8,
    ctrl_in_lo_num: u8,
    midi: Option<MidiSpec>,
    osc_addr: String,
    state: [u8; 2],
}

impl View for EightBitLogic {
    type V = EightBitView;

    closed spec fn view(&self) -> EightBitView {
        EightBitView {
            hi_num: self.ctrl_in_hi_num,
            lo_num: self.ctrl_in_lo_num,
            midi: self.midi,
            osc_addr: self.osc_addr@,
            hi: self.state@[0],
            lo: self.state@[1],
        }
    }
}

/// The eight-bit control a mapping describes, if it is of that kind and names
/// at least two input numbers (both parts zero).
pub open spec fn eight_bit_from(m: MappingView) -> Option<EightBitView> {
    match m.ctrl_kind {
        CtrlKind::EightBit => match m.ctrl_in_sequence {
            Some(s) => if s.len() >= 2 {
                Some(
                    EightBitView {
                        hi_num: s[0],
                        lo_num: s[1],
                        midi: m.midi,
                        osc_addr: m.osc_addr(),
                        hi: 0,
                        lo: 0,
                    },
                )
            } else {
                None
            },
            None => None,
        },
        _ => None,
    }
}

impl CtrlLogic for EightBitLogic {
    open spec fn model(&self) -> CtrlView {
        CtrlView::EightBit(self@)
    }

    open spec fn spec_from_mapping(m: MappingView) -> Option<CtrlView> {
        match eight_bit_from(m) {
            Some(v) => Some(CtrlView::EightBit(v)),
            None => None,
        }
    }

    fn from_mapping(mapping: &Mapping) -> (r: Option<EightBitLogic>) {
        match mapping.ctrl_kind {
            CtrlKind::EightBit => {},
            _ => { return None; },
        }
        let seq_in = match &mapping.ctrl_in_sequence {
            Some(s) => s,
            None => { return None; },
        };
        if seq_in.len() < 2 {
            return None;
        }
        let r = EightBitLogic {
            ctrl_in_hi_num: seq_in[0],
            ctrl_in_lo_num: seq_in[1],
            midi: mapping.midi,
            osc_addr: mapping.osc_addr(),
            state: [0x00, 0x00],
        };
        proof {
            assert(mapping@.ctrl_in_sequence->0 == seq_in@);
        }
        Some(r)
    }

    fn handle_ctrl(&mut self, num: u8, val: u8) -> (r: Option<Response>) {
        if num == self.ctrl_in_hi_num {
            self.state = [val, self.state[1]];
            return Some(Response::new());
        }
        if num == self.ctrl_in_lo_num {
            let hi = self.state[0];
            self.state = [hi, val];
            let val8: u8 = (hi % 128) * 2 + if val != 0x00 { 1u8 } else { 0u8 };
            let osc = osc_message(&self.osc_addr, OscFloat { num: val8 as i16, den: 255 });
            let midi = make_cc_midi(self.midi, val8 / 2);
            return Some(Response { ctrl: None, osc: Some(osc), midi });
        }
        None
    }

    fn handle_osc(&mut self, _msg: &OscInput) -> (r: Option<Response>) {
        None
    }

    fn handle_midi(&mut self, _msg: &[u8]) -> (r: Option<Response>) {
        None
    }
}

// ---------------------------------------------------------------------------
// Relative controls

/// The signed change a relative encoder reports: the byte itself below 0x40,
/// the byte minus 128 from there on.
pub open spec fn delta(val: u8) -> int {
    if val < 0x40 { val as int } else { val - 128 }
}

/// `x` clamped to the 7-bit range.
pub open spec fn clamp7(x: int) -> u8 {
    if x < 0 { 0 } else if x > 127 { 127 } else { x as u8 }
}

/// The LED-ring step shown for value `v`: 0 below 7, else `v` snapped down to
/// the nearest `7 + 11 k`.
pub open spec fn segment(v: u8) -> u8 {
    if v < 7 { 0 } else { ((v - 7) / 11 * 11 + 7) as u8 }
}

/// A relative encoder as a value.
pub struct RelativeView {
    pub mode: RelativeMode,
    pub ctrl_in_num: Option<u8>,
    pub ctrl_out_num: Option<u8>,
    pub midi: Option<MidiSpec>,
    pub osc_addr: Seq<char>,
    pub state: u8,
}

impl RelativeView {
    /// Stores `v`. If it differs from the stored value: OSC `v / 127`, a CC
    /// carrying `v`, and feedback of the new LED step only where the step
    /// changed. Otherwise nothing.
    pub open spec fn apply(self, v: u8) -> (RelativeView, ResponseView) {
        if v == self.state {
            (self, ResponseView::empty())
        } else {
            (
                RelativeView { state: v, ..self },
                ResponseView {
                    ctrl: if segment(v) != segment(self.state) {
                        match self.ctrl_out_num {
                            Some(n) => Some(seq![n, segment(v)]),
                            None => None,
                        }
                    } else {
                        None
                    },
                    osc: Some(
                        OscView {
                            addr: self.osc_addr,
                            args: seq![OscFloat { num: v as i16, den: 127 }],
                        },
                    ),
                    midi: cc_midi(self.midi, v),
                },
            )
        }
    }

    /// The value an incoming MIDI message sets, if it is a CC addressed to this control.
    pub open spec fn midi_value(self, b: Seq<u8>) -> Option<u8> {
        if self.ctrl_out_num is None || self.midi is None || b.len() != 3 {
            None
        } else if b[0] & 0x0fu8 != self.midi->0.channel || b[0] & 0xf0u8 != 0xb0u8 || b[1]
            != self.midi->0.num {
            None
        } else {
            Some(b[2])
        }
    }

    /// The value an incoming OSC message sets, if it is addressed to this control.
    pub open spec fn osc_value(self, addr: Seq<char>, args: Seq<OscArg>) -> Option<u8> {
        if self.ctrl_out_num is None || addr != self.osc_addr {
            None
        } else {
            match first_float(args) {
                Some((_, seven_bit)) => Some(seven_bit),
                None => None,
            }
        }
    }

    /// The control after an event, and its response (`None`: not addressed to it).
    pub open spec fn step(self, e: Event) -> (RelativeView, Option<ResponseView>) {
        match e {
            Event::Hardware { num, val } => if self.ctrl_in_num != Some(num) {
                (self, None)
            } else {
                match self.mode {
                    RelativeMode::Raw => (
                        self,
                        Some(
                            ResponseView {
                                ctrl: None,
                                osc: Some(
                                    OscView {
                                        addr: self.osc_addr,
                                        args: seq![OscFloat { num: delta(val) as i16, den: 1 }],
                                    },
                                ),
                                midi: None,
                            },
                        ),
                    ),
                    RelativeMode::Accumulate => {
                        let r = self.apply(clamp7(self.state + delta(val)));
                        (r.0, Some(r.1))
                    },
                }
            },
            Event::Osc { addr, args } => match self.osc_value(addr, args) {
                Some(v) => (self.apply(v).0, Some(self.apply(v).1.feedback_only())),
                None => (self, None),
            },
            Event::Midi { bytes } => match self.midi_value(bytes) {
                Some(v) => (self.apply(v).0, Some(self.apply(v).1.feedback_only())),
                None => (self, None),
            },
        }
    }
}

/// A relative encoder with an LED ring.
#[derive(Debug)]
pub struct RelativeLogic {
    mode: RelativeMode,
    ctrl_in_num: Option<u8>,
    ctrl_out_num: Option<u8>,
    midi: Option<MidiSpec>,
    osc_addr: String,
    state: u8,
}

impl View for RelativeLogic {
    type V = RelativeView;

    closed spec fn view(&self) -> RelativeView {
        RelativeView {
            mode: self.mode,
            ctrl_in_num: self.ctrl_in_num,
            ctrl_out_num: self.ctrl_out_num,
            midi: self.midi,
            osc_addr: self.osc_addr@,
            state: self.state,
        }
    }
}

/// The relative control a mapping describes, if it is of that kind (value 0).
pub open spec fn relative_from(m: MappingView) -> Option<RelativeView> {
    match m.ctrl_kind {
        CtrlKind::Relative { mode } => Some(
            RelativeView {
                mode,
                ctrl_in_num: m.ctrl_in_num,
                ctrl_out_num: m.ctrl_out_num,
                midi: m.midi,
                osc_addr: m.osc_addr(),
                state: 0,
            },
        ),
        _ => None,
    }
}

impl RelativeLogic {
    /// Stores `new_state` and announces it if it changed.
    fn update(&mut self, new_state: u8) -> (r: Response)
        ensures
            (final(self)@, r@) == old(self)@.apply(new_state),
    {
        let changed = new_state != self.state;
        let new_led = Self::encoder_led_val(new_state);
        let old_led = Self::encoder_led_val(self.state);
        self.state = new_state;
        if !changed {
            return Response::new();
        }
        let ctrl = if new_led != old_led {
            match self.ctrl_out_num {
                Some(n) => Some(CtrlResponse { data: bytes2(n, new_led) }),
                None => None,
            }
        } else {
            None
        };
        let osc = osc_message(&self.osc_addr, OscFloat { num: new_state as i16, den: 127 });
        let midi = make_cc_midi(self.midi, new_state);
        Response { ctrl, osc: Some(osc), midi }
    }

    /// The LED-ring step shown for a value.
    pub fn encoder_led_val(val: u8) -> (r: u8)
        ensures
            r == segment(val),
    {
        if val < 7 {
            0
        } else {
            (val - 7) / 11 * 11 + 7
        }
    }
}

impl CtrlLogic for RelativeLogic {
    open spec fn model(&self) -> CtrlView {
        CtrlView::Relative(self@)
    }

    open spec fn spec_from_mapping(m: MappingView) -> Option<CtrlView> {
        match relative_from(m) {
            Some(v) => Some(CtrlView::Relative(v)),
            None => None,
        }
    }

    fn from_mapping(mapping: &Mapping) -> (r: Option<RelativeLogic>) {
        match mapping.ctrl_kind {
            CtrlKind::Relative { mode } => Some(
                RelativeLogic {
                    mode,
                    ctrl_in_num: mapping.ctrl_in_num,
                    ctrl_out_num: mapping.ctrl_out_num,
                    midi: mapping.midi,
                    osc_addr: mapping.osc_addr(),
                    state: 0x00,
                },
            ),
            _ => None,
        }
    }

    fn handle_ctrl(&mut self, num: u8, val: u8) -> (r: Option<Response>) {
        let ctrl_in_num = match self.ctrl_in_num {
            Some(n) => n,
            None => { return None; },
        };
        if num != ctrl_in_num {
            return None;
        }
        let delta: i16 = if val < 0x40 { val as i16 } else { val as i16 - 128 };
        match self.mode {
            RelativeMode::Raw => {
                let osc = osc_message(&self.osc_addr, OscFloat { num: delta, den: 1 });
                Some(Response { osc: Some(osc), ctrl: None, midi: None })
            },
            RelativeMode::Accumulate => {
                let sum: i16 = self.state as i16 + delta;
                let new_state: u8 = if sum < 0 {
                    0
                } else if sum > 127 {
                    127
                } else {
                    sum as u8
                };
                Some(self.update(new_state))
            },
        }
    }

    fn handle_osc(&mut self, msg: &OscInput) -> (r: Option<Response>) {
        if self.ctrl_out_num.is_none() {
            return None;
        }
        if !string_eq(&msg.addr, &self.osc_addr) {
            return None;
        }
        let new_state = match read_first_float(&msg.args) {
            Some(f) => f.1,
            None => { return None; },
        };
        let mut response = Response::new();
        response.ctrl = self.update(new_state).ctrl;
        Some(response)
    }

    fn handle_midi(&mut self, msg: &[u8]) -> (r: Option<Response>) {
        if self.ctrl_out_num.is_none() {
            return None;
        }
        let midi_spec = match self.midi {
            Some(m) => m,
            None => { return None; },
        };
        if msg.len() != 3 {
            return None;
        }
        let status_byte = msg[0];
        let data1 = msg[1];
        let data2 = msg[2];
        if status_byte & 0x0f != midi_spec.channel {
            return None;
        }
        if status_byte & 0xf0 != 0xb0 {
            return None;
        }
        if data1 != midi_spec.num {
            return None;
        }
        let mut response = Response::new();
        response.ctrl = self.update(data2).ctrl;
        Some(response)
    }
}

// ---------------------------------------------------------------------------
// Any control

/// A control of any kind.
#[derive(Debug)]
pub enum Ctrl {
    OnOff(OnOffLogic),
    EightBit(EightBitLogic),
    Relative(RelativeLogic),
}

impl CtrlLogic for Ctrl {
    open spec fn model(&self) -> CtrlView {
        match self {
            Ctrl::OnOff(c) => c.model(),
            Ctrl::EightBit(c) => c.model(),
            Ctrl::Relative(c) => c.model(),
        }
    }

    open spec fn spec_from_mapping(m: MappingView) -> Option<CtrlView> {
        ctrl_from(m)
    }

    /// Tries the on/off, eight-bit and relative constructors, in that order.
    fn from_mapping(mapping: &Mapping) -> (r: Option<Ctrl>) {
        if let Some(c) = OnOffLogic::from_mapping(mapping) {
            return Some(Ctrl::OnOff(c));
        }
        if let Some(c) = EightBitLogic::from_mapping(mapping) {
            return Some(Ctrl::EightBit(c));
        }
        if let Some(c) = RelativeLogic::from_mapping(mapping) {
            return Some(Ctrl::Relative(c));
        }
        None
    }

    fn handle_ctrl(&mut self, num: u8, val: u8) -> (r: Option<Response>) {
        match self {
            Ctrl::OnOff(c) => c.handle_ctrl(num, val),
            Ctrl::EightBit(c) => c.handle_ctrl(num, val),
            Ctrl::Relative(c) => c.handle_ctrl(num, val),
        }
    }

    fn handle_osc(&mut self, msg: &OscInput) -> (r: Option<Response>) {
        match self {
            Ctrl::OnOff(c) => c.handle_osc(msg),
            Ctrl::EightBit(c) => c.handle_osc(msg),
            Ctrl::Relative(c) => c.handle_osc(msg),
        }
    }

    fn handle_midi(&mut self, msg: &[u8]) -> (r: Option<Response>) {
        match self {
            Ctrl::OnOff(c) => c.handle_midi(msg),
            Ctrl::EightBit(c) => c.handle_midi(msg),
            Ctrl::Relative(c) => c.handle_midi(msg),
        }
    }
}

impl CtrlView {
    /// A control that does not take an event is left as it was.
    pub proof fn lemma_decline_keeps(self, e: Event)
        ensures
            !self.takes(e) ==> self.step(e).0 == self,
    {
    }
}

// ---------------------------------------------------------------------------
// The engine

/// The concrete mappings of a whole table, in order.
pub open spec fn expand_all(ams: Seq<AbstractMapping>) -> Seq<MappingView>
    decreases ams.len(),
{
    if ams.len() == 0 {
        seq![]
    } else {
        expand_all(ams.drop_last()) + ams.last().expanded()
    }
}

/// The controls built from concrete mappings, in order; a mapping that no
/// kind accepts yields none.
pub open spec fn build_ctrls(ms: Seq<MappingView>) -> Seq<CtrlView>
    decreases ms.len(),
{
    if ms.len() == 0 {
        seq![]
    } else {
        match ctrl_from(ms.last()) {
            Some(c) => build_ctrls(ms.drop_last()).push(c),
            None => build_ctrls(ms.drop_last()),
        }
    }
}

/// The first control at or after `k` that takes the event.
pub open spec fn first_taker(cs: Seq<CtrlView>, e: Event, k: int) -> Option<int>
    decreases cs.len() - k,
{
    if k < 0 || k >= cs.len() {
        None
    } else if cs[k].takes(e) {
        Some(k)
    } else {
        first_taker(cs, e, k + 1)
    }
}

/// The controls after an event, and the response: the first control that
/// takes the event handles it, and no other is consulted.
pub open spec fn dispatch(cs: Seq<CtrlView>, e: Event) -> (Seq<CtrlView>, Option<ResponseView>) {
    match first_taker(cs, e, 0) {
        Some(k) => (cs.update(k, cs[k].step(e).0), cs[k].step(e).1),
        None => (cs, None),
    }
}

pub open spec fn models(cs: Seq<Ctrl>) -> Seq<CtrlView> {
    cs.map_values(|c: Ctrl| c.model())
}

/// Routes events to the controls built from a configuration.
#[derive(Debug)]
pub struct Interpreter {
    ctrls: Vec<Ctrl>,
}

impl View for Interpreter {
    type V = Seq<CtrlView>;

    closed spec fn view(&self) -> Seq<CtrlView> {
        models(self.ctrls@)
    }
}

proof fn lemma_models_update(cs: Seq<Ctrl>, k: int, c: Ctrl)
    requires
        0 <= k < cs.len(),
    ensures
        models(cs.update(k, c)) == models(cs).update(k, c.model()),
{
    assert(models(cs.update(k, c)) =~= models(cs).update(k, c.model()));
}

impl Interpreter {
    /// One control for each concrete mapping of the table that some kind
    /// accepts, in the order of the table.
    pub fn new(config: &Config) -> (r: Interpreter)
        requires
            forall|k: int|
                0 <= k < config.mappings@.len() ==> (#[trigger] config.mappings@[k]).in_range(),
        ensures
            r@ == build_ctrls(expand_all(config.mappings@)),
    {
        let ghost ams = config.mappings@;
        let mut ctrls: Vec<Ctrl> = Vec::new();
        let mut i: usize = 0;
        while i < config.mappings.len()
            invariant
                ams == config.mappings@,
                forall|k: int| 0 <= k < ams.len() ==> (#[trigger] ams[k]).in_range(),
                i <= ams.len(),
                models(ctrls@) == build_ctrls(expand_all(ams.take(i as int))),
            decreases ams.len() - i,
        {
            let abstract_mapping = &config.mappings[i];
            let expanded = abstract_mapping.expand_iter();
            let ghost done = expand_all(ams.take(i as int));
            let mut j: usize = 0;
            while j < expanded.len()
                invariant
                    expanded@.len() == abstract_mapping.expanded().len(),
                    forall|t: int|
                        0 <= t < expanded@.len() ==> (#[trigger] expanded@[t])@
                            == abstract_mapping.expanded()[t],
                    j <= expanded@.len(),
                    models(ctrls@) == build_ctrls(done + abstract_mapping.expanded().take(j as int)),
                decreases expanded@.len() - j,
            {
                let ghost before = ctrls@;
                let made = Ctrl::from_mapping(&expanded[j]);
                proof {
                    let ms = done + abstract_mapping.expanded().take(j as int);
                    let ms2 = done + abstract_mapping.expanded().take(j + 1);
                    assert(ms2.drop_last() =~= ms);
                    assert(ms2.last() == expanded@[j as int]@);
                }
                match made {
                    Some(c) => {
                        ctrls.push(c);
                        proof {
                            assert(models(ctrls@) =~= models(before).push(c.model()));
                        }
                    },
                    None => {},
                }
                j = j + 1;
            }
            proof {
                assert(abstract_mapping.expanded().take(j as int) =~= abstract_mapping.expanded());
                assert(ams.take(i + 1).drop_last() =~= ams.take(i as int));
                assert(ams.take(i + 1).last() == ams[i as int]);
            }
            i = i + 1;
        }
        proof {
            assert(ams.take(i as int) =~= ams);
        }
        Interpreter { ctrls }
    }

    /// Hands a control number and value read from the surface to the first
    /// control that takes it.
    pub fn handle_ctrl(&mut self, num: u8, val: u8) -> (r: Option<Response>)
        ensures
            (final(self)@, opt_view(r)) == dispatch(old(self)@, Event::Hardware { num, val }),
    {
        let ghost e = Event::Hardware { num, val };
        let mut k: usize = 0;
        while k < self.ctrls.len()
            invariant
                e == (Event::Hardware { num, val }),
                self@ == old(self)@,
                k <= self.ctrls@.len(),
                first_taker(old(self)@, e, 0) == first_taker(old(self)@, e, k as int),
            decreases self.ctrls@.len() - k,
        {
            let ghost before = self.ctrls@;
            let c: &mut Ctrl = &mut self.ctrls[k];
            let r = c.handle_ctrl(num, val);
            proof {
                lemma_models_update(before, k as int, self.ctrls@[k as int]);
                before[k as int].model().lemma_decline_keeps(e);
            }
            if r.is_some() {
                return r;
            }
            proof {
                assert(self@ =~= old(self)@);
            }
            k = k + 1;
        }
        None
    }

    /// Hands an incoming OSC message to the first control that takes it.
    pub fn handle_osc(&mut self, msg: &OscInput) -> (r: Option<Response>)
        ensures
            (final(self)@, opt_view(r)) == dispatch(old(self)@, msg.event()),
    {
        let ghost e = msg.event();
        let mut k: usize = 0;
        while k < self.ctrls.len()
            invariant
                e == msg.event(),
                self@ == old(self)@,
                k <= self.ctrls@.len(),
                first_taker(old(self)@, e, 0) == first_taker(old(self)@, e, k as int),
            decreases self.ctrls@.len() - k,
        {
            let ghost before = self.ctrls@;
            let c: &mut Ctrl = &mut self.ctrls[k];
            let r = c.handle_osc(msg);
            proof {
                lemma_models_update(before, k as int, self.ctrls@[k as int]);
                before[k as int].model().lemma_decline_keeps(e);
            }
            if r.is_some() {
                return r;
            }
            proof {
                assert(self@ =~= old(self)@);
            }
            k = k + 1;
        }
        None
    }

    /// Hands an incoming MIDI message to the first control that takes it.
    pub fn handle_midi(&mut self, msg: &[u8]) -> (r: Option<Response>)
        ensures
            (final(self)@, opt_view(r)) == dispatch(old(self)@, Event::Midi { bytes: msg@ }),
    {
        let ghost e = Event::Midi { bytes: msg@ };
        let mut k: usize = 0;
        while k < self.ctrls.len()
            invariant
                e == (Event::Midi { bytes: msg@ }),
                self@ == old(self)@,
                k <= self.ctrls@.len(),
                first_taker(old(self)@, e, 0) == first_taker(old(self)@, e, k as int),
            decreases self.ctrls@.len() - k,
        {
            let ghost before = self.ctrls@;
            let c: &mut Ctrl = &mut self.ctrls[k];
            let r = c.handle_midi(msg);
            proof {
                lemma_models_update(before, k as int, self.ctrls@[k as int]);
                before[k as int].model().lemma_decline_keeps(e);
            }
            if r.is_some() {
                return r;
            }
            proof {
                assert(self@ =~= old(self)@);
            }
            k = k + 1;
        }
        None
    }
}

// ---------------------------------------------------------------------------
// Laws of the controls and the engine

/// A control run through events in order: its last state and each response.
pub open spec fn run(c: CtrlView, es: Seq<Event>) -> (CtrlView, Seq<Option<ResponseView>>)
    decreases es.len(),
{
    if es.len() == 0 {
        (c, seq![])
    } else {
        let (c1, r) = c.step(es[0]);
        let (c2, rs) = run(c1, es.drop_first());
        (c2, seq![r] + rs)
    }
}

/// A toggle ignores releases: any number of consecutive releases leave it as
/// it was and emit nothing.
pub proof fn lemma_toggle_ignores_releases(v: OnOffView, num: u8, es: Seq<Event>)
    requires
        v.mode == OnOffMode::Toggle,
        v.ctrl_in_num == Some(num),
        forall|k: int| 0 <= k < es.len() ==> #[trigger] es[k] == (Event::Hardware { num, val: 0 }),
    ensures
        run(CtrlView::OnOff(v), es).0 == CtrlView::OnOff(v),
        run(CtrlView::OnOff(v), es).1.len() == es.len(),
        forall|k: int|
            0 <= k < es.len() ==> #[trigger] run(CtrlView::OnOff(v), es).1[k] == Some(
                ResponseView::empty(),
            ),
    decreases es.len(),
{
    if es.len() > 0 {
        let rest = es.drop_first();
        assert forall|k: int| 0 <= k < rest.len() implies #[trigger] rest[k] == (Event::Hardware {
            num,
            val: 0,
        }) by {
            assert(rest[k] == es[k + 1]);
        }
        lemma_toggle_ignores_releases(v, num, rest);
        let rs = run(CtrlView::OnOff(v), es).1;
        assert forall|k: int| 0 <= k < es.len() implies #[trigger] rs[k] == Some(
            ResponseView::empty(),
        ) by {
            if k > 0 {
                assert(rs[k] == run(CtrlView::OnOff(v), rest).1[k - 1]);
            }
        }
    }
}

/// A momentary control mirrors the button: from off, a press announces "on",
/// and a second press with no release in between emits nothing.
pub proof fn lemma_momentary_mirrors(v: OnOffView, num: u8, a: u8, b: u8)
    requires
        v.mode == OnOffMode::Momentary,
        v.ctrl_in_num == Some(num),
        !v.state,
        a != 0,
        b != 0,
    ensures
        v.step(Event::Hardware { num, val: a }).1 == Some(v.full_response(true)),
        v.full_response(true).is_nonempty(),
        v.step(Event::Hardware { num, val: a }).0.state,
        v.step(Event::Hardware { num, val: a }).0.step(Event::Hardware { num, val: b }) == (
            v.step(Event::Hardware { num, val: a }).0,
            Some(ResponseView::empty()),
        ),
{
}

/// An accumulating encoder never holds more than 127 after a turn, whatever
/// it held before.
pub proof fn lemma_accumulate_bounded(v: RelativeView, num: u8, val: u8)
    requires
        v.mode == RelativeMode::Accumulate,
        v.ctrl_in_num == Some(num),
    ensures
        v.step(Event::Hardware { num, val }).0.state <= 127,
{
}

/// At 127, a further positive turn of an accumulating encoder changes nothing
/// and emits nothing.
pub proof fn lemma_accumulate_saturates(v: RelativeView, num: u8, val: u8)
    requires
        v.mode == RelativeMode::Accumulate,
        v.ctrl_in_num == Some(num),
        v.state == 127,
        val < 0x40,
    ensures
        v.step(Event::Hardware { num, val }) == (v, Some(ResponseView::empty())),
{
}

/// An OSC message with a non-zero float, sent to an off on/off control with an
/// output number, turns it on and yields the feedback pair `[out, 0x7f]`
/// alone: nothing goes back out over OSC or MIDI.
pub proof fn lemma_osc_turns_on(v: OnOffView, out: u8, args: Seq<OscArg>)
    requires
        v.ctrl_out_num == Some(out),
        !v.state,
        first_float(args) matches Some((nonzero, _)) && nonzero,
    ensures
        v.step(Event::Osc { addr: v.osc_addr, args }) == (
            v.with_state(true),
            Some(ResponseView { ctrl: Some(seq![out, 0x7fu8]), osc: None, midi: None }),
        ),
{
}

proof fn lemma_first_taker_before(cs: Seq<CtrlView>, e: Event, k: int, a: int)
    requires
        0 <= k <= a < cs.len(),
        cs[a].takes(e),
    ensures
        first_taker(cs, e, k) is Some,
        k <= first_taker(cs, e, k)->0 <= a,
        cs[first_taker(cs, e, k)->0].takes(e),
    decreases a - k,
{
    if !cs[k].takes(e) {
        lemma_first_taker_before(cs, e, k + 1, a);
    }
}

/// First match wins: when a control takes an event, no later control is
/// consulted or changed, and the response comes from it or from an earlier one.
pub proof fn lemma_first_match_wins(cs: Seq<CtrlView>, e: Event, a: int, b: int)
    requires
        0 <= a < b < cs.len(),
        cs[a].takes(e),
    ensures
        dispatch(cs, e).0[b] == cs[b],
        dispatch(cs, e).0.len() == cs.len(),
        dispatch(cs, e).1 is Some,
        exists|k: int|
            0 <= k <= a && dispatch(cs, e).1 == #[trigger] cs[k].step(e).1,
{
    lemma_first_taker_before(cs, e, 0, a);
    let k = first_taker(cs, e, 0)->0;
    assert(dispatch(cs, e).1 == cs[k].step(e).1);
}

/// An on/off or relative control takes every hardware event on its input number.
pub proof fn lemma_takes_own_number(c: CtrlView, num: u8, val: u8)
    requires
        match c {
            CtrlView::OnOff(v) => v.ctrl_in_num == Some(num),
            CtrlView::Relative(v) => v.ctrl_in_num == Some(num),
            CtrlView::EightBit(v) => v.hi_num == num || v.lo_num == num,
        },
    ensures
        c.takes(Event::Hardware { num, val }),
{
}

} // verus!
