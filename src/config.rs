//! The declarative mapping table and the rest of the configuration.

use vstd::prelude::*;
use crate::text::{decimal, decimal_text};

verus! {

/// How an on/off control behaves.
#[derive(Clone, Copy, Debug, PartialEq, Eq, Structural)]
pub enum OnOffMode {
    /// Reports every press and release, keeps no state.
    Raw,
    /// On while pressed, off when released.
    Momentary,
    /// Each press flips the state.
    Toggle,
}

/// How a relative encoder behaves.
#[derive(Clone, Copy, Debug, PartialEq, Eq, Structural)]
pub enum RelativeMode {
    /// Reports the signed delta itself.
    Raw,
    /// Adds the delta to a stored 7-bit value and reports that value.
    Accumulate,
}

/// The kind of a hardware control.
#[derive(Clone, Copy, Debug, PartialEq, Eq, Structural)]
pub enum CtrlKind {
    OnOff { mode: OnOffMode },
    EightBit,
    Relative { mode: RelativeMode },
}

/// The kind of MIDI message a control is bound to.
#[derive(Clone, Copy, Debug, PartialEq, Eq, Structural)]
pub enum MidiKind {
    Cc,
    NoteOnOff,
}

/// A general mode tag, kept for configuration files that carry it.
#[derive(Clone, Copy, Debug, PartialEq, Eq, Structural)]
pub enum Mode {
    Raw,
    Accumulate,
}

/// A MIDI binding: channel (0 to 15), message kind and CC or note number.
#[derive(Clone, Copy, Debug, PartialEq, Eq, Structural)]
pub struct MidiSpec {
    pub channel: u8,
    pub kind: MidiKind,
    pub num: u8,
}

/// `n` moved up by `i`; exact wherever `n + i` fits in a byte.
pub open spec fn offset(n: u8, i: nat) -> u8 {
    (n + i) as u8
}

impl MidiSpec {
    /// The binding moved up by `i`: only the number shifts.
    pub open spec fn indexed(self, i: nat) -> MidiSpec {
        MidiSpec { channel: self.channel, kind: self.kind, num: offset(self.num, i) }
    }

    /// The binding of the `i`-th member of a range.
    pub fn index(&self, i: u8) -> (r: MidiSpec)
        requires
            self.num + i <= 255,
        ensures
            r == self.indexed(i as nat),
            r.num == self.num + i,
    {
        MidiSpec { channel: self.channel, kind: self.kind, num: self.num + i }
    }
}

/// The placeholder that a range replaces with each member's index.
pub open spec fn placeholder() -> Seq<char> {
    seq!['{', 'i', '}']
}

/// The first position at or after `k` where `pat` occurs in `s`.
pub open spec fn find_from(s: Seq<char>, pat: Seq<char>, k: int) -> Option<int>
    decreases s.len() + 1 - k,
{
    if k < 0 || k + pat.len() > s.len() {
        None
    } else if s.subrange(k, k + pat.len()) == pat {
        Some(k)
    } else {
        find_from(s, pat, k + 1)
    }
}

/// `s` with the first occurrence of `pat`, if any, replaced by `by`.
pub open spec fn replace_first(s: Seq<char>, pat: Seq<char>, by: Seq<char>) -> Seq<char> {
    match find_from(s, pat, 0) {
        Some(k) => s.subrange(0, k) + by + s.subrange(k + pat.len(), s.len() as int),
        None => s,
    }
}

/// One concrete control mapping.
#[derive(Clone, Debug)]
pub struct Mapping {
    /// Name of the control; the OSC address is `/` followed by it.
    pub name: String,
    /// Input control numbers of a value read in several parts.
    pub ctrl_in_sequence: Option<Vec<u8>>,
    /// Input control number of a single-part control.
    pub ctrl_in_num: Option<u8>,
    /// Output control number, for feedback to the surface.
    pub ctrl_out_num: Option<u8>,
    pub ctrl_kind: CtrlKind,
    pub midi: Option<MidiSpec>,
}

/// What a mapping holds, as mathematical values.
pub struct MappingView {
    pub name: Seq<char>,
    pub ctrl_in_sequence: Option<Seq<u8>>,
    pub ctrl_in_num: Option<u8>,
    pub ctrl_out_num: Option<u8>,
    pub ctrl_kind: CtrlKind,
    pub midi: Option<MidiSpec>,
}

impl View for Mapping {
    type V = MappingView;

    open spec fn view(&self) -> MappingView {
        MappingView {
            name: self.name@,
            ctrl_in_sequence: match self.ctrl_in_sequence {
                Some(v) => Some(v@),
                None => None,
            },
            ctrl_in_num: self.ctrl_in_num,
            ctrl_out_num: self.ctrl_out_num,
            ctrl_kind: self.ctrl_kind,
            midi: self.midi,
        }
    }
}

pub open spec fn opt_fits(n: Option<u8>, i: nat) -> bool {
    match n {
        Some(n) => n + i <= 255,
        None => true,
    }
}

pub open spec fn opt_offset(n: Option<u8>, i: nat) -> Option<u8> {
    match n {
        Some(n) => Some(offset(n, i)),
        None => None,
    }
}

pub open spec fn seq_fits(s: Option<Seq<u8>>, i: nat) -> bool {
    s is Some ==> forall|k: int| 0 <= k < s->0.len() ==> #[trigger] s->0[k] + i <= 255
}

pub open spec fn midi_fits(m: Option<MidiSpec>, i: nat) -> bool {
    match m {
        Some(m) => m.num + i <= 255,
        None => true,
    }
}

impl MappingView {
    /// Every number of the mapping still fits in a byte after moving up by `i`.
    pub open spec fn fits(self, i: nat) -> bool {
        &&& seq_fits(self.ctrl_in_sequence, i)
        &&& opt_fits(self.ctrl_in_num, i)
        &&& opt_fits(self.ctrl_out_num, i)
        &&& midi_fits(self.midi, i)
    }

    /// The `i`-th member of a range made from this mapping: the placeholder in
    /// the name becomes the decimal text of `i`, every number moves up by `i`,
    /// and the kind, the MIDI channel and the MIDI kind stay.
    pub open spec fn indexed(self, i: nat) -> MappingView {
        MappingView {
            name: replace_first(self.name, placeholder(), decimal(i)),
            ctrl_in_sequence: match self.ctrl_in_sequence {
                Some(s) => Some(Seq::new(s.len(), |k: int| offset(s[k], i))),
                None => None,
            },
            ctrl_in_num: opt_offset(self.ctrl_in_num, i),
            ctrl_out_num: opt_offset(self.ctrl_out_num, i),
            ctrl_kind: self.ctrl_kind,
            midi: match self.midi {
                Some(m) => Some(m.indexed(i)),
                None => None,
            },
        }
    }

    /// The OSC address of the control.
    pub open spec fn osc_addr(self) -> Seq<char> {
        seq!['/'] + self.name
    }
}

fn replace_placeholder(s: &String, by: &String) -> (r: String)
    ensures
        r@ == replace_first(s@, placeholder(), by@),
{
    let text = s.as_str();
    let n = text.unicode_len();
    let mut k: usize = 0;
    while 3 <= n - k
        invariant
            n == s@.len(),
            text@ == s@,
            k <= n,
            find_from(s@, placeholder(), 0) == find_from(s@, placeholder(), k as int),
        decreases n - k,
    {
        let c0 = text.get_char(k);
        let c1 = text.get_char(k + 1);
        let c2 = text.get_char(k + 2);
        if c0 == '{' && c1 == 'i' && c2 == '}' {
            assert(s@.subrange(k as int, k + 3) =~= placeholder());
            let head = String::from_str(text.substring_char(0, k));
            let head = head.concat(by.as_str());
            return head.concat(text.substring_char(k + 3, n));
        }
        assert(s@.subrange(k as int, k + 3)[0] == c0);
        assert(s@.subrange(k as int, k + 3)[1] == c1);
        assert(s@.subrange(k as int, k + 3)[2] == c2);
        assert(s@.subrange(k as int, k + 3) != placeholder());
        k = k + 1;
    }
    assert(find_from(s@, placeholder(), k as int) == None::<int>);
    s.clone()
}

impl Mapping {
    /// The `i`-th member of a range made from this mapping.
    pub fn index(&self, i: u8) -> (r: Mapping)
        requires
            self@.fits(i as nat),
        ensures
            r@ == self@.indexed(i as nat),
    {
        let digits = decimal_text(i);
        let name = replace_placeholder(&self.name, &digits);
        let ctrl_in_sequence = match &self.ctrl_in_sequence {
            Some(seq_in) => {
                let mut out: Vec<u8> = Vec::new();
                let mut k: usize = 0;
                while k < seq_in.len()
                    invariant
                        self.ctrl_in_sequence == Some(*seq_in),
                        self@.fits(i as nat),
                        k <= seq_in@.len(),
                        out@.len() == k,
                        forall|j: int| 0 <= j < k ==> out@[j] == offset(seq_in@[j], i as nat),
                    decreases seq_in@.len() - k,
                {
                    proof {
                        let q = self@.ctrl_in_sequence->0;
                        assert(q == seq_in@);
                        assert(q[k as int] + i <= 255);
                    }
                    out.push(seq_in[k] + i);
                    k = k + 1;
                }
                assert(out@ =~= Seq::new(seq_in@.len(), |j: int| offset(seq_in@[j], i as nat)));
                Some(out)
            },
            None => None,
        };
        let ctrl_in_num = match self.ctrl_in_num {
            Some(n) => Some(n + i),
            None => None,
        };
        let ctrl_out_num = match self.ctrl_out_num {
            Some(n) => Some(n + i),
            None => None,
        };
        let midi = match self.midi {
            Some(m) => Some(m.index(i)),
            None => None,
        };
        Mapping { name, ctrl_in_sequence, ctrl_in_num, ctrl_out_num, ctrl_kind: self.ctrl_kind, midi }
    }

    /// The OSC address of the control: `/` followed by its name.
    pub fn osc_addr(&self) -> (r: String)
        ensures
            r@ == self@.osc_addr(),
    {
        proof { reveal_strlit("/"); }
        String::from_str("/").concat(self.name.as_str())
    }
}

impl MappingView {
    /// Moving up by less keeps the numbers in range.
    pub proof fn lemma_fits_below(self, a: nat, b: nat)
        requires
            self.fits(b),
            a <= b,
        ensures
            self.fits(a),
    {
        if self.ctrl_in_sequence is Some {
            let q = self.ctrl_in_sequence->0;
            assert forall|k: int| 0 <= k < q.len() implies #[trigger] q[k] + a <= 255 by {
                assert(q[k] + b <= 255);
            }
        }
    }
}

impl Mapping {
    /// Whether every number of the mapping still fits in a byte after moving up by `i`.
    pub fn fits_at(&self, i: u8) -> (r: bool)
        ensures
            r == self@.fits(i as nat),
    {
        let seq_ok = match &self.ctrl_in_sequence {
            Some(seq_in) => {
                let ghost q = self@.ctrl_in_sequence->0;
                let mut ok = true;
                let mut k: usize = 0;
                while k < seq_in.len()
                    invariant
                        q == seq_in@,
                        k <= seq_in@.len(),
                        ok == (forall|j: int| 0 <= j < k ==> #[trigger] q[j] + i <= 255),
                    decreases seq_in@.len() - k,
                {
                    if seq_in[k] > 255 - i {
                        ok = false;
                    }
                    k = k + 1;
                }
                ok
            },
            None => true,
        };
        let in_ok = match self.ctrl_in_num {
            Some(n) => n <= 255 - i,
            None => true,
        };
        let out_ok = match self.ctrl_out_num {
            Some(n) => n <= 255 - i,
            None => true,
        };
        let midi_ok = match self.midi {
            Some(m) => m.num <= 255 - i,
            None => true,
        };
        seq_ok && in_ok && out_ok && midi_ok
    }
}

/// Either one mapping, or a range of `count` mappings made from one template.
#[derive(Clone, Debug)]
pub enum AbstractMapping {
    Single(Mapping),
    Range { count: u8, mapping: Mapping },
}

impl AbstractMapping {
    /// The concrete mappings, in order of index.
    pub open spec fn expanded(&self) -> Seq<MappingView> {
        match self {
            AbstractMapping::Single(m) => seq![m@.indexed(0)],
            AbstractMapping::Range { count, mapping } => Seq::new(
                *count as nat,
                |i: int| mapping@.indexed(i as nat),
            ),
        }
    }

    /// Every member of the expansion has its numbers in byte range.
    pub open spec fn in_range(&self) -> bool {
        match self {
            AbstractMapping::Single(m) => m@.fits(0),
            AbstractMapping::Range { count, mapping } => *count == 0 || mapping@.fits(
                (*count - 1) as nat,
            ),
        }
    }

    /// Whether every member of the expansion has its numbers in byte range.
    pub fn is_in_range(&self) -> (r: bool)
        ensures
            r == self.in_range(),
    {
        match self {
            AbstractMapping::Single(m) => m.fits_at(0),
            AbstractMapping::Range { count, mapping } => *count == 0 || mapping.fits_at(*count - 1),
        }
    }

    /// The concrete mappings: one for a single mapping (index 0), `count` for
    /// a range, the `i`-th being the template with its placeholder replaced by
    /// `i` and every number moved up by `i`.
    pub fn expand_iter(&self) -> (r: Vec<Mapping>)
        requires
            self.in_range(),
        ensures
            r@.len() == self.expanded().len(),
            forall|i: int| 0 <= i < r@.len() ==> (#[trigger] r@[i])@ == self.expanded()[i],
    {
        let mut mappings: Vec<Mapping> = Vec::new();
        match self {
            AbstractMapping::Single(mapping) => {
                mappings.push(mapping.index(0));
            },
            AbstractMapping::Range { count, mapping } => {
                let mut i: u8 = 0;
                while i < *count
                    invariant
                        self.in_range(),
                        *self == (AbstractMapping::Range { count: *count, mapping: *mapping }),
                        i <= *count,
                        mappings@.len() == i,
                        forall|j: int| 0 <= j < i ==> (#[trigger] mappings@[j])@ == mapping@.indexed(j as nat),
                    decreases *count - i,
                {
                    proof {
                        mapping@.lemma_fits_below(i as nat, (*count - 1) as nat);
                    }
                    mappings.push(mapping.index(i));
                    i = i + 1;
                }
            },
        }
        mappings
    }
}

/// The `i`-th member of a range in byte range: its name is the template's
/// with the placeholder replaced by the decimal text of `i`, each of its
/// numbers is the template's plus `i`, and the kind, MIDI channel and MIDI
/// kind are the template's.
pub proof fn lemma_range_member(count: u8, template: Mapping, i: int)
    requires
        (AbstractMapping::Range { count, mapping: template }).in_range(),
        0 <= i < count,
    ensures
        ({
            let t = template@;
            let m = (AbstractMapping::Range { count, mapping: template }).expanded()[i];
            &&& m.name == replace_first(t.name, placeholder(), decimal(i as nat))
            &&& m.ctrl_kind == t.ctrl_kind
            &&& (m.ctrl_in_num is Some <==> t.ctrl_in_num is Some)
            &&& (t.ctrl_in_num is Some ==> m.ctrl_in_num->0 == t.ctrl_in_num->0 + i)
            &&& (m.ctrl_out_num is Some <==> t.ctrl_out_num is Some)
            &&& (t.ctrl_out_num is Some ==> m.ctrl_out_num->0 == t.ctrl_out_num->0 + i)
            &&& (m.ctrl_in_sequence is Some <==> t.ctrl_in_sequence is Some)
            &&& (t.ctrl_in_sequence is Some ==> {
                let a = t.ctrl_in_sequence->0;
                let b = m.ctrl_in_sequence->0;
                &&& b.len() == a.len()
                &&& forall|k: int| 0 <= k < a.len() ==> #[trigger] b[k] == a[k] + i
            })
            &&& (m.midi is Some <==> t.midi is Some)
            &&& (t.midi is Some ==> {
                &&& m.midi->0.num == t.midi->0.num + i
                &&& m.midi->0.channel == t.midi->0.channel
                &&& m.midi->0.kind == t.midi->0.kind
            })
        }),
{
    let t = template@;
    t.lemma_fits_below(i as nat, (count - 1) as nat);
    if t.ctrl_in_sequence is Some {
        let a = t.ctrl_in_sequence->0;
        let b = t.indexed(i as nat).ctrl_in_sequence->0;
        assert forall|k: int| 0 <= k < a.len() implies #[trigger] b[k] == a[k] + i by {
            assert(a[k] + i <= 255);
        }
    }
}

/// An IPv4 socket address: four octets and a port.
#[derive(Clone, Copy, Debug, PartialEq, Eq)]
pub struct NetAddr {
    pub octets: [u8; 4],
    pub port: u16,
}

/// Addresses of the OSC side.
#[derive(Clone, Copy, Debug, PartialEq, Eq)]
pub struct OscInterface {
    /// Local address that outgoing messages are sent from.
    pub host_addr: NetAddr,
    /// Address that messages are sent to.
    pub out_addr: NetAddr,
    /// Local address that incoming messages arrive on.
    pub in_addr: NetAddr,
}

/// How a MIDI port is chosen.
#[derive(Clone, Debug)]
pub enum MidiPort {
    Index(usize),
    Name(String),
    Virtual(String),
}

/// The MIDI side: client name and the two ports.
#[derive(Clone, Debug)]
pub struct MidiInterface {
    pub client_name: String,
    pub out_port: MidiPort,
    pub in_port: MidiPort,
}

/// Which protocol the surface is bridged to.
#[derive(Clone, Debug)]
pub enum Interface {
    Osc(OscInterface),
    Midi(MidiInterface),
}

/// The whole configuration: the device, the protocol side and the mappings.
#[derive(Clone, Debug)]
pub struct Config {
    pub vendor_id: u16,
    pub product_id: u16,
    pub in_endpoint: u8,
    pub out_endpoint: u8,
    pub interface: Interface,
    pub mappings: Vec<AbstractMapping>,
}

} // verus!
