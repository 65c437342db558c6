//! Kinds of netlist entries and the rules that recognise them from words.

use vstd::prelude::*;

verus! {

/// Whether two characters are equal once ASCII letters are upper-cased.
pub open spec fn same_ascii_ci(a: char, b: char) -> bool {
    a == b || ('a' <= a && a <= 'z' && b as u32 + 32 == a as u32) || ('a' <= b && b <= 'z' && a
        as u32 + 32 == b as u32)
}

/// Whether two words are equal once ASCII letters are upper-cased.
pub open spec fn eq_ascii_ci(w: Seq<char>, k: Seq<char>) -> bool {
    w.len() == k.len() && forall|i: int| 0 <= i < w.len() ==> same_ascii_ci(#[trigger] w[i], k[i])
}

/// Whether `w` begins with `p`.
pub open spec fn has_prefix(w: Seq<char>, p: Seq<char>) -> bool {
    p.len() <= w.len() && w.subrange(0, p.len() as int) == p
}

fn same_ascii_ci_exec(a: char, b: char) -> (r: bool)
    ensures
        r == same_ascii_ci(a, b),
{
    a == b || ('a' <= a && a <= 'z' && b as u32 + 32 == a as u32) || ('a' <= b && b <= 'z' && a
        as u32 + 32 == b as u32)
}

/// Case-insensitive (ASCII) comparison of a word with a keyword.
pub fn eq_ignore_ascii_case(w: &str, k: &str) -> (r: bool)
    ensures
        r == eq_ascii_ci(w@, k@),
{
    let n = w.unicode_len();
    if n != k.unicode_len() {
        return false;
    }
    let mut i: usize = 0;
    while i < n
        invariant
            i <= n,
            n == w@.len(),
            n == k@.len(),
            forall|j: int| 0 <= j < i ==> same_ascii_ci(#[trigger] w@[j], k@[j]),
        decreases n - i,
    {
        if !same_ascii_ci_exec(w.get_char(i), k.get_char(i)) {
            return false;
        }
        i = i + 1;
    }
    true
}

/// Whether `w` begins with `p`.
pub fn starts_with(w: &str, p: &str) -> (r: bool)
    ensures
        r == has_prefix(w@, p@),
{
    let n = p.unicode_len();
    if n > w.unicode_len() {
        return false;
    }
    let mut i: usize = 0;
    while i < n
        invariant
            i <= n <= w@.len(),
            n == p@.len(),
            forall|j: int| 0 <= j < i ==> #[trigger] w@[j] == p@[j],
        decreases n - i,
    {
        if w.get_char(i) != p.get_char(i) {
            assert(w@.subrange(0, n as int)[i as int] != p@[i as int]);
            return false;
        }
        i = i + 1;
    }
    assert(w@.subrange(0, n as int) =~= p@);
    true
}

/// The kinds of component a netlist can hold.
#[derive(Debug, Clone, Copy, PartialEq, Eq, Structural)]
pub enum ComponentType {
    Resistor,
    Capacitor,
    Inductor,
    Diode,
    /// Bipolar transistor: collector, base, emitter.
    Bjt,
    VoltageSource,
    CurrentSource,
    /// Operational amplifier: out, in+, in-.
    OpAmp,
    /// Potentiometer: n1, wiper, n2.
    Potentiometer,
    Switch,
    /// Digital delay line between an input and an output node.
    Delay,
    /// Feedback-delay-network reverb between an input and an output node.
    Reverb,
    /// Low-frequency oscillator: a control signal with no terminals.
    Lfo,
}

/// Component kind named by a one-letter prefix, in either case.
pub open spec fn prefix_type(c: char) -> Option<ComponentType> {
    if same_ascii_ci(c, 'R') {
        Some(ComponentType::Resistor)
    } else if same_ascii_ci(c, 'C') {
        Some(ComponentType::Capacitor)
    } else if same_ascii_ci(c, 'L') {
        Some(ComponentType::Inductor)
    } else if same_ascii_ci(c, 'D') {
        Some(ComponentType::Diode)
    } else if same_ascii_ci(c, 'Q') {
        Some(ComponentType::Bjt)
    } else if same_ascii_ci(c, 'V') {
        Some(ComponentType::VoltageSource)
    } else if same_ascii_ci(c, 'I') {
        Some(ComponentType::CurrentSource)
    } else {
        None
    }
}

/// Component kind named by a keyword, in any ASCII case.
pub open spec fn keyword_type(w: Seq<char>) -> Option<ComponentType> {
    if eq_ascii_ci(w, "OP"@) || eq_ascii_ci(w, "OPAMP"@) {
        Some(ComponentType::OpAmp)
    } else if eq_ascii_ci(w, "POT"@) {
        Some(ComponentType::Potentiometer)
    } else if eq_ascii_ci(w, "SW"@) || eq_ascii_ci(w, "SWITCH"@) {
        Some(ComponentType::Switch)
    } else if eq_ascii_ci(w, "DELAY"@) {
        Some(ComponentType::Delay)
    } else if eq_ascii_ci(w, "REVERB"@) || eq_ascii_ci(w, "REV"@) {
        Some(ComponentType::Reverb)
    } else if eq_ascii_ci(w, "LFO"@) {
        Some(ComponentType::Lfo)
    } else {
        None
    }
}

/// Number of terminals of each kind of component.
pub open spec fn node_count(t: ComponentType) -> nat {
    match t {
        ComponentType::Bjt | ComponentType::OpAmp | ComponentType::Potentiometer => 3,
        ComponentType::Lfo => 0,
        _ => 2,
    }
}

impl ComponentType {
    /// The kind named by a one-letter prefix (R, C, L, D, Q, V, I).
    pub fn from_prefix(prefix: char) -> (r: Option<ComponentType>)
        ensures
            r == prefix_type(prefix),
    {
        if same_ascii_ci_exec(prefix, 'R') {
            Some(ComponentType::Resistor)
        } else if same_ascii_ci_exec(prefix, 'C') {
            Some(ComponentType::Capacitor)
        } else if same_ascii_ci_exec(prefix, 'L') {
            Some(ComponentType::Inductor)
        } else if same_ascii_ci_exec(prefix, 'D') {
            Some(ComponentType::Diode)
        } else if same_ascii_ci_exec(prefix, 'Q') {
            Some(ComponentType::Bjt)
        } else if same_ascii_ci_exec(prefix, 'V') {
            Some(ComponentType::VoltageSource)
        } else if same_ascii_ci_exec(prefix, 'I') {
            Some(ComponentType::CurrentSource)
        } else {
            None
        }
    }

    /// The kind named by a keyword (OP, OPAMP, POT, SW, SWITCH, DELAY,
    /// REVERB, REV, LFO).
    pub fn from_keyword(keyword: &str) -> (r: Option<ComponentType>)
        ensures
            r == keyword_type(keyword@),
    {
        if eq_ignore_ascii_case(keyword, "OP") || eq_ignore_ascii_case(keyword, "OPAMP") {
            Some(ComponentType::OpAmp)
        } else if eq_ignore_ascii_case(keyword, "POT") {
            Some(ComponentType::Potentiometer)
        } else if eq_ignore_ascii_case(keyword, "SW") || eq_ignore_ascii_case(keyword, "SWITCH") {
            Some(ComponentType::Switch)
        } else if eq_ignore_ascii_case(keyword, "DELAY") {
            Some(ComponentType::Delay)
        } else if eq_ignore_ascii_case(keyword, "REVERB") || eq_ignore_ascii_case(keyword, "REV") {
            Some(ComponentType::Reverb)
        } else if eq_ignore_ascii_case(keyword, "LFO") {
            Some(ComponentType::Lfo)
        } else {
            None
        }
    }

    /// The number of terminals this kind of component connects.
    pub fn expected_node_count(&self) -> (r: usize)
        ensures
            r == node_count(*self),
    {
        match self {
            ComponentType::Bjt | ComponentType::OpAmp | ComponentType::Potentiometer => 3,
            ComponentType::Lfo => 0,
            _ => 2,
        }
    }
}

/// The kinds of named device model.
#[derive(Debug, Clone, Copy, PartialEq, Eq, Structural)]
pub enum ModelType {
    Diode,
    BjtNpn,
    BjtPnp,
    OpAmp,
}

/// Model kind named by a word, in any ASCII case.
pub open spec fn model_type_of(w: Seq<char>) -> Option<ModelType> {
    if eq_ascii_ci(w, "D"@) || eq_ascii_ci(w, "DIODE"@) {
        Some(ModelType::Diode)
    } else if eq_ascii_ci(w, "NPN"@) {
        Some(ModelType::BjtNpn)
    } else if eq_ascii_ci(w, "PNP"@) {
        Some(ModelType::BjtPnp)
    } else if eq_ascii_ci(w, "OP"@) || eq_ascii_ci(w, "OPAMP"@) {
        Some(ModelType::OpAmp)
    } else {
        None
    }
}

impl ModelType {
    /// The model kind named by `s` (D, DIODE, NPN, PNP, OP, OPAMP).
    pub fn from_str(s: &str) -> (r: Option<ModelType>)
        ensures
            r == model_type_of(s@),
    {
        if eq_ignore_ascii_case(s, "D") || eq_ignore_ascii_case(s, "DIODE") {
            Some(ModelType::Diode)
        } else if eq_ignore_ascii_case(s, "NPN") {
            Some(ModelType::BjtNpn)
        } else if eq_ignore_ascii_case(s, "PNP") {
            Some(ModelType::BjtPnp)
        } else if eq_ignore_ascii_case(s, "OP") || eq_ignore_ascii_case(s, "OPAMP") {
            Some(ModelType::OpAmp)
        } else {
            None
        }
    }
}

/// Polarity of a bipolar transistor.
#[derive(Debug, Clone, Copy, PartialEq, Eq, Structural)]
pub enum BjtType {
    Npn,
    Pnp,
}

/// Waveform of a low-frequency oscillator.
#[derive(Debug, Clone, Copy, PartialEq, Eq, Structural)]
pub enum LfoShape {
    Sine,
    Triangle,
    Sawtooth,
    Square,
}

/// Waveform named by a word, in any ASCII case.
pub open spec fn lfo_shape_of(w: Seq<char>) -> Option<LfoShape> {
    if eq_ascii_ci(w, "sine"@) || eq_ascii_ci(w, "sin"@) {
        Some(LfoShape::Sine)
    } else if eq_ascii_ci(w, "triangle"@) || eq_ascii_ci(w, "tri"@) {
        Some(LfoShape::Triangle)
    } else if eq_ascii_ci(w, "sawtooth"@) || eq_ascii_ci(w, "saw"@) {
        Some(LfoShape::Sawtooth)
    } else if eq_ascii_ci(w, "square"@) || eq_ascii_ci(w, "sq"@) {
        Some(LfoShape::Square)
    } else {
        None
    }
}

impl LfoShape {
    /// The waveform named by `s` (sine, sin, triangle, tri, sawtooth, saw,
    /// square, sq). None of these names holds a letter that a non-ASCII
    /// character lower-cases to, so ASCII case folding decides exactly.
    pub fn from_str(s: &str) -> (r: Option<LfoShape>)
        ensures
            r == lfo_shape_of(s@),
    {
        if eq_ignore_ascii_case(s, "sine") || eq_ignore_ascii_case(s, "sin") {
            Some(LfoShape::Sine)
        } else if eq_ignore_ascii_case(s, "triangle") || eq_ignore_ascii_case(s, "tri") {
            Some(LfoShape::Triangle)
        } else if eq_ignore_ascii_case(s, "sawtooth") || eq_ignore_ascii_case(s, "saw") {
            Some(LfoShape::Sawtooth)
        } else if eq_ignore_ascii_case(s, "square") || eq_ignore_ascii_case(s, "sq") {
            Some(LfoShape::Square)
        } else {
            None
        }
    }
}

impl Default for LfoShape {
    fn default() -> (r: LfoShape)
        ensures
            r == LfoShape::Sine,
    {
        LfoShape::Sine
    }
}

} // verus!
