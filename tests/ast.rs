use pedaler_core::{
    classify_header, component_header, ComponentHeader, ComponentType, Directive, LfoShape,
    ModelType,
};

#[test]
fn component_prefixes() {
    assert_eq!(ComponentType::from_prefix('R'), Some(ComponentType::Resistor));
    assert_eq!(ComponentType::from_prefix('c'), Some(ComponentType::Capacitor));
    assert_eq!(ComponentType::from_prefix('l'), Some(ComponentType::Inductor));
    assert_eq!(ComponentType::from_prefix('D'), Some(ComponentType::Diode));
    assert_eq!(ComponentType::from_prefix('q'), Some(ComponentType::Bjt));
    assert_eq!(ComponentType::from_prefix('V'), Some(ComponentType::VoltageSource));
    assert_eq!(ComponentType::from_prefix('i'), Some(ComponentType::CurrentSource));
    assert_eq!(ComponentType::from_prefix('X'), None);
    assert_eq!(ComponentType::from_prefix('?'), None);
}

#[test]
fn component_keywords() {
    assert_eq!(ComponentType::from_keyword("op"), Some(ComponentType::OpAmp));
    assert_eq!(ComponentType::from_keyword("OpAmp"), Some(ComponentType::OpAmp));
    assert_eq!(ComponentType::from_keyword("POT"), Some(ComponentType::Potentiometer));
    assert_eq!(ComponentType::from_keyword("switch"), Some(ComponentType::Switch));
    assert_eq!(ComponentType::from_keyword("Delay"), Some(ComponentType::Delay));
    assert_eq!(ComponentType::from_keyword("rev"), Some(ComponentType::Reverb));
    assert_eq!(ComponentType::from_keyword("REVERB"), Some(ComponentType::Reverb));
    assert_eq!(ComponentType::from_keyword("lfo"), Some(ComponentType::Lfo));
    assert_eq!(ComponentType::from_keyword("R"), None);
    assert_eq!(ComponentType::from_keyword("POTS"), None);
    assert_eq!(ComponentType::from_keyword(""), None);
}

#[test]
fn component_node_counts() {
    assert_eq!(ComponentType::Resistor.expected_node_count(), 2);
    assert_eq!(ComponentType::Capacitor.expected_node_count(), 2);
    assert_eq!(ComponentType::Inductor.expected_node_count(), 2);
    assert_eq!(ComponentType::Diode.expected_node_count(), 2);
    assert_eq!(ComponentType::Bjt.expected_node_count(), 3);
    assert_eq!(ComponentType::VoltageSource.expected_node_count(), 2);
    assert_eq!(ComponentType::CurrentSource.expected_node_count(), 2);
    assert_eq!(ComponentType::OpAmp.expected_node_count(), 3);
    assert_eq!(ComponentType::Potentiometer.expected_node_count(), 3);
    assert_eq!(ComponentType::Switch.expected_node_count(), 2);
    assert_eq!(ComponentType::Delay.expected_node_count(), 2);
    assert_eq!(ComponentType::Reverb.expected_node_count(), 2);
    assert_eq!(ComponentType::Lfo.expected_node_count(), 0);
}

#[test]
fn model_types() {
    assert_eq!(ModelType::from_str("d"), Some(ModelType::Diode));
    assert_eq!(ModelType::from_str("Diode"), Some(ModelType::Diode));
    assert_eq!(ModelType::from_str("npn"), Some(ModelType::BjtNpn));
    assert_eq!(ModelType::from_str("PNP"), Some(ModelType::BjtPnp));
    assert_eq!(ModelType::from_str("opamp"), Some(ModelType::OpAmp));
    assert_eq!(ModelType::from_str("OP"), Some(ModelType::OpAmp));
    assert_eq!(ModelType::from_str("jfet"), None);
}

#[test]
fn lfo_shapes() {
    assert_eq!(LfoShape::from_str("Sine"), Some(LfoShape::Sine));
    assert_eq!(LfoShape::from_str("SIN"), Some(LfoShape::Sine));
    assert_eq!(LfoShape::from_str("tri"), Some(LfoShape::Triangle));
    assert_eq!(LfoShape::from_str("triangle"), Some(LfoShape::Triangle));
    assert_eq!(LfoShape::from_str("saw"), Some(LfoShape::Sawtooth));
    assert_eq!(LfoShape::from_str("SawTooth"), Some(LfoShape::Sawtooth));
    assert_eq!(LfoShape::from_str("sq"), Some(LfoShape::Square));
    assert_eq!(LfoShape::from_str("square"), Some(LfoShape::Square));
    assert_eq!(LfoShape::from_str("noise"), None);
    assert_eq!(LfoShape::default(), LfoShape::Sine);
}

fn header(t: ComponentType, name_follows: bool) -> Option<ComponentHeader> {
    Some(ComponentHeader { component_type: t, name_follows })
}

#[test]
fn headers_keywords_before_prefixes() {
    assert_eq!(component_header("DELAY"), header(ComponentType::Delay, true));
    assert_eq!(component_header("reverb"), header(ComponentType::Reverb, true));
    assert_eq!(component_header("LFO"), header(ComponentType::Lfo, true));
    assert_eq!(component_header("OP"), header(ComponentType::OpAmp, true));
}

#[test]
fn headers_multi_letter_prefixes() {
    assert_eq!(component_header("OP1"), header(ComponentType::OpAmp, false));
    assert_eq!(component_header("pot_gain"), header(ComponentType::Potentiometer, false));
    assert_eq!(component_header("sw1"), header(ComponentType::Switch, false));
    assert_eq!(component_header("DELAY2"), header(ComponentType::Delay, true));
    assert_eq!(component_header("Rev2"), header(ComponentType::Reverb, true));
}

#[test]
fn headers_single_letter_prefixes() {
    assert_eq!(component_header("R1"), header(ComponentType::Resistor, false));
    assert_eq!(component_header("d_clip"), header(ComponentType::Diode, false));
    assert_eq!(component_header("Q3"), header(ComponentType::Bjt, false));
    assert_eq!(component_header("VIN"), header(ComponentType::VoltageSource, false));
    assert_eq!(component_header("X1"), None);
    assert_eq!(component_header(""), None);
}

#[test]
fn headers_from_given_upper_case() {
    // The multi-letter prefixes are read from the upper-cased form.
    assert_eq!(classify_header("sw1", "SW1"), header(ComponentType::Switch, false));
    assert_eq!(classify_header("sw1", "sw1"), None);
    assert_eq!(classify_header("s1", "SW1"), header(ComponentType::Switch, false));
}

#[test]
fn directives() {
    assert_eq!(Directive::from_text(".input"), Some(Directive::Input));
    assert_eq!(Directive::from_text(".OUTPUT"), Some(Directive::Output));
    assert_eq!(Directive::from_text(".Node"), Some(Directive::Node));
    assert_eq!(Directive::from_text(".model"), Some(Directive::Model));
    assert_eq!(Directive::from_text(".param"), None);
    assert_eq!(Directive::from_text("input"), None);
}
