use pedaler_core::{
    float_syntax, is_value, parse, ComponentSyntax, ComponentType, DslError, ModelType,
    NetlistSyntax, Param, ParamValue, TokenKind,
};

/// The number a value text denotes: a float with an optional unit suffix.
fn number(text: &str) -> f64 {
    let last = text.chars().last().unwrap();
    let mult = match last {
        'p' => 1e-12,
        'n' => 1e-9,
        'u' | 'µ' => 1e-6,
        'm' => 1e-3,
        'k' | 'K' => 1e3,
        'M' => 1e6,
        'G' => 1e9,
        _ => 1.0,
    };
    let body = if mult != 1.0 { &text[..text.len() - last.len_utf8()] } else { text };
    body.parse::<f64>().unwrap() * mult
}

fn value_of(c: &ComponentSyntax) -> Option<f64> {
    c.value.as_deref().map(number)
}

fn model_param(ast: &NetlistSyntax, model: &str, name: &str) -> f64 {
    let m = ast.models.iter().find(|m| m.name == model).unwrap();
    number(&m.params.iter().rev().find(|p| p.name == name).unwrap().value)
}

#[test]
fn test_parse_resistor() {
    let input = "R1 in out 10k";
    let ast = parse(input).unwrap();
    assert_eq!(ast.components.len(), 1);
    assert_eq!(ast.components[0].component_type, ComponentType::Resistor);
    assert_eq!(ast.components[0].name, "R1");
    assert_eq!(ast.components[0].nodes, vec!["in", "out"]);
    assert_eq!(value_of(&ast.components[0]), Some(10_000.0));
}

#[test]
fn test_parse_input_output() {
    let input = ".input in\n.output out\nR1 in out 1k";
    let ast = parse(input).unwrap();
    assert_eq!(ast.input_node, Some("in".to_string()));
    assert_eq!(ast.output_node, Some("out".to_string()));
}

#[test]
fn test_parse_model() {
    let input = ".model DCLIP D (is=1e-14 n=1.8)";
    let ast = parse(input).unwrap();
    assert!(ast.models.iter().any(|m| m.name == "DCLIP"));
    let model = ast.models.iter().find(|m| m.name == "DCLIP").unwrap();
    assert_eq!(model.model_type, ModelType::Diode);
    assert!((model_param(&ast, "DCLIP", "is") - 1e-14).abs() < 1e-20);
}

#[test]
fn test_parse_with_comments() {
    let input = "# This is a comment\nR1 in out 1k ; inline comment style\n";
    let ast = parse(input).unwrap();
    assert_eq!(ast.components.len(), 1);
}

#[test]
fn parse_identity_passthrough_netlist() {
    let ast = parse(".input in\n.output out\nV1 in 0 DC 0\nR1 in out 1\nR2 out 0 1e12\n").unwrap();
    assert_eq!(ast.components.len(), 3);
    let v1 = &ast.components[0];
    assert_eq!(v1.component_type, ComponentType::VoltageSource);
    assert_eq!(v1.nodes, vec!["in", "0"]);
    // With the nodes complete, DC is read as a model reference.
    assert!(v1.params.is_empty());
    assert_eq!(v1.model_ref.as_deref(), Some("DC"));
    assert_eq!(value_of(v1), Some(0.0));
    assert_eq!(value_of(&ast.components[2]), Some(1e12));
}

#[test]
fn parse_source_flag_among_nodes() {
    // Before the nodes are complete, DC is a flag and the next word the value.
    let ast = parse("V1 in DC 5 0").unwrap();
    let v1 = &ast.components[0];
    assert_eq!(v1.params, vec![Param { name: "dc".to_string(), value: ParamValue::Flag }]);
    assert_eq!(v1.value.as_deref(), Some("5"));
    assert_eq!(v1.nodes, vec!["in", "0"]);
}

#[test]
fn parse_ground_aliases() {
    let ast = parse("R1 a gnd 1k\nC1 b GND 1u\nR2 0 c 5").unwrap();
    assert_eq!(ast.components[0].nodes, vec!["a", "0"]);
    assert_eq!(ast.components[1].nodes, vec!["b", "0"]);
    assert_eq!(ast.components[2].nodes, vec!["0", "c"]);
}

#[test]
fn parse_keyword_components_take_next_name() {
    let ast = parse("DELAY D1 in out 10m mix=1 feedback=0\nREVERB RV1 a b decay=0.5\nLFO LFO1 2 sine").unwrap();
    let d = &ast.components[0];
    assert_eq!(d.component_type, ComponentType::Delay);
    assert_eq!(d.name, "D1");
    assert_eq!(d.nodes, vec!["in", "out"]);
    assert_eq!(d.value.as_deref(), Some("10m"));
    assert_eq!(
        d.params,
        vec![
            Param { name: "mix".to_string(), value: ParamValue::Number("1".to_string()) },
            Param { name: "feedback".to_string(), value: ParamValue::Number("0".to_string()) },
        ]
    );
    assert_eq!(ast.components[1].component_type, ComponentType::Reverb);
    assert_eq!(ast.components[1].name, "RV1");
    let lfo = &ast.components[2];
    assert_eq!(lfo.component_type, ComponentType::Lfo);
    assert!(lfo.nodes.is_empty());
    assert_eq!(lfo.value.as_deref(), Some("2"));
    assert_eq!(lfo.model_ref.as_deref(), Some("sine"));
}

#[test]
fn parse_model_reference_and_position() {
    let ast = parse("D1 a k DCLIP\nPOT1 a w b 100k 0.3\nQ1 c b e BC549 Fast=3").unwrap();
    assert_eq!(ast.components[0].model_ref.as_deref(), Some("DCLIP"));
    let pot = &ast.components[1];
    assert_eq!(pot.component_type, ComponentType::Potentiometer);
    assert_eq!(pot.value.as_deref(), Some("100k"));
    assert_eq!(
        pot.params,
        vec![Param { name: "position".to_string(), value: ParamValue::Number("0.3".to_string()) }]
    );
    // Parameter names are lower-cased.
    assert_eq!(ast.components[2].params[0].name, "fast");
}

#[test]
fn parse_lfo_reference_is_kept_as_text() {
    let ast = parse("R1 a b 1k MOD=LFO1 depth=0.5").unwrap();
    let r = &ast.components[0];
    assert_eq!(r.lfo_ref.as_deref(), Some("LFO1"));
    assert_eq!(
        r.params,
        vec![Param { name: "depth".to_string(), value: ParamValue::Number("0.5".to_string()) }]
    );
    let ast = parse("R1 a b 1k lfo=SWEEP").unwrap();
    assert_eq!(ast.components[0].lfo_ref.as_deref(), Some("SWEEP"));
}

#[test]
fn parse_other_parameter_without_number_is_dropped() {
    let ast = parse("R1 a b 1k shape=fast").unwrap();
    assert!(ast.components[0].params.is_empty());
    assert_eq!(ast.components[0].lfo_ref, None);
}

#[test]
fn parse_empty_and_blank_input() {
    let ast = parse("").unwrap();
    assert!(ast.components.is_empty() && ast.models.is_empty());
    let ast = parse("\n\n   \n# only comments\n").unwrap();
    assert!(ast.components.is_empty());
    assert_eq!(ast.input_node, None);
}

#[test]
fn parse_error_unknown_component() {
    assert_eq!(
        parse("\nX1 a b").unwrap_err(),
        DslError::UnknownComponentType { line: 2, text: "X1".to_string() }
    );
}

#[test]
fn parse_error_missing_nodes() {
    assert_eq!(
        parse("Q1 c b").unwrap_err(),
        DslError::MissingNodes { line: 1, name: "Q1".to_string(), expected: 3, found: 2 }
    );
}

#[test]
fn parse_error_unknown_directive() {
    assert_eq!(
        parse(".param x").unwrap_err(),
        DslError::UnknownDirective { line: 1, text: ".param".to_string() }
    );
}

#[test]
fn parse_error_unknown_model_type() {
    assert_eq!(
        parse(".model M1 JFET").unwrap_err(),
        DslError::UnknownModelType { line: 1, text: "JFET".to_string() }
    );
}

#[test]
fn parse_error_invalid_model_number() {
    assert_eq!(
        parse(".model M1 D (is=abc)").unwrap_err(),
        DslError::InvalidNumber { line: 1, text: "abc".to_string() }
    );
}

#[test]
fn parse_error_expected_parameter_value() {
    assert_eq!(
        parse(".model M1 D (is=(").unwrap_err(),
        DslError::ExpectedParameterValue { line: 1 }
    );
}

#[test]
fn parse_error_duplicate_model() {
    assert_eq!(
        parse(".model M1 D\n.model M1 NPN").unwrap_err(),
        DslError::DuplicateModel { name: "M1".to_string() }
    );
}

#[test]
fn parse_error_unexpected_token() {
    assert_eq!(
        parse(".input 5").unwrap_err(),
        DslError::UnexpectedToken { line: 1, expected: TokenKind::Identifier, found: TokenKind::Number }
    );
    assert_eq!(
        parse("= R1").unwrap_err(),
        DslError::UnexpectedLineStart { line: 1, text: "=".to_string() }
    );
}

#[test]
fn parse_error_lexing_comes_where_reached() {
    // The parse error on line 1 comes before the bad character on line 2.
    assert_eq!(
        parse("X1 a\nR1 a b $").unwrap_err(),
        DslError::UnknownComponentType { line: 1, text: "X1".to_string() }
    );
    assert_eq!(
        parse("R1 a b 1k\nR2 a $").unwrap_err(),
        DslError::UnexpectedCharacter { line: 2, column: 6, found: '$' }
    );
}

#[test]
fn value_syntax() {
    for t in ["10k", "100n", "4.7u", "1M", "2.2", "1e-9", "-3", "+.5", "1.", "inf", "Infinity", "2E+3m"] {
        assert!(is_value(t), "{}", t);
    }
    for t in ["", "k", "abc", ".", "1e", "e5", "1.2.3", "--1", "nan", "10kk", "DC"] {
        assert!(!is_value(t), "{}", t);
    }
    assert!(float_syntax("NaN"));
    assert!(float_syntax("-inf"));
    assert!(!float_syntax("1k"));
}

#[test]
fn parse_error_on_first_token() {
    assert_eq!(
        parse("@").unwrap_err(),
        DslError::UnexpectedCharacter { line: 1, column: 1, found: '@' }
    );
    assert_eq!(
        parse("  @\n.input in\n.output out\nR1 in out 1k").unwrap_err(),
        DslError::UnexpectedCharacter { line: 1, column: 3, found: '@' }
    );
}
