use pedaler_core::{
    check_references, parse, plan_circuit, validate_topology, BranchId, NodeId, PlanError,
    ReferenceError, TopologyError,
};

#[test]
fn plan_numbers_nodes_in_first_use_order() {
    let net = parse(
        ".input in\n.output out\nV1 in 0 DC 0\nR1 in mid 1k\nL1 mid out 10m\nDELAY D1 out x 1m\nR2 x GND 1k\n",
    )
    .unwrap();
    let plan = plan_circuit(&net).unwrap();
    assert_eq!(plan.nodes.num_nodes(), 5);
    assert_eq!(plan.nodes.node_name(NodeId(1)), "in");
    assert_eq!(plan.nodes.node_name(NodeId(2)), "mid");
    assert_eq!(plan.nodes.node_name(NodeId(3)), "out");
    assert_eq!(plan.nodes.node_name(NodeId(4)), "x");
    assert_eq!(plan.input_node, NodeId(1));
    assert_eq!(plan.output_node, NodeId(3));
    assert_eq!(plan.components[0].nodes, vec![NodeId(1), NodeId(0)]);
    assert_eq!(plan.components[1].nodes, vec![NodeId(1), NodeId(2)]);
    assert_eq!(plan.components[4].nodes, vec![NodeId(4), NodeId(0)]);
    // Voltage source, inductor and delay own branches 0, 1, 2 in order.
    assert_eq!(plan.components[0].branch, Some(BranchId(0)));
    assert_eq!(plan.components[1].branch, None);
    assert_eq!(plan.components[2].branch, Some(BranchId(1)));
    assert_eq!(plan.components[3].branch, Some(BranchId(2)));
    assert_eq!(plan.components[4].branch, None);
    assert_eq!(plan.num_branches, 3);
    assert_eq!(plan.nodes.matrix_size(plan.num_branches), 7);
}

#[test]
fn plan_lfo_has_no_nodes() {
    let net = parse(".input a\n.output a\nLFO LFO1 2 sine\nR1 a 0 1k\nREVERB RV1 a b\n").unwrap();
    let plan = plan_circuit(&net).unwrap();
    assert!(plan.components[0].nodes.is_empty());
    assert_eq!(plan.components[0].branch, None);
    assert_eq!(plan.components[2].branch, Some(BranchId(0)));
    assert_eq!(plan.num_branches, 1);
}

#[test]
fn plan_errors() {
    let net = parse("R1 a 0 1k").unwrap();
    assert_eq!(plan_circuit(&net).unwrap_err(), PlanError::MissingInput);
    let net = parse(".input a\nR1 a 0 1k").unwrap();
    assert_eq!(plan_circuit(&net).unwrap_err(), PlanError::MissingOutput);
    let net = parse(".input a\n.output z\nR1 a 0 1k").unwrap();
    assert_eq!(
        plan_circuit(&net).unwrap_err(),
        PlanError::NodeNotFound { node: "z".to_string() }
    );
    let net = parse(".input q\n.output z\nR1 a 0 1k").unwrap();
    assert_eq!(
        plan_circuit(&net).unwrap_err(),
        PlanError::NodeNotFound { node: "q".to_string() }
    );
}

#[test]
fn plan_ground_as_output() {
    let net = parse(".input a\n.output GND\nR1 a 0 1k").unwrap();
    let plan = plan_circuit(&net).unwrap();
    assert_eq!(plan.output_node, NodeId(0));
}

#[test]
fn topology_checks() {
    assert_eq!(validate_topology(NodeId(0), NodeId(2), 3), Err(TopologyError::InputIsGround));
    assert_eq!(validate_topology(NodeId(1), NodeId(0), 3), Err(TopologyError::OutputIsGround));
    assert_eq!(validate_topology(NodeId(1), NodeId(2), 0), Err(TopologyError::NoComponents));
    assert_eq!(validate_topology(NodeId(1), NodeId(1), 1), Ok(()));
}

#[test]
fn references_ok() {
    let net = parse(".model DX D (is=1e-14)\nR1 a b 1k\nD1 a 0 DX\nQ1 c b e\nR2 a 0 LFO1\n").unwrap();
    assert_eq!(check_references(&net), Ok(()));
}

#[test]
fn references_duplicate_component() {
    let net = parse("R1 a b 1k\nC1 a 0 1u\nR1 b 0 2k\n").unwrap();
    assert_eq!(
        check_references(&net),
        Err(ReferenceError::DuplicateComponent { name: "R1".to_string() })
    );
}

#[test]
fn references_undefined_model() {
    let net = parse(".model DX D\nD1 a 0 DX\nOP1 o p n TL072\n").unwrap();
    assert_eq!(
        check_references(&net),
        Err(ReferenceError::UndefinedModel {
            model: "TL072".to_string(),
            component: "OP1".to_string()
        })
    );
}

#[test]
fn references_first_issue_decides() {
    let net = parse("D1 a 0 NOPE\nD1 b 0 1\n").unwrap();
    assert_eq!(
        check_references(&net),
        Err(ReferenceError::UndefinedModel { model: "NOPE".to_string(), component: "D1".to_string() })
    );
}
