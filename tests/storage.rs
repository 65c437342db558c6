use pedaler_core::{
    le_bytes_from_words, words_from_le_bytes, BranchId, ComponentId, NodeId,
    NodeTable, SampleRing, Switch, VarIndex,
};

/// Feeds `inputs` through a ring used as a pure delay and returns what it
/// reads at each tick.
fn run_delay(n: usize, inputs: &[i32]) -> Vec<i32> {
    let mut ring = SampleRing::new(n, 0);
    inputs
        .iter()
        .map(|&u| {
            let d = ring.read();
            ring.write_and_advance(u);
            d
        })
        .collect()
}

#[test]
fn delay_is_silent_then_repeats_input() {
    let n = 8;
    let inputs: Vec<i32> = (1..=2 * n as i32).collect();
    let out = run_delay(n, &inputs);
    assert!(out[..n].iter().all(|&x| x == 0));
    assert_eq!(&out[n..], &inputs[..n]);
}

#[test]
fn delay_impulse_reappears_after_length() {
    let n = 480;
    let mut inputs = vec![0; 3 * n];
    inputs[0] = 1;
    let out = run_delay(n, &inputs);
    for (k, &x) in out.iter().enumerate() {
        assert_eq!(x, if k == n { 1 } else { 0 });
    }
}

#[test]
fn ring_of_zero_length_has_one_slot() {
    let mut ring = SampleRing::new(0, 7u8);
    assert_eq!(ring.len(), 1);
    assert_eq!(ring.read(), 7);
    ring.write_and_advance(9);
    assert_eq!(ring.position(), 0);
    assert_eq!(ring.read(), 9);
}

#[test]
fn ring_head_wraps() {
    let mut ring = SampleRing::new(3, 0u32);
    for x in 1..=3 {
        ring.write_and_advance(x);
    }
    assert_eq!(ring.position(), 0);
    assert_eq!(ring.read(), 1);
}

#[test]
fn ring_reset_twice_equals_once() {
    let mut a = SampleRing::new(5, 0i64);
    for x in 1..=7 {
        a.write_and_advance(x);
    }
    a.reset(0);
    let once: Vec<i64> = (0..5).map(|_| { let v = a.read(); a.write_and_advance(v); v }).collect();
    assert_eq!(a.position(), 0);
    a.reset(0);
    a.reset(0);
    assert_eq!(a.position(), 0);
    let twice: Vec<i64> = (0..5).map(|_| { let v = a.read(); a.write_and_advance(v); v }).collect();
    assert_eq!(once, twice);
    assert_eq!(once, vec![0; 5]);
}

#[test]
fn solution_vector_layout() {
    // Three nodes (ground, 1, 2) and two branches.
    assert_eq!(VarIndex::Voltage(NodeId(1)).to_index(3), 0);
    assert_eq!(VarIndex::Voltage(NodeId(2)).to_index(3), 1);
    assert_eq!(VarIndex::Current(BranchId(0)).to_index(3), 2);
    assert_eq!(VarIndex::Current(BranchId(1)).to_index(3), 3);
    assert!(NodeId(0).is_ground());
    assert!(!NodeId(4).is_ground());
    assert_eq!(NodeId::ground(), NodeId(0));
}

#[test]
fn node_table_resolution() {
    let mut t = NodeTable::new();
    assert_eq!(t.num_nodes(), 1);
    assert_eq!(t.find_node("0"), Some(NodeId(0)));
    assert_eq!(t.find_node("GND"), Some(NodeId(0)));
    assert_eq!(t.find_node("in"), None);
    assert_eq!(t.intern("in"), NodeId(1));
    assert_eq!(t.intern("out"), NodeId(2));
    assert_eq!(t.intern("in"), NodeId(1));
    assert_eq!(t.intern("GND"), NodeId(0));
    assert_eq!(t.num_nodes(), 3);
    assert_eq!(t.node_name(NodeId(2)), "out");
    assert_eq!(t.node_index(NodeId(0)), None);
    assert_eq!(t.node_index(NodeId(2)), Some(1));
    assert_eq!(t.branch_index(BranchId(1)), 3);
    assert_eq!(t.matrix_size(2), 4);
}

#[test]
fn switch_state() {
    let mut sw = Switch::new(ComponentId(3), "SW1".to_string(), [NodeId(1), NodeId(2)], false);
    assert!(!sw.closed);
    sw.toggle();
    assert!(sw.closed);
    sw.toggle();
    assert!(!sw.closed);
    sw.set_state(true);
    assert!(sw.closed);
    assert_eq!(sw.nodes, [NodeId(1), NodeId(2)]);
    assert_eq!(sw.name, "SW1");
}

#[test]
fn audio_words_little_endian() {
    let bytes = [0x00, 0x00, 0x80, 0x3f, 0x01, 0x02, 0x03, 0x04, 0xff];
    let words = words_from_le_bytes(&bytes);
    assert_eq!(words, vec![0x3f80_0000, 0x0403_0201]);
    assert_eq!(f32::from_bits(words[0]), 1.0f32);
    assert_eq!(words_from_le_bytes(&[1, 2, 3]), Vec::<u32>::new());
}

#[test]
fn audio_bytes_round_trip() {
    let words = [0u32, 1, 0xdead_beef, u32::MAX, (-0.5f32).to_bits()];
    let bytes = le_bytes_from_words(&words);
    assert_eq!(bytes.len(), 20);
    assert_eq!(&bytes[8..12], &[0xef, 0xbe, 0xad, 0xde]);
    assert_eq!(words_from_le_bytes(&bytes), words.to_vec());
}
