use sonex::{AudioNode, AudioNodeChain};

#[derive(Clone, Debug, PartialEq)]
struct TestNode {
    multiplier: f32,
}

impl TestNode {
    fn new(multiplier: f32) -> Self {
        TestNode { multiplier }
    }
}

impl AudioNode for TestNode {
    type Sample = f32;

    fn emit(&self, x: f32) -> f32 {
        x * self.multiplier
    }

    fn next(&self, _x: f32) -> Self {
        self.clone()
    }

    fn process_in_place(&mut self, buffer: &mut Vec<f32>) {
        for x in buffer.iter_mut() {
            *x *= self.multiplier;
        }
    }

    fn node_type(&self) -> &'static str {
        "test"
    }

    fn duplicate(&self) -> Self {
        self.clone()
    }
}

/// Emits the running sum of everything it has seen, across calls.
#[derive(Clone, Debug, PartialEq)]
struct RunningSum {
    total: i64,
}

impl AudioNode for RunningSum {
    type Sample = i64;

    fn emit(&self, x: i64) -> i64 {
        self.total + x
    }

    fn next(&self, x: i64) -> Self {
        RunningSum { total: self.total + x }
    }

    fn process_in_place(&mut self, buffer: &mut Vec<i64>) {
        for x in buffer.iter_mut() {
            self.total += *x;
            *x = self.total;
        }
    }

    fn node_type(&self) -> &'static str {
        "running_sum"
    }

    fn duplicate(&self) -> Self {
        self.clone()
    }
}

fn check_node_processing(multiplier: f32, input: Vec<f32>, expected: Vec<f32>) {
    let mut node = TestNode::new(multiplier);
    let output = node.process(&input);
    assert_eq!(output, expected);
    let mut buffer = input.clone();
    node.process_in_place(&mut buffer);
    assert_eq!(buffer, expected);
}

#[test]
fn test_node_processing() {
    check_node_processing(2.0, vec![1.0, 2.0, 3.0], vec![2.0, 4.0, 6.0]);
    check_node_processing(3.0, vec![1.0, 2.0, 3.0], vec![3.0, 6.0, 9.0]);
    check_node_processing(0.5, vec![2.0, 4.0, 6.0], vec![1.0, 2.0, 3.0]);
}

#[test]
fn test_chain_empty() {
    let input = vec![1.0f32, 2.0, 3.0];
    let mut chain: AudioNodeChain<TestNode> = AudioNodeChain::new();
    assert_eq!(chain.len(), 0);
    assert_eq!(chain.process(&input), input);
    let mut buffer = input.clone();
    chain.process_in_place(&mut buffer);
    assert_eq!(buffer, input);
}

fn check_chain_processing(nodes: Vec<TestNode>, input: Vec<f32>, expected: Vec<f32>) {
    let mut chain = AudioNodeChain::new();
    for node in nodes {
        chain.add_node(node);
    }
    let output = chain.process(&input);
    assert_eq!(output, expected);
    let mut buffer = input.clone();
    chain.process_in_place(&mut buffer);
    assert_eq!(buffer, expected);
}

#[test]
fn test_chain_processing() {
    check_chain_processing(vec![TestNode::new(2.0)], vec![1.0, 2.0, 3.0], vec![2.0, 4.0, 6.0]);
    check_chain_processing(
        vec![TestNode::new(2.0), TestNode::new(3.0)],
        vec![1.0, 2.0, 3.0],
        vec![6.0, 12.0, 18.0],
    );
}

#[test]
fn test_box_clone() {
    let input = vec![1.0f32, 2.0, 3.0];
    let mut node = TestNode::new(2.0);
    let mut cloned = node.duplicate();
    assert_eq!(node.process(&input), cloned.process(&input));
    assert_eq!(cloned.node_type(), "test");
}

#[test]
fn two_node_chain_is_sequential_application() {
    let input = vec![1i64, 2, 3, 4];
    let mut a = RunningSum { total: 0 };
    let mut b = RunningSum { total: 10 };
    let mut chain = AudioNodeChain::new();
    chain.add_node(a.duplicate());
    chain.add_node(b.duplicate());
    let through_chain = chain.process(&input);
    let by_hand = b.process(&a.process(&input));
    assert_eq!(through_chain, by_hand);
    assert_eq!(through_chain, vec![11, 14, 20, 30]);
}

#[test]
fn process_equals_process_in_place_for_stateful_nodes() {
    let input = vec![5i64, -2, 7];
    let mut n1 = RunningSum { total: 3 };
    let mut n2 = n1.duplicate();
    let out = n1.process(&input);
    let mut buf = input.clone();
    n2.process_in_place(&mut buf);
    assert_eq!(out, buf);
    assert_eq!(out, vec![8, 6, 13]);
    assert_eq!(n1, n2);
}

#[test]
fn chain_state_carries_across_calls() {
    let mut chain = AudioNodeChain::new();
    chain.add_node(RunningSum { total: 0 });
    chain.add_node(RunningSum { total: 0 });
    assert_eq!(chain.process(&vec![1, 1]), vec![1, 3]);
    assert_eq!(chain.process(&vec![1]), vec![6]);
    let mut buf = vec![0i64];
    chain.process_in_place(&mut buf);
    assert_eq!(buf, vec![9]);
}

#[test]
fn step_functions_describe_processing() {
    let node = RunningSum { total: 2 };
    let mut by_process = node.duplicate();
    let out = by_process.process(&vec![3, 4]);
    let first = node.emit(3);
    let after_first = node.next(3);
    let second = after_first.emit(4);
    assert_eq!(out, vec![first, second]);
    assert_eq!(by_process, after_first.next(4));
}

#[test]
fn duplicate_is_independent_of_the_original() {
    let mut original = RunningSum { total: 1 };
    let mut copy = original.duplicate();
    assert_eq!(original.process(&vec![100]), vec![101]);
    assert_eq!(copy.process(&vec![2]), vec![3]);
    assert_eq!(original.process(&vec![0]), vec![101]);
    assert_eq!(copy.process(&vec![0]), vec![3]);
}

#[test]
fn buffer_chain_equals_sample_interleaved_pipeline() {
    let input = vec![4i64, -1, 0, 9, 2];
    let mut by_buffer = AudioNodeChain::new();
    let mut by_sample = AudioNodeChain::new();
    for start in [0i64, 5, -3] {
        by_buffer.add_node(RunningSum { total: start });
        by_sample.add_node(RunningSum { total: start });
    }
    let whole = by_buffer.process(&input);
    let mut one_by_one = Vec::new();
    for &x in &input {
        one_by_one.extend(by_sample.process(&vec![x]));
    }
    assert_eq!(whole, one_by_one);
    assert_eq!(whole, vec![6, 18, 33, 60, 101]);
    assert_eq!(by_buffer.len(), 3);
}
