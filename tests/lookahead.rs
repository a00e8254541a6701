use sonex::{Lookahead, Tap};

fn run(w: &mut Lookahead<f32>, xs: &[f32]) -> Vec<Tap<f32>> {
    xs.iter().map(|&x| w.advance(x)).collect()
}

#[test]
fn fill_phase_echoes_each_sample() {
    let mut w = Lookahead::new(3, 0.0f32);
    let taps = run(&mut w, &[0.25, -0.5, 0.75]);
    assert_eq!(taps, vec![Tap::Fill(0.25), Tap::Fill(-0.5), Tap::Fill(0.75)]);
    assert_eq!(w.pending_len(), 3);
}

#[test]
fn steady_phase_emits_the_sample_lookahead_steps_back() {
    let mut w = Lookahead::new(2, 0.0f32);
    let taps = run(&mut w, &[1.0, 2.0, 3.0, 4.0, 5.0]);
    assert_eq!(
        taps,
        vec![
            Tap::Fill(1.0),
            Tap::Fill(2.0),
            Tap::Steady { newest: 3.0, oldest: 1.0 },
            Tap::Steady { newest: 4.0, oldest: 2.0 },
            Tap::Steady { newest: 5.0, oldest: 3.0 },
        ]
    );
    assert_eq!(w.pending_len(), 2);
    assert_eq!(w.lookahead_samples(), 2);
}

#[test]
fn zero_lookahead_has_no_fill_phase() {
    let mut w = Lookahead::new(0, 0.0f32);
    let taps = run(&mut w, &[1.0, 1.0, 1.0]);
    for t in taps {
        assert_eq!(t, Tap::Steady { newest: 1.0, oldest: 1.0 });
    }
    assert_eq!(w.pending_len(), 0);
}

#[test]
fn window_state_carries_across_calls() {
    let mut one = Lookahead::new(2, 0i32);
    let mut two = Lookahead::new(2, 0i32);
    let all: Vec<Tap<i32>> = [7, 8, 9, 10].iter().map(|&x| one.advance(x)).collect();
    let mut split: Vec<Tap<i32>> = [7, 8].iter().map(|&x| two.advance(x)).collect();
    split.extend([9, 10].iter().map(|&x| two.advance(x)));
    assert_eq!(all, split);
}

#[test]
fn window_duplicate_evolves_independently() {
    let mut w = Lookahead::new(1, 0.0f32);
    w.advance(0.5);
    let mut d = w.duplicate();
    assert_eq!(w.advance(0.9), Tap::Steady { newest: 0.9, oldest: 0.5 });
    assert_eq!(d.advance(0.1), Tap::Steady { newest: 0.1, oldest: 0.5 });
    assert_eq!(w.advance(0.0), Tap::Steady { newest: 0.0, oldest: 0.9 });
    assert_eq!(d.advance(0.0), Tap::Steady { newest: 0.0, oldest: 0.1 });
}
