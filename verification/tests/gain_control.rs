use gain_ramp::gain_control::GainControl;
use gain_ramp::rational::Rat;

fn r(num: i64, den: i64) -> Rat {
    Rat::new(num, den)
}

#[test]
fn test_initial_gain() {
    let mut gc = GainControl::new(r(1, 1));
    let y = gc.process_sample(r(1, 2));
    assert!(y.value_eq(&r(1, 2)));
}

#[test]
fn test_instant_gain_change() {
    let mut gc = GainControl::new(r(1, 1));
    gc.set_gain(r(2, 1), 1);
    let y = gc.process_sample(r(1, 1));
    assert!(y.value_eq(&r(2, 1)));
    assert!(gc.current_gain().value_eq(&r(2, 1)));
    assert_eq!(gc.samples_left(), 0);
}

#[test]
fn test_ramped_gain_single_samples() {
    let mut gc = GainControl::new(r(1, 1));
    gc.set_gain(r(2, 1), 4);

    let inputs = [r(1, 1), r(1, 1), r(1, 1), r(1, 1)];
    let expected_gains = [r(5, 4), r(3, 2), r(7, 4), r(2, 1)];

    for (expected_gain, x) in expected_gains.iter().zip(&inputs) {
        let y = gc.process_sample(*x);
        assert!(y.value_eq(expected_gain));
    }

    assert!(gc.current_gain().value_eq(&r(2, 1)));
    assert_eq!(gc.samples_left(), 0);
}

#[test]
fn test_process_block_constant_gain() {
    let mut gc = GainControl::new(r(1, 1));
    gc.set_gain(r(3, 2), 1);
    let input = vec![r(1, 1); 5];
    let mut output = vec![r(0, 1); 5];
    gc.process_block(&input, &mut output);
    for y in &output {
        assert!(y.value_eq(&r(3, 2)));
    }
}

#[test]
fn test_process_block_with_ramp() {
    let mut gc = GainControl::new(r(1, 1));
    gc.set_gain(r(2, 1), 4);
    let input = vec![r(1, 1); 4];
    let mut output = vec![r(0, 1); 4];
    gc.process_block(&input, &mut output);
    let expected = [r(5, 4), r(3, 2), r(7, 4), r(2, 1)];
    for (o, e) in output.iter().zip(&expected) {
        assert!(o.value_eq(e));
    }
    assert!(gc.current_gain().value_eq(&r(2, 1)));
    assert_eq!(gc.samples_left(), 0);
}

#[test]
fn test_process_block_partial_ramp() {
    let mut gc = GainControl::new(r(1, 1));
    gc.set_gain(r(3, 1), 6);

    let input1 = vec![r(1, 1); 4];
    let mut output1 = vec![r(0, 1); 4];
    gc.process_block(&input1, &mut output1);

    let expected1 = [r(4, 3), r(5, 3), r(2, 1), r(7, 3)];
    for (o, e) in output1.iter().zip(&expected1) {
        assert!(o.value_eq(e));
    }

    let input2 = vec![r(1, 1); 2];
    let mut output2 = vec![r(0, 1); 2];
    gc.process_block(&input2, &mut output2);

    let expected2 = [r(8, 3), r(3, 1)];
    for (o, e) in output2.iter().zip(&expected2) {
        assert!(o.value_eq(e));
    }

    assert!(gc.current_gain().value_eq(&r(3, 1)));
    assert_eq!(gc.samples_left(), 0);
}

#[test]
fn stability_at_construction_scales_by_initial_gain() {
    let mut gc = GainControl::new(r(-3, 7));
    assert_eq!(gc.samples_left(), 0);
    let y = gc.process_sample(r(2, 5));
    assert!(y.value_eq(&r(-6, 35)));
    assert!(gc.current_gain().value_eq(&r(-3, 7)));
    assert_eq!(gc.samples_left(), 0);
}

#[test]
fn instant_change_mid_ramp_supersedes() {
    let mut gc = GainControl::new(r(1, 1));
    gc.set_gain(r(3, 1), 6);
    let _ = gc.process_sample(r(1, 1));
    gc.set_gain(r(5, 1), 1);
    assert_eq!(gc.samples_left(), 0);
    let y = gc.process_sample(r(2, 1));
    assert!(y.value_eq(&r(10, 1)));
    assert!(gc.current_gain().value_eq(&r(5, 1)));
}

#[test]
fn ramp_scales_each_input_sample() {
    let mut gc = GainControl::new(r(1, 1));
    gc.set_gain(r(2, 1), 4);
    let y1 = gc.process_sample(r(4, 1));
    assert!(y1.value_eq(&r(5, 1)));
    let y2 = gc.process_sample(r(-2, 1));
    assert!(y2.value_eq(&r(-3, 1)));
    let y3 = gc.process_sample(r(0, 1));
    assert!(y3.value_eq(&r(0, 1)));
    let y4 = gc.process_sample(r(1, 2));
    assert!(y4.value_eq(&r(1, 1)));
}

#[test]
fn chunking_gives_identical_outputs() {
    let mut one_block = GainControl::new(r(1, 1));
    one_block.set_gain(r(3, 1), 6);
    let input = vec![r(1, 1); 6];
    let mut whole = vec![r(0, 1); 6];
    one_block.process_block(&input, &mut whole);

    let mut chunked = GainControl::new(r(1, 1));
    chunked.set_gain(r(3, 1), 6);
    let mut collected = Vec::new();
    for size in [1usize, 2, 3] {
        let part_in = vec![r(1, 1); size];
        let mut part_out = vec![r(0, 1); size];
        chunked.process_block(&part_in, &mut part_out);
        collected.extend(part_out);
    }

    assert_eq!(whole.len(), collected.len());
    for (a, b) in whole.iter().zip(&collected) {
        assert!(a.value_eq(b));
    }
    assert_eq!(one_block.samples_left(), chunked.samples_left());
    assert!(one_block.current_gain().value_eq(&chunked.current_gain()));
}

#[test]
fn completed_ramp_sits_exactly_on_target() {
    let mut gc = GainControl::new(r(1, 1));
    gc.set_gain(r(1, 3), 7);
    for _ in 0..7 {
        let _ = gc.process_sample(r(1, 1));
    }
    assert_eq!(gc.samples_left(), 0);
    // The snap leaves the target's own representation, not merely an
    // equal value.
    assert_eq!(gc.current_gain().num(), 1);
    assert_eq!(gc.current_gain().den(), 3);
}

#[test]
fn reschedule_mid_ramp_starts_from_current_gain() {
    let mut gc = GainControl::new(r(1, 1));
    gc.set_gain(r(3, 1), 6);
    let _ = gc.process_sample(r(1, 1));
    let _ = gc.process_sample(r(1, 1));
    assert!(gc.current_gain().value_eq(&r(5, 3)));
    // The new ramp interpolates from 5/3 to 0 over 2 samples, not from
    // the original start gain 1.
    gc.set_gain(r(0, 1), 2);
    assert_eq!(gc.samples_left(), 2);
    let y1 = gc.process_sample(r(1, 1));
    assert!(y1.value_eq(&r(5, 6)));
    let y2 = gc.process_sample(r(1, 1));
    assert!(y2.value_eq(&r(0, 1)));
    assert_eq!(gc.samples_left(), 0);
    assert!(gc.current_gain().value_eq(&r(0, 1)));
}

#[test]
fn empty_block_changes_nothing() {
    let mut gc = GainControl::new(r(2, 1));
    gc.set_gain(r(4, 1), 3);
    let input: Vec<Rat> = Vec::new();
    let mut output: Vec<Rat> = Vec::new();
    gc.process_block(&input, &mut output);
    assert!(output.is_empty());
    assert_eq!(gc.samples_left(), 3);
    assert!(gc.current_gain().value_eq(&r(2, 1)));
}

#[test]
fn value_eq_compares_values_not_representations() {
    assert!(Rat::new(2, 4).value_eq(&Rat::new(1, 2)));
    assert!(Rat::new(-6, 4).value_eq(&Rat::new(-3, 2)));
    assert!(!Rat::new(1, 2).value_eq(&Rat::new(2, 3)));
    assert!(Rat::from_int(3).value_eq(&Rat::new(9, 3)));
}
