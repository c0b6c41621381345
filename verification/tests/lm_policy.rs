use ferrl::binary64::Real64;
use ferrl::lm_policy::{
    batched_group_decode, prefill_input, sequential_group_decode, DecodeAction, Draw, EvalSampling,
    GenConfig, GroupDecode, LmPolicy, Rollout, SamplingFault, ScoringFault,
};

fn double(value: f64) -> Real64 {
    Real64 { bits: value.to_bits() }
}

/// The settings of a training rollout.
fn config(group_size: usize, max_new_tokens: usize, eos_token_id: Option<u32>) -> GenConfig {
    GenConfig {
        group_size,
        max_new_tokens,
        temperature: double(1.0),
        eos_token_id,
        eval_sampling: None,
    }
}

/// The draws of a row: tokens below sixteen, fixed by a seed.
fn stream(seed: u64, len: usize) -> Vec<Draw> {
    let mut state = seed.wrapping_mul(0x9E37_79B9_7F4A_7C15).wrapping_add(1);
    (0..len)
        .map(|_| {
            state ^= state << 13;
            state ^= state >> 7;
            state ^= state << 17;
            let token = (state >> 33) as u32 % 16;
            Draw { token, logprob: (-0.25f32 * token as f32).to_bits() }
        })
        .collect()
}

fn streams(first: u64, rows: usize, len: usize) -> Vec<Vec<Draw>> {
    (0..rows as u64).map(|row| stream(first + row, len)).collect()
}

/// Decodes a group one step at a time, as a driver with a model does.
fn stepwise(prompt: &[u32], config: &GenConfig, streams: &[Vec<Draw>]) -> Rollout {
    let mut group = GroupDecode::start(&prompt.to_vec(), config);
    let mut taken = vec![0usize; streams.len()];
    let mut offset = prompt.len();
    if config.max_new_tokens == 0 {
        return group.finish();
    }
    loop {
        let drawn: Vec<Option<Draw>> = group
            .active
            .iter()
            .enumerate()
            .map(|(row, active)| {
                active.then_some(()).map(|()| {
                    let draw = streams[row][taken[row]];
                    taken[row] += 1;
                    draw
                })
            })
            .collect();
        match group.advance(&drawn) {
            DecodeAction::Feed { tokens, offset: at } => {
                assert_eq!(tokens.len(), streams.len());
                assert_eq!(at, offset);
                offset += 1;
            }
            DecodeAction::Finished => return group.finish(),
        }
    }
}

/// Each row has the fixed width, ends after its first EOS and is padded with it.
fn assert_eos_rollout_invariants(rollout: &Rollout, eos: u32, max_new: usize) {
    let width = rollout.prompt_len + max_new;
    for (row, ids) in rollout.token_ids.iter().enumerate() {
        assert_eq!(ids.len(), width, "row {row} not padded to the fixed width");
        let completion = &ids[rollout.prompt_len..];
        let expected =
            completion.iter().position(|&token| token == eos).map_or(max_new, |at| at + 1);
        assert_eq!(rollout.completion_lens[row], expected, "row {row}");
        assert!(completion[expected..].iter().all(|&token| token == eos), "row {row}");
    }
}

#[test]
fn groups_that_are_decoded_in_turns_do_not_disturb_each_other() {
    let prompts = [vec![1u32, 2, 3], vec![2u32, 1]];
    let drawn = [streams(8 * 3, 3, 5), streams(50 * 3, 3, 5)];
    let eos = drawn[0][0][1].token;
    let settings = [config(3, 5, Some(eos)), config(3, 5, None)];
    let mut groups: Vec<GroupDecode> = prompts
        .iter()
        .zip(&settings)
        .map(|(prompt, settings)| GroupDecode::start(prompt, settings))
        .collect();
    let mut finished = [false; 2];
    for step in 0..5 {
        // The order of the two changes from step to step.
        for turn in 0..2 {
            let at = (turn + step) % 2;
            if !finished[at] {
                let draws: Vec<Option<Draw>> = (0..3)
                    .map(|row| groups[at].active[row].then_some(drawn[at][row][step]))
                    .collect();
                finished[at] = matches!(groups[at].advance(&draws), DecodeAction::Finished);
            }
        }
    }
    for (at, group) in groups.into_iter().enumerate() {
        let alone = batched_group_decode(&prompts[at], &settings[at], &drawn[at]);
        let rollout = group.finish();
        assert_eq!(rollout.token_ids, alone.token_ids);
        assert_eq!(rollout.completion_lens, alone.completion_lens);
        assert_eq!(rollout.rollout_logprobs, alone.rollout_logprobs);
    }
}

#[test]
fn generate_returns_rectangular_group() {
    let rollout = batched_group_decode(&vec![1u32, 2, 3], &config(4, 3, None), &streams(7, 4, 3));
    assert_eq!(rollout.token_ids.len(), 4);
    assert_eq!(rollout.prompt_len, 3);
    for ids in &rollout.token_ids {
        assert_eq!(ids.len(), 3 + 3);
        assert!(ids.iter().all(|&id| id < 16));
        assert_eq!(ids[..3], [1, 2, 3]);
    }
    assert_eq!(rollout.completion_lens, vec![3; 4]);
}

#[test]
fn generate_stops_at_eos_inclusive_and_right_pads_to_fixed_width() {
    let prompt = vec![1u32, 2, 3];
    let max_new = 5usize;
    let drawn = streams(7, 4, max_new);
    let plain = batched_group_decode(&prompt, &config(4, max_new, None), &drawn);
    assert_eq!(plain.completion_lens, vec![max_new; 4]);
    for ids in &plain.token_ids {
        assert_eq!(ids.len(), prompt.len() + max_new);
    }
    let eos = plain.token_ids[0][prompt.len()];
    let rollout = batched_group_decode(&prompt, &config(4, max_new, Some(eos)), &drawn);
    assert_eq!(rollout.token_ids.len(), 4);
    assert_eq!(rollout.prompt_len, prompt.len());
    assert_eq!(rollout.completion_lens[0], 1, "row 0 did not stop at the first EOS");
    assert_eos_rollout_invariants(&rollout, eos, max_new);
}

#[test]
fn generate_with_configured_but_unsampled_eos_is_full_width() {
    let max_new = 4usize;
    let unsampled = 16u32;
    let rollout = batched_group_decode(
        &vec![1u32, 2, 3],
        &config(4, max_new, Some(unsampled)),
        &streams(7, 4, max_new),
    );
    assert_eq!(rollout.completion_lens, vec![max_new; 4]);
    for ids in &rollout.token_ids {
        assert_eq!(ids.len(), 3 + max_new);
        assert!(ids.iter().all(|&token| token < unsampled));
    }
}

#[test]
fn generate_breaks_when_every_row_retires_before_max_new() {
    // Every row draws the same first token, and it is the EOS.
    let drawn = vec![stream(3, 4); 3];
    let settings = config(3, 4, Some(drawn[0][0].token));
    let prompt = vec![1u32, 2, 3];
    let rollout = batched_group_decode(&prompt, &settings, &drawn);
    let oracle = sequential_group_decode(&prompt, &settings, &drawn);
    assert_eq!(rollout.token_ids, oracle.token_ids);
    assert_eq!(rollout.completion_lens, vec![1; 3], "every row retires at step 0");
    for ids in &rollout.token_ids {
        assert_eq!(ids.len(), 3 + 4, "rectangular width preserved after the break");
    }
}

#[test]
fn generate_eos_at_the_max_new_tokens_one_boundary() {
    let prompt = vec![2u32, 5];
    let drawn = streams(11, 3, 1);
    let eos = drawn[0][0].token;
    let rollout = batched_group_decode(&prompt, &config(3, 1, Some(eos)), &drawn);
    assert_eq!(rollout.completion_lens[0], 1);
    for ids in &rollout.token_ids {
        assert_eq!(ids.len(), prompt.len() + 1);
    }
    assert_eos_rollout_invariants(&rollout, eos, 1);
}

/// A batch decoded in step, one row after the other and through the step interface is the same.
fn assert_orders_agree(prompt: &[u32], settings: &GenConfig, drawn: &Vec<Vec<Draw>>) {
    let batched = batched_group_decode(&prompt.to_vec(), settings, drawn);
    let others = [
        sequential_group_decode(&prompt.to_vec(), settings, drawn),
        stepwise(prompt, settings, drawn),
    ];
    for other in others {
        assert_eq!(batched.token_ids, other.token_ids);
        assert_eq!(batched.completion_lens, other.completion_lens);
        assert_eq!(batched.prompt_len, other.prompt_len);
        assert_eq!(batched.rollout_logprobs, other.rollout_logprobs);
    }
}

#[test]
fn lockstep_decoding_matches_row_by_row_decoding() {
    assert_orders_agree(&[1, 2, 3], &config(4, 6, None), &streams(7, 4, 6));
}

#[test]
fn lockstep_decoding_matches_row_by_row_decoding_with_eos() {
    for eos in 0..16 {
        assert_orders_agree(&[1, 2, 3], &config(4, 5, Some(eos)), &streams(5, 4, 5));
    }
}

#[test]
fn captured_logprob_rows_match_the_true_completion_lens_under_eos() {
    let prompt = vec![1u32, 2, 3];
    let max_new = 5usize;
    let drawn = streams(7, 4, max_new);
    let eos = drawn[0][0].token;
    let rollout = batched_group_decode(&prompt, &config(4, max_new, Some(eos)), &drawn);
    let captured = rollout.rollout_logprobs.as_ref().expect("capture present");
    assert_eq!(captured.len(), rollout.token_ids.len());
    for (row, &len) in captured.iter().zip(&rollout.completion_lens) {
        assert_eq!(row.len(), len, "one behavior logprob per real draw");
        assert!(row.iter().all(|bits| f32::from_bits(*bits).is_finite()));
        assert!(row.iter().all(|bits| f32::from_bits(*bits) <= 0.0));
    }
    assert_eq!(rollout.completion_lens[0], 1, "row 0 stops at the probed EOS");
    // Each captured log-probability is that of its draw.
    for (row, bits) in captured.iter().enumerate() {
        for (at, bits) in bits.iter().enumerate() {
            assert_eq!(*bits, drawn[row][at].logprob);
        }
    }
}

#[test]
fn eval_sampling_override_bypasses_the_temperature_check() {
    let policy = LmPolicy::new(double(1.0));
    let eval = GenConfig {
        temperature: double(123.0),
        eval_sampling: Some(EvalSampling { temperature: double(0.5), top_p: Some(double(0.9)) }),
        ..config(3, 4, None)
    };
    assert!(policy.resolve_sampling(&eval).is_ok());
    let training = GenConfig { eval_sampling: None, ..eval };
    let fault = policy.resolve_sampling(&training).unwrap_err();
    assert_eq!(
        fault.message("1", "123"),
        "LmPolicy was built with temperature 1 but generate was called with cfg.temperature 123; \
         rebuild the policy to change it"
    );
}

#[test]
fn malformed_eval_override_fails_before_decoding() {
    let policy = LmPolicy::new(double(1.0));
    let eval = |temperature: f64, top_p: Option<f64>| {
        policy.resolve_sampling(&GenConfig {
            eval_sampling: Some(EvalSampling {
                temperature: double(temperature),
                top_p: top_p.map(double),
            }),
            ..config(2, 2, None)
        })
    };
    assert!(matches!(eval(0.0, None), Err(SamplingFault::EvalTemperature(_))));
    assert!(matches!(eval(f64::NAN, None), Err(SamplingFault::EvalTemperature(_))));
    assert!(matches!(eval(f64::INFINITY, None), Err(SamplingFault::EvalTemperature(_))));
    assert!(matches!(eval(0.6, Some(1.5)), Err(SamplingFault::EvalTopP(_))));
    assert!(matches!(eval(0.6, Some(0.0)), Err(SamplingFault::EvalTopP(_))));
    assert!(eval(0.6, Some(1.0)).is_ok());
    assert_eq!(
        eval(0.0, None).unwrap_err().message("0", ""),
        "eval_sampling.temperature must be finite and > 0, got 0"
    );
    assert_eq!(
        eval(0.6, Some(1.5)).unwrap_err().message("1.5", ""),
        "eval_sampling.top_p must be in (0, 1], got 1.5"
    );
}

#[test]
fn eval_override_values_actually_reach_the_sampler() {
    let policy = LmPolicy::new(double(1.0));
    let eval = GenConfig {
        eval_sampling: Some(EvalSampling { temperature: double(0.5), top_p: Some(double(1e-6)) }),
        ..config(3, 4, None)
    };
    assert_eq!(policy.resolve_sampling(&eval), Ok((double(0.5), Some(double(1e-6)))));
    assert_eq!(policy.resolve_sampling(&config(3, 4, None)), Ok((double(1.0), None)));
}

#[test]
fn restore_rejects_a_mismatched_sampler_temperature() {
    let policy = LmPolicy::new(double(1.0));
    let fault = policy.restore_sampler_state(double(0.7)).unwrap_err();
    let refused = fault.message("0.7", "1");
    assert!(refused.contains("temperature"), "{refused}");
    assert!(policy.restore_sampler_state(double(1.0)).is_ok());
}

#[test]
fn a_temperature_that_is_no_number_agrees_with_none() {
    let policy = LmPolicy::new(double(1.0));
    let drifted = GenConfig { temperature: double(f64::NAN), ..config(2, 2, None) };
    assert!(matches!(
        policy.resolve_sampling(&drifted),
        Err(SamplingFault::Temperature { policy, .. }) if policy == double(1.0)
    ));
    assert!(policy.restore_sampler_state(double(f64::NAN)).is_err());
    let broken = LmPolicy::new(double(f64::NAN));
    assert!(broken.resolve_sampling(&config(2, 2, None)).is_err());
    assert!(broken.resolve_sampling(&drifted).is_err());
    assert!(broken.restore_sampler_state(double(f64::NAN)).is_err());
    // An evaluation brings its own temperature.
    let eval = EvalSampling { temperature: double(0.5), top_p: None };
    let evaluated = GenConfig { eval_sampling: Some(eval), ..drifted };
    assert_eq!(policy.resolve_sampling(&evaluated), Ok((double(0.5), None)));
}

#[test]
fn the_adapter_toggle_tracks_its_state() {
    let mut policy = LmPolicy::new(double(1.0));
    assert!(policy.adapter_enabled());
    assert!(!policy.set_adapter_enabled(false, true));
    assert!(!policy.adapter_enabled());
    assert!(policy.set_adapter_enabled(true, true));
    assert!(policy.adapter_enabled());
    // A model without adapters stays on.
    assert!(policy.set_adapter_enabled(false, false));
    assert!(policy.adapter_enabled());
}

fn rectangular(token_ids: Vec<Vec<u32>>, prompt_len: usize) -> Rollout {
    let completion_lens = token_ids.iter().map(|ids| ids.len() - prompt_len).collect();
    Rollout { token_ids, prompt_len, completion_lens, rollout_logprobs: None }
}

#[test]
fn the_scoring_window_covers_the_completions() {
    let rollout = rectangular(vec![vec![1, 2, 3, 4, 5], vec![1, 2, 6, 7, 8]], 2);
    let (start, len) = rollout.scoring_window();
    assert_eq!((start, len), (1, 3));
    assert!(rollout.check_scoring_window(2, 3).is_ok());
    assert_eq!(
        rollout.check_scoring_window(2, 4),
        Err(ScoringFault::Window { rows: 2, width: 3 })
    );
    assert_eq!(rollout.scoring_targets().len(), 2 * 3);
}

#[test]
fn each_window_position_predicts_its_target() {
    let rollout = rectangular(vec![vec![1, 2, 3, 4, 5], vec![3, 1, 4, 1, 5]], 2);
    let input_len = rollout.token_ids[0].len() - 1;
    let input = rollout.scoring_input();
    assert_eq!(input, [1, 2, 3, 4, 3, 1, 4, 1]);
    let (start, len) = rollout.scoring_window();
    let targets = rollout.scoring_targets();
    for (row, ids) in rollout.token_ids.iter().enumerate() {
        for at in 0..len {
            // The window's position sees the tokens before the one that it predicts.
            let position = start + at;
            assert_eq!(position, rollout.prompt_len - 1 + at);
            assert_eq!(
                input[row * input_len..=row * input_len + position],
                ids[..rollout.prompt_len + at]
            );
            assert_eq!(targets[row * len + at], ids[rollout.prompt_len + at]);
        }
    }
}

#[test]
fn prefill_repeats_the_prompt_for_each_row() {
    assert_eq!(prefill_input(&vec![4, 5], 3), [4, 5, 4, 5, 4, 5]);
}

#[test]
fn a_retired_row_is_fed_but_not_drawn_for() {
    let mut group = GroupDecode::start(&vec![1u32, 2], &config(2, 3, Some(9)));
    let draw = |token: u32| Some(Draw { token, logprob: 0 });
    match group.advance(&vec![draw(9), draw(4)]) {
        DecodeAction::Feed { tokens, offset } => {
            assert_eq!(tokens, [9, 4]);
            assert_eq!(offset, 2);
        }
        DecodeAction::Finished => panic!("one row is still active"),
    }
    assert_eq!(group.active, [false, true]);
    assert!(matches!(group.advance(&vec![None, draw(9)]), DecodeAction::Finished));
    let rollout = group.finish();
    assert_eq!(rollout.token_ids, [[1, 2, 9, 9, 9], [1, 2, 4, 9, 9]]);
    assert_eq!(rollout.completion_lens, [1, 2]);
}

#[test]
fn only_the_narrowed_window_is_scored() {
    let rollout = rectangular(vec![vec![1, 2, 3, 4, 5, 6], vec![3, 1, 2, 6, 4, 5]], 3);
    let fault = rollout.check_scoring_window(2, 5).unwrap_err();
    assert_eq!(
        fault.message("[2, 5, 16]"),
        "completion_logprobs: pred must be the narrowed scoring window [2, 3, vocab], got \
         [2, 5, 16]"
    );
    let empty = rectangular(vec![vec![1, 2, 3], vec![4, 5, 6]], 3);
    let fault = empty.check_scoring_window(2, 3).unwrap_err();
    assert_eq!(fault.message(""), "completion_logprobs: zero-length completion window");
}

#[test]
fn degenerate_groups_decode_to_nothing() {
    assert_orders_agree(&[1, 2], &config(0, 3, None), &Vec::new());
    assert_orders_agree(&[1, 2], &config(2, 0, Some(1)), &streams(1, 2, 0));
    let none = batched_group_decode(&vec![1, 2], &config(2, 0, None), &streams(1, 2, 0));
    assert_eq!(none.token_ids, [[1, 2], [1, 2]]);
    assert_eq!(none.completion_lens, [0, 0]);
}

#[test]
fn only_full_rows_behind_a_prompt_can_be_scored() {
    assert!(rectangular(vec![vec![1, 2, 3], vec![4, 5, 6]], 1).is_scorable());
    assert!(rectangular(vec![vec![1, 2, 3]], 3).is_scorable());
    assert!(!rectangular(Vec::new(), 1).is_scorable());
    assert!(!rectangular(vec![vec![1, 2, 3]], 0).is_scorable());
    let mut rollout = rectangular(vec![vec![1, 2, 3], vec![4, 5, 6]], 3);
    rollout.token_ids[1].pop();
    assert!(!rollout.is_scorable());
    rollout.token_ids[1] = vec![4, 5, 6, 7];
    assert!(rollout.is_scorable());
    rollout.prompt_len = 4;
    assert!(!rollout.is_scorable());
}
