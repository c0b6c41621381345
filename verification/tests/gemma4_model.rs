use ferrl::binary64::Real64;
use ferrl::dtype::DType;
use ferrl::gemma4::adapters::{
    adapter_manifest, adapter_manifest_digest, validate_replicated_adapter_values, AdapterFault,
    AdapterObservations, AdapterStage, AdapterStep, AdapterVar, ValueReading,
};
use ferrl::gemma4::config::{
    Gemma4Config, Gemma4FullAttentionRope, Gemma4LayerType, Gemma4RopeParameters,
    Gemma4SlidingAttentionRope, Gemma4TextConfig,
};
use ferrl::gemma4::decoder::{
    CachedForward, CachedPass, DecoderCacheSnapshot, Gemma4DecoderFault, Gemma4MergedDecoder,
};
use ferrl::gemma4::layers::{
    proportional_inv_freq, AdapterFactor, Projection, ShardedAxis, TrainableVar, UnevenAxis,
    WeightSplit,
};
use ferrl::gemma4::model::{
    list_opening, list_rest, list_steps, validate_activation_checkpointing_consensus,
    BackwardObservations, BackwardPlan, CheckpointingConsensus, ForwardObservations, ForwardStep,
    Gemma4GradModel, Gemma4ModelFault, Gemma4RematExecution,
    PassKind, TensorParallelBackward, TensorParallelForward,
};
use ferrl::gemma4::model::ForwardStep::{Attention, Capture, Detach, Embed, Head, Layer, Mlp};
use ferrl::lora::{BaseQuantization, DenseLoraTargets};
use ferrl::tensor_parallel::{
    coordinate_local_call, coordinate_tensor_parallel_local_call, peer_failure,
    reduce_row_parallel_output,
    Coordination, LocalCallRoute, RowOutputRoute, ShardRange, StageReport, TensorParallelError,
    TensorParallelPlan,
};

fn double(value: f64) -> Real64 {
    Real64 { bits: value.to_bits() }
}

fn kinds(pattern: &str) -> Vec<Gemma4LayerType> {
    pattern
        .chars()
        .map(|c| match c {
            'f' => Gemma4LayerType::FullAttention,
            _ => Gemma4LayerType::SlidingAttention,
        })
        .collect()
}

/// A two-layer config: one sliding layer, one full layer.
fn tiny() -> Gemma4Config {
    Gemma4Config {
        model_type: Some("gemma4".to_string()),
        tie_word_embeddings: Some(true),
        text_config: Gemma4TextConfig {
            model_type: Some("gemma4_text".to_string()),
            vocab_size: 16,
            vocab_size_per_layer_input: 16,
            hidden_size: 8,
            hidden_size_per_layer_input: 0,
            intermediate_size: 16,
            num_hidden_layers: 2,
            num_attention_heads: 2,
            num_key_value_heads: 1,
            num_global_key_value_heads: 1,
            num_kv_shared_layers: 0,
            head_dim: 4,
            global_head_dim: 8,
            hidden_activation: "gelu_pytorch_tanh".to_string(),
            rms_norm_eps: double(1e-6),
            max_position_embeddings: 32,
            sliding_window: 3,
            tie_word_embeddings: true,
            attention_bias: false,
            attention_dropout: double(0.0),
            attention_k_eq_v: true,
            final_logit_softcapping: double(30.0),
            layer_types: kinds("sf"),
            rope_parameters: Gemma4RopeParameters {
                full_attention: Gemma4FullAttentionRope {
                    rope_type: "proportional".to_string(),
                    rope_theta: double(1_000_000.0),
                    partial_rotary_factor: double(0.5),
                },
                sliding_attention: Gemma4SlidingAttentionRope {
                    rope_type: "default".to_string(),
                    rope_theta: double(10_000.0),
                },
            },
            use_cache: true,
            use_bidirectional_attention: Some("vision".to_string()),
            use_double_wide_mlp: false,
            enable_moe_block: false,
            num_experts: None,
            top_k_experts: None,
            expert_intermediate_size: None,
            moe_intermediate_size: None,
        },
    }
}

/// The two-layer config with as many key/value heads as query heads.
fn splittable() -> Gemma4Config {
    let mut config = tiny();
    config.text_config.num_key_value_heads = 2;
    config.text_config.num_global_key_value_heads = 2;
    assert!(config.validate().is_ok());
    config
}

/// A config whose axes split over three ranks.
fn world_three() -> Gemma4Config {
    let mut config = tiny();
    let text = &mut config.text_config;
    text.vocab_size = 18;
    text.vocab_size_per_layer_input = 18;
    text.hidden_size = 12;
    text.intermediate_size = 24;
    text.num_attention_heads = 3;
    text.num_key_value_heads = 3;
    text.num_global_key_value_heads = 3;
    text.head_dim = 4;
    text.global_head_dim = 4;
    assert!(config.validate().is_ok());
    config
}

/// A config whose rows are wide enough to be quantized in blocks.
fn quantized_tiny() -> Gemma4Config {
    let mut config = tiny();
    let text = &mut config.text_config;
    text.vocab_size = 32;
    text.vocab_size_per_layer_input = 32;
    text.hidden_size = 32;
    text.intermediate_size = 64;
    text.num_attention_heads = 2;
    text.num_key_value_heads = 1;
    text.num_global_key_value_heads = 1;
    text.head_dim = 16;
    text.global_head_dim = 16;
    text.max_position_embeddings = 32;
    assert!(config.validate().is_ok());
    config
}

fn model(config: &Gemma4Config) -> Gemma4GradModel {
    match Gemma4GradModel::load_with_targets(config, DenseLoraTargets::industrial()) {
        Ok(model) => model,
        Err(fault) => panic!("{}", fault.message("")),
    }
}

fn quantized(config: &Gemma4Config) -> Gemma4GradModel {
    match Gemma4GradModel::load_with_targets_and_base_quantization(
        config,
        DenseLoraTargets::industrial(),
        BaseQuantization::Q8_0,
    ) {
        Ok(model) => model,
        Err(fault) => panic!("{}", fault.message("")),
    }
}

fn load_refusal(loaded: Result<Gemma4GradModel, Gemma4ModelFault>) -> String {
    match loaded {
        Ok(_) => panic!("the model was loaded"),
        Err(fault) => fault.message(""),
    }
}

fn plan(rank: usize, world: usize) -> TensorParallelPlan {
    TensorParallelPlan::new(rank, world).unwrap()
}

/// The count that an all-reduce of votes gives.
fn count(votes: &[bool]) -> Real64 {
    double(votes.iter().filter(|vote| **vote).count() as f64)
}

/// The votes of one round. Either every rank votes or none does: otherwise some would wait.
fn round(votes: &[Option<bool>]) -> Option<Real64> {
    let cast: Vec<bool> = votes.iter().flatten().copied().collect();
    assert!(cast.is_empty() || cast.len() == votes.len(), "a rank is left waiting: {votes:?}");
    if cast.is_empty() {
        None
    } else {
        Some(count(&cast))
    }
}

const PEER: &str = "failed on a peer";

/// Runs a tensor-parallel forward pass on the models of all ranks, over a sequence.
fn forward_all(models: &mut [Gemma4GradModel], seq_len: usize) -> Vec<Result<Vec<ForwardStep>, String>> {
    let world = models.len();
    let mut seen =
        vec![ForwardObservations { preflight_failures: None, checkpointed_count: None }; world];
    loop {
        let steps: Vec<TensorParallelForward> = models
            .iter_mut()
            .enumerate()
            .map(|(rank, model)| model.forward_tensor_parallel(plan(rank, world), &seen[rank]))
            .collect();
        let votes: Vec<Option<bool>> = steps
            .iter()
            .map(|step| match step {
                TensorParallelForward::ReducePreflight(vote)
                | TensorParallelForward::ReduceCheckpointing(vote) => Some(*vote),
                _ => None,
            })
            .collect();
        let Some(total) = round(&votes) else {
            return steps
                .into_iter()
                .enumerate()
                .map(|(rank, step)| match step {
                    TensorParallelForward::Run(steps) => {
                        models[rank].complete_forward_tensor_parallel(plan(rank, world), seq_len);
                        Ok(steps)
                    }
                    TensorParallelForward::Refused(fault) => Err(fault.message("")),
                    TensorParallelForward::FailedOnPeer => Err(PEER.to_string()),
                    other => panic!("unexpected {other:?}"),
                })
                .collect();
        };
        for (step, seen) in steps.iter().zip(&mut seen) {
            match step {
                TensorParallelForward::ReducePreflight(_) => seen.preflight_failures = Some(total),
                _ => seen.checkpointed_count = Some(total),
            }
        }
    }
}

/// Runs a tensor-parallel detached pass on the models of all ranks. The given ranks cannot stage
/// their input.
fn detached_all(models: &[Gemma4GradModel], unstaged: &[usize]) -> Vec<Result<Vec<ForwardStep>, String>> {
    let world = models.len();
    let mut opened = Vec::new();
    let mut failed = Vec::new();
    for (rank, model) in models.iter().enumerate() {
        match model.forward_tensor_parallel_detached(plan(rank, world), None) {
            TensorParallelForward::StageInput(steps) => {
                opened.push(steps);
                failed.push(unstaged.contains(&rank));
            }
            TensorParallelForward::ReducePreflight(true) => {
                opened.push(Vec::new());
                failed.push(true);
            }
            other => panic!("unexpected {other:?}"),
        }
    }
    let failures = count(&failed);
    models
        .iter()
        .zip(opened)
        .enumerate()
        .map(|(rank, (model, mut steps))| {
            let report = StageReport { succeeded: !unstaged.contains(&rank), failures };
            match model.forward_tensor_parallel_detached(plan(rank, world), Some(report)) {
                TensorParallelForward::Run(rest) => {
                    steps.extend(rest);
                    Ok(steps)
                }
                TensorParallelForward::Refused(fault) => Err(fault.message("")),
                TensorParallelForward::FailedHere => Err("failed here".to_string()),
                TensorParallelForward::FailedOnPeer => Err(PEER.to_string()),
                other => panic!("unexpected {other:?}"),
            }
        })
        .collect()
}

/// Runs a tensor-parallel backward pass on the models of all ranks. Each rank learns what its
/// adapters were found to be; the given ranks cannot prepare their replay.
fn backward_all_but(
    models: &mut [Gemma4GradModel],
    adapters: &dyn Fn(usize) -> Result<(), AdapterFault>,
    unprepared: &[usize],
) -> Vec<Result<BackwardPlan, String>> {
    let world = models.len();
    let mut refused: Vec<Option<String>> = vec![None; world];
    let mut seen: Vec<BackwardObservations> = (0..world)
        .map(|_| BackwardObservations {
            preflight_failures: None,
            checkpointed_count: None,
            enabled_count: None,
            adapters_staged: None,
            adapters: None,
            readiness: None,
        })
        .collect();
    loop {
        let steps: Vec<TensorParallelBackward> = models
            .iter_mut()
            .enumerate()
            .map(|(rank, model)| model.backward_tensor_parallel(plan(rank, world), &seen[rank]))
            .collect();
        let votes: Vec<Option<bool>> = steps
            .iter()
            .enumerate()
            .map(|(rank, step)| match step {
                TensorParallelBackward::ReduceCheckpointing(vote)
                | TensorParallelBackward::ReduceEnabled(vote) => Some(*vote),
                TensorParallelBackward::ReducePreflight
                | TensorParallelBackward::StageAdapters
                | TensorParallelBackward::ValidateAdapters => Some(false),
                TensorParallelBackward::Prepare(_) => Some(unprepared.contains(&rank)),
                TensorParallelBackward::Unready(_) => Some(true),
                _ => None,
            })
            .collect();
        let Some(total) = round(&votes) else {
            return steps
                .into_iter()
                .zip(refused)
                .map(|(step, refused)| match step {
                    TensorParallelBackward::Run(run) => Ok(run),
                    TensorParallelBackward::Refused(fault) => Err(fault.message("shown")),
                    TensorParallelBackward::FailedHere => {
                        Err(refused.unwrap_or("failed here".to_string()))
                    }
                    TensorParallelBackward::FailedOnPeer => Err(PEER.to_string()),
                    other => panic!("unexpected {other:?}"),
                })
                .collect();
        };
        for (rank, (step, seen)) in steps.into_iter().zip(&mut seen).enumerate() {
            match step {
                TensorParallelBackward::ReducePreflight => seen.preflight_failures = Some(total),
                TensorParallelBackward::ReduceCheckpointing(_) => {
                    seen.checkpointed_count = Some(total);
                }
                TensorParallelBackward::ReduceEnabled(_) => seen.enabled_count = Some(total),
                TensorParallelBackward::StageAdapters => {
                    seen.adapters_staged = Some(StageReport { succeeded: true, failures: total });
                }
                TensorParallelBackward::ValidateAdapters => seen.adapters = Some(adapters(rank)),
                TensorParallelBackward::Prepare(_) => {
                    let succeeded = !unprepared.contains(&rank);
                    seen.readiness = Some(StageReport { succeeded, failures: total });
                }
                TensorParallelBackward::Unready(fault) => {
                    refused[rank] = Some(fault.message("shown"));
                    seen.readiness = Some(StageReport { succeeded: false, failures: total });
                }
                other => panic!("unexpected {other:?}"),
            }
        }
    }
}

fn backward_all(
    models: &mut [Gemma4GradModel],
    adapters: &dyn Fn(usize) -> Result<(), AdapterFault>,
) -> Vec<Result<BackwardPlan, String>> {
    backward_all_but(models, adapters, &[])
}

/// Runs a chunk on the decoders of all ranks, each from its own position on. The given ranks
/// cannot embed it.
fn decode_all(
    decoders: &mut [Gemma4MergedDecoder],
    chunk_len: usize,
    offsets: &[usize],
    unembedded: &[usize],
) -> Vec<Result<CachedPass, String>> {
    let world = decoders.len();
    let mut failed = Vec::new();
    for (rank, decoder) in decoders.iter_mut().enumerate() {
        match decoder.forward_tensor_parallel(chunk_len, offsets[rank], plan(rank, world), None) {
            CachedForward::StageInput { refused } => {
                failed.push(refused || unembedded.contains(&rank));
            }
            other => panic!("unexpected {other:?}"),
        }
    }
    let failures = count(&failed);
    decoders
        .iter_mut()
        .enumerate()
        .map(|(rank, decoder)| {
            let report = StageReport { succeeded: !unembedded.contains(&rank), failures };
            let plan = plan(rank, world);
            match decoder.forward_tensor_parallel(chunk_len, offsets[rank], plan, Some(report)) {
                CachedForward::Run(pass) => Ok(pass),
                CachedForward::Refused(fault) => Err(fault.message()),
                CachedForward::FailedHere => Err("failed here".to_string()),
                CachedForward::FailedOnPeer => Err(PEER.to_string()),
                other => panic!("unexpected {other:?}"),
            }
        })
        .collect()
}

fn cache_lens(decoder: &Gemma4MergedDecoder) -> Vec<(usize, usize)> {
    decoder
        .layers
        .iter()
        .map(|layer| (layer.cache.current_seq_len(), layer.cache.retained_seq_len()))
        .collect()
}

fn var(dtype: DType, dims: &[usize]) -> AdapterVar {
    AdapterVar { dtype, dims: dims.to_vec() }
}

/// What one rank brings to the comparison of the adapters.
struct Rank {
    vars: Vec<AdapterVar>,
    recipe: &'static str,
    payload_valid: bool,
    fails_at: Option<AdapterStage>,
}

fn rank(vars: Vec<AdapterVar>, recipe: &'static str, payload_valid: bool) -> Rank {
    Rank { vars, recipe, payload_valid, fails_at: None }
}

/// Compares the adapters of all ranks, and counts the reductions of manifests and values. A rank
/// finds its values within tolerance as `within` says, and fails where it is told to.
fn compare(ranks: &[Rank], within: &[bool]) -> (Vec<Result<(), String>>, usize) {
    let world = ranks.len();
    let mut seen: Vec<AdapterObservations> = ranks
        .iter()
        .map(|_| AdapterObservations {
            payload_staged: None,
            invalid_count: None,
            manifest_staged: None,
            manifest_sums: None,
            manifest_read: None,
            mismatch_count: None,
            values: None,
            value_failures: None,
        })
        .collect();
    let mut tensor_reductions = 0;
    loop {
        let steps: Vec<AdapterStep> = ranks
            .iter()
            .enumerate()
            .map(|(at, rank)| {
                validate_replicated_adapter_values(
                    &rank.vars,
                    rank.recipe,
                    &plan(at, world),
                    rank.payload_valid,
                    &seen[at],
                )
            })
            .collect();
        let votes: Vec<bool> = steps
            .iter()
            .map(|step| match step {
                AdapterStep::ReduceInvalid(vote)
                | AdapterStep::ReduceMismatch(vote)
                | AdapterStep::ReduceValueFailures(vote) => *vote,
                _ => false,
            })
            .collect();
        match &steps[0] {
            AdapterStep::Stage(stage) => {
                let failed: Vec<bool> =
                    ranks.iter().map(|rank| rank.fails_at == Some(*stage)).collect();
                for (seen, failed_here) in seen.iter_mut().zip(&failed) {
                    let report =
                        Some(StageReport { succeeded: !failed_here, failures: count(&failed) });
                    match stage {
                        AdapterStage::PayloadStaging => seen.payload_staged = report,
                        AdapterStage::ManifestStaging => seen.manifest_staged = report,
                        AdapterStage::ManifestReadback => seen.manifest_read = report,
                        AdapterStage::ValueReadback => panic!("values are read as they are reduced"),
                    }
                }
            }
            AdapterStep::ReduceInvalid(_) => {
                for seen in seen.iter_mut() {
                    seen.invalid_count = Some(count(&votes));
                }
            }
            AdapterStep::ReduceManifest(_) => {
                tensor_reductions += 1;
                let mut sums = vec![0.0f64; 32];
                for step in &steps {
                    match step {
                        AdapterStep::ReduceManifest(digest) => {
                            for (sum, byte) in sums.iter_mut().zip(digest) {
                                *sum += f64::from(*byte);
                            }
                        }
                        other => panic!("ranks out of step: {other:?}"),
                    }
                }
                for seen in seen.iter_mut() {
                    seen.manifest_sums = Some(sums.iter().map(|sum| double(*sum)).collect());
                }
            }
            AdapterStep::ReduceMismatch(_) => {
                for seen in seen.iter_mut() {
                    seen.mismatch_count = Some(count(&votes));
                }
            }
            AdapterStep::ReduceValues => {
                tensor_reductions += 1;
                for (seen, rank) in seen.iter_mut().zip(ranks) {
                    seen.values = Some(match rank.fails_at {
                        Some(AdapterStage::ValueReadback) => ValueReading::Unreadable,
                        _ => ValueReading::Compared(within.to_vec()),
                    });
                }
            }
            AdapterStep::ReduceValueFailures(_) => {
                for seen in seen.iter_mut() {
                    seen.value_failures = Some(count(&votes));
                }
            }
            AdapterStep::Accepted | AdapterStep::Refused(_) => {
                let results = steps
                    .iter()
                    .map(|step| match step {
                        AdapterStep::Accepted => Ok(()),
                        AdapterStep::Refused(fault) => Err(fault.message("why")),
                        other => panic!("ranks out of step: {other:?}"),
                    })
                    .collect();
                return (results, tensor_reductions);
            }
        }
    }
}

/// The refusals of two ranks whose adapters differ.
fn two_rank_refusals(left: (Vec<AdapterVar>, &'static str), right: (Vec<AdapterVar>, &'static str)) -> Vec<String> {
    let ranks = [rank(left.0, left.1, true), rank(right.0, right.1, true)];
    compare(&ranks, &[]).0.into_iter().map(|result| result.unwrap_err()).collect()
}

#[test]
fn gemma4_adapter_manifest_preflight_rejects_recipe_count_shape_and_dtype_mismatches() {
    let recipe = two_rank_refusals(
        (vec![var(DType::F32, &[2])], "attn:q"),
        (vec![var(DType::F32, &[2])], "attn:k"),
    );
    let tally = two_rank_refusals(
        (vec![var(DType::F32, &[2])], "attn:q"),
        (vec![var(DType::F32, &[2]), var(DType::F32, &[1])], "attn:q"),
    );
    let shape = two_rank_refusals(
        (vec![var(DType::F32, &[2])], "attn:q"),
        (vec![var(DType::F32, &[3])], "attn:q"),
    );
    let dtype = two_rank_refusals(
        (vec![var(DType::F32, &[2])], "attn:q"),
        (vec![var(DType::BF16, &[2])], "attn:q"),
    );
    for refused in recipe.into_iter().chain(tally).chain(shape).chain(dtype) {
        assert!(
            refused.contains("adapter recipe, tensor count, shapes, or dtypes differ"),
            "{refused}"
        );
        assert!(refused.contains("adapter values were not reduced"), "{refused}");
    }
}

#[test]
fn gemma4_adapter_manifest_preflight_globalizes_mixed_unsupported_dtype() {
    // The second rank's communicator does not reduce its element type.
    let ranks = [
        rank(vec![var(DType::F32, &[2])], "attn:q", true),
        rank(vec![var(DType::BF16, &[2])], "attn:q", false),
    ];
    let (results, _) = compare(&ranks, &[]);
    let refused: Vec<String> = results.into_iter().map(|result| result.unwrap_err()).collect();
    assert!(refused.iter().any(|text| text.contains("local adapter payload is invalid")));
    assert!(refused.iter().any(|text| text.contains("payload validation failed on a peer")));
    assert!(refused.iter().all(|text| text.contains("adapter values were not reduced")));
}

#[test]
fn gemma4_adapter_payload_preflight_globalizes_wrong_device_before_tensor_collective() {
    let ranks = [
        rank(vec![var(DType::F32, &[2])], "attn:q", true),
        rank(vec![var(DType::F32, &[2])], "attn:q", false),
    ];
    let (results, tensor_reductions) = compare(&ranks, &[]);
    let refused: Vec<String> = results.into_iter().map(|result| result.unwrap_err()).collect();
    assert!(refused.iter().any(|text| text.contains("local adapter payload is invalid")));
    assert!(refused.iter().any(|text| text.contains("payload validation failed on a peer")));
    assert_eq!(tensor_reductions, 0);
}

#[test]
fn equal_adapters_are_compared_by_value_in_order() {
    let same = || rank(vec![var(DType::F32, &[2]), var(DType::F32, &[3, 4])], "attn:q", true);
    assert_eq!(compare(&[same(), same()], &[true, true]), (vec![Ok(()), Ok(())], 2));
    let (results, _) = compare(&[same(), same(), same()], &[true, false]);
    for result in results {
        assert_eq!(
            result.unwrap_err(),
            "Gemma4GradModel::backward_tensor_parallel: replicated adapter tensor 1 differs \
             across tensor-parallel ranks (why)"
        );
    }
    // A world of one has nobody to disagree with.
    assert_eq!(compare(&[same()], &[]), (vec![Ok(())], 0));
}

#[test]
fn gemma4_adapter_validation_coordinates_asymmetric_inter_collective_failures() {
    for (stage, peer) in [
        (
            AdapterStage::ManifestStaging,
            "adapter manifest staging failed on a peer tensor-parallel rank",
        ),
        (
            AdapterStage::ManifestReadback,
            "adapter manifest readback failed on a peer tensor-parallel rank",
        ),
        (
            AdapterStage::PayloadStaging,
            "adapter payload staging failed on a peer tensor-parallel rank",
        ),
        (
            AdapterStage::ValueReadback,
            "adapter value readback failed on a peer tensor-parallel rank",
        ),
    ] {
        let one = || rank(vec![var(DType::F32, &[2])], "attn:q", true);
        let ranks = [one(), Rank { fails_at: Some(stage), ..one() }];
        let (results, _) = compare(&ranks, &[true]);
        assert_eq!(results[1], Err("why".to_string()), "{stage:?}");
        let refused = results[0].as_ref().unwrap_err();
        assert!(refused.contains(peer), "{stage:?}: {refused}");
        assert!(stage.name().contains("adapter"));
    }
}

#[test]
fn the_adapter_manifest_frames_every_part() {
    let vars = vec![var(DType::F32, &[2, 3])];
    let manifest = adapter_manifest(&vars, "attn:q");
    let mut expected: Vec<u8> = b"ferrl-gemma4-adapter-manifest-v1\0".to_vec();
    expected.extend_from_slice(&6u64.to_le_bytes());
    expected.extend_from_slice(b"attn:q");
    expected.extend_from_slice(&1u64.to_le_bytes());
    expected.extend_from_slice(&3u64.to_le_bytes());
    expected.extend_from_slice(b"F32");
    expected.extend_from_slice(&2u64.to_le_bytes());
    expected.extend_from_slice(&2u64.to_le_bytes());
    expected.extend_from_slice(&3u64.to_le_bytes());
    assert_eq!(manifest, expected);
    let digest = adapter_manifest_digest(&vars, "attn:q");
    assert_ne!(digest, adapter_manifest_digest(&vars, "attn:k"));
    assert_ne!(digest, adapter_manifest_digest(&vec![var(DType::F32, &[6])], "attn:q"));
    assert_eq!(digest, adapter_manifest_digest(&vec![var(DType::F32, &[2, 3])], "attn:q"));
}

#[test]
fn gemma4_tensor_parallel_backward_coordinates_asymmetric_checkpointing_state() {
    let mut models = vec![model(&tiny()), model(&tiny())];
    models[0].set_activation_checkpointing(true);
    for result in backward_all(&mut models, &|_| Ok(())) {
        let refused = result.unwrap_err();
        assert!(
            refused.contains("activation-checkpointing state differs across tensor-parallel ranks"),
            "{refused}"
        );
    }
    for result in forward_all(&mut models, 4) {
        assert!(result.unwrap_err().contains("activation-checkpointing state differs"));
    }
}

#[test]
fn a_sharded_backward_pass_replays_blocks_and_rejects_uncut_history() {
    let mut models = vec![model(&splittable()), model(&splittable())];
    for pass in forward_all(&mut models, 5) {
        assert_eq!(pass.unwrap(), list_steps(PassKind::Recorded, 2));
    }
    for result in backward_all(&mut models, &|_| Ok(())) {
        let refused = result.unwrap_err();
        assert!(refused.contains("requires activation checkpointing"), "{refused}");
    }
    for model in models.iter_mut() {
        model.set_activation_checkpointing(true);
    }
    for pass in forward_all(&mut models, 5) {
        assert_eq!(pass.unwrap(), list_steps(PassKind::BlockBoundaries, 2));
    }
    for detached in detached_all(&models, &[]) {
        assert_eq!(
            detached.unwrap(),
            [Embed, Detach, Layer(0), Detach, Layer(1), Detach, Head, Detach]
        );
    }
    for result in backward_all(&mut models, &|_| Ok(())) {
        assert_eq!(result.unwrap(), BackwardPlan::Stitched { segments: 4, seq_len: 5 });
    }
    assert!(models.iter().all(|model| model.tape.is_none() && model.replay.is_none()));
}

/// The model of a rank that holds weights of its own.
fn rank_local(rank: usize) -> Gemma4GradModel {
    match Gemma4GradModel::load_with_targets_base_quantization_and_tensor_parallel(
        &splittable(),
        DenseLoraTargets::industrial(),
        BaseQuantization::Unquantized,
        plan(rank, 2),
    ) {
        Ok(model) => model,
        Err(fault) => panic!("{}", fault.message("")),
    }
}

#[test]
fn a_pass_that_one_rank_refuses_runs_on_none() {
    // The second rank holds the weights of the first.
    let mut models = vec![rank_local(0), rank_local(0)];
    let passes = forward_all(&mut models, 4);
    assert_eq!(passes[0], Err(PEER.to_string()));
    assert!(passes[1].as_ref().unwrap_err().contains("does not match execution plan"));
    let detached = detached_all(&models, &[]);
    assert_eq!(detached[0], Err(PEER.to_string()));
    assert!(detached[1].as_ref().unwrap_err().contains("does not match execution plan"));

    let models = vec![rank_local(0), rank_local(1)];
    assert!(detached_all(&models, &[]).iter().all(Result::is_ok));
    let detached = detached_all(&models, &[0]);
    assert_eq!(detached[0], Err("failed here".to_string()));
    assert_eq!(detached[1], Err(PEER.to_string()));
}

#[test]
fn a_rank_that_is_not_ready_stops_every_replay() {
    let checkpointed = || {
        let mut models = vec![model(&splittable()), model(&splittable())];
        for model in models.iter_mut() {
            model.set_activation_checkpointing(true);
        }
        assert!(forward_all(&mut models, 4).iter().all(Result::is_ok));
        models
    };
    let gone = |models: &[Gemma4GradModel]| {
        models.iter().all(|model| model.tape.is_none() && model.replay.is_none())
    };

    let mut models = checkpointed();
    models[1].tape = None;
    let results = backward_all(&mut models, &|_| Ok(()));
    assert_eq!(results[0], Err(PEER.to_string()));
    assert!(results[1].as_ref().unwrap_err().contains("no tape exists"));
    assert!(gone(&models));

    let mut models = checkpointed();
    let results = backward_all_but(&mut models, &|_| Ok(()), &[1]);
    assert_eq!(results[0], Err(PEER.to_string()));
    assert_eq!(results[1], Err("failed here".to_string()));
    assert!(gone(&models));
    // What was taken is not replayed later.
    let results = backward_all(&mut models, &|_| Ok(()));
    assert!(results.iter().all(|result| result.as_ref().unwrap_err().contains("no tape exists")));

    let mut seen = BackwardObservations {
        preflight_failures: Some(double(1.0)),
        checkpointed_count: None,
        enabled_count: None,
        adapters_staged: None,
        adapters: None,
        readiness: None,
    };
    let next = models[0].backward_tensor_parallel(plan(0, 2), &seen);
    assert!(matches!(next, TensorParallelBackward::FailedOnPeer));
    seen.preflight_failures = Some(double(0.0));
    seen.checkpointed_count = Some(double(2.0));
    seen.enabled_count = Some(double(2.0));
    seen.adapters_staged = Some(StageReport { succeeded: true, failures: double(1.0) });
    let next = models[0].backward_tensor_parallel(plan(0, 2), &seen);
    assert!(matches!(next, TensorParallelBackward::FailedOnPeer));
    seen.adapters_staged = Some(StageReport { succeeded: false, failures: double(1.0) });
    let next = models[0].backward_tensor_parallel(plan(0, 2), &seen);
    assert!(matches!(next, TensorParallelBackward::FailedHere));
}

#[test]
fn a_chunk_that_one_rank_refuses_moves_no_cache() {
    let decoder = || model(&splittable()).merged_decoder();
    let mut decoders = vec![decoder(), decoder()];
    for pass in decode_all(&mut decoders, 3, &[0, 0], &[]) {
        assert!(pass.is_ok());
    }
    for wrong in [0, 4, usize::MAX] {
        let results = decode_all(&mut decoders, 2, &[3, wrong], &[]);
        assert_eq!(results[0].as_ref().unwrap_err(), PEER);
        assert_eq!(
            results[1].as_ref().unwrap_err(),
            &format!(
                "Gemma4MergedDecoder::forward_tensor_parallel: offset {wrong} != cached sequence \
                 length 3"
            )
        );
        assert!(decoders.iter().all(|decoder| cache_lens(decoder) == [(3, 3), (3, 3)]));
    }
    let results = decode_all(&mut decoders, 2, &[3, 3], &[0]);
    assert_eq!(results[0].as_ref().unwrap_err(), "failed here");
    assert_eq!(results[1].as_ref().unwrap_err(), PEER);
    assert!(decoders.iter().all(|decoder| cache_lens(decoder) == [(3, 3), (3, 3)]));
    for decoder in decoders.iter_mut() {
        assert!(decoder.forward(2, usize::MAX).is_err());
        assert!(decoder.forward(2, 3).is_ok());
    }
}

#[test]
fn gemma4_tensor_parallel_backward_rejects_cross_rank_adapter_disagreement() {
    let mut models = vec![model(&splittable()), model(&splittable())];
    for model in models.iter_mut() {
        model.set_activation_checkpointing(true);
    }
    for pass in forward_all(&mut models, 4) {
        assert!(pass.is_ok());
    }
    models[1].set_adapter_enabled(false);
    for result in backward_all(&mut models, &|_| Ok(())) {
        let refused = result.unwrap_err();
        assert!(
            refused.contains("adapter enabled state differs across tensor-parallel ranks"),
            "{refused}"
        );
    }
}

#[test]
fn gemma4_tensor_parallel_backward_rejects_cross_rank_adapter_value_disagreement() {
    let mut models = vec![model(&splittable()), model(&splittable())];
    for model in models.iter_mut() {
        model.set_activation_checkpointing(true);
    }
    for pass in forward_all(&mut models, 4) {
        assert!(pass.is_ok());
    }
    for result in backward_all(&mut models, &|_| Err(AdapterFault::Values { index: 0 })) {
        let refused = result.unwrap_err();
        assert!(
            refused.contains("replicated adapter tensor 0 differs across tensor-parallel ranks"),
            "{refused}"
        );
    }
}

#[test]
fn gemma4_tensor_parallel_checkpointed_backward_supports_world_three() {
    let mut models = vec![model(&world_three()), model(&world_three()), model(&world_three())];
    for model in models.iter_mut() {
        model.set_activation_checkpointing(true);
        for rank in 0..3 {
            assert!(model.validate_tensor_parallel_plan(&plan(rank, 3)).is_ok());
        }
    }
    let passes = forward_all(&mut models, 4);
    assert!(passes.iter().all(|pass| *pass == passes[0]));
    assert!(passes[0].is_ok());
    for result in backward_all(&mut models, &|_| Ok(())) {
        assert_eq!(result.unwrap(), BackwardPlan::Stitched { segments: 4, seq_len: 4 });
    }
}

#[test]
fn gemma4_tensor_parallel_checkpoint_tape_requires_matching_backward_hook() {
    let mut models = vec![model(&tiny())];
    models[0].set_activation_checkpointing(true);
    for pass in forward_all(&mut models, 3) {
        assert!(pass.is_ok());
    }
    let refused = models[0].backward().unwrap_err().message("");
    assert!(refused.contains("captured by tensor-parallel execution"), "{refused}");
    assert!(refused.contains("backward_tensor_parallel"), "{refused}");
}

#[test]
fn a_tape_is_replayed_at_most_once() {
    let mut model = model(&tiny());
    assert_eq!(model.backward().unwrap(), BackwardPlan::Direct);
    model.set_activation_checkpointing(true);
    assert!(model.backward().unwrap_err().message("").contains("no tape exists"));
    assert_eq!(model.forward().unwrap(), list_steps(PassKind::LayerBoundaries, 2));
    model.complete_forward(7);
    assert_eq!(model.forward_detached().unwrap(), list_steps(PassKind::Detached, 2));
    assert_eq!(model.backward().unwrap(), BackwardPlan::Stitched { segments: 2, seq_len: 7 });
    assert!(model.backward().is_err());

    model.forward().unwrap();
    model.complete_forward(7);
    model.set_adapter_enabled(false);
    assert_eq!(
        model.backward().unwrap_err().message(""),
        "Gemma4GradModel::backward: adapter toggle changed between forward and backward"
    );

    model.forward().unwrap();
    model.complete_forward(7);
    model.set_activation_checkpointing(false);
    assert!(model.tape.is_none());

    model.set_activation_checkpointing(true);
    model.forward().unwrap();
    model.complete_forward(7);
    model.tape.as_mut().unwrap().segments = 1;
    assert_eq!(
        model.backward().unwrap_err().message(""),
        "Gemma4GradModel::backward: tape has 1 layer segments for 2 layers"
    );
}

#[test]
fn a_tensor_parallel_tape_must_fit_the_live_execution() {
    let mut models = vec![model(&splittable()), model(&splittable())];
    for model in models.iter_mut() {
        model.set_activation_checkpointing(true);
    }
    for result in backward_all(&mut models, &|_| Ok(())) {
        assert_eq!(
            result.unwrap_err(),
            "Gemma4GradModel::backward_tensor_parallel: activation checkpointing is on but no \
             tape exists"
        );
    }
    for model in models.iter_mut() {
        model.forward().unwrap();
        model.complete_forward(4);
    }
    for (rank, result) in backward_all(&mut models, &|_| Ok(())).into_iter().enumerate() {
        assert_eq!(
            result.unwrap_err(),
            format!(
                "Gemma4GradModel::backward_tensor_parallel: pending tape execution Ordinary does \
                 not match live tensor-parallel rank {rank}/world 2"
            )
        );
    }
    forward_all(&mut models, 4);
    for model in models.iter_mut() {
        model.tape.as_mut().unwrap().segments = 3;
    }
    for result in backward_all(&mut models, &|_| Ok(())) {
        assert_eq!(
            result.unwrap_err(),
            "Gemma4GradModel::backward_tensor_parallel: tape has 3 sublayer segments, expected 4 \
             for 2 layers"
        );
    }
    forward_all(&mut models, 4);
    for model in models.iter_mut() {
        model.set_adapter_enabled(false);
    }
    for result in backward_all(&mut models, &|_| Ok(())) {
        assert_eq!(
            result.unwrap_err(),
            "Gemma4GradModel::backward_tensor_parallel: adapter toggle changed between forward \
             and backward"
        );
    }
    assert_eq!(Gemma4RematExecution::Ordinary.show(), "Ordinary");
}

#[test]
fn checkpointing_is_agreed_on_by_votes() {
    let two = plan(1, 2);
    let consensus = validate_activation_checkpointing_consensus;
    assert_eq!(consensus(true, two, None), CheckpointingConsensus::Reduce(true));
    assert_eq!(consensus(true, two, Some(double(2.0))), CheckpointingConsensus::Agreed);
    assert_eq!(consensus(false, two, Some(double(0.0))), CheckpointingConsensus::Agreed);
    assert_eq!(consensus(false, two, Some(double(1.0))), CheckpointingConsensus::Differs);
    assert_eq!(
        consensus(true, TensorParallelPlan::single(), None),
        CheckpointingConsensus::Agreed
    );
}

#[test]
fn passes_list_their_steps_in_order() {
    assert_eq!(list_steps(PassKind::Recorded, 2), [Embed, Layer(0), Layer(1), Head]);
    assert_eq!(
        list_steps(PassKind::Detached, 2),
        [Embed, Detach, Layer(0), Detach, Layer(1), Detach, Head]
    );
    assert_eq!(
        list_steps(PassKind::LayerBoundaries, 2),
        [Embed, Capture, Layer(0), Capture, Layer(1), Capture, Head]
    );
    assert_eq!(
        list_steps(PassKind::BlockBoundaries, 1),
        [Embed, Capture, Attention(0), Capture, Mlp(0), Capture, Head]
    );
    assert_eq!(
        list_steps(PassKind::DetachedOutput, 1),
        [Embed, Detach, Layer(0), Detach, Head, Detach]
    );
    for kind in [PassKind::Recorded, PassKind::BlockBoundaries, PassKind::DetachedOutput] {
        let mut steps = list_opening(kind);
        steps.extend(list_rest(kind, 3));
        assert_eq!(steps, list_steps(kind, 3));
    }
    assert_eq!(Gemma4GradModel::replay_segment(4), Attention(2));
    assert_eq!(Gemma4GradModel::replay_segment(5), Mlp(2));
}

#[test]
fn gemma4_tensor_parallel_cached_decoder_preflights_layout_before_mutating_cache() {
    let mut config = splittable();
    config.text_config.intermediate_size = 15;
    assert!(config.validate().is_ok());
    let model = model(&config);
    let mut decoders = vec![model.merged_decoder(), model.merged_decoder()];
    for result in decode_all(&mut decoders, 3, &[0, 0], &[]) {
        let refused = result.unwrap_err();
        assert!(refused.contains("intermediate_size"), "{refused}");
    }
    for mut decoder in decoders {
        assert_eq!(cache_lens(&decoder), [(0, 0), (0, 0)]);
        assert!(decoder.forward(3, 0).is_ok());
        assert_eq!(cache_lens(&decoder), [(3, 3), (3, 3)]);
    }
}

#[test]
fn gemma4_quantized_multi_rank_tensor_parallel_rejects_before_cached_state_mutation() {
    let mut config = quantized_tiny();
    config.text_config.num_key_value_heads = 2;
    config.text_config.num_global_key_value_heads = 2;
    assert!(config.validate().is_ok());
    let mut models = vec![quantized(&config), quantized(&config)];
    for pass in forward_all(&mut models, 3) {
        assert!(pass.unwrap_err().contains("does not support q8_0 base projections"));
    }
    let mut decoders: Vec<Gemma4MergedDecoder> =
        models.iter().map(Gemma4GradModel::merged_decoder).collect();
    for result in decode_all(&mut decoders, 3, &[0, 0], &[]) {
        let refused = result.unwrap_err();
        assert!(refused.contains("does not support q8_0 base projections"), "{refused}");
    }
    for mut decoder in decoders {
        assert!(decoder.forward(3, 0).is_ok());
    }
}

#[test]
fn gemma4_quantized_world_one_tensor_parallel_rejects_but_ordinary_paths_work() {
    let mut models = vec![quantized(&quantized_tiny())];
    assert!(models[0].forward().is_ok());
    for pass in forward_all(&mut models, 3) {
        let refused = pass.unwrap_err();
        assert!(refused.contains("does not support q8_0 base projections"), "{refused}");
        assert!(refused.contains("disable tensor_parallel for world-one Q8_0"), "{refused}");
    }
    let refused = detached_all(&models, &[]).remove(0).unwrap_err();
    assert!(refused.contains("does not support q8_0 base projections"), "{refused}");

    let mut decoders = vec![models[0].merged_decoder()];
    let refused = decode_all(&mut decoders, 3, &[0], &[]).remove(0).unwrap_err();
    assert!(refused.contains("does not support q8_0 base projections"), "{refused}");
    assert!(refused.contains("disable tensor_parallel for world-one Q8_0"), "{refused}");
    assert!(decoders[0].forward(3, 0).is_ok());
}

#[test]
fn industrial_recipe_var_order_omits_full_attention_v_proj() {
    let model = model(&tiny());
    assert_eq!(model.lora_recipe().as_deref(), Some("attn:qkvo|mlp:gud"));
    let vars = model.trainable_vars();
    assert_eq!(
        vars.len(),
        14 + 12,
        "sliding layer has q/k/v/o + mlp, full layer has q/k/o + mlp"
    );
    let order = |layer: usize| -> Vec<Projection> {
        vars.iter()
            .filter(|var| var.layer == layer && var.factor == AdapterFactor::A)
            .map(|var| var.projection)
            .collect()
    };
    assert_eq!(
        order(0),
        [
            Projection::Query,
            Projection::Key,
            Projection::Value,
            Projection::Output,
            Projection::Gate,
            Projection::Up,
            Projection::Down,
        ]
    );
    assert_eq!(
        order(1),
        [
            Projection::Query,
            Projection::Key,
            Projection::Output,
            Projection::Gate,
            Projection::Up,
            Projection::Down,
        ]
    );
    assert_eq!(
        vars[1],
        TrainableVar { layer: 0, projection: Projection::Query, factor: AdapterFactor::B }
    );
}

#[test]
fn loads_refuse_what_they_cannot_hold() {
    let none = DenseLoraTargets {
        attn_q: false,
        attn_k: false,
        attn_v: false,
        attn_o: false,
        mlp_gate: false,
        mlp_up: false,
        mlp_down: false,
    };
    assert_eq!(
        load_refusal(Gemma4GradModel::load_with_targets(&tiny(), none)),
        "Gemma4GradModel: DenseLoraTargets selects no projection"
    );
    assert_eq!(
        load_refusal(
            Gemma4GradModel::load_with_targets_base_quantization_and_tensor_parallel(
                &quantized_tiny(),
                DenseLoraTargets::industrial(),
                BaseQuantization::Q8_0,
                plan(0, 2),
            )
        ),
        "Gemma4GradModel rank-local tensor_parallel loading does not support q8_0 base \
         quantization"
    );
    let mut broken = tiny();
    broken.text_config.attention_bias = true;
    assert!(load_refusal(Gemma4GradModel::load(&broken)).contains("attention_bias"));
    let legacy = match Gemma4GradModel::load_with_targets(&tiny(), DenseLoraTargets::legacy()) {
        Ok(model) => model,
        Err(fault) => panic!("{}", fault.message("")),
    };
    assert_eq!(legacy.trainable_vars().len(), 4 + 2);
    match Gemma4GradModel::load(&tiny()) {
        Ok(model) => assert_eq!(model.targets, DenseLoraTargets::industrial()),
        Err(fault) => panic!("{}", fault.message("")),
    }
}

#[test]
fn rank_local_weights_bind_the_execution() {
    let loaded = Gemma4GradModel::load_with_targets_base_quantization_and_tensor_parallel(
        &splittable(),
        DenseLoraTargets::industrial(),
        BaseQuantization::Unquantized,
        plan(1, 2),
    );
    let mut model = match loaded {
        Ok(model) => model,
        Err(fault) => panic!("{}", fault.message("")),
    };
    assert_eq!(model.layers[0].attn.q_proj.split, WeightSplit::Column);
    assert_eq!(model.layers[0].attn.o_proj.split, WeightSplit::Row);
    assert_eq!(model.layers[0].mlp.down_proj.split, WeightSplit::Row);
    assert!(model.forward().unwrap_err().message("").contains("rank-local tensor_parallel"));
    assert!(model.forward_detached().is_err());
    let mut swapped = vec![rank_local(1), rank_local(0)];
    for (rank, pass) in detached_all(&swapped, &[]).into_iter().enumerate() {
        assert_eq!(
            pass.unwrap_err(),
            format!(
                "Gemma4GradModel rank-local weight plan rank {}/world 2 does not match execution \
                 plan rank {rank}/world 2",
                1 - rank
            )
        );
    }

    let mut decoder = model.merged_decoder();
    assert!(decoder.forward(1, 0).unwrap_err().message().contains("rank-local tensor_parallel"));
    let mut decoders: Vec<Gemma4MergedDecoder> =
        swapped.iter_mut().map(|model| model.merged_decoder()).collect();
    for (rank, pass) in decode_all(&mut decoders, 1, &[0, 0], &[]).into_iter().enumerate() {
        assert_eq!(
            pass.unwrap_err(),
            format!(
                "Gemma4MergedDecoder rank-local weight plan rank {}/world 2 does not match \
                 execution plan rank {rank}/world 2",
                1 - rank
            )
        );
    }
    let mut decoders = vec![rank_local(0).merged_decoder(), decoder];
    assert!(decode_all(&mut decoders, 2, &[0, 0], &[]).iter().all(Result::is_ok));
    for pass in decode_all(&mut decoders, 1, &[1, 1], &[]) {
        assert_eq!(
            pass.unwrap_err(),
            "Gemma4MergedDecoder::forward_tensor_parallel: offset 1 != cached sequence length 2"
        );
    }
}

#[test]
fn merged_decoder_bounds_sliding_cache_without_changing_offsets() {
    let mut decoder = model(&tiny()).merged_decoder();
    assert!(decoder.forward(5, 0).is_ok());
    assert_eq!(cache_lens(&decoder), [(5, 3), (5, 5)]);
    assert!(decoder.forward(1, 5).is_ok());
    assert_eq!(cache_lens(&decoder), [(6, 3), (6, 6)]);
}

#[test]
fn merged_decoder_reports_seen_and_retained_cache_snapshots() {
    let mut decoder = model(&tiny()).merged_decoder();
    assert!(decoder.forward(5, 0).is_ok());
    let expected = vec![
        DecoderCacheSnapshot {
            phase: "rollout_prefill_end".to_string(),
            layer_index: 0,
            kind: "sliding_attention".to_string(),
            seen_tokens: 5,
            retained_tokens: 3,
            max_retained_tokens: Some(3),
        },
        DecoderCacheSnapshot {
            phase: "rollout_prefill_end".to_string(),
            layer_index: 1,
            kind: "full_attention".to_string(),
            seen_tokens: 5,
            retained_tokens: 5,
            max_retained_tokens: None,
        },
    ];
    assert_eq!(
        format!("{:?}", decoder.decoder_cache_snapshots("rollout_prefill_end")),
        format!("{expected:?}")
    );
}

#[test]
fn a_decoder_only_goes_on_where_its_cache_ends() {
    let mut decoder = model(&tiny()).merged_decoder();
    assert!(matches!(
        decoder.forward(1, 2),
        Err(Gemma4DecoderFault::Offset { offset: 2, cached: 0 })
    ));
    decoder.forward(4, 0).unwrap();
    assert_eq!(
        decoder.forward(1, 3).unwrap_err().message(),
        "Gemma4MergedDecoder::forward: offset 3 != cached sequence length 4"
    );
    assert_eq!(decoder.current_seq_len(), 4);
    decoder.reset_cache();
    assert_eq!(cache_lens(&decoder), [(0, 0), (0, 0)]);
    assert!(decoder.forward(2, 0).is_ok());
}

#[test]
fn a_cached_pass_sees_the_window_of_each_layer() {
    let mut decoder = model(&tiny()).merged_decoder();
    decoder.forward(5, 0).unwrap();
    let pass = decoder.forward(2, 5).unwrap();
    let full = pass.full.unwrap();
    assert_eq!((full.chunk_len, full.key_len), (2, 7));
    assert_eq!(full.visible, [[true; 7], [true, true, true, true, true, true, true]].concat()
        .iter()
        .enumerate()
        .map(|(at, _)| at % 7 <= 5 + at / 7)
        .collect::<Vec<bool>>());
    let sliding = pass.layers[0].mask.as_ref().unwrap();
    // Three positions are kept, so the keys start at position two.
    assert_eq!(pass.layers[0].append.key_start, 2);
    assert_eq!((sliding.chunk_len, sliding.key_len), (2, 5));
    let expected: Vec<bool> = (0..2)
        .flat_map(|query| (0..5).map(move |key| (query + 5, key + 2)))
        .map(|(query, key)| key <= query && query - key < 3)
        .collect();
    assert_eq!(sliding.visible, expected);
    assert!(pass.layers[1].mask.is_none());
}

#[test]
fn uneven_axes_are_named_in_order() {
    let mut config = tiny();
    config.text_config.num_attention_heads = 4;
    config.text_config.num_key_value_heads = 1;
    let model = model(&config);
    assert_eq!(
        model.validate_tensor_parallel_plan(&plan(0, 8)),
        Err(UnevenAxis { axis: ShardedAxis::AttentionKOut, len: 4, world_size: 8 })
    );
    assert_eq!(
        model.validate_tensor_parallel_plan(&plan(0, 2)),
        Err(UnevenAxis { axis: ShardedAxis::NumKeyValueHeads, len: 1, world_size: 2 })
    );
    assert!(model.validate_tensor_parallel_plan(&plan(0, 1)).is_ok());
    assert_eq!(
        Gemma4ModelFault::Uneven(UnevenAxis {
            axis: ShardedAxis::IntermediateSize,
            len: 15,
            world_size: 2,
        })
        .message(""),
        "tensor_parallel axis intermediate_size of length 15 is not divisible by world_size 2"
    );
}

#[test]
fn attention_shapes_fit_on_every_rank() {
    let model = model(&splittable());
    let attention = &model.layers[1].attn;
    let whole = attention.forward_at_tensor_parallel(3, 5, 5, &plan(0, 1)).unwrap();
    assert_eq!((whole.heads, whole.kv_heads, whole.groups, whole.attn_hidden), (2, 2, 1, 16));
    assert!(whole.values_from_keys);
    let half = attention.forward_at_tensor_parallel(3, 1, 6, &plan(1, 2)).unwrap();
    assert_eq!((half.heads, half.kv_heads, half.groups, half.attn_hidden), (1, 1, 1, 8));
    assert_eq!((half.batch, half.len, half.key_len, half.head_dim), (3, 1, 6, 8));
    assert_eq!(
        attention.forward_at_tensor_parallel(3, 1, 6, &plan(1, 3)),
        Err(UnevenAxis { axis: ShardedAxis::NumAttentionHeads, len: 2, world_size: 3 })
    );
    assert!(!model.layers[0].attn.forward_at_tensor_parallel(1, 1, 1, &plan(0, 1)).unwrap().values_from_keys);
}

#[test]
fn proportional_frequencies_end_in_a_zero_tail() {
    assert_eq!(proportional_inv_freq(4, 8), [Some(0), Some(2), None, None]);
    assert_eq!(proportional_inv_freq(8, 8), [Some(0), Some(2), Some(4), Some(6)]);
}

#[test]
fn plans_tile_their_axes() {
    assert!(matches!(TensorParallelPlan::new(0, 0), Err(TensorParallelError::EmptyWorld)));
    assert!(matches!(
        TensorParallelPlan::new(2, 2),
        Err(TensorParallelError::RankOutsideWorld { rank: 2, world_size: 2 })
    ));
    assert_eq!(plan(2, 4).shard_axis("axis", 12).unwrap(), ShardRange { start: 6, len: 3 });
    assert!(matches!(
        plan(0, 4).shard_axis("axis", 10),
        Err(TensorParallelError::UnevenAxis { len: 10, world_size: 4, .. })
    ));
    assert!(!TensorParallelPlan::single().is_sharded());
    assert_eq!((plan(1, 3).rank(), plan(1, 3).world_size()), (1, 3));
}

#[test]
fn local_work_is_coordinated_where_ranks_must_agree() {
    let single = TensorParallelPlan::single();
    assert_eq!(reduce_row_parallel_output(&single, false), RowOutputRoute::Keep);
    assert_eq!(reduce_row_parallel_output(&plan(0, 2), true), RowOutputRoute::Reduce);
    assert_eq!(
        reduce_row_parallel_output(&plan(0, 2), false),
        RowOutputRoute::MissingCommunicator { world_size: 2 }
    );
    assert_eq!(coordinate_tensor_parallel_local_call(&single, true), LocalCallRoute::Coordinate);
    assert_eq!(coordinate_tensor_parallel_local_call(&single, false), LocalCallRoute::Direct);
    assert_eq!(
        coordinate_tensor_parallel_local_call(&plan(0, 2), false),
        LocalCallRoute::MissingCommunicator { world_size: 2 }
    );
    assert_eq!(coordinate_local_call(true, double(0.0)), Coordination::Proceed);
    assert_eq!(coordinate_local_call(true, double(1.0)), Coordination::FailedOnPeer);
    assert_eq!(coordinate_local_call(false, double(1.0)), Coordination::FailedHere);
}

#[test]
fn ranks_stop_at_the_same_stage_whatever_fails_where() {
    // Which of three ranks fail in each of two stages, bit by bit.
    for pattern in 0..64usize {
        let fails = |stage: usize, rank: usize| pattern >> (3 * stage + rank) & 1 == 1;
        let passed: Vec<usize> = (0..3)
            .map(|rank| {
                (0..2)
                    .take_while(|stage| {
                        let votes: Vec<bool> = (0..3).map(|rank| fails(*stage, rank)).collect();
                        let report = StageReport {
                            succeeded: !fails(*stage, rank),
                            failures: count(&votes),
                        };
                        report.coordination() == Coordination::Proceed
                    })
                    .count()
            })
            .collect();
        assert!(passed.iter().all(|stages| *stages == passed[0]), "{pattern:b}: {passed:?}");
    }
    assert_eq!(
        peer_failure("Gemma4 tensor-parallel backward readiness"),
        "Gemma4 tensor-parallel backward readiness failed on a peer tensor-parallel rank; stopped \
         before the next collective"
    );
}
