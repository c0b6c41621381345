use ferrl::binary64::Real64;
use ferrl::dtype::DType;
use ferrl::gemma4::checkpoint::{
    gather_text_tensors, is_gemma4_text_tensor, select_text_shards, tensors_from_pretrained,
    CheckpointObservations, CheckpointStep,
};
use ferrl::gemma4::config::{
    Gemma4Config, Gemma4FullAttentionRope, Gemma4LayerType, Gemma4RopeParameters,
    Gemma4SlidingAttentionRope, Gemma4TextConfig,
};
use ferrl::gemma4::model::Gemma4GradModel;
use ferrl::json::parse_json;
use ferrl::loader::bound::{
    load_gemma4_policy_from_source, load_gemma4_policy_streaming_bound,
    load_qwen35_policy_from_source, load_qwen_policy_from_source, BoundStream, PolicyWeights,
};
use ferrl::loader::identity::{checkpoint_policy_digest, identity_preimage, ShardIdentity};
use ferrl::loader::options::{
    model_type_from_bytes, model_type_from_json, reject_unsupported_sharded_tensor_parallel,
    validate_gemma4_loader_options, validate_qwen35_loader_options, validate_qwen3_loader_options,
    LoaderError, LoaderOpts, ModelType, SourceFault,
};
use ferrl::loader::policy::{
    build_gemma4_policy, build_qwen35_policy, build_qwen_policy, check_gemma4, check_qwen3,
    load_auto_policy_bound_inner, validate_qwen3_config_bytes, AutoPolicy, AutoStep, GemmaWeights,
};
use ferrl::loader::source::{
    is_safe_shard_name, read_regular_file, validate_shard_name, CaptureObservations, CaptureStep,
    CapturedPolicySource, CapturedShard, FileObservations, FileStep, OpenFacts, PathFacts,
    PathStyle,
};
use ferrl::lora::{BaseQuantization, DenseLoraTargets};
use ferrl::tensor_file::{check_header, tensor_names, TensorFileFault};
use ferrl::tensor_parallel::TensorParallelPlan;
use safetensors::tensor::{Dtype, TensorView};
use sha2::{Digest, Sha256};
use std::collections::BTreeMap;
use std::path::{Component, Path};

/// The name of the ledger layout that the identities are taken under.
const LAYOUT: &str = "rows";

const CONFIG_PATH: &str = "checkpoint/config.json";

const QWEN3_CONFIG: &str = r#"{ "model_type": "qwen3", "vocab_size": 16, "hidden_size": 8,
    "intermediate_size": 16, "num_hidden_layers": 2,
    "num_attention_heads": 2, "num_key_value_heads": 1, "head_dim": 4,
    "attention_bias": false, "max_position_embeddings": 32,
    "sliding_window": null, "max_window_layers": 0,
    "tie_word_embeddings": true, "rope_theta": 10000.0,
    "rms_norm_eps": 1e-6, "use_sliding_window": false,
    "hidden_act": "silu" }"#;

fn double(value: f64) -> Real64 {
    Real64 { bits: value.to_bits() }
}

fn kinds(pattern: &str) -> Vec<Gemma4LayerType> {
    pattern
        .chars()
        .map(|c| match c {
            'f' => Gemma4LayerType::FullAttention,
            _ => Gemma4LayerType::SlidingAttention,
        })
        .collect()
}

/// A two-layer config: one sliding layer, one full layer.
fn tiny() -> Gemma4Config {
    Gemma4Config {
        model_type: Some("gemma4".to_string()),
        tie_word_embeddings: Some(true),
        text_config: Gemma4TextConfig {
            model_type: Some("gemma4_text".to_string()),
            vocab_size: 16,
            vocab_size_per_layer_input: 16,
            hidden_size: 8,
            hidden_size_per_layer_input: 0,
            intermediate_size: 16,
            num_hidden_layers: 2,
            num_attention_heads: 2,
            num_key_value_heads: 1,
            num_global_key_value_heads: 1,
            num_kv_shared_layers: 0,
            head_dim: 4,
            global_head_dim: 8,
            hidden_activation: "gelu_pytorch_tanh".to_string(),
            rms_norm_eps: double(1e-6),
            max_position_embeddings: 32,
            sliding_window: 3,
            tie_word_embeddings: true,
            attention_bias: false,
            attention_dropout: double(0.0),
            attention_k_eq_v: true,
            final_logit_softcapping: double(30.0),
            layer_types: kinds("sf"),
            rope_parameters: Gemma4RopeParameters {
                full_attention: Gemma4FullAttentionRope {
                    rope_type: "proportional".to_string(),
                    rope_theta: double(1_000_000.0),
                    partial_rotary_factor: double(0.5),
                },
                sliding_attention: Gemma4SlidingAttentionRope {
                    rope_type: "default".to_string(),
                    rope_theta: double(10_000.0),
                },
            },
            use_cache: true,
            use_bidirectional_attention: Some("vision".to_string()),
            use_double_wide_mlp: false,
            enable_moe_block: false,
            num_experts: None,
            top_k_experts: None,
            expert_intermediate_size: None,
            moe_intermediate_size: None,
        },
    }
}

/// A checkpoint directory in memory.
type Directory = BTreeMap<String, Vec<u8>>;

fn directory(files: &[(&str, &[u8])]) -> Directory {
    files.iter().map(|(name, bytes)| (name.to_string(), bytes.to_vec())).collect()
}

/// Why a directory was not captured.
#[derive(Debug)]
enum Failure {
    Missing(String),
    Refused(LoaderError),
}

/// Captures a directory as its loader does.
fn capture(dir: &Directory) -> Result<CapturedPolicySource, Failure> {
    let read = |name: &str| {
        dir.get(name).cloned().ok_or_else(|| Failure::Missing(name.to_string()))
    };
    let config_bytes = read("config.json")?;
    let model_type = model_type_from_bytes(&config_bytes, CONFIG_PATH).map_err(Failure::Refused)?;
    let mut seen =
        CaptureObservations { has_index: None, single: None, index: None, captured: 0 };
    let mut shards = Vec::new();
    loop {
        match CapturedPolicySource::capture_with_config(
            PathStyle::Unix,
            &model_type,
            "checkpoint/model.safetensors",
            "checkpoint/model.safetensors.index.json",
            &seen,
        ) {
            CaptureStep::LookForIndex => {
                seen.has_index = Some(dir.contains_key("model.safetensors.index.json"));
            }
            CaptureStep::ReadSingle => {
                let bytes = read("model.safetensors")?;
                shards.push(CapturedShard {
                    name: "model.safetensors".to_string(),
                    bytes: bytes.clone(),
                });
                seen.single = Some(bytes);
            }
            CaptureStep::ReadIndex => {
                let index: BTreeMap<String, BTreeMap<String, String>> =
                    serde_json::from_slice(&read("model.safetensors.index.json")?).unwrap();
                seen.index = Some(index["weight_map"].clone().into_iter().collect());
            }
            CaptureStep::ReadShard(name) => {
                let bytes = read(&name)?;
                shards.push(CapturedShard { name, bytes });
                seen.captured += 1;
            }
            CaptureStep::Complete(weight_map) => {
                return Ok(CapturedPolicySource { config_bytes, weight_map, shards });
            }
            CaptureStep::Refused(error) => return Err(Failure::Refused(error)),
        }
    }
}

fn identity(dir: &Directory, opts: &LoaderOpts) -> String {
    capture(dir).unwrap().digest(opts, LAYOUT).unwrap()
}

/// A safetensors file with a small tensor under each name.
fn tensor_bytes(names: &[&str]) -> Vec<u8> {
    let data = [0u8; 16];
    let tensors: Vec<(String, TensorView)> = names
        .iter()
        .map(|name| {
            (name.to_string(), TensorView::new(Dtype::F32, vec![2, 2], &data).unwrap())
        })
        .collect();
    safetensors::serialize(tensors, None).unwrap()
}

fn sharded_opts() -> LoaderOpts {
    LoaderOpts {
        tensor_parallel: TensorParallelPlan::new(0, 2).unwrap(),
        ..LoaderOpts::default()
    }
}

/// The option, the families it is for and the family that was found, of an option refusal.
fn option_refusal(error: LoaderError) -> (String, String, String) {
    match error {
        LoaderError::UnsupportedLoaderOption { option, supported, model_type } => {
            (option, supported, model_type)
        }
        other => panic!("expected an option refusal, got {other:?}"),
    }
}

fn auto_refusal(config: &str, opts: &LoaderOpts) -> LoaderError {
    match load_auto_policy_bound_inner(config.as_bytes(), CONFIG_PATH, opts) {
        AutoStep::Refused(error) => error,
        other => panic!("expected a refusal, got {other:?}"),
    }
}

fn gemma4_unified() -> Gemma4Config {
    let mut config = tiny();
    config.model_type = Some("gemma4_unified".to_string());
    config.text_config.model_type = Some("gemma4_unified_text".to_string());
    config
}

#[test]
fn gemma4_loader_malformed_config_is_a_config_error() {
    match model_type_from_bytes(b"{ not json", CONFIG_PATH) {
        Err(LoaderError::Config { path, .. }) => assert!(path.ends_with("config.json")),
        other => panic!("expected a config error, got {other:?}"),
    }
    let error = model_type_from_bytes(b"{ not json", CONFIG_PATH).unwrap_err();
    assert_eq!(error.message("why"), "parse checkpoint/config.json: why");
}

#[test]
fn default_opts_are_the_poc_recipe() {
    let opts = LoaderOpts::default();
    assert_eq!(opts.lora_rank, 16);
    assert_eq!(opts.lora_alpha, double(32.0));
    assert_eq!(opts.base_dtype, DType::F32);
    assert_eq!(opts.adapter_dtype, DType::F32);
    assert!(!opts.memory_efficient_cached_gqa);
    assert_eq!(opts.base_quantization, BaseQuantization::Unquantized);
    assert!(!opts.activation_checkpointing);
    assert_eq!(opts.tensor_parallel, TensorParallelPlan::single());
}

#[test]
fn checkpoint_policy_identity_is_path_independent_and_content_sensitive() {
    let config: &[u8] = br#"{"model_type":"qwen3"}"#;
    let opts = LoaderOpts::default();
    let first = directory(&[
        ("config.json", config),
        ("model.safetensors", b"same immutable model bytes"),
    ]);
    let mut copied = first.clone();
    let expected = identity(&first, &opts);
    assert_eq!(identity(&copied, &opts), expected);

    copied.insert("model.safetensors".to_string(), b"changed immutable model bytes".to_vec());
    assert_ne!(identity(&copied, &opts), expected);
    let mut copied = first.clone();
    copied.insert(
        "config.json".to_string(),
        br#"{"model_type":"qwen3","changed":true}"#.to_vec(),
    );
    assert_ne!(identity(&copied, &opts), expected);
}

#[test]
fn checkpoint_policy_identity_binds_execution_recipe_but_not_sampler_position() {
    let dir = directory(&[
        ("config.json", br#"{"model_type":"qwen3"}"#),
        ("model.safetensors", b"model"),
    ]);
    let base = LoaderOpts::default;
    let expected = identity(&dir, &base());
    let two = |rank| TensorParallelPlan::new(rank, 2).unwrap();
    let changes: [(&str, LoaderOpts); 8] = [
        ("LoRA rank", LoaderOpts { lora_rank: 17, ..base() }),
        ("LoRA alpha", LoaderOpts { lora_alpha: double(33.0), ..base() }),
        ("base dtype", LoaderOpts { base_dtype: DType::BF16, ..base() }),
        ("adapter dtype", LoaderOpts { adapter_dtype: DType::BF16, ..base() }),
        ("cached GQA recipe", LoaderOpts { memory_efficient_cached_gqa: true, ..base() }),
        ("base quantization", LoaderOpts { base_quantization: BaseQuantization::Q8_0, ..base() }),
        ("activation checkpointing", LoaderOpts { activation_checkpointing: true, ..base() }),
        ("tensor-parallel world", LoaderOpts { tensor_parallel: two(0), ..base() }),
    ];
    for (label, changed) in changes {
        assert_ne!(
            identity(&dir, &changed),
            expected,
            "{label} was omitted from the checkpoint policy identity"
        );
    }
    let sampler_only = LoaderOpts { seed: 1, temperature: double(0.7), ..base() };
    assert_ne!(sampler_only.seed, base().seed);
    assert_eq!(identity(&dir, &sampler_only), expected);
    assert_eq!(
        identity(&dir, &LoaderOpts { tensor_parallel: two(1), ..base() }),
        identity(&dir, &LoaderOpts { tensor_parallel: two(0), ..base() }),
        "TP rank must not split one logical policy identity"
    );
}

#[test]
fn checkpoint_policy_identity_binds_every_indexed_shard_and_rejects_unsafe_names() {
    let config: &[u8] = br#"{"model_type":"qwen3_5"}"#;
    let opts = LoaderOpts::default();
    let index: &[u8] = br#"{"weight_map":{"layer.0":"model-00001-of-00002.safetensors","layer.1":"model-00002-of-00002.safetensors"}}"#;
    let dir = directory(&[
        ("config.json", config),
        ("model.safetensors.index.json", index),
        ("model-00001-of-00002.safetensors", b"first shard"),
        ("model-00002-of-00002.safetensors", b"second shard"),
    ]);
    let expected = identity(&dir, &opts);
    for (label, name) in [
        ("first", "model-00001-of-00002.safetensors"),
        ("second", "model-00002-of-00002.safetensors"),
    ] {
        let mut changed = dir.clone();
        changed.insert(name.to_string(), format!("changed {label} shard").into_bytes());
        assert_ne!(
            identity(&changed, &opts),
            expected,
            "{label} indexed shard was omitted from the identity"
        );
    }

    // The same shards under exchanged coordinates are another layout.
    let mut exchanged = dir.clone();
    exchanged.insert(
        "model.safetensors.index.json".to_string(),
        br#"{"weight_map":{"layer.0":"model-00002-of-00002.safetensors","layer.1":"model-00001-of-00002.safetensors"}}"#.to_vec(),
    );
    assert_ne!(
        identity(&exchanged, &opts),
        expected,
        "indexed weight-map coordinates were omitted from the identity"
    );

    let mut unsafe_name = dir;
    unsafe_name.insert(
        "model.safetensors.index.json".to_string(),
        br#"{"weight_map":{"layer.0":"../outside.safetensors"}}"#.to_vec(),
    );
    match capture(&unsafe_name) {
        Err(Failure::Refused(LoaderError::Source {
            path,
            fault: SourceFault::UnsafeShardName(name),
        })) => {
            assert!(path.ends_with("model.safetensors.index.json"));
            assert_eq!(name, "../outside.safetensors");
        }
        other => panic!("expected an unsafe shard name, got {other:?}"),
    }
}

#[test]
fn the_identity_is_the_digest_of_framed_parts() {
    let opts = LoaderOpts::default();
    let recipe = br#"{"activation_checkpointing":false,"adapter_dtype":"f32","base_dtype":"f32","base_quantization":"none","lora_alpha_bits":4629700416936869888,"lora_rank":16,"memory_efficient_cached_gqa":false,"tensor_parallel_layout":"rows","tensor_parallel_world_size":1}"#;
    let config = br#"{"model_type":"qwen3"}"#.to_vec();
    let weight_map = vec![("*".to_string(), "model.safetensors".to_string())];
    let digest = [7u8; 32];
    let shards =
        vec![ShardIdentity { name: "model.safetensors".to_string(), len: 5, digest }];
    let mut expected: Vec<u8> = Vec::new();
    for part in [
        &b"ferrl.checkpoint-policy.v2"[..],
        recipe,
        b"config.json",
        &config,
        b"selected-weight-map",
        b"*",
        b"model.safetensors",
        b"selected-shard",
        b"model.safetensors",
    ] {
        expected.extend_from_slice(&(part.len() as u64).to_le_bytes());
        expected.extend_from_slice(part);
    }
    expected.extend_from_slice(&5u64.to_le_bytes());
    expected.extend_from_slice(&digest);
    let preimage = identity_preimage(&recipe.to_vec(), &config, &weight_map, &shards);
    assert_eq!(String::from_utf8_lossy(&preimage), String::from_utf8_lossy(&expected));
    let mut hexed = String::new();
    for byte in <sha2::Sha256 as sha2::Digest>::digest(&expected) {
        hexed.push_str(&format!("{byte:02x}"));
    }
    assert_eq!(
        checkpoint_policy_digest(&config, &weight_map, &shards, &opts, LAYOUT).unwrap(),
        hexed
    );
}

#[test]
fn qwen_loader_keeps_replicated_weight_fallback_under_sharded_execution_plan() {
    assert!(check_qwen3(QWEN3_CONFIG.as_bytes(), CONFIG_PATH, &sharded_opts()).is_ok());
    match capture(&directory(&[("config.json", QWEN3_CONFIG.as_bytes())])) {
        Err(Failure::Missing(path)) => assert!(path.ends_with("model.safetensors")),
        other => panic!("expected replicated weights to be read, got {other:?}"),
    }
}

#[test]
fn auto_qwen35_loader_rejects_sharded_tensor_parallel_before_weight_load() {
    let (option, supported, model_type) =
        option_refusal(auto_refusal(r#"{ "model_type": "qwen3_5" }"#, &sharded_opts()));
    assert_eq!(option, "tensor_parallel");
    assert!(supported.contains("not supported"));
    assert_eq!(model_type, "qwen3_5");
}

#[test]
fn gemma4_loader_enters_rank_local_safetensors_path() {
    assert!(matches!(check_gemma4(&tiny(), &sharded_opts()), Ok(GemmaWeights::Streamed)));
    let seen = CheckpointObservations {
        has_index: Some(false),
        weight_map: None,
        has_single: Some(false),
        loaded: Vec::new(),
    };
    match tensors_from_pretrained("checkpoint", "checkpoint/index", &seen) {
        CheckpointStep::Refused(fault) => assert_eq!(
            fault.message(),
            "gemma4 loader: neither model.safetensors.index.json nor model.safetensors found in \
             checkpoint"
        ),
        other => panic!("expected a refusal, got {other:?}"),
    }
}

#[test]
fn gemma4_policy_advertises_tensor_parallel_activation_checkpointing() {
    let model = match Gemma4GradModel::load(&tiny()) {
        Ok(model) => model,
        Err(fault) => panic!("{}", fault.message("")),
    };
    let mut policy = AutoPolicy::Gemma4(model);
    assert!(policy.supports_tensor_parallel());
    assert!(policy.model_family_supports_tensor_parallel_activation_checkpointing());
    policy.set_activation_checkpointing(true);
    assert!(policy.activation_checkpointing());
}

#[test]
fn auto_loader_rejects_unknown_model_type_before_weight_load() {
    match auto_refusal(r#"{ "model_type": "not_qwen" }"#, &LoaderOpts::default()) {
        LoaderError::UnsupportedModelType { model_type } => {
            assert_eq!(model_type.as_deref(), Some("not_qwen"));
        }
        other => panic!("expected an unsupported model type, got {other:?}"),
    }
}

#[test]
fn qwen_loader_rejects_qwen35_cached_gqa_option() {
    let opts = LoaderOpts { memory_efficient_cached_gqa: true, ..LoaderOpts::default() };
    assert_eq!(
        option_refusal(check_qwen3(QWEN3_CONFIG.as_bytes(), CONFIG_PATH, &opts).unwrap_err()),
        (
            "policy.memory_efficient_cached_gqa".to_string(),
            "qwen3_5".to_string(),
            "qwen3".to_string(),
        )
    );
    assert!(validate_qwen3_loader_options(&opts).is_err());
}

fn detected(config: &str) -> Option<ModelType> {
    model_type_from_bytes(config.as_bytes(), CONFIG_PATH).unwrap()
}

#[test]
fn model_type_detection_routes_qwen35_family() {
    assert!(matches!(detected(r#"{ "model_type": "qwen3_5" }"#), Some(ModelType::Qwen3_5)));
}

#[test]
fn model_type_detection_routes_gemma4_family() {
    assert!(matches!(detected(r#"{ "model_type": "gemma4" }"#), Some(ModelType::Gemma4)));
}

#[test]
fn model_type_detection_routes_gemma4_unified_family() {
    assert!(matches!(detected(r#"{ "model_type": "gemma4_unified" }"#), Some(ModelType::Gemma4)));
}

#[test]
fn model_type_detection_tells_missing_from_malformed() {
    assert!(matches!(detected(r#"{ "model_type": "qwen3" }"#), Some(ModelType::Qwen3)));
    assert!(detected(r#"{ "hidden_size": 8 }"#).is_none());
    assert!(matches!(
        detected(r#"{ "model_type": 3 }"#),
        Some(ModelType::Unsupported(None))
    ));
    let json = parse_json(br#"{ "model_type": "llama" }"#).unwrap();
    match model_type_from_json(&json) {
        Some(ModelType::Unsupported(Some(name))) => assert_eq!(name, "llama"),
        other => panic!("expected an unsupported family, got {other:?}"),
    }
}

#[test]
fn qwen35_loader_rejects_base_quantization_option_before_weight_load() {
    let opts = LoaderOpts { base_quantization: BaseQuantization::Q8_0, ..LoaderOpts::default() };
    assert_eq!(
        option_refusal(auto_refusal(r#"{ "model_type": "qwen3_5" }"#, &opts)),
        (
            "policy.base_quantization".to_string(),
            "qwen3 or gemma4".to_string(),
            "qwen3_5".to_string(),
        )
    );
    assert!(validate_qwen35_loader_options(&opts).is_err());
    assert!(validate_qwen35_loader_options(&LoaderOpts::default()).is_ok());
}

#[test]
fn auto_loader_reaches_gemma4_weight_capture_after_config_validation() {
    let config: &[u8] = br#"{ "model_type": "gemma4" }"#;
    assert!(matches!(
        load_auto_policy_bound_inner(config, CONFIG_PATH, &LoaderOpts::default()),
        AutoStep::ReadGemma4Config
    ));
    assert!(matches!(
        check_gemma4(&tiny(), &LoaderOpts::default()),
        Ok(GemmaWeights::Captured)
    ));
    match capture(&directory(&[("config.json", config)])) {
        Err(Failure::Missing(path)) => assert!(path.ends_with("model.safetensors")),
        other => panic!("expected the weights to be read, got {other:?}"),
    }
}

#[test]
fn auto_loader_reaches_gemma4_unified_weight_capture_after_config_validation() {
    let config: &[u8] = br#"{ "model_type": "gemma4_unified" }"#;
    assert!(matches!(
        load_auto_policy_bound_inner(config, CONFIG_PATH, &LoaderOpts::default()),
        AutoStep::ReadGemma4Config
    ));
    assert!(matches!(
        check_gemma4(&gemma4_unified(), &LoaderOpts::default()),
        Ok(GemmaWeights::Captured)
    ));
    match capture(&directory(&[("config.json", config)])) {
        Err(Failure::Missing(path)) => assert!(path.ends_with("model.safetensors")),
        other => panic!("expected the weights to be read, got {other:?}"),
    }
}

#[test]
fn gemma4_loader_rejects_qwen35_cached_gqa_option() {
    let opts = LoaderOpts { memory_efficient_cached_gqa: true, ..LoaderOpts::default() };
    assert_eq!(
        option_refusal(check_gemma4(&tiny(), &opts).unwrap_err()),
        (
            "policy.memory_efficient_cached_gqa".to_string(),
            "qwen3_5".to_string(),
            "gemma4".to_string(),
        )
    );
}

#[test]
fn gemma4_unified_loader_rejects_qwen35_cached_gqa_option_with_unified_model_type() {
    let opts = LoaderOpts { memory_efficient_cached_gqa: true, ..LoaderOpts::default() };
    assert_eq!(
        option_refusal(check_gemma4(&gemma4_unified(), &opts).unwrap_err()),
        (
            "policy.memory_efficient_cached_gqa".to_string(),
            "qwen3_5".to_string(),
            "gemma4_unified".to_string(),
        )
    );
    assert!(validate_gemma4_loader_options(&opts, &gemma4_unified()).is_err());
}

#[test]
fn tiny_gemma_loader_and_identity_share_the_text_shard_selector() {
    let config: &[u8] = br#"{ "model_type": "gemma4" }"#;
    let text = tensor_bytes(&["model.language_model.norm.weight", "model.language_model.embed"]);
    let index: &[u8] = br#"{"weight_map":{"model.language_model.norm.weight":"text.safetensors","model.language_model.embed":"text.safetensors","model.vision_tower.unused":"vision-only.safetensors"}}"#;
    let dir = directory(&[
        ("config.json", config),
        ("model.safetensors.index.json", index),
        ("text.safetensors", &text),
        ("vision-only.safetensors", b"deliberately not a safetensors payload"),
    ]);
    let opts = LoaderOpts { lora_rank: 2, lora_alpha: double(4.0), ..LoaderOpts::default() };
    let source = capture(&dir).unwrap();
    assert_eq!(source.shards.len(), 1);
    assert_eq!(source.shards.first().map(|shard| shard.name.as_str()), Some("text.safetensors"));
    let expected = identity(&dir, &opts);

    let mut vision_changed = dir.clone();
    vision_changed.insert(
        "vision-only.safetensors".to_string(),
        b"different ignored vision-only bytes".to_vec(),
    );
    assert_eq!(identity(&vision_changed, &opts), expected);

    let mut text_changed = dir;
    text_changed
        .insert("text.safetensors".to_string(), [text.as_slice(), b"selected-text-change"].concat());
    assert_ne!(
        identity(&text_changed, &opts),
        expected,
        "a selected text shard must remain identity-sensitive"
    );
}

#[test]
fn tiny_gemma_streaming_identity_is_tp_rank_invariant_and_binds_remat() {
    let text = tensor_bytes(&["model.language_model.norm.weight", "model.vision.unused"]);
    let dir = directory(&[
        ("config.json", br#"{ "model_type": "gemma4" }"#),
        ("model.safetensors", &text),
    ]);
    let source = capture(&dir).unwrap();
    assert_eq!(
        source.weight_map,
        [(
            "model.language_model.norm.weight".to_string(),
            "model.safetensors".to_string(),
        )]
    );
    let opts = |rank: usize, remat: bool| LoaderOpts {
        lora_rank: 2,
        lora_alpha: double(4.0),
        activation_checkpointing: remat,
        tensor_parallel: TensorParallelPlan::new(rank, 2).unwrap(),
        ..LoaderOpts::default()
    };
    assert_eq!(identity(&dir, &opts(0, true)), identity(&dir, &opts(1, true)));
    assert_ne!(identity(&dir, &opts(0, false)), identity(&dir, &opts(0, true)));
}

#[test]
fn a_gemma4_file_without_text_tensors_is_refused() {
    let dir = directory(&[
        ("config.json", br#"{ "model_type": "gemma4" }"#),
        ("model.safetensors", &tensor_bytes(&["model.vision.unused"])),
    ]);
    match capture(&dir) {
        Err(Failure::Refused(LoaderError::Source { fault: SourceFault::NoTextTensors, .. })) => {}
        other => panic!("expected no text tensors, got {other:?}"),
    }
    let dir = directory(&[
        ("config.json", br#"{ "model_type": "gemma4" }"#),
        ("model.safetensors", b"not a tensor file"),
    ]);
    match capture(&dir) {
        Err(Failure::Refused(LoaderError::Tensors(_))) => {}
        other => panic!("expected a tensor file fault, got {other:?}"),
    }
    let dir = directory(&[
        ("config.json", br#"{ "model_type": "gemma4" }"#),
        ("model.safetensors.index.json", br#"{"weight_map":{"model.vision.unused":"a"}}"#),
    ]);
    match capture(&dir) {
        Err(Failure::Refused(LoaderError::Source { fault: SourceFault::NothingSelected, .. })) => {}
        other => panic!("expected nothing to be selected, got {other:?}"),
    }
}

/// Loads a directory as the Gemma 4 tensor loader does, and gives the kept tensor names.
fn pretrained(dir: &Directory) -> Result<Vec<String>, String> {
    let mut seen = CheckpointObservations {
        has_index: None,
        weight_map: None,
        has_single: None,
        loaded: Vec::new(),
    };
    loop {
        match tensors_from_pretrained("checkpoint", "checkpoint/model.safetensors.index.json", &seen)
        {
            CheckpointStep::LookForIndex => {
                seen.has_index = Some(dir.contains_key("model.safetensors.index.json"));
            }
            CheckpointStep::ReadIndex => {
                let bytes = &dir["model.safetensors.index.json"];
                let index: BTreeMap<String, BTreeMap<String, String>> =
                    serde_json::from_slice(bytes).unwrap();
                seen.weight_map = Some(index["weight_map"].clone().into_iter().collect());
            }
            CheckpointStep::LookForSingle => {
                seen.has_single = Some(dir.contains_key("model.safetensors"));
            }
            CheckpointStep::Load(name) => seen.loaded.push(tensor_names(&dir[&name]).unwrap()),
            CheckpointStep::Keep(kept) => {
                return Ok(kept.into_iter().map(|(name, _)| name).collect());
            }
            CheckpointStep::Refused(fault) => return Err(fault.message()),
        }
    }
}

#[test]
fn tensors_from_pretrained_ignores_non_text_shards_and_tensors() {
    let names = [
        "model.language_model.embed_tokens.weight",
        "model.language_model.norm.weight",
        "model.vision.patch_embed.weight",
    ];
    let single = directory(&[("model.safetensors", &tensor_bytes(&names))]);
    let mut loaded = pretrained(&single).unwrap();
    loaded.sort();
    assert_eq!(loaded, names[..2]);
    assert!(loaded.iter().all(|name| is_gemma4_text_tensor(name)));

    let index: &[u8] = br#"{"metadata":{},"weight_map":{"model.language_model.embed_tokens.weight":"text.safetensors","model.language_model.norm.weight":"text.safetensors","model.vision.patch_embed.weight":"missing-vision.safetensors"}}"#;
    let sharded = directory(&[
        ("model.safetensors.index.json", index),
        ("text.safetensors", &tensor_bytes(&names[..2])),
    ]);
    let loaded = pretrained(&sharded).unwrap();
    assert_eq!(loaded.len(), 2);
    assert!(loaded.iter().all(|name| is_gemma4_text_tensor(name)));
}

#[test]
fn tensors_from_pretrained_rejects_non_text_only_checkpoints() {
    let vision = tensor_bytes(&["model.vision.patch_embed.weight"]);
    let single = directory(&[("model.safetensors", &vision)]);
    let refused = pretrained(&single).unwrap_err();
    assert!(refused.contains("no model.language_model.* tensors loaded"), "{refused}");

    let index: &[u8] = br#"{"metadata":{},"weight_map":{"model.vision.patch_embed.weight":"vision.safetensors"}}"#;
    let sharded = directory(&[
        ("model.safetensors.index.json", index),
        ("vision.safetensors", &vision),
    ]);
    let refused = pretrained(&sharded).unwrap_err();
    assert!(refused.contains("no model.language_model.* tensors listed"), "{refused}");
}

#[test]
fn text_tensors_are_told_by_their_prefix() {
    assert!(is_gemma4_text_tensor("model.language_model.norm.weight"));
    assert!(is_gemma4_text_tensor("model.language_model."));
    assert!(!is_gemma4_text_tensor("model.language_model"));
    assert!(!is_gemma4_text_tensor("model.language_models.norm"));
    assert!(!is_gemma4_text_tensor("lm_head.weight"));
}

#[test]
fn the_last_file_that_holds_a_tensor_gives_it() {
    let pair = |tensor: &str, shard: &str| (tensor.to_string(), shard.to_string());
    let shards = select_text_shards(&vec![
        pair("model.language_model.b", "two"),
        pair("model.vision.x", "three"),
        pair("model.language_model.a", "one"),
        pair("model.language_model.c", "two"),
    ]);
    assert_eq!(shards.unwrap(), ["one", "two"]);
    let file = |names: &[&str]| names.iter().map(|name| name.to_string()).collect::<Vec<_>>();
    let mut kept = gather_text_tensors(&vec![
        file(&["model.language_model.a", "model.language_model.b"]),
        file(&["model.language_model.b", "model.vision.x"]),
    ])
    .unwrap();
    kept.sort();
    assert_eq!(
        kept,
        [
            ("model.language_model.a".to_string(), 0),
            ("model.language_model.b".to_string(), 1),
        ]
    );
    assert!(gather_text_tensors(&vec![file(&["model.vision.x"])]).is_err());
}

#[test]
fn tensor_names_come_from_the_header() {
    let mut names = tensor_names(&tensor_bytes(&["b", "a"])).unwrap();
    names.sort();
    assert_eq!(names, ["a", "b"]);
    assert!(matches!(tensor_names(b"short"), Err(TensorFileFault::Format(_))));
    let mut cut = tensor_bytes(&["a"]);
    cut.truncate(cut.len() - 1);
    assert!(tensor_names(&cut).is_err());
    let header = parse_json(br#"{"a":{"dtype":"F32","shape":[1],"data_offsets":[0,4]}}"#).unwrap();
    assert!(check_header(&header, 64));
    let huge = br#"{"a":{"dtype":"F32","shape":[1],"data_offsets":[0,18446744073709551615]}}"#;
    assert!(!check_header(&parse_json(huge).unwrap(), 64));
}

#[test]
fn shard_names_stay_in_the_directory() {
    for name in ["model-00001-of-00002.safetensors", "a.b.safetensors", "a.safetensors/"] {
        assert!(is_safe_shard_name(PathStyle::Unix, name), "{name}");
        assert!(is_safe_shard_name(PathStyle::Windows, name), "{name}");
    }
    for name in
        ["", ".", "..", "../outside.safetensors", "a/b.safetensors", "/a.safetensors", "weights"]
    {
        assert!(!is_safe_shard_name(PathStyle::Unix, name), "{name}");
        assert!(!is_safe_shard_name(PathStyle::Windows, name), "{name}");
    }
    // A backslash and a drive are part of a file name on one platform and not on the other.
    for name in
        ["a\\b.safetensors", "\\a.safetensors", "..\\a.safetensors", "C:a.safetensors", "z:.safetensors"]
    {
        assert!(is_safe_shard_name(PathStyle::Unix, name), "{name}");
        assert!(!is_safe_shard_name(PathStyle::Windows, name), "{name}");
    }
    assert!(is_safe_shard_name(PathStyle::Windows, "a.safetensors\\.\\"));
    assert!(is_safe_shard_name(PathStyle::Windows, "ab:c.safetensors"));
    assert!(is_safe_shard_name(PathStyle::Windows, "1:c.safetensors"));
    match validate_shard_name(PathStyle::Unix, "index.json", "a/b") {
        Err(LoaderError::Source { path, fault }) => {
            assert_eq!(path, "index.json");
            assert_eq!(fault.message(), "unsafe safetensors shard name \"a/b\"");
        }
        other => panic!("expected a refusal, got {other:?}"),
    }
}

/// Whether the standard library sees one normal component with the right extension.
fn is_one_safetensors_component(name: &str) -> bool {
    let path = Path::new(name);
    path.components().count() == 1
        && matches!(path.components().next(), Some(Component::Normal(_)))
        && path.extension().and_then(|extension| extension.to_str()) == Some("safetensors")
}

#[test]
fn shard_names_are_read_as_paths_are() {
    let pieces = ["", "/", ".", "..", "a", ".safetensors", "safetensors", "\u{e9}", "\\", "C:"];
    for first in pieces {
        for second in pieces {
            for third in pieces {
                for last in pieces {
                    let name = format!("{first}{second}{third}{last}");
                    assert_eq!(
                        is_safe_shard_name(PathStyle::Unix, &name),
                        is_one_safetensors_component(&name),
                        "{name:?}"
                    );
                }
            }
        }
    }
}

#[test]
fn a_file_that_changes_under_the_reader_is_refused() {
    let mut seen = FileObservations { path: None, opened: None, read: None };
    assert!(matches!(read_regular_file(&seen), FileStep::LookAtPath));
    seen.path = Some(PathFacts { regular: false, device: 1, inode: 2 });
    assert!(matches!(read_regular_file(&seen), FileStep::Refuse(SourceFault::NotRegular)));
    seen.path = Some(PathFacts { regular: true, device: 1, inode: 2 });
    assert!(matches!(read_regular_file(&seen), FileStep::Open));
    seen.opened = Some(OpenFacts { device: 1, inode: 3, length: 10 });
    assert!(matches!(
        read_regular_file(&seen),
        FileStep::Refuse(SourceFault::ChangedWhileOpening)
    ));
    seen.opened = Some(OpenFacts { device: 1, inode: 2, length: 10 });
    assert!(matches!(read_regular_file(&seen), FileStep::Read { expected: 10 }));
    seen.read = Some(9);
    assert!(matches!(read_regular_file(&seen), FileStep::Refuse(SourceFault::ChangedLength)));
    seen.read = Some(10);
    assert!(matches!(read_regular_file(&seen), FileStep::Accept));
}

#[test]
fn qwen3_configs_are_parsed_before_the_options_are_judged() {
    assert!(validate_qwen3_config_bytes(QWEN3_CONFIG.as_bytes(), CONFIG_PATH).is_ok());
    match validate_qwen3_config_bytes(br#"{ "model_type": "qwen3" }"#, CONFIG_PATH) {
        Err(LoaderError::Config { path, .. }) => assert_eq!(path, CONFIG_PATH),
        other => panic!("expected a config error, got {other:?}"),
    }
    let mut broken = tiny();
    broken.text_config.attention_bias = true;
    assert!(matches!(
        check_gemma4(&broken, &LoaderOpts::default()),
        Err(LoaderError::Gemma4(_))
    ));
    assert!(reject_unsupported_sharded_tensor_parallel(&LoaderOpts::default(), "qwen3_5").is_ok());
}

#[test]
fn builds_take_their_settings_from_the_options() {
    let opts = LoaderOpts {
        activation_checkpointing: true,
        memory_efficient_cached_gqa: true,
        base_dtype: DType::BF16,
        ..sharded_opts()
    };
    let qwen = build_qwen_policy(&opts);
    assert_eq!(qwen.base_dtype, DType::BF16);
    assert_eq!(qwen.weight_plan, TensorParallelPlan::single());
    assert!(!qwen.memory_efficient_cached_gqa);
    let qwen35 = build_qwen35_policy(&opts);
    assert!(qwen35.memory_efficient_cached_gqa);
    let gemma = build_gemma4_policy(&opts);
    assert_eq!(gemma.weight_plan, opts.tensor_parallel);
    assert_eq!(gemma.targets, Some(DenseLoraTargets::industrial()));
    assert!(gemma.activation_checkpointing);
    let mut policy = AutoPolicy::Qwen(false);
    assert!(policy.supports_tensor_parallel());
    assert!(!policy.model_family_supports_tensor_parallel_activation_checkpointing());
    policy.set_activation_checkpointing(true);
    assert!(policy.activation_checkpointing());
    assert!(!AutoPolicy::Qwen3_5(false).supports_tensor_parallel());
}

#[test]
fn an_identity_is_a_lower_case_digest_of_a_sorted_map() {
    let index: &[u8] = br#"{"weight_map":{"layer.9":"b.safetensors","layer.10":"a.safetensors","embed":"b.safetensors"}}"#;
    let dir = directory(&[
        ("config.json", br#"{"model_type":"qwen3_5"}"#),
        ("model.safetensors.index.json", index),
        ("a.safetensors", b"first"),
        ("b.safetensors", b"second"),
    ]);
    let source = capture(&dir).unwrap();
    let tensors: Vec<&str> = source.weight_map.iter().map(|(tensor, _)| tensor.as_str()).collect();
    assert_eq!(tensors, ["embed", "layer.10", "layer.9"]);
    let names: Vec<&str> = source.shards.iter().map(|shard| shard.name.as_str()).collect();
    assert_eq!(names, ["a.safetensors", "b.safetensors"]);
    let identity = source.digest(&LoaderOpts::default(), LAYOUT).unwrap();
    assert_eq!(identity.len(), 64);
    assert!(identity.chars().all(|c| matches!(c, '0'..='9' | 'a'..='f')), "{identity}");
}

#[test]
fn bound_load_uses_captured_qwen35_bytes_when_path_is_replaced_after_identity() {
    let index: &[u8] = br#"{"weight_map":{"a":"model-00001-of-00002.safetensors","b":"model-00002-of-00002.safetensors"}}"#;
    let config: &[u8] = br#"{"model_type":"qwen3_5"}"#;
    let mut dir = directory(&[
        ("config.json", config),
        ("model.safetensors.index.json", index),
        ("model-00001-of-00002.safetensors", &tensor_bytes(&["a"])),
        ("model-00002-of-00002.safetensors", &tensor_bytes(&["b"])),
    ]);
    let opts = LoaderOpts {
        lora_rank: 4,
        lora_alpha: double(8.0),
        activation_checkpointing: true,
        ..LoaderOpts::default()
    };
    let expected = identity(&dir, &opts);
    let bound = capture(&dir).unwrap().bind(&opts, LAYOUT).unwrap();
    assert_eq!(bound.identity(), expected);
    dir.insert(
        "model-00001-of-00002.safetensors".to_string(),
        b"replacement bytes that are not safetensors".to_vec(),
    );
    let load = load_qwen35_policy_from_source(bound, &opts).unwrap();
    assert_eq!(load.identity, expected);
    assert_eq!(load.config_bytes, config);
    assert!(load.build.activation_checkpointing);
    assert!(load.weights.is_kept("a") && load.weights.is_kept("model.vision.x"));
    match load.weights {
        PolicyWeights::Files { shards, text_only: false } => {
            assert_eq!(shards[0].bytes, tensor_bytes(&["a"]));
            assert_eq!(shards[1].bytes, tensor_bytes(&["b"]));
        }
        other => panic!("expected files, got {other:?}"),
    }
    assert_ne!(
        identity(&dir, &opts),
        expected,
        "the offline post-replacement directory fingerprint must see model B"
    );
}

/// A source with a config and files of the given bytes.
fn source(config: &str, files: &[(&str, &[u8])]) -> CapturedPolicySource {
    CapturedPolicySource {
        config_bytes: config.as_bytes().to_vec(),
        weight_map: vec![("*".to_string(), "model.safetensors".to_string())],
        shards: files
            .iter()
            .map(|(name, bytes)| CapturedShard { name: name.to_string(), bytes: bytes.to_vec() })
            .collect(),
    }
}

#[test]
fn a_bound_qwen_load_consumes_its_one_file() {
    let opts = LoaderOpts::default();
    let bound = source(QWEN3_CONFIG, &[("model.safetensors", b"weights")]).bind(&opts, LAYOUT);
    let bound = bound.unwrap();
    let expected = bound.identity().to_string();
    let load = load_qwen_policy_from_source(bound, CONFIG_PATH, &opts).unwrap();
    assert_eq!(load.identity, expected);
    assert_eq!(load.config_bytes, QWEN3_CONFIG.as_bytes());
    assert_eq!(load.build, build_qwen_policy(&opts));
    assert!(matches!(load.weights, PolicyWeights::Single(bytes) if bytes == b"weights"));

    let refused = |source: CapturedPolicySource, opts: &LoaderOpts| {
        let bound = source.bind(opts, LAYOUT).unwrap();
        load_qwen_policy_from_source(bound, CONFIG_PATH, opts).unwrap_err()
    };
    let none = refused(source(QWEN3_CONFIG, &[]), &opts);
    assert!(matches!(none, LoaderError::NoShard));
    assert_eq!(none.message(""), "build model: captured checkpoint has no shard");
    assert!(matches!(refused(source("{}", &[]), &opts), LoaderError::Config { .. }));
    let cached = LoaderOpts { memory_efficient_cached_gqa: true, ..LoaderOpts::default() };
    assert!(matches!(
        refused(source(QWEN3_CONFIG, &[]), &cached),
        LoaderError::UnsupportedLoaderOption { .. }
    ));
    let bound = source("{}", &[]).bind(&opts, LAYOUT).unwrap();
    assert!(load_qwen35_policy_from_source(bound, &sharded_opts()).is_err());
}

#[test]
fn streamed_and_captured_gemma_loads_have_one_identity() {
    let bytes = tensor_bytes(&["model.language_model.a"]);
    let opts = sharded_opts();
    let captured = source("{}", &[("model.safetensors", &bytes)]);
    let digest = captured.digest(&opts, LAYOUT).unwrap();
    let shard = ShardIdentity {
        name: "model.safetensors".to_string(),
        len: bytes.len() as u64,
        digest: Sha256::digest(&bytes).into(),
    };
    let weight_map = captured.weight_map.clone();
    let stream =
        BoundStream::bind(b"{}".to_vec(), weight_map, vec![shard], &opts, LAYOUT).unwrap();
    assert_eq!(stream.identity(), digest);
    let load = load_gemma4_policy_streaming_bound(stream, &tiny(), &opts).unwrap();
    assert_eq!(load.identity, digest);
    assert_eq!(load.config_bytes, b"{}");
    assert_eq!(load.build.weight_plan, opts.tensor_parallel);
    assert!(matches!(load.weights, PolicyWeights::Streamed));

    let bound = captured.bind(&opts, LAYOUT).unwrap();
    assert_eq!(bound.config_bytes(), b"{}");
    let load = load_gemma4_policy_from_source(bound, &tiny(), &opts).unwrap();
    assert_eq!(load.identity, digest);
    assert!(load.weights.is_kept("model.language_model.a"));
    assert!(!load.weights.is_kept("model.vision.a"));

    let mut broken = tiny();
    broken.text_config.attention_bias = true;
    let bound = source("{}", &[]).bind(&opts, LAYOUT).unwrap();
    assert!(matches!(
        load_gemma4_policy_from_source(bound, &broken, &opts),
        Err(LoaderError::Gemma4(_))
    ));
}
