use ferrl::binary64::Real64;
use ferrl::gemma4::config::{
    Gemma4Config, Gemma4ConfigFault, Gemma4FullAttentionRope, Gemma4LayerType, Gemma4RopeParameters,
    Gemma4Size, Gemma4SlidingAttentionRope, Gemma4TextConfig,
};

fn double(value: f64) -> Real64 {
    Real64 { bits: value.to_bits() }
}

fn kinds(pattern: &str) -> Vec<Gemma4LayerType> {
    pattern
        .chars()
        .map(|c| match c {
            'f' => Gemma4LayerType::FullAttention,
            _ => Gemma4LayerType::SlidingAttention,
        })
        .collect()
}

/// A two-layer config: one sliding layer, one full layer.
fn tiny() -> Gemma4Config {
    Gemma4Config {
        model_type: Some("gemma4".to_string()),
        tie_word_embeddings: Some(true),
        text_config: Gemma4TextConfig {
            model_type: Some("gemma4_text".to_string()),
            vocab_size: 16,
            vocab_size_per_layer_input: 16,
            hidden_size: 8,
            hidden_size_per_layer_input: 0,
            intermediate_size: 16,
            num_hidden_layers: 2,
            num_attention_heads: 2,
            num_key_value_heads: 1,
            num_global_key_value_heads: 1,
            num_kv_shared_layers: 0,
            head_dim: 4,
            global_head_dim: 8,
            hidden_activation: "gelu_pytorch_tanh".to_string(),
            rms_norm_eps: double(1e-6),
            max_position_embeddings: 32,
            sliding_window: 3,
            tie_word_embeddings: true,
            attention_bias: false,
            attention_dropout: double(0.0),
            attention_k_eq_v: true,
            final_logit_softcapping: double(30.0),
            layer_types: kinds("sf"),
            rope_parameters: Gemma4RopeParameters {
                full_attention: Gemma4FullAttentionRope {
                    rope_type: "proportional".to_string(),
                    rope_theta: double(1_000_000.0),
                    partial_rotary_factor: double(0.5),
                },
                sliding_attention: Gemma4SlidingAttentionRope {
                    rope_type: "default".to_string(),
                    rope_theta: double(10_000.0),
                },
            },
            use_cache: true,
            use_bidirectional_attention: Some("vision".to_string()),
            use_double_wide_mlp: false,
            enable_moe_block: false,
            num_experts: None,
            top_k_experts: None,
            expert_intermediate_size: None,
            moe_intermediate_size: None,
        },
    }
}

/// The text decoder of the dense 31B checkpoint, cut to six layers.
fn dense_31b() -> Gemma4Config {
    let mut config = tiny();
    let text = &mut config.text_config;
    text.vocab_size = 262_144;
    text.vocab_size_per_layer_input = 262_144;
    text.hidden_size = 5376;
    text.intermediate_size = 21_504;
    text.num_hidden_layers = 6;
    text.num_attention_heads = 32;
    text.num_key_value_heads = 16;
    text.num_global_key_value_heads = 4;
    text.head_dim = 256;
    text.global_head_dim = 512;
    text.max_position_embeddings = 262_144;
    text.sliding_window = 1024;
    text.layer_types = kinds("sssssf");
    text.rope_parameters.full_attention.partial_rotary_factor = double(0.25);
    config
}

/// The text decoder of the unified 12B checkpoint.
fn unified_12b() -> Gemma4Config {
    let mut config = dense_31b();
    config.model_type = Some("gemma4_unified".to_string());
    let text = &mut config.text_config;
    text.model_type = Some("gemma4_unified_text".to_string());
    text.hidden_size = 3840;
    text.intermediate_size = 15_360;
    text.num_hidden_layers = 48;
    text.num_attention_heads = 16;
    text.num_key_value_heads = 8;
    text.num_global_key_value_heads = 1;
    text.layer_types = kinds(&"sssssf".repeat(8));
    config
}

/// What a config is refused with. Fractional numbers are rendered as the standard library does.
fn refusal(config: &Gemma4Config) -> String {
    let fault = config.validate().unwrap_err();
    let shown = match (&fault, fault.number()) {
        (Gemma4ConfigFault::RotaryWidth { head, .. }, Some(factor)) => {
            let factor = f64::from_bits(factor.bits);
            format!("{} = {}", factor, *head as f64 * factor)
        }
        (_, Some(number)) => format!("{}", f64::from_bits(number.bits)),
        (_, None) => String::new(),
    };
    fault.message(&shown)
}

#[test]
fn parses_dense_31b_text_config_shape() {
    let config = dense_31b();
    assert!(config.validate().is_ok());
    assert_eq!(config.model_type.as_deref(), Some("gemma4"));
    assert_eq!(config.text_config.num_hidden_layers, 6);
    assert_eq!(config.text_config.full_attention_rotary_dim(), 128);
    assert_eq!(config.text_config.layer_types.last(), Some(&Gemma4LayerType::FullAttention));
}

#[test]
fn parses_unified_12b_dense_text_model_types() {
    let config = unified_12b();
    assert!(config.validate().is_ok());
    assert_eq!(config.model_type.as_deref(), Some("gemma4_unified"));
    assert_eq!(config.text_config.model_type.as_deref(), Some("gemma4_unified_text"));
}

#[test]
fn parses_unified_12b_dense_text_geometry() {
    let config = unified_12b();
    assert!(config.validate().is_ok());
    assert_eq!(config.text_config.hidden_size, 3840);
    assert_eq!(config.text_config.num_hidden_layers, 48);
    assert_eq!(config.text_config.sliding_window, 1024);
    assert_eq!(config.text_config.full_attention_rotary_dim(), 128);
    assert_eq!(config.text_config.layer_types.last(), Some(&Gemma4LayerType::FullAttention));
}

#[test]
fn rejects_wrong_top_level_model_type() {
    let mut config = dense_31b();
    config.model_type = Some("gemma3".to_string());
    let refused = refusal(&config);
    assert!(refused.contains("model_type"));
    assert!(refused.contains("gemma4"));
    assert_eq!(
        refused,
        "gemma4 config: model_type \"gemma3\", expected \"gemma4\" or \"gemma4_unified\""
    );
}

#[test]
fn rejects_wrong_unified_text_model_type() {
    let mut config = unified_12b();
    config.text_config.model_type = Some("gemma4_unified_audio".to_string());
    let refused = refusal(&config);
    assert!(refused.contains("text_config.model_type"));
    assert!(refused.contains("gemma4_unified_text"));
}

#[test]
fn rejects_moe_fields_in_initial_native_path() {
    let mut config = dense_31b();
    config.text_config.enable_moe_block = true;
    config.text_config.num_experts = Some(128);
    assert!(refusal(&config).contains("MoE fields unsupported"));
}

#[test]
fn rejects_unified_per_layer_embeddings() {
    let mut config = unified_12b();
    config.text_config.hidden_size_per_layer_input = 128;
    assert!(refusal(&config).contains("hidden_size_per_layer_input"));
}

#[test]
fn rejects_unified_moe_fields() {
    let mut config = unified_12b();
    config.text_config.enable_moe_block = true;
    config.text_config.num_experts = Some(128);
    config.text_config.top_k_experts = Some(8);
    assert!(refusal(&config).contains("MoE fields unsupported"));
}

#[test]
fn rejects_unified_moe_intermediate_size() {
    let mut config = unified_12b();
    config.text_config.moe_intermediate_size = Some(15_360);
    assert!(refusal(&config).contains("MoE fields unsupported"));
}

#[test]
fn rejects_non_global_final_layer() {
    let mut config = dense_31b();
    config.text_config.layer_types = kinds("fsssss");
    assert!(refusal(&config).contains("final layer"));
}

#[test]
fn a_missing_model_type_is_accepted_on_top_and_refused_in_the_text_config() {
    let mut config = tiny();
    config.model_type = None;
    config.tie_word_embeddings = None;
    assert!(config.validate().is_ok());
    config.text_config.model_type = None;
    assert_eq!(
        refusal(&config),
        "gemma4 config: text_config.model_type missing, expected \"gemma4_text\" or \
         \"gemma4_unified_text\""
    );
}

#[test]
fn each_zero_size_is_named() {
    let cases: [(fn(&mut Gemma4TextConfig), &str); 12] = [
        (|t| t.vocab_size = 0, "vocab_size"),
        (|t| t.vocab_size_per_layer_input = 0, "vocab_size_per_layer_input"),
        (|t| t.hidden_size = 0, "hidden_size"),
        (|t| t.intermediate_size = 0, "intermediate_size"),
        (|t| t.num_hidden_layers = 0, "num_hidden_layers"),
        (|t| t.num_attention_heads = 0, "num_attention_heads"),
        (|t| t.num_key_value_heads = 0, "num_key_value_heads"),
        (|t| t.num_global_key_value_heads = 0, "num_global_key_value_heads"),
        (|t| t.head_dim = 0, "head_dim"),
        (|t| t.global_head_dim = 0, "global_head_dim"),
        (|t| t.max_position_embeddings = 0, "max_position_embeddings"),
        (|t| t.sliding_window = 0, "sliding_window"),
    ];
    for (change, name) in cases {
        let mut config = tiny();
        change(&mut config.text_config);
        assert_eq!(refusal(&config), format!("gemma4 config: {name} must be > 0"));
    }
    assert_eq!(Gemma4Size::HeadDim.name(), "head_dim");
}

#[test]
fn each_unsupported_setting_has_its_message() {
    let cases: [(fn(&mut Gemma4Config), &str); 25] = [
        (
            |c| c.tie_word_embeddings = Some(false),
            "outer tie_word_embeddings false disagrees with text_config.tie_word_embeddings true",
        ),
        (
            |c| c.text_config.vocab_size_per_layer_input = 8,
            "vocab_size_per_layer_input 8 must equal vocab_size 16 for the initial dense text path",
        ),
        (
            |c| c.text_config.hidden_activation = "silu".to_string(),
            "hidden_activation \"silu\" unsupported (only \"gelu_pytorch_tanh\")",
        ),
        (
            |c| c.text_config.attention_bias = true,
            "attention_bias=true unsupported (31B ships bias-free)",
        ),
        (
            |c| c.text_config.attention_dropout = double(0.1),
            "attention_dropout 0.1 unsupported (only 0.0)",
        ),
        (
            |c| c.text_config.attention_k_eq_v = false,
            "attention_k_eq_v=false unsupported (global layers unify K/V in the initial target)",
        ),
        (
            |c| c.text_config.num_kv_shared_layers = 2,
            "num_kv_shared_layers 2 unsupported (initial target uses 0)",
        ),
        (
            |c| c.text_config.num_key_value_heads = 3,
            "num_attention_heads 2 not divisible by num_key_value_heads 3",
        ),
        (
            |c| c.text_config.num_global_key_value_heads = 3,
            "num_attention_heads 2 not divisible by num_global_key_value_heads 3",
        ),
        (|c| c.text_config.layer_types = kinds("f"), "layer_types has 1 entries for 2 layers"),
        (
            |c| c.text_config.layer_types = kinds("ss"),
            "layer_types must contain at least one full_attention layer",
        ),
        (|c| c.text_config.layer_types = kinds("fs"), "final layer must be full_attention"),
        (
            |c| {
                c.tie_word_embeddings = None;
                c.text_config.tie_word_embeddings = false;
            },
            "tie_word_embeddings=false unsupported (initial target uses tied embeddings)",
        ),
        (
            |c| c.text_config.rms_norm_eps = double(-1.5),
            "rms_norm_eps -1.5 must be a positive number",
        ),
        (
            |c| c.text_config.final_logit_softcapping = double(f64::INFINITY),
            "final_logit_softcapping inf must be a positive number",
        ),
        (
            |c| c.text_config.use_bidirectional_attention = None,
            "use_bidirectional_attention None unsupported (text path expects \"vision\")",
        ),
        (
            |c| c.text_config.use_bidirectional_attention = Some("all".to_string()),
            "use_bidirectional_attention Some(\"all\") unsupported (text path expects \"vision\")",
        ),
        (|c| c.text_config.use_double_wide_mlp = true, "use_double_wide_mlp=true unsupported"),
        (
            |c| c.text_config.rope_parameters.full_attention.rope_type = "linear".to_string(),
            "full_attention rope_type \"linear\" unsupported (only \"proportional\")",
        ),
        (
            |c| c.text_config.rope_parameters.full_attention.rope_theta = double(f64::NAN),
            "full_attention rope_theta NaN must be a positive number",
        ),
        (
            |c| c.text_config.rope_parameters.full_attention.partial_rotary_factor = double(1.25),
            "partial_rotary_factor 1.25 must be in (0, 1]",
        ),
        (
            |c| c.text_config.rope_parameters.full_attention.partial_rotary_factor = double(0.375),
            "global_head_dim 8 * partial_rotary_factor 0.375 = 3 must be a nonzero even integer",
        ),
        (
            |c| c.text_config.rope_parameters.sliding_attention.rope_type = "yarn".to_string(),
            "sliding_attention rope_type \"yarn\" unsupported (only \"default\")",
        ),
        (
            |c| c.text_config.rope_parameters.sliding_attention.rope_theta = double(0.0),
            "sliding_attention rope_theta 0 must be a positive number",
        ),
        (
            |c| c.text_config.expert_intermediate_size = Some(1),
            "MoE fields unsupported in the initial native path (first target is dense text \
             checkpoints)",
        ),
    ];
    for (change, expected) in cases {
        let mut config = tiny();
        assert!(config.validate().is_ok());
        change(&mut config);
        assert_eq!(refusal(&config), format!("gemma4 config: {expected}"));
    }
}

#[test]
fn the_rotated_width_must_be_even_and_whole() {
    for (head, factor, accepted) in
        [(8, 0.5, true), (8, 0.25, true), (8, 1.0, true), (8, 0.125, false), (8, 0.3, false), (7, 0.5, false)]
    {
        let mut config = tiny();
        config.text_config.global_head_dim = head;
        config.text_config.rope_parameters.full_attention.partial_rotary_factor = double(factor);
        assert_eq!(config.validate().is_ok(), accepted, "{head} * {factor}");
        if accepted {
            assert_eq!(
                config.text_config.full_attention_rotary_dim(),
                (head as f64 * factor) as usize
            );
        }
    }
}
