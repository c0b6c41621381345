use ferrl::binary64::Real64;
use ferrl::llama::{
    inv_freq_for, DenseActivation, Llama3RopeConfig, Llama3RopeType, LlamaArch, LlamaConfig,
    RopeFrequencies,
};

fn tiny() -> LlamaConfig {
    LlamaConfig {
        hidden_size: 8,
        intermediate_size: 16,
        vocab_size: 16,
        num_hidden_layers: 2,
        num_attention_heads: 2,
        num_key_value_heads: 1,
        use_flash_attn: false,
        rms_norm_eps: Real64 { bits: 1e-6f64.to_bits() },
        rope_theta: 10000.0f32.to_bits(),
        rope_scaling: None,
        max_position_embeddings: 32,
        tie_word_embeddings: true,
    }
}

fn scaled(rope_type: Llama3RopeType) -> LlamaConfig {
    LlamaConfig {
        rope_scaling: Some(Llama3RopeConfig {
            factor: 8.0f32.to_bits(),
            low_freq_factor: 1.0f32.to_bits(),
            high_freq_factor: 4.0f32.to_bits(),
            original_max_position_embeddings: 16,
            rope_type,
        }),
        ..tiny()
    }
}

fn refusal(config: &LlamaConfig) -> String {
    match LlamaArch::spec(config) {
        Ok(_) => panic!("the config was accepted"),
        Err(fault) => fault.message(),
    }
}

#[test]
fn load_rejects_flash_attn() {
    let refused = refusal(&LlamaConfig { use_flash_attn: true, ..tiny() });
    assert!(refused.contains("use_flash_attn"), "{refused}");
}

#[test]
fn load_rejects_indivisible_head_dim() {
    let refused = refusal(&LlamaConfig {
        hidden_size: 10,
        num_attention_heads: 4,
        num_key_value_heads: 2,
        ..tiny()
    });
    assert!(refused.contains("num_attention_heads"), "{refused}");
}

#[test]
fn load_rejects_zero_attention_heads() {
    let refused = refusal(&LlamaConfig { hidden_size: 0, num_attention_heads: 0, ..tiny() });
    assert!(refused.contains("num_attention_heads must be"), "{refused}");
}

#[test]
fn load_rejects_zero_kv_heads() {
    let refused = refusal(&LlamaConfig { num_key_value_heads: 0, ..tiny() });
    assert!(refused.contains("num_key_value_heads must be"), "{refused}");
}

#[test]
fn load_rejects_indivisible_gqa() {
    let refused =
        refusal(&LlamaConfig { num_attention_heads: 4, num_key_value_heads: 3, ..tiny() });
    assert!(refused.contains("not divisible by num_key_value_heads"), "{refused}");
}

#[test]
fn a_tiny_config_is_laid_out() {
    let spec = match LlamaArch::spec(&tiny()) {
        Ok(spec) => spec,
        Err(fault) => panic!("{}", fault.message()),
    };
    assert_eq!(spec.head_dim, 4);
    assert_eq!((spec.vocab_size, spec.hidden_size, spec.intermediate_size), (16, 8, 16));
    assert_eq!((spec.num_attention_heads, spec.num_key_value_heads), (2, 1));
    assert_eq!((spec.num_hidden_layers, spec.max_position_embeddings), (2, 32));
    assert!(spec.tie_word_embeddings && spec.sdpa_f32 && !spec.qk_norm);
    assert!(matches!(spec.activation, DenseActivation::Silu));
    assert!(matches!(spec.frequencies, RopeFrequencies::Plain));
}

#[test]
fn only_llama3_scaling_smooths_the_frequencies() {
    assert!(matches!(inv_freq_for(&tiny()), RopeFrequencies::Plain));
    assert!(matches!(inv_freq_for(&scaled(Llama3RopeType::Default)), RopeFrequencies::Plain));
    match inv_freq_for(&scaled(Llama3RopeType::Llama3)) {
        RopeFrequencies::Smoothed(scaling) => {
            assert_eq!(scaling.original_max_position_embeddings, 16);
            assert_eq!(f32::from_bits(scaling.factor), 8.0);
        }
        RopeFrequencies::Plain => panic!("expected smoothed frequencies"),
    }
}
