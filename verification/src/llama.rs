//! The dense Llama 3.x binding of the dense backbone: which configs it implements, and the
//! backbone settings that follow from one.
use crate::binary64::Real64;
use crate::text::decimal;
use vstd::prelude::*;

verus! {

/// Which scaling a rope config asks for.
#[derive(Debug, Clone, Copy, PartialEq, Eq, Structural)]
pub enum Llama3RopeType {
    /// Wavelength smoothing.
    Llama3,
    /// None.
    Default,
}

/// The rope scaling of a config.
#[derive(Debug, Clone, Copy, PartialEq, Eq, Structural)]
pub struct Llama3RopeConfig {
    /// Rescale of the low frequencies, as a single-precision bit pattern.
    pub factor: u32,
    /// Wavelength bound of the low band, as a single-precision bit pattern.
    pub low_freq_factor: u32,
    /// Wavelength bound of the high band, as a single-precision bit pattern.
    pub high_freq_factor: u32,
    /// The context length before the rescale.
    pub original_max_position_embeddings: usize,
    /// The scaling family.
    pub rope_type: Llama3RopeType,
}

/// The settings of a Llama checkpoint that the backbone reads.
#[derive(Debug, Clone, Copy, PartialEq, Eq, Structural)]
pub struct LlamaConfig {
    pub hidden_size: usize,
    pub intermediate_size: usize,
    pub vocab_size: usize,
    pub num_hidden_layers: usize,
    pub num_attention_heads: usize,
    pub num_key_value_heads: usize,
    pub use_flash_attn: bool,
    pub rms_norm_eps: Real64,
    /// The frequency base, as a single-precision bit pattern.
    pub rope_theta: u32,
    pub rope_scaling: Option<Llama3RopeConfig>,
    pub max_position_embeddings: usize,
    pub tie_word_embeddings: bool,
}

/// The activation of a gated MLP.
#[derive(Debug, Clone, Copy, PartialEq, Eq, Structural)]
pub enum DenseActivation {
    Silu,
}

/// The inverse frequencies that the rotary tables are built from.
#[derive(Debug, Clone, Copy, PartialEq, Eq, Structural)]
pub enum RopeFrequencies {
    /// One per pair of components, without rescale.
    Plain,
    /// Rescaled by wavelength smoothing.
    Smoothed(Llama3RopeConfig),
}

/// The settings of the dense backbone.
#[derive(Debug, Clone, Copy, PartialEq, Eq, Structural)]
pub struct DenseSpec {
    pub vocab_size: usize,
    pub hidden_size: usize,
    pub num_hidden_layers: usize,
    pub num_attention_heads: usize,
    pub num_key_value_heads: usize,
    pub head_dim: usize,
    pub intermediate_size: usize,
    pub rms_norm_eps: Real64,
    pub tie_word_embeddings: bool,
    /// Whether queries and keys are normed per head.
    pub qk_norm: bool,
    /// Whether attention scores are computed in single precision.
    pub sdpa_f32: bool,
    pub activation: DenseActivation,
    pub frequencies: RopeFrequencies,
    /// The number of positions of the rotary tables.
    pub max_position_embeddings: usize,
}

/// Why a config is refused.
#[derive(Debug, Clone, Copy, PartialEq, Eq, Structural)]
pub enum LlamaConfigFault {
    /// The config asks for a fused kernel that has no backward.
    FlashAttention,
    /// There is no query head.
    NoAttentionHeads,
    /// There is no key/value head.
    NoKeyValueHeads,
    /// The residual stream does not split over the query heads.
    HiddenSize { hidden: usize, heads: usize },
    /// The query heads do not split over the key/value heads.
    KeyValueHeads { heads: usize, key_value_heads: usize },
}

/// The dense Llama 3.x architecture.
#[derive(Debug, Clone, Copy, PartialEq, Eq, Structural)]
pub struct LlamaArch;

impl LlamaConfig {
    /// The configs that the backbone implements.
    pub open spec fn supported(self) -> bool {
        &&& !self.use_flash_attn
        &&& self.num_attention_heads > 0
        &&& self.num_key_value_heads > 0
        &&& self.hidden_size % self.num_attention_heads == 0
        &&& self.num_attention_heads % self.num_key_value_heads == 0
    }

    /// The first rule that the config breaks.
    pub open spec fn fault(self) -> Option<LlamaConfigFault> {
        if self.use_flash_attn {
            Some(LlamaConfigFault::FlashAttention)
        } else if self.num_attention_heads == 0 {
            Some(LlamaConfigFault::NoAttentionHeads)
        } else if self.num_key_value_heads == 0 {
            Some(LlamaConfigFault::NoKeyValueHeads)
        } else if self.hidden_size % self.num_attention_heads != 0 {
            Some(
                LlamaConfigFault::HiddenSize {
                    hidden: self.hidden_size,
                    heads: self.num_attention_heads,
                },
            )
        } else if self.num_attention_heads % self.num_key_value_heads != 0 {
            Some(
                LlamaConfigFault::KeyValueHeads {
                    heads: self.num_attention_heads,
                    key_value_heads: self.num_key_value_heads,
                },
            )
        } else {
            None
        }
    }

    /// The inverse frequencies that the config asks for: a scaling of the default family is no
    /// scaling.
    pub open spec fn rope_frequencies(self) -> RopeFrequencies {
        match self.rope_scaling {
            None => RopeFrequencies::Plain,
            Some(scaling) => if scaling.rope_type == Llama3RopeType::Default {
                RopeFrequencies::Plain
            } else {
                RopeFrequencies::Smoothed(scaling)
            },
        }
    }

    /// The backbone settings of a supported config.
    pub open spec fn dense_spec(self) -> DenseSpec {
        DenseSpec {
            vocab_size: self.vocab_size,
            hidden_size: self.hidden_size,
            num_hidden_layers: self.num_hidden_layers,
            num_attention_heads: self.num_attention_heads,
            num_key_value_heads: self.num_key_value_heads,
            head_dim: self.hidden_size / self.num_attention_heads,
            intermediate_size: self.intermediate_size,
            rms_norm_eps: self.rms_norm_eps,
            tie_word_embeddings: self.tie_word_embeddings,
            qk_norm: false,
            sdpa_f32: true,
            activation: DenseActivation::Silu,
            frequencies: self.rope_frequencies(),
            max_position_embeddings: self.max_position_embeddings,
        }
    }
}

/// Which inverse frequencies a config asks for.
pub fn inv_freq_for(config: &LlamaConfig) -> (frequencies: RopeFrequencies)
    ensures
        frequencies == config.rope_frequencies(),
{
    match config.rope_scaling {
        None => RopeFrequencies::Plain,
        Some(scaling) => match scaling.rope_type {
            Llama3RopeType::Default => RopeFrequencies::Plain,
            Llama3RopeType::Llama3 => RopeFrequencies::Smoothed(scaling),
        },
    }
}

impl LlamaArch {
    /// Derives the backbone settings of a config, or names the first rule that it breaks: an
    /// option that the backbone does not implement must not load as another model.
    pub fn spec(config: &LlamaConfig) -> (spec: Result<DenseSpec, LlamaConfigFault>)
        ensures
            match spec {
                Ok(settings) => config.fault() is None && settings == config.dense_spec(),
                Err(fault) => config.fault() == Some(fault),
            },
            spec is Ok <==> config.supported(),
    {
        if config.use_flash_attn {
            return Err(LlamaConfigFault::FlashAttention);
        }
        if config.num_attention_heads == 0 {
            return Err(LlamaConfigFault::NoAttentionHeads);
        }
        if config.num_key_value_heads == 0 {
            return Err(LlamaConfigFault::NoKeyValueHeads);
        }
        if config.hidden_size % config.num_attention_heads != 0 {
            return Err(
                LlamaConfigFault::HiddenSize {
                    hidden: config.hidden_size,
                    heads: config.num_attention_heads,
                },
            );
        }
        if config.num_attention_heads % config.num_key_value_heads != 0 {
            return Err(
                LlamaConfigFault::KeyValueHeads {
                    heads: config.num_attention_heads,
                    key_value_heads: config.num_key_value_heads,
                },
            );
        }
        Ok(
            DenseSpec {
                vocab_size: config.vocab_size,
                hidden_size: config.hidden_size,
                num_hidden_layers: config.num_hidden_layers,
                num_attention_heads: config.num_attention_heads,
                num_key_value_heads: config.num_key_value_heads,
                head_dim: config.hidden_size / config.num_attention_heads,
                intermediate_size: config.intermediate_size,
                rms_norm_eps: config.rms_norm_eps,
                tie_word_embeddings: config.tie_word_embeddings,
                qk_norm: false,
                sdpa_f32: true,
                activation: DenseActivation::Silu,
                frequencies: inv_freq_for(config),
                max_position_embeddings: config.max_position_embeddings,
            },
        )
    }
}

/// The heads of an accepted config tile the residual stream, and its key/value groups tile the
/// query heads: neither derived quotient truncates.
pub proof fn law_derived_widths_are_exact(config: LlamaConfig)
    requires
        config.supported(),
    ensures
        config.dense_spec().head_dim * config.num_attention_heads == config.hidden_size,
        (config.num_attention_heads / config.num_key_value_heads) * config.num_key_value_heads
            == config.num_attention_heads,
{
    vstd::arithmetic::div_mod::lemma_fundamental_div_mod(
        config.hidden_size as int,
        config.num_attention_heads as int,
    );
    vstd::arithmetic::div_mod::lemma_fundamental_div_mod(
        config.num_attention_heads as int,
        config.num_key_value_heads as int,
    );
    vstd::arithmetic::mul::lemma_mul_is_commutative(
        (config.hidden_size / config.num_attention_heads) as int,
        config.num_attention_heads as int,
    );
    vstd::arithmetic::mul::lemma_mul_is_commutative(
        (config.num_attention_heads / config.num_key_value_heads) as int,
        config.num_key_value_heads as int,
    );
}

/// The backbone is told what the config says, in the config's own numbers, and nothing is added to
/// it but that scores are computed in single precision and heads are not normed.
pub proof fn law_settings_carry_over(config: LlamaConfig)
    ensures
        ({
            let settings = config.dense_spec();
            &&& settings.vocab_size == config.vocab_size
            &&& settings.hidden_size == config.hidden_size
            &&& settings.num_hidden_layers == config.num_hidden_layers
            &&& settings.num_attention_heads == config.num_attention_heads
            &&& settings.num_key_value_heads == config.num_key_value_heads
            &&& settings.intermediate_size == config.intermediate_size
            &&& settings.rms_norm_eps == config.rms_norm_eps
            &&& settings.tie_word_embeddings == config.tie_word_embeddings
            &&& settings.max_position_embeddings == config.max_position_embeddings
            &&& !settings.qk_norm
            &&& settings.sdpa_f32
            &&& settings.activation == DenseActivation::Silu
            &&& settings.frequencies is Plain <==> config.rope_scaling is None
                || config.rope_scaling->0.rope_type == Llama3RopeType::Default
            &&& settings.frequencies matches RopeFrequencies::Smoothed(scaling)
                ==> config.rope_scaling == Some(scaling) && scaling.rope_type
                == Llama3RopeType::Llama3
        }),
{
}

/// A refusal names the first rule that the config breaks and quotes its numbers; a config is
/// accepted exactly when both quotients that are derived from it are exact.
pub proof fn law_refusals_name_the_first_rule(config: LlamaConfig, width: nat, groups: nat)
    ensures
        config.fault() == Some(LlamaConfigFault::FlashAttention) <==> config.use_flash_attn,
        config.fault() == Some(LlamaConfigFault::NoAttentionHeads) <==> !config.use_flash_attn
            && config.num_attention_heads == 0,
        config.fault() == Some(LlamaConfigFault::NoKeyValueHeads) <==> !config.use_flash_attn
            && config.num_attention_heads > 0 && config.num_key_value_heads == 0,
        config.fault() matches Some(LlamaConfigFault::HiddenSize { hidden, heads }) ==> hidden
            == config.hidden_size && heads == config.num_attention_heads && hidden % heads != 0,
        config.fault() matches Some(LlamaConfigFault::KeyValueHeads { heads, key_value_heads })
            ==> heads == config.num_attention_heads && key_value_heads
            == config.num_key_value_heads && heads % key_value_heads != 0 && config.hidden_size
            % heads == 0,
        !config.use_flash_attn && config.num_attention_heads > 0 && config.num_key_value_heads > 0
            && config.hidden_size == width * config.num_attention_heads
            && config.num_attention_heads == groups * config.num_key_value_heads
            ==> config.fault() is None,
        config.fault() is None <==> config.supported(),
{
    if config.num_attention_heads > 0 && config.num_key_value_heads > 0 {
        vstd::arithmetic::div_mod::lemma_mod_multiples_basic(
            width as int,
            config.num_attention_heads as int,
        );
        vstd::arithmetic::div_mod::lemma_mod_multiples_basic(
            groups as int,
            config.num_key_value_heads as int,
        );
    }
}

impl LlamaConfigFault {
    /// What the fault says.
    pub open spec fn text(self) -> Seq<char> {
        match self {
            LlamaConfigFault::FlashAttention => "LlamaGradModel: cfg.use_flash_attn=true is unsupported (this grad-bearing forward implements only the non-flash F32 attention path; loading it would silently produce non-parity logits)"@,
            LlamaConfigFault::NoAttentionHeads => "LlamaGradModel: num_attention_heads must be >= 1 (got 0); head_dim is derived as hidden_size / num_attention_heads"@,
            LlamaConfigFault::NoKeyValueHeads => "LlamaGradModel: num_key_value_heads must be >= 1 (got 0); num_kv_groups is derived as num_attention_heads / num_key_value_heads"@,
            LlamaConfigFault::HiddenSize { hidden, heads } => "LlamaGradModel: hidden_size "@ + crate::text::decimal_text(hidden as nat) + " is not divisible by num_attention_heads "@ + crate::text::decimal_text(heads as nat) + " (head_dim is derived as their quotient; such a config cannot be a real Llama and would silently load as a degenerate model)"@,
            LlamaConfigFault::KeyValueHeads { heads, key_value_heads } => "LlamaGradModel: num_attention_heads "@ + crate::text::decimal_text(heads as nat) + " is not divisible by num_key_value_heads "@ + crate::text::decimal_text(key_value_heads as nat) + " (num_kv_groups is derived as their quotient; such a config cannot be a real Llama and would silently load as a degenerate model)"@,
        }
    }

    /// What the fault says.
    pub fn message(&self) -> (text: String)
        ensures
            text@ == self.text(),
    {
        match self {
            LlamaConfigFault::FlashAttention => String::from_str("LlamaGradModel: cfg.use_flash_attn=true is unsupported (this grad-bearing forward implements only the non-flash F32 attention path; loading it would silently produce non-parity logits)"),
            LlamaConfigFault::NoAttentionHeads => String::from_str("LlamaGradModel: num_attention_heads must be >= 1 (got 0); head_dim is derived as hidden_size / num_attention_heads"),
            LlamaConfigFault::NoKeyValueHeads => String::from_str("LlamaGradModel: num_key_value_heads must be >= 1 (got 0); num_kv_groups is derived as num_attention_heads / num_key_value_heads"),
            LlamaConfigFault::HiddenSize { hidden, heads } => {
                let mut text = String::from_str("LlamaGradModel: hidden_size ");
                text.append(&decimal(*hidden as u64));
                text.append(" is not divisible by num_attention_heads ");
                text.append(&decimal(*heads as u64));
                text.append(" (head_dim is derived as their quotient; such a config cannot be a real Llama and would silently load as a degenerate model)");
                text
            },
            LlamaConfigFault::KeyValueHeads { heads, key_value_heads } => {
                let mut text = String::from_str("LlamaGradModel: num_attention_heads ");
                text.append(&decimal(*heads as u64));
                text.append(" is not divisible by num_key_value_heads ");
                text.append(&decimal(*key_value_heads as u64));
                text.append(" (num_kv_groups is derived as their quotient; such a config cannot be a real Llama and would silently load as a degenerate model)");
                text
            },
        }
    }
}

/// What each fault says, word for word.
pub proof fn law_words_of_llama_config_fault(fault: LlamaConfigFault)
    ensures
        fault == LlamaConfigFault::FlashAttention ==> fault.text() == ("LlamaGradModel: cfg.use_flash_attn=true is unsupported (this grad-bearing forward implements only the non-flash F32 attention path; loading it would silently produce non-parity logits)"@),
        fault == LlamaConfigFault::NoAttentionHeads ==> fault.text() == ("LlamaGradModel: num_attention_heads must be >= 1 (got 0); head_dim is derived as hidden_size / num_attention_heads"@),
        fault == LlamaConfigFault::NoKeyValueHeads ==> fault.text() == ("LlamaGradModel: num_key_value_heads must be >= 1 (got 0); num_kv_groups is derived as num_attention_heads / num_key_value_heads"@),
        fault matches LlamaConfigFault::HiddenSize { hidden, heads } ==> fault.text() == ("LlamaGradModel: hidden_size "@ + crate::text::decimal_text(hidden as nat) + " is not divisible by num_attention_heads "@ + crate::text::decimal_text(heads as nat) + " (head_dim is derived as their quotient; such a config cannot be a real Llama and would silently load as a degenerate model)"@),
        fault matches LlamaConfigFault::KeyValueHeads { heads, key_value_heads } ==> fault.text() == ("LlamaGradModel: num_attention_heads "@ + crate::text::decimal_text(heads as nat) + " is not divisible by num_key_value_heads "@ + crate::text::decimal_text(key_value_heads as nat) + " (num_kv_groups is derived as their quotient; such a config cannot be a real Llama and would silently load as a degenerate model)"@),
{
}

} // verus!
