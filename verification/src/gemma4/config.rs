//! Gemma 4 text-model configs and the rules that a supported one meets.
//!
//! Public checkpoints carry the decoder config under `text_config`, beside vision and audio
//! metadata that the text path never reads. A config that names anything the dense text decoder
//! does not implement is refused, so that a foreign member of the family cannot load through
//! the wrong architecture.
use crate::binary64::{checked_rotated_width, truncate_product, Real64};
use crate::text::{debug_quoted, decimal, flag, same_text};
use vstd::prelude::*;

verus! {

/// A decoder layer's attention kind (`text_config.layer_types[i]`).
#[derive(Debug, Clone, Copy, PartialEq, Eq, Structural)]
pub enum Gemma4LayerType {
    /// Local sliding-window attention.
    SlidingAttention,
    /// Full global attention.
    FullAttention,
}

/// Full-attention rope settings.
#[derive(Debug, Clone)]
pub struct Gemma4FullAttentionRope {
    /// Rope family.
    pub rope_type: String,
    /// Frequency base.
    pub rope_theta: Real64,
    /// Fraction of each global head that rotates.
    pub partial_rotary_factor: Real64,
}

/// Sliding-window attention rope settings.
#[derive(Debug, Clone)]
pub struct Gemma4SlidingAttentionRope {
    /// Rope family.
    pub rope_type: String,
    /// Frequency base.
    pub rope_theta: Real64,
}

/// The `rope_parameters` object of a text config.
#[derive(Debug, Clone)]
pub struct Gemma4RopeParameters {
    /// Full-attention rope parameters.
    pub full_attention: Gemma4FullAttentionRope,
    /// Sliding-window attention rope parameters.
    pub sliding_attention: Gemma4SlidingAttentionRope,
}

/// The `text_config` object of a checkpoint config.
#[derive(Debug, Clone)]
pub struct Gemma4TextConfig {
    /// Text decoder model type.
    pub model_type: Option<String>,
    /// Vocabulary size.
    pub vocab_size: usize,
    /// Vocabulary size of the per-layer input.
    pub vocab_size_per_layer_input: usize,
    /// Residual stream width.
    pub hidden_size: usize,
    /// Width of the per-layer input.
    pub hidden_size_per_layer_input: usize,
    /// MLP inner width.
    pub intermediate_size: usize,
    /// Decoder layer count.
    pub num_hidden_layers: usize,
    /// Query head count.
    pub num_attention_heads: usize,
    /// Key/value head count of sliding attention.
    pub num_key_value_heads: usize,
    /// Key/value head count of full attention.
    pub num_global_key_value_heads: usize,
    /// Number of layers that share keys and values.
    pub num_kv_shared_layers: usize,
    /// Head width of sliding attention.
    pub head_dim: usize,
    /// Head width of full attention.
    pub global_head_dim: usize,
    /// MLP activation.
    pub hidden_activation: String,
    /// Norm epsilon.
    pub rms_norm_eps: Real64,
    /// Maximum context length.
    pub max_position_embeddings: usize,
    /// Sliding attention window.
    pub sliding_window: usize,
    /// Whether token embeddings and output head are tied.
    pub tie_word_embeddings: bool,
    /// Whether attention projections use a bias.
    pub attention_bias: bool,
    /// Attention dropout.
    pub attention_dropout: Real64,
    /// Whether global layers unify keys and values.
    pub attention_k_eq_v: bool,
    /// Final-logit softcap.
    pub final_logit_softcapping: Real64,
    /// The attention kind of each layer.
    pub layer_types: Vec<Gemma4LayerType>,
    /// Rope settings for both attention kinds.
    pub rope_parameters: Gemma4RopeParameters,
    /// Whether generation uses a cache.
    pub use_cache: bool,
    /// What attends in both directions: shipped text configs say `"vision"`.
    pub use_bidirectional_attention: Option<String>,
    /// Alternate MLP layout.
    pub use_double_wide_mlp: bool,
    /// Whether the MLP is a mixture of experts.
    pub enable_moe_block: bool,
    /// Routed expert count.
    pub num_experts: Option<usize>,
    /// Number of experts that each token is routed to.
    pub top_k_experts: Option<usize>,
    /// MLP width of one expert.
    pub expert_intermediate_size: Option<usize>,
    /// MLP width of one expert, under its other name.
    pub moe_intermediate_size: Option<usize>,
}

/// A checkpoint config (`config.json`).
#[derive(Debug, Clone)]
pub struct Gemma4Config {
    /// Top-level model type.
    pub model_type: Option<String>,
    /// Top-level tied-embedding flag.
    pub tie_word_embeddings: Option<bool>,
    /// Text decoder config.
    pub text_config: Gemma4TextConfig,
}

/// A size of the text config that must not be zero.
#[derive(Debug, Clone, Copy, PartialEq, Eq, Structural)]
pub enum Gemma4Size {
    VocabSize,
    VocabSizePerLayerInput,
    HiddenSize,
    IntermediateSize,
    NumHiddenLayers,
    NumAttentionHeads,
    NumKeyValueHeads,
    NumGlobalKeyValueHeads,
    HeadDim,
    GlobalHeadDim,
    MaxPositionEmbeddings,
    SlidingWindow,
}

/// Why a config is refused.
#[derive(Debug)]
pub enum Gemma4ConfigFault {
    /// The top-level model type is of another family.
    ModelType(String),
    /// The two tied-embedding flags disagree.
    TiedDisagreement { outer: bool, text: bool },
    /// The text model type is missing.
    MissingTextModelType,
    /// The text model type is of another family.
    TextModelType(String),
    /// A size is zero.
    ZeroSize(Gemma4Size),
    /// The config asks for per-layer embeddings.
    PerLayerHidden(usize),
    /// The per-layer vocabulary is another one.
    PerLayerVocab { per_layer: usize, vocab: usize },
    /// The config asks for a mixture of experts.
    MixtureOfExperts,
    /// The activation is not implemented.
    HiddenActivation(String),
    /// The projections carry a bias.
    AttentionBias,
    /// Attention dropout is asked for.
    AttentionDropout(Real64),
    /// Global layers keep keys and values apart.
    SeparateKeyValue,
    /// Layers share keys and values.
    SharedKeyValueLayers(usize),
    /// Query heads do not split over the sliding key/value heads.
    SlidingHeads { heads: usize, key_value_heads: usize },
    /// Query heads do not split over the global key/value heads.
    GlobalHeads { heads: usize, key_value_heads: usize },
    /// The layer menu has another length than the decoder.
    LayerCount { entries: usize, layers: usize },
    /// No layer attends globally.
    NoFullAttention,
    /// The final layer does not attend globally.
    FinalLayer,
    /// The output head is not tied.
    UntiedEmbeddings,
    /// The norm epsilon is not a positive number.
    NormEpsilon(Real64),
    /// The softcap is not a positive number.
    LogitSoftcap(Real64),
    /// Something else than vision attends in both directions.
    Bidirectional(Option<String>),
    /// The MLP is double-wide.
    DoubleWideMlp,
    /// The full-attention rope family is not implemented.
    FullRopeType(String),
    /// The full-attention frequency base is not a positive number.
    FullRopeTheta(Real64),
    /// The rotated fraction is outside `(0, 1]`.
    RotaryFactor(Real64),
    /// The rotated width is not an even whole number.
    RotaryWidth { head: usize, factor: Real64 },
    /// The sliding rope family is not implemented.
    SlidingRopeType(String),
    /// The sliding frequency base is not a positive number.
    SlidingRopeTheta(Real64),
}

/// The model types of a top-level config.
pub open spec fn supported_top_level_model_type(model_type: Seq<char>) -> bool {
    model_type == "gemma4"@ || model_type == "gemma4_unified"@
}

/// The model types of a text config.
pub open spec fn supported_text_model_type(model_type: Seq<char>) -> bool {
    model_type == "gemma4_text"@ || model_type == "gemma4_unified_text"@
}

/// The text decoder model type of a config that does not name one.
pub fn default_gemma4_text_model_type() -> (model_type: Option<String>)
    ensures
        model_type matches Some(name) && name@ == "gemma4_text"@,
{
    Some(String::from_str("gemma4_text"))
}

/// Whether a top-level model type is one of those that the decoder implements.
pub fn is_supported_top_level_model_type(model_type: &str) -> (supported: bool)
    ensures
        supported == supported_top_level_model_type(model_type@),
{
    same_text(model_type, "gemma4") || same_text(model_type, "gemma4_unified")
}

/// Whether a text decoder model type is one of those that are implemented.
pub fn is_supported_text_model_type(model_type: &str) -> (supported: bool)
    ensures
        supported == supported_text_model_type(model_type@),
{
    same_text(model_type, "gemma4_text") || same_text(model_type, "gemma4_unified_text")
}

impl Gemma4TextConfig {
    /// The value of one of the sizes that must not be zero.
    pub open spec fn size(self, which: Gemma4Size) -> usize {
        match which {
            Gemma4Size::VocabSize => self.vocab_size,
            Gemma4Size::VocabSizePerLayerInput => self.vocab_size_per_layer_input,
            Gemma4Size::HiddenSize => self.hidden_size,
            Gemma4Size::IntermediateSize => self.intermediate_size,
            Gemma4Size::NumHiddenLayers => self.num_hidden_layers,
            Gemma4Size::NumAttentionHeads => self.num_attention_heads,
            Gemma4Size::NumKeyValueHeads => self.num_key_value_heads,
            Gemma4Size::NumGlobalKeyValueHeads => self.num_global_key_value_heads,
            Gemma4Size::HeadDim => self.head_dim,
            Gemma4Size::GlobalHeadDim => self.global_head_dim,
            Gemma4Size::MaxPositionEmbeddings => self.max_position_embeddings,
            Gemma4Size::SlidingWindow => self.sliding_window,
        }
    }

    /// The sizes that must not be zero, in the order in which they are looked at.
    pub open spec fn sizes() -> Seq<Gemma4Size> {
        seq![
            Gemma4Size::VocabSize,
            Gemma4Size::VocabSizePerLayerInput,
            Gemma4Size::HiddenSize,
            Gemma4Size::IntermediateSize,
            Gemma4Size::NumHiddenLayers,
            Gemma4Size::NumAttentionHeads,
            Gemma4Size::NumKeyValueHeads,
            Gemma4Size::NumGlobalKeyValueHeads,
            Gemma4Size::HeadDim,
            Gemma4Size::GlobalHeadDim,
            Gemma4Size::MaxPositionEmbeddings,
            Gemma4Size::SlidingWindow,
        ]
    }

    /// The first size from the given place of the order on that is zero.
    pub open spec fn zero_size_from(self, place: int) -> Option<Gemma4Size>
        decreases Self::sizes().len() - place,
    {
        if place < 0 || place >= Self::sizes().len() {
            None
        } else if self.size(Self::sizes()[place]) == 0 {
            Some(Self::sizes()[place])
        } else {
            self.zero_size_from(place + 1)
        }
    }

    /// Whether no size is zero.
    pub open spec fn sizes_nonzero(self) -> bool {
        forall|which: Gemma4Size| #[trigger] self.size(which) != 0
    }

    /// Whether the config names a mixture of experts.
    pub open spec fn names_experts(self) -> bool {
        ||| self.enable_moe_block
        ||| self.num_experts is Some
        ||| self.top_k_experts is Some
        ||| self.expert_intermediate_size is Some
        ||| self.moe_intermediate_size is Some
    }

    /// Whether bidirectional attention is left to vision.
    pub open spec fn bidirectional_vision_only(self) -> bool {
        self.use_bidirectional_attention matches Some(what) && what@ == "vision"@
    }

    /// Whether the full-attention rope settings are those of the text decoder.
    pub open spec fn full_rope_supported(self) -> bool {
        let rope = self.rope_parameters.full_attention;
        &&& rope.rope_type@ == "proportional"@
        &&& rope.rope_theta.positive_finite()
        &&& rope.partial_rotary_factor.in_unit_interval()
        &&& crate::binary64::rotated_width(
            self.global_head_dim as nat,
            rope.partial_rotary_factor,
        ) is Some
    }

    /// Whether the sliding rope settings are those of the text decoder.
    pub open spec fn sliding_rope_supported(self) -> bool {
        let rope = self.rope_parameters.sliding_attention;
        &&& rope.rope_type@ == "default"@
        &&& rope.rope_theta.positive_finite()
    }

    /// Whether the layer menu fits the decoder: one entry a layer, the last one global.
    pub open spec fn layer_menu_supported(self) -> bool {
        &&& self.layer_types@.len() == self.num_hidden_layers
        &&& self.layer_types@.contains(Gemma4LayerType::FullAttention)
        &&& self.layer_types@.last() == Gemma4LayerType::FullAttention
    }

    /// The configs that the dense text decoder implements.
    pub open spec fn supported(self) -> bool {
        &&& self.model_type matches Some(model_type) && supported_text_model_type(model_type@)
        &&& self.sizes_nonzero()
        &&& self.hidden_size_per_layer_input == 0
        &&& self.vocab_size_per_layer_input == self.vocab_size
        &&& !self.names_experts()
        &&& self.hidden_activation@ == "gelu_pytorch_tanh"@
        &&& !self.attention_bias
        &&& self.attention_dropout.zero()
        &&& self.attention_k_eq_v
        &&& self.num_kv_shared_layers == 0
        &&& self.num_attention_heads % self.num_key_value_heads == 0
        &&& self.num_attention_heads % self.num_global_key_value_heads == 0
        &&& self.layer_menu_supported()
        &&& self.tie_word_embeddings
        &&& self.rms_norm_eps.positive_finite()
        &&& self.final_logit_softcapping.positive_finite()
        &&& self.bidirectional_vision_only()
        &&& !self.use_double_wide_mlp
        &&& self.full_rope_supported()
        &&& self.sliding_rope_supported()
    }
}

impl Gemma4TextConfig {
    /// The first rule on types and sizes that the config breaks.
    pub open spec fn size_fault(self) -> Option<Gemma4ConfigFault> {
        match self.model_type {
            None => Some(Gemma4ConfigFault::MissingTextModelType),
            Some(model_type) => if !supported_text_model_type(model_type@) {
                Some(Gemma4ConfigFault::TextModelType(model_type))
            } else if self.zero_size_from(0) is Some {
                Some(Gemma4ConfigFault::ZeroSize(self.zero_size_from(0)->0))
            } else if self.hidden_size_per_layer_input != 0 {
                Some(Gemma4ConfigFault::PerLayerHidden(self.hidden_size_per_layer_input))
            } else if self.vocab_size_per_layer_input != self.vocab_size {
                Some(
                    Gemma4ConfigFault::PerLayerVocab {
                        per_layer: self.vocab_size_per_layer_input,
                        vocab: self.vocab_size,
                    },
                )
            } else {
                None
            },
        }
    }

    /// The first rule on the block structure that the config breaks.
    pub open spec fn block_fault(self) -> Option<Gemma4ConfigFault> {
        if self.names_experts() {
            Some(Gemma4ConfigFault::MixtureOfExperts)
        } else if self.hidden_activation@ != "gelu_pytorch_tanh"@ {
            Some(Gemma4ConfigFault::HiddenActivation(self.hidden_activation))
        } else if self.attention_bias {
            Some(Gemma4ConfigFault::AttentionBias)
        } else if !self.attention_dropout.zero() {
            Some(Gemma4ConfigFault::AttentionDropout(self.attention_dropout))
        } else if !self.attention_k_eq_v {
            Some(Gemma4ConfigFault::SeparateKeyValue)
        } else if self.num_kv_shared_layers != 0 {
            Some(Gemma4ConfigFault::SharedKeyValueLayers(self.num_kv_shared_layers))
        } else if self.num_attention_heads % self.num_key_value_heads != 0 {
            Some(
                Gemma4ConfigFault::SlidingHeads {
                    heads: self.num_attention_heads,
                    key_value_heads: self.num_key_value_heads,
                },
            )
        } else if self.num_attention_heads % self.num_global_key_value_heads != 0 {
            Some(
                Gemma4ConfigFault::GlobalHeads {
                    heads: self.num_attention_heads,
                    key_value_heads: self.num_global_key_value_heads,
                },
            )
        } else {
            None
        }
    }

    /// The first rule on the layer menu and the norms that the config breaks.
    pub open spec fn layer_fault(self) -> Option<Gemma4ConfigFault> {
        if self.layer_types@.len() != self.num_hidden_layers {
            Some(
                Gemma4ConfigFault::LayerCount {
                    entries: self.layer_types@.len() as usize,
                    layers: self.num_hidden_layers,
                },
            )
        } else if !self.layer_types@.contains(Gemma4LayerType::FullAttention) {
            Some(Gemma4ConfigFault::NoFullAttention)
        } else if self.layer_types@.last() != Gemma4LayerType::FullAttention {
            Some(Gemma4ConfigFault::FinalLayer)
        } else if !self.tie_word_embeddings {
            Some(Gemma4ConfigFault::UntiedEmbeddings)
        } else if !self.rms_norm_eps.positive_finite() {
            Some(Gemma4ConfigFault::NormEpsilon(self.rms_norm_eps))
        } else if !self.final_logit_softcapping.positive_finite() {
            Some(Gemma4ConfigFault::LogitSoftcap(self.final_logit_softcapping))
        } else if !self.bidirectional_vision_only() {
            Some(Gemma4ConfigFault::Bidirectional(self.use_bidirectional_attention))
        } else if self.use_double_wide_mlp {
            Some(Gemma4ConfigFault::DoubleWideMlp)
        } else {
            None
        }
    }

    /// The first rule on the ropes that the config breaks.
    pub open spec fn rope_fault(self) -> Option<Gemma4ConfigFault> {
        let full = self.rope_parameters.full_attention;
        let sliding = self.rope_parameters.sliding_attention;
        let factor = full.partial_rotary_factor;
        if full.rope_type@ != "proportional"@ {
            Some(Gemma4ConfigFault::FullRopeType(full.rope_type))
        } else if !full.rope_theta.positive_finite() {
            Some(Gemma4ConfigFault::FullRopeTheta(full.rope_theta))
        } else if !factor.in_unit_interval() {
            Some(Gemma4ConfigFault::RotaryFactor(factor))
        } else if crate::binary64::rotated_width(self.global_head_dim as nat, factor) is None {
            Some(Gemma4ConfigFault::RotaryWidth { head: self.global_head_dim, factor })
        } else if sliding.rope_type@ != "default"@ {
            Some(Gemma4ConfigFault::SlidingRopeType(sliding.rope_type))
        } else if !sliding.rope_theta.positive_finite() {
            Some(Gemma4ConfigFault::SlidingRopeTheta(sliding.rope_theta))
        } else {
            None
        }
    }

    /// The first rule that the config breaks.
    pub open spec fn fault(self) -> Option<Gemma4ConfigFault> {
        if self.size_fault() is Some {
            self.size_fault()
        } else if self.block_fault() is Some {
            self.block_fault()
        } else if self.layer_fault() is Some {
            self.layer_fault()
        } else {
            self.rope_fault()
        }
    }

    /// No size is zero exactly when the search over the order finds none.
    proof fn lemma_zero_search(self, place: int)
        requires
            0 <= place <= 12,
        ensures
            self.zero_size_from(place) is None <==> (forall|i: int|
                place <= i < 12 ==> self.size(#[trigger] Self::sizes()[i]) != 0),
        decreases 12 - place,
    {
        assert(Self::sizes().len() == 12);
        if place < 12 {
            self.lemma_zero_search(place + 1);
            if self.zero_size_from(place) is None {
                assert forall|i: int| place <= i < 12 implies self.size(
                    #[trigger] Self::sizes()[i],
                ) != 0 by {}
            }
        }
    }

    /// A config breaks no rule exactly when the decoder implements it.
    proof fn lemma_fault_is_complete(self)
        ensures
            self.fault() is None <==> self.supported(),
    {
        self.lemma_zero_search(0);
        let sizes = Self::sizes();
        assert(sizes[0] == Gemma4Size::VocabSize);
        assert(sizes[1] == Gemma4Size::VocabSizePerLayerInput);
        assert(sizes[2] == Gemma4Size::HiddenSize);
        assert(sizes[3] == Gemma4Size::IntermediateSize);
        assert(sizes[4] == Gemma4Size::NumHiddenLayers);
        assert(sizes[5] == Gemma4Size::NumAttentionHeads);
        assert(sizes[6] == Gemma4Size::NumKeyValueHeads);
        assert(sizes[7] == Gemma4Size::NumGlobalKeyValueHeads);
        assert(sizes[8] == Gemma4Size::HeadDim);
        assert(sizes[9] == Gemma4Size::GlobalHeadDim);
        assert(sizes[10] == Gemma4Size::MaxPositionEmbeddings);
        assert(sizes[11] == Gemma4Size::SlidingWindow);
        if self.zero_size_from(0) is None {
            assert forall|which: Gemma4Size| #[trigger] self.size(which) != 0 by {
                match which {
                    Gemma4Size::VocabSize => assert(self.size(sizes[0]) != 0),
                    Gemma4Size::VocabSizePerLayerInput => assert(self.size(sizes[1]) != 0),
                    Gemma4Size::HiddenSize => assert(self.size(sizes[2]) != 0),
                    Gemma4Size::IntermediateSize => assert(self.size(sizes[3]) != 0),
                    Gemma4Size::NumHiddenLayers => assert(self.size(sizes[4]) != 0),
                    Gemma4Size::NumAttentionHeads => assert(self.size(sizes[5]) != 0),
                    Gemma4Size::NumKeyValueHeads => assert(self.size(sizes[6]) != 0),
                    Gemma4Size::NumGlobalKeyValueHeads => assert(self.size(sizes[7]) != 0),
                    Gemma4Size::HeadDim => assert(self.size(sizes[8]) != 0),
                    Gemma4Size::GlobalHeadDim => assert(self.size(sizes[9]) != 0),
                    Gemma4Size::MaxPositionEmbeddings => assert(self.size(sizes[10]) != 0),
                    Gemma4Size::SlidingWindow => assert(self.size(sizes[11]) != 0),
                }
            }
        }
    }

    /// Finds the first size that is zero.
    fn first_zero_size(&self) -> (found: Option<Gemma4Size>)
        ensures
            found == self.zero_size_from(0),
    {
        let checks = vec![
            (Gemma4Size::VocabSize, self.vocab_size),
            (Gemma4Size::VocabSizePerLayerInput, self.vocab_size_per_layer_input),
            (Gemma4Size::HiddenSize, self.hidden_size),
            (Gemma4Size::IntermediateSize, self.intermediate_size),
            (Gemma4Size::NumHiddenLayers, self.num_hidden_layers),
            (Gemma4Size::NumAttentionHeads, self.num_attention_heads),
            (Gemma4Size::NumKeyValueHeads, self.num_key_value_heads),
            (Gemma4Size::NumGlobalKeyValueHeads, self.num_global_key_value_heads),
            (Gemma4Size::HeadDim, self.head_dim),
            (Gemma4Size::GlobalHeadDim, self.global_head_dim),
            (Gemma4Size::MaxPositionEmbeddings, self.max_position_embeddings),
            (Gemma4Size::SlidingWindow, self.sliding_window),
        ];
        let mut place: usize = 0;
        while place < checks.len()
            invariant
                place <= checks@.len() == Self::sizes().len(),
                forall|i: int|
                    0 <= i < checks@.len() ==> #[trigger] checks@[i] == (
                        Self::sizes()[i],
                        self.size(Self::sizes()[i]),
                    ),
                self.zero_size_from(0) == self.zero_size_from(place as int),
            decreases checks@.len() - place,
        {
            if checks[place].1 == 0 {
                return Some(checks[place].0);
            }
            place = place + 1;
        }
        None
    }

    /// The number of rotated components of a full-attention head.
    pub fn full_attention_rotary_dim(&self) -> (width: usize)
        ensures
            width == crate::binary64::truncated_product(
                self.global_head_dim as nat,
                self.rope_parameters.full_attention.partial_rotary_factor,
            ),
    {
        truncate_product(
            self.global_head_dim,
            self.rope_parameters.full_attention.partial_rotary_factor,
        )
    }

    fn has_full_attention(&self) -> (found: bool)
        ensures
            found == self.layer_types@.contains(Gemma4LayerType::FullAttention),
    {
        let mut layer: usize = 0;
        while layer < self.layer_types.len()
            invariant
                layer <= self.layer_types@.len(),
                forall|i: int|
                    0 <= i < layer ==> self.layer_types@[i] != Gemma4LayerType::FullAttention,
            decreases self.layer_types@.len() - layer,
        {
            if self.layer_types[layer] == Gemma4LayerType::FullAttention {
                return true;
            }
            layer = layer + 1;
        }
        false
    }

    /// Refuses a config that the dense text decoder does not implement, naming the first rule
    /// that it breaks.
    pub fn validate(&self) -> (verdict: Result<(), Gemma4ConfigFault>)
        ensures
            match verdict {
                Ok(()) => self.fault() is None,
                Err(fault) => self.fault() == Some(fault),
            },
            verdict is Ok <==> self.supported(),
    {
        proof {
            self.lemma_fault_is_complete();
            self.lemma_zero_search(0);
        }
        let model_type = match &self.model_type {
            None => return Err(Gemma4ConfigFault::MissingTextModelType),
            Some(model_type) => model_type,
        };
        if !is_supported_text_model_type(model_type) {
            return Err(Gemma4ConfigFault::TextModelType(model_type.clone()));
        }
        if let Some(which) = self.first_zero_size() {
            return Err(Gemma4ConfigFault::ZeroSize(which));
        }
        proof {
            assert(Self::sizes()[6] == Gemma4Size::NumKeyValueHeads);
            assert(Self::sizes()[7] == Gemma4Size::NumGlobalKeyValueHeads);
        }
        if self.hidden_size_per_layer_input != 0 {
            return Err(Gemma4ConfigFault::PerLayerHidden(self.hidden_size_per_layer_input));
        }
        if self.vocab_size_per_layer_input != self.vocab_size {
            return Err(
                Gemma4ConfigFault::PerLayerVocab {
                    per_layer: self.vocab_size_per_layer_input,
                    vocab: self.vocab_size,
                },
            );
        }
        if self.enable_moe_block || self.num_experts.is_some() || self.top_k_experts.is_some()
            || self.expert_intermediate_size.is_some() || self.moe_intermediate_size.is_some() {
            return Err(Gemma4ConfigFault::MixtureOfExperts);
        }
        if !same_text(&self.hidden_activation, "gelu_pytorch_tanh") {
            return Err(Gemma4ConfigFault::HiddenActivation(self.hidden_activation.clone()));
        }
        if self.attention_bias {
            return Err(Gemma4ConfigFault::AttentionBias);
        }
        if !self.attention_dropout.is_zero() {
            return Err(Gemma4ConfigFault::AttentionDropout(self.attention_dropout));
        }
        if !self.attention_k_eq_v {
            return Err(Gemma4ConfigFault::SeparateKeyValue);
        }
        if self.num_kv_shared_layers != 0 {
            return Err(Gemma4ConfigFault::SharedKeyValueLayers(self.num_kv_shared_layers));
        }
        if self.num_attention_heads % self.num_key_value_heads != 0 {
            return Err(
                Gemma4ConfigFault::SlidingHeads {
                    heads: self.num_attention_heads,
                    key_value_heads: self.num_key_value_heads,
                },
            );
        }
        if self.num_attention_heads % self.num_global_key_value_heads != 0 {
            return Err(
                Gemma4ConfigFault::GlobalHeads {
                    heads: self.num_attention_heads,
                    key_value_heads: self.num_global_key_value_heads,
                },
            );
        }
        if self.layer_types.len() != self.num_hidden_layers {
            return Err(
                Gemma4ConfigFault::LayerCount {
                    entries: self.layer_types.len(),
                    layers: self.num_hidden_layers,
                },
            );
        }
        if !self.has_full_attention() {
            return Err(Gemma4ConfigFault::NoFullAttention);
        }
        if self.layer_types[self.layer_types.len() - 1] != Gemma4LayerType::FullAttention {
            return Err(Gemma4ConfigFault::FinalLayer);
        }
        if !self.tie_word_embeddings {
            return Err(Gemma4ConfigFault::UntiedEmbeddings);
        }
        if !self.rms_norm_eps.is_positive_finite() {
            return Err(Gemma4ConfigFault::NormEpsilon(self.rms_norm_eps));
        }
        if !self.final_logit_softcapping.is_positive_finite() {
            return Err(Gemma4ConfigFault::LogitSoftcap(self.final_logit_softcapping));
        }
        match &self.use_bidirectional_attention {
            None => return Err(Gemma4ConfigFault::Bidirectional(None)),
            Some(what) => if !same_text(what, "vision") {
                return Err(Gemma4ConfigFault::Bidirectional(Some(what.clone())));
            },
        }
        if self.use_double_wide_mlp {
            return Err(Gemma4ConfigFault::DoubleWideMlp);
        }
        let full = &self.rope_parameters.full_attention;
        if !same_text(&full.rope_type, "proportional") {
            return Err(Gemma4ConfigFault::FullRopeType(full.rope_type.clone()));
        }
        if !full.rope_theta.is_positive_finite() {
            return Err(Gemma4ConfigFault::FullRopeTheta(full.rope_theta));
        }
        let factor = full.partial_rotary_factor;
        if !factor.is_in_unit_interval() {
            return Err(Gemma4ConfigFault::RotaryFactor(factor));
        }
        if checked_rotated_width(self.global_head_dim, factor).is_none() {
            return Err(Gemma4ConfigFault::RotaryWidth { head: self.global_head_dim, factor });
        }
        let sliding = &self.rope_parameters.sliding_attention;
        if !same_text(&sliding.rope_type, "default") {
            return Err(Gemma4ConfigFault::SlidingRopeType(sliding.rope_type.clone()));
        }
        if !sliding.rope_theta.is_positive_finite() {
            return Err(Gemma4ConfigFault::SlidingRopeTheta(sliding.rope_theta));
        }
        Ok(())
    }
}

impl Gemma4Config {
    /// The configs whose decoder the dense text path implements.
    pub open spec fn supported(self) -> bool {
        &&& self.model_type matches Some(model_type) ==> supported_top_level_model_type(model_type@)
        &&& self.tie_word_embeddings matches Some(outer) ==> outer
            == self.text_config.tie_word_embeddings
        &&& self.text_config.supported()
    }

    /// The first rule that the config breaks.
    pub open spec fn fault(self) -> Option<Gemma4ConfigFault> {
        if self.model_type is Some && !supported_top_level_model_type(self.model_type->0@) {
            Some(Gemma4ConfigFault::ModelType(self.model_type->0))
        } else if self.tie_word_embeddings is Some && self.tie_word_embeddings->0
            != self.text_config.tie_word_embeddings {
            Some(
                Gemma4ConfigFault::TiedDisagreement {
                    outer: self.tie_word_embeddings->0,
                    text: self.text_config.tie_word_embeddings,
                },
            )
        } else {
            self.text_config.fault()
        }
    }

    /// A config breaks no rule exactly when its decoder is implemented.
    pub proof fn lemma_fault_is_complete(self)
        ensures
            self.fault() is None <==> self.supported(),
    {
        self.text_config.lemma_fault_is_complete();
    }

    /// Refuses a config that the dense text decoder does not implement, naming the first rule
    /// that it breaks.
    pub fn validate(&self) -> (verdict: Result<(), Gemma4ConfigFault>)
        ensures
            match verdict {
                Ok(()) => self.fault() is None,
                Err(fault) => self.fault() == Some(fault),
            },
            verdict is Ok <==> self.supported(),
    {
        proof {
            self.text_config.lemma_fault_is_complete();
        }
        if let Some(model_type) = &self.model_type {
            if !is_supported_top_level_model_type(model_type) {
                return Err(Gemma4ConfigFault::ModelType(model_type.clone()));
            }
        }
        if let Some(outer) = self.tie_word_embeddings {
            if outer != self.text_config.tie_word_embeddings {
                return Err(
                    Gemma4ConfigFault::TiedDisagreement {
                        outer,
                        text: self.text_config.tie_word_embeddings,
                    },
                );
            }
        }
        self.text_config.validate()
    }
}

impl Gemma4ConfigFault {
    /// The place, in the order in which the rules of a text config are looked at, of the rule that
    /// the fault reports.
    pub open spec fn place(self) -> int {
        match self {
            Gemma4ConfigFault::ModelType(_) => -2,
            Gemma4ConfigFault::TiedDisagreement { .. } => -1,
            Gemma4ConfigFault::MissingTextModelType => 0,
            Gemma4ConfigFault::TextModelType(_) => 1,
            Gemma4ConfigFault::ZeroSize(which) => match which {
                Gemma4Size::VocabSize => 2,
                Gemma4Size::VocabSizePerLayerInput => 3,
                Gemma4Size::HiddenSize => 4,
                Gemma4Size::IntermediateSize => 5,
                Gemma4Size::NumHiddenLayers => 6,
                Gemma4Size::NumAttentionHeads => 7,
                Gemma4Size::NumKeyValueHeads => 8,
                Gemma4Size::NumGlobalKeyValueHeads => 9,
                Gemma4Size::HeadDim => 10,
                Gemma4Size::GlobalHeadDim => 11,
                Gemma4Size::MaxPositionEmbeddings => 12,
                Gemma4Size::SlidingWindow => 13,
            },
            Gemma4ConfigFault::PerLayerHidden(_) => 14,
            Gemma4ConfigFault::PerLayerVocab { .. } => 15,
            Gemma4ConfigFault::MixtureOfExperts => 16,
            Gemma4ConfigFault::HiddenActivation(_) => 17,
            Gemma4ConfigFault::AttentionBias => 18,
            Gemma4ConfigFault::AttentionDropout(_) => 19,
            Gemma4ConfigFault::SeparateKeyValue => 20,
            Gemma4ConfigFault::SharedKeyValueLayers(_) => 21,
            Gemma4ConfigFault::SlidingHeads { .. } => 22,
            Gemma4ConfigFault::GlobalHeads { .. } => 23,
            Gemma4ConfigFault::LayerCount { .. } => 24,
            Gemma4ConfigFault::NoFullAttention => 25,
            Gemma4ConfigFault::FinalLayer => 26,
            Gemma4ConfigFault::UntiedEmbeddings => 27,
            Gemma4ConfigFault::NormEpsilon(_) => 28,
            Gemma4ConfigFault::LogitSoftcap(_) => 29,
            Gemma4ConfigFault::Bidirectional(_) => 30,
            Gemma4ConfigFault::DoubleWideMlp => 31,
            Gemma4ConfigFault::FullRopeType(_) => 32,
            Gemma4ConfigFault::FullRopeTheta(_) => 33,
            Gemma4ConfigFault::RotaryFactor(_) => 34,
            Gemma4ConfigFault::RotaryWidth { .. } => 35,
            Gemma4ConfigFault::SlidingRopeType(_) => 36,
            Gemma4ConfigFault::SlidingRopeTheta(_) => 37,
        }
    }

    /// Whether what the fault holds is what stands in the config.
    pub open spec fn quotes(self, config: Gemma4TextConfig) -> bool {
        let full = config.rope_parameters.full_attention;
        let sliding = config.rope_parameters.sliding_attention;
        match self {
            Gemma4ConfigFault::TextModelType(found) => config.model_type == Some(found),
            Gemma4ConfigFault::PerLayerHidden(width) => width
                == config.hidden_size_per_layer_input,
            Gemma4ConfigFault::PerLayerVocab { per_layer, vocab } => per_layer
                == config.vocab_size_per_layer_input && vocab == config.vocab_size,
            Gemma4ConfigFault::HiddenActivation(found) => found == config.hidden_activation,
            Gemma4ConfigFault::AttentionDropout(found) => found == config.attention_dropout,
            Gemma4ConfigFault::SharedKeyValueLayers(count) => count == config.num_kv_shared_layers,
            Gemma4ConfigFault::SlidingHeads { heads, key_value_heads } => heads
                == config.num_attention_heads && key_value_heads == config.num_key_value_heads,
            Gemma4ConfigFault::GlobalHeads { heads, key_value_heads } => heads
                == config.num_attention_heads && key_value_heads
                == config.num_global_key_value_heads,
            Gemma4ConfigFault::LayerCount { entries, layers } => entries
                == config.layer_types@.len() && layers == config.num_hidden_layers,
            Gemma4ConfigFault::NormEpsilon(found) => found == config.rms_norm_eps,
            Gemma4ConfigFault::LogitSoftcap(found) => found == config.final_logit_softcapping,
            Gemma4ConfigFault::Bidirectional(found) => found == config.use_bidirectional_attention,
            Gemma4ConfigFault::FullRopeType(found) => found == full.rope_type,
            Gemma4ConfigFault::FullRopeTheta(found) => found == full.rope_theta,
            Gemma4ConfigFault::RotaryFactor(found) => found == full.partial_rotary_factor,
            Gemma4ConfigFault::RotaryWidth { head, factor } => head == config.global_head_dim
                && factor == full.partial_rotary_factor,
            Gemma4ConfigFault::SlidingRopeType(found) => found == sliding.rope_type,
            Gemma4ConfigFault::SlidingRopeTheta(found) => found == sliding.rope_theta,
            _ => true,
        }
    }
}

impl Gemma4TextConfig {
    /// Whether the config meets the rule at a place of the order.
    pub open spec fn meets(self, place: int) -> bool {
        let full = self.rope_parameters.full_attention;
        let sliding = self.rope_parameters.sliding_attention;
        if place == 0 {
            self.model_type is Some
        } else if place == 1 {
            self.model_type is Some && (self.model_type->0@ == "gemma4_text"@
                || self.model_type->0@ == "gemma4_unified_text"@)
        } else if place == 2 {
            self.vocab_size > 0
        } else if place == 3 {
            self.vocab_size_per_layer_input > 0
        } else if place == 4 {
            self.hidden_size > 0
        } else if place == 5 {
            self.intermediate_size > 0
        } else if place == 6 {
            self.num_hidden_layers > 0
        } else if place == 7 {
            self.num_attention_heads > 0
        } else if place == 8 {
            self.num_key_value_heads > 0
        } else if place == 9 {
            self.num_global_key_value_heads > 0
        } else if place == 10 {
            self.head_dim > 0
        } else if place == 11 {
            self.global_head_dim > 0
        } else if place == 12 {
            self.max_position_embeddings > 0
        } else if place == 13 {
            self.sliding_window > 0
        } else if place == 14 {
            self.hidden_size_per_layer_input == 0
        } else if place == 15 {
            self.vocab_size_per_layer_input == self.vocab_size
        } else if place == 16 {
            !self.enable_moe_block && self.num_experts is None && self.top_k_experts is None
                && self.expert_intermediate_size is None && self.moe_intermediate_size is None
        } else if place == 17 {
            self.hidden_activation@ == "gelu_pytorch_tanh"@
        } else if place == 18 {
            !self.attention_bias
        } else if place == 19 {
            self.attention_dropout.finite() && self.attention_dropout.signed_units() == 0
        } else if place == 20 {
            self.attention_k_eq_v
        } else if place == 21 {
            self.num_kv_shared_layers == 0
        } else if place == 22 {
            self.num_attention_heads % self.num_key_value_heads == 0
        } else if place == 23 {
            self.num_attention_heads % self.num_global_key_value_heads == 0
        } else if place == 24 {
            self.layer_types@.len() == self.num_hidden_layers
        } else if place == 25 {
            exists|layer: int|
                0 <= layer < self.layer_types@.len() && #[trigger] self.layer_types@[layer]
                    == Gemma4LayerType::FullAttention
        } else if place == 26 {
            self.layer_types@[self.layer_types@.len() - 1] == Gemma4LayerType::FullAttention
        } else if place == 27 {
            self.tie_word_embeddings
        } else if place == 28 {
            self.rms_norm_eps.finite() && self.rms_norm_eps.signed_units() > 0
        } else if place == 29 {
            self.final_logit_softcapping.finite() && self.final_logit_softcapping.signed_units() > 0
        } else if place == 30 {
            self.use_bidirectional_attention is Some && self.use_bidirectional_attention->0@
                == "vision"@
        } else if place == 31 {
            !self.use_double_wide_mlp
        } else if place == 32 {
            full.rope_type@ == "proportional"@
        } else if place == 33 {
            full.rope_theta.finite() && full.rope_theta.signed_units() > 0
        } else if place == 34 {
            full.partial_rotary_factor.finite() && 0 < full.partial_rotary_factor.signed_units()
                <= vstd::arithmetic::power2::pow2(1074)
        } else if place == 35 {
            exists|width: nat| #[trigger]
                self.rotates(width)
        } else if place == 36 {
            sliding.rope_type@ == "default"@
        } else if place == 37 {
            sliding.rope_theta.finite() && sliding.rope_theta.signed_units() > 0
        } else {
            true
        }
    }

    /// Whether a global head rotates a number of components: a positive even number that the
    /// product of the head's width and the rotated fraction exceeds by no more than a billionth.
    pub open spec fn rotates(self, width: nat) -> bool {
        let product = crate::binary64::rounded_product(
            self.global_head_dim as nat,
            self.rope_parameters.full_attention.partial_rotary_factor,
        );
        let one = vstd::arithmetic::power2::pow2(1074);
        &&& 0 < width <= usize::MAX
        &&& width % 2 == 0
        &&& width * one <= product <= width * one + crate::binary64::nano_units()
    }

    /// The rotated components of a head are those that the head's rotary width counts.
    proof fn lemma_rotated_width(self)
        requires
            self.meets(34),
        ensures
            self.meets(35) <==> crate::binary64::rotated_width(
                self.global_head_dim as nat,
                self.rope_parameters.full_attention.partial_rotary_factor,
            ) is Some,
    {
        let factor = self.rope_parameters.full_attention.partial_rotary_factor;
        let product = crate::binary64::rounded_product(self.global_head_dim as nat, factor);
        let one = vstd::arithmetic::power2::pow2(1074);
        let floor = product / one;
        crate::binary64::lemma_nano_is_small();
        vstd::arithmetic::power2::lemma_pow2_pos(1074);
        vstd::arithmetic::div_mod::lemma_fundamental_div_mod(product as int, one as int);
        vstd::arithmetic::mul::lemma_mul_is_commutative(one as int, floor as int);
        assert(usize::MAX % 2 == 1);
        if crate::binary64::rotated_width(self.global_head_dim as nat, factor) is Some {
            assert(self.rotates(floor));
        }
        if self.meets(35) {
            let width = choose|width: nat| #[trigger] self.rotates(width);
            vstd::arithmetic::div_mod::lemma_fundamental_div_mod_converse(
                product as int,
                one as int,
                width as int,
                product - width * one,
            );
        }
    }

    /// The rules before the first size, and those behind the last, are looked at in their order.
    proof fn lemma_rules_on_sizes(self)
        ensures
            self.size_fault() matches Some(fault) ==> 0 <= fault.place() <= 15 && !self.meets(
                fault.place(),
            ) && (forall|place: int| 0 <= place < fault.place() ==> #[trigger] self.meets(place)),
            self.size_fault() is None ==> (forall|place: int|
                0 <= place <= 15 ==> #[trigger] self.meets(place)),
    {
        self.lemma_zero_search(0);
        let sizes = Self::sizes();
        reveal_with_fuel(Gemma4TextConfig::zero_size_from, 13);
    }
}

/// A text config is refused exactly when it breaks a rule. The refusal reports the first rule, in
/// their order, that it breaks, and quotes what stands in the config.
pub proof fn law_first_broken_rule(config: Gemma4TextConfig)
    ensures
        config.fault() is None <==> (forall|place: int|
            0 <= place < 38 ==> #[trigger] config.meets(place)),
        config.fault() matches Some(fault) ==> {
            &&& 0 <= fault.place() < 38
            &&& !config.meets(fault.place())
            &&& forall|place: int| 0 <= place < fault.place() ==> #[trigger] config.meets(place)
            &&& fault.quotes(config)
        },
{
    config.lemma_rules_on_sizes();
    crate::binary64::law_number_classes(config.attention_dropout);
    crate::binary64::law_number_classes(config.rms_norm_eps);
    crate::binary64::law_number_classes(config.final_logit_softcapping);
    let full = config.rope_parameters.full_attention;
    crate::binary64::law_number_classes(full.rope_theta);
    crate::binary64::law_number_classes(full.partial_rotary_factor);
    crate::binary64::law_number_classes(config.rope_parameters.sliding_attention.rope_theta);
    assert(config.layer_types@.contains(Gemma4LayerType::FullAttention) <==> config.meets(25));
    if config.meets(34) {
        config.lemma_rotated_width();
    }
    if let Some(fault) = config.fault() {
        assert(0 <= fault.place() < 38);
        assert(!config.meets(fault.place()));
        assert(config.layer_types.len() == config.layer_types@.len());
        assert(fault.quotes(config));
        assert forall|place: int| 0 <= place < fault.place() implies #[trigger] config.meets(
            place,
        ) by {}
    } else {
        assert forall|place: int| 0 <= place < 38 implies #[trigger] config.meets(place) by {}
    }
}

/// A config is refused for its outer model type first, then for two flags that disagree, and then
/// for its text config.
pub proof fn law_outer_rules_come_first(config: Gemma4Config)
    ensures
        ({
            let known = config.model_type is None || config.model_type->0@ == "gemma4"@
                || config.model_type->0@ == "gemma4_unified"@;
            let tied = config.tie_word_embeddings is None || config.tie_word_embeddings->0
                == config.text_config.tie_word_embeddings;
            &&& !known ==> config.fault() == Some(
                Gemma4ConfigFault::ModelType(config.model_type->0),
            )
            &&& known && !tied ==> config.fault() == Some(
                Gemma4ConfigFault::TiedDisagreement {
                    outer: config.tie_word_embeddings->0,
                    text: config.text_config.tie_word_embeddings,
                },
            )
            &&& known && tied ==> config.fault() == config.text_config.fault()
        }),
{
}

/// The rotated dims of a supported config are an even number, and not none: the whole number that
/// the product of the head's width and the rotated fraction exceeds by no more than a billionth.
pub proof fn law_rotary_width_is_even(config: Gemma4TextConfig)
    requires
        config.supported(),
    ensures
        ({
            let factor = config.rope_parameters.full_attention.partial_rotary_factor;
            let width = crate::binary64::truncated_product(config.global_head_dim as nat, factor);
            let product = crate::binary64::rounded_product(config.global_head_dim as nat, factor);
            &&& width > 0
            &&& width % 2 == 0
            &&& width * vstd::arithmetic::power2::pow2(1074) <= product <= width * vstd::arithmetic::power2::pow2(1074) + crate::binary64::nano_units()
        }),
{
    let factor = config.rope_parameters.full_attention.partial_rotary_factor;
    let product = crate::binary64::rounded_product(config.global_head_dim as nat, factor);
    vstd::arithmetic::power2::lemma_pow2_pos(1074);
    vstd::arithmetic::div_mod::lemma_fundamental_div_mod(product as int, vstd::arithmetic::power2::pow2(1074) as int);
    vstd::arithmetic::mul::lemma_mul_is_commutative(
        vstd::arithmetic::power2::pow2(1074) as int,
        product as int / vstd::arithmetic::power2::pow2(1074) as int,
    );
    assert(usize::MAX % 2 == 1);
}

/// The rotated dims of a supported config are no more than a head's dims, for heads whose width is
/// a double.
pub proof fn law_rotary_width_fits_the_head(config: Gemma4TextConfig)
    requires
        config.supported(),
        config.global_head_dim < crate::binary64::SIGNIFICAND_END,
    ensures
        ({
            let width = crate::binary64::truncated_product(
                config.global_head_dim as nat,
                config.rope_parameters.full_attention.partial_rotary_factor,
            );
            0 < width <= config.global_head_dim && width % 2 == 0
        }),
{
    crate::binary64::law_fractions_do_not_exceed_the_whole(
        config.global_head_dim as nat,
        config.rope_parameters.full_attention.partial_rotary_factor,
    );
}

impl Gemma4Size {
    /// The config field of the size.
    pub open spec fn field(self) -> Seq<char> {
        match self {
            Gemma4Size::VocabSize => "vocab_size"@,
            Gemma4Size::VocabSizePerLayerInput => "vocab_size_per_layer_input"@,
            Gemma4Size::HiddenSize => "hidden_size"@,
            Gemma4Size::IntermediateSize => "intermediate_size"@,
            Gemma4Size::NumHiddenLayers => "num_hidden_layers"@,
            Gemma4Size::NumAttentionHeads => "num_attention_heads"@,
            Gemma4Size::NumKeyValueHeads => "num_key_value_heads"@,
            Gemma4Size::NumGlobalKeyValueHeads => "num_global_key_value_heads"@,
            Gemma4Size::HeadDim => "head_dim"@,
            Gemma4Size::GlobalHeadDim => "global_head_dim"@,
            Gemma4Size::MaxPositionEmbeddings => "max_position_embeddings"@,
            Gemma4Size::SlidingWindow => "sliding_window"@,
        }
    }

    /// The config field of the size.
    pub fn name(self) -> (name: &'static str)
        ensures
            name@ == self.field(),
    {
        match self {
            Gemma4Size::VocabSize => "vocab_size",
            Gemma4Size::VocabSizePerLayerInput => "vocab_size_per_layer_input",
            Gemma4Size::HiddenSize => "hidden_size",
            Gemma4Size::IntermediateSize => "intermediate_size",
            Gemma4Size::NumHiddenLayers => "num_hidden_layers",
            Gemma4Size::NumAttentionHeads => "num_attention_heads",
            Gemma4Size::NumKeyValueHeads => "num_key_value_heads",
            Gemma4Size::NumGlobalKeyValueHeads => "num_global_key_value_heads",
            Gemma4Size::HeadDim => "head_dim",
            Gemma4Size::GlobalHeadDim => "global_head_dim",
            Gemma4Size::MaxPositionEmbeddings => "max_position_embeddings",
            Gemma4Size::SlidingWindow => "sliding_window",
        }
    }
}

impl Gemma4ConfigFault {
    /// What the fault says, given the decimal rendering of the number that it is about.
    pub open spec fn text(self, shown: Seq<char>) -> Seq<char> {
        match self {
            Gemma4ConfigFault::ModelType(found) => "gemma4 config: model_type "@ + crate::text::debug_text(found@) + ", expected \"gemma4\" or \"gemma4_unified\""@,
            Gemma4ConfigFault::TiedDisagreement { outer, text } => "gemma4 config: outer tie_word_embeddings "@ + crate::text::flag_text(outer) + " disagrees with text_config.tie_word_embeddings "@ + crate::text::flag_text(text),
            Gemma4ConfigFault::MissingTextModelType => "gemma4 config: text_config.model_type missing, expected \"gemma4_text\" or \"gemma4_unified_text\""@,
            Gemma4ConfigFault::TextModelType(found) => "gemma4 config: text_config.model_type "@ + crate::text::debug_text(found@) + ", expected \"gemma4_text\" or \"gemma4_unified_text\""@,
            Gemma4ConfigFault::ZeroSize(which) => "gemma4 config: "@ + which.field() + " must be > 0"@,
            Gemma4ConfigFault::PerLayerHidden(width) => "gemma4 config: hidden_size_per_layer_input "@ + crate::text::decimal_text(width as nat) + " unsupported (the initial dense text path does not implement per-layer embeddings)"@,
            Gemma4ConfigFault::PerLayerVocab { per_layer, vocab } => "gemma4 config: vocab_size_per_layer_input "@ + crate::text::decimal_text(per_layer as nat) + " must equal vocab_size "@ + crate::text::decimal_text(vocab as nat) + " for the initial dense text path"@,
            Gemma4ConfigFault::MixtureOfExperts => "gemma4 config: MoE fields unsupported in the initial native path (first target is dense text checkpoints)"@,
            Gemma4ConfigFault::HiddenActivation(found) => "gemma4 config: hidden_activation "@ + crate::text::debug_text(found@) + " unsupported (only \"gelu_pytorch_tanh\")"@,
            Gemma4ConfigFault::AttentionBias => "gemma4 config: attention_bias=true unsupported (31B ships bias-free)"@,
            Gemma4ConfigFault::AttentionDropout(_) => "gemma4 config: attention_dropout "@ + shown + " unsupported (only 0.0)"@,
            Gemma4ConfigFault::SeparateKeyValue => "gemma4 config: attention_k_eq_v=false unsupported (global layers unify K/V in the initial target)"@,
            Gemma4ConfigFault::SharedKeyValueLayers(count) => "gemma4 config: num_kv_shared_layers "@ + crate::text::decimal_text(count as nat) + " unsupported (initial target uses 0)"@,
            Gemma4ConfigFault::SlidingHeads { heads, key_value_heads } => "gemma4 config: num_attention_heads "@ + crate::text::decimal_text(heads as nat) + " not divisible by num_key_value_heads "@ + crate::text::decimal_text(key_value_heads as nat),
            Gemma4ConfigFault::GlobalHeads { heads, key_value_heads } => "gemma4 config: num_attention_heads "@ + crate::text::decimal_text(heads as nat) + " not divisible by num_global_key_value_heads "@ + crate::text::decimal_text(key_value_heads as nat),
            Gemma4ConfigFault::LayerCount { entries, layers } => "gemma4 config: layer_types has "@ + crate::text::decimal_text(entries as nat) + " entries for "@ + crate::text::decimal_text(layers as nat) + " layers"@,
            Gemma4ConfigFault::NoFullAttention => "gemma4 config: layer_types must contain at least one full_attention layer"@,
            Gemma4ConfigFault::FinalLayer => "gemma4 config: final layer must be full_attention"@,
            Gemma4ConfigFault::UntiedEmbeddings => "gemma4 config: tie_word_embeddings=false unsupported (initial target uses tied embeddings)"@,
            Gemma4ConfigFault::NormEpsilon(_) => "gemma4 config: rms_norm_eps "@ + shown + " must be a positive number"@,
            Gemma4ConfigFault::LogitSoftcap(_) => "gemma4 config: final_logit_softcapping "@ + shown + " must be a positive number"@,
            Gemma4ConfigFault::Bidirectional(None) => "gemma4 config: use_bidirectional_attention None unsupported (text path expects \"vision\")"@,
            Gemma4ConfigFault::Bidirectional(Some(found)) => "gemma4 config: use_bidirectional_attention Some("@ + crate::text::debug_text(found@) + ") unsupported (text path expects \"vision\")"@,
            Gemma4ConfigFault::DoubleWideMlp => "gemma4 config: use_double_wide_mlp=true unsupported"@,
            Gemma4ConfigFault::FullRopeType(found) => "gemma4 config: full_attention rope_type "@ + crate::text::debug_text(found@) + " unsupported (only \"proportional\")"@,
            Gemma4ConfigFault::FullRopeTheta(_) => "gemma4 config: full_attention rope_theta "@ + shown + " must be a positive number"@,
            Gemma4ConfigFault::RotaryFactor(_) => "gemma4 config: partial_rotary_factor "@ + shown + " must be in (0, 1]"@,
            Gemma4ConfigFault::RotaryWidth { head, .. } => "gemma4 config: global_head_dim "@ + crate::text::decimal_text(head as nat) + " * partial_rotary_factor "@ + shown + " must be a nonzero even integer"@,
            Gemma4ConfigFault::SlidingRopeType(found) => "gemma4 config: sliding_attention rope_type "@ + crate::text::debug_text(found@) + " unsupported (only \"default\")"@,
            Gemma4ConfigFault::SlidingRopeTheta(_) => "gemma4 config: sliding_attention rope_theta "@ + shown + " must be a positive number"@,
        }
    }

    /// What the fault says. `shown` is the decimal rendering of the number that the fault is
    /// about, for a [`Gemma4ConfigFault::RotaryWidth`] the factor, ` = ` and the product; a fault
    /// that is not about a fractional number ignores it.
    pub fn message(&self, shown: &str) -> (text: String)
        ensures
            text@ == self.text(shown@),
    {
        match self {
            Gemma4ConfigFault::ModelType(found) => {
                let mut text = String::from_str("gemma4 config: model_type ");
                text.append(&debug_quoted(found));
                text.append(", expected \"gemma4\" or \"gemma4_unified\"");
                text
            },
            Gemma4ConfigFault::TiedDisagreement { outer, text: inner } => {
                let mut text = String::from_str("gemma4 config: outer tie_word_embeddings ");
                text.append(flag(*outer));
                text.append(" disagrees with text_config.tie_word_embeddings ");
                text.append(flag(*inner));
                text
            },
            Gemma4ConfigFault::MissingTextModelType => String::from_str("gemma4 config: text_config.model_type missing, expected \"gemma4_text\" or \"gemma4_unified_text\""),
            Gemma4ConfigFault::TextModelType(found) => {
                let mut text = String::from_str("gemma4 config: text_config.model_type ");
                text.append(&debug_quoted(found));
                text.append(", expected \"gemma4_text\" or \"gemma4_unified_text\"");
                text
            },
            Gemma4ConfigFault::ZeroSize(which) => {
                let mut text = String::from_str("gemma4 config: ");
                text.append(which.name());
                text.append(" must be > 0");
                text
            },
            Gemma4ConfigFault::PerLayerHidden(width) => {
                let mut text = String::from_str("gemma4 config: hidden_size_per_layer_input ");
                text.append(&decimal(*width as u64));
                text.append(" unsupported (the initial dense text path does not implement per-layer embeddings)");
                text
            },
            Gemma4ConfigFault::PerLayerVocab { per_layer, vocab } => {
                let mut text = String::from_str("gemma4 config: vocab_size_per_layer_input ");
                text.append(&decimal(*per_layer as u64));
                text.append(" must equal vocab_size ");
                text.append(&decimal(*vocab as u64));
                text.append(" for the initial dense text path");
                text
            },
            Gemma4ConfigFault::MixtureOfExperts => String::from_str("gemma4 config: MoE fields unsupported in the initial native path (first target is dense text checkpoints)"),
            Gemma4ConfigFault::HiddenActivation(found) => {
                let mut text = String::from_str("gemma4 config: hidden_activation ");
                text.append(&debug_quoted(found));
                text.append(" unsupported (only \"gelu_pytorch_tanh\")");
                text
            },
            Gemma4ConfigFault::AttentionBias => String::from_str("gemma4 config: attention_bias=true unsupported (31B ships bias-free)"),
            Gemma4ConfigFault::AttentionDropout(_) => {
                let mut text = String::from_str("gemma4 config: attention_dropout ");
                text.append(shown);
                text.append(" unsupported (only 0.0)");
                text
            },
            Gemma4ConfigFault::SeparateKeyValue => String::from_str("gemma4 config: attention_k_eq_v=false unsupported (global layers unify K/V in the initial target)"),
            Gemma4ConfigFault::SharedKeyValueLayers(count) => {
                let mut text = String::from_str("gemma4 config: num_kv_shared_layers ");
                text.append(&decimal(*count as u64));
                text.append(" unsupported (initial target uses 0)");
                text
            },
            Gemma4ConfigFault::SlidingHeads { heads, key_value_heads } => {
                let mut text = String::from_str("gemma4 config: num_attention_heads ");
                text.append(&decimal(*heads as u64));
                text.append(" not divisible by num_key_value_heads ");
                text.append(&decimal(*key_value_heads as u64));
                text
            },
            Gemma4ConfigFault::GlobalHeads { heads, key_value_heads } => {
                let mut text = String::from_str("gemma4 config: num_attention_heads ");
                text.append(&decimal(*heads as u64));
                text.append(" not divisible by num_global_key_value_heads ");
                text.append(&decimal(*key_value_heads as u64));
                text
            },
            Gemma4ConfigFault::LayerCount { entries, layers } => {
                let mut text = String::from_str("gemma4 config: layer_types has ");
                text.append(&decimal(*entries as u64));
                text.append(" entries for ");
                text.append(&decimal(*layers as u64));
                text.append(" layers");
                text
            },
            Gemma4ConfigFault::NoFullAttention => String::from_str("gemma4 config: layer_types must contain at least one full_attention layer"),
            Gemma4ConfigFault::FinalLayer => String::from_str("gemma4 config: final layer must be full_attention"),
            Gemma4ConfigFault::UntiedEmbeddings => String::from_str("gemma4 config: tie_word_embeddings=false unsupported (initial target uses tied embeddings)"),
            Gemma4ConfigFault::NormEpsilon(_) => {
                let mut text = String::from_str("gemma4 config: rms_norm_eps ");
                text.append(shown);
                text.append(" must be a positive number");
                text
            },
            Gemma4ConfigFault::LogitSoftcap(_) => {
                let mut text = String::from_str("gemma4 config: final_logit_softcapping ");
                text.append(shown);
                text.append(" must be a positive number");
                text
            },
            Gemma4ConfigFault::Bidirectional(None) => String::from_str("gemma4 config: use_bidirectional_attention None unsupported (text path expects \"vision\")"),
            Gemma4ConfigFault::Bidirectional(Some(found)) => {
                let mut text = String::from_str("gemma4 config: use_bidirectional_attention Some(");
                text.append(&debug_quoted(found));
                text.append(") unsupported (text path expects \"vision\")");
                text
            },
            Gemma4ConfigFault::DoubleWideMlp => String::from_str("gemma4 config: use_double_wide_mlp=true unsupported"),
            Gemma4ConfigFault::FullRopeType(found) => {
                let mut text = String::from_str("gemma4 config: full_attention rope_type ");
                text.append(&debug_quoted(found));
                text.append(" unsupported (only \"proportional\")");
                text
            },
            Gemma4ConfigFault::FullRopeTheta(_) => {
                let mut text = String::from_str("gemma4 config: full_attention rope_theta ");
                text.append(shown);
                text.append(" must be a positive number");
                text
            },
            Gemma4ConfigFault::RotaryFactor(_) => {
                let mut text = String::from_str("gemma4 config: partial_rotary_factor ");
                text.append(shown);
                text.append(" must be in (0, 1]");
                text
            },
            Gemma4ConfigFault::RotaryWidth { head, .. } => {
                let mut text = String::from_str("gemma4 config: global_head_dim ");
                text.append(&decimal(*head as u64));
                text.append(" * partial_rotary_factor ");
                text.append(shown);
                text.append(" must be a nonzero even integer");
                text
            },
            Gemma4ConfigFault::SlidingRopeType(found) => {
                let mut text = String::from_str("gemma4 config: sliding_attention rope_type ");
                text.append(&debug_quoted(found));
                text.append(" unsupported (only \"default\")");
                text
            },
            Gemma4ConfigFault::SlidingRopeTheta(_) => {
                let mut text = String::from_str("gemma4 config: sliding_attention rope_theta ");
                text.append(shown);
                text.append(" must be a positive number");
                text
            },
        }
    }
}

impl Gemma4ConfigFault {
    /// The fractional number that the fault is about.
    pub open spec fn subject(self) -> Option<Real64> {
        match self {
            Gemma4ConfigFault::AttentionDropout(number) => Some(number),
            Gemma4ConfigFault::NormEpsilon(number) => Some(number),
            Gemma4ConfigFault::LogitSoftcap(number) => Some(number),
            Gemma4ConfigFault::FullRopeTheta(number) => Some(number),
            Gemma4ConfigFault::RotaryFactor(number) => Some(number),
            Gemma4ConfigFault::RotaryWidth { factor, .. } => Some(factor),
            Gemma4ConfigFault::SlidingRopeTheta(number) => Some(number),
            _ => None,
        }
    }

    /// The fractional number that the fault is about.
    pub fn number(&self) -> (number: Option<Real64>)
        ensures
            number == self.subject(),
    {
        match self {
            Gemma4ConfigFault::AttentionDropout(number) => Some(*number),
            Gemma4ConfigFault::NormEpsilon(number) => Some(*number),
            Gemma4ConfigFault::LogitSoftcap(number) => Some(*number),
            Gemma4ConfigFault::FullRopeTheta(number) => Some(*number),
            Gemma4ConfigFault::RotaryFactor(number) => Some(*number),
            Gemma4ConfigFault::RotaryWidth { factor, .. } => Some(*factor),
            Gemma4ConfigFault::SlidingRopeTheta(number) => Some(*number),
            _ => None,
        }
    }
}

/// The number that a fault is about is the one that stands in the config.
pub proof fn law_faults_are_about_their_numbers(config: Gemma4TextConfig)
    requires
        config.fault() is Some,
    ensures
        ({
            let fault = config.fault()->0;
            let full = config.rope_parameters.full_attention;
            let sliding = config.rope_parameters.sliding_attention;
            fault.subject() == if fault.place() == 19 {
                Some(config.attention_dropout)
            } else if fault.place() == 28 {
                Some(config.rms_norm_eps)
            } else if fault.place() == 29 {
                Some(config.final_logit_softcapping)
            } else if fault.place() == 33 {
                Some(full.rope_theta)
            } else if fault.place() == 34 || fault.place() == 35 {
                Some(full.partial_rotary_factor)
            } else if fault.place() == 37 {
                Some(sliding.rope_theta)
            } else {
                None
            }
        }),
{
    law_first_broken_rule(config);
}

/// What each fault says, word for word, around what it quotes.
pub proof fn law_words_of_gemma4_config_fault(fault: Gemma4ConfigFault, shown: Seq<char>)
    ensures
        fault matches Gemma4ConfigFault::ModelType(found) ==> fault.text(shown) == ("gemma4 config: model_type "@ + crate::text::debug_text(found@) + ", expected \"gemma4\" or \"gemma4_unified\""@),
        fault matches Gemma4ConfigFault::TiedDisagreement { outer, text } ==> fault.text(shown) == ("gemma4 config: outer tie_word_embeddings "@ + crate::text::flag_text(outer) + " disagrees with text_config.tie_word_embeddings "@ + crate::text::flag_text(text)),
        fault == Gemma4ConfigFault::MissingTextModelType ==> fault.text(shown) == ("gemma4 config: text_config.model_type missing, expected \"gemma4_text\" or \"gemma4_unified_text\""@),
        fault matches Gemma4ConfigFault::TextModelType(found) ==> fault.text(shown) == ("gemma4 config: text_config.model_type "@ + crate::text::debug_text(found@) + ", expected \"gemma4_text\" or \"gemma4_unified_text\""@),
        fault matches Gemma4ConfigFault::ZeroSize(which) ==> fault.text(shown) == ("gemma4 config: "@ + which.field() + " must be > 0"@),
        fault matches Gemma4ConfigFault::PerLayerHidden(width) ==> fault.text(shown) == ("gemma4 config: hidden_size_per_layer_input "@ + crate::text::decimal_text(width as nat) + " unsupported (the initial dense text path does not implement per-layer embeddings)"@),
        fault matches Gemma4ConfigFault::PerLayerVocab { per_layer, vocab } ==> fault.text(shown) == ("gemma4 config: vocab_size_per_layer_input "@ + crate::text::decimal_text(per_layer as nat) + " must equal vocab_size "@ + crate::text::decimal_text(vocab as nat) + " for the initial dense text path"@),
        fault == Gemma4ConfigFault::MixtureOfExperts ==> fault.text(shown) == ("gemma4 config: MoE fields unsupported in the initial native path (first target is dense text checkpoints)"@),
        fault matches Gemma4ConfigFault::HiddenActivation(found) ==> fault.text(shown) == ("gemma4 config: hidden_activation "@ + crate::text::debug_text(found@) + " unsupported (only \"gelu_pytorch_tanh\")"@),
        fault == Gemma4ConfigFault::AttentionBias ==> fault.text(shown) == ("gemma4 config: attention_bias=true unsupported (31B ships bias-free)"@),
        fault matches Gemma4ConfigFault::AttentionDropout(_) ==> fault.text(shown) == ("gemma4 config: attention_dropout "@ + shown + " unsupported (only 0.0)"@),
        fault == Gemma4ConfigFault::SeparateKeyValue ==> fault.text(shown) == ("gemma4 config: attention_k_eq_v=false unsupported (global layers unify K/V in the initial target)"@),
        fault matches Gemma4ConfigFault::SharedKeyValueLayers(count) ==> fault.text(shown) == ("gemma4 config: num_kv_shared_layers "@ + crate::text::decimal_text(count as nat) + " unsupported (initial target uses 0)"@),
        fault matches Gemma4ConfigFault::SlidingHeads { heads, key_value_heads } ==> fault.text(shown) == ("gemma4 config: num_attention_heads "@ + crate::text::decimal_text(heads as nat) + " not divisible by num_key_value_heads "@ + crate::text::decimal_text(key_value_heads as nat)),
        fault matches Gemma4ConfigFault::GlobalHeads { heads, key_value_heads } ==> fault.text(shown) == ("gemma4 config: num_attention_heads "@ + crate::text::decimal_text(heads as nat) + " not divisible by num_global_key_value_heads "@ + crate::text::decimal_text(key_value_heads as nat)),
        fault matches Gemma4ConfigFault::LayerCount { entries, layers } ==> fault.text(shown) == ("gemma4 config: layer_types has "@ + crate::text::decimal_text(entries as nat) + " entries for "@ + crate::text::decimal_text(layers as nat) + " layers"@),
        fault == Gemma4ConfigFault::NoFullAttention ==> fault.text(shown) == ("gemma4 config: layer_types must contain at least one full_attention layer"@),
        fault == Gemma4ConfigFault::FinalLayer ==> fault.text(shown) == ("gemma4 config: final layer must be full_attention"@),
        fault == Gemma4ConfigFault::UntiedEmbeddings ==> fault.text(shown) == ("gemma4 config: tie_word_embeddings=false unsupported (initial target uses tied embeddings)"@),
        fault matches Gemma4ConfigFault::NormEpsilon(_) ==> fault.text(shown) == ("gemma4 config: rms_norm_eps "@ + shown + " must be a positive number"@),
        fault matches Gemma4ConfigFault::LogitSoftcap(_) ==> fault.text(shown) == ("gemma4 config: final_logit_softcapping "@ + shown + " must be a positive number"@),
        fault matches Gemma4ConfigFault::Bidirectional(None) ==> fault.text(shown) == ("gemma4 config: use_bidirectional_attention None unsupported (text path expects \"vision\")"@),
        fault matches Gemma4ConfigFault::Bidirectional(Some(found)) ==> fault.text(shown) == ("gemma4 config: use_bidirectional_attention Some("@ + crate::text::debug_text(found@) + ") unsupported (text path expects \"vision\")"@),
        fault == Gemma4ConfigFault::DoubleWideMlp ==> fault.text(shown) == ("gemma4 config: use_double_wide_mlp=true unsupported"@),
        fault matches Gemma4ConfigFault::FullRopeType(found) ==> fault.text(shown) == ("gemma4 config: full_attention rope_type "@ + crate::text::debug_text(found@) + " unsupported (only \"proportional\")"@),
        fault matches Gemma4ConfigFault::FullRopeTheta(_) ==> fault.text(shown) == ("gemma4 config: full_attention rope_theta "@ + shown + " must be a positive number"@),
        fault matches Gemma4ConfigFault::RotaryFactor(_) ==> fault.text(shown) == ("gemma4 config: partial_rotary_factor "@ + shown + " must be in (0, 1]"@),
        fault matches Gemma4ConfigFault::RotaryWidth { head, .. } ==> fault.text(shown) == ("gemma4 config: global_head_dim "@ + crate::text::decimal_text(head as nat) + " * partial_rotary_factor "@ + shown + " must be a nonzero even integer"@),
        fault matches Gemma4ConfigFault::SlidingRopeType(found) ==> fault.text(shown) == ("gemma4 config: sliding_attention rope_type "@ + crate::text::debug_text(found@) + " unsupported (only \"default\")"@),
        fault matches Gemma4ConfigFault::SlidingRopeTheta(_) ==> fault.text(shown) == ("gemma4 config: sliding_attention rope_theta "@ + shown + " must be a positive number"@),
{
}

/// The config field of each size.
pub proof fn law_words_of_gemma4_size(size: Gemma4Size)
    ensures
        size == Gemma4Size::VocabSize ==> size.field() == ("vocab_size"@),
        size == Gemma4Size::VocabSizePerLayerInput ==> size.field() == ("vocab_size_per_layer_input"@),
        size == Gemma4Size::HiddenSize ==> size.field() == ("hidden_size"@),
        size == Gemma4Size::IntermediateSize ==> size.field() == ("intermediate_size"@),
        size == Gemma4Size::NumHiddenLayers ==> size.field() == ("num_hidden_layers"@),
        size == Gemma4Size::NumAttentionHeads ==> size.field() == ("num_attention_heads"@),
        size == Gemma4Size::NumKeyValueHeads ==> size.field() == ("num_key_value_heads"@),
        size == Gemma4Size::NumGlobalKeyValueHeads ==> size.field() == ("num_global_key_value_heads"@),
        size == Gemma4Size::HeadDim ==> size.field() == ("head_dim"@),
        size == Gemma4Size::GlobalHeadDim ==> size.field() == ("global_head_dim"@),
        size == Gemma4Size::MaxPositionEmbeddings ==> size.field() == ("max_position_embeddings"@),
        size == Gemma4Size::SlidingWindow ==> size.field() == ("sliding_window"@),
{
}

} // verus!
