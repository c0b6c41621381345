//! How a checkpoint becomes a policy: which family's rules apply to it, whether its weights are
//! captured or streamed, and with which settings its model is built.
use super::options::{
    model_type_from_bytes, validate_gemma4_loader_options, validate_qwen35_loader_options,
    validate_qwen3_loader_options, LoaderError, LoaderOpts, ModelType,
};
use crate::binary64::Real64;
use crate::dtype::DType;
use crate::gemma4::config::Gemma4Config;
use crate::gemma4::model::Gemma4GradModel;
use crate::lora::{BaseQuantization, DenseLoraTargets};
use crate::tensor_parallel::TensorParallelPlan;
use vstd::prelude::*;

verus! {

/// Whether `serde_json` reads a Qwen 3 config out of a byte string.
pub uninterp spec fn qwen3_config_accepted(bytes: Seq<u8>) -> bool;

/// Calls `serde_json::from_slice` for the Qwen 3 config of `candle_transformers` and drops the
/// config. The contract names whether the call succeeds, which depends on the bytes alone.
#[verifier::external_body]
fn qwen3_config_from_slice(bytes: &[u8]) -> (verdict: Result<(), serde_json::Error>)
    ensures
        verdict is Ok <==> qwen3_config_accepted(bytes@),
{
    serde_json::from_slice::<candle_transformers::models::qwen3::Config>(bytes).map(|_| ())
}

/// Refuses bytes at `path` that are not a Qwen 3 config.
pub fn validate_qwen3_config_bytes(bytes: &[u8], path: &str) -> (verdict: Result<(), LoaderError>)
    ensures
        match verdict {
            Ok(()) => qwen3_config_accepted(bytes@),
            Err(LoaderError::Config { path: named, .. }) => named@ == path@
                && !qwen3_config_accepted(bytes@),
            Err(_) => false,
        },
{
    match qwen3_config_from_slice(bytes) {
        Ok(()) => Ok(()),
        Err(source) => Err(LoaderError::Config { path: path.to_owned(), source }),
    }
}

/// Refuses what the rules of Qwen 3 refuse: first the options, then the config.
pub fn check_qwen3(bytes: &[u8], path: &str, opts: &LoaderOpts) -> (verdict: Result<(), LoaderError>)
    ensures
        match verdict {
            Ok(()) => !opts.memory_efficient_cached_gqa && qwen3_config_accepted(bytes@),
            Err(LoaderError::Config { path: named, .. }) => !opts.memory_efficient_cached_gqa
                && named@ == path@ && !qwen3_config_accepted(bytes@),
            Err(error) => opts.memory_efficient_cached_gqa && super::options::refuses_option(
                error,
                "policy.memory_efficient_cached_gqa"@,
                "qwen3_5"@,
                "qwen3"@,
            ),
        },
{
    match validate_qwen3_loader_options(opts) {
        Ok(()) => validate_qwen3_config_bytes(bytes, path),
        Err(error) => Err(error),
    }
}

/// How the weights of a Gemma 4 policy are brought in.
#[derive(Debug, Clone, Copy, PartialEq, Eq, Structural)]
pub enum GemmaWeights {
    /// Captured whole, then loaded.
    Captured,
    /// Streamed, each rank its own part.
    Streamed,
}

/// Whether an error is the one by which the rules of Gemma 4 refuse a config or options.
pub open spec fn gemma4_refusal(config: Gemma4Config, opts: LoaderOpts, error: LoaderError) -> bool {
    match error {
        LoaderError::Gemma4(fault) => config.fault() == Some(fault),
        _ => {
            &&& config.supported()
            &&& opts.memory_efficient_cached_gqa
            &&& super::options::refuses_option(
                error,
                "policy.memory_efficient_cached_gqa"@,
                "qwen3_5"@,
                match config.model_type {
                    Some(model_type) => model_type@,
                    None => "gemma4"@,
                },
            )
        },
    }
}

/// Refuses what the rules of Gemma 4 refuse: first the config, then the options. Sharded weights
/// are streamed.
pub fn check_gemma4(config: &Gemma4Config, opts: &LoaderOpts) -> (weights: Result<
    GemmaWeights,
    LoaderError,
>)
    ensures
        match weights {
            Ok(weights) => {
                &&& config.supported()
                &&& !opts.memory_efficient_cached_gqa
                &&& weights == if opts.tensor_parallel.sharded() {
                    GemmaWeights::Streamed
                } else {
                    GemmaWeights::Captured
                }
            },
            Err(error) => gemma4_refusal(*config, *opts, error),
        },
{
    if let Err(fault) = config.validate() {
        return Err(LoaderError::Gemma4(fault));
    }
    if let Err(error) = validate_gemma4_loader_options(opts, config) {
        return Err(error);
    }
    Ok(
        if opts.tensor_parallel.is_sharded() {
            GemmaWeights::Streamed
        } else {
            GemmaWeights::Captured
        },
    )
}

/// What is done next to load a policy of whichever family a checkpoint is of.
#[derive(Debug)]
pub enum AutoStep {
    /// Capture the checkpoint for Qwen 3, under the declared family.
    CaptureQwen(Option<ModelType>),
    /// Read the Qwen 3.5 config, then capture the checkpoint.
    ReadQwen35Config,
    /// Read the Gemma 4 config, then go by what is supported of it.
    ReadGemma4Config,
    /// The checkpoint is refused.
    Refused(LoaderError),
}

/// Whether a step is the one that the declared family and the options call for.
pub open spec fn auto_step(
    document: Option<crate::json::JsonTree>,
    qwen3_accepted: bool,
    path: Seq<char>,
    opts: LoaderOpts,
    step: AutoStep,
) -> bool {
    match document {
        None => step matches AutoStep::Refused(LoaderError::Config { path: named, .. }) && named@
            == path,
        Some(document) => match super::options::declared_family(document) {
            Some(super::options::Family::Unsupported(name)) => match step {
                AutoStep::Refused(LoaderError::UnsupportedModelType { model_type }) => match name {
                    None => model_type is None,
                    Some(name) => model_type is Some && model_type->0@ == name,
                },
                _ => false,
            },
            Some(super::options::Family::Qwen3_5) => if opts.base_quantization
                != BaseQuantization::Unquantized {
                step matches AutoStep::Refused(error) && super::options::refuses_option(
                    error,
                    "policy.base_quantization"@,
                    "qwen3 or gemma4"@,
                    "qwen3_5"@,
                )
            } else if opts.tensor_parallel.sharded() {
                step matches AutoStep::Refused(error) && super::options::refuses_option(
                    error,
                    "tensor_parallel"@,
                    super::options::unsharded_text("qwen3_5"@),
                    "qwen3_5"@,
                )
            } else {
                step == AutoStep::ReadQwen35Config
            },
            Some(super::options::Family::Gemma4) => step == AutoStep::ReadGemma4Config,
            family => if opts.memory_efficient_cached_gqa {
                step matches AutoStep::Refused(error) && super::options::refuses_option(
                    error,
                    "policy.memory_efficient_cached_gqa"@,
                    "qwen3_5"@,
                    "qwen3"@,
                )
            } else if !qwen3_accepted {
                step matches AutoStep::Refused(LoaderError::Config { path: named, .. }) && named@
                    == path
            } else {
                step matches AutoStep::CaptureQwen(model_type) && super::options::optional_family(
                    model_type,
                ) == family
            },
        },
    }
}

/// Says what is done next to load a policy of whichever family the config at `path`, of the given
/// bytes, declares. A config that declares none is taken for Qwen 3. Nothing but the config is
/// read before its family's rules accept it.
pub fn load_auto_policy_bound_inner(bytes: &[u8], path: &str, opts: &LoaderOpts) -> (step: AutoStep)
    ensures
        auto_step(
            crate::json::json_document(bytes@),
            qwen3_config_accepted(bytes@),
            path@,
            *opts,
            step,
        ),
{
    let model_type = match model_type_from_bytes(bytes, path) {
        Ok(model_type) => model_type,
        Err(error) => return AutoStep::Refused(error),
    };
    match model_type {
        Some(ModelType::Unsupported(model_type)) => AutoStep::Refused(
            LoaderError::UnsupportedModelType { model_type },
        ),
        Some(ModelType::Qwen3_5) => match validate_qwen35_loader_options(opts) {
            Ok(()) => AutoStep::ReadQwen35Config,
            Err(error) => AutoStep::Refused(error),
        },
        Some(ModelType::Gemma4) => AutoStep::ReadGemma4Config,
        Some(ModelType::Qwen3) => match check_qwen3(bytes, path, opts) {
            Ok(()) => AutoStep::CaptureQwen(Some(ModelType::Qwen3)),
            Err(error) => AutoStep::Refused(error),
        },
        None => match check_qwen3(bytes, path, opts) {
            Ok(()) => AutoStep::CaptureQwen(None),
            Err(error) => AutoStep::Refused(error),
        },
    }
}

/// With which settings a policy is built.
#[derive(Debug, Clone, Copy, PartialEq, Eq, Structural)]
pub struct PolicyBuild {
    pub base_dtype: DType,
    pub lora_rank: usize,
    pub lora_alpha: Real64,
    pub adapter_dtype: DType,
    /// The adapted projections; none where the family selects its own.
    pub targets: Option<DenseLoraTargets>,
    pub base_quantization: BaseQuantization,
    /// The plan that the weights are loaded for.
    pub weight_plan: TensorParallelPlan,
    pub memory_efficient_cached_gqa: bool,
    pub activation_checkpointing: bool,
    pub seed: u64,
    pub temperature: Real64,
}

/// The settings that every family takes from the options.
pub open spec fn shares_options(build: PolicyBuild, opts: LoaderOpts) -> bool {
    &&& build.base_dtype == opts.base_dtype
    &&& build.lora_rank == opts.lora_rank
    &&& build.lora_alpha == opts.lora_alpha
    &&& build.adapter_dtype == opts.adapter_dtype
    &&& build.activation_checkpointing == opts.activation_checkpointing
    &&& build.seed == opts.seed
    &&& build.temperature == opts.temperature
}

/// Whether settings are those of a Qwen 3 policy: queries and values are adapted, and every rank
/// loads the whole weights.
pub open spec fn builds_qwen(build: PolicyBuild, opts: LoaderOpts) -> bool {
    &&& shares_options(build, opts)
    &&& build.targets matches Some(targets) && targets.recipe() == "attn:"@ + ("q"@ + "v"@)
        + "|mlp:"@ + "-"@
    &&& build.base_quantization == opts.base_quantization
    &&& !build.weight_plan.sharded()
    &&& !build.memory_efficient_cached_gqa
}

/// Whether settings are those of a Qwen 3.5 policy: the family selects its own adapters.
pub open spec fn builds_qwen35(build: PolicyBuild, opts: LoaderOpts) -> bool {
    &&& shares_options(build, opts)
    &&& build.targets is None
    &&& build.base_quantization == BaseQuantization::Unquantized
    &&& !build.weight_plan.sharded()
    &&& build.memory_efficient_cached_gqa == opts.memory_efficient_cached_gqa
}

/// Whether settings are those of a Gemma 4 policy: every projection is adapted, and a rank of a
/// sharded world loads its own part of the weights.
pub open spec fn builds_gemma4(build: PolicyBuild, opts: LoaderOpts) -> bool {
    &&& shares_options(build, opts)
    &&& build.targets matches Some(targets) && targets.attn_q && targets.attn_k && targets.attn_v
        && targets.attn_o && targets.mlp_gate && targets.mlp_up && targets.mlp_down
    &&& build.base_quantization == opts.base_quantization
    &&& build.weight_plan == opts.tensor_parallel
    &&& !build.memory_efficient_cached_gqa
}

/// The settings of a Qwen 3 policy.
pub fn build_qwen_policy(opts: &LoaderOpts) -> (build: PolicyBuild)
    ensures
        builds_qwen(build, *opts),
{
    let targets = DenseLoraTargets::legacy();
    proof {
        reveal_strlit("q");
        let attn = DenseLoraTargets::letter(true, "q"@) + DenseLoraTargets::letter(false, "k"@)
            + DenseLoraTargets::letter(true, "v"@) + DenseLoraTargets::letter(false, "o"@);
        assert(attn =~= "q"@ + "v"@);
        let mlp = DenseLoraTargets::letter(false, "g"@) + DenseLoraTargets::letter(false, "u"@)
            + DenseLoraTargets::letter(false, "d"@);
        assert(mlp.len() == 0);
    }
    PolicyBuild {
        base_dtype: opts.base_dtype,
        lora_rank: opts.lora_rank,
        lora_alpha: opts.lora_alpha,
        adapter_dtype: opts.adapter_dtype,
        targets: Some(targets),
        base_quantization: opts.base_quantization,
        weight_plan: TensorParallelPlan::single(),
        memory_efficient_cached_gqa: false,
        activation_checkpointing: opts.activation_checkpointing,
        seed: opts.seed,
        temperature: opts.temperature,
    }
}

/// The settings of a Qwen 3.5 policy.
pub fn build_qwen35_policy(opts: &LoaderOpts) -> (build: PolicyBuild)
    ensures
        builds_qwen35(build, *opts),
{
    PolicyBuild {
        base_dtype: opts.base_dtype,
        lora_rank: opts.lora_rank,
        lora_alpha: opts.lora_alpha,
        adapter_dtype: opts.adapter_dtype,
        targets: None,
        base_quantization: BaseQuantization::Unquantized,
        weight_plan: TensorParallelPlan::single(),
        memory_efficient_cached_gqa: opts.memory_efficient_cached_gqa,
        activation_checkpointing: opts.activation_checkpointing,
        seed: opts.seed,
        temperature: opts.temperature,
    }
}

/// The settings of a Gemma 4 policy.
pub fn build_gemma4_policy(opts: &LoaderOpts) -> (build: PolicyBuild)
    ensures
        builds_gemma4(build, *opts),
{
    PolicyBuild {
        base_dtype: opts.base_dtype,
        lora_rank: opts.lora_rank,
        lora_alpha: opts.lora_alpha,
        adapter_dtype: opts.adapter_dtype,
        targets: Some(DenseLoraTargets::industrial()),
        base_quantization: opts.base_quantization,
        weight_plan: opts.tensor_parallel,
        memory_efficient_cached_gqa: false,
        activation_checkpointing: opts.activation_checkpointing,
        seed: opts.seed,
        temperature: opts.temperature,
    }
}

/// The control state of a policy of one of the families.
#[derive(Debug)]
pub enum AutoPolicy {
    /// Qwen 3, by whether it checkpoints activations.
    Qwen(bool),
    /// Qwen 3.5, by whether it checkpoints activations.
    Qwen3_5(bool),
    /// Gemma 4.
    Gemma4(Gemma4GradModel),
}

impl AutoPolicy {
    /// Whether the policy checkpoints activations.
    pub open spec fn checkpoints(self) -> bool {
        match self {
            AutoPolicy::Qwen(on) => on,
            AutoPolicy::Qwen3_5(on) => on,
            AutoPolicy::Gemma4(model) => model.remat,
        }
    }

    /// Turns activation checkpointing on or off.
    pub fn set_activation_checkpointing(&mut self, on: bool)
        ensures
            final(self).checkpoints() == on,
            match *old(self) {
                AutoPolicy::Qwen(_) => *final(self) == AutoPolicy::Qwen(on),
                AutoPolicy::Qwen3_5(_) => *final(self) == AutoPolicy::Qwen3_5(on),
                AutoPolicy::Gemma4(model) => *final(self) == AutoPolicy::Gemma4(
                    (Gemma4GradModel {
                        remat: on,
                        tape: if on {
                            model.tape
                        } else {
                            None
                        },
                        ..model
                    }),
                ),
            },
    {
        match self {
            AutoPolicy::Qwen(checkpointing) => {
                *checkpointing = on;
            },
            AutoPolicy::Qwen3_5(checkpointing) => {
                *checkpointing = on;
            },
            AutoPolicy::Gemma4(model) => {
                model.set_activation_checkpointing(on);
            },
        }
    }

    /// Whether the policy checkpoints activations.
    pub fn activation_checkpointing(&self) -> (on: bool)
        ensures
            on == self.checkpoints(),
    {
        match self {
            AutoPolicy::Qwen(on) => *on,
            AutoPolicy::Qwen3_5(on) => *on,
            AutoPolicy::Gemma4(model) => model.activation_checkpointing(),
        }
    }

    /// Whether the family runs tensor-parallel.
    pub fn supports_tensor_parallel(&self) -> (supported: bool)
        ensures
            supported == !(self is Qwen3_5),
    {
        match self {
            AutoPolicy::Qwen(_) => true,
            AutoPolicy::Gemma4(_) => true,
            AutoPolicy::Qwen3_5(_) => false,
        }
    }

    /// Whether the family checkpoints activations tensor-parallel.
    pub fn model_family_supports_tensor_parallel_activation_checkpointing(&self) -> (supported: bool)
        ensures
            supported == (self is Gemma4),
    {
        match self {
            AutoPolicy::Gemma4(_) => true,
            _ => false,
        }
    }
}

/// What is done with a config by the name that it declares: one without a name, and `qwen3`, is
/// captured for Qwen 3 once its rules accept it; the names of the other families lead to their own
/// configs, for Qwen 3.5 unless weights are quantized or sharded; every other name is refused.
pub proof fn law_configs_go_to_their_family(
    document: crate::json::JsonTree,
    qwen3_accepted: bool,
    path: Seq<char>,
    opts: LoaderOpts,
    step: AutoStep,
)
    requires
        auto_step(Some(document), qwen3_accepted, path, opts, step),
    ensures
        ({
            let declared = document.field("model_type"@);
            let named = declared is Some && declared->0 is Text;
            let name = declared->0->Text_0;
            let qwen3 = declared is None || (named && name == "qwen3"@);
            let qwen35 = named && (name == "qwen3_5"@ || name == "qwen3_5_moe"@);
            let gemma4 = named && (name == "gemma4"@ || name == "gemma4_unified"@);
            &&& step is CaptureQwen <==> qwen3 && qwen3_accepted
                && !opts.memory_efficient_cached_gqa
            &&& step == AutoStep::ReadQwen35Config <==> qwen35 && opts.base_quantization
                == BaseQuantization::Unquantized && opts.tensor_parallel.of_world() <= 1
            &&& step == AutoStep::ReadGemma4Config <==> gemma4
            &&& declared is Some && !qwen3 && !qwen35 && !gemma4 ==> (step matches AutoStep::Refused(
                LoaderError::UnsupportedModelType { model_type },
            ) && (named ==> model_type is Some && model_type->0@ == name) && (!named
                ==> model_type is None))
            &&& step matches AutoStep::CaptureQwen(family) ==> (family is None
                <==> declared is None) && (family is Some ==> family->0 is Qwen3)
        }),
{
    let declared = document.field("model_type"@);
    if let Some(crate::json::JsonTree::Text(name)) = declared {
        super::options::law_families_go_by_their_names(document, name);
    }
    super::options::law_families_go_by_their_names(document, "qwen3"@);
}

/// What a policy is built with, per family: everything that the options say, but that only Qwen 3.5
/// takes the cached-attention option, only Gemma 4 loads rank-local weights, and Qwen 3.5 never
/// quantizes.
pub proof fn law_builds_take_the_options(build: PolicyBuild, opts: LoaderOpts)
    ensures
        builds_qwen(build, opts) || builds_qwen35(build, opts) || builds_gemma4(build, opts) ==> {
            &&& build.base_dtype == opts.base_dtype
            &&& build.lora_rank == opts.lora_rank
            &&& build.lora_alpha == opts.lora_alpha
            &&& build.adapter_dtype == opts.adapter_dtype
            &&& build.activation_checkpointing == opts.activation_checkpointing
            &&& build.seed == opts.seed
            &&& build.temperature == opts.temperature
        },
        builds_qwen(build, opts) ==> build.targets is Some && build.base_quantization
            == opts.base_quantization && build.weight_plan.of_world() <= 1
            && !build.memory_efficient_cached_gqa,
        builds_qwen35(build, opts) ==> build.targets is None && build.base_quantization
            == BaseQuantization::Unquantized && build.weight_plan.of_world() <= 1
            && build.memory_efficient_cached_gqa == opts.memory_efficient_cached_gqa,
        builds_gemma4(build, opts) ==> build.targets is Some && build.base_quantization
            == opts.base_quantization && build.weight_plan == opts.tensor_parallel
            && !build.memory_efficient_cached_gqa,
{
}

/// The rules of Gemma 4 refuse a config for what is wrong with it, and options only of a config that
/// is supported.
pub proof fn law_gemma4_refusals(config: Gemma4Config, opts: LoaderOpts, error: LoaderError)
    requires
        gemma4_refusal(config, opts, error),
    ensures
        config.fault() is Some <==> error is Gemma4,
        error matches LoaderError::Gemma4(fault) ==> config.fault() == Some(fault),
        !(error is Gemma4) ==> opts.memory_efficient_cached_gqa && error.text(Seq::empty())
            == "loader option "@ + "policy.memory_efficient_cached_gqa"@
            + " is only supported for "@ + "qwen3_5"@ + "; checkpoint model is "@ + (
        if config.model_type is Some {
            config.model_type->0@
        } else {
            "gemma4"@
        }),
{
    config.lemma_fault_is_complete();
}

} // verus!
