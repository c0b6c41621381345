//! What a caller asks of a policy loader, and what each model family can do of it.
use crate::binary64::{Real64, ONE_BITS};
use crate::dtype::DType;
use crate::gemma4::config::{Gemma4Config, Gemma4ConfigFault};
use crate::json::{parse_json, Json, JsonTree};
use crate::lora::BaseQuantization;
use crate::tensor_file::TensorFileFault;
use crate::tensor_parallel::TensorParallelPlan;
use crate::text::{debug_quoted, same_text};
use vstd::prelude::*;

verus! {

/// What a caller asks of a loader.
#[derive(Debug, Clone, Copy, PartialEq, Eq, Structural)]
pub struct LoaderOpts {
    /// The rank of the adapters.
    pub lora_rank: usize,
    /// The scale of the adapters.
    pub lora_alpha: Real64,
    /// The element type of the frozen base.
    pub base_dtype: DType,
    /// The element type of the adapters.
    pub adapter_dtype: DType,
    /// The seed of the sampler.
    pub seed: u64,
    /// The temperature of the sampler.
    pub temperature: Real64,
    /// Whether cached attention avoids repeating keys and values.
    pub memory_efficient_cached_gqa: bool,
    /// How the frozen base is stored.
    pub base_quantization: BaseQuantization,
    /// Whether the model checkpoints activations.
    pub activation_checkpointing: bool,
    /// The tensor-parallel plan.
    pub tensor_parallel: TensorParallelPlan,
}

/// The bit pattern of `32.0`.
pub const DEFAULT_ALPHA_BITS: u64 = 0x4040_0000_0000_0000;

impl Default for LoaderOpts {
    fn default() -> (opts: Self)
        ensures
            opts.lora_rank == 16,
            opts.lora_alpha.bits == DEFAULT_ALPHA_BITS,
            opts.base_dtype == DType::F32,
            opts.adapter_dtype == DType::F32,
            opts.seed == 1234,
            opts.temperature.bits == ONE_BITS,
            !opts.memory_efficient_cached_gqa,
            opts.base_quantization == BaseQuantization::Unquantized,
            !opts.activation_checkpointing,
            opts.tensor_parallel.at_rank() == 0,
            opts.tensor_parallel.of_world() == 1,
            opts.tensor_parallel.wf(),
    {
        LoaderOpts {
            lora_rank: 16,
            lora_alpha: Real64 { bits: DEFAULT_ALPHA_BITS },
            base_dtype: DType::F32,
            adapter_dtype: DType::F32,
            seed: 1234,
            temperature: Real64 { bits: ONE_BITS },
            memory_efficient_cached_gqa: false,
            base_quantization: BaseQuantization::Unquantized,
            activation_checkpointing: false,
            tensor_parallel: TensorParallelPlan::single(),
        }
    }
}

/// Why a checkpoint source is refused.
#[derive(Debug)]
pub enum SourceFault {
    /// The path is not of a regular file.
    NotRegular,
    /// The path was another file when it was opened.
    ChangedWhileOpening,
    /// The file had another length when it was read.
    ChangedLength,
    /// A single Gemma file has no tensor of the text decoder.
    NoTextTensors,
    /// An index has no tensor that the loader selects.
    NothingSelected,
    /// A shard of an index is not a file next to it.
    UnsafeShardName(String),
}

/// Why a policy does not load.
#[derive(Debug)]
#[non_exhaustive]
pub enum LoaderError {
    /// A checkpoint source is refused.
    Source { path: String, fault: SourceFault },
    /// A file is not the JSON that it should be.
    Config { path: String, source: serde_json::Error },
    /// A Gemma config is not supported.
    Gemma4(Gemma4ConfigFault),
    /// The tensors of a file cannot be listed.
    Tensors(TensorFileFault),
    /// A captured checkpoint has no file to load.
    NoShard,
    /// The model family is not supported.
    UnsupportedModelType { model_type: Option<String> },
    /// The model family cannot do what was asked.
    UnsupportedLoaderOption { option: String, supported: String, model_type: String },
}

/// The model family that a config declares.
#[derive(Debug)]
pub enum ModelType {
    Qwen3,
    Qwen3_5,
    Gemma4,
    /// Another family, under its name where that is text.
    Unsupported(Option<String>),
}

/// The model family that a name stands for, as far as a loader knows it.
pub enum Family {
    Qwen3,
    Qwen3_5,
    Gemma4,
    Unsupported(Option<Seq<char>>),
}

impl View for ModelType {
    type V = Family;

    open spec fn view(&self) -> Family {
        match *self {
            ModelType::Qwen3 => Family::Qwen3,
            ModelType::Qwen3_5 => Family::Qwen3_5,
            ModelType::Gemma4 => Family::Gemma4,
            ModelType::Unsupported(None) => Family::Unsupported(None),
            ModelType::Unsupported(Some(name)) => Family::Unsupported(Some(name@)),
        }
    }
}

/// The model family of a name.
pub open spec fn family_of(name: Seq<char>) -> Family {
    if name == "qwen3"@ {
        Family::Qwen3
    } else if name == "qwen3_5"@ || name == "qwen3_5_moe"@ {
        Family::Qwen3_5
    } else if name == "gemma4"@ || name == "gemma4_unified"@ {
        Family::Gemma4
    } else {
        Family::Unsupported(Some(name))
    }
}

/// The model family that a config document declares, if it declares one.
pub open spec fn declared_family(document: JsonTree) -> Option<Family> {
    match document.field("model_type"@) {
        None => None,
        Some(JsonTree::Text(name)) => Some(family_of(name)),
        Some(_) => Some(Family::Unsupported(None)),
    }
}

/// What an optional model type says.
pub open spec fn optional_family(model_type: Option<ModelType>) -> Option<Family> {
    match model_type {
        Some(model_type) => Some(model_type@),
        None => None,
    }
}

/// Reads the model family that a config document declares.
pub fn model_type_from_json(json: &Json) -> (model_type: Option<ModelType>)
    ensures
        optional_family(model_type) == declared_family(json@),
{
    match json.get("model_type") {
        None => None,
        Some(Json::Text(name)) => Some(
            if same_text(name, "qwen3") {
                ModelType::Qwen3
            } else if same_text(name, "qwen3_5") || same_text(name, "qwen3_5_moe") {
                ModelType::Qwen3_5
            } else if same_text(name, "gemma4") || same_text(name, "gemma4_unified") {
                ModelType::Gemma4
            } else {
                ModelType::Unsupported(Some(name.clone()))
            },
        ),
        Some(_) => Some(ModelType::Unsupported(None)),
    }
}

/// Reads the model family that the config at `path`, of the given bytes, declares.
pub fn model_type_from_bytes(bytes: &[u8], path: &str) -> (model_type: Result<
    Option<ModelType>,
    LoaderError,
>)
    ensures
        match model_type {
            Ok(model_type) => crate::json::json_document(bytes@) is Some && optional_family(
                model_type,
            ) == declared_family(crate::json::json_document(bytes@)->0),
            Err(LoaderError::Config { path: named, .. }) => named@ == path@
                && crate::json::json_document(bytes@) is None,
            Err(_) => false,
        },
{
    match parse_json(bytes) {
        Ok(json) => Ok(model_type_from_json(&json)),
        Err(source) => Err(LoaderError::Config { path: path.to_owned(), source }),
    }
}

/// Whether an error refuses an option, under the given texts.
pub open spec fn refuses_option(
    error: LoaderError,
    option: Seq<char>,
    supported: Seq<char>,
    model_type: Seq<char>,
) -> bool {
    error matches LoaderError::UnsupportedLoaderOption {
        option: named,
        supported: alternatives,
        model_type: family,
    } && named@ == option && alternatives@ == supported && family@ == model_type
}

/// Refuses what Qwen 3 cannot do.
pub fn validate_qwen3_loader_options(opts: &LoaderOpts) -> (verdict: Result<(), LoaderError>)
    ensures
        match verdict {
            Ok(()) => !opts.memory_efficient_cached_gqa,
            Err(error) => opts.memory_efficient_cached_gqa && refuses_option(
                error,
                "policy.memory_efficient_cached_gqa"@,
                "qwen3_5"@,
                "qwen3"@,
            ),
        },
{
    if opts.memory_efficient_cached_gqa {
        return Err(
            LoaderError::UnsupportedLoaderOption {
                option: "policy.memory_efficient_cached_gqa".to_owned(),
                supported: "qwen3_5".to_owned(),
                model_type: "qwen3".to_owned(),
            },
        );
    }
    Ok(())
}

/// What a family without sharded execution says of it.
pub open spec fn unsharded_text(model_type: Seq<char>) -> Seq<char> {
    "sharded tensor_parallel execution is not supported for "@ + model_type
        + "; use Qwen3 or dense Gemma 4, or set tensor_parallel.world_size = 1"@
}

/// Refuses sharded execution for a family that has none.
pub fn reject_unsupported_sharded_tensor_parallel(opts: &LoaderOpts, model_type: &str) -> (verdict:
    Result<(), LoaderError>)
    ensures
        match verdict {
            Ok(()) => !opts.tensor_parallel.sharded(),
            Err(error) => opts.tensor_parallel.sharded() && refuses_option(
                error,
                "tensor_parallel"@,
                unsharded_text(model_type@),
                model_type@,
            ),
        },
{
    if opts.tensor_parallel.is_sharded() {
        let mut supported = String::from_str(
            "sharded tensor_parallel execution is not supported for ",
        );
        supported.append(model_type);
        supported.append("; use Qwen3 or dense Gemma 4, or set tensor_parallel.world_size = 1");
        return Err(
            LoaderError::UnsupportedLoaderOption {
                option: "tensor_parallel".to_owned(),
                supported,
                model_type: model_type.to_owned(),
            },
        );
    }
    Ok(())
}

/// Refuses what Qwen 3.5 cannot do.
pub fn validate_qwen35_loader_options(opts: &LoaderOpts) -> (verdict: Result<(), LoaderError>)
    ensures
        match verdict {
            Ok(()) => opts.base_quantization == BaseQuantization::Unquantized
                && !opts.tensor_parallel.sharded(),
            Err(error) => if opts.base_quantization != BaseQuantization::Unquantized {
                refuses_option(
                    error,
                    "policy.base_quantization"@,
                    "qwen3 or gemma4"@,
                    "qwen3_5"@,
                )
            } else {
                opts.tensor_parallel.sharded() && refuses_option(
                    error,
                    "tensor_parallel"@,
                    unsharded_text("qwen3_5"@),
                    "qwen3_5"@,
                )
            },
        },
{
    if opts.base_quantization != BaseQuantization::Unquantized {
        return Err(
            LoaderError::UnsupportedLoaderOption {
                option: "policy.base_quantization".to_owned(),
                supported: "qwen3 or gemma4".to_owned(),
                model_type: "qwen3_5".to_owned(),
            },
        );
    }
    reject_unsupported_sharded_tensor_parallel(opts, "qwen3_5")
}

/// Refuses what Gemma 4 cannot do.
pub fn validate_gemma4_loader_options(opts: &LoaderOpts, config: &Gemma4Config) -> (verdict: Result<
    (),
    LoaderError,
>)
    ensures
        match verdict {
            Ok(()) => !opts.memory_efficient_cached_gqa,
            Err(error) => opts.memory_efficient_cached_gqa && refuses_option(
                error,
                "policy.memory_efficient_cached_gqa"@,
                "qwen3_5"@,
                match config.model_type {
                    Some(model_type) => model_type@,
                    None => "gemma4"@,
                },
            ),
        },
{
    if opts.memory_efficient_cached_gqa {
        let model_type = match &config.model_type {
            Some(model_type) => model_type.clone(),
            None => "gemma4".to_owned(),
        };
        return Err(
            LoaderError::UnsupportedLoaderOption {
                option: "policy.memory_efficient_cached_gqa".to_owned(),
                supported: "qwen3_5".to_owned(),
                model_type,
            },
        );
    }
    Ok(())
}

impl SourceFault {
    /// What the fault says.
    pub open spec fn text(self) -> Seq<char> {
        match self {
            SourceFault::NotRegular => "checkpoint source is not a regular file"@,
            SourceFault::ChangedWhileOpening => "checkpoint source changed while it was being opened"@,
            SourceFault::ChangedLength => "checkpoint source changed length while being captured"@,
            SourceFault::NoTextTensors => "single-file Gemma checkpoint has no selected text tensors"@,
            SourceFault::NothingSelected => "safetensors index has no tensors selected by this model loader"@,
            SourceFault::UnsafeShardName(name) => "unsafe safetensors shard name "@ + crate::text::debug_text(name@),
        }
    }

    /// What the fault says.
    pub fn message(&self) -> (text: String)
        ensures
            text@ == self.text(),
    {
        match self {
            SourceFault::NotRegular => String::from_str("checkpoint source is not a regular file"),
            SourceFault::ChangedWhileOpening => String::from_str("checkpoint source changed while it was being opened"),
            SourceFault::ChangedLength => String::from_str("checkpoint source changed length while being captured"),
            SourceFault::NoTextTensors => String::from_str("single-file Gemma checkpoint has no selected text tensors"),
            SourceFault::NothingSelected => String::from_str("safetensors index has no tensors selected by this model loader"),
            SourceFault::UnsafeShardName(name) => {
                let mut text = String::from_str("unsafe safetensors shard name ");
                text.append(&debug_quoted(name));
                text
            },
        }
    }
}

impl LoaderError {
    /// What the error says, given what its source or the number of a config fault says.
    pub open spec fn text(self, shown: Seq<char>) -> Seq<char> {
        match self {
            LoaderError::Source { path, fault } => "read "@ + path@ + ": "@ + fault.text(),
            LoaderError::Config { path, .. } => "parse "@ + path@ + ": "@ + shown,
            LoaderError::Gemma4(fault) => "build model: "@ + fault.text(shown),
            LoaderError::Tensors(_) => "build model: "@ + shown,
            LoaderError::NoShard => "build model: captured checkpoint has no shard"@,
            LoaderError::UnsupportedModelType { model_type: None } => "unsupported model_type None; recognized values are \"qwen3\", \"qwen3_5\", \"qwen3_5_moe\", \"gemma4\", and \"gemma4_unified\""@,
            LoaderError::UnsupportedModelType { model_type: Some(name) } => "unsupported model_type Some("@ + crate::text::debug_text(name@) + "); recognized values are \"qwen3\", \"qwen3_5\", \"qwen3_5_moe\", \"gemma4\", and \"gemma4_unified\""@,
            LoaderError::UnsupportedLoaderOption { option, supported, model_type } => "loader option "@ + option@ + " is only supported for "@ + supported@ + "; checkpoint model is "@ + model_type@,
        }
    }

    /// What the error says. `shown` is what the source of a parse or tensor failure says, or the
    /// text that a config fault needs; other errors ignore it.
    pub fn message(&self, shown: &str) -> (text: String)
        ensures
            text@ == self.text(shown@),
    {
        match self {
            LoaderError::Source { path, fault } => {
                let mut text = String::from_str("read ");
                text.append(path);
                text.append(": ");
                text.append(&fault.message());
                text
            },
            LoaderError::Config { path, .. } => {
                let mut text = String::from_str("parse ");
                text.append(path);
                text.append(": ");
                text.append(shown);
                text
            },
            LoaderError::Gemma4(fault) => {
                let mut text = String::from_str("build model: ");
                text.append(&fault.message(shown));
                text
            },
            LoaderError::NoShard => String::from_str("build model: captured checkpoint has no shard"),
            LoaderError::Tensors(_) => {
                let mut text = String::from_str("build model: ");
                text.append(shown);
                text
            },
            LoaderError::UnsupportedModelType { model_type: None } => String::from_str("unsupported model_type None; recognized values are \"qwen3\", \"qwen3_5\", \"qwen3_5_moe\", \"gemma4\", and \"gemma4_unified\""),
            LoaderError::UnsupportedModelType { model_type: Some(name) } => {
                let mut text = String::from_str("unsupported model_type Some(");
                text.append(&debug_quoted(name));
                text.append("); recognized values are \"qwen3\", \"qwen3_5\", \"qwen3_5_moe\", \"gemma4\", and \"gemma4_unified\"");
                text
            },
            LoaderError::UnsupportedLoaderOption { option, supported, model_type } => {
                let mut text = String::from_str("loader option ");
                text.append(option);
                text.append(" is only supported for ");
                text.append(supported);
                text.append("; checkpoint model is ");
                text.append(model_type);
                text
            },
        }
    }
}

/// Which names stand for which family, and that a config is read by its top-level `model_type`
/// alone.
pub proof fn law_families_go_by_their_names(document: JsonTree, name: Seq<char>)
    ensures
        family_of(name) is Qwen3 <==> name == "qwen3"@,
        family_of(name) is Qwen3_5 <==> name == "qwen3_5"@ || name == "qwen3_5_moe"@,
        family_of(name) is Gemma4 <==> name == "gemma4"@ || name == "gemma4_unified"@,
        family_of(name) matches Family::Unsupported(kept) ==> kept == Some(name),
        declared_family(document) is None <==> document.field("model_type"@) is None,
        document.field("model_type"@) == Some(JsonTree::Text(name)) ==> declared_family(document)
            == Some(family_of(name)),
        document.field("model_type"@) is Some && !(document.field("model_type"@)->0 is Text)
            ==> declared_family(document) == Some(Family::Unsupported(None)),
{
    reveal_strlit("qwen3");
    reveal_strlit("qwen3_5");
    reveal_strlit("qwen3_5_moe");
    reveal_strlit("gemma4");
    reveal_strlit("gemma4_unified");
    assert("qwen3"@.len() == 5 && "qwen3_5"@.len() == 7 && "qwen3_5_moe"@.len() == 11);
    assert("gemma4"@.len() == 6 && "gemma4_unified"@.len() == 14);
}

/// What each fault says, word for word.
pub proof fn law_words_of_source_fault(fault: SourceFault)
    ensures
        fault == SourceFault::NotRegular ==> fault.text() == ("checkpoint source is not a regular file"@),
        fault == SourceFault::ChangedWhileOpening ==> fault.text() == ("checkpoint source changed while it was being opened"@),
        fault == SourceFault::ChangedLength ==> fault.text() == ("checkpoint source changed length while being captured"@),
        fault == SourceFault::NoTextTensors ==> fault.text() == ("single-file Gemma checkpoint has no selected text tensors"@),
        fault == SourceFault::NothingSelected ==> fault.text() == ("safetensors index has no tensors selected by this model loader"@),
        fault matches SourceFault::UnsafeShardName(name) ==> fault.text() == ("unsafe safetensors shard name "@ + crate::text::debug_text(name@)),
{
}

/// What each error says, word for word, around what it quotes.
pub proof fn law_words_of_loader_error(error: LoaderError, shown: Seq<char>)
    ensures
        error matches LoaderError::Source { path, fault } ==> error.text(shown) == ("read "@ + path@ + ": "@ + fault.text()),
        error matches LoaderError::Config { path, .. } ==> error.text(shown) == ("parse "@ + path@ + ": "@ + shown),
        error matches LoaderError::Gemma4(fault) ==> error.text(shown) == ("build model: "@ + fault.text(shown)),
        error matches LoaderError::Tensors(_) ==> error.text(shown) == ("build model: "@ + shown),
        error == LoaderError::NoShard ==> error.text(shown) == ("build model: captured checkpoint has no shard"@),
        error matches LoaderError::UnsupportedModelType { model_type: None } ==> error.text(shown) == ("unsupported model_type None; recognized values are \"qwen3\", \"qwen3_5\", \"qwen3_5_moe\", \"gemma4\", and \"gemma4_unified\""@),
        error matches LoaderError::UnsupportedModelType { model_type: Some(name) } ==> error.text(shown) == ("unsupported model_type Some("@ + crate::text::debug_text(name@) + "); recognized values are \"qwen3\", \"qwen3_5\", \"qwen3_5_moe\", \"gemma4\", and \"gemma4_unified\""@),
        error matches LoaderError::UnsupportedLoaderOption { option, supported, model_type } ==> error.text(shown) == ("loader option "@ + option@ + " is only supported for "@ + supported@ + "; checkpoint model is "@ + model_type@),
{
}

/// A refusal of an option names the option, what supports it, and the family at hand.
pub proof fn law_refused_options_are_named(
    error: LoaderError,
    option: Seq<char>,
    supported: Seq<char>,
    model_type: Seq<char>,
)
    requires
        refuses_option(error, option, supported, model_type),
    ensures
        error.text(Seq::empty()) == "loader option "@ + option + " is only supported for "@
            + supported + "; checkpoint model is "@ + model_type,
        unsharded_text(model_type) == "sharded tensor_parallel execution is not supported for "@
            + model_type
            + "; use Qwen3 or dense Gemma 4, or set tensor_parallel.world_size = 1"@,
{
}

} // verus!
