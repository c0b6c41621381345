//! Binding a policy to the identity of what it is loaded from: an identity is taken of captured
//! files or of retained handles, and the load consumes these and no others.
use super::identity::{checkpoint_policy_digest, ShardIdentity};
use super::options::{validate_qwen35_loader_options, validate_qwen3_loader_options};
use super::options::{LoaderError, LoaderOpts};
use super::policy::{
    build_gemma4_policy, build_qwen35_policy, build_qwen_policy, check_gemma4,
    validate_qwen3_config_bytes, PolicyBuild,
};
use super::source::{CapturedPolicySource, CapturedShard};
use crate::gemma4::checkpoint::is_gemma4_text_tensor;
use crate::gemma4::config::Gemma4Config;
use vstd::prelude::*;

verus! {

/// A captured checkpoint with its identity. Neither changes without the other.
#[derive(Debug)]
pub struct BoundSource {
    source: CapturedPolicySource,
    identity: String,
}

impl BoundSource {
    /// What was captured.
    pub closed spec fn captured(self) -> CapturedPolicySource {
        self.source
    }

    /// The identity.
    pub closed spec fn text(self) -> Seq<char> {
        self.identity@
    }

    /// Whether the identity is that of what was captured, under some options.
    pub open spec fn bound_to(self, opts: LoaderOpts, layout: Seq<char>) -> bool {
        self.text() == super::identity::identity_text(
            opts,
            layout,
            self.captured().config_bytes@,
            super::identity::map_views(self.captured().weight_map@),
            super::source::shard_identities(self.captured().shards@),
        )
    }

    /// The bytes of the captured config.
    pub fn config_bytes(&self) -> (bytes: &Vec<u8>)
        ensures
            *bytes == self.captured().config_bytes,
    {
        &self.source.config_bytes
    }

    /// The identity.
    pub fn identity(&self) -> (identity: &str)
        ensures
            identity@ == self.text(),
    {
        self.identity.as_str()
    }
}

impl CapturedPolicySource {
    /// Binds a captured checkpoint to its identity under the given options.
    pub fn bind(self, opts: &LoaderOpts, layout: &str) -> (bound: Result<BoundSource, LoaderError>)
        ensures
            bound matches Ok(bound) && bound.captured() == self && bound.bound_to(*opts, layout@)
                && super::identity::is_digest_text(bound.text()),
            crate::json::reads_back(
                super::identity::encoded_recipe(*opts, layout@),
                super::identity::recipe_fields(*opts, layout@),
            ),
    {
        match self.digest(opts, layout) {
            Ok(identity) => Ok(BoundSource { source: self, identity }),
            Err(error) => Err(error),
        }
    }
}

/// What handles to a checkpoint's files were retained for, with their identity. Neither changes
/// without the other.
#[derive(Debug)]
pub struct BoundStream {
    config_bytes: Vec<u8>,
    weight_map: Vec<(String, String)>,
    shards: Vec<ShardIdentity>,
    identity: String,
}

impl BoundStream {
    /// The bytes of the config.
    pub closed spec fn config(self) -> Seq<u8> {
        self.config_bytes@
    }

    /// Which shard each selected tensor is in.
    pub closed spec fn map(self) -> Seq<(Seq<char>, Seq<char>)> {
        super::identity::map_views(self.weight_map@)
    }

    /// The files that handles were retained to.
    pub closed spec fn files(self) -> Seq<super::identity::ShardView> {
        super::identity::shard_views(self.shards@)
    }

    /// The identity.
    pub closed spec fn text(self) -> Seq<char> {
        self.identity@
    }

    /// Whether the identity is that of what the handles were retained for, under some options.
    pub open spec fn bound_to(self, opts: LoaderOpts, layout: Seq<char>) -> bool {
        self.text() == super::identity::identity_text(
            opts,
            layout,
            self.config(),
            self.map(),
            self.files(),
        )
    }

    /// Binds a config, and the files that the reader of rank-local weights retains handles to, to
    /// their identity under the given options.
    pub fn bind(
        config_bytes: Vec<u8>,
        weight_map: Vec<(String, String)>,
        shards: Vec<ShardIdentity>,
        opts: &LoaderOpts,
        layout: &str,
    ) -> (bound: Result<Self, LoaderError>)
        ensures
            bound matches Ok(bound) && bound.config() == config_bytes@ && bound.map()
                == super::identity::map_views(weight_map@) && bound.files()
                == super::identity::shard_views(shards@) && bound.bound_to(*opts, layout@)
                && super::identity::is_digest_text(bound.text()),
    {
        match checkpoint_policy_digest(&config_bytes, &weight_map, &shards, opts, layout) {
            Ok(identity) => Ok(BoundStream { config_bytes, weight_map, shards, identity }),
            Err(error) => Err(error),
        }
    }

    /// The identity.
    pub fn identity(&self) -> (identity: &str)
        ensures
            identity@ == self.text(),
    {
        self.identity.as_str()
    }
}

/// What the weights of a policy are read from.
#[derive(Debug)]
pub enum PolicyWeights {
    /// The bytes of one file.
    Single(Vec<u8>),
    /// The bytes of several files: all of their tensors, or those of the text decoder.
    Files { shards: Vec<CapturedShard>, text_only: bool },
    /// Handles that the reader of rank-local weights retains.
    Streamed,
}

impl PolicyWeights {
    /// Whether a tensor of the files is kept.
    pub open spec fn keeps(self, tensor: Seq<char>) -> bool {
        self matches PolicyWeights::Files { text_only: true, .. }
            ==> crate::gemma4::checkpoint::text_tensor(tensor)
    }

    /// Whether a tensor of the files is kept.
    pub fn is_kept(&self, tensor: &str) -> (kept: bool)
        ensures
            kept == self.keeps(tensor@),
    {
        match self {
            PolicyWeights::Files { text_only: true, .. } => is_gemma4_text_tensor(tensor),
            _ => true,
        }
    }
}

/// All that a policy is built from, and the identity of it.
#[derive(Debug)]
pub struct PolicyLoad {
    pub build: PolicyBuild,
    pub config_bytes: Vec<u8>,
    pub weights: PolicyWeights,
    pub identity: String,
}

impl PolicyLoad {
    /// Whether the load consumes what was captured, under its identity: the config, and the first
    /// file or all of them.
    pub open spec fn consumes(self, bound: BoundSource) -> bool {
        &&& self.config_bytes@ == bound.captured().config_bytes@
        &&& self.identity@ == bound.text()
        &&& match self.weights {
            PolicyWeights::Single(bytes) => bound.captured().shards@.len() > 0 && bytes@
                == bound.captured().shards@[0].bytes@,
            PolicyWeights::Files { shards, .. } => shards@ == bound.captured().shards@,
            PolicyWeights::Streamed => false,
        }
    }
}

/// Loads a Qwen 3 policy from a bound source: its one file is consumed whole. `path` is where the
/// config was read.
pub fn load_qwen_policy_from_source(bound: BoundSource, path: &str, opts: &LoaderOpts) -> (load:
    Result<PolicyLoad, LoaderError>)
    ensures
        ({
            let config = bound.captured().config_bytes@;
            let accepted = super::policy::qwen3_config_accepted(config);
            match load {
                Ok(load) => {
                    &&& accepted
                    &&& !opts.memory_efficient_cached_gqa
                    &&& load.consumes(bound)
                    &&& load.weights is Single
                    &&& super::policy::builds_qwen(load.build, *opts)
                },
                Err(LoaderError::Config { path: named, .. }) => !accepted && named@ == path@,
                Err(LoaderError::NoShard) => accepted && !opts.memory_efficient_cached_gqa
                    && bound.captured().shards@.len() == 0,
                Err(error) => accepted && opts.memory_efficient_cached_gqa
                    && super::options::refuses_option(
                    error,
                    "policy.memory_efficient_cached_gqa"@,
                    "qwen3_5"@,
                    "qwen3"@,
                ),
            }
        }),
{
    if let Err(error) = validate_qwen3_config_bytes(&bound.source.config_bytes, path) {
        return Err(error);
    }
    if let Err(error) = validate_qwen3_loader_options(opts) {
        return Err(error);
    }
    let BoundSource { source, identity } = bound;
    let CapturedPolicySource { config_bytes, weight_map, shards } = source;
    let mut shards = shards;
    if shards.len() == 0 {
        return Err(LoaderError::NoShard);
    }
    let first = shards.remove(0);
    Ok(
        PolicyLoad {
            build: build_qwen_policy(opts),
            config_bytes,
            weights: PolicyWeights::Single(first.bytes),
            identity,
        },
    )
}

/// Loads a Qwen 3.5 policy from a bound source: all tensors of all files are consumed.
pub fn load_qwen35_policy_from_source(bound: BoundSource, opts: &LoaderOpts) -> (load: Result<
    PolicyLoad,
    LoaderError,
>)
    ensures
        match load {
            Ok(load) => {
                &&& opts.base_quantization == crate::lora::BaseQuantization::Unquantized
                &&& !opts.tensor_parallel.sharded()
                &&& load.consumes(bound)
                &&& load.weights matches PolicyWeights::Files { text_only: false, .. }
                &&& super::policy::builds_qwen35(load.build, *opts)
            },
            Err(error) => if opts.base_quantization != crate::lora::BaseQuantization::Unquantized {
                super::options::refuses_option(
                    error,
                    "policy.base_quantization"@,
                    "qwen3 or gemma4"@,
                    "qwen3_5"@,
                )
            } else {
                opts.tensor_parallel.sharded() && super::options::refuses_option(
                    error,
                    "tensor_parallel"@,
                    super::options::unsharded_text("qwen3_5"@),
                    "qwen3_5"@,
                )
            },
        },
{
    if let Err(error) = validate_qwen35_loader_options(opts) {
        return Err(error);
    }
    let BoundSource { source, identity } = bound;
    Ok(
        PolicyLoad {
            build: build_qwen35_policy(opts),
            config_bytes: source.config_bytes,
            weights: PolicyWeights::Files { shards: source.shards, text_only: false },
            identity,
        },
    )
}

/// Loads a Gemma 4 policy from a bound source, given the config that its bytes hold: the tensors
/// of the text decoder are consumed, of all files.
pub fn load_gemma4_policy_from_source(
    bound: BoundSource,
    config: &Gemma4Config,
    opts: &LoaderOpts,
) -> (load: Result<PolicyLoad, LoaderError>)
    ensures
        match load {
            Ok(load) => {
                &&& config.supported()
                &&& !opts.memory_efficient_cached_gqa
                &&& load.consumes(bound)
                &&& load.weights matches PolicyWeights::Files { text_only: true, .. }
                &&& super::policy::builds_gemma4(load.build, *opts)
            },
            Err(error) => super::policy::gemma4_refusal(*config, *opts, error),
        },
{
    if let Err(error) = check_gemma4(config, opts) {
        return Err(error);
    }
    let BoundSource { source, identity } = bound;
    Ok(
        PolicyLoad {
            build: build_gemma4_policy(opts),
            config_bytes: source.config_bytes,
            weights: PolicyWeights::Files { shards: source.shards, text_only: true },
            identity,
        },
    )
}

/// Loads a Gemma 4 policy from retained handles, given the config that the bound bytes hold: what
/// the handles give is consumed.
pub fn load_gemma4_policy_streaming_bound(
    bound: BoundStream,
    config: &Gemma4Config,
    opts: &LoaderOpts,
) -> (load: Result<PolicyLoad, LoaderError>)
    ensures
        match load {
            Ok(load) => {
                &&& config.supported()
                &&& !opts.memory_efficient_cached_gqa
                &&& load.config_bytes@ == bound.config()
                &&& load.identity@ == bound.text()
                &&& load.weights == PolicyWeights::Streamed
                &&& super::policy::builds_gemma4(load.build, *opts)
            },
            Err(error) => super::policy::gemma4_refusal(*config, *opts, error),
        },
{
    if let Err(error) = check_gemma4(config, opts) {
        return Err(error);
    }
    Ok(
        PolicyLoad {
            build: build_gemma4_policy(opts),
            config_bytes: bound.config_bytes,
            weights: PolicyWeights::Streamed,
            identity: bound.identity,
        },
    )
}

/// The identity that a load gives is that of the bytes that it consumes: of its config and its
/// files, or of its config and a list of files of which it consumes the first.
pub proof fn law_a_load_has_the_identity_of_what_it_consumes(
    bound: BoundSource,
    load: PolicyLoad,
    opts: LoaderOpts,
    layout: Seq<char>,
)
    requires
        bound.bound_to(opts, layout),
        load.consumes(bound),
    ensures
        load.weights matches PolicyWeights::Files { shards, .. } ==> load.identity@
            == super::identity::identity_text(
            opts,
            layout,
            load.config_bytes@,
            super::identity::map_views(bound.captured().weight_map@),
            super::source::shard_identities(shards@),
        ),
        load.weights matches PolicyWeights::Single(bytes) ==> {
            let files = super::source::shard_identities(bound.captured().shards@);
            &&& load.identity@ == super::identity::identity_text(
                opts,
                layout,
                load.config_bytes@,
                super::identity::map_views(bound.captured().weight_map@),
                files,
            )
            &&& files.len() > 0
            &&& files[0].digest == crate::sha256::sha256(bytes@)
            &&& files[0].len == bytes@.len() as u64
        },
{
    if let PolicyWeights::Single(_) = load.weights {
        let shards = bound.captured().shards@;
        assert(super::source::shard_identities(shards)[0] == super::source::shard_identity(
            shards[0],
        ));
    }
}

/// It does not matter to an identity whether files were captured or handles to them retained.
pub proof fn law_streamed_and_captured_identities_agree(
    captured: BoundSource,
    streamed: BoundStream,
    opts: LoaderOpts,
    layout: Seq<char>,
)
    requires
        captured.bound_to(opts, layout),
        streamed.bound_to(opts, layout),
        streamed.config() == captured.captured().config_bytes@,
        streamed.map() == super::identity::map_views(captured.captured().weight_map@),
        streamed.files() == super::source::shard_identities(captured.captured().shards@),
    ensures
        streamed.text() == captured.text(),
{
}

/// Whether two loads consume the same bytes.
pub open spec fn same_bytes(left: PolicyLoad, right: PolicyLoad) -> bool {
    &&& left.config_bytes@ == right.config_bytes@
    &&& match (left.weights, right.weights) {
        (PolicyWeights::Single(a), PolicyWeights::Single(b)) => a@ == b@,
        (PolicyWeights::Files { shards: a, .. }, PolicyWeights::Files { shards: b, .. }) => {
            &&& a@.len() == b@.len()
            &&& forall|i: int|
                0 <= i < a@.len() ==> (#[trigger] a@[i]).name@ == b@[i].name@ && a@[i].bytes@
                    == b@[i].bytes@
        },
        _ => false,
    }
}

/// Loads of the same identity, by the loader of the same family, consume the same bytes, or a
/// collision of the digest is at hand: of what the identities are taken of, or of the bytes of a
/// file. What lies at a path after the capture plays no part.
pub proof fn law_loads_of_one_identity_consume_the_same_bytes(
    left_bound: BoundSource,
    left: PolicyLoad,
    left_opts: LoaderOpts,
    right_bound: BoundSource,
    right: PolicyLoad,
    right_opts: LoaderOpts,
    layout: Seq<char>,
)
    requires
        left_bound.bound_to(left_opts, layout),
        right_bound.bound_to(right_opts, layout),
        left.consumes(left_bound),
        right.consumes(right_bound),
        left.identity@ == right.identity@,
        left.weights is Single <==> right.weights is Single,
        super::source::shards_fit(left_bound.captured()),
        super::source::shards_fit(right_bound.captured()),
        super::identity::encoded_recipe(left_opts, layout).len() <= u64::MAX,
        super::identity::encoded_recipe(right_opts, layout).len() <= u64::MAX,
        crate::json::reads_back(
            super::identity::encoded_recipe(left_opts, layout),
            super::identity::recipe_fields(left_opts, layout),
        ),
        crate::json::reads_back(
            super::identity::encoded_recipe(right_opts, layout),
            super::identity::recipe_fields(right_opts, layout),
        ),
    ensures
        super::identity::collide(
            left_bound.captured().identity_of(left_opts, layout),
            right_bound.captured().identity_of(right_opts, layout),
        ) || (exists|i: int|
            0 <= i < left_bound.captured().shards@.len() && 0 <= i
                < right_bound.captured().shards@.len() && super::identity::collide(
                (#[trigger] left_bound.captured().shards@[i]).bytes@,
                right_bound.captured().shards@[i].bytes@,
            )) || same_bytes(left, right),
{
    super::source::law_different_sources_have_different_identities(
        left_bound.captured(),
        left_opts,
        right_bound.captured(),
        right_opts,
        layout,
    );
}

/// A load that is of the text decoder alone keeps exactly the tensors under the decoder's prefix;
/// every other load keeps all.
pub proof fn law_kept_tensors_of_a_load(weights: PolicyWeights, tensor: Seq<char>)
    ensures
        weights matches PolicyWeights::Files { text_only: true, .. } ==> (weights.keeps(tensor)
            <==> "model.language_model."@.is_prefix_of(tensor)),
        !(weights matches PolicyWeights::Files { text_only: true, .. }) ==> weights.keeps(tensor),
{
    crate::gemma4::checkpoint::law_text_tensors_start_with_the_prefix(tensor);
}

} // verus!
