//! The control state of the grad-bearing model: how it is laid out, what a forward pass runs and
//! captures, and under which conditions a backward pass may replay what was captured.
use super::adapters::AdapterFault;
use super::config::{Gemma4Config, Gemma4ConfigFault};
use super::layers::{Gemma4Layer, TrainableVar, UnevenAxis};
use crate::binary64::Real64;
use crate::lora::{BaseQuantization, DenseLoraTargets};
use crate::tensor_parallel::{coordinate_local_call, Coordination, StageReport, TensorParallelPlan};
use crate::text::decimal;
use crate::votes::is_unanimous;
use vstd::prelude::*;

verus! {

/// Which execution captured a tape.
#[derive(Debug, Clone, Copy, PartialEq, Eq, Structural)]
pub enum Gemma4RematExecution {
    Ordinary,
    TensorParallel(TensorParallelPlan),
}

/// What a checkpointed forward pass captured: the boundaries between the segments that the
/// backward pass recomputes.
#[derive(Debug, Clone, Copy, PartialEq, Eq, Structural)]
pub struct Gemma4RematTape {
    /// The number of segments between the captured boundaries.
    pub segments: usize,
    /// The sequence length of the captured boundaries.
    pub seq_len: usize,
    /// Whether the adapters were enabled.
    pub adapter_enabled: bool,
    /// Which execution captured it.
    pub execution: Gemma4RematExecution,
}

/// The control state of a model.
#[derive(Debug)]
pub struct Gemma4GradModel {
    pub layers: Vec<Gemma4Layer>,
    pub hidden: usize,
    pub sliding_window: usize,
    pub base_quantization: BaseQuantization,
    pub weight_plan: TensorParallelPlan,
    pub targets: DenseLoraTargets,
    pub adapter_enabled: bool,
    pub remat: bool,
    pub tape: Option<Gemma4RematTape>,
    /// The replay of a taken tape that the ranks have yet to agree on.
    pub replay: Option<BackwardPlan>,
}

/// Why a model does not load or does not run.
#[derive(Debug)]
pub enum Gemma4ModelFault {
    /// The config is not supported.
    Config(Gemma4ConfigFault),
    /// No projection is adapted.
    NoTargets,
    /// Rank-local weights cannot be quantized.
    ShardedQuantization(BaseQuantization),
    /// Quantized weights cannot run tensor-parallel.
    QuantizedTensorParallel,
    /// The rank-local weights are those of another plan.
    WeightPlan { weights: TensorParallelPlan, execution: TensorParallelPlan },
    /// Rank-local weights cannot run on their own.
    RankLocalWeights,
    /// An axis does not split over the world.
    Uneven(UnevenAxis),
    /// The ranks disagree on activation checkpointing.
    CheckpointingDiffers,
    /// A sharded backward pass needs activation checkpointing.
    NeedsCheckpointing,
    /// There is no tape for an ordinary backward pass.
    NoTape,
    /// The tape was captured by tensor-parallel execution.
    TapeFromTensorParallel,
    /// The tape has another number of segments than the model has layers.
    LayerSegments { segments: usize, layers: usize },
    /// The adapters were toggled between forward and backward.
    AdapterToggled,
    /// There is no tape for a tensor-parallel backward pass.
    NoTensorParallelTape,
    /// The ranks disagree on whether adapters are enabled.
    AdaptersEnabledDiffer,
    /// The adapters are not the same on every rank.
    Adapters(AdapterFault),
    /// The tape was captured by another execution than the live one.
    TapeExecution { captured: Gemma4RematExecution, live: TensorParallelPlan },
    /// The tape has another number of segments than the model has sublayers.
    SublayerSegments { segments: usize, expected: usize, layers: usize },
    /// The adapters were toggled between forward and tensor-parallel backward.
    TensorParallelAdapterToggled,
}

/// A step of a forward pass.
#[derive(Debug, Clone, Copy, PartialEq, Eq, Structural)]
pub enum ForwardStep {
    /// Embed the ids and build the masks.
    Embed,
    /// Capture the activation as a boundary.
    Capture,
    /// Cut the activation off its history.
    Detach,
    /// Run a layer.
    Layer(usize),
    /// Run a layer's attention block.
    Attention(usize),
    /// Run a layer's feed-forward block.
    Mlp(usize),
    /// Norm, output head and softcap.
    Head,
}

/// How a pass treats each layer.
#[derive(Debug, Clone, Copy, PartialEq, Eq, Structural)]
pub enum PassKind {
    /// Keep the whole history.
    Recorded,
    /// Capture a boundary in front of each layer.
    LayerBoundaries,
    /// Capture a boundary in front of each block.
    BlockBoundaries,
    /// Keep no history of the layers.
    Detached,
    /// Keep no history of the layers, nor of the head.
    DetachedOutput,
}

/// The steps that a pass takes for a layer.
pub open spec fn layer_steps(kind: PassKind, layer: usize) -> Seq<ForwardStep> {
    match kind {
        PassKind::Recorded => seq![ForwardStep::Layer(layer)],
        PassKind::LayerBoundaries => seq![ForwardStep::Capture, ForwardStep::Layer(layer)],
        PassKind::BlockBoundaries => seq![
            ForwardStep::Capture,
            ForwardStep::Attention(layer),
            ForwardStep::Capture,
            ForwardStep::Mlp(layer),
        ],
        PassKind::Detached | PassKind::DetachedOutput => seq![
            ForwardStep::Layer(layer),
            ForwardStep::Detach,
        ],
    }
}

/// The steps that a pass takes for the first layers.
pub open spec fn layers_steps(kind: PassKind, count: nat) -> Seq<ForwardStep>
    decreases count,
{
    if count == 0 {
        Seq::empty()
    } else {
        layers_steps(kind, (count - 1) as nat) + layer_steps(kind, (count - 1) as usize)
    }
}

/// The steps that open a pass: a detached one cuts the embedding off.
pub open spec fn opening_steps(kind: PassKind) -> Seq<ForwardStep> {
    match kind {
        PassKind::Detached | PassKind::DetachedOutput => seq![
            ForwardStep::Embed,
            ForwardStep::Detach,
        ],
        _ => seq![ForwardStep::Embed],
    }
}

/// The steps that close a pass: a checkpointed one captures a last boundary in front of the head.
pub open spec fn closing_steps(kind: PassKind) -> Seq<ForwardStep> {
    match kind {
        PassKind::LayerBoundaries | PassKind::BlockBoundaries => seq![
            ForwardStep::Capture,
            ForwardStep::Head,
        ],
        PassKind::DetachedOutput => seq![ForwardStep::Head, ForwardStep::Detach],
        _ => seq![ForwardStep::Head],
    }
}

/// The steps of a pass behind its opening.
pub open spec fn rest_steps(kind: PassKind, layers: nat) -> Seq<ForwardStep> {
    layers_steps(kind, layers) + closing_steps(kind)
}

/// The steps of a pass over all layers.
pub open spec fn pass_steps(kind: PassKind, layers: nat) -> Seq<ForwardStep> {
    opening_steps(kind) + rest_steps(kind, layers)
}

/// The number of captures of a list of steps.
pub open spec fn captures(steps: Seq<ForwardStep>) -> nat
    decreases steps.len(),
{
    if steps.len() == 0 {
        0
    } else {
        captures(steps.drop_last()) + if steps.last() == ForwardStep::Capture {
            1nat
        } else {
            0nat
        }
    }
}

/// Lists the steps that open a pass.
pub fn list_opening(kind: PassKind) -> (steps: Vec<ForwardStep>)
    ensures
        steps@ == opening_steps(kind),
{
    let mut steps: Vec<ForwardStep> = Vec::new();
    steps.push(ForwardStep::Embed);
    if kind == PassKind::Detached || kind == PassKind::DetachedOutput {
        steps.push(ForwardStep::Detach);
    }
    assert(steps@ =~= opening_steps(kind));
    steps
}

/// Appends the steps of a pass behind its opening.
fn push_rest(steps: &mut Vec<ForwardStep>, kind: PassKind, layers: usize)
    ensures
        final(steps)@ == old(steps)@ + rest_steps(kind, layers as nat),
{
    let ghost opening = steps@;
    let mut layer: usize = 0;
    assert(steps@ =~= opening + layers_steps(kind, 0));
    while layer < layers
        invariant
            layer <= layers,
            steps@ == opening + layers_steps(kind, layer as nat),
        decreases layers - layer,
    {
        let ghost before = steps@;
        match kind {
            PassKind::Recorded => {
                steps.push(ForwardStep::Layer(layer));
            },
            PassKind::LayerBoundaries => {
                steps.push(ForwardStep::Capture);
                steps.push(ForwardStep::Layer(layer));
            },
            PassKind::BlockBoundaries => {
                steps.push(ForwardStep::Capture);
                steps.push(ForwardStep::Attention(layer));
                steps.push(ForwardStep::Capture);
                steps.push(ForwardStep::Mlp(layer));
            },
            PassKind::Detached | PassKind::DetachedOutput => {
                steps.push(ForwardStep::Layer(layer));
                steps.push(ForwardStep::Detach);
            },
        }
        assert(steps@ =~= before + layer_steps(kind, layer));
        layer = layer + 1;
        assert(steps@ =~= opening + layers_steps(kind, layer as nat));
    }
    if kind == PassKind::LayerBoundaries || kind == PassKind::BlockBoundaries {
        steps.push(ForwardStep::Capture);
    }
    steps.push(ForwardStep::Head);
    if kind == PassKind::DetachedOutput {
        steps.push(ForwardStep::Detach);
    }
    assert(steps@ =~= opening + rest_steps(kind, layers as nat));
}

/// Lists the steps of a pass over all layers.
pub fn list_steps(kind: PassKind, layers: usize) -> (steps: Vec<ForwardStep>)
    ensures
        steps@ == pass_steps(kind, layers as nat),
{
    let mut steps = list_opening(kind);
    push_rest(&mut steps, kind, layers);
    steps
}

/// Lists the steps of a pass behind its opening.
pub fn list_rest(kind: PassKind, layers: usize) -> (steps: Vec<ForwardStep>)
    ensures
        steps@ == rest_steps(kind, layers as nat),
{
    let mut steps: Vec<ForwardStep> = Vec::new();
    push_rest(&mut steps, kind, layers);
    assert(steps@ =~= rest_steps(kind, layers as nat));
    steps
}

proof fn lemma_captures_add(left: Seq<ForwardStep>, right: Seq<ForwardStep>)
    ensures
        captures(left + right) == captures(left) + captures(right),
    decreases right.len(),
{
    if right.len() == 0 {
        assert(left + right =~= left);
    } else {
        assert((left + right).drop_last() =~= left + right.drop_last());
        lemma_captures_add(left, right.drop_last());
    }
}

/// A checkpointed pass captures one boundary more than its tape has segments: as many segments
/// as layers, or as blocks. Other passes capture none.
pub proof fn law_captures_bound_the_segments(kind: PassKind, layers: nat)
    ensures
        captures(pass_steps(kind, layers)) == match kind {
            PassKind::LayerBoundaries => layers + 1,
            PassKind::BlockBoundaries => 2 * layers + 1,
            _ => 0,
        },
{
    lemma_layer_captures(kind, layers);
    let (opening, closing) = (opening_steps(kind), closing_steps(kind));
    lemma_captures_add(opening, rest_steps(kind, layers));
    lemma_captures_add(layers_steps(kind, layers), closing);
    reveal_with_fuel(captures, 3);
    assert(opening.drop_last().len() < opening.len());
    assert(closing.drop_last().len() < closing.len());
}

proof fn lemma_layer_captures(kind: PassKind, layers: nat)
    ensures
        captures(layers_steps(kind, layers)) == match kind {
            PassKind::LayerBoundaries => layers,
            PassKind::BlockBoundaries => 2 * layers,
            _ => 0,
        },
    decreases layers,
{
    if layers > 0 {
        lemma_layer_captures(kind, (layers - 1) as nat);
        lemma_captures_add(
            layers_steps(kind, (layers - 1) as nat),
            layer_steps(kind, (layers - 1) as usize),
        );
        reveal_with_fuel(captures, 5);
    }
}

impl Gemma4GradModel {
    /// The invariant of a model: its plan is one, and it holds a tape only while it checkpoints.
    pub open spec fn wf(self) -> bool {
        &&& self.weight_plan.wf()
        &&& self.tape is Some ==> self.remat
    }

    /// Why a load is refused.
    pub open spec fn load_fault(
        config: Gemma4Config,
        targets: DenseLoraTargets,
        quantization: BaseQuantization,
        plan: TensorParallelPlan,
    ) -> Option<Gemma4ModelFault> {
        if config.fault() is Some {
            Some(Gemma4ModelFault::Config(config.fault()->0))
        } else if !targets.selects_any() {
            Some(Gemma4ModelFault::NoTargets)
        } else if plan.sharded() && quantization != BaseQuantization::Unquantized {
            Some(Gemma4ModelFault::ShardedQuantization(quantization))
        } else {
            None
        }
    }

    /// Whether the model is the one that a config lays out: adapters on, checkpointing off.
    pub open spec fn laid_out(
        self,
        config: Gemma4Config,
        targets: DenseLoraTargets,
        quantization: BaseQuantization,
        plan: TensorParallelPlan,
    ) -> bool {
        let text = config.text_config;
        &&& self.layers@.len() == text.num_hidden_layers
        &&& forall|index: int|
            0 <= index < self.layers@.len() ==> #[trigger] self.layers@[index] == text.layer(
                index,
                targets,
                plan,
            )
        &&& self.hidden == text.hidden_size
        &&& self.sliding_window == text.sliding_window
        &&& self.base_quantization == quantization
        &&& self.weight_plan == plan
        &&& self.targets == targets
        &&& self.adapter_enabled
        &&& !self.remat
        &&& self.tape is None
        &&& self.replay is None
    }

    /// Lays out a model with rank-local weights of a plan. Projection widths that do not fit a
    /// machine word cannot be laid out.
    pub fn load_with_targets_base_quantization_and_tensor_parallel(
        config: &Gemma4Config,
        targets: DenseLoraTargets,
        base_quantization: BaseQuantization,
        weight_plan: TensorParallelPlan,
    ) -> (model: Result<Self, Gemma4ModelFault>)
        requires
            weight_plan.wf(),
            config.supported() ==> forall|kind: super::config::Gemma4LayerType| #[trigger]
                config.text_config.widths_fit(kind),
        ensures
            match model {
                Ok(model) => {
                    &&& Self::load_fault(*config, targets, base_quantization, weight_plan) is None
                    &&& model.laid_out(*config, targets, base_quantization, weight_plan)
                    &&& model.wf()
                },
                Err(fault) => Self::load_fault(*config, targets, base_quantization, weight_plan)
                    == Some(fault),
            },
    {
        if let Err(fault) = config.validate() {
            return Err(Gemma4ModelFault::Config(fault));
        }
        if !targets.any() {
            return Err(Gemma4ModelFault::NoTargets);
        }
        if weight_plan.is_sharded() && base_quantization != BaseQuantization::Unquantized {
            return Err(Gemma4ModelFault::ShardedQuantization(base_quantization));
        }
        let text = &config.text_config;
        proof {
            assert(text.size(super::config::Gemma4Size::NumKeyValueHeads) != 0);
            assert(text.size(super::config::Gemma4Size::NumGlobalKeyValueHeads) != 0);
        }
        let mut layers: Vec<Gemma4Layer> = Vec::new();
        let mut index: usize = 0;
        while index < text.num_hidden_layers
            invariant
                index <= text.num_hidden_layers == text.layer_types@.len(),
                layers@.len() == index,
                text.num_key_value_heads > 0,
                text.num_global_key_value_heads > 0,
                forall|kind: super::config::Gemma4LayerType| #[trigger] text.widths_fit(kind),
                forall|i: int|
                    0 <= i < index ==> #[trigger] layers@[i] == text.layer(
                        i,
                        targets,
                        weight_plan,
                    ),
            decreases text.num_hidden_layers - index,
        {
            layers.push(Gemma4Layer::load(text, index, &targets, &weight_plan));
            index = index + 1;
        }
        Ok(
            Gemma4GradModel {
                layers,
                hidden: text.hidden_size,
                sliding_window: text.sliding_window,
                base_quantization,
                weight_plan,
                targets,
                adapter_enabled: true,
                remat: false,
                tape: None,
                replay: None,
            },
        )
    }
}

/// Where the ranks of a world stand in agreeing on activation checkpointing.
#[derive(Debug, Clone, Copy, PartialEq, Eq, Structural)]
pub enum CheckpointingConsensus {
    /// Sum this vote over all ranks.
    Reduce(bool),
    /// All ranks checkpoint, or none.
    Agreed,
    /// Some ranks checkpoint and others do not.
    Differs,
}

/// Says where a rank stands in agreeing on activation checkpointing, given the reduced count of
/// the ranks that checkpoint once it is known. A world of one agrees with itself.
pub fn validate_activation_checkpointing_consensus(
    remat: bool,
    plan: TensorParallelPlan,
    checkpointed_count: Option<Real64>,
) -> (consensus: CheckpointingConsensus)
    ensures
        consensus == if !plan.sharded() {
            CheckpointingConsensus::Agreed
        } else {
            match checkpointed_count {
                None => CheckpointingConsensus::Reduce(remat),
                Some(count) => if plan_agrees(plan, count) {
                    CheckpointingConsensus::Agreed
                } else {
                    CheckpointingConsensus::Differs
                },
            }
        },
{
    if !plan.is_sharded() {
        return CheckpointingConsensus::Agreed;
    }
    match checkpointed_count {
        None => CheckpointingConsensus::Reduce(remat),
        Some(count) => if is_unanimous(count, plan.world_size()) {
            CheckpointingConsensus::Agreed
        } else {
            CheckpointingConsensus::Differs
        },
    }
}

/// What a rank has learned so far in a tensor-parallel forward pass.
#[derive(Debug, Clone, Copy, PartialEq, Eq, Structural)]
pub struct ForwardObservations {
    /// The reduced count of the ranks that refuse the pass.
    pub preflight_failures: Option<Real64>,
    /// The reduced count of the ranks that checkpoint.
    pub checkpointed_count: Option<Real64>,
}

/// What a rank does next in a tensor-parallel forward pass.
#[derive(Debug)]
pub enum TensorParallelForward {
    /// Contribute whether this rank refuses the pass.
    ReducePreflight(bool),
    /// Take these steps, and let the ranks count who failed.
    StageInput(Vec<ForwardStep>),
    /// Contribute whether this rank checkpoints.
    ReduceCheckpointing(bool),
    /// Run these steps.
    Run(Vec<ForwardStep>),
    /// Do not run.
    Refused(Gemma4ModelFault),
    /// The staged steps failed on this rank.
    FailedHere,
    /// Another rank refuses the pass or could not take the staged steps.
    FailedOnPeer,
}

/// How a backward pass runs.
#[derive(Debug, Clone, Copy, PartialEq, Eq, Structural)]
pub enum BackwardPlan {
    /// Through the recorded history.
    Direct,
    /// Segment by segment, recomputing each from its captured boundary of this sequence length.
    Stitched { segments: usize, seq_len: usize },
}

/// What a rank has learned so far in a tensor-parallel backward pass.
#[derive(Debug)]
pub struct BackwardObservations {
    /// The reduced count of the ranks that have no place in the world.
    pub preflight_failures: Option<Real64>,
    /// The reduced count of the ranks that checkpoint.
    pub checkpointed_count: Option<Real64>,
    /// The reduced count of the ranks whose adapters are enabled.
    pub enabled_count: Option<Real64>,
    /// What came of listing the adapters.
    pub adapters_staged: Option<StageReport>,
    /// What came of the exchange about replicated adapters.
    pub adapters: Option<Result<(), AdapterFault>>,
    /// What came of preparing the replay.
    pub readiness: Option<StageReport>,
}

/// What a rank does next in a tensor-parallel backward pass.
#[derive(Debug)]
pub enum TensorParallelBackward {
    /// Contribute that this rank has a place in the world.
    ReducePreflight,
    /// Contribute whether this rank checkpoints.
    ReduceCheckpointing(bool),
    /// Contribute whether this rank's adapters are enabled.
    ReduceEnabled(bool),
    /// List the adapters, and let the ranks count who failed.
    StageAdapters,
    /// Make sure that the adapters are the same on every rank.
    ValidateAdapters,
    /// Prepare this replay, and let the ranks count who failed.
    Prepare(BackwardPlan),
    /// Contribute that this rank is not ready, and do not run.
    Unready(Gemma4ModelFault),
    /// Run.
    Run(BackwardPlan),
    /// Do not run.
    Refused(Gemma4ModelFault),
    /// What was staged failed on this rank.
    FailedHere,
    /// Another rank is not ready.
    FailedOnPeer,
}

/// Whether the ranks of a plan's world agree in a vote of which a rank knows the count.
pub open spec fn plan_agrees(plan: TensorParallelPlan, count: Real64) -> bool {
    crate::votes::count_is_unanimous(count, plan.of_world() as nat)
}

impl Gemma4GradModel {
    /// Lays out a model with every projection adapted.
    pub fn load(config: &Gemma4Config) -> (model: Result<Self, Gemma4ModelFault>)
        requires
            config.supported() ==> forall|kind: super::config::Gemma4LayerType| #[trigger]
                config.text_config.widths_fit(kind),
        ensures
            match model {
                Ok(model) => {
                    &&& config.supported()
                    &&& model.laid_out(
                        *config,
                        model.targets,
                        BaseQuantization::Unquantized,
                        model.weight_plan,
                    )
                    &&& model.targets.recipe() == "attn:"@ + ("q"@ + "k"@ + "v"@ + "o"@) + "|mlp:"@
                        + ("g"@ + "u"@ + "d"@)
                    &&& model.weight_plan.at_rank() == 0
                    &&& model.weight_plan.of_world() == 1
                    &&& model.wf()
                },
                Err(fault) => config.fault() is Some && fault == Gemma4ModelFault::Config(
                    config.fault()->0,
                ),
            },
    {
        let model = Self::load_with_targets(config, DenseLoraTargets::industrial());
        proof {
            reveal_strlit("q");
            reveal_strlit("g");
        }
        model
    }

    /// Lays out a model with the given projections adapted.
    pub fn load_with_targets(config: &Gemma4Config, targets: DenseLoraTargets) -> (model: Result<
        Self,
        Gemma4ModelFault,
    >)
        requires
            config.supported() ==> forall|kind: super::config::Gemma4LayerType| #[trigger]
                config.text_config.widths_fit(kind),
        ensures
            match model {
                Ok(model) => {
                    &&& config.supported()
                    &&& targets.selects_any()
                    &&& model.laid_out(
                        *config,
                        targets,
                        BaseQuantization::Unquantized,
                        model.weight_plan,
                    )
                    &&& model.weight_plan.at_rank() == 0
                    &&& model.weight_plan.of_world() == 1
                    &&& model.wf()
                },
                Err(fault) => if config.fault() is Some {
                    fault == Gemma4ModelFault::Config(config.fault()->0)
                } else {
                    !targets.selects_any() && fault == Gemma4ModelFault::NoTargets
                },
            },
    {
        Self::load_with_targets_and_base_quantization(
            config,
            targets,
            BaseQuantization::Unquantized,
        )
    }

    /// Lays out a model with the given projections adapted and the given base storage.
    pub fn load_with_targets_and_base_quantization(
        config: &Gemma4Config,
        targets: DenseLoraTargets,
        base_quantization: BaseQuantization,
    ) -> (model: Result<Self, Gemma4ModelFault>)
        requires
            config.supported() ==> forall|kind: super::config::Gemma4LayerType| #[trigger]
                config.text_config.widths_fit(kind),
        ensures
            match model {
                Ok(model) => {
                    &&& config.supported()
                    &&& targets.selects_any()
                    &&& model.laid_out(*config, targets, base_quantization, model.weight_plan)
                    &&& model.weight_plan.at_rank() == 0
                    &&& model.weight_plan.of_world() == 1
                    &&& model.wf()
                },
                Err(fault) => if config.fault() is Some {
                    fault == Gemma4ModelFault::Config(config.fault()->0)
                } else {
                    !targets.selects_any() && fault == Gemma4ModelFault::NoTargets
                },
            },
    {
        proof {
            config.lemma_fault_is_complete();
        }
        Self::load_with_targets_base_quantization_and_tensor_parallel(
            config,
            targets,
            base_quantization,
            TensorParallelPlan::single(),
        )
    }

    /// Snapshots a decoder with empty caches.
    pub fn merged_decoder(&self) -> (decoder: super::decoder::Gemma4MergedDecoder)
        requires
            self.wf(),
        ensures
            decoder.wf(),
            decoder.in_step(0),
            decoder.layers@.len() == self.layers@.len(),
            forall|layer: int|
                0 <= layer < decoder.layers@.len() ==> (#[trigger] decoder.layers@[layer]).layer
                    == self.layers@[layer] && decoder.layers@[layer].cache.limit()
                    == super::decoder::cache_limit(
                    self.layers@[layer].attn.kind,
                    self.sliding_window,
                ),
            decoder.hidden == self.hidden,
            decoder.base_quantization == self.base_quantization,
            decoder.weight_plan == self.weight_plan,
    {
        super::decoder::Gemma4MergedDecoder::from_model(self)
    }

    /// Why the model does not run tensor-parallel under a plan.
    pub open spec fn execution_fault(self, plan: TensorParallelPlan) -> Option<Gemma4ModelFault> {
        if self.base_quantization == BaseQuantization::Q8_0 {
            Some(Gemma4ModelFault::QuantizedTensorParallel)
        } else if self.weight_plan.sharded() && self.weight_plan != plan {
            Some(Gemma4ModelFault::WeightPlan { weights: self.weight_plan, execution: plan })
        } else {
            None
        }
    }

    /// Refuses a tensor-parallel execution that the weights do not support.
    pub fn validate_tensor_parallel_execution_support(&self, plan: TensorParallelPlan) -> (verdict:
        Result<(), Gemma4ModelFault>)
        ensures
            match verdict {
                Ok(()) => self.execution_fault(plan) is None,
                Err(fault) => self.execution_fault(plan) == Some(fault),
            },
    {
        if self.base_quantization == BaseQuantization::Q8_0 {
            return Err(Gemma4ModelFault::QuantizedTensorParallel);
        }
        if self.weight_plan.is_sharded() && self.weight_plan != plan {
            return Err(
                Gemma4ModelFault::WeightPlan { weights: self.weight_plan, execution: plan },
            );
        }
        Ok(())
    }

    /// The first axis of the layers from the given one on that does not split over a world.
    pub open spec fn uneven_layer_from(self, world: usize, layer: int) -> Option<UnevenAxis>
        decreases self.layers@.len() - layer,
    {
        if layer < 0 || layer >= self.layers@.len() {
            None
        } else {
            let uneven = super::layers::uneven_from(self.layers@[layer].axes(), world, 0);
            if uneven is Some {
                uneven
            } else {
                self.uneven_layer_from(world, layer + 1)
            }
        }
    }

    /// Refuses a plan over whose world some axis does not split.
    pub fn validate_tensor_parallel_plan(&self, plan: &TensorParallelPlan) -> (verdict: Result<
        (),
        UnevenAxis,
    >)
        requires
            plan.wf(),
        ensures
            match verdict {
                Ok(()) => self.uneven_layer_from(plan.of_world(), 0) is None,
                Err(uneven) => self.uneven_layer_from(plan.of_world(), 0) == Some(uneven),
            },
    {
        let mut layer: usize = 0;
        while layer < self.layers.len()
            invariant
                layer <= self.layers@.len(),
                plan.wf(),
                self.uneven_layer_from(plan.of_world(), 0) == self.uneven_layer_from(
                    plan.of_world(),
                    layer as int,
                ),
            decreases self.layers@.len() - layer,
        {
            if let Err(uneven) = self.layers[layer].validate_tensor_parallel_plan(plan) {
                return Err(uneven);
            }
            layer = layer + 1;
        }
        Ok(())
    }

    /// Refuses a tensor-parallel execution that the weights or the layers do not support.
    pub fn validate_tensor_parallel_execution(&self, plan: TensorParallelPlan) -> (verdict: Result<
        (),
        Gemma4ModelFault,
    >)
        requires
            plan.wf(),
        ensures
            match verdict {
                Ok(()) => self.execution_fault(plan) is None && self.uneven_layer_from(
                    plan.of_world(),
                    0,
                ) is None,
                Err(fault) => if self.execution_fault(plan) is Some {
                    self.execution_fault(plan) == Some(fault)
                } else {
                    fault matches Gemma4ModelFault::Uneven(uneven) && self.uneven_layer_from(
                        plan.of_world(),
                        0,
                    ) == Some(uneven)
                },
            },
    {
        if let Err(fault) = self.validate_tensor_parallel_execution_support(plan) {
            return Err(fault);
        }
        match self.validate_tensor_parallel_plan(&plan) {
            Ok(()) => Ok(()),
            Err(uneven) => Err(Gemma4ModelFault::Uneven(uneven)),
        }
    }

    /// Starts an ordinary forward pass and says which steps it takes. While the model
    /// checkpoints, the pass drops the pending tape; [`complete_forward`](Self::complete_forward)
    /// puts the new one in its place.
    pub fn forward(&mut self) -> (steps: Result<Vec<ForwardStep>, Gemma4ModelFault>)
        ensures
            old(self).wf() ==> final(self).wf(),
            match steps {
                Ok(steps) => {
                    &&& !old(self).weight_plan.sharded()
                    &&& steps@ == pass_steps(
                        if old(self).remat {
                            PassKind::LayerBoundaries
                        } else {
                            PassKind::Recorded
                        },
                        old(self).layers@.len(),
                    )
                    &&& *final(self) == if old(self).remat {
                        (Gemma4GradModel { tape: None, ..*old(self) })
                    } else {
                        *old(self)
                    }
                },
                Err(fault) => {
                    &&& old(self).weight_plan.sharded()
                    &&& fault == Gemma4ModelFault::RankLocalWeights
                    &&& *final(self) == *old(self)
                },
            },
    {
        if self.weight_plan.is_sharded() {
            return Err(Gemma4ModelFault::RankLocalWeights);
        }
        if self.remat {
            self.tape = None;
            Ok(list_steps(PassKind::LayerBoundaries, self.layers.len()))
        } else {
            Ok(list_steps(PassKind::Recorded, self.layers.len()))
        }
    }

    /// Ends an ordinary forward pass over a sequence: while the model checkpoints, the captured
    /// boundaries become the pending tape.
    pub fn complete_forward(&mut self, seq_len: usize)
        ensures
            old(self).wf() ==> final(self).wf(),
            *final(self) == if old(self).remat {
                (Gemma4GradModel {
                    tape: Some(
                        Gemma4RematTape {
                            segments: old(self).layers@.len() as usize,
                            seq_len,
                            adapter_enabled: old(self).adapter_enabled,
                            execution: Gemma4RematExecution::Ordinary,
                        },
                    ),
                    ..*old(self)
                })
            } else {
                *old(self)
            },
    {
        if self.remat {
            self.tape = Some(
                Gemma4RematTape {
                    segments: self.layers.len(),
                    seq_len,
                    adapter_enabled: self.adapter_enabled,
                    execution: Gemma4RematExecution::Ordinary,
                },
            );
        }
    }

    /// Says which steps an ordinary detached pass takes. It leaves the pending tape alone.
    pub fn forward_detached(&self) -> (steps: Result<Vec<ForwardStep>, Gemma4ModelFault>)
        ensures
            match steps {
                Ok(steps) => !self.weight_plan.sharded() && steps@ == pass_steps(
                    PassKind::Detached,
                    self.layers@.len(),
                ),
                Err(fault) => self.weight_plan.sharded() && fault
                    == Gemma4ModelFault::RankLocalWeights,
            },
    {
        if self.weight_plan.is_sharded() {
            return Err(Gemma4ModelFault::RankLocalWeights);
        }
        Ok(list_steps(PassKind::Detached, self.layers.len()))
    }

    /// What the ranks make of a tensor-parallel forward pass once they have counted who refuses it.
    pub open spec fn preflight_outcome(self, plan: TensorParallelPlan, failures: Real64) -> Coordination {
        crate::tensor_parallel::coordinated(self.execution_fault(plan) is None, failures)
    }

    /// The step of a tensor-parallel forward pass that follows what a rank has learned.
    pub open spec fn forward_step(
        self,
        plan: TensorParallelPlan,
        seen: ForwardObservations,
        next: TensorParallelForward,
    ) -> bool {
        match seen.preflight_failures {
            None => next == TensorParallelForward::ReducePreflight(
                self.execution_fault(plan) is Some,
            ),
            Some(failures) => match self.preflight_outcome(plan, failures) {
                Coordination::FailedHere => next == TensorParallelForward::Refused(
                    self.execution_fault(plan)->0,
                ),
                Coordination::FailedOnPeer => next == TensorParallelForward::FailedOnPeer,
                Coordination::Proceed => if plan.sharded() && seen.checkpointed_count is None {
                    next == TensorParallelForward::ReduceCheckpointing(self.remat)
                } else if plan.sharded() && !plan_agrees(plan, seen.checkpointed_count->0) {
                    next == TensorParallelForward::Refused(Gemma4ModelFault::CheckpointingDiffers)
                } else {
                    next matches TensorParallelForward::Run(steps) && steps@ == pass_steps(
                        if self.remat {
                            PassKind::BlockBoundaries
                        } else {
                            PassKind::Recorded
                        },
                        self.layers@.len(),
                    )
                },
            },
        }
    }

    /// Says what a rank does next in a tensor-parallel forward pass, given what it has learned so
    /// far. The ranks first count who refuses the pass: where one does, none goes on. All ranks of
    /// a sharded world must checkpoint or none. A pass that runs while the model checkpoints drops
    /// the pending tape; nothing else changes the model.
    pub fn forward_tensor_parallel(
        &mut self,
        plan: TensorParallelPlan,
        seen: &ForwardObservations,
    ) -> (next: TensorParallelForward)
        ensures
            old(self).wf() ==> final(self).wf(),
            old(self).forward_step(plan, *seen, next),
            *final(self) == if next is Run && old(self).remat {
                (Gemma4GradModel { tape: None, ..*old(self) })
            } else {
                *old(self)
            },
    {
        let verdict = self.validate_tensor_parallel_execution_support(plan);
        let failures = match seen.preflight_failures {
            None => return TensorParallelForward::ReducePreflight(verdict.is_err()),
            Some(failures) => failures,
        };
        if let Err(fault) = verdict {
            return TensorParallelForward::Refused(fault);
        }
        if !failures.is_zero() {
            return TensorParallelForward::FailedOnPeer;
        }
        match validate_activation_checkpointing_consensus(self.remat, plan, seen.checkpointed_count) {
            CheckpointingConsensus::Reduce(vote) => return TensorParallelForward::ReduceCheckpointing(vote),
            CheckpointingConsensus::Differs => {
                return TensorParallelForward::Refused(Gemma4ModelFault::CheckpointingDiffers);
            },
            CheckpointingConsensus::Agreed => {},
        }
        if self.remat {
            self.tape = None;
            TensorParallelForward::Run(list_steps(PassKind::BlockBoundaries, self.layers.len()))
        } else {
            TensorParallelForward::Run(list_steps(PassKind::Recorded, self.layers.len()))
        }
    }

    /// Ends a tensor-parallel forward pass over a sequence: while the model checkpoints, the
    /// captured boundaries become the pending tape.
    pub fn complete_forward_tensor_parallel(&mut self, plan: TensorParallelPlan, seq_len: usize)
        requires
            2 * old(self).layers@.len() <= usize::MAX,
        ensures
            old(self).wf() ==> final(self).wf(),
            *final(self) == if old(self).remat {
                (Gemma4GradModel {
                    tape: Some(
                        Gemma4RematTape {
                            segments: (2 * old(self).layers@.len()) as usize,
                            seq_len,
                            adapter_enabled: old(self).adapter_enabled,
                            execution: Gemma4RematExecution::TensorParallel(plan),
                        },
                    ),
                    ..*old(self)
                })
            } else {
                *old(self)
            },
    {
        if self.remat {
            self.tape = Some(
                Gemma4RematTape {
                    segments: 2 * self.layers.len(),
                    seq_len,
                    adapter_enabled: self.adapter_enabled,
                    execution: Gemma4RematExecution::TensorParallel(plan),
                },
            );
        }
    }

    /// Whether this rank is ready to run a detached pass: nothing stands against it and its input
    /// is staged.
    pub open spec fn input_ready(self, plan: TensorParallelPlan, staged: StageReport) -> bool {
        self.execution_fault(plan) is None && staged.succeeded
    }

    /// What the ranks make of a detached pass once they have counted who failed.
    pub open spec fn input_outcome(self, plan: TensorParallelPlan, staged: StageReport) -> Coordination {
        crate::tensor_parallel::coordinated(self.input_ready(plan, staged), staged.failures)
    }

    /// Says what a rank does next in a tensor-parallel detached pass, given what came of staging
    /// its input once the ranks know it: the opening of the pass is staged, and the rest of it
    /// runs where every rank is ready. The pass leaves the pending tape alone.
    pub fn forward_tensor_parallel_detached(
        &self,
        plan: TensorParallelPlan,
        staged: Option<StageReport>,
    ) -> (next: TensorParallelForward)
        ensures
            match staged {
                None => if self.execution_fault(plan) is Some {
                    next == TensorParallelForward::ReducePreflight(true)
                } else {
                    next matches TensorParallelForward::StageInput(steps) && steps@
                        == opening_steps(PassKind::DetachedOutput)
                },
                Some(report) => match self.input_outcome(plan, report) {
                    Coordination::Proceed => next matches TensorParallelForward::Run(steps)
                        && steps@ == rest_steps(PassKind::DetachedOutput, self.layers@.len()),
                    Coordination::FailedHere => next == match self.execution_fault(plan) {
                        Some(fault) => TensorParallelForward::Refused(fault),
                        None => TensorParallelForward::FailedHere,
                    },
                    Coordination::FailedOnPeer => next == TensorParallelForward::FailedOnPeer,
                },
            },
    {
        let verdict = self.validate_tensor_parallel_execution_support(plan);
        let report = match staged {
            None => return match verdict {
                Ok(()) => TensorParallelForward::StageInput(list_opening(PassKind::DetachedOutput)),
                Err(_) => TensorParallelForward::ReducePreflight(true),
            },
            Some(report) => report,
        };
        if let Err(fault) = verdict {
            return TensorParallelForward::Refused(fault);
        }
        match coordinate_local_call(report.succeeded, report.failures) {
            Coordination::Proceed => TensorParallelForward::Run(
                list_rest(PassKind::DetachedOutput, self.layers.len()),
            ),
            Coordination::FailedHere => TensorParallelForward::FailedHere,
            Coordination::FailedOnPeer => TensorParallelForward::FailedOnPeer,
        }
    }

    /// What comes of an ordinary backward pass.
    pub open spec fn backward_outcome(self) -> Result<BackwardPlan, Gemma4ModelFault> {
        if !self.remat {
            Ok(BackwardPlan::Direct)
        } else {
            match self.tape {
                None => Err(Gemma4ModelFault::NoTape),
                Some(tape) => if tape.execution != Gemma4RematExecution::Ordinary {
                    Err(Gemma4ModelFault::TapeFromTensorParallel)
                } else if tape.segments != self.layers@.len() {
                    Err(
                        Gemma4ModelFault::LayerSegments {
                            segments: tape.segments,
                            layers: self.layers@.len() as usize,
                        },
                    )
                } else if tape.adapter_enabled != self.adapter_enabled {
                    Err(Gemma4ModelFault::AdapterToggled)
                } else {
                    Ok(
                        BackwardPlan::Stitched {
                            segments: tape.segments,
                            seq_len: tape.seq_len,
                        },
                    )
                },
            }
        }
    }

    /// Starts an ordinary backward pass. While the model checkpoints, the pass takes the pending
    /// tape, whether or not it can use it: a tape is replayed at most once.
    pub fn backward(&mut self) -> (plan: Result<BackwardPlan, Gemma4ModelFault>)
        ensures
            old(self).wf() ==> final(self).wf(),
            plan == old(self).backward_outcome(),
            *final(self) == if old(self).remat {
                (Gemma4GradModel { tape: None, ..*old(self) })
            } else {
                *old(self)
            },
    {
        if !self.remat {
            return Ok(BackwardPlan::Direct);
        }
        let taken = self.tape;
        self.tape = None;
        let tape = match taken {
            None => return Err(Gemma4ModelFault::NoTape),
            Some(tape) => tape,
        };
        if tape.execution != Gemma4RematExecution::Ordinary {
            return Err(Gemma4ModelFault::TapeFromTensorParallel);
        }
        if tape.segments != self.layers.len() {
            return Err(
                Gemma4ModelFault::LayerSegments {
                    segments: tape.segments,
                    layers: self.layers.len(),
                },
            );
        }
        if tape.adapter_enabled != self.adapter_enabled {
            return Err(Gemma4ModelFault::AdapterToggled);
        }
        Ok(BackwardPlan::Stitched { segments: tape.segments, seq_len: tape.seq_len })
    }

    /// What stands against replaying the pending tape tensor-parallel, or the replay. The
    /// support of the weights is looked at before the tape is taken.
    pub open spec fn readiness(
        self,
        plan: TensorParallelPlan,
        enabled_agree: bool,
        adapters: Result<(), AdapterFault>,
    ) -> Result<BackwardPlan, Gemma4ModelFault> {
        let expected = 2 * self.layers@.len();
        if self.execution_fault(plan) is Some {
            Err(self.execution_fault(plan)->0)
        } else {
            match self.tape {
                None => Err(Gemma4ModelFault::NoTensorParallelTape),
                Some(tape) => if !enabled_agree {
                    Err(Gemma4ModelFault::AdaptersEnabledDiffer)
                } else if adapters is Err {
                    Err(Gemma4ModelFault::Adapters(adapters->Err_0))
                } else if tape.execution != Gemma4RematExecution::TensorParallel(plan) {
                    Err(Gemma4ModelFault::TapeExecution { captured: tape.execution, live: plan })
                } else if tape.segments != expected {
                    Err(
                        Gemma4ModelFault::SublayerSegments {
                            segments: tape.segments,
                            expected: expected as usize,
                            layers: self.layers@.len() as usize,
                        },
                    )
                } else if tape.adapter_enabled != self.adapter_enabled {
                    Err(Gemma4ModelFault::TensorParallelAdapterToggled)
                } else {
                    Ok(
                        BackwardPlan::Stitched {
                            segments: tape.segments,
                            seq_len: tape.seq_len,
                        },
                    )
                },
            }
        }
    }

    /// Takes the pending tape for a tensor-parallel replay, unless the weights do not support
    /// one, and looks for anything that stands against it.
    fn ready(
        &mut self,
        plan: TensorParallelPlan,
        enabled_agree: bool,
        adapters: Result<(), AdapterFault>,
    ) -> (ready: Result<BackwardPlan, Gemma4ModelFault>)
        requires
            2 * old(self).layers@.len() <= usize::MAX,
        ensures
            ready == old(self).readiness(plan, enabled_agree, adapters),
            *final(self) == if old(self).execution_fault(plan) is Some {
                *old(self)
            } else {
                (Gemma4GradModel { tape: None, ..*old(self) })
            },
    {
        if let Err(fault) = self.validate_tensor_parallel_execution_support(plan) {
            return Err(fault);
        }
        let taken = self.tape;
        self.tape = None;
        let tape = match taken {
            None => return Err(Gemma4ModelFault::NoTensorParallelTape),
            Some(tape) => tape,
        };
        if !enabled_agree {
            return Err(Gemma4ModelFault::AdaptersEnabledDiffer);
        }
        if let Err(fault) = adapters {
            return Err(Gemma4ModelFault::Adapters(fault));
        }
        if tape.execution != Gemma4RematExecution::TensorParallel(plan) {
            return Err(Gemma4ModelFault::TapeExecution { captured: tape.execution, live: plan });
        }
        let expected: usize = 2 * self.layers.len();
        if tape.segments != expected {
            return Err(
                Gemma4ModelFault::SublayerSegments {
                    segments: tape.segments,
                    expected,
                    layers: self.layers.len(),
                },
            );
        }
        if tape.adapter_enabled != self.adapter_enabled {
            return Err(Gemma4ModelFault::TensorParallelAdapterToggled);
        }
        Ok(BackwardPlan::Stitched { segments: tape.segments, seq_len: tape.seq_len })
    }

    /// What the ranks make of a replay once they have counted who is not ready for it.
    pub open spec fn replay_outcome(self, report: StageReport) -> Coordination {
        crate::tensor_parallel::coordinated(
            self.replay is Some && report.succeeded,
            report.failures,
        )
    }

    /// The step of a tensor-parallel backward pass that follows the exchange about adapters.
    pub open spec fn replay_step(
        self,
        plan: TensorParallelPlan,
        enabled_agree: bool,
        adapters: Result<(), AdapterFault>,
        readiness: Option<StageReport>,
        next: TensorParallelBackward,
    ) -> bool {
        match readiness {
            None => next == match self.readiness(plan, enabled_agree, adapters) {
                Ok(run) => TensorParallelBackward::Prepare(run),
                Err(fault) => TensorParallelBackward::Unready(fault),
            },
            Some(report) => next == match self.replay_outcome(report) {
                Coordination::Proceed => TensorParallelBackward::Run(self.replay->0),
                Coordination::FailedHere => TensorParallelBackward::FailedHere,
                Coordination::FailedOnPeer => TensorParallelBackward::FailedOnPeer,
            },
        }
    }

    /// The step of a checkpointed tensor-parallel backward pass that follows what a rank has
    /// learned.
    pub open spec fn checkpointed_backward_step(
        self,
        plan: TensorParallelPlan,
        seen: BackwardObservations,
        next: TensorParallelBackward,
    ) -> bool {
        if plan.sharded() && seen.enabled_count is None {
            next == TensorParallelBackward::ReduceEnabled(self.adapter_enabled)
        } else {
            match seen.adapters_staged {
                None => next == TensorParallelBackward::StageAdapters,
                Some(report) => match report.outcome() {
                    Coordination::FailedHere => next == TensorParallelBackward::FailedHere,
                    Coordination::FailedOnPeer => next == TensorParallelBackward::FailedOnPeer,
                    Coordination::Proceed => match seen.adapters {
                        None => next == TensorParallelBackward::ValidateAdapters,
                        Some(adapters) => self.replay_step(
                            plan,
                            plan.sharded() ==> plan_agrees(plan, seen.enabled_count->0),
                            adapters,
                            seen.readiness,
                            next,
                        ),
                    },
                },
            }
        }
    }

    /// The step of a tensor-parallel backward pass that follows what a rank has learned.
    pub open spec fn backward_step(
        self,
        plan: TensorParallelPlan,
        seen: BackwardObservations,
        next: TensorParallelBackward,
    ) -> bool {
        if seen.preflight_failures is None {
            next == TensorParallelBackward::ReducePreflight
        } else if !seen.preflight_failures->0.zero() {
            next == TensorParallelBackward::FailedOnPeer
        } else if plan.sharded() && seen.checkpointed_count is None {
            next == TensorParallelBackward::ReduceCheckpointing(self.remat)
        } else if plan.sharded() && !plan_agrees(plan, seen.checkpointed_count->0) {
            next == TensorParallelBackward::Refused(Gemma4ModelFault::CheckpointingDiffers)
        } else if self.remat {
            self.checkpointed_backward_step(plan, seen, next)
        } else if self.execution_fault(plan) is Some {
            next == TensorParallelBackward::Refused(self.execution_fault(plan)->0)
        } else if plan.sharded() {
            next == TensorParallelBackward::Refused(Gemma4ModelFault::NeedsCheckpointing)
        } else {
            next == TensorParallelBackward::Run(BackwardPlan::Direct)
        }
    }

    /// What a step of a tensor-parallel backward pass leaves of the model. Preparing a replay takes
    /// the pending tape, whether or not it can be used; only a rank whose weights do not support
    /// the execution keeps it. A pass that runs or stops takes the replay.
    pub open spec fn after_backward_step(
        self,
        plan: TensorParallelPlan,
        next: TensorParallelBackward,
    ) -> Self {
        match next {
            TensorParallelBackward::Prepare(run) => {
                (Gemma4GradModel { tape: None, replay: Some(run), ..self })
            },
            TensorParallelBackward::Unready(_) => if self.execution_fault(plan) is Some {
                (Gemma4GradModel { replay: None, ..self })
            } else {
                (Gemma4GradModel { tape: None, replay: None, ..self })
            },
            TensorParallelBackward::Run(_) | TensorParallelBackward::FailedHere
            | TensorParallelBackward::FailedOnPeer => (Gemma4GradModel { replay: None, ..self }),
            _ => self,
        }
    }

    /// Says what a rank does next in a tensor-parallel backward pass, given what it has learned
    /// so far. The ranks of a sharded world first agree on checkpointing, then on whether
    /// adapters are enabled, then on the adapters themselves; only then is the tape taken. Where
    /// one rank is not ready to replay it, none does.
    pub fn backward_tensor_parallel(
        &mut self,
        plan: TensorParallelPlan,
        seen: &BackwardObservations,
    ) -> (next: TensorParallelBackward)
        requires
            2 * old(self).layers@.len() <= usize::MAX,
        ensures
            old(self).wf() ==> final(self).wf(),
            old(self).backward_step(plan, *seen, next),
            *final(self) == old(self).after_backward_step(plan, next),
    {
        match seen.preflight_failures {
            None => return TensorParallelBackward::ReducePreflight,
            Some(failures) => if !failures.is_zero() {
                self.replay = None;
                return TensorParallelBackward::FailedOnPeer;
            },
        }
        match validate_activation_checkpointing_consensus(self.remat, plan, seen.checkpointed_count) {
            CheckpointingConsensus::Reduce(vote) => return TensorParallelBackward::ReduceCheckpointing(vote),
            CheckpointingConsensus::Differs => {
                return TensorParallelBackward::Refused(Gemma4ModelFault::CheckpointingDiffers);
            },
            CheckpointingConsensus::Agreed => {},
        }
        if self.remat {
            return self.checkpointed_backward(plan, seen);
        }
        if let Err(fault) = self.validate_tensor_parallel_execution_support(plan) {
            return TensorParallelBackward::Refused(fault);
        }
        if plan.is_sharded() {
            return TensorParallelBackward::Refused(Gemma4ModelFault::NeedsCheckpointing);
        }
        self.replay = None;
        TensorParallelBackward::Run(BackwardPlan::Direct)
    }

    /// Says what a rank does next in a checkpointed tensor-parallel backward pass.
    fn checkpointed_backward(&mut self, plan: TensorParallelPlan, seen: &BackwardObservations) -> (next:
        TensorParallelBackward)
        requires
            2 * old(self).layers@.len() <= usize::MAX,
        ensures
            old(self).checkpointed_backward_step(plan, *seen, next),
            *final(self) == old(self).after_backward_step(plan, next),
    {
        let enabled_agree: bool = if plan.is_sharded() {
            match seen.enabled_count {
                None => return TensorParallelBackward::ReduceEnabled(self.adapter_enabled),
                Some(count) => is_unanimous(count, plan.world_size()),
            }
        } else {
            true
        };
        let staged = match seen.adapters_staged {
            None => return TensorParallelBackward::StageAdapters,
            Some(report) => report.coordination(),
        };
        match staged {
            Coordination::Proceed => {},
            Coordination::FailedHere => {
                self.replay = None;
                return TensorParallelBackward::FailedHere;
            },
            Coordination::FailedOnPeer => {
                self.replay = None;
                return TensorParallelBackward::FailedOnPeer;
            },
        }
        let adapters = match seen.adapters {
            None => return TensorParallelBackward::ValidateAdapters,
            Some(adapters) => adapters,
        };
        let report = match seen.readiness {
            None => return self.prepare(plan, enabled_agree, adapters),
            Some(report) => report,
        };
        let taken = self.replay;
        self.replay = None;
        let run = match taken {
            None => return TensorParallelBackward::FailedHere,
            Some(run) => run,
        };
        match report.coordination() {
            Coordination::Proceed => TensorParallelBackward::Run(run),
            Coordination::FailedHere => TensorParallelBackward::FailedHere,
            Coordination::FailedOnPeer => TensorParallelBackward::FailedOnPeer,
        }
    }

    /// Takes the pending tape and says whether this rank is ready to replay it.
    fn prepare(
        &mut self,
        plan: TensorParallelPlan,
        enabled_agree: bool,
        adapters: Result<(), AdapterFault>,
    ) -> (next: TensorParallelBackward)
        requires
            2 * old(self).layers@.len() <= usize::MAX,
        ensures
            old(self).replay_step(plan, enabled_agree, adapters, None, next),
            *final(self) == old(self).after_backward_step(plan, next),
    {
        match self.ready(plan, enabled_agree, adapters) {
            Ok(run) => {
                self.replay = Some(run);
                TensorParallelBackward::Prepare(run)
            },
            Err(fault) => {
                self.replay = None;
                TensorParallelBackward::Unready(fault)
            },
        }
    }

    /// Which block a segment of a tensor-parallel tape recomputes: attention and feed-forward of
    /// each layer in turn.
    pub fn replay_segment(segment: usize) -> (step: ForwardStep)
        ensures
            step == if segment % 2 == 0 {
                ForwardStep::Attention((segment / 2) as usize)
            } else {
                ForwardStep::Mlp((segment / 2) as usize)
            },
    {
        if segment % 2 == 0 {
            ForwardStep::Attention(segment / 2)
        } else {
            ForwardStep::Mlp(segment / 2)
        }
    }

    /// Turns activation checkpointing on or off. Turning it off drops the pending tape.
    pub fn set_activation_checkpointing(&mut self, on: bool)
        ensures
            old(self).wf() ==> final(self).wf(),
            *final(self) == (Gemma4GradModel {
                remat: on,
                tape: if on {
                    old(self).tape
                } else {
                    None
                },
                ..*old(self)
            }),
    {
        self.remat = on;
        if !on {
            self.tape = None;
        }
    }

    /// Whether activation checkpointing is on.
    pub fn activation_checkpointing(&self) -> (on: bool)
        ensures
            on == self.remat,
    {
        self.remat
    }

    /// Enables or disables every adapter.
    pub fn set_adapter_enabled(&mut self, enabled: bool)
        ensures
            old(self).wf() ==> final(self).wf(),
            *final(self) == (Gemma4GradModel { adapter_enabled: enabled, ..*old(self) }),
    {
        self.adapter_enabled = enabled;
    }

    /// The trainable variables of the first layers, layer by layer.
    pub open spec fn vars_of(self, count: nat) -> Seq<TrainableVar>
        decreases count,
    {
        if count == 0 {
            Seq::empty()
        } else {
            self.vars_of((count - 1) as nat) + self.layers@[count - 1].vars((count - 1) as usize)
        }
    }

    /// Lists the trainable variables, layer by layer.
    pub fn trainable_vars(&self) -> (vars: Vec<TrainableVar>)
        ensures
            vars@ == self.vars_of(self.layers@.len()),
    {
        let mut vars: Vec<TrainableVar> = Vec::new();
        let mut layer: usize = 0;
        while layer < self.layers.len()
            invariant
                layer <= self.layers@.len(),
                vars@ == self.vars_of(layer as nat),
            decreases self.layers@.len() - layer,
        {
            self.layers[layer].push_vars(layer, &mut vars);
            layer = layer + 1;
        }
        vars
    }

    /// Whether a sharded backward pass is possible: it needs activation checkpointing.
    pub fn supports_sharded_tensor_parallel_backward(&self) -> (supported: bool)
        ensures
            supported == self.remat,
    {
        self.remat
    }

    /// The recipe that selected the adapters.
    pub fn lora_recipe(&self) -> (recipe: Option<String>)
        ensures
            recipe matches Some(recipe) && recipe@ == self.targets.recipe(),
    {
        Some(self.targets.canonical())
    }
}

/// A checkpointed ordinary pass can be replayed once, by the ordinary hook: backward finds one
/// segment per layer of the sequence that was run, and a second backward finds no tape.
pub proof fn law_tape_is_replayed_once(
    model: Gemma4GradModel,
    captured: Gemma4GradModel,
    replayed: Gemma4GradModel,
    seq_len: usize,
)
    requires
        model.remat,
        model.layers@.len() <= usize::MAX,
        captured == (Gemma4GradModel {
            tape: Some(
                Gemma4RematTape {
                    segments: model.layers@.len() as usize,
                    seq_len,
                    adapter_enabled: model.adapter_enabled,
                    execution: Gemma4RematExecution::Ordinary,
                },
            ),
            ..model
        }),
        replayed == (Gemma4GradModel { tape: None, ..captured }),
    ensures
        captured.backward_outcome() == Ok::<BackwardPlan, Gemma4ModelFault>(
            BackwardPlan::Stitched { segments: model.layers@.len() as usize, seq_len },
        ),
        replayed.backward_outcome() == Err::<BackwardPlan, Gemma4ModelFault>(
            Gemma4ModelFault::NoTape,
        ),
{
}

/// A tape is replayed only by the hook and the plan of the pass that captured it, with the
/// adapters as they were.
pub proof fn law_tape_needs_its_own_hook(
    model: Gemma4GradModel,
    tape: Gemma4RematTape,
    plan: TensorParallelPlan,
    enabled_agree: bool,
    adapters: Result<(), AdapterFault>,
)
    requires
        model.remat,
        model.tape == Some(tape),
    ensures
        model.backward_outcome() is Ok ==> tape.execution == Gemma4RematExecution::Ordinary
            && tape.adapter_enabled == model.adapter_enabled && tape.segments
            == model.layers@.len(),
        model.readiness(plan, enabled_agree, adapters) is Ok ==> tape.execution
            == Gemma4RematExecution::TensorParallel(plan) && tape.adapter_enabled
            == model.adapter_enabled && tape.segments == 2 * model.layers@.len() && enabled_agree
            && adapters is Ok,
{
}

/// Which ranks of a world refuse a forward pass.
pub open spec fn preflight_failures(models: Seq<Gemma4GradModel>, plans: Seq<TensorParallelPlan>) -> Seq<bool> {
    Seq::new(models.len(), |rank: int| models[rank].execution_fault(plans[rank]) is Some)
}

/// Either every rank of a world goes on with a forward pass or none does: a pass that one rank
/// refuses leaves no rank waiting in the vote on checkpointing.
pub proof fn law_forward_ranks_go_on_together(
    models: Seq<Gemma4GradModel>,
    plans: Seq<TensorParallelPlan>,
    failures: Real64,
    left: int,
    right: int,
)
    requires
        0 <= left < models.len(),
        0 <= right < models.len(),
        failures.equals_whole(crate::votes::tally(preflight_failures(models, plans))),
    ensures
        models[left].preflight_outcome(plans[left], failures) == Coordination::Proceed
            <==> models[right].preflight_outcome(plans[right], failures) == Coordination::Proceed,
        models[right].execution_fault(plans[right]) is Some ==> models[left].preflight_outcome(
            plans[left],
            failures,
        ) != Coordination::Proceed,
{
    crate::tensor_parallel::law_coordination_is_unanimous(
        preflight_failures(models, plans),
        failures,
        left,
        right,
    );
}

/// On which ranks of a world a detached pass is not ready to run.
pub open spec fn input_failures(
    models: Seq<Gemma4GradModel>,
    plans: Seq<TensorParallelPlan>,
    reports: Seq<StageReport>,
) -> Seq<bool> {
    Seq::new(models.len(), |rank: int| !models[rank].input_ready(plans[rank], reports[rank]))
}

/// Either every rank of a world runs a detached pass or none does.
pub proof fn law_detached_ranks_run_together(
    models: Seq<Gemma4GradModel>,
    plans: Seq<TensorParallelPlan>,
    reports: Seq<StageReport>,
    left: int,
    right: int,
)
    requires
        0 <= left < models.len(),
        0 <= right < models.len(),
        forall|rank: int|
            0 <= rank < models.len() ==> (#[trigger] reports[rank]).failures.equals_whole(
                crate::votes::tally(input_failures(models, plans, reports)),
            ),
    ensures
        models[left].input_outcome(plans[left], reports[left]) == Coordination::Proceed
            <==> models[right].input_outcome(plans[right], reports[right]) == Coordination::Proceed,
        models[right].execution_fault(plans[right]) is Some ==> models[left].input_outcome(
            plans[left],
            reports[left],
        ) != Coordination::Proceed,
{
    let failed = input_failures(models, plans, reports);
    crate::tensor_parallel::law_coordination_is_unanimous(
        failed,
        reports[left].failures,
        left,
        right,
    );
    crate::tensor_parallel::law_coordination_is_unanimous(
        failed,
        reports[right].failures,
        left,
        right,
    );
}

/// Which ranks of a world are not ready to replay their tapes.
pub open spec fn replay_failures(models: Seq<Gemma4GradModel>, reports: Seq<StageReport>) -> Seq<bool> {
    Seq::new(models.len(), |rank: int| !(models[rank].replay is Some && reports[rank].succeeded))
}

/// Either every rank of a world replays its tape or none does: a rank that is not ready, for
/// whatever reason, stops all of them.
pub proof fn law_backward_ranks_run_together(
    models: Seq<Gemma4GradModel>,
    reports: Seq<StageReport>,
    left: int,
    right: int,
)
    requires
        0 <= left < models.len(),
        0 <= right < models.len(),
        forall|rank: int|
            0 <= rank < models.len() ==> (#[trigger] reports[rank]).failures.equals_whole(
                crate::votes::tally(replay_failures(models, reports)),
            ),
    ensures
        models[left].replay_outcome(reports[left]) == Coordination::Proceed
            <==> models[right].replay_outcome(reports[right]) == Coordination::Proceed,
        models[right].replay is None ==> models[left].replay_outcome(reports[left])
            != Coordination::Proceed,
{
    let failed = replay_failures(models, reports);
    crate::tensor_parallel::law_coordination_is_unanimous(
        failed,
        reports[left].failures,
        left,
        right,
    );
    crate::tensor_parallel::law_coordination_is_unanimous(
        failed,
        reports[right].failures,
        left,
        right,
    );
}

/// A rank prepares a replay exactly when it is ready for it, and the tape is gone with it.
pub proof fn law_ready_ranks_hold_a_replay(
    model: Gemma4GradModel,
    plan: TensorParallelPlan,
    enabled_agree: bool,
    adapters: Result<(), AdapterFault>,
    next: TensorParallelBackward,
)
    requires
        model.replay_step(plan, enabled_agree, adapters, None, next),
    ensures
        model.after_backward_step(plan, next).replay is Some <==> model.readiness(
            plan,
            enabled_agree,
            adapters,
        ) is Ok,
        model.execution_fault(plan) is None ==> model.after_backward_step(plan, next).tape is None,
{
}

/// The segments of a tensor-parallel tape are replayed by the blocks that were run between their
/// boundaries: segment by segment, in the order of the pass.
pub proof fn law_segments_follow_the_pass(layers: nat, segment: nat)
    requires
        segment < 2 * layers,
        layers <= usize::MAX,
    ensures
        layers_steps(PassKind::BlockBoundaries, layers)[2 * (segment as int)] == ForwardStep::Capture,
        layers_steps(PassKind::BlockBoundaries, layers)[2 * (segment as int) + 1] == if segment % 2 == 0 {
            ForwardStep::Attention((segment / 2) as usize)
        } else {
            ForwardStep::Mlp((segment / 2) as usize)
        },
        layers_steps(PassKind::BlockBoundaries, layers).len() == 4 * layers,
    decreases layers,
{
    let shorter = (layers - 1) as nat;
    lemma_block_steps_len(shorter);
    lemma_block_steps_len(layers);
    if segment < 2 * shorter {
        law_segments_follow_the_pass(shorter, segment);
    }
}

proof fn lemma_block_steps_len(layers: nat)
    ensures
        layers_steps(PassKind::BlockBoundaries, layers).len() == 4 * layers,
    decreases layers,
{
    if layers > 0 {
        lemma_block_steps_len((layers - 1) as nat);
    }
}

impl Gemma4RematExecution {
    /// The execution as text.
    pub open spec fn debug(self) -> Seq<char> {
        match self {
            Gemma4RematExecution::Ordinary => "Ordinary"@,
            Gemma4RematExecution::TensorParallel(plan) => {
                "TensorParallel(TensorParallelPlan { rank: "@ + crate::text::decimal_text(
                    plan.at_rank() as nat,
                ) + ", world_size: "@ + crate::text::decimal_text(plan.of_world() as nat) + " })"@
            },
        }
    }

    /// The execution as text.
    pub fn show(&self) -> (text: String)
        ensures
            text@ == self.debug(),
    {
        match self {
            Gemma4RematExecution::Ordinary => String::from_str("Ordinary"),
            Gemma4RematExecution::TensorParallel(plan) => {
                let mut text = String::from_str("TensorParallel(TensorParallelPlan { rank: ");
                text.append(&decimal(plan.rank() as u64));
                text.append(", world_size: ");
                text.append(&decimal(plan.world_size() as u64));
                text.append(" })");
                text
            },
        }
    }
}

impl Gemma4ModelFault {
    /// What the fault says, given the text that a config fault or an adapter fault needs.
    pub open spec fn text(self, shown: Seq<char>) -> Seq<char> {
        match self {
            Gemma4ModelFault::Config(fault) => fault.text(shown),
            Gemma4ModelFault::NoTargets => "Gemma4GradModel: DenseLoraTargets selects no projection"@,
            Gemma4ModelFault::ShardedQuantization(quantization) => "Gemma4GradModel rank-local tensor_parallel loading does not support "@ + quantization.name() + " base quantization"@,
            Gemma4ModelFault::QuantizedTensorParallel => "Gemma4GradModel tensor_parallel execution does not support q8_0 base projections; disable tensor_parallel for world-one Q8_0 until rank-local quantized shards are implemented"@,
            Gemma4ModelFault::WeightPlan { weights, execution } => "Gemma4GradModel rank-local weight plan rank "@ + crate::text::decimal_text(weights.at_rank() as nat) + "/world "@ + crate::text::decimal_text(weights.of_world() as nat) + " does not match execution plan rank "@ + crate::text::decimal_text(execution.at_rank() as nat) + "/world "@ + crate::text::decimal_text(execution.of_world() as nat),
            Gemma4ModelFault::RankLocalWeights => "ordinary Gemma4GradModel forward cannot use rank-local tensor_parallel base weights; call a tensor_parallel forward method with the matching communicator"@,
            Gemma4ModelFault::Uneven(uneven) => "tensor_parallel axis "@ + uneven.axis.label() + " of length "@ + crate::text::decimal_text(uneven.len as nat) + " is not divisible by world_size "@ + crate::text::decimal_text(uneven.world_size as nat),
            Gemma4ModelFault::CheckpointingDiffers => "Gemma4 tensor-parallel execution: activation-checkpointing state differs across tensor-parallel ranks"@,
            Gemma4ModelFault::NeedsCheckpointing => "Gemma4GradModel sharded tensor-parallel backward requires activation checkpointing so replicated-boundary cotangents can be reduced correctly"@,
            Gemma4ModelFault::NoTape => "Gemma4GradModel::backward: activation checkpointing is on but no tape exists"@,
            Gemma4ModelFault::TapeFromTensorParallel => "Gemma4GradModel::backward: the pending activation-checkpoint tape was captured by tensor-parallel execution; call backward_tensor_parallel with the matching communicator"@,
            Gemma4ModelFault::LayerSegments { segments, layers } => "Gemma4GradModel::backward: tape has "@ + crate::text::decimal_text(segments as nat) + " layer segments for "@ + crate::text::decimal_text(layers as nat) + " layers"@,
            Gemma4ModelFault::AdapterToggled => "Gemma4GradModel::backward: adapter toggle changed between forward and backward"@,
            Gemma4ModelFault::NoTensorParallelTape => "Gemma4GradModel::backward_tensor_parallel: activation checkpointing is on but no tape exists"@,
            Gemma4ModelFault::AdaptersEnabledDiffer => "Gemma4GradModel::backward_tensor_parallel: adapter enabled state differs across tensor-parallel ranks"@,
            Gemma4ModelFault::Adapters(fault) => fault.text(shown),
            Gemma4ModelFault::TapeExecution { captured, live } => "Gemma4GradModel::backward_tensor_parallel: pending tape execution "@ + captured.debug() + " does not match live tensor-parallel rank "@ + crate::text::decimal_text(live.at_rank() as nat) + "/world "@ + crate::text::decimal_text(live.of_world() as nat),
            Gemma4ModelFault::SublayerSegments { segments, expected, layers } => "Gemma4GradModel::backward_tensor_parallel: tape has "@ + crate::text::decimal_text(segments as nat) + " sublayer segments, expected "@ + crate::text::decimal_text(expected as nat) + " for "@ + crate::text::decimal_text(layers as nat) + " layers"@,
            Gemma4ModelFault::TensorParallelAdapterToggled => "Gemma4GradModel::backward_tensor_parallel: adapter toggle changed between forward and backward"@,
        }
    }

    /// What the fault says. `shown` is the text that a config fault or an adapter fault needs; other
    /// faults ignore it.
    pub fn message(&self, shown: &str) -> (text: String)
        ensures
            text@ == self.text(shown@),
    {
        match self {
            Gemma4ModelFault::Config(fault) => String::from_str(&fault.message(shown)),
            Gemma4ModelFault::NoTargets => String::from_str("Gemma4GradModel: DenseLoraTargets selects no projection"),
            Gemma4ModelFault::ShardedQuantization(quantization) => {
                let mut text = String::from_str("Gemma4GradModel rank-local tensor_parallel loading does not support ");
                text.append(quantization.as_str());
                text.append(" base quantization");
                text
            },
            Gemma4ModelFault::QuantizedTensorParallel => String::from_str("Gemma4GradModel tensor_parallel execution does not support q8_0 base projections; disable tensor_parallel for world-one Q8_0 until rank-local quantized shards are implemented"),
            Gemma4ModelFault::WeightPlan { weights, execution } => {
                let mut text = String::from_str("Gemma4GradModel rank-local weight plan rank ");
                text.append(&decimal(weights.rank() as u64));
                text.append("/world ");
                text.append(&decimal(weights.world_size() as u64));
                text.append(" does not match execution plan rank ");
                text.append(&decimal(execution.rank() as u64));
                text.append("/world ");
                text.append(&decimal(execution.world_size() as u64));
                text
            },
            Gemma4ModelFault::RankLocalWeights => String::from_str("ordinary Gemma4GradModel forward cannot use rank-local tensor_parallel base weights; call a tensor_parallel forward method with the matching communicator"),
            Gemma4ModelFault::Uneven(uneven) => {
                let mut text = String::from_str("tensor_parallel axis ");
                text.append(uneven.axis.name());
                text.append(" of length ");
                text.append(&decimal(uneven.len as u64));
                text.append(" is not divisible by world_size ");
                text.append(&decimal(uneven.world_size as u64));
                text
            },
            Gemma4ModelFault::CheckpointingDiffers => String::from_str("Gemma4 tensor-parallel execution: activation-checkpointing state differs across tensor-parallel ranks"),
            Gemma4ModelFault::NeedsCheckpointing => String::from_str("Gemma4GradModel sharded tensor-parallel backward requires activation checkpointing so replicated-boundary cotangents can be reduced correctly"),
            Gemma4ModelFault::NoTape => String::from_str("Gemma4GradModel::backward: activation checkpointing is on but no tape exists"),
            Gemma4ModelFault::TapeFromTensorParallel => String::from_str("Gemma4GradModel::backward: the pending activation-checkpoint tape was captured by tensor-parallel execution; call backward_tensor_parallel with the matching communicator"),
            Gemma4ModelFault::LayerSegments { segments, layers } => {
                let mut text = String::from_str("Gemma4GradModel::backward: tape has ");
                text.append(&decimal(*segments as u64));
                text.append(" layer segments for ");
                text.append(&decimal(*layers as u64));
                text.append(" layers");
                text
            },
            Gemma4ModelFault::AdapterToggled => String::from_str("Gemma4GradModel::backward: adapter toggle changed between forward and backward"),
            Gemma4ModelFault::NoTensorParallelTape => String::from_str("Gemma4GradModel::backward_tensor_parallel: activation checkpointing is on but no tape exists"),
            Gemma4ModelFault::AdaptersEnabledDiffer => String::from_str("Gemma4GradModel::backward_tensor_parallel: adapter enabled state differs across tensor-parallel ranks"),
            Gemma4ModelFault::Adapters(fault) => String::from_str(&fault.message(shown)),
            Gemma4ModelFault::TapeExecution { captured, live } => {
                let mut text = String::from_str("Gemma4GradModel::backward_tensor_parallel: pending tape execution ");
                text.append(&captured.show());
                text.append(" does not match live tensor-parallel rank ");
                text.append(&decimal(live.rank() as u64));
                text.append("/world ");
                text.append(&decimal(live.world_size() as u64));
                text
            },
            Gemma4ModelFault::SublayerSegments { segments, expected, layers } => {
                let mut text = String::from_str("Gemma4GradModel::backward_tensor_parallel: tape has ");
                text.append(&decimal(*segments as u64));
                text.append(" sublayer segments, expected ");
                text.append(&decimal(*expected as u64));
                text.append(" for ");
                text.append(&decimal(*layers as u64));
                text.append(" layers");
                text
            },
            Gemma4ModelFault::TensorParallelAdapterToggled => String::from_str("Gemma4GradModel::backward_tensor_parallel: adapter toggle changed between forward and backward"),
        }
    }
}

/// Where the steps of a layer start among those of the layers.
pub open spec fn layer_start(kind: PassKind, layer: int) -> int {
    match kind {
        PassKind::Recorded => layer,
        PassKind::BlockBoundaries => 4 * layer,
        _ => 2 * layer,
    }
}

proof fn lemma_layers_steps_len(kind: PassKind, layers: nat)
    ensures
        layers_steps(kind, layers).len() == layer_start(kind, layers as int),
    decreases layers,
{
    if layers > 0 {
        lemma_layers_steps_len(kind, (layers - 1) as nat);
    }
}

proof fn lemma_layers_steps(kind: PassKind, layers: nat, layer: int, place: int)
    requires
        layers <= usize::MAX,
        0 <= layer < layers,
        0 <= place < layer_steps(kind, layer as usize).len(),
    ensures
        layers_steps(kind, layers)[layer_start(kind, layer) + place] == layer_steps(
            kind,
            layer as usize,
        )[place],
    decreases layers,
{
    let shorter = (layers - 1) as nat;
    lemma_layers_steps_len(kind, shorter);
    if layer < shorter {
        lemma_layers_steps(kind, shorter, layer, place);
        assert(layer_start(kind, layer) + place < layer_start(kind, shorter as int));
    }
}

/// A recorded pass, place by place: it embeds, runs every layer once in their order, and then the
/// head.
pub proof fn law_recorded_pass(layers: nat, layer: int)
    requires
        layers <= usize::MAX,
        0 <= layer < layers,
    ensures
        pass_steps(PassKind::Recorded, layers).len() == layers + 2,
        pass_steps(PassKind::Recorded, layers)[0] == ForwardStep::Embed,
        pass_steps(PassKind::Recorded, layers)[1 + layer] == ForwardStep::Layer(layer as usize),
        pass_steps(PassKind::Recorded, layers)[1 + layers as int] == ForwardStep::Head,
{
    let kind = PassKind::Recorded;
    lemma_pass_len(kind, layers);
    lemma_pass_opens(kind, layers, 0);
    lemma_pass_place(kind, layers, layer, 0);
    lemma_pass_closes(kind, layers, 0);
}

/// A pass that checkpoints layers, place by place: it embeds, captures the activation in front of
/// every layer and runs it, and captures once more in front of the head.
pub proof fn law_layer_boundary_pass(layers: nat, layer: int)
    requires
        layers <= usize::MAX,
        0 <= layer < layers,
    ensures
        pass_steps(PassKind::LayerBoundaries, layers).len() == 2 * layers + 3,
        pass_steps(PassKind::LayerBoundaries, layers)[0] == ForwardStep::Embed,
        pass_steps(PassKind::LayerBoundaries, layers)[1 + 2 * layer] == ForwardStep::Capture,
        pass_steps(PassKind::LayerBoundaries, layers)[2 + 2 * layer] == ForwardStep::Layer(
            layer as usize,
        ),
        pass_steps(PassKind::LayerBoundaries, layers)[1 + 2 * (layers as int)]
            == ForwardStep::Capture,
        pass_steps(PassKind::LayerBoundaries, layers)[2 + 2 * (layers as int)] == ForwardStep::Head,
{
    let kind = PassKind::LayerBoundaries;
    lemma_pass_len(kind, layers);
    lemma_pass_opens(kind, layers, 0);
    lemma_pass_place(kind, layers, layer, 0);
    lemma_pass_place(kind, layers, layer, 1);
    lemma_pass_closes(kind, layers, 0);
    lemma_pass_closes(kind, layers, 1);
}

/// A pass that checkpoints blocks, place by place: it embeds, captures the activation in front of
/// the attention and of the feed-forward block of every layer and runs them, and captures once more
/// in front of the head.
pub proof fn law_block_boundary_pass(layers: nat, layer: int)
    requires
        layers <= usize::MAX,
        0 <= layer < layers,
    ensures
        pass_steps(PassKind::BlockBoundaries, layers).len() == 4 * layers + 3,
        pass_steps(PassKind::BlockBoundaries, layers)[0] == ForwardStep::Embed,
        pass_steps(PassKind::BlockBoundaries, layers)[1 + 4 * layer] == ForwardStep::Capture,
        pass_steps(PassKind::BlockBoundaries, layers)[2 + 4 * layer] == ForwardStep::Attention(
            layer as usize,
        ),
        pass_steps(PassKind::BlockBoundaries, layers)[3 + 4 * layer] == ForwardStep::Capture,
        pass_steps(PassKind::BlockBoundaries, layers)[4 + 4 * layer] == ForwardStep::Mlp(
            layer as usize,
        ),
        pass_steps(PassKind::BlockBoundaries, layers)[1 + 4 * (layers as int)]
            == ForwardStep::Capture,
        pass_steps(PassKind::BlockBoundaries, layers)[2 + 4 * (layers as int)] == ForwardStep::Head,
{
    let kind = PassKind::BlockBoundaries;
    lemma_pass_len(kind, layers);
    lemma_pass_opens(kind, layers, 0);
    lemma_pass_place(kind, layers, layer, 0);
    lemma_pass_place(kind, layers, layer, 1);
    lemma_pass_place(kind, layers, layer, 2);
    lemma_pass_place(kind, layers, layer, 3);
    lemma_pass_closes(kind, layers, 0);
    lemma_pass_closes(kind, layers, 1);
}

/// A detached pass, place by place: it embeds, runs every layer once in their order, and cuts the
/// activation off behind the embedding and behind every layer; then it runs the head.
pub proof fn law_detached_pass(layers: nat, layer: int)
    requires
        layers <= usize::MAX,
        0 <= layer < layers,
    ensures
        pass_steps(PassKind::Detached, layers).len() == 2 * layers + 3,
        pass_steps(PassKind::Detached, layers)[0] == ForwardStep::Embed,
        pass_steps(PassKind::Detached, layers)[1] == ForwardStep::Detach,
        pass_steps(PassKind::Detached, layers)[2 + 2 * layer] == ForwardStep::Layer(layer as usize),
        pass_steps(PassKind::Detached, layers)[3 + 2 * layer] == ForwardStep::Detach,
        pass_steps(PassKind::Detached, layers)[2 + 2 * (layers as int)] == ForwardStep::Head,
{
    let kind = PassKind::Detached;
    lemma_pass_len(kind, layers);
    lemma_pass_opens(kind, layers, 0);
    lemma_pass_opens(kind, layers, 1);
    lemma_pass_place(kind, layers, layer, 0);
    lemma_pass_place(kind, layers, layer, 1);
    lemma_pass_closes(kind, layers, 0);
}

/// A wholly detached pass is a detached one that cuts the activation off behind the head too.
pub proof fn law_wholly_detached_pass(layers: nat)
    ensures
        pass_steps(PassKind::DetachedOutput, layers) == pass_steps(PassKind::Detached, layers).push(
            ForwardStep::Detach,
        ),
{
    lemma_same_detached_layers(layers);
    assert(pass_steps(PassKind::DetachedOutput, layers) =~= pass_steps(
        PassKind::Detached,
        layers,
    ).push(ForwardStep::Detach));
}

proof fn lemma_same_detached_layers(layers: nat)
    ensures
        layers_steps(PassKind::DetachedOutput, layers) == layers_steps(PassKind::Detached, layers),
    decreases layers,
{
    if layers > 0 {
        lemma_same_detached_layers((layers - 1) as nat);
    }
}

proof fn lemma_pass_place(kind: PassKind, layers: nat, layer: int, place: int)
    requires
        layers <= usize::MAX,
        0 <= layer < layers,
        0 <= place < layer_steps(kind, layer as usize).len(),
    ensures
        pass_steps(kind, layers)[opening_steps(kind).len() + layer_start(kind, layer) + place]
            == layer_steps(kind, layer as usize)[place],
{
    let (opening, steps) = (opening_steps(kind), layers_steps(kind, layers));
    let at = layer_start(kind, layer) + place;
    lemma_layers_steps_len(kind, layers);
    lemma_layers_steps(kind, layers, layer, place);
    assert(layer_start(kind, layer) + layer_steps(kind, layer as usize).len() <= layer_start(
        kind,
        layers as int,
    ));
    assert(0 <= at < steps.len());
    assert(rest_steps(kind, layers)[at] == steps[at]);
    assert(pass_steps(kind, layers)[opening.len() + at] == rest_steps(kind, layers)[at]);
}

proof fn lemma_pass_len(kind: PassKind, layers: nat)
    ensures
        pass_steps(kind, layers).len() == opening_steps(kind).len() + layer_start(
            kind,
            layers as int,
        ) + closing_steps(kind).len(),
{
    lemma_layers_steps_len(kind, layers);
}

proof fn lemma_pass_opens(kind: PassKind, layers: nat, place: int)
    requires
        0 <= place < opening_steps(kind).len(),
    ensures
        pass_steps(kind, layers)[place] == opening_steps(kind)[place],
{
}

proof fn lemma_pass_closes(kind: PassKind, layers: nat, place: int)
    requires
        0 <= place < closing_steps(kind).len(),
    ensures
        pass_steps(kind, layers)[opening_steps(kind).len() + layer_start(kind, layers as int)
            + place] == closing_steps(kind)[place],
{
    let steps = layers_steps(kind, layers);
    lemma_layers_steps_len(kind, layers);
    assert(rest_steps(kind, layers)[steps.len() + place] == closing_steps(kind)[place]);
}

/// A detached pass that runs in two parts takes the steps of one that runs in one.
pub proof fn law_parts_make_the_pass(kind: PassKind, layers: nat)
    ensures
        opening_steps(kind) + rest_steps(kind, layers) == pass_steps(kind, layers),
        opening_steps(kind).len() >= 1 && opening_steps(kind)[0] == ForwardStep::Embed,
        kind is Detached || kind is DetachedOutput <==> opening_steps(kind).len() == 2,
{
}

/// A load is refused exactly when its config is, when no projection is to be adapted, or when
/// quantized weights are to be sharded, and for the first of these that holds.
pub proof fn law_loads_are_refused(
    config: Gemma4Config,
    targets: DenseLoraTargets,
    quantization: BaseQuantization,
    plan: TensorParallelPlan,
)
    ensures
        ({
            let fault = Gemma4GradModel::load_fault(config, targets, quantization, plan);
            let none = !targets.attn_q && !targets.attn_k && !targets.attn_v && !targets.attn_o
                && !targets.mlp_gate && !targets.mlp_up && !targets.mlp_down;
            &&& config.fault() matches Some(found) ==> fault == Some(
                Gemma4ModelFault::Config(found),
            )
            &&& config.fault() is None && none ==> fault == Some(Gemma4ModelFault::NoTargets)
            &&& config.fault() is None && !none && plan.of_world() > 1 && quantization
                == BaseQuantization::Q8_0 ==> fault == Some(
                Gemma4ModelFault::ShardedQuantization(quantization),
            )
            &&& config.fault() is None && !none && (plan.of_world() <= 1 || quantization
                == BaseQuantization::Unquantized) ==> fault is None
        }),
{
}

/// Weights run tensor-parallel exactly when they are not quantized, and rank-local ones only under
/// the plan that they were laid out for.
pub proof fn law_execution_needs_its_own_weights(model: Gemma4GradModel, plan: TensorParallelPlan)
    ensures
        model.execution_fault(plan) is None <==> model.base_quantization
            == BaseQuantization::Unquantized && (model.weight_plan.of_world() > 1
            ==> model.weight_plan == plan),
        model.execution_fault(plan) matches Some(fault) ==> fault
            == if model.base_quantization == BaseQuantization::Q8_0 {
            Gemma4ModelFault::QuantizedTensorParallel
        } else {
            Gemma4ModelFault::WeightPlan { weights: model.weight_plan, execution: plan }
        },
{
}

impl Gemma4GradModel {
    /// What is uneven in a layer over a world.
    pub open spec fn uneven_at(self, world: usize, layer: int) -> Option<UnevenAxis> {
        super::layers::uneven_from(self.layers@[layer].axes(), world, 0)
    }
}

/// A plan is accepted exactly when every layer splits over its world; the axis that is named is one
/// of the first layer that does not.
pub proof fn law_every_layer_must_split(model: Gemma4GradModel, world: usize, from: int)
    requires
        0 <= from <= model.layers@.len(),
    ensures
        match model.uneven_layer_from(world, from) {
            None => forall|layer: int|
                from <= layer < model.layers@.len() ==> #[trigger] model.uneven_at(
                    world,
                    layer,
                ) is None,
            Some(uneven) => exists|layer: int|
                from <= layer < model.layers@.len() && #[trigger] model.uneven_at(world, layer)
                    == Some(uneven) && forall|before: int|
                    from <= before < layer ==> #[trigger] model.uneven_at(world, before) is None,
        },
    decreases model.layers@.len() - from,
{
    if from < model.layers@.len() {
        let own = model.uneven_at(world, from);
        if own is None {
            law_every_layer_must_split(model, world, from + 1);
            if let Some(uneven) = model.uneven_layer_from(world, from + 1) {
                let layer = choose|layer: int|
                    from + 1 <= layer < model.layers@.len() && #[trigger] model.uneven_at(
                        world,
                        layer,
                    ) == Some(uneven) && forall|before: int|
                        from + 1 <= before < layer ==> #[trigger] model.uneven_at(
                            world,
                            before,
                        ) is None;
                assert forall|before: int| from <= before < layer implies #[trigger] model.uneven_at(
                    world,
                    before,
                ) is None by {}
                assert(model.uneven_at(world, layer) == Some(uneven));
            }
        } else {
            assert(model.uneven_at(world, from) == own);
        }
    }
}

/// A forward pass runs exactly when this rank has nothing against it, no rank refuses it, and all
/// ranks of a sharded world checkpoint or none does; what runs is the checkpointed pass exactly
/// where this rank checkpoints. What a rank contributes is whether it refuses the pass itself and
/// whether it checkpoints itself.
pub proof fn law_forward_decisions(
    model: Gemma4GradModel,
    plan: TensorParallelPlan,
    seen: ForwardObservations,
    next: TensorParallelForward,
)
    requires
        model.forward_step(plan, seen, next),
    ensures
        next is Run <==> {
            &&& model.execution_fault(plan) is None
            &&& seen.preflight_failures matches Some(failures) && failures.zero()
            &&& plan.of_world() > 1 ==> (seen.checkpointed_count matches Some(count) && (
            count.zero() || count.equals_whole(plan.of_world() as nat)))
        },
        next matches TensorParallelForward::Run(steps) ==> steps@ == pass_steps(
            if model.remat {
                PassKind::BlockBoundaries
            } else {
                PassKind::Recorded
            },
            model.layers@.len(),
        ),
        next is ReducePreflight <==> seen.preflight_failures is None,
        next matches TensorParallelForward::ReducePreflight(refuses) ==> (refuses
            <==> model.execution_fault(plan) is Some),
        next matches TensorParallelForward::ReduceCheckpointing(checkpoints) ==> checkpoints
            == model.remat && plan.of_world() > 1 && seen.checkpointed_count is None,
        next is FailedOnPeer <==> model.execution_fault(plan) is None
            && seen.preflight_failures is Some && !seen.preflight_failures->0.zero(),
        next matches TensorParallelForward::Refused(fault) ==> if model.execution_fault(
            plan,
        ) is Some {
            model.execution_fault(plan) == Some(fault)
        } else {
            fault == Gemma4ModelFault::CheckpointingDiffers && seen.checkpointed_count is Some
                && !seen.checkpointed_count->0.zero() && !seen.checkpointed_count->0.equals_whole(
                plan.of_world() as nat,
            )
        },
        !(next is StageInput) && !(next is FailedHere),
{
}

/// An ordinary backward pass of a model that does not checkpoint runs through its history; one of
/// a model that does replays the pending tape, exactly when an ordinary pass captured it over all
/// layers and the adapters have not been toggled since.
pub proof fn law_ordinary_backward_decisions(model: Gemma4GradModel)
    ensures
        !model.remat ==> model.backward_outcome() == Ok::<BackwardPlan, Gemma4ModelFault>(
            BackwardPlan::Direct,
        ),
        model.remat ==> (model.backward_outcome() is Ok <==> model.tape is Some
            && model.tape->0.execution == Gemma4RematExecution::Ordinary && model.tape->0.segments
            == model.layers@.len() && model.tape->0.adapter_enabled == model.adapter_enabled),
        model.remat && model.backward_outcome() is Ok ==> model.backward_outcome() == Ok::<
            BackwardPlan,
            Gemma4ModelFault,
        >(
            BackwardPlan::Stitched {
                segments: model.tape->0.segments,
                seq_len: model.tape->0.seq_len,
            },
        ),
        model.remat && model.tape is None ==> model.backward_outcome() == Err::<
            BackwardPlan,
            Gemma4ModelFault,
        >(Gemma4ModelFault::NoTape),
{
}

/// A tensor-parallel replay is ready exactly when the weights support the execution, the ranks
/// agree, and the pending tape is of this execution, of all blocks, and of the adapters as they
/// are.
pub proof fn law_replay_readiness(
    model: Gemma4GradModel,
    plan: TensorParallelPlan,
    enabled_agree: bool,
    adapters: Result<(), AdapterFault>,
)
    ensures
        model.readiness(plan, enabled_agree, adapters) is Ok <==> {
            &&& model.execution_fault(plan) is None
            &&& model.tape is Some
            &&& enabled_agree
            &&& adapters is Ok
            &&& model.tape->0.execution == Gemma4RematExecution::TensorParallel(plan)
            &&& model.tape->0.segments == 2 * model.layers@.len()
            &&& model.tape->0.adapter_enabled == model.adapter_enabled
        },
        model.readiness(plan, enabled_agree, adapters) matches Ok(run) ==> run
            == (BackwardPlan::Stitched {
            segments: model.tape->0.segments,
            seq_len: model.tape->0.seq_len,
        }),
        model.execution_fault(plan) matches Some(fault) ==> model.readiness(
            plan,
            enabled_agree,
            adapters,
        ) == Err::<BackwardPlan, Gemma4ModelFault>(fault),
        model.execution_fault(plan) is None && model.tape is Some && enabled_agree && (
        adapters matches Err(fault) && true) ==> model.readiness(plan, enabled_agree, adapters)
            == Err::<BackwardPlan, Gemma4ModelFault>(Gemma4ModelFault::Adapters(adapters->Err_0)),
{
}

/// A tensor-parallel backward pass runs only where the world is in step: every rank has a place,
/// all ranks of a sharded world checkpoint or none, and then either the model does not checkpoint
/// and stands alone, or the adapters were listed on every rank and every rank prepared its replay.
/// What a rank contributes is what it is set to itself.
pub proof fn law_backward_decisions(
    model: Gemma4GradModel,
    plan: TensorParallelPlan,
    seen: BackwardObservations,
    next: TensorParallelBackward,
)
    requires
        model.backward_step(plan, seen, next),
    ensures
        next is ReducePreflight <==> seen.preflight_failures is None,
        next matches TensorParallelBackward::ReduceCheckpointing(checkpoints) ==> checkpoints
            == model.remat && plan.of_world() > 1 && seen.checkpointed_count is None,
        next matches TensorParallelBackward::ReduceEnabled(enabled) ==> enabled
            == model.adapter_enabled && plan.of_world() > 1 && seen.enabled_count is None,
        next is Run || next is Prepare || next is Unready || next is StageAdapters
            || next is ValidateAdapters || next is ReduceEnabled ==> {
            &&& seen.preflight_failures matches Some(failures) && failures.zero()
            &&& plan.of_world() > 1 ==> (seen.checkpointed_count matches Some(count) && (
            count.zero() || count.equals_whole(plan.of_world() as nat)))
        },
        next matches TensorParallelBackward::Run(run) ==> if model.remat {
            &&& model.replay == Some(run)
            &&& seen.adapters_staged matches Some(report) && report.succeeded
                && report.failures.zero()
            &&& seen.adapters is Some
            &&& seen.readiness matches Some(report) && report.succeeded && report.failures.zero()
        } else {
            run == BackwardPlan::Direct && plan.of_world() <= 1 && model.execution_fault(
                plan,
            ) is None
        },
        next is Prepare || next is Unready ==> {
            let agree = plan.of_world() > 1 ==> seen.enabled_count->0.zero()
                || seen.enabled_count->0.equals_whole(plan.of_world() as nat);
            &&& model.remat
            &&& plan.of_world() > 1 ==> seen.enabled_count is Some
            &&& seen.adapters is Some
            &&& seen.readiness is None
            &&& next is Prepare <==> model.readiness(plan, agree, seen.adapters->0) is Ok
            &&& next matches TensorParallelBackward::Prepare(run) ==> model.readiness(
                plan,
                agree,
                seen.adapters->0,
            ) == Ok::<BackwardPlan, Gemma4ModelFault>(run)
            &&& next matches TensorParallelBackward::Unready(fault) ==> model.readiness(
                plan,
                agree,
                seen.adapters->0,
            ) == Err::<BackwardPlan, Gemma4ModelFault>(fault)
        },
        next matches TensorParallelBackward::Refused(Gemma4ModelFault::NeedsCheckpointing)
            ==> !model.remat,
        !model.remat && plan.of_world() > 1 ==> !(next is Run),
{
}

/// The variables of a model are those of its layers, each under the number of its layer, layer after
/// layer.
pub proof fn law_variables_of_a_model(model: Gemma4GradModel, count: nat, var: TrainableVar)
    requires
        count <= model.layers@.len() <= usize::MAX,
    ensures
        model.vars_of(count).contains(var) <==> var.layer < count && model.layers@[var.layer as int].vars(
            var.layer,
        ).contains(var),
        forall|i: int, j: int|
            0 <= i < j < model.vars_of(count).len() ==> (#[trigger] model.vars_of(count)[i]).layer
                <= (#[trigger] model.vars_of(count)[j]).layer,
        forall|i: int|
            0 <= i < model.vars_of(count).len() ==> (#[trigger] model.vars_of(count)[i]).layer
                < count,
    decreases count,
{
    if count > 0 {
        let shorter = (count - 1) as nat;
        law_variables_of_a_model(model, shorter, var);
        let before = model.vars_of(shorter);
        let last = model.layers@[count - 1].vars(shorter as usize);
        let all = model.vars_of(count);
        assert(all == before + last);
        lemma_layer_numbers(model.layers@[count - 1], shorter as usize);
        reveal(numbered);
        assert forall|i: int| 0 <= i < all.len() implies (#[trigger] all[i]).layer < count && (i
            >= before.len() ==> all[i].layer == shorter) by {
            if i < before.len() {
                assert(all[i] == before[i]);
            } else {
                assert(all[i] == last[i - before.len()]);
            }
        }
        assert forall|i: int, j: int| 0 <= i < j < all.len() implies (#[trigger] all[i]).layer <= (
        #[trigger] all[j]).layer by {
            if j < before.len() {
                assert(all[i] == before[i] && all[j] == before[j]);
            }
        }
        if before.contains(var) {
            let i = choose|i: int| 0 <= i < before.len() && before[i] == var;
            assert(all[i] == var);
        }
        if last.contains(var) {
            let i = choose|i: int| 0 <= i < last.len() && last[i] == var;
            assert(all[before.len() + i] == var);
            assert(var.layer == shorter);
        }
        if all.contains(var) {
            let i = choose|i: int| 0 <= i < all.len() && all[i] == var;
            if i < before.len() {
                assert(before[i] == var);
            } else {
                assert(last[i - before.len()] == var);
            }
        }
    }
}

/// Whether variables are all of one layer.
#[verifier::opaque]
pub open spec fn numbered(vars: Seq<TrainableVar>, number: usize) -> bool {
    forall|i: int| 0 <= i < vars.len() ==> (#[trigger] vars[i]).layer == number
}

proof fn lemma_joined_numbers(left: Seq<TrainableVar>, right: Seq<TrainableVar>, number: usize)
    requires
        numbered(left, number),
        numbered(right, number),
    ensures
        numbered(left + right, number),
{
    reveal(numbered);
}

proof fn lemma_projection_numbers(plan: super::layers::ProjectionPlan, number: usize)
    ensures
        numbered(plan.vars(number), number),
{
    reveal(numbered);
}

proof fn lemma_layer_numbers(layer: Gemma4Layer, number: usize)
    ensures
        numbered(layer.vars(number), number),
{
    let q = layer.attn.q_proj.vars(number);
    let k = layer.attn.k_proj.vars(number);
    let v = match layer.attn.v_proj {
        Some(v_proj) => v_proj.vars(number),
        None => Seq::empty(),
    };
    let o = layer.attn.o_proj.vars(number);
    let gate = layer.mlp.gate_proj.vars(number);
    let up = layer.mlp.up_proj.vars(number);
    let down = layer.mlp.down_proj.vars(number);
    lemma_projection_numbers(layer.attn.q_proj, number);
    lemma_projection_numbers(layer.attn.k_proj, number);
    if let Some(v_proj) = layer.attn.v_proj {
        lemma_projection_numbers(v_proj, number);
    } else {
        assert(numbered(v, number)) by {
            reveal(numbered);
        }
    }
    lemma_projection_numbers(layer.attn.o_proj, number);
    lemma_projection_numbers(layer.mlp.gate_proj, number);
    lemma_projection_numbers(layer.mlp.up_proj, number);
    lemma_projection_numbers(layer.mlp.down_proj, number);
    lemma_joined_numbers(q, k, number);
    lemma_joined_numbers(q + k, v, number);
    lemma_joined_numbers(q + k + v, o, number);
    lemma_joined_numbers(q + k + v + o, gate, number);
    lemma_joined_numbers(q + k + v + o + gate, up, number);
    lemma_joined_numbers(q + k + v + o + gate + up, down, number);
}

/// What each fault says, word for word, around its numbers.
pub proof fn law_words_of_gemma4_model_fault(fault: Gemma4ModelFault, shown: Seq<char>)
    ensures
        fault matches Gemma4ModelFault::Config(fault) ==> fault.text(shown) == (fault.text(shown)),
        fault == Gemma4ModelFault::NoTargets ==> fault.text(shown) == ("Gemma4GradModel: DenseLoraTargets selects no projection"@),
        fault matches Gemma4ModelFault::ShardedQuantization(quantization) ==> fault.text(shown) == ("Gemma4GradModel rank-local tensor_parallel loading does not support "@ + quantization.name() + " base quantization"@),
        fault == Gemma4ModelFault::QuantizedTensorParallel ==> fault.text(shown) == ("Gemma4GradModel tensor_parallel execution does not support q8_0 base projections; disable tensor_parallel for world-one Q8_0 until rank-local quantized shards are implemented"@),
        fault matches Gemma4ModelFault::WeightPlan { weights, execution } ==> fault.text(shown) == ("Gemma4GradModel rank-local weight plan rank "@ + crate::text::decimal_text(weights.at_rank() as nat) + "/world "@ + crate::text::decimal_text(weights.of_world() as nat) + " does not match execution plan rank "@ + crate::text::decimal_text(execution.at_rank() as nat) + "/world "@ + crate::text::decimal_text(execution.of_world() as nat)),
        fault == Gemma4ModelFault::RankLocalWeights ==> fault.text(shown) == ("ordinary Gemma4GradModel forward cannot use rank-local tensor_parallel base weights; call a tensor_parallel forward method with the matching communicator"@),
        fault matches Gemma4ModelFault::Uneven(uneven) ==> fault.text(shown) == ("tensor_parallel axis "@ + uneven.axis.label() + " of length "@ + crate::text::decimal_text(uneven.len as nat) + " is not divisible by world_size "@ + crate::text::decimal_text(uneven.world_size as nat)),
        fault == Gemma4ModelFault::CheckpointingDiffers ==> fault.text(shown) == ("Gemma4 tensor-parallel execution: activation-checkpointing state differs across tensor-parallel ranks"@),
        fault == Gemma4ModelFault::NeedsCheckpointing ==> fault.text(shown) == ("Gemma4GradModel sharded tensor-parallel backward requires activation checkpointing so replicated-boundary cotangents can be reduced correctly"@),
        fault == Gemma4ModelFault::NoTape ==> fault.text(shown) == ("Gemma4GradModel::backward: activation checkpointing is on but no tape exists"@),
        fault == Gemma4ModelFault::TapeFromTensorParallel ==> fault.text(shown) == ("Gemma4GradModel::backward: the pending activation-checkpoint tape was captured by tensor-parallel execution; call backward_tensor_parallel with the matching communicator"@),
        fault matches Gemma4ModelFault::LayerSegments { segments, layers } ==> fault.text(shown) == ("Gemma4GradModel::backward: tape has "@ + crate::text::decimal_text(segments as nat) + " layer segments for "@ + crate::text::decimal_text(layers as nat) + " layers"@),
        fault == Gemma4ModelFault::AdapterToggled ==> fault.text(shown) == ("Gemma4GradModel::backward: adapter toggle changed between forward and backward"@),
        fault == Gemma4ModelFault::NoTensorParallelTape ==> fault.text(shown) == ("Gemma4GradModel::backward_tensor_parallel: activation checkpointing is on but no tape exists"@),
        fault == Gemma4ModelFault::AdaptersEnabledDiffer ==> fault.text(shown) == ("Gemma4GradModel::backward_tensor_parallel: adapter enabled state differs across tensor-parallel ranks"@),
        fault matches Gemma4ModelFault::Adapters(fault) ==> fault.text(shown) == (fault.text(shown)),
        fault matches Gemma4ModelFault::TapeExecution { captured, live } ==> fault.text(shown) == ("Gemma4GradModel::backward_tensor_parallel: pending tape execution "@ + captured.debug() + " does not match live tensor-parallel rank "@ + crate::text::decimal_text(live.at_rank() as nat) + "/world "@ + crate::text::decimal_text(live.of_world() as nat)),
        fault matches Gemma4ModelFault::SublayerSegments { segments, expected, layers } ==> fault.text(shown) == ("Gemma4GradModel::backward_tensor_parallel: tape has "@ + crate::text::decimal_text(segments as nat) + " sublayer segments, expected "@ + crate::text::decimal_text(expected as nat) + " for "@ + crate::text::decimal_text(layers as nat) + " layers"@),
        fault == Gemma4ModelFault::TensorParallelAdapterToggled ==> fault.text(shown) == ("Gemma4GradModel::backward_tensor_parallel: adapter toggle changed between forward and backward"@),
{
}

/// How each kind of execution is shown.
pub proof fn law_words_of_gemma4_remat_execution(execution: Gemma4RematExecution)
    ensures
        execution == Gemma4RematExecution::Ordinary ==> execution.debug() == ("Ordinary"@),
        execution matches Gemma4RematExecution::TensorParallel(plan) ==> execution.debug() == ({ "TensorParallel(TensorParallelPlan { rank: "@ + crate::text::decimal_text( plan.at_rank() as nat, ) + ", world_size: "@ + crate::text::decimal_text(plan.of_world() as nat) + " })"@ }),
{
}

/// A model that is laid out has the layers, sizes, weights and adapters that it was asked for; its
/// adapters are on, it does not checkpoint, and it holds no tape.
pub proof fn law_loaded_models(
    model: Gemma4GradModel,
    config: Gemma4Config,
    targets: DenseLoraTargets,
    quantization: BaseQuantization,
    plan: TensorParallelPlan,
    index: int,
)
    requires
        model.laid_out(config, targets, quantization, plan),
        0 <= index < model.layers@.len(),
    ensures
        model.layers@.len() == config.text_config.num_hidden_layers,
        model.layers@[index] == config.text_config.layer(index, targets, plan),
        model.hidden == config.text_config.hidden_size,
        model.sliding_window == config.text_config.sliding_window,
        model.base_quantization == quantization,
        model.weight_plan == plan,
        model.targets == targets,
        model.adapter_enabled,
        !model.remat,
        model.tape is None,
        model.replay is None,
{
}

/// A detached pass goes on exactly when nothing stands against it, its input is staged here, and no
/// rank failed; a rank that is not ready itself says so before it looks at its peers.
pub proof fn law_detached_decisions(
    model: Gemma4GradModel,
    plan: TensorParallelPlan,
    staged: StageReport,
)
    ensures
        model.input_outcome(plan, staged) == Coordination::Proceed <==> model.execution_fault(
            plan,
        ) is None && staged.succeeded && staged.failures.zero(),
        model.input_outcome(plan, staged) == Coordination::FailedHere <==> model.execution_fault(
            plan,
        ) is Some || !staged.succeeded,
{
}

} // verus!
