//! The control state of the cached decoder: which position its caches are at, which keys each
//! layer attends to, and which executions its weights support.
use super::attention::AttentionShapes;
use super::cache::{sliding_mask, CacheAppend, Gemma4KvCache};
use super::config::Gemma4LayerType;
use super::layers::{Gemma4Layer, UnevenAxis};
use super::mask::{merged_masks_at, AttentionMask};
use super::model::Gemma4GradModel;
use crate::lora::BaseQuantization;
use crate::tensor_parallel::{coordinate_local_call, Coordination, StageReport, TensorParallelPlan};
use crate::text::decimal;
use vstd::prelude::*;

verus! {

/// A layer of the decoder with its cache.
#[derive(Debug, Clone, Copy, PartialEq, Eq, Structural)]
pub struct Gemma4MergedLayer {
    pub layer: Gemma4Layer,
    pub cache: Gemma4KvCache,
}

/// The control state of a decoder.
#[derive(Debug)]
pub struct Gemma4MergedDecoder {
    pub layers: Vec<Gemma4MergedLayer>,
    pub hidden: usize,
    pub base_quantization: BaseQuantization,
    pub weight_plan: TensorParallelPlan,
}

/// Why a decoder does not run.
#[derive(Debug, Clone, Copy, PartialEq, Eq, Structural)]
pub enum Gemma4DecoderFault {
    /// Rank-local weights cannot run on their own.
    RankLocalWeights,
    /// The chunk does not start where the caches end.
    Offset { offset: usize, cached: usize },
    /// Quantized weights cannot run tensor-parallel.
    QuantizedTensorParallel,
    /// The rank-local weights are those of another plan.
    WeightPlan { weights: TensorParallelPlan, execution: TensorParallelPlan },
    /// A tensor-parallel chunk does not start where the caches end.
    TensorParallelOffset { offset: usize, cached: usize },
    /// An axis does not split over the world.
    Uneven(UnevenAxis),
}

/// The keys that a layer's chunk attends to.
#[derive(Debug)]
pub struct CachedAttention {
    /// How the chunk entered the cache.
    pub append: CacheAppend,
    /// The layer's own mask: that of its window, for a sliding layer.
    pub mask: Option<AttentionMask>,
}

/// A pass of a chunk through all layers.
#[derive(Debug)]
pub struct CachedPass {
    /// The mask of the global layers.
    pub full: Option<AttentionMask>,
    /// The attention of each layer.
    pub layers: Vec<CachedAttention>,
}

/// What a rank does next in a tensor-parallel pass of a chunk.
#[derive(Debug)]
pub enum CachedForward {
    /// Embed the chunk, unless this rank refuses it, and let the ranks count who failed.
    StageInput { refused: bool },
    /// Every rank is ready: run.
    Run(CachedPass),
    /// This rank refuses the chunk.
    Refused(Gemma4DecoderFault),
    /// The embedding failed on this rank.
    FailedHere,
    /// Another rank refuses the chunk or could not embed it.
    FailedOnPeer,
}

/// The state of a layer's cache, as telemetry records it.
#[derive(Debug)]
pub struct DecoderCacheSnapshot {
    pub phase: String,
    pub layer_index: usize,
    pub kind: String,
    pub seen_tokens: usize,
    pub retained_tokens: usize,
    pub max_retained_tokens: Option<usize>,
}

/// The most positions that a layer's cache holds: the window of a sliding layer.
pub open spec fn cache_limit(kind: Gemma4LayerType, sliding_window: usize) -> Option<usize> {
    match kind {
        Gemma4LayerType::SlidingAttention => Some(sliding_window),
        Gemma4LayerType::FullAttention => None,
    }
}

impl Gemma4MergedLayer {
    /// The positions and the mask of a chunk fit the machine.
    pub open spec fn chunk_fits(self, offset: nat, chunk_len: nat) -> bool {
        &&& offset + chunk_len <= usize::MAX
        &&& self.cache.seen() + chunk_len <= usize::MAX
        &&& chunk_len * (self.cache.seen() + chunk_len) <= usize::MAX
    }

    /// What a chunk attends to: all that the cache holds and itself, in a sliding layer under a
    /// mask of its own.
    pub open spec fn attends(self, offset: nat, chunk_len: nat, attention: CachedAttention) -> bool {
        let append = self.cache.append_of(chunk_len);
        &&& attention.append == append
        &&& match self.layer.attn.kind {
            Gemma4LayerType::SlidingAttention => attention.mask matches Some(mask) && mask.covers(
                offset,
                chunk_len,
                append.key_start as nat,
                append.key_len as nat,
                self.cache.limit(),
            ),
            Gemma4LayerType::FullAttention => attention.mask is None,
        }
    }

    /// Whether the layer is as it was, but for a chunk that entered its cache.
    pub open spec fn advanced(self, before: Self, chunk_len: nat) -> bool {
        &&& self.layer == before.layer
        &&& self.cache.wf()
        &&& self.cache.limit() == before.cache.limit()
        &&& self.cache.seen() == before.cache.seen() + chunk_len
    }

    /// Enters a chunk into the cache and says what its queries attend to.
    pub fn attend(&mut self, offset: usize, chunk_len: usize) -> (attention: CachedAttention)
        requires
            old(self).cache.wf(),
            old(self).chunk_fits(offset as nat, chunk_len as nat),
        ensures
            old(self).attends(offset as nat, chunk_len as nat, attention),
            final(self).advanced(*old(self), chunk_len as nat),
    {
        let before = self.cache;
        proof {
            vstd::arithmetic::mul::lemma_mul_inequality(
                (before.held() + chunk_len) as int,
                (before.seen() + chunk_len) as int,
                chunk_len as int,
            );
            vstd::arithmetic::mul::lemma_mul_is_commutative(
                (before.held() + chunk_len) as int,
                chunk_len as int,
            );
            vstd::arithmetic::mul::lemma_mul_is_commutative(
                (before.seen() + chunk_len) as int,
                chunk_len as int,
            );
        }
        let append = self.cache.append(chunk_len);
        let mask = match self.layer.attn.kind {
            Gemma4LayerType::SlidingAttention => Some(
                sliding_mask(&before, &append, offset, chunk_len),
            ),
            Gemma4LayerType::FullAttention => None,
        };
        CachedAttention { append, mask }
    }

    /// Enters a chunk of `batch` rows into a rank's cache and says in which shapes it is attended
    /// to. Heads that do not split over the world are refused before the cache is touched.
    pub fn forward_tensor_parallel(
        &mut self,
        batch: usize,
        offset: usize,
        chunk_len: usize,
        plan: &TensorParallelPlan,
    ) -> (pass: Result<(AttentionShapes, CachedAttention), UnevenAxis>)
        requires
            old(self).layer.attn.wf(),
            old(self).cache.wf(),
            old(self).chunk_fits(offset as nat, chunk_len as nat),
            plan.wf(),
        ensures
            match pass {
                Ok((shapes, attention)) => {
                    &&& old(self).layer.attn.uneven_heads(plan.of_world()) is None
                    &&& old(self).attends(offset as nat, chunk_len as nat, attention)
                    &&& shapes == old(self).layer.attn.shapes(
                        batch,
                        chunk_len,
                        attention.append.key_len,
                        plan.of_world(),
                    )
                    &&& final(self).advanced(*old(self), chunk_len as nat)
                },
                Err(uneven) => {
                    &&& old(self).layer.attn.uneven_heads(plan.of_world()) == Some(uneven)
                    &&& *final(self) == *old(self)
                },
            },
    {
        if let Err(uneven) = self.layer.attn.forward_at_tensor_parallel(
            batch,
            chunk_len,
            chunk_len,
            plan,
        ) {
            return Err(uneven);
        }
        let attention = self.attend(offset, chunk_len);
        let shapes = self.layer.attn.forward_at_tensor_parallel(
            batch,
            chunk_len,
            attention.append.key_len,
            plan,
        )?;
        Ok((shapes, attention))
    }
}

impl Gemma4MergedDecoder {
    /// Every cache is well formed.
    pub open spec fn wf(self) -> bool {
        &&& self.weight_plan.wf()
        &&& forall|layer: int|
            0 <= layer < self.layers@.len() ==> (#[trigger] self.layers@[layer]).cache.wf()
    }

    /// Every cache is at the same position.
    pub open spec fn in_step(self, position: nat) -> bool {
        forall|layer: int|
            0 <= layer < self.layers@.len() ==> (#[trigger] self.layers@[layer]).cache.seen()
                == position
    }

    /// The position that the decoder goes by: that of its first cache.
    pub open spec fn cached(self) -> nat {
        if self.layers@.len() == 0 {
            0
        } else {
            self.layers@[0].cache.seen()
        }
    }

    /// Snapshots a model into a decoder with empty caches.
    pub fn from_model(model: &Gemma4GradModel) -> (decoder: Self)
        requires
            model.weight_plan.wf(),
        ensures
            decoder.wf(),
            decoder.in_step(0),
            decoder.layers@.len() == model.layers@.len(),
            forall|layer: int|
                0 <= layer < decoder.layers@.len() ==> (#[trigger] decoder.layers@[layer]).layer
                    == model.layers@[layer] && decoder.layers@[layer].cache.limit() == cache_limit(
                    model.layers@[layer].attn.kind,
                    model.sliding_window,
                ),
            decoder.hidden == model.hidden,
            decoder.base_quantization == model.base_quantization,
            decoder.weight_plan == model.weight_plan,
    {
        let mut layers: Vec<Gemma4MergedLayer> = Vec::new();
        let mut index: usize = 0;
        while index < model.layers.len()
            invariant
                index <= model.layers@.len(),
                layers@.len() == index,
                forall|i: int|
                    0 <= i < index ==> {
                        &&& (#[trigger] layers@[i]).layer == model.layers@[i]
                        &&& layers@[i].cache.wf()
                        &&& layers@[i].cache.seen() == 0
                        &&& layers@[i].cache.limit() == cache_limit(
                            model.layers@[i].attn.kind,
                            model.sliding_window,
                        )
                    },
            decreases model.layers@.len() - index,
        {
            let layer = model.layers[index];
            let limit: Option<usize> = match layer.attn.kind {
                Gemma4LayerType::SlidingAttention => Some(model.sliding_window),
                Gemma4LayerType::FullAttention => None,
            };
            layers.push(Gemma4MergedLayer { layer, cache: Gemma4KvCache::new(limit) });
            index = index + 1;
        }
        Gemma4MergedDecoder {
            layers,
            hidden: model.hidden,
            base_quantization: model.base_quantization,
            weight_plan: model.weight_plan,
        }
    }

    /// The position that the decoder goes by.
    pub fn current_seq_len(&self) -> (cached: usize)
        ensures
            cached == self.cached(),
    {
        if self.layers.len() == 0 {
            0
        } else {
            self.layers[0].cache.current_seq_len()
        }
    }

    /// The positions and masks of a chunk fit the machine.
    pub open spec fn chunk_fits(self, offset: nat, chunk_len: nat) -> bool {
        &&& offset + chunk_len <= usize::MAX
        &&& chunk_len * (offset + chunk_len) <= usize::MAX
        &&& forall|layer: int|
            0 <= layer < self.layers@.len() ==> {
                &&& (#[trigger] self.layers@[layer]).cache.seen() + chunk_len <= usize::MAX
                &&& chunk_len * (self.layers@[layer].cache.seen() + chunk_len) <= usize::MAX
            }
    }

    /// The positions and the mask of a layer's chunk fit the machine.
    pub open spec fn layer_chunk_fits(self, layer: int, offset: nat, chunk_len: nat) -> bool {
        self.layers@[layer].chunk_fits(offset, chunk_len)
    }

    /// What a layer's chunk attends to.
    pub open spec fn layer_attends(
        self,
        layer: int,
        offset: nat,
        chunk_len: nat,
        attention: CachedAttention,
    ) -> bool {
        self.layers@[layer].attends(offset, chunk_len, attention)
    }

    /// Whether a layer is as it was, but for a chunk that entered its cache.
    pub open spec fn layer_advanced(self, before: Self, layer: int, chunk_len: nat) -> bool {
        self.layers@[layer].advanced(before.layers@[layer], chunk_len)
    }

    /// Whether the decoder is as it was, but for its caches.
    pub open spec fn same_weights(self, before: Self) -> bool {
        &&& self.layers@.len() == before.layers@.len()
        &&& self.hidden == before.hidden
        &&& self.base_quantization == before.base_quantization
        &&& self.weight_plan == before.weight_plan
    }

    /// Enters a chunk into a layer's cache and says what its queries attend to. Other layers
    /// stay as they are.
    pub fn advance_layer(&mut self, layer: usize, offset: usize, chunk_len: usize) -> (attention:
        CachedAttention)
        requires
            old(self).wf(),
            layer < old(self).layers@.len(),
            old(self).layer_chunk_fits(layer as int, offset as nat, chunk_len as nat),
        ensures
            old(self).layer_attends(layer as int, offset as nat, chunk_len as nat, attention),
            final(self).layer_advanced(*old(self), layer as int, chunk_len as nat),
            final(self).same_weights(*old(self)),
            forall|other: int|
                0 <= other < old(self).layers@.len() && other != layer
                    ==> #[trigger] final(self).layers@[other] == old(self).layers@[other],
            final(self).wf(),
    {
        proof {
            assert(self.layers@[layer as int].cache.wf());
        }
        let mut merged = self.layers[layer];
        let attention = merged.attend(offset, chunk_len);
        self.layers.set(layer, merged);
        attention
    }
}

impl Gemma4MergedDecoder {
    /// What a pass of a chunk through all layers attends to.
    pub open spec fn pass_attends(self, offset: nat, chunk_len: nat, pass: CachedPass) -> bool {
        &&& super::mask::mask_or_none(pass.full, chunk_len == 1, offset, chunk_len, None)
        &&& pass.layers@.len() == self.layers@.len()
        &&& forall|layer: int|
            0 <= layer < self.layers@.len() ==> #[trigger] self.layer_attends(
                layer,
                offset,
                chunk_len,
                pass.layers@[layer],
            )
    }

    /// Whether the decoder is as it was, but for a chunk that entered every cache.
    pub open spec fn advanced(self, before: Self, chunk_len: nat) -> bool {
        &&& self.same_weights(before)
        &&& forall|layer: int|
            0 <= layer < before.layers@.len() ==> #[trigger] self.layer_advanced(
                before,
                layer,
                chunk_len,
            )
    }

    /// Enters a chunk into every cache.
    fn advance(&mut self, offset: usize, chunk_len: usize) -> (pass: CachedPass)
        requires
            old(self).wf(),
            old(self).chunk_fits(offset as nat, chunk_len as nat),
        ensures
            old(self).pass_attends(offset as nat, chunk_len as nat, pass),
            final(self).advanced(*old(self), chunk_len as nat),
            final(self).wf(),
    {
        let masks = merged_masks_at(offset, chunk_len);
        let ghost before = *self;
        let mut layers: Vec<CachedAttention> = Vec::new();
        let mut layer: usize = 0;
        while layer < self.layers.len()
            invariant
                before == *old(self),
                before.wf(),
                before.chunk_fits(offset as nat, chunk_len as nat),
                self.wf(),
                self.same_weights(before),
                layer <= self.layers@.len(),
                layers@.len() == layer,
                forall|i: int|
                    0 <= i < layer ==> #[trigger] self.layer_advanced(before, i, chunk_len as nat),
                forall|i: int|
                    layer <= i < self.layers@.len() ==> #[trigger] self.layers@[i]
                        == before.layers@[i],
                forall|i: int|
                    0 <= i < layer ==> #[trigger] before.layer_attends(
                        i,
                        offset as nat,
                        chunk_len as nat,
                        layers@[i],
                    ),
            decreases self.layers@.len() - layer,
        {
            let ghost now = *self;
            let attention = self.advance_layer(layer, offset, chunk_len);
            layers.push(attention);
            proof {
                assert(now.layers@[layer as int] == before.layers@[layer as int]);
                assert forall|i: int| 0 <= i < layer + 1 implies #[trigger] self.layer_advanced(
                    before,
                    i,
                    chunk_len as nat,
                ) by {
                    if i < layer {
                        assert(now.layer_advanced(before, i, chunk_len as nat));
                        assert(self.layers@[i] == now.layers@[i]);
                    }
                }
                assert forall|i: int| 0 <= i < layer + 1 implies #[trigger] before.layer_attends(
                    i,
                    offset as nat,
                    chunk_len as nat,
                    layers@[i],
                ) by {}
            }
            layer = layer + 1;
        }
        CachedPass { full: masks.full, layers }
    }

    /// Why the decoder does not run tensor-parallel under a plan.
    pub open spec fn execution_fault(self, plan: TensorParallelPlan) -> Option<Gemma4DecoderFault> {
        if self.base_quantization == BaseQuantization::Q8_0 {
            Some(Gemma4DecoderFault::QuantizedTensorParallel)
        } else if self.weight_plan.sharded() && self.weight_plan != plan {
            Some(Gemma4DecoderFault::WeightPlan { weights: self.weight_plan, execution: plan })
        } else {
            None
        }
    }

    /// Why a chunk is refused: rank-local weights, or a chunk that does not start where the
    /// caches end.
    pub open spec fn forward_fault(self, offset: usize) -> Option<Gemma4DecoderFault> {
        if self.weight_plan.sharded() {
            Some(Gemma4DecoderFault::RankLocalWeights)
        } else if offset != self.cached() {
            Some(Gemma4DecoderFault::Offset { offset, cached: self.cached() as usize })
        } else {
            None
        }
    }

    /// The first axis of the layers from the given one on that does not split over a world.
    pub open spec fn uneven_layer_from(self, world: usize, layer: int) -> Option<UnevenAxis>
        decreases self.layers@.len() - layer,
    {
        if layer < 0 || layer >= self.layers@.len() {
            None
        } else {
            let uneven = super::layers::uneven_from(self.layers@[layer].layer.axes(), world, 0);
            if uneven is Some {
                uneven
            } else {
                self.uneven_layer_from(world, layer + 1)
            }
        }
    }

    /// Why a tensor-parallel chunk is refused.
    pub open spec fn tensor_parallel_fault(self, plan: TensorParallelPlan, offset: usize) -> Option<
        Gemma4DecoderFault,
    > {
        if self.execution_fault(plan) is Some {
            self.execution_fault(plan)
        } else if offset != self.cached() {
            Some(
                Gemma4DecoderFault::TensorParallelOffset {
                    offset,
                    cached: self.cached() as usize,
                },
            )
        } else {
            match self.uneven_layer_from(plan.of_world(), 0) {
                Some(uneven) => Some(Gemma4DecoderFault::Uneven(uneven)),
                None => None,
            }
        }
    }

    /// Runs a chunk from a position on: every layer's cache takes it in. A refused chunk leaves
    /// every cache as it was.
    pub fn forward(&mut self, chunk_len: usize, offset: usize) -> (pass: Result<
        CachedPass,
        Gemma4DecoderFault,
    >)
        requires
            old(self).wf(),
            offset == old(self).cached() ==> old(self).chunk_fits(offset as nat, chunk_len as nat),
        ensures
            final(self).wf(),
            match pass {
                Ok(pass) => {
                    &&& old(self).forward_fault(offset) is None
                    &&& old(self).pass_attends(offset as nat, chunk_len as nat, pass)
                    &&& final(self).advanced(*old(self), chunk_len as nat)
                },
                Err(fault) => old(self).forward_fault(offset) == Some(fault) && *final(self)
                    == *old(self),
            },
    {
        if self.weight_plan.is_sharded() {
            return Err(Gemma4DecoderFault::RankLocalWeights);
        }
        let cached: usize = self.current_seq_len();
        if offset != cached {
            return Err(Gemma4DecoderFault::Offset { offset, cached });
        }
        Ok(self.advance(offset, chunk_len))
    }

    /// Refuses a tensor-parallel execution that the weights do not support.
    pub fn validate_tensor_parallel_execution_support(&self, plan: TensorParallelPlan) -> (verdict:
        Result<(), Gemma4DecoderFault>)
        ensures
            match verdict {
                Ok(()) => self.execution_fault(plan) is None,
                Err(fault) => self.execution_fault(plan) == Some(fault),
            },
    {
        if self.base_quantization == BaseQuantization::Q8_0 {
            return Err(Gemma4DecoderFault::QuantizedTensorParallel);
        }
        if self.weight_plan.is_sharded() && self.weight_plan != plan {
            return Err(
                Gemma4DecoderFault::WeightPlan { weights: self.weight_plan, execution: plan },
            );
        }
        Ok(())
    }

    /// Refuses a plan over whose world some axis does not split.
    pub fn validate_tensor_parallel_plan(&self, plan: &TensorParallelPlan) -> (verdict: Result<
        (),
        UnevenAxis,
    >)
        requires
            plan.wf(),
        ensures
            match verdict {
                Ok(()) => self.uneven_layer_from(plan.of_world(), 0) is None,
                Err(uneven) => self.uneven_layer_from(plan.of_world(), 0) == Some(uneven),
            },
    {
        let mut layer: usize = 0;
        while layer < self.layers.len()
            invariant
                layer <= self.layers@.len(),
                plan.wf(),
                self.uneven_layer_from(plan.of_world(), 0) == self.uneven_layer_from(
                    plan.of_world(),
                    layer as int,
                ),
            decreases self.layers@.len() - layer,
        {
            if let Err(uneven) = self.layers[layer].layer.validate_tensor_parallel_plan(plan) {
                return Err(uneven);
            }
            layer = layer + 1;
        }
        Ok(())
    }

    /// Refuses a tensor-parallel chunk that the weights or the layers do not support, or that does
    /// not start where the caches end.
    fn check_tensor_parallel(&self, plan: TensorParallelPlan, offset: usize) -> (verdict: Result<
        (),
        Gemma4DecoderFault,
    >)
        requires
            plan.wf(),
        ensures
            match verdict {
                Ok(()) => self.tensor_parallel_fault(plan, offset) is None,
                Err(fault) => self.tensor_parallel_fault(plan, offset) == Some(fault),
            },
    {
        if let Err(fault) = self.validate_tensor_parallel_execution_support(plan) {
            return Err(fault);
        }
        let cached: usize = self.current_seq_len();
        if offset != cached {
            return Err(Gemma4DecoderFault::TensorParallelOffset { offset, cached });
        }
        match self.validate_tensor_parallel_plan(&plan) {
            Ok(()) => Ok(()),
            Err(uneven) => Err(Gemma4DecoderFault::Uneven(uneven)),
        }
    }

    /// Whether this rank is ready to run a chunk: nothing stands against it and it is embedded.
    pub open spec fn input_ready(self, plan: TensorParallelPlan, offset: usize, staged: StageReport) -> bool {
        self.tensor_parallel_fault(plan, offset) is None && staged.succeeded
    }

    /// What the ranks make of a chunk once they have counted who failed.
    pub open spec fn input_outcome(self, plan: TensorParallelPlan, offset: usize, staged: StageReport) -> Coordination {
        crate::tensor_parallel::coordinated(self.input_ready(plan, offset, staged), staged.failures)
    }

    /// The step that follows what a rank knows of a chunk's input, and what it leaves of the
    /// decoder.
    pub open spec fn chunk_step(
        self,
        chunk_len: usize,
        offset: usize,
        plan: TensorParallelPlan,
        staged: Option<StageReport>,
        next: CachedForward,
        after: Self,
    ) -> bool {
        match staged {
            None => {
                &&& next == (CachedForward::StageInput {
                    refused: self.tensor_parallel_fault(plan, offset) is Some,
                })
                &&& after == self
            },
            Some(report) => match self.input_outcome(plan, offset, report) {
                Coordination::Proceed => {
                    &&& next matches CachedForward::Run(pass)
                    &&& self.pass_attends(offset as nat, chunk_len as nat, pass)
                    &&& after.advanced(self, chunk_len as nat)
                },
                Coordination::FailedHere => {
                    &&& next == match self.tensor_parallel_fault(plan, offset) {
                        Some(fault) => CachedForward::Refused(fault),
                        None => CachedForward::FailedHere,
                    }
                    &&& after == self
                },
                Coordination::FailedOnPeer => {
                    &&& next == CachedForward::FailedOnPeer
                    &&& after == self
                },
            },
        }
    }

    /// Says what a rank does next to run a chunk from a position on under a plan, given what came
    /// of staging its input once the ranks know it. Where every rank is ready, every layer's cache
    /// takes the chunk in. Where one is not, no rank runs and every cache stays as it was.
    pub fn forward_tensor_parallel(
        &mut self,
        chunk_len: usize,
        offset: usize,
        plan: TensorParallelPlan,
        staged: Option<StageReport>,
    ) -> (next: CachedForward)
        requires
            old(self).wf(),
            plan.wf(),
            offset == old(self).cached() ==> old(self).chunk_fits(offset as nat, chunk_len as nat),
        ensures
            final(self).wf(),
            old(self).chunk_step(chunk_len, offset, plan, staged, next, *final(self)),
    {
        let verdict = self.check_tensor_parallel(plan, offset);
        let report = match staged {
            None => return CachedForward::StageInput { refused: verdict.is_err() },
            Some(report) => report,
        };
        if let Err(fault) = verdict {
            return CachedForward::Refused(fault);
        }
        match coordinate_local_call(report.succeeded, report.failures) {
            Coordination::Proceed => CachedForward::Run(self.advance(offset, chunk_len)),
            Coordination::FailedHere => CachedForward::FailedHere,
            Coordination::FailedOnPeer => CachedForward::FailedOnPeer,
        }
    }

    /// Empties every cache.
    pub fn reset_cache(&mut self)
        requires
            old(self).wf(),
        ensures
            final(self).wf(),
            final(self).in_step(0),
            final(self).same_weights(*old(self)),
            forall|layer: int|
                0 <= layer < final(self).layers@.len()
                    ==> (#[trigger] final(self).layers@[layer]).layer
                    == old(self).layers@[layer].layer && final(self).layers@[layer].cache.limit()
                    == old(self).layers@[layer].cache.limit(),
    {
        let ghost before = *self;
        let mut layer: usize = 0;
        while layer < self.layers.len()
            invariant
                before == *old(self),
                before.wf(),
                self.same_weights(before),
                layer <= self.layers@.len(),
                forall|i: int|
                    0 <= i < self.layers@.len() ==> (#[trigger] self.layers@[i]).layer
                        == before.layers@[i].layer && self.layers@[i].cache.limit()
                        == before.layers@[i].cache.limit() && self.layers@[i].cache.wf(),
                forall|i: int|
                    0 <= i < layer ==> (#[trigger] self.layers@[i]).cache.seen() == 0,
            decreases self.layers@.len() - layer,
        {
            let mut merged = self.layers[layer];
            merged.cache.reset();
            self.layers.set(layer, merged);
            layer = layer + 1;
        }
    }

    /// The name of an attention kind in a snapshot.
    pub open spec fn kind_name(kind: Gemma4LayerType) -> Seq<char> {
        match kind {
            Gemma4LayerType::SlidingAttention => "sliding_attention"@,
            Gemma4LayerType::FullAttention => "full_attention"@,
        }
    }

    /// Records the state of every cache under a phase.
    pub fn decoder_cache_snapshots(&self, phase: &str) -> (snapshots: Vec<DecoderCacheSnapshot>)
        ensures
            snapshots@.len() == self.layers@.len(),
            forall|layer: int|
                0 <= layer < snapshots@.len() ==> {
                    &&& (#[trigger] snapshots@[layer]).phase@ == phase@
                    &&& snapshots@[layer].layer_index == layer
                    &&& snapshots@[layer].kind@ == Self::kind_name(
                        self.layers@[layer].layer.attn.kind,
                    )
                    &&& snapshots@[layer].seen_tokens == self.layers@[layer].cache.seen()
                    &&& snapshots@[layer].retained_tokens == self.layers@[layer].cache.held()
                    &&& snapshots@[layer].max_retained_tokens == self.layers@[layer].cache.limit()
                },
    {
        let mut snapshots: Vec<DecoderCacheSnapshot> = Vec::new();
        let mut layer: usize = 0;
        while layer < self.layers.len()
            invariant
                layer <= self.layers@.len(),
                snapshots@.len() == layer,
                forall|i: int|
                    0 <= i < layer ==> {
                        &&& (#[trigger] snapshots@[i]).phase@ == phase@
                        &&& snapshots@[i].layer_index == i
                        &&& snapshots@[i].kind@ == Self::kind_name(self.layers@[i].layer.attn.kind)
                        &&& snapshots@[i].seen_tokens == self.layers@[i].cache.seen()
                        &&& snapshots@[i].retained_tokens == self.layers@[i].cache.held()
                        &&& snapshots@[i].max_retained_tokens == self.layers@[i].cache.limit()
                    },
            decreases self.layers@.len() - layer,
        {
            let merged = &self.layers[layer];
            let kind = match merged.layer.attn.kind {
                Gemma4LayerType::SlidingAttention => "sliding_attention",
                Gemma4LayerType::FullAttention => "full_attention",
            };
            snapshots.push(
                DecoderCacheSnapshot {
                    phase: phase.to_owned(),
                    layer_index: layer,
                    kind: kind.to_owned(),
                    seen_tokens: merged.cache.current_seq_len(),
                    retained_tokens: merged.cache.retained_seq_len(),
                    max_retained_tokens: merged.cache.max_retained_seq_len(),
                },
            );
            layer = layer + 1;
        }
        snapshots
    }
}

/// The caches of a decoder stay in step: a chunk moves all of them on alike, so that the
/// decoder always accepts a chunk that starts where the last one ended, and no other.
pub proof fn law_caches_advance_in_step(
    before: Gemma4MergedDecoder,
    after: Gemma4MergedDecoder,
    position: nat,
    chunk_len: nat,
    offset: usize,
)
    requires
        before.layers@.len() > 0,
        before.in_step(position),
        after.advanced(before, chunk_len),
        !before.weight_plan.sharded(),
        position + chunk_len <= usize::MAX,
    ensures
        after.in_step(position + chunk_len),
        after.forward_fault(offset) is None <==> offset == position + chunk_len,
{
    assert forall|layer: int| 0 <= layer < after.layers@.len() implies (
    #[trigger] after.layers@[layer]).cache.seen() == position + chunk_len by {
        assert(after.layer_advanced(before, layer, chunk_len));
        assert(before.layers@[layer].cache.seen() == position);
    }
    assert(after.layers@[0].cache.seen() == position + chunk_len);
}

/// On which ranks of a world a chunk is not ready to run.
pub open spec fn input_failures(
    decoders: Seq<Gemma4MergedDecoder>,
    plans: Seq<TensorParallelPlan>,
    offsets: Seq<usize>,
    reports: Seq<StageReport>,
) -> Seq<bool> {
    Seq::new(
        decoders.len(),
        |rank: int| !decoders[rank].input_ready(plans[rank], offsets[rank], reports[rank]),
    )
}

/// Either every rank of a world runs a chunk or none does: a chunk that one rank refuses, or
/// cannot embed, moves no cache anywhere.
pub proof fn law_cached_ranks_run_together(
    decoders: Seq<Gemma4MergedDecoder>,
    plans: Seq<TensorParallelPlan>,
    offsets: Seq<usize>,
    reports: Seq<StageReport>,
    left: int,
    right: int,
)
    requires
        0 <= left < decoders.len(),
        0 <= right < decoders.len(),
        forall|rank: int|
            0 <= rank < decoders.len() ==> (#[trigger] reports[rank]).failures.equals_whole(
                crate::votes::tally(input_failures(decoders, plans, offsets, reports)),
            ),
    ensures
        decoders[left].input_outcome(plans[left], offsets[left], reports[left])
            == Coordination::Proceed <==> decoders[right].input_outcome(
            plans[right],
            offsets[right],
            reports[right],
        ) == Coordination::Proceed,
        decoders[right].tensor_parallel_fault(plans[right], offsets[right]) is Some
            ==> decoders[left].input_outcome(plans[left], offsets[left], reports[left])
            != Coordination::Proceed,
{
    let failed = input_failures(decoders, plans, offsets, reports);
    crate::tensor_parallel::law_coordination_is_unanimous(
        failed,
        reports[left].failures,
        left,
        right,
    );
    crate::tensor_parallel::law_coordination_is_unanimous(
        failed,
        reports[right].failures,
        left,
        right,
    );
}

/// A chunk that one rank refuses is refused on every rank and changes no decoder: the next chunk
/// is accepted, and attends, as if the refused one had never been tried.
pub proof fn law_refused_chunks_leave_no_trace(
    before: Seq<Gemma4MergedDecoder>,
    plans: Seq<TensorParallelPlan>,
    offsets: Seq<usize>,
    reports: Seq<StageReport>,
    chunk_len: usize,
    steps: Seq<CachedForward>,
    after: Seq<Gemma4MergedDecoder>,
    refusing: int,
    rank: int,
)
    requires
        0 <= refusing < before.len(),
        0 <= rank < before.len(),
        before[refusing].tensor_parallel_fault(plans[refusing], offsets[refusing]) is Some,
        forall|i: int|
            0 <= i < before.len() ==> (#[trigger] reports[i]).failures.equals_whole(
                crate::votes::tally(input_failures(before, plans, offsets, reports)),
            ),
        before[rank].chunk_step(
            chunk_len,
            offsets[rank],
            plans[rank],
            Some(reports[rank]),
            steps[rank],
            after[rank],
        ),
    ensures
        steps[rank] is Refused || steps[rank] is FailedHere || steps[rank] is FailedOnPeer,
        after[rank] == before[rank],
        before[rank].cached() <= usize::MAX && !before[rank].weight_plan.sharded()
            ==> after[rank].forward_fault(before[rank].cached() as usize) is None,
        forall|offset: nat, len: nat, pass: CachedPass| #[trigger]
            after[rank].pass_attends(offset, len, pass) <==> before[rank].pass_attends(
                offset,
                len,
                pass,
            ),
{
    law_cached_ranks_run_together(before, plans, offsets, reports, rank, refusing);
}

/// A sliding layer of the decoder sees, of all positions so far, exactly the keys that the
/// uncached pass would see, though its cache holds a window only.
pub proof fn law_cached_layers_see_what_uncached_ones_do(
    decoder: Gemma4MergedDecoder,
    layer: int,
    chunk_len: nat,
    query: nat,
    key: nat,
)
    requires
        decoder.wf(),
        0 <= layer < decoder.layers@.len(),
        decoder.layers@[layer].cache.seen() + chunk_len <= usize::MAX,
        decoder.layers@[layer].cache.seen() <= query < decoder.layers@[layer].cache.seen()
            + chunk_len,
    ensures
        super::cache::attends(decoder.layers@[layer].cache.append_of(chunk_len), key)
            && super::mask::sees(query, key, decoder.layers@[layer].cache.limit()) <==> key
            < decoder.layers@[layer].cache.seen() + chunk_len && super::mask::sees(
            query,
            key,
            decoder.layers@[layer].cache.limit(),
        ),
{
    super::cache::law_windowed_cache_sees_the_same_keys(
        decoder.layers@[layer].cache,
        chunk_len,
        query,
        key,
    );
}

/// A reset decoder is at the start again: it accepts exactly a chunk at position zero.
pub proof fn law_reset_returns_to_the_start(decoder: Gemma4MergedDecoder, offset: usize)
    requires
        decoder.in_step(0),
        !decoder.weight_plan.sharded(),
    ensures
        decoder.forward_fault(offset) is None <==> offset == 0,
{
    if decoder.layers@.len() > 0 {
        assert(decoder.layers@[0].cache.seen() == 0);
    }
}

/// The mask of a sliding layer has a cell for each score that its chunk computes, on every rank.
pub proof fn law_masks_fit_the_scores(
    merged: Gemma4MergedLayer,
    attention: CachedAttention,
    mask: AttentionMask,
    batch: usize,
    offset: nat,
    chunk_len: usize,
    world: usize,
)
    requires
        merged.attends(offset, chunk_len as nat, attention),
        attention.mask == Some(mask),
    ensures
        ({
            let shapes = merged.layer.attn.shapes(batch, chunk_len, attention.append.key_len, world);
            mask.chunk_len == shapes.len && mask.key_len == shapes.key_len && mask.visible@.len()
                == shapes.len * shapes.key_len
        }),
{
}

impl Gemma4DecoderFault {
    /// What the fault says.
    pub open spec fn text(self) -> Seq<char> {
        match self {
            Gemma4DecoderFault::RankLocalWeights => "ordinary Gemma4MergedDecoder forward cannot use rank-local tensor_parallel base weights; call forward_tensor_parallel with the matching communicator"@,
            Gemma4DecoderFault::Offset { offset, cached } => "Gemma4MergedDecoder::forward: offset "@ + crate::text::decimal_text(offset as nat) + " != cached sequence length "@ + crate::text::decimal_text(cached as nat),
            Gemma4DecoderFault::QuantizedTensorParallel => "Gemma4MergedDecoder tensor_parallel execution does not support q8_0 base projections; disable tensor_parallel for world-one Q8_0 until rank-local quantized shards are implemented"@,
            Gemma4DecoderFault::WeightPlan { weights, execution } => "Gemma4MergedDecoder rank-local weight plan rank "@ + crate::text::decimal_text(weights.at_rank() as nat) + "/world "@ + crate::text::decimal_text(weights.of_world() as nat) + " does not match execution plan rank "@ + crate::text::decimal_text(execution.at_rank() as nat) + "/world "@ + crate::text::decimal_text(execution.of_world() as nat),
            Gemma4DecoderFault::TensorParallelOffset { offset, cached } => "Gemma4MergedDecoder::forward_tensor_parallel: offset "@ + crate::text::decimal_text(offset as nat) + " != cached sequence length "@ + crate::text::decimal_text(cached as nat),
            Gemma4DecoderFault::Uneven(uneven) => "tensor_parallel axis "@ + uneven.axis.label() + " of length "@ + crate::text::decimal_text(uneven.len as nat) + " is not divisible by world_size "@ + crate::text::decimal_text(uneven.world_size as nat),
        }
    }

    /// What the fault says.
    pub fn message(&self) -> (text: String)
        ensures
            text@ == self.text(),
    {
        match self {
            Gemma4DecoderFault::RankLocalWeights => String::from_str("ordinary Gemma4MergedDecoder forward cannot use rank-local tensor_parallel base weights; call forward_tensor_parallel with the matching communicator"),
            Gemma4DecoderFault::Offset { offset, cached } => {
                let mut text = String::from_str("Gemma4MergedDecoder::forward: offset ");
                text.append(&decimal(*offset as u64));
                text.append(" != cached sequence length ");
                text.append(&decimal(*cached as u64));
                text
            },
            Gemma4DecoderFault::QuantizedTensorParallel => String::from_str("Gemma4MergedDecoder tensor_parallel execution does not support q8_0 base projections; disable tensor_parallel for world-one Q8_0 until rank-local quantized shards are implemented"),
            Gemma4DecoderFault::WeightPlan { weights, execution } => {
                let mut text = String::from_str("Gemma4MergedDecoder rank-local weight plan rank ");
                text.append(&decimal(weights.rank() as u64));
                text.append("/world ");
                text.append(&decimal(weights.world_size() as u64));
                text.append(" does not match execution plan rank ");
                text.append(&decimal(execution.rank() as u64));
                text.append("/world ");
                text.append(&decimal(execution.world_size() as u64));
                text
            },
            Gemma4DecoderFault::TensorParallelOffset { offset, cached } => {
                let mut text = String::from_str("Gemma4MergedDecoder::forward_tensor_parallel: offset ");
                text.append(&decimal(*offset as u64));
                text.append(" != cached sequence length ");
                text.append(&decimal(*cached as u64));
                text
            },
            Gemma4DecoderFault::Uneven(uneven) => {
                let mut text = String::from_str("tensor_parallel axis ");
                text.append(uneven.axis.name());
                text.append(" of length ");
                text.append(&decimal(uneven.len as u64));
                text.append(" is not divisible by world_size ");
                text.append(&decimal(uneven.world_size as u64));
                text
            },
        }
    }
}

/// A sliding layer's cache holds its window; a global layer's has no limit.
pub proof fn law_only_sliding_caches_are_limited(window: usize)
    ensures
        cache_limit(Gemma4LayerType::SlidingAttention, window) == Some(window),
        cache_limit(Gemma4LayerType::FullAttention, window) is None,
{
}

/// What a layer's chunk attends to, by position: the keys of a layer are the positions that its
/// cache holds and those of the chunk. A sliding layer masks them: a query sees a key exactly when
/// it is not behind it and, where the cache is limited, less than the limit before it.
pub proof fn law_chunks_attend_by_position(
    merged: Gemma4MergedLayer,
    offset: nat,
    chunk_len: nat,
    attention: CachedAttention,
    query: int,
    key: int,
)
    requires
        merged.cache.wf(),
        merged.chunk_fits(offset, chunk_len),
        merged.attends(offset, chunk_len, attention),
        0 <= query < chunk_len,
        0 <= key < attention.append.key_len,
    ensures
        attention.append.key_start == merged.cache.seen() - merged.cache.held(),
        attention.append.key_len == merged.cache.held() + chunk_len,
        attention.append.keep_from + attention.append.keep_len == attention.append.key_len,
        merged.cache.limit() is None ==> attention.append.keep_from == 0,
        merged.layer.attn.kind == Gemma4LayerType::FullAttention ==> attention.mask is None,
        merged.layer.attn.kind == Gemma4LayerType::SlidingAttention ==> attention.mask is Some && {
            let mask = attention.mask->0;
            &&& mask.chunk_len == chunk_len
            &&& mask.key_len == attention.append.key_len
            &&& mask.visible@[query * mask.key_len + key] <==> attention.append.key_start + key
                <= offset + query && (merged.cache.limit() is Some ==> offset + query
                < attention.append.key_start + key + merged.cache.limit()->0)
        },
{
    if let Some(mask) = attention.mask {
        if merged.layer.attn.kind == Gemma4LayerType::SlidingAttention {
            super::mask::law_cells_of_a_mask(
                mask,
                offset,
                chunk_len,
                attention.append.key_start as nat,
                attention.append.key_len as nat,
                merged.cache.limit(),
                query,
                key,
            );
        }
    }
}

/// A chunk enters every layer's cache, and nothing else of the decoder changes.
pub proof fn law_every_layer_takes_the_chunk_in(
    before: Gemma4MergedDecoder,
    after: Gemma4MergedDecoder,
    chunk_len: nat,
    layer: int,
)
    requires
        after.advanced(before, chunk_len),
        0 <= layer < before.layers@.len(),
    ensures
        after.layers@.len() == before.layers@.len(),
        after.layers@[layer].layer == before.layers@[layer].layer,
        after.layers@[layer].cache.seen() == before.layers@[layer].cache.seen() + chunk_len,
        after.layers@[layer].cache.limit() == before.layers@[layer].cache.limit(),
        after.layers@[layer].cache.wf(),
        after.cached() == before.cached() + chunk_len,
        after.hidden == before.hidden,
        after.base_quantization == before.base_quantization,
        after.weight_plan == before.weight_plan,
{
    assert(after.layer_advanced(before, layer, chunk_len));
    assert(after.layer_advanced(before, 0, chunk_len));
}

/// A chunk of a decoder that stands alone is accepted exactly when its weights are whole and it
/// starts where the caches end.
pub proof fn law_chunks_continue_the_cache(decoder: Gemma4MergedDecoder, offset: usize)
    requires
        decoder.layers@.len() > 0,
    ensures
        decoder.forward_fault(offset) is None <==> decoder.weight_plan.of_world() <= 1 && offset
            == decoder.layers@[0].cache.seen(),
        decoder.forward_fault(offset) matches Some(Gemma4DecoderFault::Offset { offset: given, cached })
            ==> given == offset && cached as nat == decoder.layers@[0].cache.seen() as usize
            && decoder.weight_plan.of_world() <= 1,
        decoder.weight_plan.of_world() > 1 ==> decoder.forward_fault(offset) == Some(
            Gemma4DecoderFault::RankLocalWeights,
        ),
{
}

/// A tensor-parallel chunk is accepted exactly when the weights are not quantized and are those of
/// the plan, the chunk starts where the caches end, and every layer splits over the world.
pub proof fn law_tensor_parallel_chunks_continue_the_cache(
    decoder: Gemma4MergedDecoder,
    plan: TensorParallelPlan,
    offset: usize,
)
    requires
        decoder.layers@.len() > 0,
    ensures
        decoder.tensor_parallel_fault(plan, offset) is None <==> {
            &&& decoder.base_quantization == BaseQuantization::Unquantized
            &&& decoder.weight_plan.of_world() > 1 ==> decoder.weight_plan == plan
            &&& offset == decoder.layers@[0].cache.seen()
            &&& forall|layer: int|
                0 <= layer < decoder.layers@.len() ==> #[trigger] decoder.uneven_at(
                    plan.of_world(),
                    layer,
                ) is None
        },
        decoder.base_quantization == BaseQuantization::Q8_0 ==> decoder.tensor_parallel_fault(
            plan,
            offset,
        ) == Some(Gemma4DecoderFault::QuantizedTensorParallel),
        decoder.base_quantization == BaseQuantization::Unquantized && decoder.weight_plan.of_world()
            > 1 && decoder.weight_plan != plan ==> decoder.tensor_parallel_fault(plan, offset)
            == Some(
            Gemma4DecoderFault::WeightPlan { weights: decoder.weight_plan, execution: plan },
        ),
{
    lemma_every_layer_splits(decoder, plan.of_world(), 0);
}

impl Gemma4MergedDecoder {
    /// What is uneven in a layer over a world.
    pub open spec fn uneven_at(self, world: usize, layer: int) -> Option<UnevenAxis> {
        super::layers::uneven_from(self.layers@[layer].layer.axes(), world, 0)
    }
}

proof fn lemma_every_layer_splits(decoder: Gemma4MergedDecoder, world: usize, from: int)
    requires
        0 <= from <= decoder.layers@.len(),
    ensures
        decoder.uneven_layer_from(world, from) is None <==> forall|layer: int|
            from <= layer < decoder.layers@.len() ==> #[trigger] decoder.uneven_at(
                world,
                layer,
            ) is None,
    decreases decoder.layers@.len() - from,
{
    if from < decoder.layers@.len() {
        lemma_every_layer_splits(decoder, world, from + 1);
        assert(decoder.uneven_at(world, from) is None <==> super::layers::uneven_from(
            decoder.layers@[from].layer.axes(),
            world,
            0,
        ) is None);
    }
}

/// What a rank does with a chunk: it first says whether it refuses it; it runs exactly when it does
/// not, its input is staged and no rank failed; and where it does not run, its caches stay as they
/// were.
pub proof fn law_chunk_decisions(
    decoder: Gemma4MergedDecoder,
    chunk_len: usize,
    offset: usize,
    plan: TensorParallelPlan,
    staged: Option<StageReport>,
    next: CachedForward,
    after: Gemma4MergedDecoder,
)
    requires
        decoder.chunk_step(chunk_len, offset, plan, staged, next, after),
    ensures
        next is StageInput <==> staged is None,
        next matches CachedForward::StageInput { refused } ==> (refused
            <==> decoder.tensor_parallel_fault(plan, offset) is Some),
        next is Run <==> decoder.tensor_parallel_fault(plan, offset) is None && staged is Some
            && staged->0.succeeded && staged->0.failures.zero(),
        next is Run ==> after.advanced(decoder, chunk_len as nat),
        !(next is Run) ==> after == decoder,
        next matches CachedForward::Refused(fault) ==> decoder.tensor_parallel_fault(plan, offset)
            == Some(fault),
        next is FailedHere ==> decoder.tensor_parallel_fault(plan, offset) is None && staged is Some
            && !staged->0.succeeded,
        next is FailedOnPeer <==> decoder.tensor_parallel_fault(plan, offset) is None
            && staged is Some && staged->0.succeeded && !staged->0.failures.zero(),
{
}

/// The names of the attention kinds in a snapshot.
pub proof fn law_snapshot_names()
    ensures
        Gemma4MergedDecoder::kind_name(Gemma4LayerType::SlidingAttention)
            == "sliding_attention"@,
        Gemma4MergedDecoder::kind_name(Gemma4LayerType::FullAttention) == "full_attention"@,
{
}

/// What each fault says, word for word, around its numbers.
pub proof fn law_words_of_gemma4_decoder_fault(fault: Gemma4DecoderFault)
    ensures
        fault == Gemma4DecoderFault::RankLocalWeights ==> fault.text() == ("ordinary Gemma4MergedDecoder forward cannot use rank-local tensor_parallel base weights; call forward_tensor_parallel with the matching communicator"@),
        fault matches Gemma4DecoderFault::Offset { offset, cached } ==> fault.text() == ("Gemma4MergedDecoder::forward: offset "@ + crate::text::decimal_text(offset as nat) + " != cached sequence length "@ + crate::text::decimal_text(cached as nat)),
        fault == Gemma4DecoderFault::QuantizedTensorParallel ==> fault.text() == ("Gemma4MergedDecoder tensor_parallel execution does not support q8_0 base projections; disable tensor_parallel for world-one Q8_0 until rank-local quantized shards are implemented"@),
        fault matches Gemma4DecoderFault::WeightPlan { weights, execution } ==> fault.text() == ("Gemma4MergedDecoder rank-local weight plan rank "@ + crate::text::decimal_text(weights.at_rank() as nat) + "/world "@ + crate::text::decimal_text(weights.of_world() as nat) + " does not match execution plan rank "@ + crate::text::decimal_text(execution.at_rank() as nat) + "/world "@ + crate::text::decimal_text(execution.of_world() as nat)),
        fault matches Gemma4DecoderFault::TensorParallelOffset { offset, cached } ==> fault.text() == ("Gemma4MergedDecoder::forward_tensor_parallel: offset "@ + crate::text::decimal_text(offset as nat) + " != cached sequence length "@ + crate::text::decimal_text(cached as nat)),
        fault matches Gemma4DecoderFault::Uneven(uneven) ==> fault.text() == ("tensor_parallel axis "@ + uneven.axis.label() + " of length "@ + crate::text::decimal_text(uneven.len as nat) + " is not divisible by world_size "@ + crate::text::decimal_text(uneven.world_size as nat)),
{
}

} // verus!
