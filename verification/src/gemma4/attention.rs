//! The shapes of an attention block's computation: how many heads a rank computes, what they
//! attend to, and how the parts fit together.
use super::layers::{Gemma4Attention, ShardedAxis, UnevenAxis};
use super::mask::AttentionMask;
use crate::tensor_parallel::TensorParallelPlan;
use vstd::arithmetic::div_mod::{
    lemma_fundamental_div_mod, lemma_fundamental_div_mod_converse,
};
use vstd::prelude::*;

verus! {

/// The shapes that a rank computes an attention block in.
#[derive(Debug, Clone, Copy, PartialEq, Eq, Structural)]
pub struct AttentionShapes {
    /// The number of rows.
    pub batch: usize,
    /// The number of queries of a row.
    pub len: usize,
    /// The number of keys of a row.
    pub key_len: usize,
    /// The number of query heads of the rank.
    pub heads: usize,
    /// The number of key/value heads of the rank.
    pub kv_heads: usize,
    /// How often each key/value head is repeated.
    pub groups: usize,
    /// The width of a head.
    pub head_dim: usize,
    /// The width of the rank's context.
    pub attn_hidden: usize,
    /// Whether the raw keys serve as values.
    pub values_from_keys: bool,
}

impl Gemma4Attention {
    /// The widths of the block are those that its heads have, as a config lays them out.
    pub open spec fn wf(self) -> bool {
        &&& self.num_kv_heads > 0
        &&& self.num_heads % self.num_kv_heads == 0
        &&& self.num_kv_groups == self.num_heads / self.num_kv_heads
        &&& self.attn_hidden == self.num_heads * self.head_dim
    }

    /// The shapes that a rank of a world computes the block in.
    pub open spec fn shapes(self, batch: usize, len: usize, key_len: usize, world: usize) -> AttentionShapes {
        let heads = self.num_heads / world;
        AttentionShapes {
            batch,
            len,
            key_len,
            heads,
            kv_heads: self.num_kv_heads / world,
            groups: self.num_kv_groups,
            head_dim: self.head_dim,
            attn_hidden: (heads * self.head_dim) as usize,
            values_from_keys: self.v_proj is None,
        }
    }

    /// The heads that do not split over a world, if any, query heads first.
    pub open spec fn uneven_heads(self, world: usize) -> Option<UnevenAxis> {
        if self.num_heads % world != 0 {
            Some(
                UnevenAxis {
                    axis: ShardedAxis::NumAttentionHeads,
                    len: self.num_heads,
                    world_size: world,
                },
            )
        } else if self.num_kv_heads % world != 0 {
            Some(
                UnevenAxis {
                    axis: ShardedAxis::NumKeyValueHeads,
                    len: self.num_kv_heads,
                    world_size: world,
                },
            )
        } else {
            None
        }
    }

    /// The shapes in which a rank runs the block on `len` queries over `key_len` keys. Heads that
    /// do not split over the world are refused, query heads first.
    pub fn forward_at_tensor_parallel(
        &self,
        batch: usize,
        len: usize,
        key_len: usize,
        plan: &TensorParallelPlan,
    ) -> (shapes: Result<AttentionShapes, UnevenAxis>)
        requires
            self.wf(),
            plan.wf(),
        ensures
            match shapes {
                Ok(shapes) => {
                    &&& self.uneven_heads(plan.of_world()) is None
                    &&& shapes == self.shapes(batch, len, key_len, plan.of_world())
                },
                Err(uneven) => self.uneven_heads(plan.of_world()) == Some(uneven),
            },
    {
        let world: usize = plan.world_size();
        if self.num_heads % world != 0 {
            return Err(
                UnevenAxis {
                    axis: ShardedAxis::NumAttentionHeads,
                    len: self.num_heads,
                    world_size: world,
                },
            );
        }
        if self.num_kv_heads % world != 0 {
            return Err(
                UnevenAxis {
                    axis: ShardedAxis::NumKeyValueHeads,
                    len: self.num_kv_heads,
                    world_size: world,
                },
            );
        }
        let heads: usize = self.num_heads / world;
        proof {
            vstd::arithmetic::div_mod::lemma_div_nonincreasing(
                self.num_heads as int,
                world as int,
            );
            vstd::arithmetic::mul::lemma_mul_inequality(
                heads as int,
                self.num_heads as int,
                self.head_dim as int,
            );
        }
        Ok(
            AttentionShapes {
                batch,
                len,
                key_len,
                heads,
                kv_heads: self.num_kv_heads / world,
                groups: self.num_kv_groups,
                head_dim: self.head_dim,
                attn_hidden: heads * self.head_dim,
                values_from_keys: self.v_proj.is_none(),
            },
        )
    }
}

/// Which mask a layer's scores are masked with.
#[derive(Debug)]
pub enum MaskChoice<'a> {
    /// None: nothing is hidden.
    Unmasked,
    /// This one.
    Masked(&'a AttentionMask),
}

/// Chooses the mask of a layer: its own, or else the one that the pass has for its kind.
pub fn choose_mask<'a>(own: Option<&'a AttentionMask>, shared: Option<&'a AttentionMask>) -> (choice:
    MaskChoice<'a>)
    ensures
        match own {
            Some(mask) => choice == MaskChoice::Masked(mask),
            None => match shared {
                Some(mask) => choice == MaskChoice::Masked(mask),
                None => choice is Unmasked,
            },
        },
{
    match own {
        Some(mask) => MaskChoice::Masked(mask),
        None => match shared {
            Some(mask) => MaskChoice::Masked(mask),
            None => MaskChoice::Unmasked,
        },
    }
}

/// On every rank of a world over which the heads split, the repeated key/value heads are exactly
/// the query heads, and the heads tile the context.
pub proof fn law_local_shapes_fit(attention: Gemma4Attention, batch: usize, len: usize, key_len: usize, world: usize)
    requires
        attention.wf(),
        world > 0,
        attention.uneven_heads(world) is None,
    ensures
        attention.shapes(batch, len, key_len, world).kv_heads * attention.shapes(
            batch,
            len,
            key_len,
            world,
        ).groups == attention.shapes(batch, len, key_len, world).heads,
        attention.shapes(batch, len, key_len, world).heads * attention.head_dim
            == attention.shapes(batch, len, key_len, world).attn_hidden,
{
    let (heads, kv, groups) = (
        attention.num_heads as int,
        attention.num_kv_heads as int,
        attention.num_kv_groups as int,
    );
    let each = kv / (world as int);
    lemma_fundamental_div_mod(heads, kv);
    lemma_fundamental_div_mod(kv, world as int);
    assert(heads == (each * groups) * (world as int)) by (nonlinear_arith)
        requires
            heads == kv * groups,
            kv == world as int * each,
    ;
    lemma_fundamental_div_mod_converse(heads, world as int, each * groups, 0);
    vstd::arithmetic::div_mod::lemma_div_nonincreasing(heads, world as int);
    vstd::arithmetic::mul::lemma_mul_inequality(
        heads / (world as int),
        heads,
        attention.head_dim as int,
    );
}

/// The ranks of a world share a block out evenly: their heads and their contexts add up to those
/// of the block, and everything else is on every rank as on one alone.
pub proof fn law_ranks_share_the_heads(attention: Gemma4Attention, batch: usize, len: usize, key_len: usize, world: usize)
    requires
        attention.wf(),
        world > 0,
        attention.uneven_heads(world) is None,
    ensures
        ({
            let shapes = attention.shapes(batch, len, key_len, world);
            &&& shapes.heads * world == attention.num_heads
            &&& shapes.kv_heads * world == attention.num_kv_heads
            &&& shapes.attn_hidden * world == attention.attn_hidden
            &&& shapes.batch == batch
            &&& shapes.len == len
            &&& shapes.key_len == key_len
            &&& shapes.groups == attention.num_kv_groups
            &&& shapes.head_dim == attention.head_dim
            &&& shapes.values_from_keys <==> attention.v_proj is None
        }),
{
    let shapes = attention.shapes(batch, len, key_len, world);
    law_local_shapes_fit(attention, batch, len, key_len, world);
    lemma_fundamental_div_mod(attention.num_heads as int, world as int);
    lemma_fundamental_div_mod(attention.num_kv_heads as int, world as int);
    assert(shapes.heads * world == attention.num_heads) by (nonlinear_arith)
        requires
            attention.num_heads == world * shapes.heads,
    ;
    assert(shapes.kv_heads * world == attention.num_kv_heads) by (nonlinear_arith)
        requires
            attention.num_kv_heads == world * shapes.kv_heads,
    ;
    assert(shapes.attn_hidden * world == attention.attn_hidden) by (nonlinear_arith)
        requires
            shapes.attn_hidden == shapes.heads * attention.head_dim,
            shapes.heads * world == attention.num_heads,
            attention.attn_hidden == attention.num_heads * attention.head_dim,
    ;
}

/// Heads are refused exactly when some cannot be shared out evenly, and then the refusal names
/// the query heads if it is they, and their number and the world.
pub proof fn law_uneven_heads_are_named(attention: Gemma4Attention, world: usize, each: nat, kv_each: nat)
    requires
        world > 0,
    ensures
        attention.num_heads == each * world && attention.num_kv_heads == kv_each * world
            ==> attention.uneven_heads(world) is None,
        attention.uneven_heads(world) is None ==> attention.num_heads % world == 0
            && attention.num_kv_heads % world == 0,
        attention.uneven_heads(world) matches Some(uneven) ==> {
            &&& uneven.world_size == world
            &&& uneven.axis == ShardedAxis::NumAttentionHeads <==> attention.num_heads % world != 0
            &&& uneven.axis == ShardedAxis::NumAttentionHeads ==> uneven.len
                == attention.num_heads
            &&& uneven.axis != ShardedAxis::NumAttentionHeads ==> uneven.axis
                == ShardedAxis::NumKeyValueHeads && uneven.len == attention.num_kv_heads
                && attention.num_kv_heads % world != 0
        },
{
    vstd::arithmetic::div_mod::lemma_mod_multiples_basic(each as int, world as int);
    vstd::arithmetic::div_mod::lemma_mod_multiples_basic(kv_each as int, world as int);
}

/// A block that a supported config lays out is well formed.
pub proof fn law_supported_blocks_are_well_formed(
    config: super::config::Gemma4TextConfig,
    kind: super::config::Gemma4LayerType,
    targets: crate::lora::DenseLoraTargets,
    plan: TensorParallelPlan,
)
    requires
        config.supported(),
        config.widths_fit(kind),
    ensures
        config.attention(kind, targets, plan).wf(),
{
    assert(config.size(super::config::Gemma4Size::NumKeyValueHeads) != 0);
    assert(config.size(super::config::Gemma4Size::NumGlobalKeyValueHeads) != 0);
}

} // verus!
