//! The geometry of decoder layers: the projections that each layer loads, how they split over a
//! tensor-parallel world, and the order of their trainable variables.
use super::config::{Gemma4LayerType, Gemma4TextConfig};
use crate::lora::DenseLoraTargets;
use crate::tensor_parallel::TensorParallelPlan;
use vstd::prelude::*;

verus! {

/// A projection of a decoder layer.
#[derive(Debug, Clone, Copy, PartialEq, Eq, Structural)]
pub enum Projection {
    Query,
    Key,
    Value,
    Output,
    Gate,
    Up,
    Down,
}

/// How a projection's weight is loaded.
#[derive(Debug, Clone, Copy, PartialEq, Eq, Structural)]
pub enum WeightSplit {
    /// The whole weight.
    Whole,
    /// The rank's part of the output axis.
    Column,
    /// The rank's part of the input axis.
    Row,
}

/// What is loaded for a projection.
#[derive(Debug, Clone, Copy, PartialEq, Eq, Structural)]
pub struct ProjectionPlan {
    pub projection: Projection,
    /// The length of the output axis.
    pub out_dim: usize,
    /// The length of the input axis.
    pub in_dim: usize,
    /// Whether the projection carries a trainable adapter.
    pub adapted: bool,
    pub split: WeightSplit,
}

/// The attention block of a layer.
#[derive(Debug, Clone, Copy, PartialEq, Eq, Structural)]
pub struct Gemma4Attention {
    pub kind: Gemma4LayerType,
    pub q_proj: ProjectionPlan,
    pub k_proj: ProjectionPlan,
    /// None where keys serve as values.
    pub v_proj: Option<ProjectionPlan>,
    pub o_proj: ProjectionPlan,
    pub num_heads: usize,
    pub num_kv_heads: usize,
    pub num_kv_groups: usize,
    pub head_dim: usize,
    pub attn_hidden: usize,
}

/// The feed-forward block of a layer.
#[derive(Debug, Clone, Copy, PartialEq, Eq, Structural)]
pub struct Gemma4Mlp {
    pub gate_proj: ProjectionPlan,
    pub up_proj: ProjectionPlan,
    pub down_proj: ProjectionPlan,
}

/// A decoder layer.
#[derive(Debug, Clone, Copy, PartialEq, Eq, Structural)]
pub struct Gemma4Layer {
    pub attn: Gemma4Attention,
    pub mlp: Gemma4Mlp,
}

/// How a projection that splits its output axis is loaded under a plan.
pub open spec fn column_split(plan: TensorParallelPlan) -> WeightSplit {
    if plan.sharded() {
        WeightSplit::Column
    } else {
        WeightSplit::Whole
    }
}

/// How a projection that splits its input axis is loaded under a plan.
pub open spec fn row_split(plan: TensorParallelPlan) -> WeightSplit {
    if plan.sharded() {
        WeightSplit::Row
    } else {
        WeightSplit::Whole
    }
}

impl Gemma4TextConfig {
    /// The head width of an attention kind.
    pub open spec fn head_width(self, kind: Gemma4LayerType) -> usize {
        match kind {
            Gemma4LayerType::FullAttention => self.global_head_dim,
            Gemma4LayerType::SlidingAttention => self.head_dim,
        }
    }

    /// The number of key/value heads of an attention kind.
    pub open spec fn key_value_heads(self, kind: Gemma4LayerType) -> usize {
        match kind {
            Gemma4LayerType::FullAttention => self.num_global_key_value_heads,
            Gemma4LayerType::SlidingAttention => self.num_key_value_heads,
        }
    }

    /// Whether the projection widths of an attention kind fit a machine word.
    pub open spec fn widths_fit(self, kind: Gemma4LayerType) -> bool {
        &&& self.num_attention_heads * self.head_width(kind) <= usize::MAX
        &&& self.key_value_heads(kind) * self.head_width(kind) <= usize::MAX
    }

    /// The attention block of a layer of a kind. Global layers have no value projection.
    pub open spec fn attention(
        self,
        kind: Gemma4LayerType,
        targets: DenseLoraTargets,
        plan: TensorParallelPlan,
    ) -> Gemma4Attention {
        let width = self.head_width(kind);
        let q_out = (self.num_attention_heads * width) as usize;
        let kv_out = (self.key_value_heads(kind) * width) as usize;
        let split = column_split(plan);
        Gemma4Attention {
            kind,
            q_proj: ProjectionPlan {
                projection: Projection::Query,
                out_dim: q_out,
                in_dim: self.hidden_size,
                adapted: targets.attn_q,
                split,
            },
            k_proj: ProjectionPlan {
                projection: Projection::Key,
                out_dim: kv_out,
                in_dim: self.hidden_size,
                adapted: targets.attn_k,
                split,
            },
            v_proj: if kind == Gemma4LayerType::FullAttention {
                None
            } else {
                Some(
                    ProjectionPlan {
                        projection: Projection::Value,
                        out_dim: kv_out,
                        in_dim: self.hidden_size,
                        adapted: targets.attn_v,
                        split,
                    },
                )
            },
            o_proj: ProjectionPlan {
                projection: Projection::Output,
                out_dim: self.hidden_size,
                in_dim: q_out,
                adapted: targets.attn_o,
                split: row_split(plan),
            },
            num_heads: self.num_attention_heads,
            num_kv_heads: self.key_value_heads(kind),
            num_kv_groups: self.num_attention_heads / self.key_value_heads(kind),
            head_dim: width,
            attn_hidden: q_out,
        }
    }

    /// The feed-forward block of a layer.
    pub open spec fn mlp(self, targets: DenseLoraTargets, plan: TensorParallelPlan) -> Gemma4Mlp {
        Gemma4Mlp {
            gate_proj: ProjectionPlan {
                projection: Projection::Gate,
                out_dim: self.intermediate_size,
                in_dim: self.hidden_size,
                adapted: targets.mlp_gate,
                split: column_split(plan),
            },
            up_proj: ProjectionPlan {
                projection: Projection::Up,
                out_dim: self.intermediate_size,
                in_dim: self.hidden_size,
                adapted: targets.mlp_up,
                split: column_split(plan),
            },
            down_proj: ProjectionPlan {
                projection: Projection::Down,
                out_dim: self.hidden_size,
                in_dim: self.intermediate_size,
                adapted: targets.mlp_down,
                split: row_split(plan),
            },
        }
    }

    /// The layer at an index.
    pub open spec fn layer(
        self,
        index: int,
        targets: DenseLoraTargets,
        plan: TensorParallelPlan,
    ) -> Gemma4Layer {
        Gemma4Layer {
            attn: self.attention(self.layer_types@[index], targets, plan),
            mlp: self.mlp(targets, plan),
        }
    }
}

/// How a projection is loaded under a plan: its output axis splits.
fn load_column(
    projection: Projection,
    out_dim: usize,
    in_dim: usize,
    adapted: bool,
    plan: &TensorParallelPlan,
) -> (loaded: ProjectionPlan)
    ensures
        loaded == (ProjectionPlan {
            projection,
            out_dim,
            in_dim,
            adapted,
            split: column_split(*plan),
        }),
{
    let split = if plan.is_sharded() {
        WeightSplit::Column
    } else {
        WeightSplit::Whole
    };
    ProjectionPlan { projection, out_dim, in_dim, adapted, split }
}

/// How a projection is loaded under a plan: its input axis splits.
fn load_row(
    projection: Projection,
    out_dim: usize,
    in_dim: usize,
    adapted: bool,
    plan: &TensorParallelPlan,
) -> (loaded: ProjectionPlan)
    ensures
        loaded == (ProjectionPlan { projection, out_dim, in_dim, adapted, split: row_split(*plan) }),
{
    let split = if plan.is_sharded() {
        WeightSplit::Row
    } else {
        WeightSplit::Whole
    };
    ProjectionPlan { projection, out_dim, in_dim, adapted, split }
}

impl Gemma4Attention {
    /// Lays out the attention block of a layer.
    pub fn load(
        config: &Gemma4TextConfig,
        layer_index: usize,
        targets: &DenseLoraTargets,
        plan: &TensorParallelPlan,
    ) -> (attention: Self)
        requires
            layer_index < config.layer_types@.len(),
            config.widths_fit(config.layer_types@[layer_index as int]),
            config.key_value_heads(config.layer_types@[layer_index as int]) > 0,
        ensures
            attention == config.attention(
                config.layer_types@[layer_index as int],
                *targets,
                *plan,
            ),
    {
        let kind = config.layer_types[layer_index];
        let full: bool = kind == Gemma4LayerType::FullAttention;
        let head_dim: usize = if full {
            config.global_head_dim
        } else {
            config.head_dim
        };
        let num_kv_heads: usize = if full {
            config.num_global_key_value_heads
        } else {
            config.num_key_value_heads
        };
        let hidden: usize = config.hidden_size;
        let q_out: usize = config.num_attention_heads * head_dim;
        let kv_out: usize = num_kv_heads * head_dim;
        let v_proj = if full {
            None
        } else {
            Some(load_column(Projection::Value, kv_out, hidden, targets.attn_v, plan))
        };
        Gemma4Attention {
            kind,
            q_proj: load_column(Projection::Query, q_out, hidden, targets.attn_q, plan),
            k_proj: load_column(Projection::Key, kv_out, hidden, targets.attn_k, plan),
            v_proj,
            o_proj: load_row(Projection::Output, hidden, q_out, targets.attn_o, plan),
            num_heads: config.num_attention_heads,
            num_kv_heads,
            num_kv_groups: config.num_attention_heads / num_kv_heads,
            head_dim,
            attn_hidden: q_out,
        }
    }
}

impl Gemma4Mlp {
    /// Lays out the feed-forward block of a layer.
    pub fn load(config: &Gemma4TextConfig, targets: &DenseLoraTargets, plan: &TensorParallelPlan) -> (mlp:
        Self)
        ensures
            mlp == config.mlp(*targets, *plan),
    {
        let hidden: usize = config.hidden_size;
        let inner: usize = config.intermediate_size;
        Gemma4Mlp {
            gate_proj: load_column(Projection::Gate, inner, hidden, targets.mlp_gate, plan),
            up_proj: load_column(Projection::Up, inner, hidden, targets.mlp_up, plan),
            down_proj: load_row(Projection::Down, hidden, inner, targets.mlp_down, plan),
        }
    }
}

impl Gemma4Layer {
    /// Lays out a layer.
    pub fn load(
        config: &Gemma4TextConfig,
        layer_index: usize,
        targets: &DenseLoraTargets,
        plan: &TensorParallelPlan,
    ) -> (layer: Self)
        requires
            layer_index < config.layer_types@.len(),
            config.widths_fit(config.layer_types@[layer_index as int]),
            config.key_value_heads(config.layer_types@[layer_index as int]) > 0,
        ensures
            layer == config.layer(layer_index as int, *targets, *plan),
    {
        Gemma4Layer {
            attn: Gemma4Attention::load(config, layer_index, targets, plan),
            mlp: Gemma4Mlp::load(config, targets, plan),
        }
    }
}

/// An axis that a tensor-parallel world splits.
#[derive(Debug, Clone, Copy, PartialEq, Eq, Structural)]
pub enum ShardedAxis {
    AttentionQOut,
    AttentionKOut,
    AttentionVOut,
    AttentionHidden,
    NumAttentionHeads,
    NumKeyValueHeads,
    IntermediateSize,
}

impl ShardedAxis {
    /// The label of the axis.
    pub open spec fn label(self) -> Seq<char> {
        match self {
            ShardedAxis::AttentionQOut => "attention_q_out"@,
            ShardedAxis::AttentionKOut => "attention_k_out"@,
            ShardedAxis::AttentionVOut => "attention_v_out"@,
            ShardedAxis::AttentionHidden => "attention_hidden"@,
            ShardedAxis::NumAttentionHeads => "num_attention_heads"@,
            ShardedAxis::NumKeyValueHeads => "num_key_value_heads"@,
            ShardedAxis::IntermediateSize => "intermediate_size"@,
        }
    }

    /// The label of the axis.
    pub fn name(self) -> (name: &'static str)
        ensures
            name@ == self.label(),
    {
        match self {
            ShardedAxis::AttentionQOut => "attention_q_out",
            ShardedAxis::AttentionKOut => "attention_k_out",
            ShardedAxis::AttentionVOut => "attention_v_out",
            ShardedAxis::AttentionHidden => "attention_hidden",
            ShardedAxis::NumAttentionHeads => "num_attention_heads",
            ShardedAxis::NumKeyValueHeads => "num_key_value_heads",
            ShardedAxis::IntermediateSize => "intermediate_size",
        }
    }
}

/// An axis that does not split evenly over a world.
#[derive(Debug, Clone, Copy, PartialEq, Eq, Structural)]
pub struct UnevenAxis {
    pub axis: ShardedAxis,
    pub len: usize,
    pub world_size: usize,
}

/// The first axis from the given place on that does not split evenly.
pub open spec fn uneven_from(axes: Seq<(ShardedAxis, usize)>, world: usize, place: int) -> Option<
    UnevenAxis,
>
    decreases axes.len() - place,
{
    if place < 0 || place >= axes.len() {
        None
    } else if axes[place].1 % world != 0 {
        Some(UnevenAxis { axis: axes[place].0, len: axes[place].1, world_size: world })
    } else {
        uneven_from(axes, world, place + 1)
    }
}

/// Finds the first axis that does not split evenly.
fn check_axes(axes: &Vec<(ShardedAxis, usize)>, plan: &TensorParallelPlan) -> (verdict: Result<
    (),
    UnevenAxis,
>)
    requires
        plan.wf(),
    ensures
        match verdict {
            Ok(()) => uneven_from(axes@, plan.of_world(), 0) is None,
            Err(uneven) => uneven_from(axes@, plan.of_world(), 0) == Some(uneven),
        },
{
    let world: usize = plan.world_size();
    let mut place: usize = 0;
    while place < axes.len()
        invariant
            place <= axes@.len(),
            world > 0,
            world == plan.of_world(),
            uneven_from(axes@, world, 0) == uneven_from(axes@, world, place as int),
        decreases axes@.len() - place,
    {
        let (axis, len) = axes[place];
        if len % world != 0 {
            return Err(UnevenAxis { axis, len, world_size: world });
        }
        place = place + 1;
    }
    Ok(())
}

impl Gemma4Attention {
    /// The axes of the block that split over a world, in the order in which they are looked at.
    pub open spec fn axes(self) -> Seq<(ShardedAxis, usize)> {
        let columns = seq![
            (ShardedAxis::AttentionQOut, self.q_proj.out_dim),
            (ShardedAxis::AttentionKOut, self.k_proj.out_dim),
        ];
        let values = match self.v_proj {
            Some(v_proj) => seq![(ShardedAxis::AttentionVOut, v_proj.out_dim)],
            None => Seq::empty(),
        };
        columns + values + seq![
            (ShardedAxis::AttentionHidden, self.o_proj.in_dim),
            (ShardedAxis::NumAttentionHeads, self.num_heads),
            (ShardedAxis::NumKeyValueHeads, self.num_kv_heads),
        ]
    }

    /// The axes of the block that split over a world.
    fn list_axes(&self) -> (axes: Vec<(ShardedAxis, usize)>)
        ensures
            axes@ == self.axes(),
    {
        let mut axes = vec![
            (ShardedAxis::AttentionQOut, self.q_proj.out_dim),
            (ShardedAxis::AttentionKOut, self.k_proj.out_dim),
        ];
        if let Some(v_proj) = &self.v_proj {
            axes.push((ShardedAxis::AttentionVOut, v_proj.out_dim));
        }
        axes.push((ShardedAxis::AttentionHidden, self.o_proj.in_dim));
        axes.push((ShardedAxis::NumAttentionHeads, self.num_heads));
        axes.push((ShardedAxis::NumKeyValueHeads, self.num_kv_heads));
        assert(axes@ =~= self.axes());
        axes
    }
}

impl Gemma4Layer {
    /// The axes of the layer that split over a world: those of the attention block, then those
    /// of the feed-forward block.
    pub open spec fn axes(self) -> Seq<(ShardedAxis, usize)> {
        self.attn.axes() + seq![
            (ShardedAxis::IntermediateSize, self.mlp.gate_proj.out_dim),
            (ShardedAxis::IntermediateSize, self.mlp.up_proj.out_dim),
            (ShardedAxis::IntermediateSize, self.mlp.down_proj.in_dim),
        ]
    }

    /// Accepts a plan when every axis of the layer splits evenly over its world.
    pub fn validate_tensor_parallel_plan(&self, plan: &TensorParallelPlan) -> (verdict: Result<
        (),
        UnevenAxis,
    >)
        requires
            plan.wf(),
        ensures
            match verdict {
                Ok(()) => uneven_from(self.axes(), plan.of_world(), 0) is None,
                Err(uneven) => uneven_from(self.axes(), plan.of_world(), 0) == Some(uneven),
            },
            verdict is Ok <==> {
                let world = plan.of_world();
                &&& self.attn.q_proj.out_dim % world == 0
                &&& self.attn.k_proj.out_dim % world == 0
                &&& self.attn.v_proj is Some ==> self.attn.v_proj->0.out_dim % world == 0
                &&& self.attn.o_proj.in_dim % world == 0
                &&& self.attn.num_heads % world == 0
                &&& self.attn.num_kv_heads % world == 0
                &&& self.mlp.gate_proj.out_dim % world == 0
                &&& self.mlp.up_proj.out_dim % world == 0
                &&& self.mlp.down_proj.in_dim % world == 0
            },
    {
        proof {
            law_layers_split_evenly(*self, plan.of_world());
        }
        let mut axes = self.attn.list_axes();
        axes.push((ShardedAxis::IntermediateSize, self.mlp.gate_proj.out_dim));
        axes.push((ShardedAxis::IntermediateSize, self.mlp.up_proj.out_dim));
        axes.push((ShardedAxis::IntermediateSize, self.mlp.down_proj.in_dim));
        assert(axes@ =~= self.axes());
        check_axes(&axes, plan)
    }
}

/// The axis that is named is the first that does not split evenly, and none is named exactly when
/// all do.
pub proof fn law_first_uneven_axis(axes: Seq<(ShardedAxis, usize)>, world: usize, from: int)
    requires
        world > 0,
        0 <= from <= axes.len(),
    ensures
        uneven_from(axes, world, from) is None <==> forall|place: int|
            from <= place < axes.len() ==> (#[trigger] axes[place]).1 % world == 0,
        uneven_from(axes, world, from) matches Some(uneven) ==> exists|place: int|
            {
                &&& from <= place < axes.len()
                &&& (#[trigger] axes[place]).1 % world != 0
                &&& uneven.axis == axes[place].0
                &&& uneven.len == axes[place].1
                &&& uneven.world_size == world
                &&& forall|before: int|
                    from <= before < place ==> (#[trigger] axes[before]).1 % world == 0
            },
    decreases axes.len() - from,
{
    if from < axes.len() && axes[from].1 % world == 0 {
        law_first_uneven_axis(axes, world, from + 1);
        if let Some(uneven) = uneven_from(axes, world, from + 1) {
            let place = choose|place: int|
                {
                    &&& from + 1 <= place < axes.len()
                    &&& (#[trigger] axes[place]).1 % world != 0
                    &&& uneven.axis == axes[place].0
                    &&& uneven.len == axes[place].1
                    &&& uneven.world_size == world
                    &&& forall|before: int|
                        from + 1 <= before < place ==> (#[trigger] axes[before]).1 % world == 0
                };
            assert forall|before: int| from <= before < place implies (
            #[trigger] axes[before]).1 % world == 0 by {}
            assert(axes[place].1 % world != 0);
        }
    } else if from < axes.len() {
        assert(axes[from].1 % world != 0);
    }
}

/// A layer splits over a world exactly when each of its projections and both kinds of heads do.
pub proof fn law_layers_split_evenly(layer: Gemma4Layer, world: usize)
    requires
        world > 0,
    ensures
        uneven_from(layer.axes(), world, 0) is None <==> {
            &&& layer.attn.q_proj.out_dim % world == 0
            &&& layer.attn.k_proj.out_dim % world == 0
            &&& layer.attn.v_proj is Some ==> layer.attn.v_proj->0.out_dim % world == 0
            &&& layer.attn.o_proj.in_dim % world == 0
            &&& layer.attn.num_heads % world == 0
            &&& layer.attn.num_kv_heads % world == 0
            &&& layer.mlp.gate_proj.out_dim % world == 0
            &&& layer.mlp.up_proj.out_dim % world == 0
            &&& layer.mlp.down_proj.in_dim % world == 0
        },
{
    let axes = layer.axes();
    let shift = if layer.attn.v_proj is Some {
        1int
    } else {
        0int
    };
    law_first_uneven_axis(axes, world, 0);
    assert(axes.len() == 8 + shift);
    assert(axes[0].1 == layer.attn.q_proj.out_dim);
    assert(axes[1].1 == layer.attn.k_proj.out_dim);
    if layer.attn.v_proj is Some {
        assert(axes[2].1 == layer.attn.v_proj->0.out_dim);
    }
    assert(axes[2 + shift].1 == layer.attn.o_proj.in_dim);
    assert(axes[3 + shift].1 == layer.attn.num_heads);
    assert(axes[4 + shift].1 == layer.attn.num_kv_heads);
    assert(axes[5 + shift].1 == layer.mlp.gate_proj.out_dim);
    assert(axes[6 + shift].1 == layer.mlp.up_proj.out_dim);
    assert(axes[7 + shift].1 == layer.mlp.down_proj.in_dim);
}

/// How a layer's parts fit together: what one projection puts out the next takes in, heads times
/// width make the projections, and a global layer alone has no value projection.
pub proof fn law_layers_fit_together(
    config: Gemma4TextConfig,
    index: int,
    targets: DenseLoraTargets,
    plan: TensorParallelPlan,
)
    requires
        config.widths_fit(config.layer_types@[index]),
    ensures
        ({
            let attn = config.layer(index, targets, plan).attn;
            let mlp = config.layer(index, targets, plan).mlp;
            let global = config.layer_types@[index] == Gemma4LayerType::FullAttention;
            &&& attn.kind == config.layer_types@[index]
            &&& global ==> attn.head_dim == config.global_head_dim && attn.num_kv_heads
                == config.num_global_key_value_heads && attn.v_proj is None
            &&& !global ==> attn.head_dim == config.head_dim && attn.num_kv_heads
                == config.num_key_value_heads && attn.v_proj is Some
            &&& attn.num_heads == config.num_attention_heads
            &&& attn.q_proj.out_dim == attn.num_heads * attn.head_dim
            &&& attn.k_proj.out_dim == attn.num_kv_heads * attn.head_dim
            &&& attn.v_proj is Some ==> attn.v_proj->0.out_dim == attn.k_proj.out_dim
                && attn.v_proj->0.in_dim == attn.k_proj.in_dim
            &&& attn.o_proj.in_dim == attn.q_proj.out_dim == attn.attn_hidden
            &&& attn.q_proj.in_dim == attn.k_proj.in_dim == attn.o_proj.out_dim
                == config.hidden_size
            &&& mlp.gate_proj.in_dim == mlp.up_proj.in_dim == mlp.down_proj.out_dim
                == config.hidden_size
            &&& mlp.gate_proj.out_dim == mlp.up_proj.out_dim == mlp.down_proj.in_dim
                == config.intermediate_size
        }),
{
}

/// A projection is adapted exactly when its own target is set, and carries its own name. Under a
/// sharded plan what comes in whole splits by output and what comes in parts by input; on one
/// rank every weight is loaded whole.
pub proof fn law_projections_follow_their_targets(
    config: Gemma4TextConfig,
    index: int,
    targets: DenseLoraTargets,
    plan: TensorParallelPlan,
)
    ensures
        ({
            let attn = config.layer(index, targets, plan).attn;
            let mlp = config.layer(index, targets, plan).mlp;
            &&& attn.q_proj.projection == Projection::Query && attn.q_proj.adapted
                == targets.attn_q
            &&& attn.k_proj.projection == Projection::Key && attn.k_proj.adapted == targets.attn_k
            &&& attn.v_proj is Some ==> attn.v_proj->0.projection == Projection::Value
                && attn.v_proj->0.adapted == targets.attn_v
            &&& attn.o_proj.projection == Projection::Output && attn.o_proj.adapted
                == targets.attn_o
            &&& mlp.gate_proj.projection == Projection::Gate && mlp.gate_proj.adapted
                == targets.mlp_gate
            &&& mlp.up_proj.projection == Projection::Up && mlp.up_proj.adapted == targets.mlp_up
            &&& mlp.down_proj.projection == Projection::Down && mlp.down_proj.adapted
                == targets.mlp_down
            &&& !plan.sharded() ==> attn.q_proj.split == WeightSplit::Whole && attn.o_proj.split
                == WeightSplit::Whole && mlp.down_proj.split == WeightSplit::Whole
            &&& plan.sharded() ==> attn.q_proj.split == WeightSplit::Column && attn.o_proj.split
                == WeightSplit::Row && mlp.down_proj.split == WeightSplit::Row
            &&& attn.k_proj.split == attn.q_proj.split
            &&& attn.v_proj is Some ==> attn.v_proj->0.split == attn.q_proj.split
            &&& mlp.gate_proj.split == attn.q_proj.split
            &&& mlp.up_proj.split == attn.q_proj.split
        }),
{
}

/// Under an accepted plan the local heads of every rank tile its part of the projections: what a
/// rank reshapes by heads is exactly what it projects to.
pub proof fn law_local_heads_tile_local_width(heads: nat, width: nat, world: nat)
    requires
        world > 0,
        heads % world == 0,
    ensures
        (heads / world) * width == heads * width / world,
        heads * width % world == 0,
{
    let each = heads / world;
    vstd::arithmetic::div_mod::lemma_fundamental_div_mod(heads as int, world as int);
    assert(heads * width == (each * width) * world) by (nonlinear_arith)
        requires
            heads == world * each,
    ;
    vstd::arithmetic::div_mod::lemma_fundamental_div_mod_converse(
        (heads * width) as int,
        world as int,
        (each * width) as int,
        0,
    );
}

/// A factor of a low-rank adapter.
#[derive(Debug, Clone, Copy, PartialEq, Eq, Structural)]
pub enum AdapterFactor {
    A,
    B,
}

/// A trainable variable of a model.
#[derive(Debug, Clone, Copy, PartialEq, Eq, Structural)]
pub struct TrainableVar {
    pub layer: usize,
    pub projection: Projection,
    pub factor: AdapterFactor,
}

impl ProjectionPlan {
    /// The trainable variables of the projection: the two factors of its adapter.
    pub open spec fn vars(self, layer: usize) -> Seq<TrainableVar> {
        if self.adapted {
            seq![
                TrainableVar { layer, projection: self.projection, factor: AdapterFactor::A },
                TrainableVar { layer, projection: self.projection, factor: AdapterFactor::B },
            ]
        } else {
            Seq::empty()
        }
    }

    fn push_vars(&self, layer: usize, out: &mut Vec<TrainableVar>)
        ensures
            final(out)@ == old(out)@ + self.vars(layer),
    {
        if self.adapted {
            out.push(
                TrainableVar { layer, projection: self.projection, factor: AdapterFactor::A },
            );
            out.push(
                TrainableVar { layer, projection: self.projection, factor: AdapterFactor::B },
            );
        }
        assert(out@ =~= old(out)@ + self.vars(layer));
    }
}

impl Gemma4Layer {
    /// The trainable variables of the layer, projection by projection.
    pub open spec fn vars(self, layer: usize) -> Seq<TrainableVar> {
        let values = match self.attn.v_proj {
            Some(v_proj) => v_proj.vars(layer),
            None => Seq::empty(),
        };
        self.attn.q_proj.vars(layer) + self.attn.k_proj.vars(layer) + values
            + self.attn.o_proj.vars(layer) + self.mlp.gate_proj.vars(layer)
            + self.mlp.up_proj.vars(layer) + self.mlp.down_proj.vars(layer)
    }

    /// Appends the trainable variables of the layer.
    pub fn push_vars(&self, layer: usize, out: &mut Vec<TrainableVar>)
        ensures
            final(out)@ == old(out)@ + self.vars(layer),
    {
        let ghost before = out@;
        let ghost q = self.attn.q_proj.vars(layer);
        let ghost k = self.attn.k_proj.vars(layer);
        let ghost v = match self.attn.v_proj {
            Some(v_proj) => v_proj.vars(layer),
            None => Seq::empty(),
        };
        let ghost o = self.attn.o_proj.vars(layer);
        let ghost gate = self.mlp.gate_proj.vars(layer);
        let ghost up = self.mlp.up_proj.vars(layer);
        let ghost down = self.mlp.down_proj.vars(layer);
        self.attn.q_proj.push_vars(layer, out);
        self.attn.k_proj.push_vars(layer, out);
        if let Some(v_proj) = &self.attn.v_proj {
            v_proj.push_vars(layer, out);
        } else {
            assert(out@ =~= before + q + k + v);
        }
        self.attn.o_proj.push_vars(layer, out);
        self.mlp.gate_proj.push_vars(layer, out);
        self.mlp.up_proj.push_vars(layer, out);
        self.mlp.down_proj.push_vars(layer, out);
        proof {
            lemma_regroup(before, q, k, v, o, gate, up, down);
        }
    }
}

proof fn lemma_regroup(
    before: Seq<TrainableVar>,
    q: Seq<TrainableVar>,
    k: Seq<TrainableVar>,
    v: Seq<TrainableVar>,
    o: Seq<TrainableVar>,
    gate: Seq<TrainableVar>,
    up: Seq<TrainableVar>,
    down: Seq<TrainableVar>,
)
    ensures
        before + q + k + v + o + gate + up + down == before + (q + k + v + o + gate + up + down),
{
    assert(before + q + k =~= before + (q + k));
    assert(before + (q + k) + v =~= before + (q + k + v));
    assert(before + (q + k + v) + o =~= before + (q + k + v + o));
    assert(before + (q + k + v + o) + gate =~= before + (q + k + v + o + gate));
    assert(before + (q + k + v + o + gate) + up =~= before + (q + k + v + o + gate + up));
    assert(before + (q + k + v + o + gate + up) + down =~= before + (q + k + v + o + gate + up
        + down));
}

/// With every projection adapted, a sliding layer has fourteen trainable variables and a global
/// one, which has no value projection, twelve.
pub proof fn law_variable_counts(
    config: Gemma4TextConfig,
    index: int,
    targets: DenseLoraTargets,
    plan: TensorParallelPlan,
    layer: usize,
)
    requires
        targets.attn_q && targets.attn_k && targets.attn_v && targets.attn_o,
        targets.mlp_gate && targets.mlp_up && targets.mlp_down,
    ensures
        config.layer(index, targets, plan).vars(layer).len() == match config.layer_types@[index] {
            Gemma4LayerType::SlidingAttention => 14nat,
            Gemma4LayerType::FullAttention => 12nat,
        },
{
}

/// Where a variable stands among those of its layer: by its projection, as the block computes
/// them, and the first factor before the second.
pub open spec fn variable_place(var: TrainableVar) -> int {
    2 * (match var.projection {
        Projection::Query => 0int,
        Projection::Key => 1,
        Projection::Value => 2,
        Projection::Output => 3,
        Projection::Gate => 4,
        Projection::Up => 5,
        Projection::Down => 6,
    }) + if var.factor == AdapterFactor::A {
        0int
    } else {
        1
    }
}

/// Whether variables are those of a layer, in the order of their places, within given places.
#[verifier::opaque]
pub open spec fn in_place(vars: Seq<TrainableVar>, layer: usize, from: int, end: int) -> bool {
    &&& forall|i: int|
        0 <= i < vars.len() ==> (#[trigger] vars[i]).layer == layer && from <= variable_place(
            vars[i],
        ) < end
    &&& forall|i: int, j: int|
        0 <= i < j < vars.len() ==> variable_place(#[trigger] vars[i]) < variable_place(
            #[trigger] vars[j],
        )
}

proof fn lemma_joined_in_place(
    left: Seq<TrainableVar>,
    right: Seq<TrainableVar>,
    layer: usize,
    middle: int,
    var: TrainableVar,
)
    requires
        0 <= middle,
        in_place(left, layer, 0, middle),
        in_place(right, layer, middle, middle + 2),
    ensures
        in_place(left + right, layer, 0, middle + 2),
        (left + right).contains(var) <==> left.contains(var) || right.contains(var),
{
    reveal(in_place);
    let joined = left + right;
    assert forall|i: int| 0 <= i < joined.len() implies (#[trigger] joined[i]).layer == layer && 0
        <= variable_place(joined[i]) < middle + 2 by {
        if i < left.len() {
            assert(joined[i] == left[i]);
        } else {
            assert(joined[i] == right[i - left.len()]);
        }
    }
    assert forall|i: int, j: int| 0 <= i < j < joined.len() implies variable_place(
        #[trigger] joined[i],
    ) < variable_place(#[trigger] joined[j]) by {
        if j < left.len() {
            assert(joined[i] == left[i] && joined[j] == left[j]);
        } else if i < left.len() {
            assert(joined[i] == left[i] && joined[j] == right[j - left.len()]);
        } else {
            assert(joined[i] == right[i - left.len()] && joined[j] == right[j - left.len()]);
        }
    }
    if left.contains(var) {
        let i = choose|i: int| 0 <= i < left.len() && left[i] == var;
        assert(joined[i] == var);
    } else if right.contains(var) {
        let i = choose|i: int| 0 <= i < right.len() && right[i] == var;
        assert(joined[left.len() + i] == var);
    } else if joined.contains(var) {
        let i = choose|i: int| 0 <= i < joined.len() && joined[i] == var;
        if i < left.len() {
            assert(left[i] == var);
        } else {
            assert(right[i - left.len()] == var);
        }
    }
}

proof fn lemma_vars_in_place(plan: ProjectionPlan, layer: usize, var: TrainableVar)
    ensures
        in_place(
            plan.vars(layer),
            layer,
            variable_place(
                TrainableVar { layer, projection: plan.projection, factor: AdapterFactor::A },
            ),
            variable_place(
                TrainableVar { layer, projection: plan.projection, factor: AdapterFactor::A },
            ) + 2,
        ),
        plan.vars(layer).contains(var) <==> plan.adapted && var.layer == layer && var.projection
            == plan.projection,
{
    reveal(in_place);
    let vars = plan.vars(layer);
    if plan.adapted {
        assert(vars[0].factor == AdapterFactor::A && vars[0].projection == plan.projection
            && vars[0].layer == layer);
        assert(vars[1].factor == AdapterFactor::B && vars[1].projection == plan.projection
            && vars[1].layer == layer);
        if var.layer == layer && var.projection == plan.projection {
            if var.factor == AdapterFactor::A {
                assert(var == vars[0]);
            } else {
                assert(var == vars[1]);
            }
        }
    }
}

/// The variables of a layer are both factors of every adapted projection that the layer has, and
/// no others; they stand in the order in which the layer computes its projections, the first factor
/// before the second, none twice.
pub proof fn law_variables_of_a_layer(
    config: Gemma4TextConfig,
    index: int,
    targets: DenseLoraTargets,
    plan: TensorParallelPlan,
    layer: usize,
    var: TrainableVar,
)
    ensures
        in_place(config.layer(index, targets, plan).vars(layer), layer, 0, 14),
        config.layer(index, targets, plan).vars(layer).contains(var) <==> var.layer == layer
            && match var.projection {
            Projection::Query => targets.attn_q,
            Projection::Key => targets.attn_k,
            Projection::Value => targets.attn_v && config.layer_types@[index]
                != Gemma4LayerType::FullAttention,
            Projection::Output => targets.attn_o,
            Projection::Gate => targets.mlp_gate,
            Projection::Up => targets.mlp_up,
            Projection::Down => targets.mlp_down,
        },
{
    let loaded = config.layer(index, targets, plan);
    let q = loaded.attn.q_proj.vars(layer);
    let k = loaded.attn.k_proj.vars(layer);
    let v = match loaded.attn.v_proj {
        Some(v_proj) => v_proj.vars(layer),
        None => Seq::empty(),
    };
    let o = loaded.attn.o_proj.vars(layer);
    let gate = loaded.mlp.gate_proj.vars(layer);
    let up = loaded.mlp.up_proj.vars(layer);
    let down = loaded.mlp.down_proj.vars(layer);
    lemma_vars_in_place(loaded.attn.q_proj, layer, var);
    lemma_vars_in_place(loaded.attn.k_proj, layer, var);
    if let Some(v_proj) = loaded.attn.v_proj {
        lemma_vars_in_place(v_proj, layer, var);
    } else {
        reveal(in_place);
        assert(!v.contains(var));
        assert(in_place(v, layer, 4, 6));
    }
    lemma_vars_in_place(loaded.attn.o_proj, layer, var);
    lemma_vars_in_place(loaded.mlp.gate_proj, layer, var);
    lemma_vars_in_place(loaded.mlp.up_proj, layer, var);
    lemma_vars_in_place(loaded.mlp.down_proj, layer, var);
    lemma_joined_in_place(q, k, layer, 2, var);
    lemma_joined_in_place(q + k, v, layer, 4, var);
    lemma_joined_in_place(q + k + v, o, layer, 6, var);
    lemma_joined_in_place(q + k + v + o, gate, layer, 8, var);
    lemma_joined_in_place(q + k + v + o + gate, up, layer, 10, var);
    lemma_joined_in_place(q + k + v + o + gate + up, down, layer, 12, var);
}

/// The exponent numerators of the full-attention frequencies: the rotated components, two by
/// two, and then nothing for the pairs that do not rotate.
pub open spec fn proportional_exponents(rot_dim: nat, head_dim: nat) -> Seq<Option<nat>> {
    Seq::new(
        head_dim / 2,
        |pair: int|
            if 2 * pair < rot_dim {
                Some((2 * pair) as nat)
            } else {
                None
            },
    )
}

/// Lists the exponent numerators of the full-attention frequencies: frequency `pair` is the
/// base to the power of minus the numerator over the head width, or zero where there is none.
pub fn proportional_inv_freq(rot_dim: usize, head_dim: usize) -> (exponents: Vec<Option<usize>>)
    ensures
        exponents@.len() == proportional_exponents(rot_dim as nat, head_dim as nat).len(),
        forall|pair: int|
            0 <= pair < exponents@.len() ==> match #[trigger] exponents@[pair] {
                Some(numerator) => proportional_exponents(rot_dim as nat, head_dim as nat)[pair]
                    == Some(numerator as nat),
                None => proportional_exponents(rot_dim as nat, head_dim as nat)[pair] is None,
            },
        exponents@.len() == head_dim / 2,
        forall|pair: int|
            0 <= pair < exponents@.len() ==> (#[trigger] exponents@[pair] is Some <==> 2 * pair
                < rot_dim) && (exponents@[pair] matches Some(numerator) ==> numerator == 2 * pair),
{
    let mut exponents: Vec<Option<usize>> = Vec::new();
    let mut pair: usize = 0;
    while pair < head_dim / 2
        invariant
            pair <= head_dim / 2,
            exponents@.len() == pair,
            forall|i: int|
                0 <= i < pair ==> match #[trigger] exponents@[i] {
                    Some(numerator) => proportional_exponents(rot_dim as nat, head_dim as nat)[i]
                        == Some(numerator as nat),
                    None => proportional_exponents(rot_dim as nat, head_dim as nat)[i] is None,
                },
        decreases head_dim / 2 - pair,
    {
        exponents.push(
            if 2 * pair < rot_dim {
                Some(2 * pair)
            } else {
                None
            },
        );
        pair = pair + 1;
    }
    exponents
}

/// The label of each axis.
pub proof fn law_words_of_sharded_axis(axis: ShardedAxis)
    ensures
        axis == ShardedAxis::AttentionQOut ==> axis.label() == ("attention_q_out"@),
        axis == ShardedAxis::AttentionKOut ==> axis.label() == ("attention_k_out"@),
        axis == ShardedAxis::AttentionVOut ==> axis.label() == ("attention_v_out"@),
        axis == ShardedAxis::AttentionHidden ==> axis.label() == ("attention_hidden"@),
        axis == ShardedAxis::NumAttentionHeads ==> axis.label() == ("num_attention_heads"@),
        axis == ShardedAxis::NumKeyValueHeads ==> axis.label() == ("num_key_value_heads"@),
        axis == ShardedAxis::IntermediateSize ==> axis.label() == ("intermediate_size"@),
{
}

} // verus!
