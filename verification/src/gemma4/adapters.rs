//! Replicated adapters of a tensor-parallel world: the manifest that identifies a rank's
//! adapters, and the exchange by which the ranks make sure that they hold the same ones before
//! they reduce gradients.
use crate::binary64::{round_whole, Real64};
use crate::dtype::DType;
use crate::frames::{push_bytes, push_word_frame};
use crate::sha256::sha256_digest;
use crate::tensor_parallel::{coordinate_local_call, Coordination, StageReport, TensorParallelPlan};
use crate::text::{decimal, little_endian_word};
use vstd::prelude::*;
use vstd::utf8::encode_utf8;

verus! {

/// The element type and shape of a trainable variable.
#[derive(Debug)]
pub struct AdapterVar {
    pub dtype: DType,
    pub dims: Vec<usize>,
}

/// The element type and shape of a trainable variable, over a mathematical sequence.
#[verifier::ext_equal]
pub struct VarShape {
    pub dtype: DType,
    pub dims: Seq<usize>,
}

impl View for AdapterVar {
    type V = VarShape;

    open spec fn view(&self) -> VarShape {
        VarShape { dtype: self.dtype, dims: self.dims@ }
    }
}

/// The shapes of a list of variables.
pub open spec fn shapes(vars: Seq<AdapterVar>) -> Seq<VarShape> {
    vars.map_values(|var: AdapterVar| var@)
}

/// Sizes as machine words, one after the other.
pub open spec fn dim_bytes(dims: Seq<usize>) -> Seq<u8>
    decreases dims.len(),
{
    if dims.len() == 0 {
        Seq::empty()
    } else {
        crate::text::word_bytes(dims[0] as nat) + dim_bytes(dims.skip(1))
    }
}

/// A variable in a manifest: the name of its element type, then its shape.
pub open spec fn var_bytes(var: VarShape) -> Seq<u8> {
    crate::frames::framed(encode_utf8(var.dtype.variant_name()), crate::text::word_width())
        + crate::text::word_bytes(var.dims.len()) + dim_bytes(var.dims)
}

/// The variables of a manifest, one after the other.
pub open spec fn vars_bytes(vars: Seq<VarShape>) -> Seq<u8>
    decreases vars.len(),
{
    if vars.len() == 0 {
        Seq::empty()
    } else {
        var_bytes(vars[0]) + vars_bytes(vars.skip(1))
    }
}

/// What a manifest digest is taken of: a tag, the recipe that selected the adapters, and the
/// variables.
pub open spec fn manifest_bytes(vars: Seq<VarShape>, recipe: Seq<char>) -> Seq<u8> {
    encode_utf8("ferrl-gemma4-adapter-manifest-v1\0"@) + crate::frames::framed(
        encode_utf8(recipe),
        crate::text::word_width(),
    ) + crate::text::word_bytes(vars.len()) + vars_bytes(vars)
}

/// Appends a variable to a manifest.
fn push_var(buffer: &mut Vec<u8>, var: &AdapterVar)
    ensures
        final(buffer)@ == old(buffer)@ + var_bytes(var@),
{
    let ghost before = buffer@;
    push_word_frame(buffer, var.dtype.variant().as_bytes());
    push_bytes(buffer, &little_endian_word(var.dims.len()));
    let ghost head = buffer@;
    let mut dim: usize = 0;
    assert(var.dims@.skip(0) =~= var.dims@);
    assert(buffer@ + dim_bytes(var.dims@.skip(0)) =~= head + dim_bytes(var.dims@));
    while dim < var.dims.len()
        invariant
            dim <= var.dims@.len(),
            buffer@ + dim_bytes(var.dims@.skip(dim as int)) == head + dim_bytes(var.dims@),
        decreases var.dims@.len() - dim,
    {
        let ghost now = buffer@;
        push_bytes(buffer, &little_endian_word(var.dims[dim]));
        proof {
            let rest = var.dims@.skip(dim as int);
            assert(rest[0] == var.dims@[dim as int]);
            assert(rest.skip(1) =~= var.dims@.skip(dim + 1));
            assert(buffer@ + dim_bytes(rest.skip(1)) =~= now + dim_bytes(rest));
        }
        dim = dim + 1;
    }
    assert(buffer@ =~= before + var_bytes(var@));
}

/// The digest of a manifest: two ranks whose recipe, number of adapters, shapes or element types
/// differ take it of different bytes.
pub fn adapter_manifest_digest(vars: &Vec<AdapterVar>, recipe: &str) -> (digest: [u8; 32])
    ensures
        digest@ == crate::sha256::sha256(manifest_bytes(shapes(vars@), recipe@)),
{
    let bytes = adapter_manifest(vars, recipe);
    sha256_digest(&bytes)
}

/// What a manifest digest is taken of.
pub fn adapter_manifest(vars: &Vec<AdapterVar>, recipe: &str) -> (bytes: Vec<u8>)
    ensures
        bytes@ == manifest_bytes(shapes(vars@), recipe@),
{
    let mut buffer: Vec<u8> = Vec::new();
    push_bytes(&mut buffer, "ferrl-gemma4-adapter-manifest-v1\0".as_bytes());
    push_word_frame(&mut buffer, recipe.as_bytes());
    push_bytes(&mut buffer, &little_endian_word(vars.len()));
    let ghost head = buffer@;
    let ghost all = shapes(vars@);
    let mut done: usize = 0;
    assert(all.skip(0) =~= all);
    while done < vars.len()
        invariant
            done <= vars@.len(),
            all == shapes(vars@),
            buffer@ + vars_bytes(all.skip(done as int)) == head + vars_bytes(all),
        decreases vars@.len() - done,
    {
        let ghost now = buffer@;
        push_var(&mut buffer, &vars[done]);
        proof {
            let rest = all.skip(done as int);
            assert(rest[0] == vars@[done as int]@);
            assert(rest.skip(1) =~= all.skip(done + 1));
            assert(buffer@ + vars_bytes(rest.skip(1)) =~= now + vars_bytes(rest));
        }
        done = done + 1;
    }
    assert(buffer@ =~= head + vars_bytes(all));
    buffer
}

/// Sizes are told apart from what follows them.
proof fn lemma_dims_split(left: Seq<usize>, after_left: Seq<u8>, right: Seq<usize>, after_right: Seq<u8>)
    requires
        left.len() == right.len(),
        dim_bytes(left) + after_left == dim_bytes(right) + after_right,
    ensures
        left == right,
        after_left == after_right,
    decreases left.len(),
{
    if left.len() == 0 {
        assert(dim_bytes(left) + after_left =~= after_left);
        assert(dim_bytes(right) + after_right =~= after_right);
        assert(left =~= right);
    } else {
        let (a, b) = (left.skip(1), right.skip(1));
        assert(dim_bytes(left) + after_left =~= crate::text::word_bytes(left[0] as nat) + (
        dim_bytes(a) + after_left));
        assert(dim_bytes(right) + after_right =~= crate::text::word_bytes(right[0] as nat) + (
        dim_bytes(b) + after_right));
        crate::text::lemma_word_capacity();
        crate::frames::lemma_number_splits(
            left[0] as nat,
            dim_bytes(a) + after_left,
            right[0] as nat,
            dim_bytes(b) + after_right,
            crate::text::word_width(),
        );
        lemma_dims_split(a, after_left, b, after_right);
        assert(left =~= seq![left[0]] + a);
        assert(right =~= seq![right[0]] + b);
    }
}

/// Whether the lengths of a shape fit a machine word, as those of a variable do.
pub open spec fn shape_fits(shape: VarShape) -> bool {
    shape.dims.len() <= usize::MAX
}

/// A variable is told apart from what follows it.
proof fn lemma_var_splits(left: VarShape, after_left: Seq<u8>, right: VarShape, after_right: Seq<u8>)
    requires
        shape_fits(left),
        shape_fits(right),
        var_bytes(left) + after_left == var_bytes(right) + after_right,
    ensures
        left == right,
        after_left == after_right,
{
    let width = crate::text::word_width();
    let (left_name, right_name) = (
        encode_utf8(left.dtype.variant_name()),
        encode_utf8(right.dtype.variant_name()),
    );
    let (left_dims, right_dims) = (
        dim_bytes(left.dims) + after_left,
        dim_bytes(right.dims) + after_right,
    );
    let (left_rest, right_rest) = (
        crate::text::word_bytes(left.dims.len()) + left_dims,
        crate::text::word_bytes(right.dims.len()) + right_dims,
    );
    crate::text::lemma_word_capacity();
    crate::dtype::lemma_variant_names(left.dtype, right.dtype);
    crate::dtype::lemma_variant_names(right.dtype, left.dtype);
    assert(var_bytes(left) + after_left =~= crate::frames::framed(left_name, width) + left_rest);
    assert(var_bytes(right) + after_right =~= crate::frames::framed(right_name, width)
        + right_rest);
    crate::frames::lemma_frame_splits(left_name, left_rest, right_name, right_rest, width);
    vstd::utf8::encode_utf8_decode_utf8(left.dtype.variant_name());
    vstd::utf8::encode_utf8_decode_utf8(right.dtype.variant_name());
    crate::frames::lemma_number_splits(
        left.dims.len(),
        left_dims,
        right.dims.len(),
        right_dims,
        width,
    );
    lemma_dims_split(left.dims, after_left, right.dims, after_right);
}

proof fn lemma_vars_split(left: Seq<VarShape>, right: Seq<VarShape>)
    requires
        left.len() == right.len(),
        forall|i: int| 0 <= i < left.len() ==> shape_fits(#[trigger] left[i]),
        forall|i: int| 0 <= i < right.len() ==> shape_fits(#[trigger] right[i]),
        vars_bytes(left) == vars_bytes(right),
    ensures
        left == right,
    decreases left.len(),
{
    if left.len() == 0 {
        assert(left =~= right);
    } else {
        let (a, b) = (left.skip(1), right.skip(1));
        lemma_var_splits(left[0], vars_bytes(a), right[0], vars_bytes(b));
        assert forall|i: int| 0 <= i < a.len() implies shape_fits(#[trigger] a[i]) by {
            assert(a[i] == left[i + 1]);
        }
        assert forall|i: int| 0 <= i < b.len() implies shape_fits(#[trigger] b[i]) by {
            assert(b[i] == right[i + 1]);
        }
        lemma_vars_split(a, b);
        assert(left =~= seq![left[0]] + a);
        assert(right =~= seq![right[0]] + b);
    }
}

/// A manifest determines the recipe and every adapter's element type and shape, in order: what
/// the digest is taken of is ambiguous for no two adapter sets whose lengths fit a machine word.
pub proof fn law_manifest_is_injective(
    left: Seq<VarShape>,
    left_recipe: Seq<char>,
    right: Seq<VarShape>,
    right_recipe: Seq<char>,
)
    requires
        left.len() <= usize::MAX,
        right.len() <= usize::MAX,
        encode_utf8(left_recipe).len() <= usize::MAX,
        encode_utf8(right_recipe).len() <= usize::MAX,
        forall|i: int| 0 <= i < left.len() ==> shape_fits(#[trigger] left[i]),
        forall|i: int| 0 <= i < right.len() ==> shape_fits(#[trigger] right[i]),
        manifest_bytes(left, left_recipe) == manifest_bytes(right, right_recipe),
    ensures
        left == right,
        left_recipe == right_recipe,
{
    let width = crate::text::word_width();
    let tag = encode_utf8("ferrl-gemma4-adapter-manifest-v1\0"@);
    let (a, b) = (encode_utf8(left_recipe), encode_utf8(right_recipe));
    let (left_rest, right_rest) = (
        crate::text::word_bytes(left.len()) + vars_bytes(left),
        crate::text::word_bytes(right.len()) + vars_bytes(right),
    );
    crate::text::lemma_word_capacity();
    assert(manifest_bytes(left, left_recipe) =~= tag + (crate::frames::framed(a, width)
        + left_rest));
    assert(manifest_bytes(right, right_recipe) =~= tag + (crate::frames::framed(b, width)
        + right_rest));
    crate::frames::lemma_prefix_cancels(
        tag,
        crate::frames::framed(a, width) + left_rest,
        crate::frames::framed(b, width) + right_rest,
    );
    crate::frames::lemma_frame_splits(a, left_rest, b, right_rest, width);
    vstd::utf8::encode_utf8_decode_utf8(left_recipe);
    vstd::utf8::encode_utf8_decode_utf8(right_recipe);
    crate::frames::lemma_number_splits(
        left.len(),
        vars_bytes(left),
        right.len(),
        vars_bytes(right),
        width,
    );
    lemma_vars_split(left, right);
}

/// A local computation of the exchange that all ranks must have done before the next collective.
#[derive(Debug, Clone, Copy, PartialEq, Eq, Structural)]
pub enum AdapterStage {
    /// Collect the adapters and see whether they can be reduced.
    PayloadStaging,
    /// Stage the digest of the manifest.
    ManifestStaging,
    /// Read the reduced digests back.
    ManifestReadback,
    /// Read the reduced adapters back and compare them.
    ValueReadback,
}

impl AdapterStage {
    /// The name of the stage.
    pub open spec fn label(self) -> Seq<char> {
        match self {
            AdapterStage::PayloadStaging => "Gemma4 tensor-parallel adapter payload staging"@,
            AdapterStage::ManifestStaging => "Gemma4 tensor-parallel adapter manifest staging"@,
            AdapterStage::ManifestReadback => "Gemma4 tensor-parallel adapter manifest readback"@,
            AdapterStage::ValueReadback => "Gemma4 tensor-parallel adapter value readback"@,
        }
    }

    /// The name of the stage.
    pub fn name(self) -> (name: &'static str)
        ensures
            name@ == self.label(),
    {
        match self {
            AdapterStage::PayloadStaging => "Gemma4 tensor-parallel adapter payload staging",
            AdapterStage::ManifestStaging => "Gemma4 tensor-parallel adapter manifest staging",
            AdapterStage::ManifestReadback => "Gemma4 tensor-parallel adapter manifest readback",
            AdapterStage::ValueReadback => "Gemma4 tensor-parallel adapter value readback",
        }
    }
}

/// What a rank finds when it reads the reduced adapters back.
#[derive(Debug)]
pub enum ValueReading {
    /// They could not be read.
    Unreadable,
    /// Whether each reduced adapter is the world's multiple of this rank's, up to rounding.
    Compared(Vec<bool>),
}

/// What a rank has learned so far in the exchange about replicated adapters.
#[derive(Debug)]
pub struct AdapterObservations {
    /// What came of collecting the adapters.
    pub payload_staged: Option<StageReport>,
    /// The reduced count of the ranks whose payload cannot be reduced.
    pub invalid_count: Option<Real64>,
    /// What came of staging the digest.
    pub manifest_staged: Option<StageReport>,
    /// The reduced bytes of the manifest digests.
    pub manifest_sums: Option<Vec<Real64>>,
    /// What came of reading the reduced digests.
    pub manifest_read: Option<StageReport>,
    /// The reduced count of the ranks whose manifest is not everybody's.
    pub mismatch_count: Option<Real64>,
    /// What the reduced adapters were found to be.
    pub values: Option<ValueReading>,
    /// The reduced count of the ranks that did not find their own values.
    pub value_failures: Option<Real64>,
}

/// Why a rank refuses to reduce gradients of replicated adapters.
#[derive(Debug, Clone, Copy, PartialEq, Eq, Structural)]
pub enum AdapterFault {
    /// A stage failed on this rank.
    LocalStage(AdapterStage),
    /// A stage failed on another rank.
    PeerStage(AdapterStage),
    /// This rank's payload cannot be reduced.
    LocalPayload,
    /// Another rank's payload cannot be reduced.
    PeerPayload,
    /// Recipes, numbers of adapters, shapes or element types differ.
    Manifest,
    /// The values of an adapter differ.
    Values { index: usize },
}

/// What a rank does next in the exchange about replicated adapters.
#[derive(Debug, Clone, Copy, PartialEq, Eq)]
pub enum AdapterStep {
    /// The adapters are the same on every rank.
    Accepted,
    /// Run a stage, contribute whether it failed, and report both.
    Stage(AdapterStage),
    /// Contribute whether this rank's payload cannot be reduced.
    ReduceInvalid(bool),
    /// Contribute the digest of this rank's manifest, byte by byte.
    ReduceManifest([u8; 32]),
    /// Contribute whether this rank's manifest is not everybody's.
    ReduceMismatch(bool),
    /// Contribute the adapters themselves, and read the sums back.
    ReduceValues,
    /// Contribute whether this rank did not find its own values.
    ReduceValueFailures(bool),
    /// The adapters cannot be reduced, or are not the same.
    Refused(AdapterFault),
}

/// Whether a reduced byte is not the world's multiple of this rank's.
pub open spec fn byte_differs(byte: u8, sum: Real64, world: nat) -> bool {
    !sum.equals_whole(crate::binary64::round_to_double(world) * (byte as nat))
}

/// Whether some reduced byte of the manifest digests is not the world's multiple of this rank's.
pub open spec fn manifest_differs(digest: Seq<u8>, sums: Seq<Real64>, world: nat) -> bool {
    exists|i: int|
        0 <= i < digest.len() && i < sums.len() && byte_differs(
            #[trigger] digest[i],
            sums[i],
            world,
        )
}

/// The first adapter that is out of tolerance.
pub open spec fn first_outside(within: Seq<bool>, from: int) -> Option<int>
    decreases within.len() - from,
{
    if from < 0 || from >= within.len() {
        None
    } else if !within[from] {
        Some(from)
    } else {
        first_outside(within, from + 1)
    }
}

/// Whether a rank did not find its own values in the reduced adapters.
pub open spec fn reading_fails(reading: ValueReading) -> bool {
    match reading {
        ValueReading::Unreadable => true,
        ValueReading::Compared(within) => first_outside(within@, 0) is Some,
    }
}

/// The step that a stage stands in the way with: to run it, or to refuse after it failed.
pub open spec fn stage_blocks(stage: AdapterStage, report: Option<StageReport>) -> Option<AdapterStep> {
    match report {
        None => Some(AdapterStep::Stage(stage)),
        Some(report) => match report.outcome() {
            Coordination::Proceed => None,
            Coordination::FailedHere => Some(
                AdapterStep::Refused(AdapterFault::LocalStage(stage)),
            ),
            Coordination::FailedOnPeer => Some(
                AdapterStep::Refused(AdapterFault::PeerStage(stage)),
            ),
        },
    }
}

/// The step that the values call for.
pub open spec fn value_step(seen: AdapterObservations) -> AdapterStep {
    match seen.values {
        None => AdapterStep::ReduceValues,
        Some(reading) => match seen.value_failures {
            None => AdapterStep::ReduceValueFailures(reading_fails(reading)),
            Some(failures) => match crate::tensor_parallel::coordinated(!reading_fails(reading), failures) {
                Coordination::Proceed => AdapterStep::Accepted,
                Coordination::FailedOnPeer => AdapterStep::Refused(
                    AdapterFault::PeerStage(AdapterStage::ValueReadback),
                ),
                Coordination::FailedHere => AdapterStep::Refused(
                    match reading {
                        ValueReading::Unreadable => AdapterFault::LocalStage(
                            AdapterStage::ValueReadback,
                        ),
                        ValueReading::Compared(within) => AdapterFault::Values {
                            index: first_outside(within@, 0)->0 as usize,
                        },
                    },
                ),
            },
        },
    }
}

/// The step that the manifests call for, once they can be compared.
pub open spec fn manifest_step(
    vars: Seq<VarShape>,
    recipe: Seq<char>,
    world: nat,
    seen: AdapterObservations,
    step: AdapterStep,
) -> bool {
    let digest = crate::sha256::sha256(manifest_bytes(vars, recipe));
    match seen.manifest_sums {
        None => step matches AdapterStep::ReduceManifest(sent) && sent@ == digest,
        Some(sums) => match stage_blocks(AdapterStage::ManifestReadback, seen.manifest_read) {
            Some(block) => step == block,
            None => match seen.mismatch_count {
                None => step == AdapterStep::ReduceMismatch(
                    manifest_differs(digest, sums@, world),
                ),
                Some(mismatched) => if mismatched.exceeds_zero() {
                    step == AdapterStep::Refused(AdapterFault::Manifest)
                } else if vars.len() == 0 {
                    step == AdapterStep::Accepted
                } else {
                    step == value_step(seen)
                },
            },
        },
    }
}

/// The step of a rank of a sharded world that follows what it has learned.
pub open spec fn sharded_step(
    vars: Seq<VarShape>,
    recipe: Seq<char>,
    world: nat,
    payload_valid: bool,
    seen: AdapterObservations,
    step: AdapterStep,
) -> bool {
    match stage_blocks(AdapterStage::PayloadStaging, seen.payload_staged) {
        Some(block) => step == block,
        None => match seen.invalid_count {
            None => step == AdapterStep::ReduceInvalid(!payload_valid),
            Some(invalid) => if invalid.exceeds_zero() {
                step == AdapterStep::Refused(
                    if payload_valid {
                        AdapterFault::PeerPayload
                    } else {
                        AdapterFault::LocalPayload
                    },
                )
            } else {
                match stage_blocks(AdapterStage::ManifestStaging, seen.manifest_staged) {
                    Some(block) => step == block,
                    None => manifest_step(vars, recipe, world, seen, step),
                }
            },
        },
    }
}

/// Whether some reduced byte of the manifest digests is not the world's multiple of this rank's.
fn sums_differ(digest: &[u8; 32], sums: &Vec<Real64>, world: usize) -> (differ: bool)
    ensures
        differ == manifest_differs(digest@, sums@, world as nat),
{
    let ranks: u128 = round_whole(world as u128);
    let mut i: usize = 0;
    while i < 32 && i < sums.len()
        invariant
            i <= 32,
            i <= sums@.len(),
            ranks == crate::binary64::round_to_double(world as nat),
            ranks <= 0x2_0000_0000_0000_0000,
            forall|j: int|
                0 <= j < i ==> !byte_differs(#[trigger] digest@[j], sums@[j], world as nat),
        decreases 32 - i,
    {
        let byte: u8 = digest[i];
        assert(ranks * byte <= 0x2_0000_0000_0000_0000 * 0x100) by (nonlinear_arith)
            requires
                ranks <= 0x2_0000_0000_0000_0000,
                byte <= 0x100,
        ;
        if !sums[i].is_whole(ranks * byte as u128) {
            assert(byte_differs(digest@[i as int], sums@[i as int], world as nat));
            return true;
        }
        i = i + 1;
    }
    false
}

/// Finds the first adapter that is out of tolerance.
fn find_outside(within: &Vec<bool>) -> (found: Option<usize>)
    ensures
        match found {
            Some(index) => first_outside(within@, 0) == Some(index as int),
            None => first_outside(within@, 0) is None,
        },
{
    let mut index: usize = 0;
    while index < within.len()
        invariant
            index <= within@.len(),
            first_outside(within@, 0) == first_outside(within@, index as int),
        decreases within@.len() - index,
    {
        if !within[index] {
            return Some(index);
        }
        index = index + 1;
    }
    None
}

/// Says what a stage stands in the way with.
fn blocked_by(stage: AdapterStage, report: Option<StageReport>) -> (block: Option<AdapterStep>)
    ensures
        block == stage_blocks(stage, report),
{
    match report {
        None => Some(AdapterStep::Stage(stage)),
        Some(report) => match report.coordination() {
            Coordination::Proceed => None,
            Coordination::FailedHere => Some(
                AdapterStep::Refused(AdapterFault::LocalStage(stage)),
            ),
            Coordination::FailedOnPeer => Some(
                AdapterStep::Refused(AdapterFault::PeerStage(stage)),
            ),
        },
    }
}

/// Says what the values call for.
fn compare_values(seen: &AdapterObservations) -> (step: AdapterStep)
    ensures
        step == value_step(*seen),
{
    let reading = match &seen.values {
        None => return AdapterStep::ReduceValues,
        Some(reading) => reading,
    };
    let outside: Option<usize> = match reading {
        ValueReading::Unreadable => None,
        ValueReading::Compared(within) => find_outside(within),
    };
    let fails: bool = match reading {
        ValueReading::Unreadable => true,
        ValueReading::Compared(_) => outside.is_some(),
    };
    let failures = match seen.value_failures {
        None => return AdapterStep::ReduceValueFailures(fails),
        Some(failures) => failures,
    };
    match coordinate_local_call(!fails, failures) {
        Coordination::Proceed => AdapterStep::Accepted,
        Coordination::FailedOnPeer => AdapterStep::Refused(
            AdapterFault::PeerStage(AdapterStage::ValueReadback),
        ),
        Coordination::FailedHere => AdapterStep::Refused(
            match outside {
                None => AdapterFault::LocalStage(AdapterStage::ValueReadback),
                Some(index) => AdapterFault::Values { index },
            },
        ),
    }
}

/// Says what a rank does next to make sure that the adapters are the same on every rank, given
/// what it has learned so far. A world of one rank accepts at once. The values are reduced only
/// after every rank's payload and manifest have been found good, so that no rank reduces tensors
/// of another shape; and no rank enters a collective after a stage that failed on any rank.
pub fn validate_replicated_adapter_values(
    vars: &Vec<AdapterVar>,
    recipe: &str,
    plan: &TensorParallelPlan,
    payload_valid: bool,
    seen: &AdapterObservations,
) -> (step: AdapterStep)
    ensures
        if plan.sharded() {
            sharded_step(
                shapes(vars@),
                recipe@,
                plan.of_world() as nat,
                payload_valid,
                *seen,
                step,
            )
        } else {
            step == AdapterStep::Accepted
        },
{
    if !plan.is_sharded() {
        return AdapterStep::Accepted;
    }
    if let Some(block) = blocked_by(AdapterStage::PayloadStaging, seen.payload_staged) {
        return block;
    }
    let invalid = match seen.invalid_count {
        None => return AdapterStep::ReduceInvalid(!payload_valid),
        Some(invalid) => invalid,
    };
    if invalid.is_above_zero() {
        return AdapterStep::Refused(
            if payload_valid {
                AdapterFault::PeerPayload
            } else {
                AdapterFault::LocalPayload
            },
        );
    }
    if let Some(block) = blocked_by(AdapterStage::ManifestStaging, seen.manifest_staged) {
        return block;
    }
    let digest: [u8; 32] = adapter_manifest_digest(vars, recipe);
    let sums = match &seen.manifest_sums {
        None => return AdapterStep::ReduceManifest(digest),
        Some(sums) => sums,
    };
    if let Some(block) = blocked_by(AdapterStage::ManifestReadback, seen.manifest_read) {
        return block;
    }
    let mismatched = match seen.mismatch_count {
        None => return AdapterStep::ReduceMismatch(sums_differ(&digest, sums, plan.world_size())),
        Some(mismatched) => mismatched,
    };
    if mismatched.is_above_zero() {
        return AdapterStep::Refused(AdapterFault::Manifest);
    }
    if vars.len() == 0 {
        return AdapterStep::Accepted;
    }
    compare_values(seen)
}

/// The adapter that is reported is the first that is out of tolerance, and none is reported exactly
/// when all are within.
pub proof fn law_first_outside(within: Seq<bool>, from: int)
    requires
        0 <= from <= within.len(),
    ensures
        match first_outside(within, from) {
            Some(index) => {
                &&& from <= index < within.len()
                &&& !within[index]
                &&& forall|i: int| from <= i < index ==> #[trigger] within[i]
            },
            None => forall|i: int| from <= i < within.len() ==> #[trigger] within[i],
        },
    decreases within.len() - from,
{
    if from < within.len() && within[from] {
        law_first_outside(within, from + 1);
    }
}

/// A rank accepts only what it has seen to be good: every stage succeeded on every rank, no
/// payload and no manifest was found bad, and each reduced adapter was found to be its own.
pub proof fn law_acceptance_is_earned(
    vars: Seq<VarShape>,
    recipe: Seq<char>,
    world: nat,
    payload_valid: bool,
    seen: AdapterObservations,
    step: AdapterStep,
)
    requires
        sharded_step(vars, recipe, world, payload_valid, seen, step),
    ensures
        step == AdapterStep::Accepted <==> {
            &&& seen.payload_staged matches Some(report) && report.succeeded
                && report.failures.zero()
            &&& seen.invalid_count matches Some(invalid) && !invalid.exceeds_zero()
            &&& seen.manifest_staged matches Some(report) && report.succeeded
                && report.failures.zero()
            &&& seen.manifest_sums is Some
            &&& seen.manifest_read matches Some(report) && report.succeeded
                && report.failures.zero()
            &&& seen.mismatch_count matches Some(mismatched) && !mismatched.exceeds_zero()
            &&& vars.len() > 0 ==> {
                &&& seen.values matches Some(ValueReading::Compared(within)) && forall|i: int|
                    0 <= i < within@.len() ==> #[trigger] within@[i]
                &&& seen.value_failures matches Some(failures) && failures.zero()
            }
        },
{
    if let Some(ValueReading::Compared(within)) = seen.values {
        law_first_outside(within@, 0);
    }
}

/// What a rank contributes is what it found itself: whether its own payload is bad, its own digest,
/// whether some reduced byte is not the world's multiple of its own, and whether it failed to read
/// the values or one of them is not its own.
pub proof fn law_contributions_are_honest(
    vars: Seq<VarShape>,
    recipe: Seq<char>,
    world: nat,
    payload_valid: bool,
    seen: AdapterObservations,
    step: AdapterStep,
)
    requires
        sharded_step(vars, recipe, world, payload_valid, seen, step),
    ensures
        step matches AdapterStep::ReduceInvalid(bad) ==> bad == !payload_valid,
        step matches AdapterStep::ReduceManifest(sent) ==> sent@ == crate::sha256::sha256(
            manifest_bytes(vars, recipe),
        ),
        step matches AdapterStep::ReduceMismatch(differs) ==> {
            let digest = crate::sha256::sha256(manifest_bytes(vars, recipe));
            let sums = seen.manifest_sums->0@;
            seen.manifest_sums is Some && (differs <==> exists|i: int|
                0 <= i < digest.len() && i < sums.len() && !(#[trigger] sums[i]).equals_whole(
                    crate::binary64::round_to_double(world) * (digest[i] as nat),
                ))
        },
        step matches AdapterStep::ReduceValueFailures(failed) ==> {
            seen.values is Some && (failed <==> match seen.values->0 {
                ValueReading::Unreadable => true,
                ValueReading::Compared(within) => exists|i: int|
                    0 <= i < within@.len() && !#[trigger] within@[i],
            })
        },
        step matches AdapterStep::Refused(AdapterFault::LocalPayload) ==> !payload_valid,
        step matches AdapterStep::Refused(AdapterFault::PeerPayload) ==> payload_valid,
        step matches AdapterStep::Refused(AdapterFault::Manifest) ==> seen.mismatch_count is Some
            && seen.mismatch_count->0.exceeds_zero(),
        step matches AdapterStep::Refused(AdapterFault::Values { index }) ==> {
            seen.values matches Some(ValueReading::Compared(within)) && index < within@.len()
                && !within@[index as int] && forall|i: int| 0 <= i < index ==> #[trigger] within@[i]
        },
{
    let digest = crate::sha256::sha256(manifest_bytes(vars, recipe));
    if let Some(sums) = seen.manifest_sums {
        if manifest_differs(digest, sums@, world) {
            let i = choose|i: int|
                0 <= i < digest.len() && i < sums@.len() && byte_differs(
                    #[trigger] digest[i],
                    sums@[i],
                    world,
                );
            assert(!sums@[i].equals_whole(
                crate::binary64::round_to_double(world) * (digest[i] as nat),
            ));
        } else {
            assert forall|i: int|
                0 <= i < digest.len() && i < sums@.len() implies (#[trigger] sums@[i]).equals_whole(
                crate::binary64::round_to_double(world) * (digest[i] as nat),
            ) by {
                assert(!byte_differs(digest[i], sums@[i], world));
            }
        }
    }
    if let Some(ValueReading::Compared(within)) = seen.values {
        law_first_outside(within@, 0);
        assert(within.len() == within@.len());
    }
}

/// The order of the exchange: each step is taken as soon as what comes before it has gone well on
/// every rank, and not before.
pub proof fn law_exchange_goes_in_order(
    vars: Seq<VarShape>,
    recipe: Seq<char>,
    world: nat,
    payload_valid: bool,
    seen: AdapterObservations,
    step: AdapterStep,
)
    requires
        sharded_step(vars, recipe, world, payload_valid, seen, step),
    ensures
        ({
            let staged = seen.payload_staged matches Some(report) && report.succeeded
                && report.failures.zero();
            let valid = staged && (seen.invalid_count matches Some(invalid)
                && !invalid.exceeds_zero());
            let ready = valid && (seen.manifest_staged matches Some(report) && report.succeeded
                && report.failures.zero());
            let read = ready && seen.manifest_sums is Some && (seen.manifest_read matches Some(
                report,
            ) && report.succeeded && report.failures.zero());
            let same = read && (seen.mismatch_count matches Some(mismatched)
                && !mismatched.exceeds_zero());
            &&& step == AdapterStep::Stage(AdapterStage::PayloadStaging)
                <==> seen.payload_staged is None
            &&& step is ReduceInvalid <==> staged && seen.invalid_count is None
            &&& step == AdapterStep::Stage(AdapterStage::ManifestStaging) <==> valid
                && seen.manifest_staged is None
            &&& step is ReduceManifest <==> ready && seen.manifest_sums is None
            &&& step == AdapterStep::Stage(AdapterStage::ManifestReadback) <==> ready
                && seen.manifest_sums is Some && seen.manifest_read is None
            &&& step is ReduceMismatch <==> read && seen.mismatch_count is None
            &&& step is ReduceValues <==> same && vars.len() > 0 && seen.values is None
            &&& step is ReduceValueFailures <==> same && vars.len() > 0 && seen.values is Some
                && seen.value_failures is None
        }),
{
}

/// What a manifest holds of variables is what it holds of each, one after the other: the framed
/// name of the element type, the number of sizes, and the sizes in their order, each number in a
/// machine word, the lowest byte first.
pub proof fn law_manifest_lists_the_variables(
    before: Seq<VarShape>,
    var: VarShape,
    dims: Seq<usize>,
    dim: usize,
)
    ensures
        vars_bytes(before.push(var)) == vars_bytes(before) + crate::frames::framed(
            encode_utf8(var.dtype.variant_name()),
            crate::text::word_width(),
        ) + crate::text::little_endian(var.dims.len(), crate::text::word_width()) + dim_bytes(
            var.dims,
        ),
        dim_bytes(dims.push(dim)) == dim_bytes(dims) + crate::text::little_endian(
            dim as nat,
            crate::text::word_width(),
        ),
        dim_bytes(Seq::empty()) == Seq::<u8>::empty(),
        vars_bytes(Seq::empty()) == Seq::<u8>::empty(),
{
    lemma_vars_bytes_push(before, var);
    lemma_dim_bytes_push(dims, dim);
    assert(vars_bytes(before) + var_bytes(var) =~= vars_bytes(before) + crate::frames::framed(
        encode_utf8(var.dtype.variant_name()),
        crate::text::word_width(),
    ) + crate::text::little_endian(var.dims.len(), crate::text::word_width()) + dim_bytes(
        var.dims,
    ));
}

proof fn lemma_vars_bytes_push(before: Seq<VarShape>, var: VarShape)
    ensures
        vars_bytes(before.push(var)) == vars_bytes(before) + var_bytes(var),
    decreases before.len(),
{
    let all = before.push(var);
    if before.len() == 0 {
        assert(all.skip(1) =~= Seq::empty());
        assert(vars_bytes(all.skip(1)) =~= Seq::<u8>::empty());
        assert(vars_bytes(all) =~= vars_bytes(before) + var_bytes(var));
    } else {
        assert(all.skip(1) =~= before.skip(1).push(var));
        lemma_vars_bytes_push(before.skip(1), var);
        assert(vars_bytes(all) =~= vars_bytes(before) + var_bytes(var));
    }
}

proof fn lemma_dim_bytes_push(dims: Seq<usize>, dim: usize)
    ensures
        dim_bytes(dims.push(dim)) == dim_bytes(dims) + crate::text::word_bytes(dim as nat),
    decreases dims.len(),
{
    let all = dims.push(dim);
    if dims.len() == 0 {
        assert(all.skip(1) =~= Seq::empty());
        assert(dim_bytes(all.skip(1)) =~= Seq::<u8>::empty());
        assert(dim_bytes(all) =~= dim_bytes(dims) + crate::text::word_bytes(dim as nat));
    } else {
        assert(all.skip(1) =~= dims.skip(1).push(dim));
        lemma_dim_bytes_push(dims.skip(1), dim);
        assert(dim_bytes(all) =~= dim_bytes(dims) + crate::text::word_bytes(dim as nat));
    }
}

/// What two ranks have learned at the end of one exchange: the reduced numbers are the same on
/// both, and a count of failures is zero only if neither rank failed.
pub open spec fn one_exchange(left: AdapterObservations, right: AdapterObservations) -> bool {
    &&& one_stage(left.payload_staged, right.payload_staged)
    &&& left.invalid_count == right.invalid_count
    &&& one_stage(left.manifest_staged, right.manifest_staged)
    &&& left.manifest_sums is Some && right.manifest_sums is Some
    &&& one_stage(left.manifest_read, right.manifest_read)
    &&& left.mismatch_count == right.mismatch_count
    &&& left.value_failures == right.value_failures
    &&& left.values is Some <==> right.values is Some
    &&& left.value_failures matches Some(failures) ==> left.values is Some && (failures.zero()
        ==> !reading_fails(left.values->0) && !reading_fails(right.values->0))
}

/// What two ranks report of one stage.
pub open spec fn one_stage(left: Option<StageReport>, right: Option<StageReport>) -> bool {
    match (left, right) {
        (Some(left), Some(right)) => left.failures == right.failures && (left.failures.zero()
            ==> left.succeeded && right.succeeded),
        _ => false,
    }
}

/// Two ranks of a world accept their adapters together, or neither does: no rank reduces
/// gradients that another rank refuses to. Both have adapters, or neither has any; the exchange
/// of manifests makes sure of that.
pub proof fn law_ranks_accept_together(
    left_vars: Seq<VarShape>,
    right_vars: Seq<VarShape>,
    recipes: (Seq<char>, Seq<char>),
    world: nat,
    valid: (bool, bool),
    left: AdapterObservations,
    right: AdapterObservations,
    steps: (AdapterStep, AdapterStep),
)
    requires
        one_exchange(left, right),
        left_vars.len() == 0 <==> right_vars.len() == 0,
        sharded_step(left_vars, recipes.0, world, valid.0, left, steps.0),
        sharded_step(right_vars, recipes.1, world, valid.1, right, steps.1),
    ensures
        steps.0 == AdapterStep::Accepted <==> steps.1 == AdapterStep::Accepted,
{
}

/// The sum of a byte of the digests of a world.
pub open spec fn byte_sum(digests: Seq<Seq<u8>>, i: int) -> nat
    decreases digests.len(),
{
    if digests.len() == 0 {
        0
    } else {
        byte_sum(digests.drop_last(), i) + digests.last()[i] as nat
    }
}

proof fn lemma_byte_sum(digests: Seq<Seq<u8>>, i: int, byte: u8)
    requires
        forall|rank: int| 0 <= rank < digests.len() ==> #[trigger] digests[rank][i] == byte,
    ensures
        byte_sum(digests, i) == digests.len() * byte,
    decreases digests.len(),
{
    if digests.len() > 0 {
        assert forall|rank: int| 0 <= rank < digests.len() - 1 implies #[trigger]
            digests.drop_last()[rank][i] == byte by {
            assert(digests[rank][i] == byte);
        }
        lemma_byte_sum(digests.drop_last(), i, byte);
        assert(digests[digests.len() - 1][i] == byte);
        assert(digests.len() * byte == (digests.len() - 1) * byte + byte) by (nonlinear_arith);
    } else {
        assert(0 * (byte as int) == 0);
    }
}

proof fn lemma_byte_sum_bound(digests: Seq<Seq<u8>>, i: int)
    ensures
        byte_sum(digests, i) <= digests.len() * 255,
    decreases digests.len(),
{
    if digests.len() > 0 {
        lemma_byte_sum_bound(digests.drop_last(), i);
    }
}

/// No rank of a world finds a difference exactly when all manifest digests are the same: if two
/// ranks' digests differ, some rank finds it, and the ranks do not go on to reduce values. Sums
/// of bytes are exact for worlds of this size.
pub proof fn law_manifest_exchange(digests: Seq<Seq<u8>>, sums: Seq<Real64>)
    requires
        1 <= digests.len() < 0x2000_0000_0000,
        sums.len() == 32,
        forall|rank: int| 0 <= rank < digests.len() ==> (#[trigger] digests[rank]).len() == 32,
        forall|i: int|
            0 <= i < 32 ==> (#[trigger] sums[i]).equals_whole(byte_sum(digests, i)),
    ensures
        (forall|rank: int|
            0 <= rank < digests.len() ==> !manifest_differs(
                #[trigger] digests[rank],
                sums,
                digests.len(),
            )) <==> (forall|left: int, right: int|
            0 <= left < digests.len() && 0 <= right < digests.len() ==> #[trigger] digests[left]
                == #[trigger] digests[right]),
{
    let world = digests.len();
    crate::binary64::lemma_small_whole(world);
    assert forall|rank: int, i: int|
        0 <= rank < world && 0 <= i < 32 implies (byte_differs(
        (#[trigger] digests[rank])[i],
        #[trigger] sums[i],
        world,
    ) <==> byte_sum(digests, i) != world * digests[rank][i]) by {
        let byte = digests[rank][i];
        assert(world * byte < crate::binary64::SIGNIFICAND_END) by (nonlinear_arith)
            requires
                world < 0x2000_0000_0000,
                byte <= 255,
        ;
        lemma_byte_sum_bound(digests, i);
        crate::binary64::lemma_small_whole(byte_sum(digests, i));
        crate::binary64::lemma_small_whole((world * byte) as nat);
        crate::binary64::lemma_equals_one_whole(
            sums[i],
            byte_sum(digests, i),
            (world * byte) as nat,
        );
    }
    if forall|left: int, right: int|
        0 <= left < world && 0 <= right < world ==> #[trigger] digests[left]
            == #[trigger] digests[right] {
        assert forall|rank: int| 0 <= rank < world implies !manifest_differs(
            #[trigger] digests[rank],
            sums,
            world,
        ) by {
            assert forall|i: int| 0 <= i < 32 implies !byte_differs(
                #[trigger] digests[rank][i],
                sums[i],
                world,
            ) by {
                assert forall|other: int| 0 <= other < world implies #[trigger] digests[other][i]
                    == digests[rank][i] by {
                    assert(digests[other] == digests[rank]);
                }
                lemma_byte_sum(digests, i, digests[rank][i]);
            }
        }
    }
    if forall|rank: int|
        0 <= rank < world ==> !manifest_differs(#[trigger] digests[rank], sums, world) {
        assert forall|left: int, right: int|
            0 <= left < world && 0 <= right < world implies #[trigger] digests[left]
            == #[trigger] digests[right] by {
            assert forall|i: int| 0 <= i < 32 implies digests[left][i] == digests[right][i] by {
                let (a, b) = (digests[left][i], digests[right][i]);
                assert(!manifest_differs(digests[left], sums, world));
                assert(!manifest_differs(digests[right], sums, world));
                assert(!byte_differs(digests[left][i], sums[i], world));
                assert(!byte_differs(digests[right][i], sums[i], world));
                assert(a == b) by (nonlinear_arith)
                    requires
                        world * a == world * b,
                        world >= 1,
                ;
            }
            assert(digests[left] =~= digests[right]);
        }
    }
}

impl AdapterFault {
    /// What the fault says, given what a stage, the communicator or the residual says.
    pub open spec fn text(self, shown: Seq<char>) -> Seq<char> {
        match self {
            AdapterFault::LocalStage(_) => shown,
            AdapterFault::PeerStage(stage) => crate::tensor_parallel::peer_failure_text(stage.label()),
            AdapterFault::LocalPayload => "Gemma4GradModel::backward_tensor_parallel: local adapter payload is invalid: "@ + shown + "; adapter values were not reduced"@,
            AdapterFault::PeerPayload => "Gemma4GradModel::backward_tensor_parallel: adapter payload validation failed on a peer tensor-parallel rank; adapter values were not reduced"@,
            AdapterFault::Manifest => "Gemma4GradModel::backward_tensor_parallel: adapter recipe, tensor count, shapes, or dtypes differ across tensor-parallel ranks; adapter values were not reduced"@,
            AdapterFault::Values { index } => "Gemma4GradModel::backward_tensor_parallel: replicated adapter tensor "@ + crate::text::decimal_text(index as nat) + " differs across tensor-parallel ranks ("@ + shown + ")"@,
        }
    }

    /// What the fault says. `shown` is what a stage or the communicator says of its failure, or the
    /// residual and the tolerance of a value; other faults ignore it.
    pub fn message(&self, shown: &str) -> (text: String)
        ensures
            text@ == self.text(shown@),
    {
        match self {
            AdapterFault::LocalStage(_) => String::from_str(shown),
            AdapterFault::PeerStage(stage) => crate::tensor_parallel::peer_failure(stage.name()),
            AdapterFault::LocalPayload => {
                let mut text = String::from_str("Gemma4GradModel::backward_tensor_parallel: local adapter payload is invalid: ");
                text.append(shown);
                text.append("; adapter values were not reduced");
                text
            },
            AdapterFault::PeerPayload => String::from_str("Gemma4GradModel::backward_tensor_parallel: adapter payload validation failed on a peer tensor-parallel rank; adapter values were not reduced"),
            AdapterFault::Manifest => String::from_str("Gemma4GradModel::backward_tensor_parallel: adapter recipe, tensor count, shapes, or dtypes differ across tensor-parallel ranks; adapter values were not reduced"),
            AdapterFault::Values { index } => {
                let mut text = String::from_str("Gemma4GradModel::backward_tensor_parallel: replicated adapter tensor ");
                text.append(&decimal(*index as u64));
                text.append(" differs across tensor-parallel ranks (");
                text.append(shown);
                text.append(")");
                text
            },
        }
    }
}

/// What each fault says, word for word, around its numbers.
pub proof fn law_words_of_adapter_fault(fault: AdapterFault, shown: Seq<char>)
    ensures
        fault matches AdapterFault::LocalStage(_) ==> fault.text(shown) == (shown),
        fault matches AdapterFault::PeerStage(stage) ==> fault.text(shown) == (crate::tensor_parallel::peer_failure_text(stage.label())),
        fault == AdapterFault::LocalPayload ==> fault.text(shown) == ("Gemma4GradModel::backward_tensor_parallel: local adapter payload is invalid: "@ + shown + "; adapter values were not reduced"@),
        fault == AdapterFault::PeerPayload ==> fault.text(shown) == ("Gemma4GradModel::backward_tensor_parallel: adapter payload validation failed on a peer tensor-parallel rank; adapter values were not reduced"@),
        fault == AdapterFault::Manifest ==> fault.text(shown) == ("Gemma4GradModel::backward_tensor_parallel: adapter recipe, tensor count, shapes, or dtypes differ across tensor-parallel ranks; adapter values were not reduced"@),
        fault matches AdapterFault::Values { index } ==> fault.text(shown) == ("Gemma4GradModel::backward_tensor_parallel: replicated adapter tensor "@ + crate::text::decimal_text(index as nat) + " differs across tensor-parallel ranks ("@ + shown + ")"@),
{
}

/// The label of each stage.
pub proof fn law_words_of_adapter_stage(stage: AdapterStage)
    ensures
        stage == AdapterStage::PayloadStaging ==> stage.label() == ("Gemma4 tensor-parallel adapter payload staging"@),
        stage == AdapterStage::ManifestStaging ==> stage.label() == ("Gemma4 tensor-parallel adapter manifest staging"@),
        stage == AdapterStage::ManifestReadback ==> stage.label() == ("Gemma4 tensor-parallel adapter manifest readback"@),
        stage == AdapterStage::ValueReadback ==> stage.label() == ("Gemma4 tensor-parallel adapter value readback"@),
{
}

} // verus!
