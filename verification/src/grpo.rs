//! The discrete half of GRPO: which reduction, which reward scaling and which importance ratio
//! an objective uses, and which batches a masked reduction accepts. The arithmetic itself is
//! floating point and lives outside the library.
use crate::binary64::Real64;
use vstd::prelude::*;

verus! {

/// Which reduction turns the per-token objective into a loss.
#[derive(Debug, Clone, Copy, PartialEq, Eq, Structural)]
pub enum LossType {
    /// Average over the valid tokens of each sequence, then over the sequences.
    Grpo,
    /// Divide the masked total by the number of sequences times the row width.
    DrGrpo,
    /// Divide the masked total by the number of active tokens. The default.
    Dapo,
}

/// How group-centered rewards become advantages.
#[derive(Debug, Clone, Copy, PartialEq, Eq, Structural)]
pub enum ScaleRewards {
    /// Divide by the standard deviation of the group. The default.
    Group,
    /// Do not divide.
    Unscaled,
}

/// At which level the importance ratio is formed.
#[derive(Debug, Clone, Copy, PartialEq, Eq, Structural)]
pub enum ImportanceSamplingLevel {
    /// One ratio per token. The default.
    Token,
    /// One ratio per sequence, shared by its tokens.
    Sequence,
}

impl Default for LossType {
    fn default() -> (loss_type: Self)
        ensures
            loss_type == LossType::Dapo,
    {
        LossType::Dapo
    }
}

impl Default for ScaleRewards {
    fn default() -> (scale: Self)
        ensures
            scale == ScaleRewards::Group,
    {
        ScaleRewards::Group
    }
}

impl Default for ImportanceSamplingLevel {
    fn default() -> (level: Self)
        ensures
            level == ImportanceSamplingLevel::Token,
    {
        ImportanceSamplingLevel::Token
    }
}

/// Why a masked reduction refuses a batch.
#[derive(Debug, Clone, Copy, PartialEq, Eq, Structural)]
pub enum MaskedBatchFault {
    /// The batch has no row.
    EmptyBatch,
    /// There are not as many mask rows as value rows.
    RowCount,
    /// The rows have no column.
    ZeroWidth,
    /// A value row has another width than the first.
    RaggedValues,
    /// A mask row has another width than the values.
    RaggedMask,
    /// A mask weight is negative or not finite.
    MaskWeight,
}

/// Whether a mask weight is finite and not below zero; minus zero is zero.
pub open spec fn weight_is_valid(weight: Real64) -> bool {
    weight.finite() && (weight.negative() ==> weight.zero())
}

/// Whether every weight of a mask row is valid.
pub open spec fn row_is_valid(weights: Seq<Real64>) -> bool {
    forall|column: int| 0 <= column < weights.len() ==> weight_is_valid(#[trigger] weights[column])
}

/// What is wrong with a row of a batch of the given width.
pub open spec fn row_fault(width: nat, values: nat, weights: Seq<Real64>) -> Option<MaskedBatchFault> {
    if values != width {
        Some(MaskedBatchFault::RaggedValues)
    } else if weights.len() != width {
        Some(MaskedBatchFault::RaggedMask)
    } else if !row_is_valid(weights) {
        Some(MaskedBatchFault::MaskWeight)
    } else {
        None
    }
}

/// What is wrong with the first of the rows from the given one on that something is wrong with.
pub open spec fn fault_from_row(
    width: nat,
    values: Seq<nat>,
    mask: Seq<Seq<Real64>>,
    row: int,
) -> Option<MaskedBatchFault>
    decreases values.len() - row,
{
    if row < 0 || row >= values.len() {
        None
    } else if row_fault(width, values[row], mask[row]) is Some {
        row_fault(width, values[row], mask[row])
    } else {
        fault_from_row(width, values, mask, row + 1)
    }
}

/// What is wrong with a batch of rows of the given widths, under a mask.
pub open spec fn batch_fault(values: Seq<nat>, mask: Seq<Seq<Real64>>) -> Option<MaskedBatchFault> {
    if values.len() == 0 {
        Some(MaskedBatchFault::EmptyBatch)
    } else if values.len() != mask.len() {
        Some(MaskedBatchFault::RowCount)
    } else if values[0] == 0 {
        Some(MaskedBatchFault::ZeroWidth)
    } else {
        fault_from_row(values[0], values, mask, 0)
    }
}

/// The weights of a mask.
pub open spec fn mask_rows(mask: Seq<Vec<Real64>>) -> Seq<Seq<Real64>> {
    mask.map_values(|row: Vec<Real64>| row@)
}

/// The widths of rows.
pub open spec fn widths(rows: Seq<usize>) -> Seq<nat> {
    rows.map_values(|width: usize| width as nat)
}

/// Whether every weight of a mask row is valid.
pub fn is_nonneg_mask(weights: &Vec<Real64>) -> (valid: bool)
    ensures
        valid == row_is_valid(weights@),
{
    let mut column: usize = 0;
    while column < weights.len()
        invariant
            column <= weights@.len(),
            forall|i: int| 0 <= i < column ==> weight_is_valid(#[trigger] weights@[i]),
        decreases weights@.len() - column,
    {
        let weight = weights[column];
        if !weight.is_finite() || (weight.bits >= crate::binary64::SIGN_BIT && !weight.is_zero()) {
            assert(!weight_is_valid(weights@[column as int]));
            return false;
        }
        column = column + 1;
    }
    true
}

/// Accepts a rectangular batch under a mask of valid weights, and gives its number of rows and
/// their width. `values` holds the width of each row.
pub fn validate_masked_inputs(values: &Vec<usize>, mask: &Vec<Vec<Real64>>) -> (shape: Result<
    (usize, usize),
    MaskedBatchFault,
>)
    ensures
        match shape {
            Ok((rows, width)) => {
                &&& batch_fault(widths(values@), mask_rows(mask@)) is None
                &&& rows == values@.len()
                &&& width == values@[0]
            },
            Err(fault) => batch_fault(widths(values@), mask_rows(mask@)) == Some(fault),
        },
        shape is Ok ==> 0 < values@.len() && values@.len() == mask@.len() && values@[0] > 0,
        shape is Ok ==> forall|row: int|
            0 <= row < values@.len() ==> #[trigger] values@[row] == values@[0] && mask@[row]@.len()
                == values@[0] && row_is_valid(mask@[row]@),
        shape is Err ==> values@.len() == 0 || values@.len() != mask@.len() || values@[0] == 0
            || exists|row: int|
            0 <= row < values@.len() && (#[trigger] values@[row] != values@[0] || mask@[row]@.len()
                != values@[0] || !row_is_valid(mask@[row]@)),
{
    proof {
        law_batches_are_accepted(widths(values@), mask_rows(mask@));
        assert forall|row: int| 0 <= row < values@.len() implies #[trigger] widths(values@)[row]
            == values@[row] by {}
        assert forall|row: int| 0 <= row < mask@.len() implies #[trigger] mask_rows(mask@)[row]
            == mask@[row]@ by {}
    }
    if values.len() == 0 {
        return Err(MaskedBatchFault::EmptyBatch);
    }
    if values.len() != mask.len() {
        return Err(MaskedBatchFault::RowCount);
    }
    let width: usize = values[0];
    if width == 0 {
        return Err(MaskedBatchFault::ZeroWidth);
    }
    let ghost lengths = widths(values@);
    let ghost weights = mask_rows(mask@);
    let mut row: usize = 0;
    while row < values.len()
        invariant
            row <= values@.len() == mask@.len(),
            values@.len() > 0,
            width == values@[0],
            width > 0,
            lengths == widths(values@),
            weights == mask_rows(mask@),
            batch_fault(lengths, weights) == fault_from_row(
                width as nat,
                lengths,
                weights,
                row as int,
            ),
        decreases values@.len() - row,
    {
        assert(weights[row as int] == mask@[row as int]@);
        assert(lengths[row as int] == values@[row as int]);
        if values[row] != width {
            return Err(MaskedBatchFault::RaggedValues);
        }
        if mask[row].len() != width {
            return Err(MaskedBatchFault::RaggedMask);
        }
        if !is_nonneg_mask(&mask[row]) {
            return Err(MaskedBatchFault::MaskWeight);
        }
        row = row + 1;
    }
    proof {
        assert forall|i: int| 0 <= i < values@.len() implies #[trigger] values@[i] == values@[0]
            && mask@[i]@.len() == values@[0] && row_is_valid(mask@[i]@) by {
            law_accepted_batch_is_rectangular(lengths, weights, i);
            assert(lengths[i] == values@[i] && lengths[0] == values@[0]);
            assert(weights[i] == mask@[i]@);
        }
    }
    Ok((values.len(), width))
}

/// An accepted batch is rectangular and has valid weights throughout, so that neither the
/// number of cells nor a row's weight sum is out of step with its rows.
pub proof fn law_accepted_batch_is_rectangular(values: Seq<nat>, mask: Seq<Seq<Real64>>, row: int)
    requires
        batch_fault(values, mask) is None,
        0 <= row < values.len(),
    ensures
        values.len() == mask.len(),
        values[0] > 0,
        values[row] == values[0],
        mask[row].len() == values[0],
        row_is_valid(mask[row]),
{
    lemma_rows_clean(values[0], values, mask, 0, row);
}

proof fn lemma_rows_clean(width: nat, values: Seq<nat>, mask: Seq<Seq<Real64>>, from: int, row: int)
    requires
        0 <= from <= row < values.len(),
        fault_from_row(width, values, mask, from) is None,
    ensures
        row_fault(width, values[row], mask[row]) is None,
    decreases row - from,
{
    if from < row {
        lemma_rows_clean(width, values, mask, from + 1, row);
    }
}

/// A batch is accepted exactly when it is rectangular, not empty, and its mask has its shape and
/// valid weights.
pub proof fn law_batches_are_accepted(values: Seq<nat>, mask: Seq<Seq<Real64>>)
    ensures
        batch_fault(values, mask) is None <==> {
            &&& 0 < values.len() == mask.len()
            &&& values[0] > 0
            &&& forall|row: int|
                0 <= row < values.len() ==> #[trigger] values[row] == values[0] && mask[row].len()
                    == values[0] && row_is_valid(mask[row])
        },
{
    if batch_fault(values, mask) is None {
        assert forall|row: int| 0 <= row < values.len() implies #[trigger] values[row] == values[0]
            && mask[row].len() == values[0] && row_is_valid(mask[row]) by {
            law_accepted_batch_is_rectangular(values, mask, row);
        }
    } else if 0 < values.len() == mask.len() && values[0] > 0 {
        let row = lemma_first_fault(values[0], values, mask, 0);
        assert(values[row] != values[0] || mask[row].len() != values[0] || !row_is_valid(
            mask[row],
        ));
    }
}

/// A refusal names what is wrong with the first row that something is wrong with: its values
/// before its mask, and the mask's width before its weights. The batch's own shape is named before
/// any row's.
pub proof fn law_refusals_name_the_first_fault(values: Seq<nat>, mask: Seq<Seq<Real64>>, row: int)
    requires
        0 <= row < values.len() == mask.len(),
        values[0] > 0,
        forall|before: int|
            0 <= before < row ==> #[trigger] values[before] == values[0] && mask[before].len()
                == values[0] && row_is_valid(mask[before]),
    ensures
        values[row] != values[0] ==> batch_fault(values, mask) == Some(
            MaskedBatchFault::RaggedValues,
        ),
        values[row] == values[0] && mask[row].len() != values[0] ==> batch_fault(values, mask)
            == Some(MaskedBatchFault::RaggedMask),
        values[row] == values[0] && mask[row].len() == values[0] && !row_is_valid(mask[row])
            ==> batch_fault(values, mask) == Some(MaskedBatchFault::MaskWeight),
{
    let width = values[0];
    assert forall|before: int| 0 <= before < row implies #[trigger] values[before] == width
        && mask[before].len() == width && row_is_valid(mask[before]) by {
        assert(values[before] == values[0]);
        assert(mask[before].len() == width);
        assert(row_is_valid(mask[before]));
    }
    lemma_clean_rows_are_passed(width, values, mask, row);
}

/// What is wrong with a batch's own shape comes first.
pub proof fn law_batch_shape_comes_first(values: Seq<nat>, mask: Seq<Seq<Real64>>)
    ensures
        batch_fault(values, mask) == Some(MaskedBatchFault::EmptyBatch) <==> values.len() == 0,
        batch_fault(values, mask) == Some(MaskedBatchFault::RowCount) <==> values.len() > 0
            && values.len() != mask.len(),
        batch_fault(values, mask) == Some(MaskedBatchFault::ZeroWidth) <==> 0 < values.len()
            == mask.len() && values[0] == 0,
{
    if 0 < values.len() == mask.len() && values[0] > 0 && batch_fault(values, mask) is Some {
        let row = lemma_first_fault(values[0], values, mask, 0);
    }
}

/// A weight is valid exactly when it is a finite number that is not below zero.
pub proof fn law_valid_weights(weights: Seq<Real64>)
    ensures
        row_is_valid(weights) <==> forall|column: int|
            0 <= column < weights.len() ==> (#[trigger] weights[column]).finite()
                && weights[column].signed_units() >= 0,
{
    assert forall|column: int| 0 <= column < weights.len() implies (weight_is_valid(
        #[trigger] weights[column],
    ) <==> weights[column].finite() && weights[column].signed_units() >= 0) by {}
    if row_is_valid(weights) {
        assert forall|column: int| 0 <= column < weights.len() implies (
        #[trigger] weights[column]).finite() && weights[column].signed_units() >= 0 by {
            assert(weight_is_valid(weights[column]));
        }
    }
}

proof fn lemma_clean_rows_are_passed(
    width: nat,
    values: Seq<nat>,
    mask: Seq<Seq<Real64>>,
    row: int,
)
    requires
        0 <= row < values.len() == mask.len(),
        forall|before: int|
            0 <= before < row ==> #[trigger] values[before] == width && mask[before].len() == width
                && row_is_valid(mask[before]),
    ensures
        fault_from_row(width, values, mask, 0) == fault_from_row(width, values, mask, row),
    decreases row,
{
    if row > 0 {
        lemma_clean_rows_are_passed(width, values, mask, row - 1);
        assert(values[row - 1] == width);
    }
}

proof fn lemma_first_fault(
    width: nat,
    values: Seq<nat>,
    mask: Seq<Seq<Real64>>,
    from: int,
) -> (row: int)
    requires
        0 <= from <= values.len() == mask.len(),
        fault_from_row(width, values, mask, from) is Some,
    ensures
        from <= row < values.len(),
        row_fault(width, values[row], mask[row]) is Some,
        fault_from_row(width, values, mask, from) == row_fault(width, values[row], mask[row]),
    decreases values.len() - from,
{
    if row_fault(width, values[from], mask[from]) is Some {
        from
    } else {
        lemma_first_fault(width, values, mask, from + 1)
    }
}

/// The cells of a mask row, up to a column, that count: those of a weight above zero. What stands
/// in the others never enters a sum.
pub open spec fn counted_cells(weights: Seq<Real64>, end: nat) -> Seq<usize>
    decreases end,
{
    if end == 0 {
        Seq::empty()
    } else {
        let before = counted_cells(weights, (end - 1) as nat);
        if weights[end - 1].exceeds_zero() {
            before.push((end - 1) as usize)
        } else {
            before
        }
    }
}

/// Lists the cells of a mask row that count, in order.
pub fn active_cells(weights: &Vec<Real64>) -> (cells: Vec<usize>)
    ensures
        cells@ == counted_cells(weights@, weights@.len()),
{
    let mut cells: Vec<usize> = Vec::new();
    let mut column: usize = 0;
    while column < weights.len()
        invariant
            column <= weights@.len(),
            cells@ == counted_cells(weights@, column as nat),
        decreases weights@.len() - column,
    {
        if weights[column].is_above_zero() {
            cells.push(column);
        }
        column = column + 1;
    }
    cells
}

/// A cell counts exactly when its weight is above zero, and no cell counts twice.
pub proof fn law_counted_cells(weights: Seq<Real64>, end: nat, column: usize)
    requires
        end <= weights.len() <= usize::MAX,
    ensures
        counted_cells(weights, end).contains(column) <==> column < end
            && weights[column as int].exceeds_zero(),
        counted_cells(weights, end).no_duplicates(),
    decreases end,
{
    if end > 0 {
        let before = counted_cells(weights, (end - 1) as nat);
        let cells = counted_cells(weights, end);
        law_counted_cells(weights, (end - 1) as nat, column);
        law_counted_cells(weights, (end - 1) as nat, (end - 1) as usize);
        if weights[end - 1].exceeds_zero() {
            assert(cells.drop_last() =~= before);
            assert(cells.last() == end - 1);
            if before.contains(column) {
                let i = choose|i: int| 0 <= i < before.len() && before[i] == column;
                assert(cells[i] == column);
            }
            if cells.contains(column) && column != end - 1 {
                let i = choose|i: int| 0 <= i < cells.len() && cells[i] == column;
                assert(before[i] == column);
            }
            assert forall|i: int, j: int| 0 <= i < j < cells.len() implies cells[i] != cells[j] by {
                if j == before.len() {
                    assert(before.contains(before[i]));
                    law_counted_cells(weights, (end - 1) as nat, before[i]);
                } else {
                    assert(before[i] != before[j]);
                }
            }
        }
    }
}

/// The cells that count are listed in their order.
pub proof fn law_counted_cells_are_in_order(weights: Seq<Real64>, end: nat)
    requires
        end <= weights.len() <= usize::MAX,
    ensures
        forall|i: int, j: int|
            0 <= i < j < counted_cells(weights, end).len() ==> counted_cells(weights, end)[i]
                < counted_cells(weights, end)[j],
    decreases end,
{
    if end > 0 {
        let shorter = (end - 1) as nat;
        let before = counted_cells(weights, shorter);
        law_counted_cells_are_in_order(weights, shorter);
        assert forall|i: int| 0 <= i < before.len() implies #[trigger] before[i] < shorter by {
            assert(before.contains(before[i]));
            law_counted_cells(weights, shorter, before[i]);
        }
    }
}

/// How many of the first row sums are zero or less; a NaN is not.
pub open spec fn padding_rows(sums: Seq<Real64>, end: nat) -> nat
    decreases end,
{
    if end == 0 {
        0
    } else {
        padding_rows(sums, (end - 1) as nat) + if sums[end - 1].nan() || sums[end - 1].exceeds_zero() {
            0nat
        } else {
            1nat
        }
    }
}

/// The rows without a valid token are those whose sum is a number, or an infinity, that is not
/// above zero.
pub proof fn law_padding_rows(sums: Seq<Real64>, end: nat)
    requires
        end <= sums.len(),
    ensures
        padding_rows(sums, end) == sums.take(end as int).filter(
            |sum: Real64|
                (sum.finite() && sum.signed_units() <= 0) || (!sum.finite() && !sum.nan()
                    && sum.negative()),
        ).len(),
    decreases end,
{
    reveal(Seq::filter);
    if end > 0 {
        law_padding_rows(sums, (end - 1) as nat);
        assert(sums.take(end as int).drop_last() =~= sums.take(end - 1));
        crate::binary64::law_number_classes(sums[end - 1]);
    }
}

/// Counts the rows of a mask without a valid token, given the sum of each row's weights.
pub fn zero_mask_rows(sums: &Vec<Real64>) -> (rows: usize)
    ensures
        rows == padding_rows(sums@, sums@.len()),
{
    let mut rows: usize = 0;
    let mut row: usize = 0;
    while row < sums.len()
        invariant
            rows <= row <= sums@.len(),
            rows == padding_rows(sums@, row as nat),
        decreases sums@.len() - row,
    {
        if !sums[row].is_nan() && !sums[row].is_above_zero() {
            rows = rows + 1;
        }
        row = row + 1;
    }
    rows
}

/// A reward group without a reward.
#[derive(Debug, Clone, Copy, PartialEq, Eq, Structural)]
pub struct EmptyRewardGroup;

impl EmptyRewardGroup {
    /// What the fault says.
    pub fn message(&self) -> (text: &'static str)
        ensures
            text@ == "group_advantages: empty reward group"@,
    {
        "group_advantages: empty reward group"
    }
}

/// The finite ones among the first rewards, in order.
pub open spec fn finite_rewards(rewards: Seq<Real64>, end: nat) -> Seq<Real64>
    decreases end,
{
    if end == 0 {
        Seq::empty()
    } else {
        let before = finite_rewards(rewards, (end - 1) as nat);
        if rewards[end - 1].finite() {
            before.push(rewards[end - 1])
        } else {
            before
        }
    }
}

/// The selection is the finite rewards in their order, whatever their sign or size; where every
/// reward is finite it is the rewards.
pub proof fn law_selected_rewards(rewards: Seq<Real64>)
    ensures
        finite_rewards(rewards, rewards.len()) == rewards.filter(|reward: Real64| reward.finite()),
        (forall|member: int| 0 <= member < rewards.len() ==> (#[trigger] rewards[member]).finite())
            ==> finite_rewards(rewards, rewards.len()) == rewards,
{
    lemma_selected_rewards(rewards, rewards.len());
    assert(rewards.take(rewards.len() as int) =~= rewards);
}

proof fn lemma_selected_rewards(rewards: Seq<Real64>, end: nat)
    requires
        end <= rewards.len(),
    ensures
        finite_rewards(rewards, end) == rewards.take(end as int).filter(
            |reward: Real64| reward.finite(),
        ),
        (forall|member: int| 0 <= member < end ==> (#[trigger] rewards[member]).finite())
            ==> finite_rewards(rewards, end) == rewards.take(end as int),
    decreases end,
{
    reveal(Seq::filter);
    if end > 0 {
        let shorter = rewards.take(end - 1);
        lemma_selected_rewards(rewards, (end - 1) as nat);
        assert(rewards.take(end as int).drop_last() =~= shorter);
        assert(shorter.push(rewards[end - 1]) =~= rewards.take(end as int));
    } else {
        assert(rewards.take(0) =~= Seq::empty());
    }
}

/// Each reward is selected by itself: the selection of two groups joined is the two selections
/// joined.
pub proof fn law_rewards_are_selected_one_by_one(left: Seq<Real64>, right: Seq<Real64>)
    ensures
        finite_rewards(left + right, left.len() + right.len()) == finite_rewards(left, left.len())
            + finite_rewards(right, right.len()),
{
    law_selected_rewards(left);
    law_selected_rewards(right);
    law_selected_rewards(left + right);
    Seq::filter_distributes_over_add(left, right, |reward: Real64| reward.finite());
}

/// Selects the rewards that the mean and the deviation of a group are taken over.
pub fn select_rewards(rewards: &Vec<Real64>) -> (finite: Result<Vec<Real64>, EmptyRewardGroup>)
    ensures
        match finite {
            Ok(finite) => rewards@.len() > 0 && finite@ == finite_rewards(rewards@, rewards@.len()),
            Err(_) => rewards@.len() == 0,
        },
        finite matches Ok(finite) ==> finite@ == rewards@.filter(|reward: Real64| reward.finite()),
{
    proof {
        law_selected_rewards(rewards@);
    }
    if rewards.len() == 0 {
        return Err(EmptyRewardGroup);
    }
    let mut finite: Vec<Real64> = Vec::new();
    let mut member: usize = 0;
    while member < rewards.len()
        invariant
            member <= rewards@.len(),
            finite@ == finite_rewards(rewards@, member as nat),
        decreases rewards@.len() - member,
    {
        if rewards[member].is_finite() {
            finite.push(rewards[member]);
        }
        member = member + 1;
    }
    Ok(finite)
}

/// What an advantage counts as: one that is not finite counts as zero.
pub open spec fn settled(advantage: Real64) -> Real64 {
    if advantage.finite() {
        advantage
    } else {
        Real64 { bits: 0 }
    }
}

/// Replaces each advantage that is not finite by zero.
pub fn settle_advantages(advantages: &Vec<Real64>) -> (counted: Vec<Real64>)
    ensures
        counted@ == advantages@.map_values(|advantage: Real64| settled(advantage)),
        counted@.len() == advantages@.len(),
        forall|member: int|
            0 <= member < advantages@.len() ==> #[trigger] counted@[member]
                == if advantages@[member].finite() {
                advantages@[member]
            } else {
                Real64 { bits: 0 }
            },
{
    let mut counted: Vec<Real64> = Vec::new();
    let mut member: usize = 0;
    while member < advantages.len()
        invariant
            member <= advantages@.len(),
            counted@ == advantages@.take(member as int).map_values(
                |advantage: Real64| settled(advantage),
            ),
        decreases advantages@.len() - member,
    {
        let advantage = advantages[member];
        counted.push(
            if advantage.is_finite() {
                advantage
            } else {
                Real64 { bits: 0 }
            },
        );
        proof {
            let next = advantages@.take(member + 1);
            assert(next.drop_last() =~= advantages@.take(member as int));
            assert(counted@ =~= next.map_values(|advantage: Real64| settled(advantage)));
        }
        member = member + 1;
    }
    assert(advantages@.take(member as int) =~= advantages@);
    counted
}

/// A reward that is not finite does not touch the statistics of its group: they are taken over
/// the same rewards as without it.
pub proof fn law_bad_rewards_are_isolated(before: Seq<Real64>, bad: Real64, after: Seq<Real64>)
    requires
        !bad.finite(),
    ensures
        finite_rewards(before.push(bad) + after, before.len() + 1 + after.len()) == finite_rewards(
            before + after,
            before.len() + after.len(),
        ),
{
    lemma_prefix_of_rewards(before.push(bad) + after, before + after, before.len());
    assert((before.push(bad) + after)[before.len() as int] == bad);
    lemma_rewards_after(before, bad, after, after.len());
}

proof fn lemma_prefix_of_rewards(left: Seq<Real64>, right: Seq<Real64>, end: nat)
    requires
        end <= left.len(),
        end <= right.len(),
        forall|member: int| 0 <= member < end ==> left[member] == right[member],
    ensures
        finite_rewards(left, end) == finite_rewards(right, end),
    decreases end,
{
    if end > 0 {
        lemma_prefix_of_rewards(left, right, (end - 1) as nat);
    }
}

proof fn lemma_rewards_after(before: Seq<Real64>, bad: Real64, after: Seq<Real64>, end: nat)
    requires
        !bad.finite(),
        end <= after.len(),
    ensures
        finite_rewards(before.push(bad) + after, before.len() + 1 + end) == finite_rewards(
            before + after,
            before.len() + end,
        ),
    decreases end,
{
    let with = before.push(bad) + after;
    let without = before + after;
    if end == 0 {
        lemma_prefix_of_rewards(with, without, before.len());
        assert(with[before.len() as int] == bad);
    } else {
        lemma_rewards_after(before, bad, after, (end - 1) as nat);
        assert(with[(before.len() + end) as int] == after[end - 1]);
        assert(without[before.len() + end - 1] == after[end - 1]);
    }
}

/// Why a sequence's log-ratio cannot be taken.
#[derive(Debug, Clone, Copy, PartialEq, Eq, Structural)]
pub enum SequenceFault {
    /// The two rows of log-probabilities differ in length.
    Length,
    /// The mask has another length.
    MaskLength,
    /// A mask weight is negative or not finite.
    MaskWeight,
}

/// Accepts the rows of a sequence's log-ratio: as many old log-probabilities and mask weights as
/// log-probabilities, and valid weights.
pub fn check_sequence_rows(logp: usize, logp_old: usize, mask: &Vec<Real64>) -> (verdict: Result<
    (),
    SequenceFault,
>)
    ensures
        verdict == if logp != logp_old {
            Err(SequenceFault::Length)
        } else if logp != mask@.len() {
            Err(SequenceFault::MaskLength)
        } else if !row_is_valid(mask@) {
            Err(SequenceFault::MaskWeight)
        } else {
            Ok(())
        },
{
    if logp != logp_old {
        return Err(SequenceFault::Length);
    }
    if logp != mask.len() {
        return Err(SequenceFault::MaskLength);
    }
    if !is_nonneg_mask(mask) {
        return Err(SequenceFault::MaskWeight);
    }
    Ok(())
}

impl SequenceFault {
    /// What the fault says.
    pub open spec fn text(self) -> Seq<char> {
        match self {
            SequenceFault::Length => "sequence_log_ratio: length mismatch"@,
            SequenceFault::MaskLength => "sequence_log_ratio: mask length mismatch"@,
            SequenceFault::MaskWeight => "masked_mean: mask entries must be finite and non-negative"@,
        }
    }

    /// What the fault says.
    pub fn message(&self) -> (text: &'static str)
        ensures
            text@ == self.text(),
    {
        match self {
            SequenceFault::Length => "sequence_log_ratio: length mismatch",
            SequenceFault::MaskLength => "sequence_log_ratio: mask length mismatch",
            SequenceFault::MaskWeight => "masked_mean: mask entries must be finite and non-negative",
        }
    }
}

impl MaskedBatchFault {
    /// What the fault says.
    pub open spec fn text(self) -> Seq<char> {
        match self {
            MaskedBatchFault::EmptyBatch => "masked_mean: empty batch"@,
            MaskedBatchFault::RowCount => "masked_mean: row count mismatch"@,
            MaskedBatchFault::ZeroWidth => "masked_mean: zero-width rows (max_len == 0)"@,
            MaskedBatchFault::RaggedValues => "masked_mean: ragged values row"@,
            MaskedBatchFault::RaggedMask => "masked_mean: ragged mask row"@,
            MaskedBatchFault::MaskWeight => "masked_mean: mask entries must be finite and non-negative"@,
        }
    }

    /// What the fault says.
    pub fn message(&self) -> (text: String)
        ensures
            text@ == self.text(),
    {
        match self {
            MaskedBatchFault::EmptyBatch => String::from_str("masked_mean: empty batch"),
            MaskedBatchFault::RowCount => String::from_str("masked_mean: row count mismatch"),
            MaskedBatchFault::ZeroWidth => String::from_str("masked_mean: zero-width rows (max_len == 0)"),
            MaskedBatchFault::RaggedValues => String::from_str("masked_mean: ragged values row"),
            MaskedBatchFault::RaggedMask => String::from_str("masked_mean: ragged mask row"),
            MaskedBatchFault::MaskWeight => String::from_str("masked_mean: mask entries must be finite and non-negative"),
        }
    }
}

/// What each fault says, word for word.
pub proof fn law_words_of_sequence_fault(fault: SequenceFault)
    ensures
        fault == SequenceFault::Length ==> fault.text() == ("sequence_log_ratio: length mismatch"@),
        fault == SequenceFault::MaskLength ==> fault.text() == ("sequence_log_ratio: mask length mismatch"@),
        fault == SequenceFault::MaskWeight ==> fault.text() == ("masked_mean: mask entries must be finite and non-negative"@),
{
}

/// What each fault says, word for word.
pub proof fn law_words_of_masked_batch_fault(fault: MaskedBatchFault)
    ensures
        fault == MaskedBatchFault::EmptyBatch ==> fault.text() == ("masked_mean: empty batch"@),
        fault == MaskedBatchFault::RowCount ==> fault.text() == ("masked_mean: row count mismatch"@),
        fault == MaskedBatchFault::ZeroWidth ==> fault.text() == ("masked_mean: zero-width rows (max_len == 0)"@),
        fault == MaskedBatchFault::RaggedValues ==> fault.text() == ("masked_mean: ragged values row"@),
        fault == MaskedBatchFault::RaggedMask ==> fault.text() == ("masked_mean: ragged mask row"@),
        fault == MaskedBatchFault::MaskWeight ==> fault.text() == ("masked_mean: mask entries must be finite and non-negative"@),
{
}

/// A finite advantage counts as it is, any other as zero.
pub proof fn law_settled_advantages(advantage: Real64)
    ensures
        advantage.finite() ==> settled(advantage) == advantage,
        !advantage.finite() ==> settled(advantage).bits == 0,
        settled(advantage).finite(),
{
}

} // verus!
