//! Rollouts of a language-model policy: which sampling parameters a call resolves to, how a
//! group of rows is decoded in lockstep until every row has ended, and which windows of a rollout
//! are scored.
use crate::binary64::{differs, Real64};
use crate::text::decimal;
use vstd::arithmetic::power2::pow2;
use vstd::prelude::*;

verus! {

/// Sampling parameters of an evaluation, which deliberately samples another distribution than
/// training does.
#[derive(Debug, Clone, Copy, PartialEq, Eq, Structural)]
pub struct EvalSampling {
    pub temperature: Real64,
    pub top_p: Option<Real64>,
}

/// How a group of completions is generated.
#[derive(Debug, Clone, Copy, PartialEq, Eq, Structural)]
pub struct GenConfig {
    /// The number of rows.
    pub group_size: usize,
    /// The most tokens of a completion.
    pub max_new_tokens: usize,
    /// The temperature that the caller believes the policy has.
    pub temperature: Real64,
    /// The id that ends a row.
    pub eos_token_id: Option<u32>,
    /// The parameters of an evaluation.
    pub eval_sampling: Option<EvalSampling>,
}

/// A group of completions of one prompt.
#[derive(Debug)]
pub struct Rollout {
    /// The tokens of each row: the prompt, the completion, and padding up to the common width.
    pub token_ids: Vec<Vec<u32>>,
    /// The number of prompt tokens.
    pub prompt_len: usize,
    /// The number of completion tokens of each row, counting the one that ended it.
    pub completion_lens: Vec<usize>,
    /// The log-probability of each completion token when it was drawn, as a single-precision bit
    /// pattern.
    pub rollout_logprobs: Option<Vec<Vec<u32>>>,
}

/// A token that a row drew, with its log-probability as a single-precision bit pattern.
#[derive(Debug, Clone, Copy, PartialEq, Eq, Structural)]
pub struct Draw {
    pub token: u32,
    pub logprob: u32,
}

/// Why sampling parameters are refused.
#[derive(Debug, Clone, Copy, PartialEq, Eq, Structural)]
pub enum SamplingFault {
    /// The temperature of an evaluation is not a positive number.
    EvalTemperature(Real64),
    /// The nucleus of an evaluation is outside `(0, 1]`.
    EvalTopP(Real64),
    /// The caller believes in another temperature than the policy has.
    Temperature { policy: Real64, requested: Real64 },
    /// A sampler state was saved at another temperature than the policy has.
    SamplerState { saved: Real64, policy: Real64 },
}

/// The control state of a policy.
#[derive(Debug, Clone, Copy, PartialEq, Eq, Structural)]
pub struct LmPolicy {
    pub temperature: Real64,
    pub enabled: bool,
}

/// The sampling parameters that a call resolves to.
pub open spec fn resolved_sampling(policy: LmPolicy, config: GenConfig) -> Result<
    (Real64, Option<Real64>),
    SamplingFault,
> {
    match config.eval_sampling {
        Some(eval) => if !eval.temperature.positive_finite() {
            Err(SamplingFault::EvalTemperature(eval.temperature))
        } else if eval.top_p is Some && !eval.top_p->0.in_unit_interval() {
            Err(SamplingFault::EvalTopP(eval.top_p->0))
        } else {
            Ok((eval.temperature, eval.top_p))
        },
        None => if crate::binary64::differ(config.temperature, policy.temperature) {
            Err(
                SamplingFault::Temperature {
                    policy: policy.temperature,
                    requested: config.temperature,
                },
            )
        } else {
            Ok((policy.temperature, None))
        },
    }
}

impl LmPolicy {
    /// A policy at a temperature, adapters on.
    pub fn new(temperature: Real64) -> (policy: Self)
        ensures
            policy == (LmPolicy { temperature, enabled: true }),
    {
        LmPolicy { temperature, enabled: true }
    }

    /// Resolves the sampling parameters of a call. A training call must agree with the policy's
    /// temperature, which no call does where either is no number; an evaluation brings its own
    /// parameters.
    pub fn resolve_sampling(&self, config: &GenConfig) -> (sampling: Result<
        (Real64, Option<Real64>),
        SamplingFault,
    >)
        ensures
            sampling == resolved_sampling(*self, *config),
            config.eval_sampling is Some && sampling is Ok ==> sampling->Ok_0 == (
                config.eval_sampling->0.temperature,
                config.eval_sampling->0.top_p,
            ),
            config.eval_sampling is None && sampling is Ok ==> sampling->Ok_0 == (
                self.temperature,
                None::<Real64>,
            ),
    {
        match config.eval_sampling {
            Some(eval) => {
                if !eval.temperature.is_positive_finite() {
                    return Err(SamplingFault::EvalTemperature(eval.temperature));
                }
                if let Some(top_p) = eval.top_p {
                    if !top_p.is_in_unit_interval() {
                        return Err(SamplingFault::EvalTopP(top_p));
                    }
                }
                Ok((eval.temperature, eval.top_p))
            },
            None => {
                if differs(config.temperature, self.temperature) {
                    return Err(
                        SamplingFault::Temperature {
                            policy: self.temperature,
                            requested: config.temperature,
                        },
                    );
                }
                Ok((self.temperature, None))
            },
        }
    }

    /// Accepts a sampler state that was saved at the policy's temperature. A temperature that is no
    /// number is no state's.
    pub fn restore_sampler_state(&self, saved: Real64) -> (verdict: Result<(), SamplingFault>)
        ensures
            match verdict {
                Ok(()) => !crate::binary64::differ(saved, self.temperature),
                Err(fault) => crate::binary64::differ(saved, self.temperature) && fault == (
                SamplingFault::SamplerState { saved, policy: self.temperature }),
            },
    {
        if differs(saved, self.temperature) {
            Err(SamplingFault::SamplerState { saved, policy: self.temperature })
        } else {
            Ok(())
        }
    }

    /// Enables or disables the adapters and says what the model is told. A model without
    /// adapters cannot be toggled: its flag stays on.
    pub fn set_adapter_enabled(&mut self, enabled: bool, has_adapters: bool) -> (told: bool)
        ensures
            told == (enabled || !has_adapters),
            *final(self) == (LmPolicy { enabled: told, ..*old(self) }),
    {
        self.enabled = enabled || !has_adapters;
        self.enabled
    }

    /// Whether the adapters are enabled.
    pub fn adapter_enabled(&self) -> (enabled: bool)
        ensures
            enabled == self.enabled,
    {
        self.enabled
    }
}

/// The number of draws after which a row ends: up to and with the first draw of the ending id,
/// or the most that are allowed.
pub open spec fn ended_after(draws: Seq<Draw>, eos: Option<u32>, most: nat) -> nat
    decreases most,
{
    if most == 0 {
        0
    } else {
        let before = ended_after(draws, eos, (most - 1) as nat);
        if before < most - 1 || (before > 0 && eos == Some(draws[before - 1].token)) {
            before
        } else {
            most
        }
    }
}

/// The id that fills a row up after it has ended.
pub open spec fn pad_id(eos: Option<u32>) -> u32 {
    match eos {
        Some(id) => id,
        None => 0,
    }
}

/// The tokens of the first draws.
pub open spec fn drawn_tokens(draws: Seq<Draw>, count: nat) -> Seq<u32> {
    Seq::new(count, |i: int| draws[i].token)
}

/// The log-probabilities of the first draws.
pub open spec fn drawn_logprobs(draws: Seq<Draw>, count: nat) -> Seq<u32> {
    Seq::new(count, |i: int| draws[i].logprob)
}

/// Padding of a length.
pub open spec fn padding(eos: Option<u32>, length: nat) -> Seq<u32> {
    Seq::new(length, |i: int| pad_id(eos))
}

/// The tokens of a finished row: the prompt, what was drawn until the row ended, and padding.
pub open spec fn row_tokens(prompt: Seq<u32>, draws: Seq<Draw>, eos: Option<u32>, most: nat) -> Seq<
    u32,
> {
    let length = ended_after(draws, eos, most);
    prompt + drawn_tokens(draws, length) + padding(eos, (most - length) as nat)
}

proof fn lemma_ended_bound(draws: Seq<Draw>, eos: Option<u32>, most: nat)
    ensures
        ended_after(draws, eos, most) <= most,
    decreases most,
{
    if most > 0 {
        lemma_ended_bound(draws, eos, (most - 1) as nat);
    }
}

/// A row's length is where its first ending draw is: every earlier draw is another id, and a row
/// that is shorter than allowed ends with the ending id.
pub proof fn law_completion_length(draws: Seq<Draw>, eos: Option<u32>, most: nat)
    ensures
        ended_after(draws, eos, most) <= most,
        most > 0 ==> ended_after(draws, eos, most) > 0,
        forall|i: int|
            0 <= i < ended_after(draws, eos, most) - 1 ==> Some((#[trigger] draws[i]).token) != eos,
        ended_after(draws, eos, most) < most ==> eos == Some(
            draws[ended_after(draws, eos, most) - 1].token,
        ),
        eos is None ==> ended_after(draws, eos, most) == most,
    decreases most,
{
    if most > 0 {
        law_completion_length(draws, eos, (most - 1) as nat);
        let before = ended_after(draws, eos, (most - 1) as nat);
        if ended_after(draws, eos, most) == most && before == most - 1 {
            assert forall|i: int| 0 <= i < most - 1 implies Some((#[trigger] draws[i]).token)
                != eos by {
                if i == before - 1 {
                }
            }
        }
    }
}

/// The draws of a row that has not ended before a count of draws do not hold the ending id.
proof fn lemma_not_ended(draws: Seq<Draw>, eos: Option<u32>, count: nat)
    requires
        forall|i: int| 0 <= i < count ==> Some((#[trigger] draws[i]).token) != eos,
    ensures
        ended_after(draws, eos, count) == count,
    decreases count,
{
    if count > 0 {
        lemma_not_ended(draws, eos, (count - 1) as nat);
    }
}

/// A row that ends with its first ending draw has that length, however many draws were allowed.
proof fn lemma_ended_at(draws: Seq<Draw>, eos: Option<u32>, length: nat, most: nat)
    requires
        0 < length <= most,
        forall|i: int| 0 <= i < length - 1 ==> Some((#[trigger] draws[i]).token) != eos,
        eos == Some(draws[length - 1].token),
    ensures
        ended_after(draws, eos, most) == length,
    decreases most,
{
    lemma_not_ended(draws, eos, (length - 1) as nat);
    if length < most {
        lemma_ended_at(draws, eos, length, (most - 1) as nat);
    }
}

/// The state of a group that is decoded in lockstep.
#[derive(Debug)]
pub struct GroupDecode {
    /// The ids of the prompt.
    pub prompt: Vec<u32>,
    /// The most tokens of a completion.
    pub max_new_tokens: usize,
    /// The id that ends a row.
    pub eos_token_id: Option<u32>,
    /// What each row has drawn.
    pub draws: Vec<Vec<Draw>>,
    /// Whether each row still draws.
    pub active: Vec<bool>,
    /// The number of steps taken.
    pub step: usize,
}

/// What follows a step of the group.
#[derive(Debug)]
pub enum DecodeAction {
    /// Feed one token per row at a position, and draw again from what comes of it.
    Feed { tokens: Vec<u32>, offset: usize },
    /// Every row has ended, or the width is reached.
    Finished,
}

/// Whether a row is where it should be after a number of steps: an active row has drawn at each
/// step and not ended; a row that is not active ended with its last draw.
pub open spec fn row_in_step(draws: Seq<Draw>, active: bool, eos: Option<u32>, step: nat) -> bool {
    if active {
        &&& draws.len() == step
        &&& forall|i: int| 0 <= i < draws.len() ==> Some((#[trigger] draws[i]).token) != eos
    } else {
        &&& 0 < draws.len() <= step
        &&& forall|i: int| 0 <= i < draws.len() - 1 ==> Some((#[trigger] draws[i]).token) != eos
        &&& eos == Some(draws[draws.len() - 1].token)
    }
}

impl GroupDecode {
    /// The invariant of a group.
    pub open spec fn wf(self) -> bool {
        &&& self.prompt@.len() > 0
        &&& self.prompt@.len() + self.max_new_tokens <= usize::MAX
        &&& self.step <= self.max_new_tokens
        &&& self.draws@.len() == self.active@.len()
        &&& forall|row: int|
            0 <= row < self.draws@.len() ==> row_in_step(
                (#[trigger] self.draws@[row])@,
                self.active@[row],
                self.eos_token_id,
                self.step as nat,
            )
    }

    /// Whether no row draws any more.
    pub open spec fn all_ended(self) -> bool {
        forall|row: int| 0 <= row < self.active@.len() ==> !#[trigger] self.active@[row]
    }

    /// Whether the group is finished.
    pub open spec fn finished(self) -> bool {
        self.step == self.max_new_tokens || (self.step > 0 && self.all_ended())
    }

    /// Whether two states are of the same group.
    pub open spec fn same_group(self, other: Self) -> bool {
        &&& self.prompt == other.prompt
        &&& self.max_new_tokens == other.max_new_tokens
        &&& self.eos_token_id == other.eos_token_id
        &&& self.draws@.len() == other.draws@.len()
    }

    /// A group before its first step.
    pub fn start(prompt: &Vec<u32>, config: &GenConfig) -> (group: Self)
        requires
            prompt@.len() > 0,
            prompt@.len() + config.max_new_tokens <= usize::MAX,
        ensures
            group.wf(),
            group.prompt@ == prompt@,
            group.max_new_tokens == config.max_new_tokens,
            group.eos_token_id == config.eos_token_id,
            group.draws@.len() == config.group_size,
            group.step == 0,
            forall|row: int|
                0 <= row < group.draws@.len() ==> (#[trigger] group.draws@[row])@.len() == 0
                    && group.active@[row],
    {
        let mut draws: Vec<Vec<Draw>> = Vec::new();
        let mut active: Vec<bool> = Vec::new();
        let mut row: usize = 0;
        while row < config.group_size
            invariant
                row <= config.group_size,
                draws@.len() == row,
                active@.len() == row,
                forall|i: int|
                    0 <= i < row ==> (#[trigger] draws@[i])@.len() == 0 && active@[i],
            decreases config.group_size - row,
        {
            draws.push(Vec::new());
            active.push(true);
            row = row + 1;
        }
        GroupDecode {
            prompt: copy_ids(prompt),
            max_new_tokens: config.max_new_tokens,
            eos_token_id: config.eos_token_id,
            draws,
            active,
            step: 0,
        }
    }
}

/// Copies a list of ids.
fn copy_ids(ids: &Vec<u32>) -> (copy: Vec<u32>)
    ensures
        copy@ == ids@,
{
    let mut copy: Vec<u32> = Vec::new();
    let mut done: usize = 0;
    while done < ids.len()
        invariant
            done <= ids@.len(),
            copy@ == ids@.take(done as int),
        decreases ids@.len() - done,
    {
        copy.push(ids[done]);
        done = done + 1;
        assert(copy@ =~= ids@.take(done as int));
    }
    assert(ids@.take(done as int) =~= ids@);
    copy
}

/// What a row has drawn after a step.
pub open spec fn after_draw(draws: Seq<Draw>, active: bool, drawn: Option<Draw>) -> Seq<Draw> {
    if active {
        draws.push(drawn->0)
    } else {
        draws
    }
}

/// Whether a row still draws after a step.
pub open spec fn still_active(active: bool, drawn: Option<Draw>, eos: Option<u32>) -> bool {
    active && eos != Some(drawn->0.token)
}

/// What a row is fed after a step: what it drew, or padding once it has ended.
pub open spec fn fed_token(active: bool, drawn: Option<Draw>, eos: Option<u32>) -> u32 {
    if active {
        drawn->0.token
    } else {
        pad_id(eos)
    }
}

/// Whether a row has moved on by a step.
pub open spec fn row_moved(before: GroupDecode, after: GroupDecode, row: int, drawn: Option<Draw>) -> bool {
    &&& after.draws@[row]@ == after_draw(before.draws@[row]@, before.active@[row], drawn)
    &&& after.active@[row] == still_active(before.active@[row], drawn, before.eos_token_id)
}

impl GroupDecode {
    /// Takes a step: each active row has drawn one token, a row that has ended none. A row that
    /// drew the ending id ends with it. Says what follows.
    pub fn advance(&mut self, drawn: &Vec<Option<Draw>>) -> (action: DecodeAction)
        requires
            old(self).wf(),
            !old(self).finished(),
            drawn@.len() == old(self).draws@.len(),
            forall|row: int|
                0 <= row < drawn@.len() ==> ((#[trigger] drawn@[row]) is Some
                    <==> old(self).active@[row]),
        ensures
            final(self).wf(),
            final(self).same_group(*old(self)),
            final(self).step == old(self).step + 1,
            forall|row: int|
                0 <= row < drawn@.len() ==> #[trigger] row_moved(
                    *old(self),
                    *final(self),
                    row,
                    drawn@[row],
                ),
            match action {
                DecodeAction::Finished => final(self).finished(),
                DecodeAction::Feed { tokens, offset } => {
                    &&& !final(self).finished()
                    &&& offset == old(self).prompt@.len() + old(self).step
                    &&& tokens@.len() == drawn@.len()
                    &&& forall|row: int|
                        0 <= row < drawn@.len() ==> #[trigger] tokens@[row] == fed_token(
                            old(self).active@[row],
                            drawn@[row],
                            old(self).eos_token_id,
                        )
                },
            },
    {
        let ghost before = *self;
        let pad: u32 = match self.eos_token_id {
            Some(id) => id,
            None => 0,
        };
        let mut tokens: Vec<u32> = Vec::new();
        let mut all_ended: bool = true;
        let mut row: usize = 0;
        while row < drawn.len()
            invariant
                before == *old(self),
                before.wf(),
                row <= drawn@.len() == before.draws@.len(),
                self.same_group(before),
                self.step == before.step,
                self.active@.len() == before.active@.len(),
                pad == pad_id(before.eos_token_id),
                tokens@.len() == row,
                forall|i: int|
                    0 <= i < drawn@.len() ==> ((#[trigger] drawn@[i]) is Some
                        <==> before.active@[i]),
                forall|i: int|
                    0 <= i < row ==> #[trigger] row_moved(before, *self, i, drawn@[i]),
                forall|i: int|
                    row <= i < drawn@.len() ==> (#[trigger] self.draws@[i]) == before.draws@[i]
                        && self.active@[i] == before.active@[i],
                forall|i: int|
                    0 <= i < row ==> #[trigger] tokens@[i] == fed_token(
                        before.active@[i],
                        drawn@[i],
                        before.eos_token_id,
                    ),
                all_ended <==> (forall|i: int| 0 <= i < row ==> !#[trigger] self.active@[i]),
            decreases drawn@.len() - row,
        {
            let ghost now = *self;
            assert(now.draws@[row as int] == before.draws@[row as int]);
            match drawn[row] {
                Some(draw) => {
                    self.draws[row].push(draw);
                    assert(self.draws@[row as int]@ == now.draws@[row as int]@.push(draw));
                    if self.eos_token_id == Some(draw.token) {
                        self.active.set(row, false);
                    } else {
                        all_ended = false;
                    }
                    tokens.push(draw.token);
                },
                None => {
                    tokens.push(pad);
                },
            }
            proof {
                assert forall|i: int| 0 <= i < drawn@.len() && i != row implies (
                #[trigger] self.draws@[i]) == now.draws@[i] && self.active@[i] == now.active@[i] by {}
                assert forall|i: int| 0 <= i < row + 1 implies #[trigger] row_moved(
                    before,
                    *self,
                    i,
                    drawn@[i],
                ) by {
                    assert((drawn@[i] is Some) == before.active@[i]);
                    if i < row {
                        assert(row_moved(before, now, i, drawn@[i]));
                        assert(self.draws@[i] == now.draws@[i]);
                    }
                }
                assert forall|i: int| row + 1 <= i < drawn@.len() implies (
                #[trigger] self.draws@[i]) == before.draws@[i] && self.active@[i]
                    == before.active@[i] by {
                    assert(self.draws@[i] == now.draws@[i]);
                    assert(now.draws@[i] == before.draws@[i]);
                }
                if all_ended {
                    assert forall|i: int| 0 <= i < row + 1 implies !#[trigger] self.active@[i] by {
                        if i < row {
                            assert(!now.active@[i]);
                        }
                    }
                } else if self.active@[row as int] {
                } else {
                    let i = choose|i: int| 0 <= i < row && now.active@[i];
                    assert(self.active@[i]);
                }
            }
            row = row + 1;
        }
        let ghost moved = *self;
        self.step = self.step + 1;
        proof {
            assert forall|r: int| 0 <= r < drawn@.len() implies #[trigger] row_moved(
                before,
                *self,
                r,
                drawn@[r],
            ) by {
                assert(row_moved(before, moved, r, drawn@[r]));
            }
            assert forall|r: int| 0 <= r < self.draws@.len() implies row_in_step(
                (#[trigger] self.draws@[r])@,
                self.active@[r],
                self.eos_token_id,
                self.step as nat,
            ) by {
                assert(row_in_step(
                    before.draws@[r]@,
                    before.active@[r],
                    before.eos_token_id,
                    before.step as nat,
                ));
                assert(row_moved(before, *self, r, drawn@[r]));
                if before.active@[r] {
                    let (shorter, longer) = (before.draws@[r]@, self.draws@[r]@);
                    assert(longer == shorter.push(drawn@[r]->0));
                    assert forall|i: int| 0 <= i < longer.len() - 1 implies Some(
                        (#[trigger] longer[i]).token,
                    ) != self.eos_token_id by {
                        assert(longer[i] == shorter[i]);
                    }
                }
            }
        }
        proof {
            if all_ended {
                assert forall|r: int| 0 <= r < self.active@.len() implies !#[trigger] self.active@[r] by {
                    assert(!moved.active@[r]);
                }
            } else {
                let r = choose|r: int| 0 <= r < drawn@.len() && moved.active@[r];
                assert(self.active@[r]);
            }
        }
        if all_ended || self.step == self.max_new_tokens {
            DecodeAction::Finished
        } else {
            DecodeAction::Feed { tokens, offset: self.prompt.len() + (self.step - 1) }
        }
    }

    /// The rollout of a finished group: each row is what its draws decode to on their own.
    pub open spec fn yields(self, rollout: Rollout) -> bool {
        &&& rollout.prompt_len == self.prompt@.len()
        &&& rollout.token_ids@.len() == self.draws@.len()
        &&& rollout.completion_lens@.len() == self.draws@.len()
        &&& rollout.rollout_logprobs matches Some(logprobs) && logprobs@.len() == self.draws@.len()
        &&& forall|row: int|
            0 <= row < self.draws@.len() ==> row_yields(
                self.prompt@,
                (#[trigger] self.draws@[row])@,
                self.eos_token_id,
                self.max_new_tokens as nat,
                rollout.token_ids@[row]@,
                rollout.completion_lens@[row] as nat,
                rollout.rollout_logprobs->0@[row]@,
            )
    }

    /// Ends a finished group: pads every row to the common width.
    pub fn finish(self) -> (rollout: Rollout)
        requires
            self.wf(),
            self.finished(),
        ensures
            self.yields(rollout),
            forall|row: int, i: int|
                0 <= row < self.draws@.len() && 0 <= i < self.draws@[row]@.len()
                    ==> rollout.token_ids@[row]@[rollout.prompt_len + i] == (
                #[trigger] self.draws@[row]@[i]).token,
    {
        let mut token_ids: Vec<Vec<u32>> = Vec::new();
        let mut completion_lens: Vec<usize> = Vec::new();
        let mut logprobs: Vec<Vec<u32>> = Vec::new();
        let mut row: usize = 0;
        while row < self.draws.len()
            invariant
                self.wf(),
                self.finished(),
                row <= self.draws@.len(),
                token_ids@.len() == row,
                completion_lens@.len() == row,
                logprobs@.len() == row,
                forall|i: int|
                    0 <= i < row ==> row_yields(
                        self.prompt@,
                        (#[trigger] self.draws@[i])@,
                        self.eos_token_id,
                        self.max_new_tokens as nat,
                        token_ids@[i]@,
                        completion_lens@[i] as nat,
                        logprobs@[i]@,
                    ),
            decreases self.draws@.len() - row,
        {
            let draws = &self.draws[row];
            proof {
                assert(row_in_step(
                    self.draws@[row as int]@,
                    self.active@[row as int],
                    self.eos_token_id,
                    self.step as nat,
                ));
                if self.active@[row as int] {
                    lemma_not_ended(draws@, self.eos_token_id, self.max_new_tokens as nat);
                } else {
                    lemma_ended_at(
                        draws@,
                        self.eos_token_id,
                        draws@.len(),
                        self.max_new_tokens as nat,
                    );
                }
            }
            let (ids, values) = finish_row(
                &self.prompt,
                draws,
                self.eos_token_id,
                self.max_new_tokens,
            );
            token_ids.push(ids);
            completion_lens.push(draws.len());
            logprobs.push(values);
            row = row + 1;
        }
        let rollout = Rollout {
            token_ids,
            prompt_len: self.prompt.len(),
            completion_lens,
            rollout_logprobs: Some(logprobs),
        };
        proof {
            assert forall|row: int, i: int|
                0 <= row < self.draws@.len() && 0 <= i < self.draws@[row]@.len() implies rollout.token_ids@[row]@[rollout.prompt_len
                + i] == (#[trigger] self.draws@[row]@[i]).token by {
                law_group_holds_its_draws(self, rollout, row);
            }
        }
        rollout
    }
}

/// What a row's draws decode to: its tokens at the common width, its length, and one
/// log-probability per completion token.
pub open spec fn row_yields(
    prompt: Seq<u32>,
    draws: Seq<Draw>,
    eos: Option<u32>,
    most: nat,
    tokens: Seq<u32>,
    length: nat,
    logprobs: Seq<u32>,
) -> bool {
    &&& length == ended_after(draws, eos, most)
    &&& tokens == row_tokens(prompt, draws, eos, most)
    &&& logprobs == drawn_logprobs(draws, length)
}

/// Pads a row whose draws are all that it took.
fn finish_row(prompt: &Vec<u32>, draws: &Vec<Draw>, eos: Option<u32>, most: usize) -> (row: (
    Vec<u32>,
    Vec<u32>,
))
    requires
        prompt@.len() + most <= usize::MAX,
        draws@.len() <= most,
        ended_after(draws@, eos, most as nat) == draws@.len(),
    ensures
        row.0@ == row_tokens(prompt@, draws@, eos, most as nat),
        row.1@ == drawn_logprobs(draws@, draws@.len()),
{
    let mut ids: Vec<u32> = copy_ids(prompt);
    let mut values: Vec<u32> = Vec::new();
    let mut done: usize = 0;
    while done < draws.len()
        invariant
            done <= draws@.len(),
            ids@ == prompt@ + drawn_tokens(draws@, done as nat),
            values@ == drawn_logprobs(draws@, done as nat),
        decreases draws@.len() - done,
    {
        ids.push(draws[done].token);
        values.push(draws[done].logprob);
        done = done + 1;
        assert(ids@ =~= prompt@ + drawn_tokens(draws@, done as nat));
        assert(values@ =~= drawn_logprobs(draws@, done as nat));
    }
    let pad: u32 = match eos {
        Some(id) => id,
        None => 0,
    };
    let ghost drawn = ids@;
    let mut filled: usize = draws.len();
    assert(ids@ =~= drawn + padding(eos, 0));
    while filled < most
        invariant
            draws@.len() <= filled <= most,
            pad == pad_id(eos),
            ids@ == drawn + padding(eos, (filled - draws@.len()) as nat),
        decreases most - filled,
    {
        ids.push(pad);
        filled = filled + 1;
        assert(ids@ =~= drawn + padding(eos, (filled - draws@.len()) as nat));
    }
    (ids, values)
}

/// Every row of a finished group has the same width, ends where its length says, and is padding
/// from there on.
pub proof fn law_rollout_is_rectangular(
    group: GroupDecode,
    rollout: Rollout,
    row: int,
    position: int,
)
    requires
        group.wf(),
        group.yields(rollout),
        0 <= row < group.draws@.len(),
        0 <= position < group.prompt@.len() + group.max_new_tokens,
    ensures
        rollout.token_ids@[row]@.len() == group.prompt@.len() + group.max_new_tokens,
        rollout.completion_lens@[row] <= group.max_new_tokens,
        rollout.rollout_logprobs->0@[row]@.len() == rollout.completion_lens@[row],
        position < group.prompt@.len() ==> rollout.token_ids@[row]@[position]
            == group.prompt@[position],
        position >= group.prompt@.len() + rollout.completion_lens@[row]
            ==> rollout.token_ids@[row]@[position] == pad_id(group.eos_token_id),
{
    let draws = group.draws@[row]@;
    lemma_ended_bound(draws, group.eos_token_id, group.max_new_tokens as nat);
    assert(row_yields(
        group.prompt@,
        group.draws@[row]@,
        group.eos_token_id,
        group.max_new_tokens as nat,
        rollout.token_ids@[row]@,
        rollout.completion_lens@[row] as nat,
        rollout.rollout_logprobs->0@[row]@,
    ));
}

/// What a finished row holds, place by place: the prompt; then every drawn token in the order
/// drawn, each with the log-probability of its own draw, up to and with the first draw of the
/// ending id; then the ending id up to the width. A row that never draws the ending id draws to
/// the end.
pub proof fn law_row_holds_its_draws(
    prompt: Seq<u32>,
    draws: Seq<Draw>,
    eos: Option<u32>,
    most: nat,
    tokens: Seq<u32>,
    length: nat,
    logprobs: Seq<u32>,
)
    requires
        row_yields(prompt, draws, eos, most, tokens, length, logprobs),
    ensures
        tokens.len() == prompt.len() + most,
        forall|i: int| 0 <= i < prompt.len() ==> #[trigger] tokens[i] == prompt[i],
        length <= most,
        forall|i: int| 0 <= i < length ==> tokens[prompt.len() + i] == (#[trigger] draws[i]).token,
        logprobs.len() == length,
        forall|i: int| 0 <= i < length ==> #[trigger] logprobs[i] == draws[i].logprob,
        forall|i: int| 0 <= i < length - 1 ==> Some((#[trigger] draws[i]).token) != eos,
        length < most ==> length > 0 && eos == Some(draws[length - 1].token),
        forall|i: int|
            prompt.len() + length <= i < tokens.len() ==> eos == Some(#[trigger] tokens[i]),
{
    law_completion_length(draws, eos, most);
}

/// What a rollout of streams holds, row by row and place by place.
pub proof fn law_rollout_holds_its_draws(
    prompt: Seq<u32>,
    streams: Seq<Vec<Draw>>,
    eos: Option<u32>,
    most: nat,
    rollout: Rollout,
    row: int,
)
    requires
        streams_yield(prompt, streams, eos, most, rollout),
        0 <= row < streams.len(),
    ensures
        rollout.prompt_len == prompt.len(),
        rollout.token_ids@.len() == streams.len(),
        rollout.completion_lens@.len() == streams.len(),
        rollout.rollout_logprobs is Some,
        rollout.rollout_logprobs->0@.len() == streams.len(),
        ({
            let tokens = rollout.token_ids@[row]@;
            let length = rollout.completion_lens@[row];
            let logprobs = rollout.rollout_logprobs->0@[row]@;
            let draws = streams[row]@;
            &&& tokens.len() == prompt.len() + most
            &&& forall|i: int| 0 <= i < prompt.len() ==> #[trigger] tokens[i] == prompt[i]
            &&& length <= most
            &&& forall|i: int|
                0 <= i < length ==> tokens[prompt.len() + i] == (#[trigger] draws[i]).token
            &&& logprobs.len() == length
            &&& forall|i: int| 0 <= i < length ==> #[trigger] logprobs[i] == draws[i].logprob
            &&& forall|i: int| 0 <= i < length - 1 ==> Some((#[trigger] draws[i]).token) != eos
            &&& length < most ==> length > 0 && eos == Some(draws[length - 1].token)
            &&& forall|i: int|
                prompt.len() + length <= i < tokens.len() ==> eos == Some(#[trigger] tokens[i])
        }),
{
    assert(row_yields(
        prompt,
        streams[row]@,
        eos,
        most,
        rollout.token_ids@[row]@,
        rollout.completion_lens@[row] as nat,
        rollout.rollout_logprobs->0@[row]@,
    ));
    law_row_holds_its_draws(
        prompt,
        streams[row]@,
        eos,
        most,
        rollout.token_ids@[row]@,
        rollout.completion_lens@[row] as nat,
        rollout.rollout_logprobs->0@[row]@,
    );
}

/// What the rollout of a finished group holds, row by row and place by place.
pub proof fn law_group_holds_its_draws(group: GroupDecode, rollout: Rollout, row: int)
    requires
        group.wf(),
        group.finished(),
        group.yields(rollout),
        0 <= row < group.draws@.len(),
    ensures
        rollout.prompt_len == group.prompt@.len(),
        rollout.rollout_logprobs is Some,
        ({
            let tokens = rollout.token_ids@[row]@;
            let draws = group.draws@[row]@;
            let logprobs = rollout.rollout_logprobs->0@[row]@;
            &&& rollout.completion_lens@[row] == draws.len()
            &&& tokens.len() == group.prompt@.len() + group.max_new_tokens
            &&& forall|i: int|
                0 <= i < group.prompt@.len() ==> #[trigger] tokens[i] == group.prompt@[i]
            &&& forall|i: int|
                0 <= i < draws.len() ==> tokens[group.prompt@.len() + i] == (
                #[trigger] draws[i]).token
            &&& logprobs.len() == draws.len()
            &&& forall|i: int| 0 <= i < draws.len() ==> #[trigger] logprobs[i] == draws[i].logprob
            &&& forall|i: int|
                group.prompt@.len() + draws.len() <= i < tokens.len() ==> group.eos_token_id
                    == Some(#[trigger] tokens[i])
        }),
{
    let draws = group.draws@[row]@;
    let most = group.max_new_tokens as nat;
    assert(row_in_step(draws, group.active@[row], group.eos_token_id, group.step as nat));
    if group.active@[row] {
        lemma_not_ended(draws, group.eos_token_id, most);
    } else {
        lemma_ended_at(draws, group.eos_token_id, draws.len(), most);
    }
    assert(row_yields(
        group.prompt@,
        group.draws@[row]@,
        group.eos_token_id,
        most,
        rollout.token_ids@[row]@,
        rollout.completion_lens@[row] as nat,
        rollout.rollout_logprobs->0@[row]@,
    ));
    law_row_holds_its_draws(
        group.prompt@,
        draws,
        group.eos_token_id,
        most,
        rollout.token_ids@[row]@,
        rollout.completion_lens@[row] as nat,
        rollout.rollout_logprobs->0@[row]@,
    );
}

/// What a step does to a row: an active row keeps what it drew and gains what it draws now, and
/// goes on unless that is the ending id; a row that has ended stays as it is. What is fed is what
/// an active row drew, and the ending id for the others.
pub proof fn law_step_keeps_what_was_drawn(
    before: GroupDecode,
    after: GroupDecode,
    row: int,
    drawn: Option<Draw>,
)
    requires
        before.wf(),
        0 <= row < before.draws@.len(),
        row_moved(before, after, row, drawn),
    ensures
        before.active@[row] && drawn is Some ==> {
            &&& after.draws@[row]@ == before.draws@[row]@.push(drawn->0)
            &&& after.active@[row] <==> before.eos_token_id != Some(drawn->0.token)
            &&& fed_token(true, drawn, before.eos_token_id) == drawn->0.token
        },
        !before.active@[row] ==> {
            &&& after.draws@[row]@ == before.draws@[row]@
            &&& !after.active@[row]
            &&& before.eos_token_id == Some(fed_token(false, drawn, before.eos_token_id))
        },
{
    assert(row_in_step(
        before.draws@[row]@,
        before.active@[row],
        before.eos_token_id,
        before.step as nat,
    ));
}

/// A group is finished exactly when it has taken all its steps, or has taken one and no row draws
/// any more.
pub proof fn law_group_finishes(group: GroupDecode)
    ensures
        group.finished() <==> group.step == group.max_new_tokens || (group.step >= 1 && forall|
            row: int,
        |
            0 <= row < group.active@.len() ==> !#[trigger] group.active@[row]),
{
}

/// Only the draws up to where a row ends matter: a row decodes to the same tokens whatever it
/// would have drawn afterwards.
pub proof fn law_later_draws_do_not_matter(
    prompt: Seq<u32>,
    left: Seq<Draw>,
    right: Seq<Draw>,
    eos: Option<u32>,
    most: nat,
)
    requires
        forall|i: int| 0 <= i < ended_after(left, eos, most) ==> #[trigger] left[i] == right[i],
    ensures
        ended_after(left, eos, most) == ended_after(right, eos, most),
        row_tokens(prompt, left, eos, most) == row_tokens(prompt, right, eos, most),
        drawn_logprobs(left, ended_after(left, eos, most)) == drawn_logprobs(
            right,
            ended_after(right, eos, most),
        ),
{
    let length = ended_after(left, eos, most);
    law_completion_length(left, eos, most);
    if length < most {
        assert forall|i: int| 0 <= i < length - 1 implies Some((#[trigger] right[i]).token)
            != eos by {
            assert(left[i] == right[i]);
        }
        assert(left[length - 1] == right[length - 1]);
        if length > 0 {
            lemma_ended_at(right, eos, length, most);
        }
    } else if most > 0 {
        assert forall|i: int| 0 <= i < most - 1 implies Some((#[trigger] right[i]).token)
            != eos by {
            assert(left[i] == right[i]);
        }
        lemma_not_ended(right, eos, (most - 1) as nat);
        assert(ended_after(right, eos, most) == most);
    }
    assert(drawn_tokens(left, length) =~= drawn_tokens(right, length));
    assert(drawn_logprobs(left, length) =~= drawn_logprobs(right, length));
}

/// The prompt of every row, row after row: what a group's decoder is prefilled with.
pub open spec fn repeated(prompt: Seq<u32>, rows: nat) -> Seq<u32>
    decreases rows,
{
    if rows == 0 {
        Seq::empty()
    } else {
        repeated(prompt, (rows - 1) as nat) + prompt
    }
}

/// Appends a range of a list of ids.
fn push_range(out: &mut Vec<u32>, ids: &Vec<u32>, start: usize, end: usize)
    requires
        start <= end <= ids@.len(),
    ensures
        final(out)@ == old(out)@ + ids@.subrange(start as int, end as int),
{
    let ghost before = out@;
    let mut at: usize = start;
    assert(out@ =~= before + ids@.subrange(start as int, start as int));
    while at < end
        invariant
            start <= at <= end <= ids@.len(),
            out@ == before + ids@.subrange(start as int, at as int),
        decreases end - at,
    {
        out.push(ids[at]);
        at = at + 1;
        assert(out@ =~= before + ids@.subrange(start as int, at as int));
    }
}

/// Lists the prompt of every row, row after row.
pub fn prefill_input(prompt: &Vec<u32>, rows: usize) -> (data: Vec<u32>)
    ensures
        data@ == repeated(prompt@, rows as nat),
{
    let mut data: Vec<u32> = Vec::new();
    let mut row: usize = 0;
    while row < rows
        invariant
            row <= rows,
            data@ == repeated(prompt@, row as nat),
        decreases rows - row,
    {
        push_range(&mut data, prompt, 0, prompt.len());
        assert(prompt@.subrange(0, prompt@.len() as int) =~= prompt@);
        row = row + 1;
    }
    data
}

/// Whether a rollout yields, row by row, what the given streams of draws decode to.
pub open spec fn streams_yield(
    prompt: Seq<u32>,
    streams: Seq<Vec<Draw>>,
    eos: Option<u32>,
    most: nat,
    rollout: Rollout,
) -> bool {
    &&& rollout.prompt_len == prompt.len()
    &&& rollout.token_ids@.len() == streams.len()
    &&& rollout.completion_lens@.len() == streams.len()
    &&& rollout.rollout_logprobs matches Some(logprobs) && logprobs@.len() == streams.len()
    &&& forall|row: int|
        0 <= row < streams.len() ==> row_yields(
            prompt,
            (#[trigger] streams[row])@,
            eos,
            most,
            rollout.token_ids@[row]@,
            rollout.completion_lens@[row] as nat,
            rollout.rollout_logprobs->0@[row]@,
        )
}

/// Decodes a group in lockstep, each row drawing from its own stream.
pub fn batched_group_decode(prompt: &Vec<u32>, config: &GenConfig, streams: &Vec<Vec<Draw>>) -> (rollout:
    Rollout)
    requires
        prompt@.len() > 0,
        prompt@.len() + config.max_new_tokens <= usize::MAX,
        streams@.len() == config.group_size,
        forall|row: int|
            0 <= row < streams@.len() ==> (#[trigger] streams@[row])@.len()
                >= config.max_new_tokens,
    ensures
        streams_yield(
            prompt@,
            streams@,
            config.eos_token_id,
            config.max_new_tokens as nat,
            rollout,
        ),
        forall|row: int, i: int|
            0 <= row < streams@.len() && 0 <= i < rollout.completion_lens@[row]
                ==> rollout.token_ids@[row]@[rollout.prompt_len + i] == (
            #[trigger] streams@[row]@[i]).token && rollout.rollout_logprobs->0@[row]@[i]
                == streams@[row]@[i].logprob,
{
    let mut group = GroupDecode::start(prompt, config);
    let mut done: bool = config.max_new_tokens == 0;
    while !done
        invariant
            group.wf(),
            done == group.finished(),
            group.prompt@ == prompt@,
            group.max_new_tokens == config.max_new_tokens,
            group.eos_token_id == config.eos_token_id,
            group.draws@.len() == streams@.len(),
            forall|row: int|
                0 <= row < streams@.len() ==> (#[trigger] streams@[row])@.len()
                    >= config.max_new_tokens,
            forall|row: int|
                0 <= row < streams@.len() ==> (#[trigger] group.draws@[row])@.is_prefix_of(
                    streams@[row]@,
                ),
        decreases config.max_new_tokens - group.step,
    {
        let mut drawn: Vec<Option<Draw>> = Vec::new();
        let mut row: usize = 0;
        while row < streams.len()
            invariant
                group.wf(),
                !group.finished(),
                group.max_new_tokens == config.max_new_tokens,
                row <= streams@.len() == group.draws@.len(),
                drawn@.len() == row,
                forall|r: int|
                    0 <= r < streams@.len() ==> (#[trigger] streams@[r])@.len()
                        >= config.max_new_tokens,
                forall|r: int|
                    0 <= r < row ==> #[trigger] drawn@[r] == if group.active@[r] {
                        Some(streams@[r]@[group.step as int])
                    } else {
                        None
                    },
            decreases streams@.len() - row,
        {
            assert(streams@[row as int]@.len() >= config.max_new_tokens);
            drawn.push(
                if group.active[row] {
                    Some(streams[row][group.step])
                } else {
                    None
                },
            );
            row = row + 1;
        }
        let ghost before = group;
        let action = group.advance(&drawn);
        proof {
            assert forall|r: int| 0 <= r < streams@.len() implies (
            #[trigger] group.draws@[r])@.is_prefix_of(streams@[r]@) by {
                assert(row_moved(before, group, r, drawn@[r]));
                assert(before.draws@[r]@.is_prefix_of(streams@[r]@));
                assert(row_in_step(
                    before.draws@[r]@,
                    before.active@[r],
                    before.eos_token_id,
                    before.step as nat,
                ));
                if before.active@[r] {
                    let n = before.draws@[r]@.len() as int;
                    assert(streams@[r]@.subrange(0, n + 1) =~= streams@[r]@.subrange(0, n).push(
                        streams@[r]@[n],
                    ));
                }
            }
        }
        match action {
            DecodeAction::Finished => {
                done = true;
            },
            DecodeAction::Feed { .. } => {},
        }
    }
    let ghost last = group;
    let rollout = group.finish();
    proof {
        assert forall|row: int| 0 <= row < streams@.len() implies row_yields(
            prompt@,
            (#[trigger] streams@[row])@,
            config.eos_token_id,
            config.max_new_tokens as nat,
            rollout.token_ids@[row]@,
            rollout.completion_lens@[row] as nat,
            rollout.rollout_logprobs->0@[row]@,
        ) by {
            let draws = last.draws@[row]@;
            let most = config.max_new_tokens as nat;
            assert(row_in_step(draws, last.active@[row], last.eos_token_id, last.step as nat));
            assert(draws.is_prefix_of(streams@[row]@));
            if last.active@[row] {
                lemma_not_ended(draws, last.eos_token_id, most);
            } else {
                lemma_ended_at(draws, last.eos_token_id, draws.len(), most);
            }
            assert forall|i: int|
                0 <= i < ended_after(draws, config.eos_token_id, most) implies #[trigger] draws[i]
                == streams@[row]@[i] by {
                assert(streams@[row]@.subrange(0, draws.len() as int)[i] == draws[i]);
            }
            law_later_draws_do_not_matter(
                prompt@,
                draws,
                streams@[row]@,
                config.eos_token_id,
                most,
            );
        }
        assert forall|row: int, i: int|
            0 <= row < streams@.len() && 0 <= i < rollout.completion_lens@[row] implies rollout.token_ids@[row]@[rollout.prompt_len
            + i] == (#[trigger] streams@[row]@[i]).token && rollout.rollout_logprobs->0@[row]@[i]
            == streams@[row]@[i].logprob by {
            law_rollout_holds_its_draws(
                prompt@,
                streams@,
                config.eos_token_id,
                config.max_new_tokens as nat,
                rollout,
                row,
            );
        }
    }
    rollout
}

/// Decodes a group row after row, each row drawing from its own stream until it ends.
pub fn sequential_group_decode(prompt: &Vec<u32>, config: &GenConfig, streams: &Vec<Vec<Draw>>) -> (rollout:
    Rollout)
    requires
        prompt@.len() + config.max_new_tokens <= usize::MAX,
        forall|row: int|
            0 <= row < streams@.len() ==> (#[trigger] streams@[row])@.len()
                >= config.max_new_tokens,
    ensures
        streams_yield(
            prompt@,
            streams@,
            config.eos_token_id,
            config.max_new_tokens as nat,
            rollout,
        ),
        forall|row: int, i: int|
            0 <= row < streams@.len() && 0 <= i < rollout.completion_lens@[row]
                ==> rollout.token_ids@[row]@[rollout.prompt_len + i] == (
            #[trigger] streams@[row]@[i]).token && rollout.rollout_logprobs->0@[row]@[i]
                == streams@[row]@[i].logprob,
{
    let most: usize = config.max_new_tokens;
    let mut token_ids: Vec<Vec<u32>> = Vec::new();
    let mut completion_lens: Vec<usize> = Vec::new();
    let mut logprobs: Vec<Vec<u32>> = Vec::new();
    let mut row: usize = 0;
    while row < streams.len()
        invariant
            most == config.max_new_tokens,
            prompt@.len() + most <= usize::MAX,
            row <= streams@.len(),
            token_ids@.len() == row,
            completion_lens@.len() == row,
            logprobs@.len() == row,
            forall|r: int|
                0 <= r < streams@.len() ==> (#[trigger] streams@[r])@.len() >= most,
            forall|r: int|
                0 <= r < row ==> row_yields(
                    prompt@,
                    (#[trigger] streams@[r])@,
                    config.eos_token_id,
                    most as nat,
                    token_ids@[r]@,
                    completion_lens@[r] as nat,
                    logprobs@[r]@,
                ),
        decreases streams@.len() - row,
    {
        let stream = &streams[row];
        assert(streams@[row as int]@.len() >= most);
        let mut draws: Vec<Draw> = Vec::new();
        let mut ended: bool = false;
        while draws.len() < most && !ended
            invariant
                stream@.len() >= most,
                draws@.len() <= most,
                draws@ == stream@.take(draws@.len() as int),
                ended ==> draws@.len() > 0 && config.eos_token_id == Some(draws@.last().token),
                forall|i: int|
                    0 <= i < draws@.len() - (if ended {
                        1int
                    } else {
                        0int
                    }) ==> Some((#[trigger] draws@[i]).token) != config.eos_token_id,
            decreases most - draws@.len(),
        {
            let draw = stream[draws.len()];
            draws.push(draw);
            assert(draws@ =~= stream@.take(draws@.len() as int));
            if config.eos_token_id == Some(draw.token) {
                ended = true;
            }
        }
        proof {
            let full = most as nat;
            if ended {
                lemma_ended_at(draws@, config.eos_token_id, draws@.len(), full);
            } else {
                lemma_not_ended(draws@, config.eos_token_id, full);
            }
            assert forall|i: int|
                0 <= i < ended_after(draws@, config.eos_token_id, full) implies #[trigger] draws@[i]
                == stream@[i] by {
                assert(stream@.take(draws@.len() as int)[i] == stream@[i]);
            }
            law_later_draws_do_not_matter(
                prompt@,
                draws@,
                stream@,
                config.eos_token_id,
                full,
            );
        }
        let (ids, values) = finish_row(prompt, &draws, config.eos_token_id, most);
        token_ids.push(ids);
        completion_lens.push(draws.len());
        logprobs.push(values);
        row = row + 1;
    }
    let rollout = Rollout {
        token_ids,
        prompt_len: prompt.len(),
        completion_lens,
        rollout_logprobs: Some(logprobs),
    };
    proof {
        assert forall|row: int, i: int|
            0 <= row < streams@.len() && 0 <= i < rollout.completion_lens@[row] implies rollout.token_ids@[row]@[rollout.prompt_len
            + i] == (#[trigger] streams@[row]@[i]).token && rollout.rollout_logprobs->0@[row]@[i]
            == streams@[row]@[i].logprob by {
            law_rollout_holds_its_draws(
                prompt@,
                streams@,
                config.eos_token_id,
                config.max_new_tokens as nat,
                rollout,
                row,
            );
        }
    }
    rollout
}

/// Decoding in lockstep changes nothing: two groups that draw from the same streams have the
/// same rows, however they were decoded, and a row does not depend on the others.
pub proof fn law_decode_order_does_not_matter(
    prompt: Seq<u32>,
    left_streams: Seq<Vec<Draw>>,
    left: Rollout,
    left_row: int,
    right_streams: Seq<Vec<Draw>>,
    right: Rollout,
    right_row: int,
    eos: Option<u32>,
    most: nat,
)
    requires
        streams_yield(prompt, left_streams, eos, most, left),
        streams_yield(prompt, right_streams, eos, most, right),
        0 <= left_row < left_streams.len(),
        0 <= right_row < right_streams.len(),
        left_streams[left_row]@ == right_streams[right_row]@,
    ensures
        left.token_ids@[left_row]@ == right.token_ids@[right_row]@,
        left.completion_lens@[left_row] == right.completion_lens@[right_row],
        left.rollout_logprobs->0@[left_row]@ == right.rollout_logprobs->0@[right_row]@,
{
    assert(row_yields(
        prompt,
        left_streams[left_row]@,
        eos,
        most,
        left.token_ids@[left_row]@,
        left.completion_lens@[left_row] as nat,
        left.rollout_logprobs->0@[left_row]@,
    ));
    assert(row_yields(
        prompt,
        right_streams[right_row]@,
        eos,
        most,
        right.token_ids@[right_row]@,
        right.completion_lens@[right_row] as nat,
        right.rollout_logprobs->0@[right_row]@,
    ));
}

/// The same range of every row, row after row.
pub open spec fn row_ranges(rows: Seq<Vec<u32>>, count: nat, start: int, end: int) -> Seq<u32>
    decreases count,
{
    if count == 0 {
        Seq::empty()
    } else {
        row_ranges(rows, (count - 1) as nat, start, end) + rows[count - 1]@.subrange(start, end)
    }
}

/// Lists the same range of every row, row after row.
fn list_ranges(rows: &Vec<Vec<u32>>, start: usize, end: usize) -> (data: Vec<u32>)
    requires
        start <= end,
        forall|row: int| 0 <= row < rows@.len() ==> (#[trigger] rows@[row])@.len() >= end,
    ensures
        data@ == row_ranges(rows@, rows@.len(), start as int, end as int),
{
    let mut data: Vec<u32> = Vec::new();
    let mut row: usize = 0;
    while row < rows.len()
        invariant
            row <= rows@.len(),
            start <= end,
            forall|r: int| 0 <= r < rows@.len() ==> (#[trigger] rows@[r])@.len() >= end,
            data@ == row_ranges(rows@, row as nat, start as int, end as int),
        decreases rows@.len() - row,
    {
        assert(rows@[row as int]@.len() >= end);
        push_range(&mut data, &rows[row], start, end);
        row = row + 1;
    }
    data
}

impl Rollout {
    /// The common width of the rows.
    pub open spec fn width(self) -> nat {
        self.token_ids@[0]@.len()
    }

    /// Whether the rollout can be scored: it has a row, no row is narrower than the first, and the
    /// prompt is not empty and within.
    pub open spec fn scorable(self) -> bool {
        &&& self.token_ids@.len() > 0
        &&& 0 < self.prompt_len <= self.width()
        &&& forall|row: int|
            0 <= row < self.token_ids@.len() ==> (#[trigger] self.token_ids@[row])@.len()
                >= self.width()
    }

    /// Whether the rollout can be scored.
    pub fn is_scorable(&self) -> (scorable: bool)
        ensures
            scorable == self.scorable(),
    {
        if self.token_ids.len() == 0 {
            return false;
        }
        let width: usize = self.token_ids[0].len();
        let mut row: usize = 0;
        while row < self.token_ids.len()
            invariant
                row <= self.token_ids@.len(),
                width == self.width(),
                forall|i: int| 0 <= i < row ==> (#[trigger] self.token_ids@[i])@.len() >= width,
            decreases self.token_ids@.len() - row,
        {
            if self.token_ids[row].len() < width {
                return false;
            }
            row = row + 1;
        }
        0 < self.prompt_len && self.prompt_len <= width
    }

    /// The tokens that are run to score the rollout: every row but for its last token.
    pub fn scoring_input(&self) -> (data: Vec<u32>)
        requires
            self.scorable(),
        ensures
            data@ == row_ranges(self.token_ids@, self.token_ids@.len(), 0, self.width() - 1),
    {
        let input_len: usize = self.token_ids[0].len() - 1;
        list_ranges(&self.token_ids, 0, input_len)
    }

    /// The positions whose logits predict the completion: from the last prompt token on, as many
    /// as the completion is wide.
    pub fn scoring_window(&self) -> (window: (usize, usize))
        requires
            self.scorable(),
        ensures
            window.0 == self.prompt_len - 1,
            window.1 == self.width() - self.prompt_len,
            window.0 + window.1 == self.width() - 1,
            window.0 + window.1 == self.token_ids@[0]@.len() - 1,
    {
        (self.prompt_len - 1, self.token_ids[0].len() - self.prompt_len)
    }

    /// The tokens that the window predicts: every row's completion.
    pub fn scoring_targets(&self) -> (data: Vec<u32>)
        requires
            self.scorable(),
        ensures
            data@ == row_ranges(
                self.token_ids@,
                self.token_ids@.len(),
                self.prompt_len as int,
                self.width() as int,
            ),
    {
        list_ranges(&self.token_ids, self.prompt_len, self.token_ids[0].len())
    }

    /// Refuses logits that are not those of the scoring window, and an empty window.
    pub fn check_scoring_window(&self, rows: usize, width: usize) -> (verdict: Result<
        (),
        ScoringFault,
    >)
        requires
            self.scorable(),
        ensures
            verdict == if self.width() == self.prompt_len {
                Err(ScoringFault::EmptyWindow)
            } else if rows != self.token_ids@.len() || width != self.width() - self.prompt_len {
                Err(
                    ScoringFault::Window {
                        rows: self.token_ids@.len() as usize,
                        width: (self.width() - self.prompt_len) as usize,
                    },
                )
            } else {
                Ok(())
            },
    {
        let completion: usize = self.token_ids[0].len() - self.prompt_len;
        if completion == 0 {
            return Err(ScoringFault::EmptyWindow);
        }
        if rows != self.token_ids.len() || width != completion {
            return Err(
                ScoringFault::Window { rows: self.token_ids.len(), width: completion },
            );
        }
        Ok(())
    }
}

/// Why logits cannot be scored.
#[derive(Debug, Clone, Copy, PartialEq, Eq, Structural)]
pub enum ScoringFault {
    /// The completion window is empty.
    EmptyWindow,
    /// The logits are not those of a window of this shape.
    Window { rows: usize, width: usize },
}

/// The logits at each position of the window predict the token that follows it in the input: what
/// is scored is exactly the completion, one position ahead.
pub proof fn law_window_predicts_the_targets(rollout: Rollout, row: int, position: int)
    requires
        rollout.scorable(),
        0 <= row < rollout.token_ids@.len(),
        0 <= position < rollout.width() - rollout.prompt_len,
    ensures
        0 <= rollout.prompt_len - 1 + position < rollout.width() - 1,
        rollout.token_ids@[row]@.subrange(rollout.prompt_len as int, rollout.width() as int)[position]
            == rollout.token_ids@[row]@[rollout.prompt_len - 1 + position + 1],
{
    assert(rollout.token_ids@[row]@.len() >= rollout.width());
}

/// The prefill holds the prompt once for every row, row after row.
pub proof fn law_prefill_repeats_the_prompt(prompt: Seq<u32>, rows: nat, row: nat, at: nat)
    requires
        row < rows,
        at < prompt.len(),
    ensures
        repeated(prompt, rows).len() == rows * prompt.len(),
        row * prompt.len() + at < rows * prompt.len(),
        repeated(prompt, rows)[(row * prompt.len() + at) as int] == prompt[at as int],
    decreases rows,
{
    let shorter = (rows - 1) as nat;
    lemma_repeated_len(prompt, rows);
    lemma_repeated_len(prompt, shorter);
    vstd::arithmetic::mul::lemma_mul_inequality(row as int + 1, rows as int, prompt.len() as int);
    vstd::arithmetic::mul::lemma_mul_is_distributive_add_other_way(
        prompt.len() as int,
        row as int,
        1,
    );
    vstd::arithmetic::mul::lemma_mul_is_distributive_add_other_way(
        prompt.len() as int,
        shorter as int,
        1,
    );
    if row < shorter {
        law_prefill_repeats_the_prompt(prompt, shorter, row, at);
    }
}

proof fn lemma_repeated_len(prompt: Seq<u32>, rows: nat)
    ensures
        repeated(prompt, rows).len() == rows * prompt.len(),
    decreases rows,
{
    if rows > 0 {
        lemma_repeated_len(prompt, (rows - 1) as nat);
        vstd::arithmetic::mul::lemma_mul_is_distributive_add_other_way(
            prompt.len() as int,
            rows - 1,
            1,
        );
    } else {
        vstd::arithmetic::mul::lemma_mul_basics(prompt.len() as int);
    }
}

/// A list of ranges holds, row after row, the places of every row from the start to the end.
pub proof fn law_ranges_hold_the_rows(
    rows: Seq<Vec<u32>>,
    count: nat,
    start: int,
    end: int,
    row: int,
    at: int,
)
    requires
        0 <= row < count <= rows.len(),
        0 <= start <= end,
        0 <= at < end - start,
        forall|i: int| 0 <= i < count ==> (#[trigger] rows[i])@.len() >= end,
    ensures
        row_ranges(rows, count, start, end).len() == count * (end - start),
        0 <= row * (end - start) + at < count * (end - start),
        row_ranges(rows, count, start, end)[row * (end - start) + at] == rows[row]@[start + at],
    decreases count,
{
    let width = end - start;
    let shorter = (count - 1) as nat;
    lemma_ranges_len(rows, count, start, end);
    lemma_ranges_len(rows, shorter, start, end);
    vstd::arithmetic::mul::lemma_mul_inequality(row + 1, count as int, width);
    vstd::arithmetic::mul::lemma_mul_is_distributive_add_other_way(width, row, 1);
    vstd::arithmetic::mul::lemma_mul_is_distributive_add_other_way(width, shorter as int, 1);
    vstd::arithmetic::mul::lemma_mul_nonnegative(row, width);
    if row < shorter {
        law_ranges_hold_the_rows(rows, shorter, start, end, row, at);
    } else {
        assert(rows[row]@.len() >= end);
    }
}

proof fn lemma_ranges_len(rows: Seq<Vec<u32>>, count: nat, start: int, end: int)
    requires
        count <= rows.len(),
        0 <= start <= end,
        forall|i: int| 0 <= i < count ==> (#[trigger] rows[i])@.len() >= end,
    ensures
        row_ranges(rows, count, start, end).len() == count * (end - start),
    decreases count,
{
    if count > 0 {
        lemma_ranges_len(rows, (count - 1) as nat, start, end);
        assert(rows[count - 1]@.len() >= end);
        vstd::arithmetic::mul::lemma_mul_is_distributive_add_other_way(end - start, count - 1, 1);
    } else {
        vstd::arithmetic::mul::lemma_mul_basics(end - start);
    }
}

/// An evaluation's parameters are returned as given, whatever the policy is, and refused exactly
/// when the temperature is not a positive number or the nucleus is outside `(0, 1]`.
pub proof fn law_evaluations_are_sampled_as_given(
    policy: LmPolicy,
    other: LmPolicy,
    config: GenConfig,
    eval: EvalSampling,
)
    requires
        config.eval_sampling == Some(eval),
    ensures
        resolved_sampling(policy, config) == resolved_sampling(other, config),
        resolved_sampling(policy, config) matches Ok(sampling) ==> sampling == (
            eval.temperature,
            eval.top_p,
        ),
        resolved_sampling(policy, config) is Ok <==> eval.temperature.finite()
            && eval.temperature.signed_units() > 0 && (eval.top_p matches Some(top_p) ==> {
            &&& top_p.finite()
            &&& 0 < top_p.signed_units() <= pow2(1074)
        }),
        resolved_sampling(policy, config) matches Err(fault) ==> fault
            == SamplingFault::EvalTemperature(eval.temperature) || (eval.top_p is Some && fault
            == SamplingFault::EvalTopP(eval.top_p->0)),
        eval.temperature.finite() && eval.temperature.signed_units() > 0
            ==> resolved_sampling(policy, config) != Err::<(Real64, Option<Real64>), SamplingFault>(
            SamplingFault::EvalTemperature(eval.temperature),
        ),
{
    crate::binary64::law_number_classes(eval.temperature);
    if let Some(top_p) = eval.top_p {
        crate::binary64::law_number_classes(top_p);
    }
}

/// A training call is sampled at the policy's temperature without a nucleus, exactly when the
/// caller believes in that temperature: the same number, or one within the machine epsilon. No
/// other part of the config matters.
pub proof fn law_training_is_sampled_at_the_policy_temperature(
    policy: LmPolicy,
    config: GenConfig,
    other: GenConfig,
)
    requires
        config.eval_sampling is None,
        other.eval_sampling is None,
        other.temperature == config.temperature,
    ensures
        resolved_sampling(policy, config) == resolved_sampling(policy, other),
        resolved_sampling(policy, config) matches Ok(sampling) ==> sampling == (
            policy.temperature,
            None::<Real64>,
        ),
        resolved_sampling(policy, config) matches Err(fault) ==> fault == (
        SamplingFault::Temperature {
            policy: policy.temperature,
            requested: config.temperature,
        }),
        config.temperature == policy.temperature && !policy.temperature.nan()
            ==> resolved_sampling(policy, config) is Ok,
        config.temperature.nan() || policy.temperature.nan() ==> resolved_sampling(
            policy,
            config,
        ) is Err,
        config.temperature.finite() && policy.temperature.finite() ==> (resolved_sampling(
            policy,
            config,
        ) is Ok <==> -(pow2(1022) + pow2(969)) <= config.temperature.signed_units()
            - policy.temperature.signed_units() <= pow2(1022) + pow2(969)),
        config.temperature.finite() != policy.temperature.finite() ==> resolved_sampling(
            policy,
            config,
        ) is Err,
{
    crate::binary64::law_differences(config.temperature, policy.temperature);
}

impl SamplingFault {
    /// What the fault says, given the decimal renderings of its numbers, in their order.
    pub open spec fn text(self, first: Seq<char>, second: Seq<char>) -> Seq<char> {
        match self {
            SamplingFault::EvalTemperature(_) => "eval_sampling.temperature must be finite and > 0, got "@ + first,
            SamplingFault::EvalTopP(_) => "eval_sampling.top_p must be in (0, 1], got "@ + first,
            SamplingFault::Temperature { .. } => "LmPolicy was built with temperature "@ + first + " but generate was called with cfg.temperature "@ + second + "; rebuild the policy to change it"@,
            SamplingFault::SamplerState { .. } => "sampler state was checkpointed at temperature "@ + first + " but this policy runs at "@ + second + "; rebuild the policy with the checkpoint's temperature to resume it"@,
        }
    }

    /// What the fault says. `first` and `second` are the decimal renderings of its numbers, in
    /// their order.
    pub fn message(&self, first: &str, second: &str) -> (text: String)
        ensures
            text@ == self.text(first@, second@),
    {
        match self {
            SamplingFault::EvalTemperature(_) => {
                let mut text = String::from_str("eval_sampling.temperature must be finite and > 0, got ");
                text.append(first);
                text
            },
            SamplingFault::EvalTopP(_) => {
                let mut text = String::from_str("eval_sampling.top_p must be in (0, 1], got ");
                text.append(first);
                text
            },
            SamplingFault::Temperature { .. } => {
                let mut text = String::from_str("LmPolicy was built with temperature ");
                text.append(first);
                text.append(" but generate was called with cfg.temperature ");
                text.append(second);
                text.append("; rebuild the policy to change it");
                text
            },
            SamplingFault::SamplerState { .. } => {
                let mut text = String::from_str("sampler state was checkpointed at temperature ");
                text.append(first);
                text.append(" but this policy runs at ");
                text.append(second);
                text.append("; rebuild the policy with the checkpoint's temperature to resume it");
                text
            },
        }
    }
}

impl ScoringFault {
    /// What the fault says, given the shape of the logits that were found.
    pub open spec fn text(self, found: Seq<char>) -> Seq<char> {
        match self {
            ScoringFault::EmptyWindow => "completion_logprobs: zero-length completion window"@,
            ScoringFault::Window { rows, width } => "completion_logprobs: pred must be the narrowed scoring window ["@ + crate::text::decimal_text(rows as nat) + ", "@ + crate::text::decimal_text(width as nat) + ", vocab], got "@ + found,
        }
    }

    /// What the fault says. `found` is the shape of the logits that were found.
    pub fn message(&self, found: &str) -> (text: String)
        ensures
            text@ == self.text(found@),
    {
        match self {
            ScoringFault::EmptyWindow => String::from_str("completion_logprobs: zero-length completion window"),
            ScoringFault::Window { rows, width } => {
                let mut text = String::from_str("completion_logprobs: pred must be the narrowed scoring window [");
                text.append(&decimal(*rows as u64));
                text.append(", ");
                text.append(&decimal(*width as u64));
                text.append(", vocab], got ");
                text.append(found);
                text
            },
        }
    }
}

/// What each fault says, word for word, around its numbers.
pub proof fn law_words_of_sampling_fault(fault: SamplingFault, first: Seq<char>, second: Seq<char>)
    ensures
        fault matches SamplingFault::EvalTemperature(_) ==> fault.text(first, second) == ("eval_sampling.temperature must be finite and > 0, got "@ + first),
        fault matches SamplingFault::EvalTopP(_) ==> fault.text(first, second) == ("eval_sampling.top_p must be in (0, 1], got "@ + first),
        fault matches SamplingFault::Temperature { .. } ==> fault.text(first, second) == ("LmPolicy was built with temperature "@ + first + " but generate was called with cfg.temperature "@ + second + "; rebuild the policy to change it"@),
        fault matches SamplingFault::SamplerState { .. } ==> fault.text(first, second) == ("sampler state was checkpointed at temperature "@ + first + " but this policy runs at "@ + second + "; rebuild the policy with the checkpoint's temperature to resume it"@),
{
}

/// What each fault says, word for word, around its numbers.
pub proof fn law_words_of_scoring_fault(fault: ScoringFault, found: Seq<char>)
    ensures
        fault == ScoringFault::EmptyWindow ==> fault.text(found) == ("completion_logprobs: zero-length completion window"@),
        fault matches ScoringFault::Window { rows, width } ==> fault.text(found) == ("completion_logprobs: pred must be the narrowed scoring window ["@ + crate::text::decimal_text(rows as nat) + ", "@ + crate::text::decimal_text(width as nat) + ", vocab], got "@ + found),
{
}

/// A step changes nothing of a group but what its rows have drawn.
pub proof fn law_steps_keep_the_group(before: GroupDecode, after: GroupDecode)
    requires
        after.same_group(before),
    ensures
        after.prompt@ == before.prompt@,
        after.max_new_tokens == before.max_new_tokens,
        after.eos_token_id == before.eos_token_id,
        after.draws@.len() == before.draws@.len(),
{
}

} // verus!
