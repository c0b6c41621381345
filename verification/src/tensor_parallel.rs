//! Tensor-parallel plans: which rank of which world executes, how an axis splits over the ranks,
//! and how the ranks keep in step when a local computation fails on some of them.
use crate::binary64::Real64;
use crate::text::decimal;
use vstd::prelude::*;

verus! {

/// A rank's place in a tensor-parallel world.
#[derive(Debug, Clone, Copy, PartialEq, Eq, Structural)]
pub struct TensorParallelPlan {
    rank: usize,
    world_size: usize,
}

/// The part of an axis that a rank owns.
#[derive(Debug, Clone, Copy, PartialEq, Eq, Structural)]
pub struct ShardRange {
    pub start: usize,
    pub len: usize,
}

/// Why a plan or a split is refused.
#[derive(Debug)]
pub enum TensorParallelError {
    /// A world has no rank.
    EmptyWorld,
    /// A rank is not of the world.
    RankOutsideWorld { rank: usize, world_size: usize },
    /// An axis does not split evenly over the ranks.
    UnevenAxis { label: String, len: usize, world_size: usize },
}

impl TensorParallelPlan {
    /// The rank.
    pub closed spec fn at_rank(self) -> usize {
        self.rank
    }

    /// The number of ranks.
    pub closed spec fn of_world(self) -> usize {
        self.world_size
    }

    /// A plan is of a rank of its world.
    pub open spec fn wf(self) -> bool {
        self.at_rank() < self.of_world()
    }

    /// Whether the world has more than one rank.
    pub open spec fn sharded(self) -> bool {
        self.of_world() > 1
    }

    /// A plan is given by its rank and its world.
    pub proof fn lemma_identified(self, other: Self)
        requires
            self.at_rank() == other.at_rank(),
            self.of_world() == other.of_world(),
        ensures
            self == other,
    {
    }

    /// Places a rank in a world.
    pub fn new(rank: usize, world_size: usize) -> (plan: Result<Self, TensorParallelError>)
        ensures
            match plan {
                Ok(plan) => plan.wf() && plan.at_rank() == rank && plan.of_world() == world_size,
                Err(TensorParallelError::EmptyWorld) => world_size == 0,
                Err(TensorParallelError::RankOutsideWorld { rank: given, world_size: world }) => {
                    &&& 0 < world_size <= rank
                    &&& given == rank
                    &&& world == world_size
                },
                Err(TensorParallelError::UnevenAxis { .. }) => false,
            },
    {
        if world_size == 0 {
            Err(TensorParallelError::EmptyWorld)
        } else if rank >= world_size {
            Err(TensorParallelError::RankOutsideWorld { rank, world_size })
        } else {
            Ok(TensorParallelPlan { rank, world_size })
        }
    }

    /// The plan of a world of one rank.
    pub fn single() -> (plan: Self)
        ensures
            plan.wf(),
            plan.at_rank() == 0,
            plan.of_world() == 1,
    {
        TensorParallelPlan { rank: 0, world_size: 1 }
    }

    /// The rank.
    pub fn rank(&self) -> (rank: usize)
        ensures
            rank == self.at_rank(),
    {
        self.rank
    }

    /// The number of ranks.
    pub fn world_size(&self) -> (world_size: usize)
        ensures
            world_size == self.of_world(),
    {
        self.world_size
    }

    /// Whether the world has more than one rank.
    pub fn is_sharded(&self) -> (sharded: bool)
        ensures
            sharded == self.sharded(),
    {
        self.world_size > 1
    }

    /// The part of an axis of length `len` that this rank owns.
    pub open spec fn shard(self, len: nat) -> ShardRange {
        let each = len / (self.of_world() as nat);
        ShardRange { start: (self.at_rank() * each) as usize, len: each as usize }
    }

    /// Splits an axis over the ranks. An axis that does not split evenly is refused under its
    /// label.
    pub fn shard_axis(&self, label: &str, len: usize) -> (range: Result<
        ShardRange,
        TensorParallelError,
    >)
        requires
            self.wf(),
        ensures
            match range {
                Ok(range) => len % self.of_world() == 0 && range == self.shard(len as nat),
                Err(TensorParallelError::UnevenAxis { label: named, len: given, world_size }) => {
                    &&& len % self.of_world() != 0
                    &&& named@ == label@
                    &&& given == len
                    &&& world_size == self.of_world()
                },
                Err(_) => false,
            },
    {
        if len % self.world_size != 0 {
            return Err(
                TensorParallelError::UnevenAxis {
                    label: label.to_owned(),
                    len,
                    world_size: self.world_size,
                },
            );
        }
        let each: usize = len / self.world_size;
        proof {
            vstd::arithmetic::div_mod::lemma_fundamental_div_mod(len as int, self.world_size as int);
            vstd::arithmetic::mul::lemma_mul_inequality(
                self.rank as int,
                self.world_size as int,
                each as int,
            );
        }
        Ok(ShardRange { start: self.rank * each, len: each })
    }
}

/// The shards of an even split tile the axis: they start where the previous one ends, the first
/// at the start and the last ending at the end.
pub proof fn law_shards_tile_the_axis(plan: TensorParallelPlan, next: TensorParallelPlan, len: usize)
    requires
        plan.wf(),
        next.wf(),
        plan.of_world() == next.of_world(),
        len % plan.of_world() == 0,
    ensures
        plan.at_rank() == 0 ==> plan.shard(len as nat).start == 0,
        next.at_rank() == plan.at_rank() + 1 ==> next.shard(len as nat).start == plan.shard(
            len as nat,
        ).start + plan.shard(len as nat).len,
        plan.at_rank() == plan.of_world() - 1 ==> plan.shard(len as nat).start + plan.shard(
            len as nat,
        ).len == len,
{
    let world = plan.of_world() as int;
    let each = (len as int) / world;
    vstd::arithmetic::div_mod::lemma_fundamental_div_mod(len as int, world);
    vstd::arithmetic::mul::lemma_mul_inequality(plan.at_rank() as int, world, each);
    vstd::arithmetic::mul::lemma_mul_inequality(next.at_rank() as int, world, each);
    vstd::arithmetic::mul::lemma_mul_is_commutative(world, each);
    assert((plan.at_rank() + 1) * each == plan.at_rank() * each + each) by (nonlinear_arith);
    assert(0 * each == 0);
}

/// Every rank of a world owns as much of an axis as the others, and starts behind the parts of the
/// ranks before it.
pub proof fn law_shards_are_equal(plan: TensorParallelPlan, len: usize)
    requires
        plan.wf(),
        len % plan.of_world() == 0,
    ensures
        plan.shard(len as nat).len * plan.of_world() == len,
        plan.shard(len as nat).start == plan.at_rank() * plan.shard(len as nat).len,
        plan.shard(len as nat).start + plan.shard(len as nat).len <= len,
{
    let world = plan.of_world() as int;
    let each = (len as int) / world;
    vstd::arithmetic::div_mod::lemma_fundamental_div_mod(len as int, world);
    vstd::arithmetic::mul::lemma_mul_inequality(plan.at_rank() + 1, world, each);
    vstd::arithmetic::mul::lemma_mul_is_commutative(world, each);
    assert((plan.at_rank() + 1) * each == plan.at_rank() * each + each) by (nonlinear_arith);
    vstd::arithmetic::mul::lemma_mul_nonnegative(plan.at_rank() as int, each);
    vstd::arithmetic::div_mod::lemma_div_nonincreasing(len as int, world);
}

/// Where a row-parallel output goes.
#[derive(Debug, Clone, Copy, PartialEq, Eq, Structural)]
pub enum RowOutputRoute {
    /// The partial output is the output.
    Keep,
    /// The partial outputs are summed over the ranks.
    Reduce,
    /// A communicator is needed and there is none.
    MissingCommunicator { world_size: usize },
}

/// Decides where a row-parallel output goes.
pub fn reduce_row_parallel_output(plan: &TensorParallelPlan, has_communicator: bool) -> (route:
    RowOutputRoute)
    ensures
        route == if !plan.sharded() {
            RowOutputRoute::Keep
        } else if has_communicator {
            RowOutputRoute::Reduce
        } else {
            RowOutputRoute::MissingCommunicator { world_size: plan.of_world() }
        },
{
    if !plan.is_sharded() {
        RowOutputRoute::Keep
    } else if has_communicator {
        RowOutputRoute::Reduce
    } else {
        RowOutputRoute::MissingCommunicator { world_size: plan.world_size() }
    }
}

/// How a local computation between two collectives runs.
#[derive(Debug, Clone, Copy, PartialEq, Eq, Structural)]
pub enum LocalCallRoute {
    /// Run it and let the ranks agree on whether all of them succeeded.
    Coordinate,
    /// Run it.
    Direct,
    /// A communicator is needed and there is none.
    MissingCommunicator { world_size: usize },
}

/// Decides how a local computation runs: with a communicator it is always coordinated.
pub fn coordinate_tensor_parallel_local_call(
    plan: &TensorParallelPlan,
    has_communicator: bool,
) -> (route: LocalCallRoute)
    ensures
        route == if has_communicator {
            LocalCallRoute::Coordinate
        } else if plan.sharded() {
            LocalCallRoute::MissingCommunicator { world_size: plan.of_world() }
        } else {
            LocalCallRoute::Direct
        },
{
    if has_communicator {
        LocalCallRoute::Coordinate
    } else if plan.is_sharded() {
        LocalCallRoute::MissingCommunicator { world_size: plan.world_size() }
    } else {
        LocalCallRoute::Direct
    }
}

/// What a rank does after a coordinated local computation.
#[derive(Debug, Clone, Copy, PartialEq, Eq, Structural)]
pub enum Coordination {
    /// Every rank succeeded.
    Proceed,
    /// This rank failed.
    FailedHere,
    /// This rank succeeded, another failed.
    FailedOnPeer,
}

/// What a rank does after a coordinated local computation.
pub open spec fn coordinated(succeeded: bool, failures: Real64) -> Coordination {
    if !succeeded {
        Coordination::FailedHere
    } else if failures.zero() {
        Coordination::Proceed
    } else {
        Coordination::FailedOnPeer
    }
}

/// Decides what a rank does, given whether its own computation succeeded and the reduced count
/// of the ranks that failed.
pub fn coordinate_local_call(succeeded: bool, failures: Real64) -> (coordination: Coordination)
    ensures
        coordination == coordinated(succeeded, failures),
{
    if !succeeded {
        Coordination::FailedHere
    } else if failures.is_zero() {
        Coordination::Proceed
    } else {
        Coordination::FailedOnPeer
    }
}

/// What a rank says that stops because a computation failed on another.
pub open spec fn peer_failure_text(label: Seq<char>) -> Seq<char> {
    label + " failed on a peer tensor-parallel rank; stopped before the next collective"@
}

/// Says that a computation failed on another rank.
pub fn peer_failure(label: &str) -> (text: String)
    ensures
        text@ == peer_failure_text(label@),
{
    let mut text = String::from_str(label);
    text.append(" failed on a peer tensor-parallel rank; stopped before the next collective");
    text
}

/// What came of a coordinated local computation on a rank.
#[derive(Debug, Clone, Copy, PartialEq, Eq, Structural)]
pub struct StageReport {
    /// Whether it succeeded on this rank.
    pub succeeded: bool,
    /// The reduced count of the ranks on which it failed.
    pub failures: Real64,
}

impl StageReport {
    /// What the rank does next.
    pub open spec fn outcome(self) -> Coordination {
        coordinated(self.succeeded, self.failures)
    }

    /// Decides what the rank does next.
    pub fn coordination(&self) -> (coordination: Coordination)
        ensures
            coordination == self.outcome(),
    {
        coordinate_local_call(self.succeeded, self.failures)
    }
}

/// Either every rank goes on to the next collective or none does: no rank is left waiting in a
/// collective for one that failed. They go on exactly when none failed.
pub proof fn law_coordination_is_unanimous(failed: Seq<bool>, failures: Real64, left: int, right: int)
    requires
        0 <= left < failed.len(),
        0 <= right < failed.len(),
        failures.equals_whole(crate::votes::tally(failed)),
    ensures
        coordinated(!failed[left], failures) == Coordination::Proceed <==> coordinated(
            !failed[right],
            failures,
        ) == Coordination::Proceed,
        coordinated(!failed[left], failures) == Coordination::Proceed <==> (forall|rank: int|
            0 <= rank < failed.len() ==> !#[trigger] failed[rank]),
{
    crate::votes::lemma_tally(failed);
    crate::binary64::lemma_equals_one_whole(failures, crate::votes::tally(failed), 0);
}

/// A rank blames itself exactly when its own computation failed, and a peer exactly when it
/// succeeded and another rank's failed.
pub proof fn law_failures_are_told_apart(failed: Seq<bool>, failures: Real64, rank: int)
    requires
        0 <= rank < failed.len(),
        failures.equals_whole(crate::votes::tally(failed)),
    ensures
        coordinated(!failed[rank], failures) == Coordination::FailedHere <==> failed[rank],
        coordinated(!failed[rank], failures) == Coordination::FailedOnPeer <==> !failed[rank]
            && exists|peer: int| 0 <= peer < failed.len() && #[trigger] failed[peer],
{
    crate::votes::lemma_tally(failed);
    crate::binary64::lemma_equals_one_whole(failures, crate::votes::tally(failed), 0);
    if !failed[rank] && coordinated(!failed[rank], failures) == Coordination::FailedOnPeer {
        let peer = choose|peer: int| 0 <= peer < failed.len() && failed[peer];
        assert(failed[peer]);
    }
}

/// How many coordinated computations a rank has come through, of those from a number on: it stops
/// at the first that failed here or on a peer.
pub open spec fn stages_from(reports: Seq<StageReport>, stage: nat) -> nat
    decreases reports.len() - stage,
{
    if stage >= reports.len() || reports[stage as int].outcome() != Coordination::Proceed {
        stage
    } else {
        stages_from(reports, stage + 1)
    }
}

/// A rank comes through every computation before the first that failed here or on a peer, and
/// through no other.
pub proof fn law_first_failure_stops(reports: Seq<StageReport>, stage: nat)
    requires
        stage <= reports.len(),
    ensures
        stage <= stages_from(reports, stage) <= reports.len(),
        forall|at: int|
            stage <= at < stages_from(reports, stage) ==> (#[trigger] reports[at]).succeeded
                && reports[at].failures.zero(),
        stages_from(reports, stage) < reports.len() ==> {
            let stopped = reports[stages_from(reports, stage) as int];
            !stopped.succeeded || !stopped.failures.zero()
        },
    decreases reports.len() - stage,
{
    if stage < reports.len() && reports[stage as int].outcome() == Coordination::Proceed {
        law_first_failure_stops(reports, stage + 1);
    }
}

/// On which ranks a computation failed.
pub open spec fn failed_at(ranks: Seq<Seq<StageReport>>, stage: nat) -> Seq<bool> {
    Seq::new(ranks.len(), |rank: int| !ranks[rank][stage as int].succeeded)
}

/// Ranks that coordinate every computation between two collectives stop together: whatever fails
/// where, every rank comes through the same number of computations, so that none enters a
/// collective that another does not enter.
pub proof fn law_ranks_stop_together(
    ranks: Seq<Seq<StageReport>>,
    stages: nat,
    stage: nat,
    left: int,
    right: int,
)
    requires
        0 <= left < ranks.len(),
        0 <= right < ranks.len(),
        stage <= stages,
        forall|rank: int| 0 <= rank < ranks.len() ==> (#[trigger] ranks[rank]).len() == stages,
        forall|rank: int, at: int|
            0 <= rank < ranks.len() && 0 <= at < stages ==> (
            #[trigger] ranks[rank][at]).failures.equals_whole(
                crate::votes::tally(failed_at(ranks, at as nat)),
            ),
    ensures
        stages_from(ranks[left], stage) == stages_from(ranks[right], stage),
    decreases stages - stage,
{
    if stage < stages {
        let failed = failed_at(ranks, stage);
        let (here, there) = (ranks[left][stage as int], ranks[right][stage as int]);
        law_coordination_is_unanimous(failed, here.failures, left, right);
        law_coordination_is_unanimous(failed, there.failures, left, right);
        assert(failed[left] == !here.succeeded);
        assert(failed[right] == !there.succeeded);
        law_ranks_stop_together(ranks, stages, stage + 1, left, right);
    }
}

impl TensorParallelError {
    /// What the error says.
    pub open spec fn text(self) -> Seq<char> {
        match self {
            TensorParallelError::EmptyWorld => "tensor_parallel world_size must be >= 1"@,
            TensorParallelError::RankOutsideWorld { rank, world_size } => "tensor_parallel rank "@ + crate::text::decimal_text(rank as nat) + " is outside world_size "@ + crate::text::decimal_text(world_size as nat),
            TensorParallelError::UnevenAxis { label, len, world_size } => "tensor_parallel axis "@ + label@ + " of length "@ + crate::text::decimal_text(len as nat) + " is not divisible by world_size "@ + crate::text::decimal_text(world_size as nat),
        }
    }

    /// What the error says.
    pub fn message(&self) -> (text: String)
        ensures
            text@ == self.text(),
    {
        match self {
            TensorParallelError::EmptyWorld => String::from_str("tensor_parallel world_size must be >= 1"),
            TensorParallelError::RankOutsideWorld { rank, world_size } => {
                let mut text = String::from_str("tensor_parallel rank ");
                text.append(&decimal(*rank as u64));
                text.append(" is outside world_size ");
                text.append(&decimal(*world_size as u64));
                text
            },
            TensorParallelError::UnevenAxis { label, len, world_size } => {
                let mut text = String::from_str("tensor_parallel axis ");
                text.append(label);
                text.append(" of length ");
                text.append(&decimal(*len as u64));
                text.append(" is not divisible by world_size ");
                text.append(&decimal(*world_size as u64));
                text
            },
        }
    }
}

/// What each error says, word for word.
pub proof fn law_words_of_tensor_parallel_error(error: TensorParallelError)
    ensures
        error == TensorParallelError::EmptyWorld ==> error.text() == ("tensor_parallel world_size must be >= 1"@),
        error matches TensorParallelError::RankOutsideWorld { rank, world_size } ==> error.text() == ("tensor_parallel rank "@ + crate::text::decimal_text(rank as nat) + " is outside world_size "@ + crate::text::decimal_text(world_size as nat)),
        error matches TensorParallelError::UnevenAxis { label, len, world_size } ==> error.text() == ("tensor_parallel axis "@ + label@ + " of length "@ + crate::text::decimal_text(len as nat) + " is not divisible by world_size "@ + crate::text::decimal_text(world_size as nat)),
{
}

} // verus!
