//! Batched dispatch of the uploads: fixed-size groups, run strictly one
//! group after another.
//!
//! The asset list is partitioned into consecutive groups of at most the
//! batch size, preserving order. The surrounding program runs one group's
//! uploads concurrently and reports every task's outcome before it may
//! obtain the next group; the state here enforces that discipline and
//! collects exactly one outcome per asset, whatever mix of successes and
//! failures the groups produce.

use vstd::prelude::*;
use vstd::arithmetic::div_mod::{
    lemma_fundamental_div_mod, lemma_fundamental_div_mod_converse, lemma_mod_pos_bound,
};
use crate::asset::Image;
use crate::numeric::{char_digit_val, decimal_val, is_decimal_string, is_digit_char,
    lemma_decimal_val_prefix};

verus! {

/// Why one asset's migration failed. A failure is isolated to its asset:
/// it is reported and the run continues.
#[derive(Clone, Copy, Debug, PartialEq, Eq, Structural)]
pub enum UploadFailure {
    /// The asset's bytes could not be downloaded.
    Download,
    /// The upload request failed or its response was malformed.
    Submission,
}

/// The completion signal for one asset: success, or the failure cause.
#[derive(Clone, Copy, Debug, PartialEq, Eq, Structural)]
pub enum BatchResult {
    Success,
    Failure(UploadFailure),
}

impl BatchResult {
    /// A short diagnostic label for reporting.
    pub fn describe(&self) -> (r: &'static str)
        ensures
            *self is Success ==> r@ == "upload successful"@,
            *self == BatchResult::Failure(UploadFailure::Download) ==> r@
                == "download failed"@,
            *self == BatchResult::Failure(UploadFailure::Submission) ==> r@
                == "upload submission failed"@,
    {
        match self {
            BatchResult::Success => "upload successful",
            BatchResult::Failure(UploadFailure::Download) => "download failed",
            BatchResult::Failure(UploadFailure::Submission) => "upload submission failed",
        }
    }
}

/// How many groups batching `n` assets by `b` yields.
pub open spec fn num_groups(n: nat, b: nat) -> nat
    decreases n
        when b >= 1
{
    if n == 0 {
        0
    } else if n <= b {
        1
    } else {
        1 + num_groups((n - b) as nat, b)
    }
}

/// The partition of `s` into consecutive groups of at most `b` elements,
/// in order: all groups are full except possibly the last.
pub open spec fn spec_partition(s: Seq<Image>, b: nat) -> Seq<Seq<Image>>
    decreases s.len()
        when b >= 1
{
    if s.len() == 0 {
        Seq::empty()
    } else if s.len() <= b {
        seq![s]
    } else {
        seq![s.take(b as int)] + spec_partition(s.skip(b as int), b)
    }
}

/// The total number of elements across a sequence of groups.
pub open spec fn flat_len(gs: Seq<Seq<Image>>) -> nat
    decreases gs.len(),
{
    if gs.len() == 0 {
        0
    } else {
        flat_len(gs.drop_last()) + gs.last().len()
    }
}

pub proof fn lemma_flat_len_take_step(gs: Seq<Seq<Image>>, i: int)
    requires
        0 <= i < gs.len(),
    ensures
        flat_len(gs.take(i + 1)) == flat_len(gs.take(i)) + gs[i].len(),
{
    assert(gs.take(i + 1).drop_last() =~= gs.take(i));
    assert(gs.take(i + 1).last() == gs[i]);
}

/// The number of groups is `num_groups`, and the groups cover the whole
/// sequence: batching loses nothing and invents nothing.
pub proof fn lemma_partition_count(s: Seq<Image>, b: nat)
    requires
        b >= 1,
    ensures
        spec_partition(s, b).len() == num_groups(s.len(), b),
        flat_len(spec_partition(s, b)) == s.len(),
    decreases s.len(),
{
    if s.len() == 0 {
    } else if s.len() <= b {
        assert(spec_partition(s, b) =~= seq![s]);
        assert(spec_partition(s, b).drop_last() =~= Seq::<Seq<Image>>::empty());
        assert(flat_len(Seq::<Seq<Image>>::empty()) == 0);
    } else {
        let rest = s.skip(b as int);
        lemma_partition_count(rest, b);
        let p = spec_partition(s, b);
        let pr = spec_partition(rest, b);
        assert(p =~= seq![s.take(b as int)] + pr);
        assert(flat_len(p) == flat_len(pr) + b) by {
            lemma_flat_len_prepend(s.take(b as int), pr);
        }
    }
}

proof fn lemma_flat_len_prepend(g: Seq<Image>, gs: Seq<Seq<Image>>)
    ensures
        flat_len(seq![g] + gs) == g.len() + flat_len(gs),
    decreases gs.len(),
{
    if gs.len() == 0 {
        assert(seq![g] + gs =~= seq![g]);
        assert((seq![g]).drop_last() =~= Seq::<Seq<Image>>::empty());
        assert(flat_len(Seq::<Seq<Image>>::empty()) == 0);
    } else {
        let whole = seq![g] + gs;
        assert(whole.len() == gs.len() + 1);
        assert(whole.drop_last() =~= seq![g] + gs.drop_last());
        assert(whole.last() == gs.last());
        lemma_flat_len_prepend(g, gs.drop_last());
        assert(flat_len(whole) == flat_len(whole.drop_last()) + whole.last().len());
        assert(flat_len(gs) == flat_len(gs.drop_last()) + gs.last().len());
    }
}

/// Batching completeness: batching `n` assets by `b` yields exactly
/// `ceil(n / b)` groups, and the groups hold `n` elements in all.
pub proof fn lemma_batching_complete(s: Seq<Image>, b: nat)
    requires
        b >= 1,
    ensures
        spec_partition(s, b).len() == (s.len() + b - 1) / (b as int),
        flat_len(spec_partition(s, b)) == s.len(),
{
    lemma_partition_count(s, b);
    lemma_num_groups_ceil(s.len(), b);
}

pub proof fn lemma_num_groups_ceil(n: nat, b: nat)
    requires
        b >= 1,
    ensures
        num_groups(n, b) == (n + b - 1) / (b as int),
    decreases n,
{
    if n == 0 {
        lemma_fundamental_div_mod_converse(b - 1, b as int, 0, b - 1);
    } else if n <= b {
        lemma_fundamental_div_mod_converse(n + b - 1, b as int, 1, n - 1);
    } else {
        lemma_num_groups_ceil((n - b) as nat, b);
        let x = n - 1;
        let d = b as int;
        lemma_fundamental_div_mod(x, d);
        lemma_mod_pos_bound(x, d);
        let q = x / d;
        let r = x % d;
        assert(x == d * q + r);
        assert((q + 1) * d == q * d + d && d * q == q * d) by (nonlinear_arith);
        assert(n + b - 1 == (q + 1) * d + r);
        lemma_fundamental_div_mod_converse(n + b - 1, d, q + 1, r);
    }
}

/// Order preservation: the groups, concatenated in their order, are
/// exactly the original sequence. Every element of group `i` precedes
/// every element of group `i + 1` in the original list.
pub proof fn lemma_partition_flatten(s: Seq<Image>, b: nat)
    requires
        b >= 1,
    ensures
        spec_partition(s, b).flatten() == s,
    decreases s.len(),
{
    reveal_with_fuel(Seq::<_>::flatten, 2);
    if s.len() == 0 {
        assert(spec_partition(s, b).flatten() =~= s);
    } else if s.len() <= b {
        let p = spec_partition(s, b);
        assert(p.drop_first() =~= Seq::<Seq<Image>>::empty());
        assert(p.flatten() =~= s);
    } else {
        let rest = s.skip(b as int);
        lemma_partition_flatten(rest, b);
        let p = spec_partition(s, b);
        assert(p.first() == s.take(b as int));
        assert(p.drop_first() =~= spec_partition(rest, b));
        assert(p.flatten() =~= s.take(b as int) + rest);
        assert(s.take(b as int) + rest =~= s);
    }
}

/// Group sizes: every group holds at most `b` elements, every group but
/// the last holds exactly `b`, and no group is empty.
pub proof fn lemma_partition_sizes(s: Seq<Image>, b: nat)
    requires
        b >= 1,
    ensures
        forall|i: int|
            0 <= i < spec_partition(s, b).len() - 1 ==> #[trigger] spec_partition(s, b)[i].len()
                == b,
        forall|i: int|
            0 <= i < spec_partition(s, b).len() ==> 1 <= #[trigger] spec_partition(s, b)[i].len()
                <= b,
    decreases s.len(),
{
    if s.len() == 0 {
    } else if s.len() <= b {
    } else {
        let rest = s.skip(b as int);
        lemma_partition_sizes(rest, b);
        let p = spec_partition(s, b);
        let pr = spec_partition(rest, b);
        assert(rest.len() > 0);
        assert(pr.len() > 0);
        assert forall|i: int| 0 <= i < p.len() - 1 implies #[trigger] p[i].len() == b by {
            if i > 0 {
                assert(p[i] == pr[i - 1]);
            }
        }
        assert forall|i: int| 0 <= i < p.len() implies 1 <= #[trigger] p[i].len() <= b by {
            if i > 0 {
                assert(p[i] == pr[i - 1]);
            }
        }
    }
}

/// An empty asset list batches to no groups at all.
pub proof fn lemma_partition_empty(b: nat)
    requires
        b >= 1,
    ensures
        spec_partition(Seq::empty(), b) == Seq::<Seq<Image>>::empty(),
{
}

/// Reads the configured batch size: a decimal string denoting a positive
/// value that fits the machine. An empty or non-numeric string, a zero, or
/// an overflowing value are each a fatal configuration error, reported as
/// `None` before any network activity.
pub fn parse_batch_size(s: &str) -> (r: Option<usize>)
    ensures
        r is Some <==> is_decimal_string(s@) && 1 <= decimal_val(s@) <= usize::MAX,
        r is Some ==> r == Some(decimal_val(s@) as usize),
{
    let n = s.unicode_len();
    if n == 0 {
        return None;
    }
    let mut i: usize = 0;
    let mut acc: usize = 0;
    while i < n
        invariant
            i <= n,
            n == s@.len(),
            forall|j: int| 0 <= j < i ==> is_digit_char(#[trigger] s@[j]),
            acc == decimal_val(s@.take(i as int)),
        decreases n - i,
    {
        let c = s.get_char(i);
        let code = c as u32;
        if code < 48 || code > 57 {
            return None;
        }
        let d = (code - 48) as usize;
        if acc > (usize::MAX - d) / 10 {
            proof {
                let m = usize::MAX as int;
                lemma_fundamental_div_mod(m - d, 10);
                lemma_mod_pos_bound(m - d, 10);
                let q = (m - d) / 10;
                assert(acc >= q + 1);
                assert(10 * acc + d > m);
                let next = s@.take(i + 1);
                assert(next.drop_last() =~= s@.take(i as int));
                assert(next.last() == s@[i as int]);
                assert(decimal_val(next) == acc * 10 + char_digit_val(s@[i as int]));
                assert(decimal_val(next) > usize::MAX);
                lemma_decimal_val_prefix(s@, i + 1);
            }
            return None;
        }
        acc = acc * 10 + d;
        i = i + 1;
        proof {
            assert(s@.take(i as int).drop_last() =~= s@.take(i - 1));
            assert(s@.take(i as int).last() == s@[i - 1]);
        }
    }
    proof {
        assert(s@.take(n as int) =~= s@);
    }
    if acc == 0 {
        None
    } else {
        Some(acc)
    }
}

/// Partitions the assets into consecutive groups of at most `batch_size`,
/// preserving order.
pub fn partition_batches(assets: Vec<Image>, batch_size: usize) -> (r: Vec<Vec<Image>>)
    requires
        batch_size >= 1,
    ensures
        r@.map_values(|g: Vec<Image>| g@) == spec_partition(assets@, batch_size as nat),
{
    let ghost orig = assets@;
    let ghost b = batch_size as nat;
    let mut rest = assets;
    let mut groups: Vec<Vec<Image>> = Vec::new();
    while rest.len() > 0
        invariant
            batch_size >= 1,
            b == batch_size as nat,
            spec_partition(orig, b) =~= groups@.map_values(|g: Vec<Image>| g@) + spec_partition(
                rest@,
                b,
            ),
        decreases rest@.len(),
    {
        let ghost rest_start = rest@;
        let take = if batch_size < rest.len() {
            batch_size
        } else {
            rest.len()
        };
        let mut group: Vec<Image> = Vec::new();
        let mut j: usize = 0;
        while j < take
            invariant
                j <= take,
                take <= rest_start.len(),
                group@.len() == j,
                group@ =~= rest_start.take(j as int),
                rest@ =~= rest_start.skip(j as int),
            decreases take - j,
        {
            let x = rest.remove(0);
            proof {
                assert(rest_start.skip(j as int)[0] == rest_start[j as int]);
                assert(rest_start.skip(j as int).remove(0) =~= rest_start.skip(j + 1));
                assert(rest_start.take(j as int).push(rest_start[j as int]) =~= rest_start.take(
                    j + 1,
                ));
            }
            group.push(x);
            j = j + 1;
        }
        proof {
            if rest_start.len() <= b {
                assert(rest_start.take(take as int) =~= rest_start);
                assert(rest_start.skip(take as int) =~= Seq::<Image>::empty());
            }
            assert(spec_partition(rest_start, b) =~= seq![group@] + spec_partition(rest@, b));
        }
        let ghost before = groups@;
        groups.push(group);
        proof {
            let f = |g: Vec<Image>| g@;
            assert(groups@.map_values(f) =~= before.map_values(f).push(group@));
            assert(before.map_values(f).push(group@) =~= before.map_values(f) + seq![group@]);
            assert(spec_partition(orig, b) =~= groups@.map_values(f) + spec_partition(rest@, b));
        }
    }
    proof {
        assert(groups@.map_values(|g: Vec<Image>| g@) + spec_partition(rest@, b) =~= groups@
            .map_values(|g: Vec<Image>| g@));
        assert(groups@.map_values(|g: Vec<Image>| g@) =~= spec_partition(orig, b));
    }
    groups
}

/// Drives a migration run: hands out the groups strictly one after another
/// and collects one outcome per asset.
///
/// The caller obtains a group with `next_batch`, runs its uploads, and must
/// record every task's outcome with `record_batch` before the next group
/// can be obtained.
pub struct BatchScheduler {
    pending: Vec<Vec<Image>>,
    in_flight: Option<usize>,
    outcomes: Vec<BatchResult>,
    plan: Ghost<Seq<Seq<Image>>>,
    assets: Ghost<Seq<Image>>,
    batch: Ghost<nat>,
}

impl BatchScheduler {
    /// The full group plan for this run.
    pub closed spec fn spec_plan(self) -> Seq<Seq<Image>> {
        self.plan@
    }

    /// The assets this run was started with.
    pub closed spec fn spec_assets(self) -> Seq<Image> {
        self.assets@
    }

    /// The outcomes recorded so far, one per completed task, in asset order.
    pub closed spec fn spec_outcomes(self) -> Seq<BatchResult> {
        self.outcomes@
    }

    /// Whether a group is currently dispatched and not yet recorded.
    pub closed spec fn spec_in_flight(self) -> bool {
        self.in_flight is Some
    }

    /// How many groups have been handed out, the in-flight one included.
    pub closed spec fn groups_started(self) -> int {
        self.plan@.len() - self.pending@.len()
    }

    /// How many groups have been handed out and fully recorded.
    pub closed spec fn groups_completed(self) -> int {
        if self.in_flight is Some {
            self.groups_started() - 1
        } else {
            self.groups_started()
        }
    }

    /// The scheduler invariant: the plan is the batching of the assets, the
    /// undispatched groups are exactly the plan's tail, and the recorded
    /// outcomes are exactly one per asset of every fully recorded group.
    pub closed spec fn wf(self) -> bool {
        &&& self.batch@ >= 1
        &&& self.plan@ == spec_partition(self.assets@, self.batch@)
        &&& self.pending@.len() <= self.plan@.len()
        &&& self.pending@.map_values(|g: Vec<Image>| g@) == self.plan@.skip(self.groups_started())
        &&& match self.in_flight {
            Some(expected) => {
                &&& self.groups_started() >= 1
                &&& expected == self.plan@[self.groups_started() - 1].len()
            },
            None => true,
        }
        &&& self.outcomes@.len() == flat_len(self.plan@.take(self.groups_completed()))
    }

    /// Starts a run: batches the assets by `batch_size`; nothing is
    /// dispatched and no outcome is recorded yet.
    pub fn new(assets: Vec<Image>, batch_size: usize) -> (r: Self)
        requires
            batch_size >= 1,
        ensures
            r.wf(),
            r.spec_assets() == assets@,
            r.spec_plan() == spec_partition(assets@, batch_size as nat),
            r.spec_outcomes().len() == 0,
            !r.spec_in_flight(),
            r.groups_completed() == 0,
    {
        let ghost a = assets@;
        let pending = partition_batches(assets, batch_size);
        let r = BatchScheduler {
            plan: Ghost(pending@.map_values(|g: Vec<Image>| g@)),
            assets: Ghost(a),
            batch: Ghost(batch_size as nat),
            pending,
            in_flight: None,
            outcomes: Vec::new(),
        };
        proof {
            assert(r.plan@.skip(0) =~= r.plan@);
            assert(r.plan@.take(0) =~= Seq::<Seq<Image>>::empty());
        }
        r
    }

    /// Hands out the next group, or `None` when the run is complete.
    ///
    /// A group is only handed out while no group is in flight, and the
    /// ensures pins the ordering guarantee: at the moment group `i` is
    /// obtained, the recorded outcomes are exactly those of groups `0..i`,
    /// every one of them. When the run is complete, there is exactly one
    /// outcome per asset.
    pub fn next_batch(&mut self) -> (r: Option<Vec<Image>>)
        requires
            old(self).wf(),
            !old(self).spec_in_flight(),
        ensures
            final(self).wf(),
            final(self).spec_assets() == old(self).spec_assets(),
            final(self).spec_plan() == old(self).spec_plan(),
            final(self).spec_outcomes() == old(self).spec_outcomes(),
            match r {
                Some(group) => {
                    &&& 0 <= old(self).groups_completed() < old(self).spec_plan().len()
                    &&& group@ == old(self).spec_plan()[old(self).groups_completed()]
                    &&& old(self).spec_outcomes().len() == flat_len(
                        old(self).spec_plan().take(old(self).groups_completed()),
                    )
                    &&& final(self).spec_in_flight()
                    &&& final(self).groups_completed() == old(self).groups_completed()
                },
                None => {
                    &&& *final(self) == *old(self)
                    &&& old(self).groups_completed() == old(self).spec_plan().len()
                    &&& old(self).spec_outcomes().len() == old(self).spec_assets().len()
                },
            },
    {
        if self.pending.len() == 0 {
            proof {
                let plan = self.plan@;
                assert(plan.take(plan.len() as int) =~= plan);
                lemma_partition_count(self.assets@, self.batch@);
            }
            None
        } else {
            let ghost started = self.groups_started();
            let group = self.pending.remove(0);
            self.in_flight = Some(group.len());
            proof {
                let f = |g: Vec<Image>| g@;
                let plan = self.plan@;
                assert(old(self).pending@.map_values(f)[0] == group@);
                assert(group@ == plan[started]);
                assert(self.pending@.map_values(f) =~= old(self).pending@.map_values(
                    f,
                ).drop_first());
                assert(plan.skip(started).drop_first() =~= plan.skip(started + 1));
            }
            Some(group)
        }
    }

    /// Records the outcome of every task of the group in flight, in task
    /// order, and completes the group.
    ///
    /// Every mix of successes and failures is accepted: one task's failure
    /// never prevents the other outcomes of its group from being recorded.
    pub fn record_batch(&mut self, results: Vec<BatchResult>)
        requires
            old(self).wf(),
            old(self).spec_in_flight(),
            results@.len() == old(self).spec_plan()[old(self).groups_completed()].len(),
        ensures
            final(self).wf(),
            final(self).spec_assets() == old(self).spec_assets(),
            final(self).spec_plan() == old(self).spec_plan(),
            final(self).spec_outcomes() == old(self).spec_outcomes() + results@,
            !final(self).spec_in_flight(),
            final(self).groups_completed() == old(self).groups_completed() + 1,
    {
        let mut results = results;
        self.outcomes.append(&mut results);
        self.in_flight = None;
        proof {
            lemma_flat_len_take_step(self.plan@, old(self).groups_completed());
        }
    }

    /// Whether every group has been handed out and recorded.
    pub fn is_done(&self) -> (r: bool)
        requires
            self.wf(),
        ensures
            r == (self.groups_completed() == self.spec_plan().len() && !self.spec_in_flight()),
    {
        self.pending.len() == 0 && self.in_flight.is_none()
    }

    /// Surrenders the collected outcomes of a completed run: exactly one
    /// per asset, in asset order.
    pub fn into_outcomes(self) -> (r: Vec<BatchResult>)
        requires
            self.wf(),
            self.groups_completed() == self.spec_plan().len(),
            !self.spec_in_flight(),
        ensures
            r@ == self.spec_outcomes(),
            r@.len() == self.spec_assets().len(),
    {
        proof {
            assert(self.plan@.take(self.plan@.len() as int) =~= self.plan@);
            lemma_partition_count(self.assets@, self.batch@);
        }
        let BatchScheduler { outcomes, .. } = self;
        outcomes
    }
}

} // verus!
