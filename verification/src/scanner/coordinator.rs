//! The coordinator of a scan: which target is probed next, how many probes
//! run at once, and where the records go.

use crate::error::{OllamaError, OllamaErrorView};
use crate::scanner::outcome::{outcome_views, ProbeOutcome, ProbeOutcomeView};
use crate::scanner::simple_scan::{classified, SimpleScanner};
use crate::storage::models::{
    record_views, target_views, OllamaService, OllamaServiceView, Target, TargetView, Timestamp,
};
use vstd::prelude::*;
use vstd::string::*;

verus! {

/// The number of probes that a scan runs at once unless it is told otherwise.
pub const DEFAULT_CONCURRENCY: usize = 10;

/// Where a target stands in a scan.
#[derive(Clone, Copy, Debug, PartialEq, Eq, Structural)]
pub enum TargetState {
    Queued,
    Probing,
    Classified,
}

/// Whether no index stands twice in `order`.
pub open spec fn distinct(order: Seq<usize>) -> bool {
    forall|j: int, k: int| 0 <= j < k < order.len() ==> order[j] != order[k]
}

/// Whether every index in `order` is below `bound`.
pub open spec fn below(order: Seq<usize>, bound: nat) -> bool {
    forall|k: int| 0 <= k < order.len() ==> (#[trigger] order[k]) < bound
}

/// The number of indices below `upto` that do not stand in `order`.
pub open spec fn absent_below(order: Seq<usize>, upto: nat) -> nat
    decreases upto,
{
    if upto == 0 {
        0
    } else if order.contains((upto - 1) as usize) {
        absent_below(order, (upto - 1) as nat)
    } else {
        absent_below(order, (upto - 1) as nat) + 1
    }
}

/// Two sequences that hold the same indices below `upto` leave out as many
/// of them.
proof fn lemma_absent_below_by_content(first: Seq<usize>, second: Seq<usize>, upto: nat)
    requires
        upto <= usize::MAX,
        forall|i: usize| i < upto ==> (first.contains(i) <==> second.contains(i)),
    ensures
        absent_below(first, upto) == absent_below(second, upto),
    decreases upto,
{
    if upto > 0 {
        lemma_absent_below_by_content(first, second, (upto - 1) as nat);
    }
}

/// Of the indices below a bound, those that stand in a sequence of distinct
/// indices below it and those that do not are together as many as the bound.
pub proof fn lemma_absent_and_present(order: Seq<usize>, bound: nat)
    requires
        bound <= usize::MAX,
        distinct(order),
        below(order, bound),
    ensures
        absent_below(order, bound) + order.len() == bound,
    decreases bound,
{
    if bound == 0 {
        if order.len() > 0 {
            assert(order[0] < bound);
        }
    } else {
        let last = (bound - 1) as usize;
        if order.contains(last) {
            let p = choose|p: int| 0 <= p < order.len() && order[p] == last;
            let rest = order.remove(p);
            assert forall|k: int| 0 <= k < rest.len() implies (#[trigger] rest[k]) < bound - 1 by {
                if k < p {
                    assert(rest[k] == order[k]);
                    assert(order[k] < bound);
                } else {
                    assert(rest[k] == order[k + 1]);
                    assert(order[k + 1] < bound);
                }
            }
            assert(distinct(rest));
            assert forall|i: usize| i < bound - 1 implies (order.contains(i) <==> rest.contains(
                i,
            )) by {
                if order.contains(i) {
                    let k = choose|k: int| 0 <= k < order.len() && order[k] == i;
                    if k < p {
                        assert(rest[k] == i);
                    } else {
                        assert(rest[k - 1] == i);
                    }
                }
                if rest.contains(i) {
                    let k = choose|k: int| 0 <= k < rest.len() && rest[k] == i;
                    if k < p {
                        assert(order[k] == i);
                    } else {
                        assert(order[k + 1] == i);
                    }
                }
            }
            lemma_absent_below_by_content(order, rest, (bound - 1) as nat);
            lemma_absent_and_present(rest, (bound - 1) as nat);
        } else {
            assert forall|k: int| 0 <= k < order.len() implies (#[trigger] order[k]) < bound
                - 1 by {
                assert(order[k] < bound);
                assert(order.contains(order[k]));
            }
            lemma_absent_and_present(order, (bound - 1) as nat);
        }
    }
}

/// Distinct indices below a bound that leave one index out are fewer than
/// the bound.
pub proof fn lemma_distinct_below_missing(order: Seq<usize>, bound: nat, missing: usize)
    requires
        bound <= usize::MAX,
        distinct(order),
        below(order, bound),
        missing < bound,
        !order.contains(missing),
    ensures
        order.len() < bound,
{
    let more = order.push(missing);
    assert forall|j: int, k: int| 0 <= j < k < more.len() implies more[j] != more[k] by {
        if k == order.len() {
            assert(order.contains(order[j]));
        }
    }
    lemma_absent_and_present(more, bound);
}

/// Distinct indices below a bound that are as many as the bound are all of
/// the indices below it.
pub proof fn lemma_distinct_below_full(order: Seq<usize>, bound: nat, index: usize)
    requires
        bound <= usize::MAX,
        distinct(order),
        below(order, bound),
        order.len() == bound,
        index < bound,
    ensures
        order.contains(index),
{
    if !order.contains(index) {
        lemma_distinct_below_missing(order, bound, index);
    }
}

/// A sequence of records holds one record for each of `targets`: the record
/// at `k` is that of the target at `order[k]`, and `order` names every target
/// once.
pub open spec fn one_record_per_target(
    records: Seq<OllamaServiceView>,
    targets: Seq<TargetView>,
    order: Seq<usize>,
) -> bool {
    &&& records.len() == targets.len()
    &&& order.len() == targets.len()
    &&& distinct(order)
    &&& forall|i: usize| i < targets.len() ==> order.contains(i)
    &&& forall|k: int|
        0 <= k < records.len() ==> order[k] < targets.len() && (#[trigger] records[k]).target
            == targets[order[k] as int]
}

/// Whether each of `records` is the verdict on the outcome of its target:
/// the record at `k` classifies the target at `order[k]` by the outcome at
/// `order[k]`.
pub open spec fn records_of_outcomes(
    records: Seq<OllamaServiceView>,
    targets: Seq<TargetView>,
    outcomes: Seq<ProbeOutcomeView>,
    order: Seq<usize>,
    now: Timestamp,
) -> bool {
    &&& records.len() == order.len()
    &&& forall|k: int|
        0 <= k < records.len() ==> order[k] < targets.len() && order[k] < outcomes.len() && (
        #[trigger] records[k]) == classified(
            targets[order[k] as int],
            outcomes[order[k] as int],
            now,
        )
}

/// Whether `records` are what a whole scan of `targets` hands out, where the
/// probe of the target at `i` came to the outcome at `i`: for some order in
/// which the probes ended, there is one record for each target, and it is the
/// verdict on that target's outcome.
pub open spec fn is_scan_result(
    records: Seq<OllamaServiceView>,
    targets: Seq<TargetView>,
    outcomes: Seq<ProbeOutcomeView>,
    now: Timestamp,
) -> bool {
    exists|order: Seq<usize>|
        one_record_per_target(records, targets, order) && records_of_outcomes(
            records,
            targets,
            outcomes,
            order,
            now,
        )
}

/// Whatever the order in which the probes ended, a whole scan hands out the
/// same records: as many as there are targets, and for each target its one
/// verdict.
pub proof fn lemma_completion_order_does_not_matter(
    first: Seq<OllamaServiceView>,
    second: Seq<OllamaServiceView>,
    targets: Seq<TargetView>,
    outcomes: Seq<ProbeOutcomeView>,
    now: Timestamp,
)
    requires
        is_scan_result(first, targets, outcomes, now),
        is_scan_result(second, targets, outcomes, now),
    ensures
        first.len() == targets.len(),
        second.len() == targets.len(),
        forall|i: usize|
            i < targets.len() ==> first.contains(
                #[trigger] classified(targets[i as int], outcomes[i as int], now),
            ) && second.contains(classified(targets[i as int], outcomes[i as int], now)),
        forall|k: int| 0 <= k < first.len() ==> second.contains(#[trigger] first[k]),
        forall|k: int| 0 <= k < second.len() ==> first.contains(#[trigger] second[k]),
{
    let one = choose|order: Seq<usize>|
        one_record_per_target(first, targets, order) && records_of_outcomes(
            first,
            targets,
            outcomes,
            order,
            now,
        );
    let two = choose|order: Seq<usize>|
        one_record_per_target(second, targets, order) && records_of_outcomes(
            second,
            targets,
            outcomes,
            order,
            now,
        );
    assert forall|i: usize| i < targets.len() implies first.contains(
        #[trigger] classified(targets[i as int], outcomes[i as int], now),
    ) && second.contains(classified(targets[i as int], outcomes[i as int], now)) by {
        assert(one.contains(i));
        let a = choose|a: int| 0 <= a < one.len() && one[a] == i;
        assert(first[a] == classified(targets[i as int], outcomes[i as int], now));
        assert(two.contains(i));
        let b = choose|b: int| 0 <= b < two.len() && two[b] == i;
        assert(second[b] == classified(targets[i as int], outcomes[i as int], now));
    }
    assert forall|k: int| 0 <= k < first.len() implies second.contains(#[trigger] first[k]) by {
        let i = one[k];
        assert(first[k] == classified(targets[i as int], outcomes[i as int], now));
    }
    assert forall|k: int| 0 <= k < second.len() implies first.contains(#[trigger] second[k]) by {
        let i = two[k];
        assert(second[k] == classified(targets[i as int], outcomes[i as int], now));
    }
}

/// A scan in progress. Targets are launched in the order given, never more
/// at once than the limit allows; each launched target is classified once,
/// in whatever order the probes end.
pub struct ScanCoordinator {
    targets: Vec<Target>,
    limit: usize,
    launched: usize,
    done: Vec<bool>,
    order: Vec<usize>,
    records: Vec<OllamaService>,
}

impl ScanCoordinator {
    /// What holds of a scan at every moment.
    #[verifier::type_invariant]
    pub closed spec fn wf(self) -> bool {
        &&& self.limit >= 1
        &&& self.launched <= self.targets.len()
        &&& self.done.len() == self.targets.len()
        &&& self.records.len() == self.order.len()
        &&& self.order.len() <= self.launched
        &&& self.launched - self.order.len() <= self.limit
        &&& distinct(self.order@)
        &&& below(self.order@, self.launched as nat)
        &&& forall|i: int|
            0 <= i < self.done.len() ==> (#[trigger] self.done[i] <==> self.order@.contains(
                i as usize,
            ))
        &&& forall|k: int|
            0 <= k < self.records.len() ==> (#[trigger] self.records[k])@.target
                == self.targets[self.order[k] as int]@ && self.records[k]@.is_consistent()
    }

    /// The targets of the scan, in the order in which they are launched.
    pub closed spec fn targets(self) -> Seq<TargetView> {
        target_views(self.targets@)
    }

    /// The most probes that may run at once.
    pub closed spec fn limit(self) -> nat {
        self.limit as nat
    }

    /// The number of targets launched so far: the targets before this index
    /// have left the queue.
    pub closed spec fn launched(self) -> nat {
        self.launched as nat
    }

    /// The indices of the targets classified so far, in the order in which
    /// their probes ended.
    pub closed spec fn order(self) -> Seq<usize> {
        self.order@
    }

    /// The records made so far: the one at `k` is that of the target at
    /// `order()[k]`.
    pub closed spec fn records(self) -> Seq<OllamaServiceView> {
        record_views(self.records@)
    }

    /// The number of probes that run: the targets launched and not yet
    /// classified.
    pub open spec fn in_flight(self) -> int {
        self.launched() - self.order().len()
    }

    /// Where the target at `index` stands.
    pub open spec fn state(self, index: usize) -> TargetState {
        if index >= self.launched() {
            TargetState::Queued
        } else if self.order().contains(index) {
            TargetState::Classified
        } else {
            TargetState::Probing
        }
    }

    /// The number of targets before `upto` whose probes run.
    pub open spec fn probing_below(self, upto: nat) -> nat
        decreases upto,
    {
        if upto == 0 {
            0
        } else if self.state((upto - 1) as usize) == TargetState::Probing {
            self.probing_below((upto - 1) as nat) + 1
        } else {
            self.probing_below((upto - 1) as nat)
        }
    }

    /// Whether every target is classified.
    pub open spec fn finished(self) -> bool {
        self.order().len() == self.targets().len()
    }

    /// Whether a probe may start: a target is queued and a place is free.
    pub open spec fn can_launch(self) -> bool {
        self.launched() < self.targets().len() && self.in_flight() < self.limit()
    }

    /// Whether the scan is at its end: no probe may start and none runs.
    pub open spec fn at_end(self) -> bool {
        !self.can_launch() && self.in_flight() == 0
    }

    /// The number of steps that the scan has yet to take: each target is
    /// launched once and classified once.
    pub open spec fn steps_left(self) -> int {
        2 * self.targets().len() - self.launched() - self.order().len()
    }

    /// At every moment of a scan no more probes run than the limit allows,
    /// the targets launched are those classified and those whose probes run,
    /// and there is one consistent record for each target classified.
    pub proof fn lemma_scan_is_bounded(self)
        requires
            self.wf(),
        ensures
            0 <= self.in_flight() <= self.limit(),
            self.in_flight() + self.order().len() == self.launched(),
            self.launched() <= self.targets().len(),
            self.records().len() == self.order().len(),
            distinct(self.order()),
            forall|k: int|
                0 <= k < self.records().len() ==> self.order()[k] < self.launched() && (
                #[trigger] self.records()[k]).target == self.targets()[self.order()[k] as int]
                    && self.records()[k].is_consistent(),
    {
        assert forall|k: int| 0 <= k < self.records().len() implies self.order()[k]
            < self.launched() && (#[trigger] self.records()[k]).target
            == self.targets()[self.order()[k] as int] && self.records()[k].is_consistent() by {
            assert(self.order@[k] < self.launched);
            assert(self.records[k]@.is_consistent());
        }
    }

    /// The targets before `upto` whose probes run are those launched among
    /// them that are not yet classified.
    proof fn lemma_probing_is_launched_and_absent(self, upto: nat)
        requires
            upto <= usize::MAX,
        ensures
            self.probing_below(upto) == absent_below(
                self.order(),
                if upto <= self.launched() {
                    upto
                } else {
                    self.launched()
                },
            ),
        decreases upto,
    {
        if upto > 0 {
            self.lemma_probing_is_launched_and_absent((upto - 1) as nat);
        }
    }

    /// At every moment of a scan the targets in state `Probing` are as many
    /// as the probes counted as running, and so never more than the limit.
    pub proof fn lemma_probing_targets_are_in_flight(self)
        requires
            self.wf(),
        ensures
            self.probing_below(self.targets().len()) == self.in_flight(),
            self.probing_below(self.targets().len()) <= self.limit(),
    {
        self.lemma_probing_is_launched_and_absent(self.targets().len());
        lemma_absent_and_present(self.order@, self.launched as nat);
    }

    /// Where one of the targets before `upto` is in state `Probing`, there is
    /// such a target.
    proof fn lemma_probing_below_has_one(self, upto: nat)
        requires
            upto <= usize::MAX,
            self.probing_below(upto) > 0,
        ensures
            exists|i: usize| i < upto && self.state(i) == TargetState::Probing,
        decreases upto,
    {
        if upto > 0 {
            let last = (upto - 1) as usize;
            if self.state(last) == TargetState::Probing {
                assert(last < upto && self.state(last) == TargetState::Probing);
            } else {
                self.lemma_probing_below_has_one((upto - 1) as nat);
                let i = choose|i: usize| i < upto - 1 && self.state(i) == TargetState::Probing;
                assert(i < upto && self.state(i) == TargetState::Probing);
            }
        }
    }

    /// A scan that is not finished can take a step: a probe may start, or a
    /// probe runs and can end. So no scan comes to a halt before every target
    /// is classified.
    pub proof fn lemma_unfinished_scan_can_step(self)
        requires
            self.wf(),
            !self.finished(),
        ensures
            self.can_launch() || self.in_flight() > 0,
            self.in_flight() > 0 ==> exists|i: usize|
                i < self.targets().len() && self.state(i) == TargetState::Probing,
    {
        self.lemma_scan_is_bounded();
        if self.in_flight() > 0 {
            self.lemma_probing_targets_are_in_flight();
            self.lemma_probing_below_has_one(self.targets().len());
        }
    }

    /// Every step uses up one of the steps left, of which there are never
    /// fewer than none; none is left exactly when the scan is finished, and
    /// that is exactly when it is at its end. So every run of a scan that
    /// goes on while it can ends after twice as many steps as there are
    /// targets, with every target classified.
    pub proof fn lemma_scan_run_to_its_end_is_finished(self)
        requires
            self.wf(),
        ensures
            self.steps_left() >= 0,
            self.steps_left() == 0 <==> self.finished(),
            self.at_end() <==> self.finished(),
    {
        self.lemma_scan_is_bounded();
    }

    /// A scan whose targets are all classified holds one record for each of
    /// its targets, in whatever order the probes ended.
    pub proof fn lemma_finished_scan_is_complete(self)
        requires
            self.wf(),
            self.finished(),
        ensures
            one_record_per_target(self.records(), self.targets(), self.order()),
            self.in_flight() == 0,
            forall|i: usize|
                i < self.targets().len() ==> self.state(i) == TargetState::Classified,
    {
        self.lemma_scan_is_bounded();
        assert forall|i: usize| i < self.targets().len() implies self.order().contains(i) by {
            lemma_distinct_below_full(self.order@, self.launched as nat, i);
        }
    }

    /// A scan of `targets` with at most `limit` probes at once. A limit of 0
    /// would never let a probe start, and is refused.
    pub fn new(targets: Vec<Target>, limit: usize) -> (made: Result<ScanCoordinator, OllamaError>)
        ensures
            limit == 0 ==> made is Err && made->Err_0@ == OllamaErrorView::InvalidInput(
                "concurrency limit must be positive"@,
            ),
            limit > 0 ==> made is Ok && made->Ok_0.wf() && made->Ok_0.targets() == target_views(
                targets@,
            ) && made->Ok_0.limit() == limit && made->Ok_0.launched() == 0
                && made->Ok_0.order().len() == 0 && made->Ok_0.records().len() == 0,
    {
        if limit == 0 {
            return Err(
                OllamaError::InvalidInput(String::from_str("concurrency limit must be positive")),
            );
        }
        let mut done: Vec<bool> = Vec::new();
        let mut i: usize = 0;
        while i < targets.len()
            invariant
                i <= targets.len(),
                done.len() == i,
                forall|k: int| 0 <= k < i ==> !(#[trigger] done[k]),
            decreases targets.len() - i,
        {
            done.push(false);
            i += 1;
        }
        let scan = ScanCoordinator {
            targets,
            limit,
            launched: 0,
            done,
            order: Vec::new(),
            records: Vec::new(),
        };
        Ok(scan)
    }

    /// The number of targets.
    pub fn total(&self) -> (n: usize)
        ensures
            n == self.targets().len(),
    {
        self.targets.len()
    }

    /// The number of targets classified so far.
    pub fn processed(&self) -> (n: usize)
        ensures
            n == self.order().len(),
            n <= self.targets().len(),
    {
        proof {
            use_type_invariant(self);
        }
        self.order.len()
    }

    /// The number of probes that run. It never exceeds the limit.
    pub fn probing(&self) -> (n: usize)
        ensures
            n == self.in_flight(),
            n <= self.limit(),
    {
        proof {
            use_type_invariant(self);
        }
        self.launched - self.order.len()
    }

    /// Whether every target is classified.
    pub fn is_finished(&self) -> (finished: bool)
        ensures
            finished == self.finished(),
    {
        self.order.len() == self.targets.len()
    }

    /// Launches the next queued target, if there is one and a probe may
    /// start: hands out its index and a copy of it, and counts its probe as
    /// running. Otherwise the scan stays as it is.
    pub fn launch(self) -> (step: (ScanCoordinator, Option<(usize, Target)>))
        ensures
            step.0.wf(),
            step.0.targets() == self.targets(),
            step.0.limit() == self.limit(),
            step.0.order() == self.order(),
            step.0.records() == self.records(),
            step.0.in_flight() <= step.0.limit(),
            step.1 is Some <==> self.launched() < self.targets().len() && self.in_flight()
                < self.limit(),
            match step.1 {
                Some((index, target)) => index == self.launched() && target@
                    == self.targets()[index as int] && step.0.launched() == self.launched() + 1
                    && self.state(index) == TargetState::Queued && step.0.state(index)
                    == TargetState::Probing,
                None => step.0.launched() == self.launched(),
            },
            step.1 is Some <==> self.can_launch(),
            step.1 is Some ==> step.0.steps_left() == self.steps_left() - 1,
    {
        proof {
            use_type_invariant(&self);
        }
        if self.launched < self.targets.len() && self.launched - self.order.len() < self.limit {
            let index = self.launched;
            let target = self.targets[index].clone();
            let next = ScanCoordinator {
                targets: self.targets,
                limit: self.limit,
                launched: index + 1,
                done: self.done,
                order: self.order,
                records: self.records,
            };
            (next, Some((index, target)))
        } else {
            (self, None)
        }
    }

    /// Takes in the outcome of the probe of the target at `index`: where that
    /// probe runs, classifies the target, keeps its record and frees the
    /// probe's place. For any other index the scan stays as it is.
    pub fn complete(self, index: usize, outcome: ProbeOutcome, now: Timestamp) -> (step: (
        ScanCoordinator,
        bool,
    ))
        ensures
            step.0.wf(),
            step.0.targets() == self.targets(),
            step.0.limit() == self.limit(),
            step.0.launched() == self.launched(),
            step.0.in_flight() <= step.0.limit(),
            step.1 == (self.state(index) == TargetState::Probing),
            step.1 ==> step.0.order() == self.order().push(index) && step.0.records()
                == self.records().push(classified(self.targets()[index as int], outcome@, now)),
            step.1 ==> step.0.state(index) == TargetState::Classified,
            step.1 ==> step.0.steps_left() == self.steps_left() - 1,
            !step.1 ==> step.0.order() == self.order() && step.0.records() == self.records(),
    {
        proof {
            use_type_invariant(&self);
        }
        if index >= self.launched || self.done[index] {
            return (self, false);
        }
        proof {
            lemma_distinct_below_missing(self.order@, self.launched as nat, index);
        }
        let record = SimpleScanner::classify(self.targets[index].clone(), outcome, now);
        let mut done = self.done;
        let mut order = self.order;
        let mut records = self.records;
        done.set(index, true);
        order.push(index);
        records.push(record);
        proof {
            assert(record_views(records@) =~= record_views(self.records@).push(record@));
            assert forall|i: int| 0 <= i < done.len() implies (#[trigger] done[i]
                <==> order@.contains(i as usize)) by {
                if i == index {
                    assert(order@[self.order@.len() as int] == index);
                } else {
                    if self.order@.contains(i as usize) {
                        let k = choose|k: int|
                            0 <= k < self.order@.len() && self.order@[k] == i as usize;
                        assert(order@[k] == i as usize);
                    }
                }
            }
        }
        assert(order@[self.order@.len() as int] == index);
        let next = ScanCoordinator {
            targets: self.targets,
            limit: self.limit,
            launched: self.launched,
            done,
            order,
            records,
        };
        (next, true)
    }

    /// Ends the scan and hands out the records made, in the order in which
    /// the probes ended.
    pub fn into_services(self) -> (services: Vec<OllamaService>)
        ensures
            record_views(services@) == self.records(),
            services.len() == self.order().len(),
            self.finished() ==> one_record_per_target(
                record_views(services@),
                self.targets(),
                self.order(),
            ),
    {
        proof {
            use_type_invariant(&self);
            if self.finished() {
                self.lemma_finished_scan_is_complete();
            }
        }
        self.records
    }
}

impl SimpleScanner {
    /// Runs a whole scan of `targets` on outcomes that are known: the probe of
    /// the target at `i` came to the outcome at `i`. Never more than `limit`
    /// probes run at once, and `turns` says which of the running probes ends
    /// whenever none may start, so that the probes may end in any order.
    /// Whatever the order, there is one record for each target, and it is the
    /// verdict on that target's outcome. A limit of 0 is refused, and so are
    /// outcomes that are not as many as the targets.
    pub fn scan_services(
        targets: Vec<Target>,
        outcomes: &Vec<ProbeOutcome>,
        limit: usize,
        turns: &Vec<usize>,
        now: Timestamp,
    ) -> (scanned: Result<Vec<OllamaService>, OllamaError>)
        ensures
            limit == 0 ==> scanned is Err && scanned->Err_0@ == OllamaErrorView::InvalidInput(
                "concurrency limit must be positive"@,
            ),
            limit > 0 && outcomes.len() != targets.len() ==> scanned is Err && scanned->Err_0@
                == OllamaErrorView::InvalidInput("one outcome for each target is needed"@),
            limit > 0 && outcomes.len() == targets.len() ==> scanned is Ok
                && scanned->Ok_0.len() == targets.len() && is_scan_result(
                record_views(scanned->Ok_0@),
                target_views(targets@),
                outcome_views(outcomes@),
                now,
            ),
    {
        let ghost all = target_views(targets@);
        let ghost came = outcome_views(outcomes@);
        let total = targets.len();
        let mut scan = match ScanCoordinator::new(targets, limit) {
            Ok(scan) => scan,
            Err(error) => {
                return Err(error);
            },
        };
        if outcomes.len() != total {
            return Err(
                OllamaError::InvalidInput(
                    String::from_str("one outcome for each target is needed"),
                ),
            );
        }
        let mut running: Vec<usize> = Vec::new();
        while !scan.is_finished()
            invariant
                scan.wf(),
                scan.targets() == all,
                scan.limit() == limit,
                came == outcome_views(outcomes@),
                came.len() == all.len(),
                records_of_outcomes(scan.records(), all, came, scan.order(), now),
                running.len() == scan.in_flight(),
                distinct(running@),
                forall|j: int|
                    0 <= j < running.len() ==> scan.state(#[trigger] running[j])
                        == TargetState::Probing,
            decreases scan.steps_left(),
        {
            proof {
                scan.lemma_scan_is_bounded();
                scan.lemma_unfinished_scan_can_step();
            }
            let ghost before = scan;
            let ghost ran = running@;
            let (next, launched) = scan.launch();
            scan = next;
            match launched {
                Some((index, _)) => {
                    running.push(index);
                    assert forall|j: int| 0 <= j < running.len() implies scan.state(
                        #[trigger] running[j],
                    ) == TargetState::Probing by {
                        if j < ran.len() {
                            assert(before.state(ran[j]) == TargetState::Probing);
                        }
                    }
                    assert forall|j: int, k: int| 0 <= j < k < running.len() implies running[j]
                        != running[k] by {
                        assert(before.state(ran[j]) == TargetState::Probing);
                    }
                },
                None => {
                    let turn = if turns.len() == 0 {
                        0
                    } else {
                        turns[scan.processed() % turns.len()]
                    };
                    let pick = turn % running.len();
                    let index = running.remove(pick);
                    assert(before.state(index) == TargetState::Probing);
                    assert(index < came.len());
                    let outcome = outcomes[index].clone();
                    let ghost halfway = scan;
                    let (next, taken) = scan.complete(index, outcome, now);
                    scan = next;
                    assert(taken);
                    assert forall|j: int| 0 <= j < running.len() implies scan.state(
                        #[trigger] running[j],
                    ) == TargetState::Probing by {
                        let at = if j < pick {
                            j
                        } else {
                            j + 1
                        };
                        assert(running[j] == ran[at]);
                        assert(before.state(ran[at]) == TargetState::Probing);
                        assert(ran[at] != index);
                        if scan.order().contains(running[j]) {
                            let k = choose|k: int|
                                0 <= k < scan.order().len() && scan.order()[k] == running[j];
                            if k < halfway.order().len() {
                                assert(halfway.order()[k] == running[j]);
                                assert(halfway.order().contains(running[j]));
                            }
                        }
                    }
                    assert(distinct(running@));
                    assert(came[index as int] == outcomes[index as int]@);
                },
            }
        }
        proof {
            scan.lemma_finished_scan_is_complete();
        }
        let ghost order = scan.order();
        let records = scan.into_services();
        proof {
            assert(one_record_per_target(record_views(records@), all, order));
            assert(records_of_outcomes(record_views(records@), all, came, order, now));
            assert(record_views(records@).len() == records.len());
        }
        Ok(records)
    }
}

} // verus!
