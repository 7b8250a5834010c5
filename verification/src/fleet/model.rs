//! The life of one fleet as a state machine, in mathematics: what a run is,
//! what each report of its driver makes of it, what it asks of its driver,
//! and what holds of it throughout.

use crate::fleet::bids::{
    absorbed, admitted, all_called_off, any_open, distinct_groups, live_ids, placed,
    BidDescription, BidOrder, BidRequest, Instance,
};
use crate::fleet::instances::{
    bids_below, count_in_group, distinct_ids, groups_below, quota_met, recorded,
};
use crate::fleet::pace::Pace;
use crate::fleet::plan::{Machine, SshConnection};
use crate::fleet::readiness::{half_described, roster_of, undescribed, InstanceDescription};
use vstd::prelude::*;

verus! {

/// Where a run stands.
#[derive(Clone, Copy, PartialEq, Eq, Debug, Structural)]
pub enum Phase {
    /// The fleet is described; the run has not begun.
    Building,
    /// The bids are being submitted.
    Bidding,
    /// The bids are placed; some are still open.
    AwaitingFulfillment,
    /// Every group has its instances; the bids are being cancelled.
    CancellingBids,
    /// The instances are allocated; some cannot be reached yet.
    AwaitingReadiness,
    /// Every machine can be reached; setup is under way.
    Ready,
    /// The fleet is with its user.
    Running,
    /// Whatever was placed or allocated is being released.
    TearingDown,
    /// Teardown has been tried; the run is over, with or without a failure.
    Done,
    /// The run is over before anything was placed: there was nothing to tear
    /// down.
    Failed,
}

/// How setup went on a machine.
#[derive(Clone, Copy, PartialEq, Eq, Debug, Structural)]
pub enum SetupStatus {
    /// Setup has not been tried.
    Pending,
    Succeeded,
    Failed,
}

/// Why a run did not succeed.
#[derive(Clone, Copy, PartialEq, Eq, Debug, Structural)]
pub enum Failure {
    /// A group could not be bid for.
    AdmissionFailure,
    /// A bid was still open at the deadline.
    FulfillmentTimeout,
    /// A group has not got as many instances as were ordered for it.
    FulfillmentShortfall,
    /// An instance was still without an address at the deadline.
    ReadinessTimeout,
    /// The fleet's user reported failure.
    RunnerFailure,
    /// The provider failed while it was being polled.
    ProviderFailure,
}

/// What the driver reports.
#[derive(Clone, PartialEq, Eq, Debug)]
pub enum Event {
    /// The run may begin.
    Start,
    /// The submissions are through: for each group in order, the identifiers
    /// of the bids placed for it, or nothing where the provider refused.
    BidsSubmitted(Vec<Option<Vec<String>>>),
    /// A round of bid descriptions, and the seconds it took from when it was
    /// asked for.
    BidsDescribed { took_seconds: u64, bids: Vec<BidDescription> },
    /// The cancellation went through, or did not.
    BidsCancelled(bool),
    /// A round of instance descriptions, and the seconds it took from when it
    /// was asked for.
    InstancesDescribed { took_seconds: u64, instances: Vec<InstanceDescription> },
    /// The provider failed for good while it was being polled.
    ProviderFailed,
    /// Setup has been tried on every machine: for each machine of the roster
    /// in order, whether it succeeded.
    SetupFinished(Vec<bool>),
    /// The fleet's user is done, with success or without.
    RunnerFinished(bool),
    /// Teardown has been tried: the instances whose termination the provider
    /// has confirmed.
    TornDown(Vec<String>),
}

/// What the driver is to do next.
#[derive(Clone, PartialEq, Eq, Debug)]
pub enum Action {
    /// Report `Start`.
    AwaitStart,
    /// Submit one bid for each order.
    SubmitBids(Vec<BidOrder>),
    /// Wait, then describe these bids.
    PollBids { delay_seconds: u64, bid_ids: Vec<String> },
    /// Cancel these bids.
    CancelBids(Vec<String>),
    /// Wait, then describe these instances.
    PollInstances { delay_seconds: u64, instance_ids: Vec<String> },
    /// Connect to each of these machines and run its group's setup.
    SetUp(Vec<Machine>),
    /// Hand the roster to the fleet's user.
    InvokeRunner,
    /// Cancel these bids, if any is named, and terminate these instances, if
    /// any is named.
    TearDown { cancel: Option<Vec<String>>, terminate: Option<Vec<String>> },
    /// Nothing is left to do.
    Finish,
}

/// A run, as contracts speak of it.
pub struct RunView {
    pub phase: Phase,
    pub orders: Seq<BidOrder>,
    pub budget: u64,
    pub bids: Seq<BidRequest>,
    pub instances: Seq<Instance>,
    pub roster: Seq<Machine>,
    pub setup: Seq<SetupStatus>,
    pub pace: Pace,
    pub failure: Option<Failure>,
    pub runner: Option<bool>,
    pub unterminated: Seq<String>,
}

/// The identifiers of `bids`, in order.
pub open spec fn bid_ids(bids: Seq<BidRequest>) -> Seq<String> {
    Seq::new(bids.len(), |i: int| bids[i].id)
}

/// The identifiers of `instances`, in order.
pub open spec fn instance_ids(instances: Seq<Instance>) -> Seq<String> {
    Seq::new(instances.len(), |i: int| instances[i].id)
}

/// Every order asks for at least one machine.
pub open spec fn all_positive(orders: Seq<BidOrder>) -> bool {
    forall|g: int| 0 <= g < orders.len() ==> (#[trigger] orders[g]).count > 0
}

/// A run that has not begun.
pub open spec fn fresh(orders: Seq<BidOrder>, budget: u64) -> RunView {
    RunView {
        phase: Phase::Building,
        orders,
        budget,
        bids: Seq::empty(),
        instances: Seq::empty(),
        roster: Seq::empty(),
        setup: Seq::empty(),
        pace: Pace::begun(budget),
        failure: None,
        runner: None,
        unterminated: Seq::empty(),
    }
}

/// The run gives up for `failure` and turns to teardown.
pub open spec fn abandoned(v: RunView, failure: Failure) -> RunView {
    RunView { phase: Phase::TearingDown, failure: Some(failure), ..v }
}

/// The run begins. A fleet of no groups has nothing to bid for and nothing
/// to wait for: it is ready at once, with no machine. Any other fleet goes
/// on to bid where every group asks for a machine, and fails at once, with
/// nothing placed, where one asks for none.
pub open spec fn begun(v: RunView) -> RunView {
    if v.orders.len() == 0 {
        RunView { phase: Phase::Ready, ..v }
    } else if all_positive(v.orders) {
        RunView { phase: Phase::Bidding, ..v }
    } else {
        RunView { phase: Phase::Failed, failure: Some(Failure::AdmissionFailure), ..v }
    }
}

/// The submissions are through: the run keeps every bid that was placed, and
/// waits for fulfilment where every group has one; else it gives up.
pub open spec fn submitted(v: RunView, results: Seq<Option<Vec<String>>>) -> RunView {
    let upto = if results.len() <= v.orders.len() {
        results.len() as int
    } else {
        v.orders.len() as int
    };
    let kept = RunView { bids: placed(results, upto), ..v };
    if admitted(results, v.orders.len() as int) {
        RunView { phase: Phase::AwaitingFulfillment, pace: Pace::begun(v.budget), ..kept }
    } else {
        abandoned(kept, Failure::AdmissionFailure)
    }
}

/// A round of bid descriptions is in, `took` seconds after it was asked for.
/// Once no bid is open the run gives up for a shortfall where a group has
/// not got its quota. Where every group has, it goes on to cancel its bids,
/// or, if none of them is live, to wait for readiness at once. While a bid
/// is open it asks again more slowly, and gives up at the deadline.
pub open spec fn bids_heard(v: RunView, descs: Seq<BidDescription>, took: u64) -> RunView {
    let heard = RunView {
        bids: absorbed(v.bids, descs),
        instances: recorded(v.instances, v.bids, descs),
        ..v
    };
    if !any_open(heard.bids) {
        if !quota_met(heard.orders, heard.instances) {
            abandoned(heard, Failure::FulfillmentShortfall)
        } else if live_ids(heard.bids).len() == 0 {
            cancellation_over(heard, true)
        } else {
            RunView { phase: Phase::CancellingBids, ..heard }
        }
    } else if v.pace.late(took) {
        abandoned(heard, Failure::FulfillmentTimeout)
    } else {
        RunView { pace: v.pace.slowed(took), ..heard }
    }
}

/// The cancellation is over: where it went through, no bid is live any
/// more. Either way the run goes on to wait for readiness.
pub open spec fn cancellation_over(v: RunView, ok: bool) -> RunView {
    RunView {
        phase: Phase::AwaitingReadiness,
        bids: if ok {
            all_called_off(v.bids)
        } else {
            v.bids
        },
        pace: Pace::begun(v.budget),
        ..v
    }
}

/// A round of instance descriptions is in, `took` seconds after it was
/// asked for. While an instance lacks an address the run asks again more
/// slowly, and gives up at the deadline. Where none lacks one, the run is
/// ready if every instance is described, and gives up for a shortfall if the
/// provider knows nothing of one.
pub open spec fn instances_heard(v: RunView, descs: Seq<InstanceDescription>, took: u64) -> RunView {
    if half_described(v.instances, descs) {
        if v.pace.late(took) {
            abandoned(v, Failure::ReadinessTimeout)
        } else {
            RunView { pace: v.pace.slowed(took), ..v }
        }
    } else if undescribed(v.instances, descs) {
        abandoned(v, Failure::FulfillmentShortfall)
    } else {
        RunView {
            phase: Phase::Ready,
            roster: roster_of(v.instances, descs, v.orders),
            setup: Seq::new(v.instances.len(), |i: int| SetupStatus::Pending),
            ..v
        }
    }
}

/// Whether `results` reports success for the machine at `at`.
pub open spec fn set_up(results: Seq<bool>, at: int) -> bool {
    0 <= at < results.len() && results[at]
}

/// The status of the machine at `at` once `results` is in.
pub open spec fn status(results: Seq<bool>, at: int) -> SetupStatus {
    if set_up(results, at) {
        SetupStatus::Succeeded
    } else {
        SetupStatus::Failed
    }
}

/// The machine with a connection attached.
pub open spec fn connected(machine: Machine) -> Machine {
    Machine { ssh: Some(SshConnection {  }), ..machine }
}

/// Setup is over: each machine has its status, and its connection where
/// setup succeeded. On a machine of which `results` says nothing setup has
/// failed. The run goes on to its user whatever the statuses are.
pub open spec fn setup_over(v: RunView, results: Seq<bool>) -> RunView {
    RunView {
        phase: Phase::Running,
        setup: Seq::new(v.roster.len(), |i: int| status(results, i)),
        roster: Seq::new(
            v.roster.len(),
            |i: int|
                if set_up(results, i) {
                    connected(v.roster[i])
                } else {
                    v.roster[i]
                },
        ),
        ..v
    }
}

/// The fleet's user is done: the run turns to teardown, and has failed if
/// its user has.
pub open spec fn runner_over(v: RunView, ok: bool) -> RunView {
    RunView {
        phase: Phase::TearingDown,
        runner: Some(ok),
        failure: if ok {
            None
        } else {
            Some(Failure::RunnerFailure)
        },
        ..v
    }
}

/// One of `ids` is called `id`.
pub open spec fn names(ids: Seq<String>, id: Seq<char>) -> bool {
    exists|i: int| 0 <= i < ids.len() && (#[trigger] ids[i])@ == id
}

/// The instances on record that `confirmed` does not name, in order.
pub open spec fn unconfirmed(instances: Seq<Instance>, confirmed: Seq<String>) -> Seq<String>
    decreases instances.len(),
{
    if instances.len() == 0 {
        Seq::empty()
    } else if names(confirmed, instances.last().id@) {
        unconfirmed(instances.drop_last(), confirmed)
    } else {
        unconfirmed(instances.drop_last(), confirmed).push(instances.last().id)
    }
}

/// Teardown is over: the run is done, whatever could not be terminated. The
/// instances whose termination was not confirmed are kept on record.
pub open spec fn teardown_over(v: RunView, confirmed: Seq<String>) -> RunView {
    RunView { phase: Phase::Done, unterminated: unconfirmed(v.instances, confirmed), ..v }
}

/// The run after the driver's report. A report that the run's phase does not
/// wait for changes nothing.
pub open spec fn next(v: RunView, event: Event) -> RunView {
    match (v.phase, event) {
        (Phase::Building, Event::Start) => begun(v),
        (Phase::Bidding, Event::BidsSubmitted(results)) => submitted(v, results@),
        (
            Phase::AwaitingFulfillment,
            Event::BidsDescribed { took_seconds, bids },
        ) => bids_heard(v, bids@, took_seconds),
        (Phase::AwaitingFulfillment, Event::ProviderFailed) => abandoned(
            v,
            Failure::ProviderFailure,
        ),
        (Phase::CancellingBids, Event::BidsCancelled(ok)) => cancellation_over(v, ok),
        (
            Phase::AwaitingReadiness,
            Event::InstancesDescribed { took_seconds, instances },
        ) => instances_heard(v, instances@, took_seconds),
        (Phase::AwaitingReadiness, Event::ProviderFailed) => abandoned(
            v,
            Failure::ProviderFailure,
        ),
        (Phase::Ready, Event::SetupFinished(results)) => setup_over(v, results@),
        (Phase::Running, Event::RunnerFinished(ok)) => runner_over(v, ok),
        (Phase::TearingDown, Event::TornDown(confirmed)) => teardown_over(v, confirmed@),
        _ => v,
    }
}

/// The run after a sequence of reports, taken in order.
pub open spec fn reached(v: RunView, events: Seq<Event>) -> RunView
    decreases events.len(),
{
    if events.len() == 0 {
        v
    } else {
        next(reached(v, events.drop_last()), events.last())
    }
}

/// `asked` names exactly `ids`, and names nothing where there are none.
pub open spec fn named(asked: Option<Vec<String>>, ids: Seq<String>) -> bool {
    match asked {
        Some(list) => list@ == ids && ids.len() > 0,
        None => ids.len() == 0,
    }
}

/// `action` is what a run in the state `v` asks of its driver.
pub open spec fn asks(v: RunView, action: Action) -> bool {
    match v.phase {
        Phase::Building => action is AwaitStart,
        Phase::Bidding => action matches Action::SubmitBids(orders) && orders@ == v.orders,
        Phase::AwaitingFulfillment => action matches Action::PollBids { delay_seconds, bid_ids }
            && delay_seconds == v.pace.delay && bid_ids@ == self::bid_ids(v.bids),
        Phase::CancellingBids => action matches Action::CancelBids(ids) && ids@ == live_ids(v.bids),
        Phase::AwaitingReadiness => action matches Action::PollInstances {
            delay_seconds,
            instance_ids,
        } && delay_seconds == v.pace.delay && instance_ids@ == self::instance_ids(v.instances),
        Phase::Ready => action matches Action::SetUp(machines) && machines@ == v.roster,
        Phase::Running => action is InvokeRunner,
        Phase::TearingDown => action matches Action::TearDown { cancel, terminate } && named(
            cancel,
            live_ids(v.bids),
        ) && named(terminate, instance_ids(v.instances)),
        Phase::Done | Phase::Failed => action is Finish,
    }
}

/// The machines of `roster` that belong to the group called `name`, in
/// order.
pub open spec fn in_group(roster: Seq<Machine>, name: Seq<char>) -> Seq<Machine>
    decreases roster.len(),
{
    if roster.len() == 0 {
        Seq::empty()
    } else if roster.last().group@ == name {
        in_group(roster.drop_last(), name).push(roster.last())
    } else {
        in_group(roster.drop_last(), name)
    }
}

/// How many instances each group has got, group by group.
pub open spec fn fulfilment(v: RunView) -> Seq<usize> {
    Seq::new(v.orders.len(), |g: int| count_in_group(v.instances, g) as usize)
}

/// How a run has gone.
#[derive(Clone, PartialEq, Eq, Debug)]
pub struct Outcome {
    /// Where the run stands.
    pub phase: Phase,
    /// Why it did not succeed, if it did not.
    pub failure: Option<Failure>,
    /// How many instances each group has got, group by group.
    pub fulfilled: Vec<usize>,
    /// For each machine of the roster in order, how setup went.
    pub setup: Vec<SetupStatus>,
    /// What the fleet's user reported, once it has.
    pub runner: Option<bool>,
    /// The instances that teardown could not terminate.
    pub unterminated: Vec<String>,
}

/// No bid is open, and every group has its quota of instances.
pub open spec fn settled(v: RunView) -> bool {
    !any_open(v.bids) && quota_met(v.orders, v.instances)
}

/// The roster holds one machine for each instance on record, in order, each
/// under its instance's identifier and its group's name, and each with a
/// setup status.
pub open spec fn aligned(v: RunView) -> bool {
    &&& v.roster.len() == v.instances.len()
    &&& v.setup.len() == v.roster.len()
    &&& forall|i: int|
        0 <= i < v.roster.len() ==> {
            &&& (#[trigger] v.roster[i]).instance_id == v.instances[i].id
            &&& v.roster[i].group == v.orders[v.instances[i].group as int].group
        }
}

/// The fleet has a group, and every group asks for a machine.
pub open spec fn staffed(v: RunView) -> bool {
    v.orders.len() > 0 && all_positive(v.orders)
}

/// Nothing has been placed or allocated.
pub open spec fn untouched(v: RunView) -> bool {
    v.bids.len() == 0 && v.instances.len() == 0 && v.roster.len() == 0
}

/// What holds of a run at every moment of its life. Among the rest: there
/// is one setup status for each machine of the roster, and neither a machine
/// nor a status before the run is ready; and while the run bids, polls or
/// cancels, there is a bid or an instance to do it for.
pub open spec fn inv(v: RunView) -> bool {
    &&& distinct_groups(v.orders)
    &&& bids_below(v.bids, v.orders.len() as int)
    &&& groups_below(v.instances, v.orders.len() as int)
    &&& distinct_ids(v.instances)
    &&& v.pace.wf()
    &&& v.pace.budget == v.budget
    &&& v.setup.len() == v.roster.len()
    &&& match v.phase {
        Phase::Building => untouched(v) && v.failure is None && v.runner is None,
        Phase::Bidding => untouched(v) && staffed(v) && v.failure is None && v.runner is None,
        Phase::AwaitingFulfillment => v.roster.len() == 0 && staffed(v) && v.bids.len() > 0
            && v.failure is None && v.runner is None,
        Phase::CancellingBids => settled(v) && v.roster.len() == 0 && staffed(v) && live_ids(
            v.bids,
        ).len() > 0 && v.instances.len() > 0 && v.failure is None && v.runner is None,
        Phase::AwaitingReadiness => settled(v) && v.roster.len() == 0 && staffed(v)
            && v.instances.len() > 0 && v.failure is None && v.runner is None,
        Phase::Ready | Phase::Running => settled(v) && aligned(v) && v.failure is None
            && v.runner is None,
        Phase::TearingDown | Phase::Done => {
            &&& v.roster.len() == 0 || aligned(v)
            &&& v.runner is Some ==> settled(v) && aligned(v)
            &&& v.failure is None <==> v.runner == Some(true)
        },
        Phase::Failed => untouched(v) && v.failure is Some && v.runner is None,
    }
}

} // verus!
