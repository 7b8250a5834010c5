use burst::fleet::bids::{BidDescription, BidOrder, BidRequest, BidState};
use burst::fleet::plan::{BurstBuilder, Machine, MachineSetup, SshConnection};
use burst::fleet::readiness::InstanceDescription;
use burst::fleet::model::{Action, Event, Failure, Phase, SetupStatus};
use burst::fleet::run::FleetRun;

fn text(s: &str) -> String {
    s.to_string()
}

fn texts(all: &[&str]) -> Vec<String> {
    all.iter().map(|s| s.to_string()).collect()
}

fn fleet(groups: &[(&str, u32)], hours: u8) -> BurstBuilder<()> {
    let mut plan = BurstBuilder::default();
    for (name, count) in groups {
        plan.add_machine(text(name), *count, MachineSetup::new(text("t2.micro"), text("ami-1"), ()));
    }
    plan.set_max_duration(hours);
    plan
}

fn tear_down(bids: &[&str], instances: &[&str]) -> Action {
    Action::TearDown {
        cancel: if bids.is_empty() { None } else { Some(texts(bids)) },
        terminate: if instances.is_empty() { None } else { Some(texts(instances)) },
    }
}

fn bids_described(bids: Vec<BidDescription>) -> Event {
    Event::BidsDescribed { took_seconds: 0, bids }
}

fn instances_described(instances: Vec<InstanceDescription>) -> Event {
    Event::InstancesDescribed { took_seconds: 0, instances }
}

fn bid(id: &str, state: BidState, instances: &[&str]) -> BidDescription {
    BidDescription { bid_id: text(id), state, instance_ids: texts(instances) }
}

fn ready(id: &str) -> InstanceDescription {
    InstanceDescription {
        instance_id: text(id),
        public_address: Some(format!("{id}.example.com")),
        private_address: Some(format!("10.0.0.{}", id.len())),
        instance_type: text("t2.micro"),
    }
}

fn booting(id: &str) -> InstanceDescription {
    InstanceDescription {
        instance_id: text(id),
        public_address: None,
        private_address: Some(text("10.0.0.9")),
        instance_type: text("t2.micro"),
    }
}

fn machine(id: &str, group: &str, connected: bool) -> Machine {
    Machine {
        instance_id: text(id),
        group: text(group),
        private_ip: format!("10.0.0.{}", id.len()),
        public_dns: format!("{id}.example.com"),
        instance_type: text("t2.micro"),
        ssh: if connected { Some(SshConnection {}) } else { None },
    }
}

/// A run of one group of two machines, up to the phase that waits for
/// readiness.
fn fulfilled_pair() -> FleetRun {
    let mut run = FleetRun::new(&fleet(&[("web", 2)], 1));
    run.step(Event::Start);
    run.step(Event::BidsSubmitted(vec![Some(texts(&["sir-1", "sir-2"]))]));
    run.step(bids_described(vec![
        bid("sir-1", BidState::Active, &["i-1"]),
        bid("sir-2", BidState::Active, &["i-2"]),
    ]));
    run.step(Event::BidsCancelled(true));
    run
}

#[test]
fn a_run_that_succeeds() {
    let plan = fleet(&[("web", 2)], 1);
    let mut run = FleetRun::new(&plan);
    assert_eq!(Phase::Building, run.phase());
    assert_eq!(Action::AwaitStart, run.pending());

    let action = run.step(Event::Start);
    assert_eq!(
        Action::SubmitBids(vec![BidOrder {
            group: text("web"),
            ami: text("ami-1"),
            instance_type: text("t2.micro"),
            count: 2,
            duration_minutes: 60,
        }]),
        action
    );
    assert_eq!(Phase::Bidding, run.phase());

    let action = run.step(Event::BidsSubmitted(vec![Some(texts(&["sir-1", "sir-2"]))]));
    assert_eq!(Action::PollBids { delay_seconds: 1, bid_ids: texts(&["sir-1", "sir-2"]) }, action);
    assert_eq!(Phase::AwaitingFulfillment, run.phase());

    let action = run.step(bids_described(vec![
        bid("sir-1", BidState::Active, &["i-1"]),
        bid("sir-2", BidState::Active, &["i-2"]),
    ]));
    assert_eq!(Action::CancelBids(texts(&["sir-1", "sir-2"])), action);
    assert_eq!(Phase::CancellingBids, run.phase());

    let action = run.step(Event::BidsCancelled(true));
    assert_eq!(
        Action::PollInstances { delay_seconds: 1, instance_ids: texts(&["i-1", "i-2"]) },
        action
    );
    assert_eq!(Phase::AwaitingReadiness, run.phase());

    let action = run.step(instances_described(vec![booting("i-1"), ready("i-2")]));
    assert_eq!(
        Action::PollInstances { delay_seconds: 2, instance_ids: texts(&["i-1", "i-2"]) },
        action
    );
    assert_eq!(Phase::AwaitingReadiness, run.phase());
    assert!(run.roster().is_empty());

    let action = run.step(instances_described(vec![ready("i-1"), ready("i-2")]));
    assert_eq!(
        Action::SetUp(vec![machine("i-1", "web", false), machine("i-2", "web", false)]),
        action
    );
    assert_eq!(Phase::Ready, run.phase());
    assert_eq!(2, run.roster().len());
    assert_eq!(&vec![SetupStatus::Pending, SetupStatus::Pending], run.setup_status());

    let action = run.step(Event::SetupFinished(vec![true, true]));
    assert_eq!(Action::InvokeRunner, action);
    assert_eq!(Phase::Running, run.phase());
    assert_eq!(&vec![SetupStatus::Succeeded, SetupStatus::Succeeded], run.setup_status());
    assert_eq!(
        &vec![machine("i-1", "web", true), machine("i-2", "web", true)],
        run.roster()
    );

    let action = run.step(Event::RunnerFinished(true));
    assert_eq!(
        tear_down(&[], &["i-1", "i-2"]),
        action
    );
    assert_eq!(Phase::TearingDown, run.phase());

    let action = run.step(Event::TornDown(texts(&["i-2", "i-1"])));
    assert_eq!(Action::Finish, action);
    assert_eq!(Phase::Done, run.phase());

    let outcome = run.outcome();
    assert_eq!(Phase::Done, outcome.phase);
    assert_eq!(None, outcome.failure);
    assert_eq!(vec![2], outcome.fulfilled);
    assert_eq!(vec![SetupStatus::Succeeded, SetupStatus::Succeeded], outcome.setup);
    assert_eq!(Some(true), outcome.runner);
    assert!(outcome.unterminated.is_empty());
    assert_eq!(2, run.roster().len());
}

#[test]
fn a_shortfall_after_fulfilment() {
    let mut run = FleetRun::new(&fleet(&[("web", 3)], 1));
    run.step(Event::Start);
    run.step(Event::BidsSubmitted(vec![Some(texts(&["sir-1", "sir-2", "sir-3"]))]));
    let action = run.step(bids_described(vec![
        bid("sir-1", BidState::Active, &["i-1"]),
        bid("sir-2", BidState::Open, &[]),
        bid("sir-3", BidState::Active, &["i-3"]),
    ]));
    assert_eq!(
        Action::PollBids { delay_seconds: 2, bid_ids: texts(&["sir-1", "sir-2", "sir-3"]) },
        action
    );
    let action = run.step(bids_described(vec![
        bid("sir-1", BidState::Active, &["i-1"]),
        bid("sir-2", BidState::Failed, &[]),
        bid("sir-3", BidState::Active, &["i-3"]),
    ]));
    assert_eq!(
        tear_down(&["sir-1", "sir-3"], &["i-1", "i-3"]),
        action
    );
    assert_eq!(Phase::TearingDown, run.phase());
    assert_eq!(Some(Failure::FulfillmentShortfall), run.failure());
    assert!(run.roster().is_empty());
    assert!(run.setup_status().is_empty());

    // Nothing but the end of teardown moves the run now: no setup, no runner.
    assert_eq!(action, run.step(Event::SetupFinished(vec![true, true])));
    assert_eq!(action, run.step(Event::RunnerFinished(true)));
    assert_eq!(Phase::TearingDown, run.phase());

    assert_eq!(Action::Finish, run.step(Event::TornDown(Vec::new())));
    assert_eq!(Phase::Done, run.phase());
    let outcome = run.outcome();
    assert_eq!(Some(Failure::FulfillmentShortfall), outcome.failure);
    assert_eq!(texts(&["i-1", "i-3"]), outcome.unterminated);
    assert_eq!(vec![2], outcome.fulfilled);
    assert_eq!(None, outcome.runner);
    assert!(outcome.setup.is_empty());
}

#[test]
fn readiness_times_out() {
    // A budget of no time at all: the first round is the last.
    let mut run = FleetRun::new(&fleet(&[("web", 2)], 0));
    run.step(Event::Start);
    let action = run.step(Event::BidsSubmitted(vec![Some(texts(&["sir-1"]))]));
    assert_eq!(Action::PollBids { delay_seconds: 0, bid_ids: texts(&["sir-1"]) }, action);
    run.step(bids_described(vec![bid("sir-1", BidState::Fulfilled, &["i-1", "i-2"])]));
    let action = run.step(Event::BidsCancelled(true));
    assert_eq!(
        Action::PollInstances { delay_seconds: 0, instance_ids: texts(&["i-1", "i-2"]) },
        action
    );
    let action = run.step(instances_described(vec![ready("i-1"), booting("i-2")]));
    assert_eq!(
        tear_down(&[], &["i-1", "i-2"]),
        action
    );
    assert_eq!(Some(Failure::ReadinessTimeout), run.failure());
    assert_eq!(Phase::TearingDown, run.phase());
    assert!(run.roster().is_empty());
    assert_eq!(Action::Finish, run.step(Event::TornDown(Vec::new())));
    let outcome = run.outcome();
    assert_eq!(Phase::Done, outcome.phase);
    assert_eq!(Some(Failure::ReadinessTimeout), outcome.failure);
    assert!(outcome.setup.is_empty());
    assert_eq!(None, outcome.runner);
}

#[test]
fn readiness_waits_longer_each_round_up_to_the_deadline() {
    // One minute: 1 + 2 + 4 + 8 + 16 + 29 seconds.
    let mut plan: BurstBuilder<()> = BurstBuilder::default();
    plan.add_machine(text("web"), 1, MachineSetup::new(text("t2.micro"), text("ami-1"), ()));
    let mut run = FleetRun::new(&plan);
    run.step(Event::Start);
    run.step(Event::BidsSubmitted(vec![Some(texts(&["sir-1"]))]));
    run.step(bids_described(vec![bid("sir-1", BidState::Active, &["i-1"])]));
    let mut delays = Vec::new();
    let mut action = run.step(Event::BidsCancelled(false));
    while let Action::PollInstances { delay_seconds, instance_ids } = &action {
        assert_eq!(&texts(&["i-1"]), instance_ids);
        delays.push(*delay_seconds);
        action = run.step(instances_described(vec![booting("i-1")]));
    }
    assert_eq!(vec![1, 2, 4, 8, 16, 29], delays);
    assert_eq!(60, delays.iter().sum::<u64>());
    assert_eq!(
        tear_down(&["sir-1"], &["i-1"]),
        action
    );
    assert_eq!(Some(Failure::ReadinessTimeout), run.failure());
}

#[test]
fn fulfilment_waits_at_most_a_minute_between_rounds() {
    let mut run = FleetRun::new(&fleet(&[("web", 1)], 1));
    run.step(Event::Start);
    let mut action = run.step(Event::BidsSubmitted(vec![Some(texts(&["sir-1"]))]));
    let mut delays = Vec::new();
    while let Action::PollBids { delay_seconds, .. } = &action {
        delays.push(*delay_seconds);
        action = run.step(bids_described(vec![bid("sir-1", BidState::Open, &[])]));
    }
    assert_eq!(&[1, 2, 4, 8, 16, 32, 60, 60, 60][..], &delays[..9]);
    assert_eq!(3600, delays.iter().sum::<u64>());
    assert_eq!(Some(&57), delays.last());
    assert_eq!(Some(Failure::FulfillmentTimeout), run.failure());
    assert_eq!(
        tear_down(&["sir-1"], &[]),
        action
    );
}

#[test]
fn fulfilment_times_out_with_what_was_allocated() {
    let mut run = FleetRun::new(&fleet(&[("web", 2)], 0));
    run.step(Event::Start);
    run.step(Event::BidsSubmitted(vec![Some(texts(&["sir-1", "sir-2"]))]));
    let action = run.step(bids_described(vec![
        bid("sir-1", BidState::Active, &["i-1"]),
        bid("sir-2", BidState::Open, &[]),
    ]));
    assert_eq!(
        tear_down(&["sir-1", "sir-2"], &["i-1"]),
        action
    );
    assert_eq!(Some(Failure::FulfillmentTimeout), run.failure());
}

#[test]
fn a_group_of_no_machines_fails_the_run_at_once() {
    let mut run = FleetRun::new(&fleet(&[("web", 2), ("db", 0)], 1));
    assert_eq!(Action::Finish, run.step(Event::Start));
    assert_eq!(Phase::Failed, run.phase());
    assert_eq!(Some(Failure::AdmissionFailure), run.failure());
    assert!(run.bids().is_empty());
    assert!(run.instances().is_empty());
    assert_eq!(Action::Finish, run.step(Event::Start));
    assert_eq!(Phase::Failed, run.phase());
}

#[test]
fn a_refused_bid_fails_the_run_and_cancels_the_others() {
    let mut run = FleetRun::new(&fleet(&[("web", 2), ("db", 1)], 1));
    run.step(Event::Start);
    let action = run.step(Event::BidsSubmitted(vec![Some(texts(&["sir-1"])), None]));
    assert_eq!(
        tear_down(&["sir-1"], &[]),
        action
    );
    assert_eq!(Some(Failure::AdmissionFailure), run.failure());
    assert_eq!(Phase::TearingDown, run.phase());
    run.step(Event::TornDown(Vec::new()));
    assert_eq!(Phase::Done, run.phase());
    assert_eq!(Some(Failure::AdmissionFailure), run.outcome().failure);
}

#[test]
fn a_submission_without_a_bid_is_a_refusal() {
    let mut run = FleetRun::new(&fleet(&[("web", 2)], 1));
    run.step(Event::Start);
    run.step(Event::BidsSubmitted(vec![Some(Vec::new())]));
    assert_eq!(Some(Failure::AdmissionFailure), run.failure());

    let mut run = FleetRun::new(&fleet(&[("web", 2), ("db", 1)], 1));
    run.step(Event::Start);
    run.step(Event::BidsSubmitted(vec![Some(texts(&["sir-1"]))]));
    assert_eq!(Some(Failure::AdmissionFailure), run.failure());
    assert_eq!(1, run.bids().len());
}

#[test]
fn bids_belong_to_their_groups() {
    let mut run = FleetRun::new(&fleet(&[("web", 2), ("db", 1)], 1));
    run.step(Event::Start);
    run.step(Event::BidsSubmitted(vec![
        Some(texts(&["sir-1", "sir-2"])),
        Some(texts(&["sir-3"])),
    ]));
    assert_eq!(
        &vec![
            BidRequest { id: text("sir-1"), group: 0, state: BidState::Open },
            BidRequest { id: text("sir-2"), group: 0, state: BidState::Open },
            BidRequest { id: text("sir-3"), group: 1, state: BidState::Open },
        ],
        run.bids()
    );
}

#[test]
fn the_roster_is_partitioned_by_group() {
    let mut run = FleetRun::new(&fleet(&[("web", 2), ("db", 1)], 1));
    run.step(Event::Start);
    run.step(Event::BidsSubmitted(vec![Some(texts(&["sir-w"])), Some(texts(&["sir-d"]))]));
    run.step(bids_described(vec![
        bid("sir-d", BidState::Active, &["i-d1"]),
        bid("sir-w", BidState::Active, &["i-w1", "i-w2"]),
    ]));
    assert_eq!(Phase::CancellingBids, run.phase());
    run.step(Event::BidsCancelled(true));
    run.step(instances_described(vec![ready("i-w2"), ready("i-d1"), ready("i-w1")]));
    assert_eq!(Phase::Ready, run.phase());
    assert_eq!(3, run.roster().len());
    assert_eq!(
        vec![machine("i-w1", "web", false), machine("i-w2", "web", false)],
        run.machines_in(&text("web"))
    );
    assert_eq!(vec![machine("i-d1", "db", false)], run.machines_in(&text("db")));
    assert!(run.machines_in(&text("cache")).is_empty());
    assert_eq!(vec![2, 1], run.outcome().fulfilled);
}

#[test]
fn one_group_short_is_a_shortfall() {
    let mut run = FleetRun::new(&fleet(&[("web", 1), ("db", 1)], 1));
    run.step(Event::Start);
    run.step(Event::BidsSubmitted(vec![Some(texts(&["sir-w"])), Some(texts(&["sir-d"]))]));
    run.step(bids_described(vec![
        bid("sir-w", BidState::Active, &["i-1", "i-2"]),
        bid("sir-d", BidState::Failed, &[]),
    ]));
    assert_eq!(Some(Failure::FulfillmentShortfall), run.failure());
    assert_eq!(vec![2, 0], run.outcome().fulfilled);
}

#[test]
fn no_bid_is_open_after_fulfilment() {
    let run = fulfilled_pair();
    assert!(run.bids().iter().all(|bid| bid.state != BidState::Open));
    assert_eq!(Phase::AwaitingReadiness, run.phase());
}

#[test]
fn cancelling_twice_names_no_bid_the_second_time() {
    let mut run = fulfilled_pair();
    assert!(run.bids().iter().all(|bid| bid.state == BidState::Cancelled));
    run.step(instances_described(vec![ready("i-1"), ready("i-2")]));
    run.step(Event::SetupFinished(vec![true, true]));
    let action = run.step(Event::RunnerFinished(true));
    assert_eq!(
        tear_down(&[], &["i-1", "i-2"]),
        action
    );
    let bids = burst::fleet::bids::cancel(run.bids());
    assert_eq!(&bids, run.bids());
    assert!(burst::fleet::bids::live_bid_ids(&bids).is_empty());
}

#[test]
fn a_failed_cancellation_is_tried_again_at_teardown() {
    let mut run = FleetRun::new(&fleet(&[("web", 1)], 1));
    run.step(Event::Start);
    run.step(Event::BidsSubmitted(vec![Some(texts(&["sir-1", "sir-2"]))]));
    run.step(bids_described(vec![
        bid("sir-1", BidState::Active, &["i-1"]),
        bid("sir-2", BidState::Failed, &[]),
    ]));
    assert_eq!(Action::CancelBids(texts(&["sir-1"])), run.pending());
    run.step(Event::BidsCancelled(false));
    assert_eq!(Phase::AwaitingReadiness, run.phase());
    run.step(instances_described(vec![ready("i-1")]));
    run.step(Event::SetupFinished(vec![true]));
    let action = run.step(Event::RunnerFinished(true));
    assert_eq!(
        tear_down(&["sir-1"], &["i-1"]),
        action
    );
}

#[test]
fn a_failed_setup_does_not_stop_the_run() {
    let mut run = fulfilled_pair();
    run.step(instances_described(vec![ready("i-1"), ready("i-2")]));
    let action = run.step(Event::SetupFinished(vec![false, true]));
    assert_eq!(Action::InvokeRunner, action);
    assert_eq!(&vec![SetupStatus::Failed, SetupStatus::Succeeded], run.setup_status());
    assert_eq!(
        &vec![machine("i-1", "web", false), machine("i-2", "web", true)],
        run.roster()
    );
    let action = run.step(Event::RunnerFinished(true));
    assert_eq!(
        tear_down(&[], &["i-1", "i-2"]),
        action
    );
    run.step(Event::TornDown(Vec::new()));
    let outcome = run.outcome();
    assert_eq!(None, outcome.failure);
    assert_eq!(vec![SetupStatus::Failed, SetupStatus::Succeeded], outcome.setup);
}

#[test]
fn a_missing_setup_status_counts_as_failure() {
    let mut run = fulfilled_pair();
    run.step(instances_described(vec![ready("i-1"), ready("i-2")]));
    run.step(Event::SetupFinished(vec![true]));
    assert_eq!(&vec![SetupStatus::Succeeded, SetupStatus::Failed], run.setup_status());
    let mut run = fulfilled_pair();
    run.step(instances_described(vec![ready("i-1"), ready("i-2")]));
    run.step(Event::SetupFinished(vec![true, true, true]));
    assert_eq!(&vec![SetupStatus::Succeeded, SetupStatus::Succeeded], run.setup_status());
}

#[test]
fn a_failing_runner_fails_the_run_after_teardown() {
    let mut run = fulfilled_pair();
    run.step(instances_described(vec![ready("i-1"), ready("i-2")]));
    run.step(Event::SetupFinished(vec![true, true]));
    let action = run.step(Event::RunnerFinished(false));
    assert_eq!(
        tear_down(&[], &["i-1", "i-2"]),
        action
    );
    assert_eq!(Some(Failure::RunnerFailure), run.failure());
    run.step(Event::TornDown(texts(&["i-2"])));
    let outcome = run.outcome();
    assert_eq!(Phase::Done, outcome.phase);
    assert_eq!(Some(Failure::RunnerFailure), outcome.failure);
    assert_eq!(Some(false), outcome.runner);
    assert_eq!(texts(&["i-1"]), outcome.unterminated);
}

#[test]
fn a_failed_termination_does_not_fail_the_run() {
    let mut run = fulfilled_pair();
    run.step(instances_described(vec![ready("i-1"), ready("i-2")]));
    run.step(Event::SetupFinished(vec![true, true]));
    run.step(Event::RunnerFinished(true));
    run.step(Event::TornDown(texts(&["i-1", "i-7"])));
    assert_eq!(Phase::Done, run.phase());
    assert_eq!(None, run.failure());
    assert_eq!(&texts(&["i-2"]), run.unterminated());
    assert_eq!(Some(true), run.runner_result());
}

#[test]
fn the_provider_failing_ends_the_polling() {
    let mut run = FleetRun::new(&fleet(&[("web", 1)], 1));
    run.step(Event::Start);
    run.step(Event::BidsSubmitted(vec![Some(texts(&["sir-1"]))]));
    let action = run.step(Event::ProviderFailed);
    assert_eq!(
        tear_down(&["sir-1"], &[]),
        action
    );
    assert_eq!(Some(Failure::ProviderFailure), run.failure());

    let mut run = fulfilled_pair();
    let action = run.step(Event::ProviderFailed);
    assert_eq!(
        tear_down(&[], &["i-1", "i-2"]),
        action
    );
    assert_eq!(Some(Failure::ProviderFailure), run.failure());
}

#[test]
fn an_instance_the_provider_does_not_know_is_a_shortfall() {
    let mut run = fulfilled_pair();
    let action = run.step(instances_described(vec![ready("i-2")]));
    assert_eq!(
        tear_down(&[], &["i-1", "i-2"]),
        action
    );
    assert_eq!(Some(Failure::FulfillmentShortfall), run.failure());
    assert!(run.roster().is_empty());
}

#[test]
fn a_booting_instance_comes_before_a_missing_one() {
    let mut run = fulfilled_pair();
    run.step(instances_described(vec![booting("i-2")]));
    assert_eq!(Phase::AwaitingReadiness, run.phase());
    assert_eq!(None, run.failure());
}

#[test]
fn the_last_description_of_an_instance_counts() {
    let mut run = fulfilled_pair();
    run.step(instances_described(vec![
        booting("i-1"),
        ready("i-2"),
        ready("i-1"),
        ready("i-9"),
    ]));
    assert_eq!(Phase::Ready, run.phase());
    assert_eq!(
        &vec![machine("i-1", "web", false), machine("i-2", "web", false)],
        run.roster()
    );
}

#[test]
fn a_report_out_of_turn_changes_nothing() {
    let mut run = FleetRun::new(&fleet(&[("web", 1)], 1));
    assert_eq!(Action::AwaitStart, run.step(Event::RunnerFinished(true)));
    assert_eq!(Action::AwaitStart, run.step(Event::TornDown(Vec::new())));
    assert_eq!(Action::AwaitStart, run.step(Event::ProviderFailed));
    assert_eq!(Phase::Building, run.phase());
    let submit = run.step(Event::Start);
    assert_eq!(submit, run.step(Event::Start));
    assert_eq!(submit, run.step(Event::BidsCancelled(true)));
    assert_eq!(submit, run.step(Event::ProviderFailed));
    assert_eq!(Phase::Bidding, run.phase());
    assert_eq!(None, run.failure());
}

#[test]
fn a_run_that_is_done_stays_done() {
    let mut run = fulfilled_pair();
    run.step(Event::ProviderFailed);
    run.step(Event::TornDown(texts(&["i-1", "i-2"])));
    assert_eq!(Phase::Done, run.phase());
    assert!(run.unterminated().is_empty());
    assert_eq!(Action::Finish, run.step(Event::Start));
    assert_eq!(Action::Finish, run.step(Event::TornDown(Vec::new())));
    assert_eq!(Phase::Done, run.phase());
    assert!(run.unterminated().is_empty());
}

#[test]
fn an_instance_is_recorded_once() {
    let mut run = FleetRun::new(&fleet(&[("web", 2)], 1));
    run.step(Event::Start);
    run.step(Event::BidsSubmitted(vec![Some(texts(&["sir-1", "sir-2"]))]));
    run.step(bids_described(vec![
        bid("sir-1", BidState::Active, &["i-1", "i-1"]),
        bid("sir-2", BidState::Open, &[]),
        bid("sir-9", BidState::Active, &["i-9"]),
    ]));
    assert_eq!(1, run.instances().len());
    run.step(bids_described(vec![
        bid("sir-1", BidState::Active, &["i-1"]),
        bid("sir-2", BidState::Active, &["i-1", "i-2"]),
    ]));
    assert_eq!(Phase::CancellingBids, run.phase());
    assert_eq!(2, run.instances().len());
    assert_eq!("i-1", run.instances()[0].id);
    assert_eq!("i-2", run.instances()[1].id);
}

#[test]
fn an_empty_fleet_is_ready_at_once() {
    let plan: BurstBuilder<()> = BurstBuilder::default();
    let mut run = FleetRun::new(&plan);
    assert_eq!(Action::SetUp(Vec::new()), run.step(Event::Start));
    assert_eq!(Phase::Ready, run.phase());
    assert_eq!(Action::InvokeRunner, run.step(Event::SetupFinished(Vec::new())));
    assert_eq!(
        Action::TearDown { cancel: None, terminate: None },
        run.step(Event::RunnerFinished(true))
    );
    assert_eq!(Action::Finish, run.step(Event::TornDown(Vec::new())));
    assert_eq!(Phase::Done, run.phase());
    assert_eq!(None, run.failure());
    assert!(run.outcome().fulfilled.is_empty());
}

#[test]
fn bids_of_which_none_is_live_are_not_cancelled() {
    let mut run = FleetRun::new(&fleet(&[("web", 1)], 1));
    run.step(Event::Start);
    run.step(Event::BidsSubmitted(vec![Some(texts(&["sir-1", "sir-2"]))]));
    let action = run.step(bids_described(vec![
        bid("sir-1", BidState::Cancelled, &["i-1"]),
        bid("sir-2", BidState::Failed, &[]),
    ]));
    assert_eq!(
        Action::PollInstances { delay_seconds: 1, instance_ids: texts(&["i-1"]) },
        action
    );
    assert_eq!(Phase::AwaitingReadiness, run.phase());
    run.step(instances_described(vec![ready("i-1")]));
    run.step(Event::SetupFinished(vec![true]));
    assert_eq!(tear_down(&[], &["i-1"]), run.step(Event::RunnerFinished(true)));
}

#[test]
fn no_action_names_nothing() {
    let mut run = FleetRun::new(&fleet(&[("web", 1), ("db", 2)], 1));
    let actions = run.replay(vec![
        Event::Start,
        Event::BidsSubmitted(vec![Some(texts(&["sir-1"])), Some(texts(&["sir-2"]))]),
        bids_described(vec![bid("sir-1", BidState::Active, &["i-1"])]),
        bids_described(vec![bid("sir-2", BidState::Active, &["i-2", "i-3"])]),
        Event::BidsCancelled(true),
        instances_described(vec![ready("i-1"), ready("i-2"), ready("i-3")]),
        Event::SetupFinished(vec![true, true, true]),
        Event::RunnerFinished(true),
        Event::TornDown(texts(&["i-1", "i-2", "i-3"])),
    ]);
    for action in actions {
        match action {
            Action::SubmitBids(orders) => assert!(!orders.is_empty()),
            Action::PollBids { bid_ids, .. } => assert!(!bid_ids.is_empty()),
            Action::CancelBids(ids) => assert!(!ids.is_empty()),
            Action::PollInstances { instance_ids, .. } => assert!(!instance_ids.is_empty()),
            Action::TearDown { cancel, terminate } => {
                assert_eq!(None, cancel);
                assert_eq!(Some(texts(&["i-1", "i-2", "i-3"])), terminate);
            }
            _ => {}
        }
    }
}

#[test]
fn a_group_added_again_is_replaced_where_it_stands() {
    let mut plan: BurstBuilder<u8> = BurstBuilder::default();
    plan.add_machine(text("web"), 2, MachineSetup::new(text("t2.micro"), text("ami-1"), 1));
    plan.add_machine(text("db"), 1, MachineSetup::new(text("m5.large"), text("ami-2"), 2));
    plan.add_machine(text("web"), 5, MachineSetup::new(text("c5.large"), text("ami-3"), 3));
    let orders = plan.orders();
    assert_eq!(2, orders.len());
    assert_eq!(
        BidOrder {
            group: text("web"),
            ami: text("ami-3"),
            instance_type: text("c5.large"),
            count: 5,
            duration_minutes: 1,
        },
        orders[0]
    );
    assert_eq!("db", orders[1].group);
    assert_eq!(Some(0), plan.position(&text("web")));
    assert_eq!(Some(1), plan.position(&text("db")));
    assert_eq!(None, plan.position(&text("cache")));
    assert_eq!(3, plan.group(&text("web")).unwrap().setup.setup);
    assert_eq!(1, plan.group(&text("db")).unwrap().count);
    assert!(plan.group(&text("cache")).is_none());
}

#[test]
fn the_budget_is_in_minutes() {
    let mut plan: BurstBuilder<()> = BurstBuilder::default();
    assert_eq!(1, plan.max_duration());
    plan.set_max_duration(3);
    assert_eq!(180, plan.max_duration());
    plan.set_max_duration(255);
    assert_eq!(15300, plan.max_duration());
    plan.set_max_duration(0);
    assert_eq!(0, plan.max_duration());
}

#[test]
fn a_setup_keeps_what_it_is_given() {
    let setup = MachineSetup::new(text("t2.micro"), text("ami-1"), 7u8);
    assert_eq!("t2.micro", setup.instance_type);
    assert_eq!("ami-1", setup.ami);
    assert_eq!(7, setup.setup);
    let called = MachineSetup::new(text("t"), text("a"), |c: &mut SshConnection| -> Result<(), ()> {
        let _ = c;
        Ok(())
    });
    assert_eq!(Ok(()), (called.setup)(&mut SshConnection {}));
}

#[test]
fn states_have_names() {
    assert_eq!(BidState::Open, BidState::named("open"));
    assert_eq!(BidState::Active, BidState::named("active"));
    assert_eq!(BidState::Fulfilled, BidState::named("fulfilled"));
    assert_eq!(BidState::Fulfilled, BidState::named("closed"));
    assert_eq!(BidState::Cancelled, BidState::named("cancelled"));
    assert_eq!(BidState::Failed, BidState::named("failed"));
    assert_eq!(BidState::Failed, BidState::named("Open"));
    assert_eq!(BidState::Failed, BidState::named(""));
}

#[test]
fn terminal_states() {
    assert!(BidState::Cancelled.is_terminal());
    assert!(BidState::Failed.is_terminal());
    assert!(!BidState::Open.is_terminal());
    assert!(!BidState::Active.is_terminal());
    assert!(!BidState::Fulfilled.is_terminal());
}

#[test]
fn a_slow_provider_uses_up_the_budget() {
    // One minute. The first round takes fifty seconds, the second eleven.
    let mut plan: BurstBuilder<()> = BurstBuilder::default();
    plan.add_machine(text("web"), 1, MachineSetup::new(text("t2.micro"), text("ami-1"), ()));
    let mut run = FleetRun::new(&plan);
    run.step(Event::Start);
    run.step(Event::BidsSubmitted(vec![Some(texts(&["sir-1"]))]));
    let open = vec![bid("sir-1", BidState::Open, &[])];
    let action = run.step(Event::BidsDescribed { took_seconds: 50, bids: open.clone() });
    assert_eq!(Action::PollBids { delay_seconds: 2, bid_ids: texts(&["sir-1"]) }, action);
    let action = run.step(Event::BidsDescribed { took_seconds: 9, bids: open.clone() });
    assert_eq!(Action::PollBids { delay_seconds: 1, bid_ids: texts(&["sir-1"]) }, action);
    assert_eq!(None, run.failure());
    let action = run.step(Event::BidsDescribed { took_seconds: 1, bids: open });
    assert_eq!(
        tear_down(&["sir-1"], &[]),
        action
    );
    assert_eq!(Some(Failure::FulfillmentTimeout), run.failure());
}

#[test]
fn an_answer_at_the_deadline_still_counts() {
    let mut plan: BurstBuilder<()> = BurstBuilder::default();
    plan.add_machine(text("web"), 1, MachineSetup::new(text("t2.micro"), text("ami-1"), ()));
    let mut run = FleetRun::new(&plan);
    run.step(Event::Start);
    run.step(Event::BidsSubmitted(vec![Some(texts(&["sir-1"]))]));
    let action = run.step(Event::BidsDescribed {
        took_seconds: 600,
        bids: vec![bid("sir-1", BidState::Active, &["i-1"])],
    });
    assert_eq!(Action::CancelBids(texts(&["sir-1"])), action);
    run.step(Event::BidsCancelled(true));
    let action = run.step(Event::InstancesDescribed {
        took_seconds: u64::MAX,
        instances: vec![ready("i-1")],
    });
    assert_eq!(Action::SetUp(vec![machine("i-1", "web", false)]), action);
    assert_eq!(None, run.failure());
}

#[test]
fn the_roster_holds_no_machine_that_lacks_an_address() {
    let mut run = fulfilled_pair();
    run.step(instances_described(vec![
        InstanceDescription {
            instance_id: text("i-1"),
            public_address: Some(text("a.example.com")),
            private_address: None,
            instance_type: text("t2.micro"),
        },
        ready("i-2"),
    ]));
    assert!(run.roster().is_empty());
    assert_eq!(Phase::AwaitingReadiness, run.phase());
    run.step(instances_described(vec![booting("i-1"), ready("i-2")]));
    assert!(run.roster().is_empty());
    run.step(instances_described(vec![ready("i-1"), ready("i-2")]));
    assert_eq!(2, run.roster().len());
    for machine in run.roster() {
        assert_eq!(format!("{}.example.com", machine.instance_id), machine.public_dns);
        assert_eq!("10.0.0.3", machine.private_ip);
    }
}

#[test]
fn an_instance_listed_for_a_failed_bid_is_torn_down() {
    let mut run = FleetRun::new(&fleet(&[("web", 2)], 1));
    run.step(Event::Start);
    run.step(Event::BidsSubmitted(vec![Some(texts(&["sir-1", "sir-2"]))]));
    run.step(bids_described(vec![
        bid("sir-1", BidState::named("marked-for-termination"), &["i-1"]),
        bid("sir-2", BidState::Failed, &[]),
    ]));
    assert_eq!(1, run.instances().len());
    assert_eq!(Some(Failure::FulfillmentShortfall), run.failure());
    assert_eq!(tear_down(&[], &["i-1"]), run.pending());
}

#[test]
fn readiness_times_out_for_one_of_two() {
    let mut run = fulfilled_pair();
    let mut rounds = 0;
    let mut waited = 0;
    let mut action = run.pending();
    while let Action::PollInstances { delay_seconds, .. } = &action {
        rounds += 1;
        waited += delay_seconds;
        action = run.step(instances_described(vec![ready("i-1"), booting("i-2")]));
    }
    assert_eq!(3600, waited);
    assert_eq!(65, rounds);
    assert_eq!(
        tear_down(&[], &["i-1", "i-2"]),
        action
    );
    assert_eq!(Some(Failure::ReadinessTimeout), run.failure());
    assert!(run.roster().is_empty());
    assert!(run.setup_status().is_empty());
    assert_eq!(Action::Finish, run.step(Event::TornDown(texts(&["i-1", "i-2"]))));
    assert_eq!(None, run.runner_result());
}

#[test]
fn a_run_replayed_from_its_reports() {
    let mut run = FleetRun::new(&fleet(&[("web", 1)], 1));
    let actions = run.replay(vec![
        Event::Start,
        Event::BidsSubmitted(vec![Some(texts(&["sir-1"]))]),
        bids_described(vec![bid("sir-1", BidState::Open, &[])]),
        Event::RunnerFinished(true),
        bids_described(vec![bid("sir-1", BidState::Active, &["i-1"])]),
        Event::BidsCancelled(true),
        instances_described(vec![ready("i-1")]),
        Event::SetupFinished(vec![true]),
        Event::RunnerFinished(true),
        Event::TornDown(texts(&["i-1"])),
    ]);
    assert_eq!(10, actions.len());
    assert_eq!(Action::PollBids { delay_seconds: 1, bid_ids: texts(&["sir-1"]) }, actions[1]);
    assert_eq!(Action::PollBids { delay_seconds: 2, bid_ids: texts(&["sir-1"]) }, actions[2]);
    assert_eq!(actions[2], actions[3]);
    assert_eq!(Action::CancelBids(texts(&["sir-1"])), actions[4]);
    assert_eq!(Action::InvokeRunner, actions[7]);
    assert_eq!(
        tear_down(&[], &["i-1"]),
        actions[8]
    );
    assert_eq!(Action::Finish, actions[9]);
    assert_eq!(Phase::Done, run.phase());
    assert_eq!(None, run.failure());
    assert!(run.replay(Vec::new()).is_empty());
    assert_eq!(vec![Action::Finish], run.replay(vec![Event::Start]));
}
