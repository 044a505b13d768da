use fmodel_decider_rust::fold::replay;
use fmodel_decider_rust::specification::ProcessTestSpecification;
use fmodel_decider_rust::{
    AggregateDecider, DCBDecider, EventComputationTrait, Process, ProcessTrait, Projection, StateComputationTrait, Sum,
    ViewTrait,
};

#[derive(Debug, Clone, PartialEq)]
enum AccountCommand {
    Deposit(i64),
    Withdraw(i64),
}

#[derive(Debug, Clone, PartialEq)]
enum AccountEvent {
    Deposited(i64),
    Withdrawn(i64),
}

fn account() -> AggregateDecider<
    AccountCommand,
    i64,
    AccountEvent,
    impl Fn(&AccountCommand, &i64) -> Result<Vec<AccountEvent>, String>,
    impl Fn(&i64, &AccountEvent) -> i64,
    impl Fn() -> i64,
    String,
> {
    AggregateDecider::new(
        |command: &AccountCommand, balance: &i64| -> Result<Vec<AccountEvent>, String> {
            match command {
                AccountCommand::Deposit(amount) => Ok(vec![AccountEvent::Deposited(*amount)]),
                AccountCommand::Withdraw(amount) => {
                    if amount > balance {
                        Err(format!("insufficient funds: {} > {}", amount, balance))
                    } else {
                        Ok(vec![AccountEvent::Withdrawn(*amount)])
                    }
                }
            }
        },
        |balance: &i64, event: &AccountEvent| match event {
            AccountEvent::Deposited(amount) => balance + amount,
            AccountEvent::Withdrawn(amount) => balance - amount,
        },
        || 0,
    )
}

#[test]
fn event_sourced_decides_against_the_replayed_history() {
    let decider = account();
    let history = vec![AccountEvent::Deposited(100), AccountEvent::Withdrawn(30)];
    let result = decider.compute_new_events(&history, &AccountCommand::Withdraw(70));
    assert_eq!(result, Ok(vec![AccountEvent::Withdrawn(70)]));
    let refused = decider.compute_new_events(&history, &AccountCommand::Withdraw(71));
    assert_eq!(refused, Err("insufficient funds: 71 > 70".to_string()));
}

#[test]
fn event_sourced_with_no_history_starts_from_the_initial_state() {
    let decider = account();
    let refused = decider.compute_new_events(&Vec::<AccountEvent>::new(), &AccountCommand::Withdraw(1));
    assert_eq!(refused, Err("insufficient funds: 1 > 0".to_string()));
    let accepted = decider.compute_new_events(&Vec::<AccountEvent>::new(), &AccountCommand::Deposit(5));
    assert_eq!(accepted, Ok(vec![AccountEvent::Deposited(5)]));
}

#[test]
fn state_stored_folds_the_decided_events_into_the_stored_state() {
    let decider = account();
    assert_eq!(decider.compute_new_state(Some(40), &AccountCommand::Deposit(2)), Ok(42));
    assert_eq!(decider.compute_new_state(Some(40), &AccountCommand::Withdraw(40)), Ok(0));
    assert_eq!(
        decider.compute_new_state(Some(40), &AccountCommand::Withdraw(41)),
        Err("insufficient funds: 41 > 40".to_string())
    );
}

#[test]
fn state_stored_without_a_stored_state_uses_the_initial_state() {
    let decider = account();
    assert_eq!(decider.compute_new_state(None, &AccountCommand::Deposit(7)), Ok(7));
    assert_eq!(
        decider.compute_new_state(None, &AccountCommand::Withdraw(7)),
        Err("insufficient funds: 7 > 0".to_string())
    );
}

#[test]
fn state_stored_agrees_with_event_sourced() {
    let decider = account();
    let history = vec![
        AccountEvent::Deposited(100),
        AccountEvent::Withdrawn(30),
        AccountEvent::Deposited(5),
    ];
    let command = AccountCommand::Withdraw(50);
    let replayed = replay(&decider, &history);
    assert_eq!(replayed, 75);

    let new_events = decider.compute_new_events(&history, &command).unwrap();
    let mut extended = history.clone();
    extended.extend(new_events);
    let event_sourced_state = replay(&decider, &extended);

    let state_stored_state = decider.compute_new_state(Some(replayed), &command).unwrap();
    assert_eq!(event_sourced_state, state_stored_state);
    assert_eq!(state_stored_state, 25);
}

#[test]
fn both_models_report_the_same_refusal() {
    let decider = account();
    let history = vec![AccountEvent::Deposited(10)];
    let command = AccountCommand::Withdraw(11);
    let replayed = replay(&decider, &history);
    assert_eq!(
        decider.compute_new_events(&history, &command),
        Err("insufficient funds: 11 > 10".to_string())
    );
    assert_eq!(
        decider.compute_new_state(Some(replayed), &command),
        Err("insufficient funds: 11 > 10".to_string())
    );
}

#[test]
fn computations_are_deterministic() {
    let decider = account();
    let history = vec![AccountEvent::Deposited(3), AccountEvent::Deposited(4)];
    let first = decider.compute_new_events(&history, &AccountCommand::Withdraw(2));
    let second = decider.compute_new_events(&history, &AccountCommand::Withdraw(2));
    assert_eq!(first, second);
    let first_state = decider.compute_new_state(Some(9), &AccountCommand::Deposit(1));
    let second_state = decider.compute_new_state(Some(9), &AccountCommand::Deposit(1));
    assert_eq!(first_state, second_state);
    assert_eq!(first_state, Ok(10));
}

#[test]
fn map_error_changes_only_the_error() {
    let decider = account().map_error(|message: String| message.len());
    assert_eq!(decider.compute_new_events(&Vec::<AccountEvent>::new(), &AccountCommand::Withdraw(1)), Err(25));
    assert_eq!(
        decider.compute_new_events(&Vec::<AccountEvent>::new(), &AccountCommand::Deposit(1)),
        Ok(vec![AccountEvent::Deposited(1)])
    );
}

#[test]
fn combined_decider_tags_the_error_of_its_part() {
    let combined = account().combine(account().map_error(|message: String| message.len()));
    let s0 = (combined.initial_state)();
    assert_eq!(s0, (0, 0));
    let first = (combined.decide)(&Sum::First(AccountCommand::Withdraw(3)), &s0);
    assert_eq!(first, Err(Sum::First("insufficient funds: 3 > 0".to_string())));
    let second = (combined.decide)(&Sum::Second(AccountCommand::Withdraw(3)), &s0);
    assert_eq!(second, Err(Sum::Second(25)));
    let events = (combined.decide)(&Sum::Second(AccountCommand::Deposit(4)), &s0).unwrap();
    assert_eq!(events, vec![Sum::Second(AccountEvent::Deposited(4))]);
    let s1 = (combined.evolve)(&s0, &events[0]);
    assert_eq!(s1, (0, 4));
}

#[test]
fn combined_decider_computes_both_models() {
    let combined = account().combine(account());
    let history = vec![
        Sum::First(AccountEvent::Deposited(10)),
        Sum::Second(AccountEvent::Deposited(20)),
    ];
    let events = combined.compute_new_events(&history, &Sum::Second(AccountCommand::Withdraw(15)));
    assert_eq!(events, Ok(vec![Sum::Second(AccountEvent::Withdrawn(15))]));
    let state = combined.compute_new_state(Some((10, 20)), &Sum::First(AccountCommand::Withdraw(10)));
    assert_eq!(state, Ok((0, 20)));
}

#[derive(Debug, Clone, PartialEq)]
enum Upstream {
    Measured(i32),
}

#[derive(Debug, Clone, PartialEq)]
enum Downstream {
    ThresholdExceeded { total: i32 },
}

fn threshold() -> DCBDecider<
    i32,
    i32,
    Upstream,
    Downstream,
    impl Fn(&i32, &i32) -> Result<Vec<Downstream>, String>,
    impl Fn(&i32, &Upstream) -> i32,
    impl Fn() -> i32,
    String,
> {
    DCBDecider::new(
        |limit: &i32, total: &i32| -> Result<Vec<Downstream>, String> {
            if total > limit {
                Ok(vec![Downstream::ThresholdExceeded { total: *total }])
            } else {
                Ok(vec![])
            }
        },
        |total: &i32, event: &Upstream| match event {
            Upstream::Measured(n) => total + n,
        },
        || 0,
    )
}

#[test]
fn dcb_decider_decides_on_replayed_input_events() {
    let decider = threshold();
    let history = vec![Upstream::Measured(4), Upstream::Measured(9)];
    assert_eq!(
        decider.compute_new_events(&history, &10),
        Ok(vec![Downstream::ThresholdExceeded { total: 13 }])
    );
    assert_eq!(decider.compute_new_events(&history, &13), Ok(vec![]));
    assert_eq!(decider.compute_new_events(&Vec::<Upstream>::new(), &-1), Ok(vec![Downstream::ThresholdExceeded { total: 0 }]));
}

#[test]
fn projection_replay_and_merge() {
    let count = Projection::new(|n: &usize, _e: &i32| n + 1, || 0usize);
    let sum = Projection::new(|s: &i32, e: &i32| s + e, || 0i32);
    let events = vec![3, -1, 5];
    assert_eq!(replay(&count, &events), 3);
    assert_eq!(replay(&sum, &events), 7);

    let merged = count.merge(sum);
    assert_eq!(merged.initial_state(), (0, 0));
    assert_eq!(merged.evolve(&(1, 10), &4), (2, 14));
    assert_eq!(replay(&merged, &events), (3, 7));
    assert_eq!(replay(&merged, &Vec::<i32>::new()), (0, 0));
}

#[test]
fn projection_map_event_parses_before_evolving() {
    let sum = Projection::new(|s: &i32, e: &i32| s + e, || 0i32)
        .map_event(|text: &String| text.parse::<i32>().unwrap());
    let events = vec!["2".to_string(), "40".to_string()];
    assert_eq!(replay(&sum, &events), 42);
}

#[derive(Debug, Clone, PartialEq)]
enum Job {
    Queued(u32),
    Done(u32),
}

fn job_process() -> Process<
    u32,
    Vec<u32>,
    Job,
    String,
    impl Fn(&u32, &Vec<u32>) -> Result<Vec<Job>, String>,
    impl Fn(&Vec<u32>, &Job) -> Vec<u32>,
    impl Fn() -> Vec<u32>,
    impl Fn(&Vec<u32>, &Job) -> Vec<String>,
    impl Fn(&Vec<u32>) -> Vec<String>,
    String,
> {
    Process::new(
        |finished: &u32, queue: &Vec<u32>| -> Result<Vec<Job>, String> {
            if queue.contains(finished) {
                Ok(vec![Job::Done(*finished)])
            } else {
                Err(format!("job {} is not queued", finished))
            }
        },
        |queue: &Vec<u32>, event: &Job| {
            let mut next = queue.clone();
            match event {
                Job::Queued(id) => next.push(*id),
                Job::Done(id) => next.retain(|j| j != id),
            }
            next
        },
        || Vec::new(),
        |queue: &Vec<u32>, event: &Job| match event {
            Job::Queued(id) if queue.contains(id) => vec![format!("run {}", id)],
            _ => vec![],
        },
        |queue: &Vec<u32>| queue.iter().map(|id| format!("run {}", id)).collect(),
    )
}

#[test]
fn process_computes_both_models_and_its_todo_list() {
    let process = job_process();
    let history = vec![Job::Queued(1), Job::Queued(2)];
    assert_eq!(process.compute_new_events(&history, &2), Ok(vec![Job::Done(2)]));
    assert_eq!(process.compute_new_events(&history, &3), Err("job 3 is not queued".to_string()));
    assert_eq!(process.compute_new_state(Some(vec![1, 2]), &1), Ok(vec![2]));
    assert_eq!(process.compute_new_state(None, &1), Err("job 1 is not queued".to_string()));

    let state = replay(&process, &history);
    assert_eq!(state, vec![1, 2]);
    let pending = process.pending(&state);
    assert_eq!(pending, vec!["run 1".to_string(), "run 2".to_string()]);
    let reacted = process.react(&state, &Job::Queued(2));
    assert_eq!(reacted, vec!["run 2".to_string()]);
    assert!(reacted.iter().all(|a| pending.contains(a)));
    assert_eq!(process.react(&state, &Job::Done(2)), Vec::<String>::new());
}

#[test]
fn materialized_view_update_agrees_with_replay() {
    let sum = Projection::new(|s: &i32, e: &i32| s + e, || 0i32);
    let history = vec![4, -2, 9];
    let stored = replay(&sum, &history);
    let updated = sum.evolve(&stored, &10);
    let mut all = history.clone();
    all.push(10);
    assert_eq!(updated, replay(&sum, &all));
    assert_eq!(updated, 21);
    assert_eq!(replay(&sum, &all), replay(&sum, &all));
}

#[test]
fn combined_decider_answers_each_part_on_its_own_events() {
    let combined = account().combine(threshold_as_aggregate());
    let history = vec![
        Sum::First(AccountEvent::Deposited(10)),
        Sum::Second(7),
        Sum::First(AccountEvent::Withdrawn(4)),
        Sum::Second(5),
    ];
    let firsts = vec![AccountEvent::Deposited(10), AccountEvent::Withdrawn(4)];
    let seconds = vec![7, 5];
    assert_eq!(replay(&combined, &history), (replay(&account(), &firsts), replay(&threshold_as_aggregate(), &seconds)));
    assert_eq!(
        combined.compute_new_events(&history, &Sum::First(AccountCommand::Withdraw(7))),
        Err(Sum::First("insufficient funds: 7 > 6".to_string()))
    );
    assert_eq!(
        account().compute_new_events(&firsts, &AccountCommand::Withdraw(7)),
        Err("insufficient funds: 7 > 6".to_string())
    );
    assert_eq!(
        combined.compute_new_events(&history, &Sum::Second(())),
        Ok(vec![Sum::Second(12)])
    );
    assert_eq!(threshold_as_aggregate().compute_new_events(&seconds, &()), Ok(vec![12]));
}

fn threshold_as_aggregate() -> AggregateDecider<
    (),
    i32,
    i32,
    impl Fn(&(), &i32) -> Result<Vec<i32>, String>,
    impl Fn(&i32, &i32) -> i32,
    impl Fn() -> i32,
    String,
> {
    AggregateDecider::new(
        |_command: &(), total: &i32| -> Result<Vec<i32>, String> { Ok(vec![*total]) },
        |total: &i32, event: &i32| total + event,
        || 0,
    )
}

#[test]
fn merged_projection_replays_each_part_on_all_events() {
    let count = || Projection::new(|n: &usize, _e: &i32| n + 1, || 0usize);
    let sum = || Projection::new(|s: &i32, e: &i32| s + e, || 0i32);
    let merged = count().merge(sum());
    let events = vec![1, 2, 3, 4];
    assert_eq!(replay(&merged, &events), (replay(&count(), &events), replay(&sum(), &events)));
    assert_eq!(replay(&merged, &events), (4, 10));
}

#[test]
fn state_mapped_decider_answers_as_the_decider() {
    let mapped = account().map_state(|text: &String| text.parse::<i64>().unwrap(), |balance: &i64| balance.to_string());
    let history = vec![AccountEvent::Deposited(30), AccountEvent::Withdrawn(12)];
    assert_eq!(replay(&mapped, &history), replay(&account(), &history).to_string());
    assert_eq!(replay(&mapped, &history), "18");
    assert_eq!(
        mapped.compute_new_events(&history, &AccountCommand::Withdraw(19)),
        account().compute_new_events(&history, &AccountCommand::Withdraw(19))
    );
    assert_eq!(
        mapped.compute_new_events(&history, &AccountCommand::Withdraw(18)),
        Ok(vec![AccountEvent::Withdrawn(18)])
    );
}

#[test]
fn reaction_outcome_lies_within_pending_outcome() {
    let process = job_process();
    let spec = ProcessTestSpecification::default()
        .for_process(&process)
        .given(vec![Job::Queued(1), Job::Queued(2), Job::Queued(3)]);
    let (react_state, reacted) = spec.react_outcome().unwrap();
    let (pending_state, pending) = spec.pending_outcome().unwrap();
    assert_eq!(react_state, pending_state);
    assert_eq!(reacted, vec!["run 3".to_string()]);
    assert!(reacted.iter().all(|a| pending.contains(a)));
}
