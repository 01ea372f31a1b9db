use snowman::node::{retry_decision, Node, NodeError, RetryStep};
use snowman::snowflake::{NodeId, Snowflake, MAX_SEQUENCE};

fn node(id: u16) -> Node {
    Node::new(NodeId::new(id).ok().expect("node id in range"), 0)
}

#[test]
fn first_identifier_of_a_fresh_millisecond_has_sequence_zero() {
    let mut n = node(3);
    let s = n.generate_at(5).ok().expect("fresh millisecond");
    assert_eq!(s.timestamp().millis(), 5);
    assert_eq!(s.node_id().value(), 3);
    assert_eq!(s.counter().value(), 0);
}

#[test]
fn same_millisecond_steps_the_sequence() {
    let mut n = node(3);
    let first = n.generate_at(5).ok().expect("fresh millisecond");
    let second = n.generate_at(5).ok().expect("sequence space left");
    assert_eq!(first.counter().value(), 0);
    assert_eq!(second.counter().value(), 1);
    assert_eq!(second.timestamp().millis(), 5);
    assert!(second.id > first.id);
}

#[test]
fn clock_regression_is_reported_and_leaves_state_unchanged() {
    let mut n = node(3);
    n.generate_at(5).ok().expect("fresh millisecond");
    // The clock is forced backward: the attempt fails and must not
    // touch last_timestamp or sequence.
    let r = n.generate_at(3);
    assert!(matches!(r, Err(NodeError::ClockRegression)));
    // The untouched state answers the next same-millisecond call with
    // the next sequence value of millisecond 5.
    let s = n.generate_at(5).ok().expect("sequence space left");
    assert_eq!(s.timestamp().millis(), 5);
    assert_eq!(s.counter().value(), 1);
}

#[test]
fn timestamp_overflow_is_reported() {
    let mut n = node(3);
    let r = n.generate_at(i64::MAX);
    assert!(matches!(r, Err(NodeError::Timestamp(_))));
    // Fatal for the epoch, but the state is untouched.
    let s = n.generate_at(5).ok().expect("fresh millisecond");
    assert_eq!(s.counter().value(), 0);
}

#[test]
fn sequence_overflow_is_reported_without_mutating_state() {
    let mut n = node(3);
    let mut issued: u16 = 0;
    while issued < MAX_SEQUENCE {
        let s = n.generate_at(7).ok().expect("sequence space left");
        assert_eq!(s.counter().value(), issued);
        issued += 1;
    }
    // The whole sequence space of millisecond 7 is used up.
    let r = n.generate_at(7);
    assert!(matches!(r, Err(NodeError::Counter(_))));
    // Unchanged state: the overflow repeats while the clock stands still.
    let r = n.generate_at(7);
    assert!(matches!(r, Err(NodeError::Counter(_))));
    // Once the clock advances, the sequence starts over at 0.
    let s = n.generate_at(8).ok().expect("fresh millisecond");
    assert_eq!(s.timestamp().millis(), 8);
    assert_eq!(s.counter().value(), 0);
}

#[test]
fn retry_budget_recovers_once_the_clock_advances() {
    let mut n = node(3);
    let mut issued: u16 = 0;
    while issued < MAX_SEQUENCE {
        n.generate_at(7).ok().expect("sequence space left");
        issued += 1;
    }
    // A bounded-retry run with max_retries = 5: the first attempts hit
    // overflow and are retried; the clock advances within the budget
    // and the call succeeds with the sequence reset to 0.
    let max_retries: usize = 5;
    let mut attempt: usize = 0;
    let mut outcome: Option<Result<Snowflake, NodeError>> = None;
    while outcome.is_none() {
        // The clock stands at 7 for the first three attempts, then
        // advances to 8.
        let now: i64 = if attempt < 3 { 7 } else { 8 };
        let r = n.generate_at(now);
        match retry_decision(r, max_retries - attempt) {
            RetryStep::Finish(r) => outcome = Some(r),
            RetryStep::Backoff => attempt += 1,
        }
    }
    let s = outcome.unwrap().ok().expect("clock advanced within budget");
    assert_eq!(s.timestamp().millis(), 8);
    assert_eq!(s.counter().value(), 0);
}

#[test]
fn zero_retries_exhaust_after_exactly_one_attempt() {
    let mut n = node(3);
    let mut issued: u16 = 0;
    while issued < MAX_SEQUENCE {
        n.generate_at(7).ok().expect("sequence space left");
        issued += 1;
    }
    // Persistent overflow under max_retries = 0: one attempt, then
    // RetriesExhausted, distinguishable from the per-attempt error.
    let mut attempts: usize = 0;
    let r = n.generate_at(7);
    attempts += 1;
    let step = retry_decision(r, 0);
    match step {
        RetryStep::Finish(outcome) => {
            assert!(matches!(outcome, Err(NodeError::RetriesExhausted)));
        }
        RetryStep::Backoff => panic!("a spent budget must not back off"),
    }
    assert_eq!(attempts, 1);
}

#[test]
fn retry_decision_passes_other_outcomes_through() {
    let step = retry_decision(Err(NodeError::ClockRegression), 5);
    assert!(matches!(
        step,
        RetryStep::Finish(Err(NodeError::ClockRegression))
    ));
    let mut n = node(3);
    let ok = n.generate_at(5);
    let step = retry_decision(ok, 0);
    assert!(matches!(step, RetryStep::Finish(Ok(_))));
}

#[test]
fn identifiers_strictly_increase_over_a_mixed_run() {
    let mut n = node(9);
    let instants: [i64; 8] = [2, 2, 2, 5, 5, 6, 9, 9];
    let mut previous: Option<i64> = None;
    for now in instants {
        let s = n.generate_at(now).ok().expect("clock never regresses here");
        if let Some(p) = previous {
            assert!(s.id > p);
        }
        previous = Some(s.id);
    }
}

#[test]
fn failed_attempts_never_break_the_increasing_order() {
    let mut n = node(9);
    let first = n.generate_at(5).ok().expect("fresh millisecond");
    // A regression attempt fails in between and touches nothing.
    assert!(n.generate_at(2).is_err());
    let second = n.generate_at(5).ok().expect("sequence space left");
    assert!(second.id > first.id);
    // An overflow run in millisecond 6 fails in between too.
    let mut issued: u16 = 0;
    while issued < MAX_SEQUENCE {
        n.generate_at(6).ok().expect("sequence space left");
        issued += 1;
    }
    assert!(n.generate_at(6).is_err());
    let third = n.generate_at(7).ok().expect("fresh millisecond");
    assert!(third.id > second.id);
}

#[test]
fn wall_clock_generation_produces_increasing_identifiers() {
    let mut n = node(1);
    let first = n.snowflake().ok().expect("wall clock past the epoch");
    let second = n.snowflake().ok().expect("wall clock past the epoch");
    assert!(second.id > first.id);
    assert_eq!(first.node_id().value(), 1);
    assert_eq!(second.node_id().value(), 1);
}
