use replay_toolbox::{retry_result_error, retry_step, run_retry, ReplayError, RequestOutcome,
    RetryDecision, RetryPolicy, RetryResult};

fn policy() -> RetryPolicy {
    RetryPolicy::default()
}

#[test]
fn default_policy_is_five_attempts_from_two_seconds() {
    let p = policy();
    assert_eq!(p.max_attempts, 5);
    assert_eq!(p.base_delay_secs, 2);
}

#[test]
fn k_failures_then_success_takes_k_plus_one_attempts() {
    // exactly k < 5 transport failures, then a success
    for k in 0..5usize {
        let mut outcomes = vec![RequestOutcome::TransportFailure; k];
        outcomes.push(RequestOutcome::Response(200));
        while outcomes.len() < 5 {
            outcomes.push(RequestOutcome::TransportFailure);
        }
        let sim = run_retry(&policy(), &outcomes);
        assert_eq!(sim.result, RetryResult::Succeeded { attempts: (k + 1) as u32 });
        // one doubling backoff per failure: 2, 4, 8, 16
        let expected: Vec<u64> = (0..k).map(|i| 2u64 << i).collect();
        assert_eq!(sim.delays, expected);
    }
}

#[test]
fn five_failures_exhaust_the_attempts() {
    let outcomes = vec![RequestOutcome::TransportFailure; 5];
    let sim = run_retry(&policy(), &outcomes);
    assert_eq!(sim.result, RetryResult::Exhausted { attempts: 5 });
    // the last failed attempt is not slept on
    assert_eq!(sim.delays, vec![2, 4, 8, 16]);
    let err = retry_result_error("http://host/x".to_string(), &sim.result).unwrap();
    assert_eq!(err, ReplayError::NetworkError { url: "http://host/x".to_string(), attempts: 5 });
}

#[test]
fn non_success_status_is_not_retried() {
    let outcomes = vec![
        RequestOutcome::Response(404),
        RequestOutcome::Response(200),
        RequestOutcome::Response(200),
        RequestOutcome::Response(200),
        RequestOutcome::Response(200),
    ];
    let sim = run_retry(&policy(), &outcomes);
    assert_eq!(sim.result, RetryResult::FailedStatus { attempts: 1, status: 404 });
    assert_eq!(sim.delays, Vec::<u64>::new());
    let err = retry_result_error("u".to_string(), &sim.result).unwrap();
    assert_eq!(err, ReplayError::ServerError { url: "u".to_string(), status: 404 });
}

#[test]
fn status_after_failures_is_not_retried_either() {
    let outcomes = vec![
        RequestOutcome::TransportFailure,
        RequestOutcome::Response(500),
        RequestOutcome::Response(200),
        RequestOutcome::Response(200),
        RequestOutcome::Response(200),
    ];
    let sim = run_retry(&policy(), &outcomes);
    assert_eq!(sim.result, RetryResult::FailedStatus { attempts: 2, status: 500 });
    assert_eq!(sim.delays, vec![2]);
}

#[test]
fn success_keeps_no_error() {
    let sim = run_retry(&policy(), &vec![RequestOutcome::Response(204); 5]);
    assert_eq!(sim.result, RetryResult::Succeeded { attempts: 1 });
    assert!(retry_result_error("u".to_string(), &sim.result).is_none());
}

#[test]
fn step_decisions() {
    let p = policy();
    assert_eq!(retry_step(&p, 1, RequestOutcome::Response(200)), RetryDecision::Succeed);
    assert_eq!(retry_step(&p, 1, RequestOutcome::Response(299)), RetryDecision::Succeed);
    assert_eq!(retry_step(&p, 1, RequestOutcome::Response(300)), RetryDecision::FailStatus(300));
    assert_eq!(retry_step(&p, 1, RequestOutcome::Response(199)), RetryDecision::FailStatus(199));
    assert_eq!(retry_step(&p, 1, RequestOutcome::TransportFailure), RetryDecision::RetryAfter(2));
    assert_eq!(retry_step(&p, 4, RequestOutcome::TransportFailure), RetryDecision::RetryAfter(16));
    assert_eq!(retry_step(&p, 5, RequestOutcome::TransportFailure), RetryDecision::GiveUp(5));
}
