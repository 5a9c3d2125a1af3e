use gitlab_roulette::execute::{AssignmentError, ExecStep, Execution};

fn run(total: usize, fail_on_call: Option<usize>) -> (Result<usize, AssignmentError>, Vec<usize>) {
    let mut ex = Execution::new(total);
    let mut applied = Vec::new();
    let mut calls = 0;
    loop {
        match ex.next_step() {
            ExecStep::Apply(i) => {
                calls += 1;
                let ok = Some(calls) != fail_on_call;
                if ok {
                    applied.push(i);
                }
                ex.record(ok);
            }
            _ => break,
        }
    }
    (ex.outcome().unwrap(), applied)
}

#[test]
fn failure_on_third_of_five_stops_there() {
    let (r, applied) = run(5, Some(3));
    assert_eq!(r, Err(AssignmentError { failed_issue: 2, applied: 2 }));
    assert_eq!(applied, vec![0, 1]);
}

#[test]
fn all_writes_succeed() {
    let (r, applied) = run(5, None);
    assert_eq!(r, Ok(5));
    assert_eq!(applied, vec![0, 1, 2, 3, 4]);
}

#[test]
fn nothing_to_write_finishes_at_once() {
    let ex = Execution::new(0);
    assert_eq!(ex.next_step(), ExecStep::Finished);
    assert_eq!(ex.outcome(), Some(Ok(0)));
}

#[test]
fn outcome_is_pending_while_writing() {
    let mut ex = Execution::new(2);
    assert_eq!(ex.outcome(), None);
    ex.record(true);
    assert_eq!(ex.next_step(), ExecStep::Apply(1));
    assert_eq!(ex.outcome(), None);
}
