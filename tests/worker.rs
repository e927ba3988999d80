use arma_bench::worker::{
    check_ids, compare_response, execute_response, job_kind, job_step, new_job, result_file_name,
    JobAction, JobEvent, JobKind, JobStage,
};
use arma_bench::{CompareRequest, CompareResult, ExecuteResult, Request, Response, Value};

fn item(id: u16, content: &str) -> CompareRequest {
    CompareRequest { id, sqfc: false, content: content.as_bytes().to_vec() }
}

fn result(id: u16) -> CompareResult {
    CompareResult { id, time_bits: 0.25f64.to_bits(), iter: 100, ret: Value::Number(3.0f64.to_bits()) }
}

fn two_items() -> Request {
    Request::Compare(vec![item(0, "private _a = 1; private _b = 2; _a + _b"), item(1, "1 + 2")])
}

#[test]
fn compare_ids_come_from_the_request() {
    match job_kind(&two_items()) {
        JobKind::Compare(ids) => assert_eq!(ids, vec![0, 1]),
        JobKind::Execute => panic!("expected compare"),
    }
    assert!(matches!(job_kind(&Request::Execute("1 + 2".to_string())), JobKind::Execute));
}

#[test]
fn compare_results_must_answer_each_item() {
    assert!(check_ids(&[0, 1], &[result(0), result(1)]));
    assert!(check_ids(&[0, 1], &[result(1), result(0)]));
    assert!(check_ids(&[5, 5, 2], &[result(5), result(2), result(5)]));
    assert!(!check_ids(&[0, 0], &[result(0), result(1)]));
    assert!(!check_ids(&[0, 1], &[result(1), result(1)]));
    assert!(!check_ids(&[0, 1], &[result(0)]));
    assert!(check_ids(&[], &[]));
    match compare_response(&[0, 1], Ok(vec![result(0), result(1)])) {
        Response::Compare(Ok(rs)) => {
            assert_eq!(rs.len(), 2);
            assert_eq!(rs[0].id, 0);
            assert_eq!(rs[1].id, 1);
            for r in &rs {
                assert!(matches!(r.ret, Value::Number(b) if f64::from_bits(b) == 3.0));
            }
        }
        _ => panic!("expected results"),
    }
    match compare_response(&[0, 1], Ok(vec![result(1), result(0)])) {
        Response::Compare(Ok(rs)) => assert_eq!((rs[0].id, rs[1].id), (1, 0)),
        _ => panic!("results in another order still answer the request"),
    }
    match compare_response(&[0, 1], Ok(vec![result(0), result(7)])) {
        Response::Error(e) => assert_eq!(e, "result ids do not match the request"),
        _ => panic!("expected an error"),
    }
    assert!(matches!(compare_response(&[0], Err("gone".to_string())), Response::Error(ref e) if e == "gone"));
}

#[test]
fn execute_harvest() {
    let ok = execute_response(Ok(ExecuteResult { time_bits: 0, iter: 1, ret: Value::Null }));
    assert!(matches!(ok, Response::Execute(Ok(ref r)) if r.iter == 1));
    assert!(matches!(execute_response(Err("no file".to_string())), Response::Error(ref e) if e == "no file"));
}

#[test]
fn successful_compare_job() {
    let mut job = new_job(&two_items());
    assert!(matches!(job.stage, JobStage::Launching));
    assert!(matches!(job_step(&mut job, JobEvent::Launched), JobAction::WaitForExit));
    assert!(matches!(job_step(&mut job, JobEvent::Exited), JobAction::ReadResults));
    assert_eq!(result_file_name(&job.kind), "compare.txt");
    match job_step(&mut job, JobEvent::CompareHarvested(Ok(vec![result(0), result(1)]))) {
        JobAction::Finish(Response::Compare(Ok(rs))) => assert_eq!(rs.len(), 2),
        _ => panic!("expected the results"),
    }
    assert!(matches!(job.stage, JobStage::Finished));
    assert!(matches!(job_step(&mut job, JobEvent::Exited), JobAction::Nothing));
}

#[test]
fn launch_failure_finishes_the_job() {
    let mut job = new_job(&Request::Execute("1 + 2".to_string()));
    match job_step(&mut job, JobEvent::LaunchFailed("STEAM_USER not set".to_string())) {
        JobAction::Finish(Response::Error(e)) => assert_eq!(e, "STEAM_USER not set"),
        _ => panic!("expected an error"),
    }
    assert!(matches!(job.stage, JobStage::Finished));
}

#[test]
fn watchdog_timeout_finishes_with_an_error() {
    let mut job = new_job(&Request::Execute("while {true} do {}".to_string()));
    job_step(&mut job, JobEvent::Launched);
    job_step(&mut job, JobEvent::Exited);
    assert_eq!(result_file_name(&job.kind), "execute.txt");
    let action = job_step(&mut job, JobEvent::ExecuteHarvested(Err("execute.txt: not found".to_string())));
    assert!(matches!(action, JobAction::Finish(Response::Error(_))));
    assert!(matches!(job.stage, JobStage::Finished));
}

#[test]
fn execute_job_yields_its_result() {
    let mut job = new_job(&Request::Execute("1 + 2".to_string()));
    job_step(&mut job, JobEvent::Launched);
    job_step(&mut job, JobEvent::Exited);
    let r = ExecuteResult { time_bits: 0.001f64.to_bits(), iter: 10000, ret: Value::Number(3.0f64.to_bits()) };
    match job_step(&mut job, JobEvent::ExecuteHarvested(Ok(r))) {
        JobAction::Finish(Response::Execute(Ok(r))) => {
            assert!(r.iter >= 1);
            assert!(f64::from_bits(r.time_bits) >= 0.0);
            assert!(matches!(r.ret, Value::Number(b) if f64::from_bits(b) == 3.0));
        }
        _ => panic!("expected the result"),
    }
}

#[test]
fn events_out_of_turn_end_the_job() {
    let mut job = new_job(&Request::Execute("1".to_string()));
    match job_step(&mut job, JobEvent::Exited) {
        JobAction::Finish(Response::Error(e)) => assert_eq!(e, "unexpected job event"),
        _ => panic!("expected an error"),
    }
    let mut job = new_job(&Request::Execute("1".to_string()));
    job_step(&mut job, JobEvent::Launched);
    job_step(&mut job, JobEvent::Exited);
    let action = job_step(&mut job, JobEvent::CompareHarvested(Ok(vec![])));
    assert!(matches!(action, JobAction::Finish(Response::Error(ref e)) if e == "unexpected job event"));
}
