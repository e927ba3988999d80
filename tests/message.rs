use arma_bench::message::{compare_outcome, execute_outcome};
use arma_bench::{CompareResult, ExecuteResult, Response, ServerConfig, Value, DEFAULT_PORT};

fn three() -> Value {
    Value::Number(3.0f64.to_bits())
}

#[test]
fn default_config() {
    let c = ServerConfig::default();
    assert_eq!(c.binary, "arma3server_x64");
    assert_eq!(c.branch, "public");
    assert_eq!(c.branch_password, "");
    let d = c.duplicate();
    assert_eq!(d.binary, c.binary);
    assert_eq!(DEFAULT_PORT, 7562);
}

#[test]
fn execute_outcomes() {
    let ok = Response::Execute(Ok(ExecuteResult { time_bits: 0.5f64.to_bits(), iter: 10, ret: three() }));
    match execute_outcome(ok) {
        Ok(r) => {
            assert_eq!(f64::from_bits(r.time_bits), 0.5);
            assert_eq!(r.iter, 10);
            assert!(matches!(r.ret, Value::Number(b) if f64::from_bits(b) == 3.0));
        }
        Err(_) => panic!("expected a result"),
    }
    assert_eq!(execute_outcome(Response::Execute(Err("boom".to_string()))).err(), Some("boom".to_string()));
    assert_eq!(execute_outcome(Response::Error("bad".to_string())).err(), Some("bad".to_string()));
    assert_eq!(
        execute_outcome(Response::Compare(Ok(vec![]))).err(),
        Some("Invalid response".to_string())
    );
}

#[test]
fn compare_outcomes() {
    let rs = vec![CompareResult { id: 4, time_bits: 0, iter: 1, ret: Value::Null }];
    match compare_outcome(Response::Compare(Ok(rs))) {
        Ok(v) => assert_eq!(v.len(), 1),
        Err(_) => panic!("expected results"),
    }
    assert_eq!(compare_outcome(Response::Compare(Err("e".to_string()))).err(), Some("e".to_string()));
    assert_eq!(compare_outcome(Response::Error("bad".to_string())).err(), Some("bad".to_string()));
    assert_eq!(
        compare_outcome(Response::Execute(Err("x".to_string()))).err(),
        Some("Invalid response".to_string())
    );
}
