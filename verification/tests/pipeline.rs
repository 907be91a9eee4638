use goudale::{run, Error, Value};

fn run_ok(source: &str) -> f64 {
    let value: Value = run(source.as_bytes()).expect("the grammar accepts this input");
    f64::from_bits(value.to_bits())
}

#[test]
fn test_run_accepts_and_evaluates() {
    assert_eq!(run_ok("1"), 1.);
    assert_eq!(run_ok("4000.53"), 4000.53);
    assert_eq!(run_ok("2 + 3 * 2"), 8.);
    assert_eq!(run_ok("2 (3 + 2)"), 10.);
    assert_eq!(run_ok(" ( 1 + 2 ) / 2 "), 1.5);
}

#[test]
fn test_run_rejects_malformed_input() {
    for source in ["", "a", "400a", "4000.53.10", "(1", "1 2", ")", "1 +", ".5"] {
        let result = run(source.as_bytes());
        assert!(matches!(result, Err(Error::Parser(_))), "{source:?} must be rejected");
    }
}

#[test]
fn test_value_accessors() {
    let v = Value::new(2.0f64.to_bits());
    assert_eq!(v.to_bits(), 2.0f64.to_bits());
    assert_eq!(v.bits, 2.0f64.to_bits());
}
