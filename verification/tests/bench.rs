use webasm_module::bench::{add1000000000_wasm, fibonacci_wasm, COUNT_TARGET, FIBONACCI_LIMIT};

#[test]
fn fibonacci_numbers_are_exact() {
    let expected = [0, 1, 1, 2, 3, 5, 8, 13, 21, 34, 55];
    for (n, value) in expected.iter().enumerate() {
        assert_eq!(fibonacci_wasm(n as i32), *value);
    }
    assert_eq!(fibonacci_wasm(25), 75025);
}

#[test]
fn fibonacci_of_a_negative_number_is_zero() {
    assert_eq!(fibonacci_wasm(-1), 0);
    assert_eq!(fibonacci_wasm(i32::MIN), 0);
}

#[test]
fn fibonacci_limit_is_forty_six() {
    assert_eq!(FIBONACCI_LIMIT, 46);
}

#[test]
fn counting_arrives_at_the_target() {
    assert_eq!(COUNT_TARGET, 1_000_000_000);
    assert_eq!(add1000000000_wasm(), 1_000_000_000);
}
