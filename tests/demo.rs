use rust_wasm::{add, calculate_factorial, complex_operation, fibonacci_sequence};

#[test]
fn it_works() {
    let result = add(2, 2);
    assert_eq!(result, 4);
}

#[test]
fn test_factorial() {
    assert_eq!(calculate_factorial(0), 1);
    assert_eq!(calculate_factorial(1), 1);
    assert_eq!(calculate_factorial(5), 120);
}

#[test]
fn test_fibonacci() {
    assert_eq!(fibonacci_sequence(1), vec![0]);
    assert_eq!(fibonacci_sequence(5), vec![0, 1, 1, 2, 3]);
}

#[test]
fn test_complex_operation() {
    let result = complex_operation(5);
    assert!(result.contains("Factorial: 120"));
    assert!(result.contains("Sequence: [0, 1, 1, 2, 3]"));
}

#[test]
fn factorial_largest() {
    assert_eq!(calculate_factorial(20), 2432902008176640000);
}

#[test]
fn fibonacci_edges() {
    assert_eq!(fibonacci_sequence(0), vec![0]);
    assert_eq!(fibonacci_sequence(2), vec![0, 1]);
    let long = fibonacci_sequence(94);
    assert_eq!(long.len(), 94);
    assert_eq!(long[93], 12200160415121876738);
}

#[test]
fn complex_operation_full_text() {
    let result = complex_operation(5);
    assert_eq!(
        result,
        "Input: 5\nFactorial: 120\nFibonacci Sum: 7\nDifference: 113\nSequence: [0, 1, 1, 2, 3]"
    );
    let small = complex_operation(1);
    assert_eq!(
        small,
        "Input: 1\nFactorial: 1\nFibonacci Sum: 0\nDifference: 1\nSequence: [0]"
    );
}

#[test]
fn add_large() {
    assert_eq!(add(u64::MAX - 1, 1), u64::MAX);
}
