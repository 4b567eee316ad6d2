use cookbook::geometry::Rectangle;
use cookbook::iterators::{fibonacci as fibonacci_stream, SquaredVec};
use cookbook::numbers::{fibonacci, sum_bucket};

#[test]
fn the_sixth_fibonacci_number_is_eight() {
    assert_eq!(fibonacci(6), 8);
}

#[test]
fn small_fibonacci_numbers() {
    assert_eq!(fibonacci(0), 0);
    assert_eq!(fibonacci(1), 1);
    assert_eq!(fibonacci(2), 1);
    assert_eq!(fibonacci(10), 55);
}

#[test]
fn sums_one_to_ten() {
    assert_eq!(sum_bucket(&[1, 2, 3, 4, 5, 6, 7, 8, 9, 10]), 55);
}

#[test]
fn sums_mixed_signs_and_nothing() {
    assert_eq!(sum_bucket(&[]), 0);
    assert_eq!(sum_bucket(&[-3, 3, -7]), -7);
}

#[test]
fn rectangle_measures() {
    let rect = Rectangle { height: 30, width: 20 };
    assert_eq!(rect.area(), 600);
    assert_eq!(rect.perimeter(), 100);
}

#[test]
fn the_stream_yields_the_first_ten_fibonacci_numbers() {
    let mut stream = fibonacci_stream();
    let mut fib: Vec<u32> = Vec::new();
    for _ in 0..10 {
        fib.push(stream.next().expect("the stream never ends"));
    }
    assert_eq!(fib, vec![0, 1, 1, 2, 3, 5, 8, 13, 21, 34]);
}

#[test]
fn squared_vec_squares_in_push_order() {
    let mut squared_vec = SquaredVec::new();
    squared_vec.push(1);
    squared_vec.push(2);
    squared_vec.push(3);
    squared_vec.push(4);
    assert_eq!(squared_vec.len(), 4);
    assert_eq!(squared_vec.as_slice(), &[1, 4, 9, 16]);
    let mut expected = 1;
    for (index, num) in squared_vec.as_slice().iter().enumerate() {
        expected = (index as i32 + 1) * (index as i32 + 1);
        assert_eq!(*num, expected);
    }
    assert_eq!(expected, 16);
}
