use my_http_server::decimal::to_decimal;
use my_http_server::error::PoolCreationError;

#[test]
fn new_keeps_the_message() {
    let e = PoolCreationError::new("no room left");
    assert_eq!(e.message(), "no room left");
}

#[test]
fn new_keeps_an_empty_message() {
    let e = PoolCreationError::new("");
    assert_eq!(e.message(), "");
    assert_eq!(e.to_string(), "PoolCreationError ");
}

#[test]
fn zero_size_message_is_exact() {
    let e = PoolCreationError::zero_size();
    assert_eq!(e.message(), "Size must be larger than 0.");
}

#[test]
fn spawn_failure_names_the_worker() {
    let e = PoolCreationError::spawn_failed(3);
    assert_eq!(e.message(), "Could not spawn the thread of id: 3.");
}

#[test]
fn spawn_failure_names_worker_zero() {
    let e = PoolCreationError::spawn_failed(0);
    assert_eq!(e.message(), "Could not spawn the thread of id: 0.");
}

#[test]
fn spawn_failure_names_a_worker_of_many_digits() {
    let e = PoolCreationError::spawn_failed(1024);
    assert_eq!(e.message(), "Could not spawn the thread of id: 1024.");
}

#[test]
fn rendering_puts_the_type_name_first() {
    let e = PoolCreationError::zero_size();
    assert_eq!(e.to_string(), "PoolCreationError Size must be larger than 0.");
}

#[test]
fn debug_shows_the_message() {
    let e = PoolCreationError::new("x");
    assert_eq!(format!("{:?}", e), "PoolCreationError { message: \"x\" }");
}

#[test]
fn decimal_of_single_digits() {
    assert_eq!(to_decimal(0), "0");
    assert_eq!(to_decimal(1), "1");
    assert_eq!(to_decimal(2), "2");
    assert_eq!(to_decimal(3), "3");
    assert_eq!(to_decimal(4), "4");
    assert_eq!(to_decimal(5), "5");
    assert_eq!(to_decimal(6), "6");
    assert_eq!(to_decimal(7), "7");
    assert_eq!(to_decimal(8), "8");
    assert_eq!(to_decimal(9), "9");
}

#[test]
fn decimal_keeps_the_order_of_the_digits() {
    assert_eq!(to_decimal(10), "10");
    assert_eq!(to_decimal(99), "99");
    assert_eq!(to_decimal(100), "100");
    assert_eq!(to_decimal(1203), "1203");
    assert_eq!(to_decimal(9876543210), "9876543210");
}

#[test]
fn decimal_of_the_largest_number() {
    assert_eq!(to_decimal(usize::MAX), format!("{}", usize::MAX));
}
