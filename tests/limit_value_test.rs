use intervals::{Error, LimitValue};

#[test]
fn it_works() {
    assert_eq!(LimitValue::Limit(1), LimitValue::Limit(1));
    assert!(LimitValue::Limit(1) < LimitValue::Limit(2));
    assert!(LimitValue::Limit(2) > LimitValue::Limit(1));
    assert_eq!(LimitValue::<i32>::Limitless, LimitValue::<i32>::Limitless);
    assert!(LimitValue::Limitless < LimitValue::Limit(1));
    assert!(LimitValue::Limit(1) > LimitValue::Limitless);
}

#[test]
fn limit_value_predicates() {
    assert!(LimitValue::Limit(3).is_limit());
    assert!(!LimitValue::Limit(3).is_limitless());
    assert!(LimitValue::<i32>::Limitless.is_limitless());
    assert!(!LimitValue::<i32>::Limitless.is_limit());
}

#[test]
fn limit_value_to_value() {
    assert_eq!(LimitValue::Limit(7).to_value(), Ok(&7));
    assert_eq!(LimitValue::<i32>::Limitless.to_value(), Err(Error::NotFoundError));
}

#[test]
fn limit_value_to_value_or() {
    let fallback = 42;
    assert_eq!(*LimitValue::Limit(7).to_value_or(|| &fallback), 7);
    assert_eq!(*LimitValue::Limitless.to_value_or(|| &fallback), 42);
}

#[test]
fn limit_value_from_option() {
    assert_eq!(LimitValue::from(Some(4)), LimitValue::Limit(4));
    assert_eq!(LimitValue::<i32>::from(None), LimitValue::Limitless);
}

#[test]
fn limit_value_default_and_text() {
    assert_eq!(LimitValue::<i32>::default(), LimitValue::Limit(0));
    assert_eq!(LimitValue::Limit(12).to_string(), "Limit(12)");
    assert_eq!(LimitValue::<i32>::Limitless.to_string(), "Limitless");
}

#[test]
fn limit_value_equality_is_by_value() {
    assert_ne!(LimitValue::Limit(1), LimitValue::Limit(2));
    assert_ne!(LimitValue::Limit(1), LimitValue::Limitless);
}
