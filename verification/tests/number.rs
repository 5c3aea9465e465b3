use tileview::number::Number;

fn number(value: f32) -> Number {
    Number::new(format!("{}", value), value.to_bits()).unwrap()
}

#[test]
fn number_keeps_text_and_bits() {
    let n = Number::new("1.5".to_string(), 1.5f32.to_bits()).unwrap();
    assert_eq!(n.as_str(), "1.5");
    assert_eq!(n.to_bits(), 1.5f32.to_bits());
    assert_eq!(n.clone(), n);
}

#[test]
fn number_takes_the_texts_of_printed_values() {
    for value in [0.0f32, -0.0, 1.0, -12.25, 3.4e38, 1e-40, f32::INFINITY, f32::NEG_INFINITY, f32::NAN] {
        assert!(Number::new(format!("{}", value), value.to_bits()).is_some());
        assert!(Number::new(format!("{:.2}", value), value.to_bits()).is_some());
        assert!(Number::new(format!("{:e}", value), value.to_bits()).is_some());
    }
}

#[test]
fn number_refuses_other_texts() {
    assert!(Number::new(String::new(), 0).is_none());
    assert!(Number::new("1\" /><script>".to_string(), 0).is_none());
    assert!(Number::new("<".to_string(), 0).is_none());
    assert!(Number::new("1 2".to_string(), 0).is_none());
    assert!(Number::new("12x".to_string(), 0).is_none());
    assert!(Number::new("\u{661}".to_string(), 0).is_none());
}

#[test]
fn numbers_compare_as_their_values() {
    let values = [0.0f32, -0.0, 1.0, -1.0, 1.0000001, 0.5, f32::MIN_POSITIVE, 1e-45, f32::MAX, f32::INFINITY, f32::NEG_INFINITY, f32::NAN, -f32::NAN];
    for a in values {
        for b in values {
            assert_eq!(number(a).equals(&number(b)), a == b);
        }
    }
}

#[test]
fn zeros_are_equal_and_nan_is_equal_to_nothing() {
    assert!(number(0.0).equals(&number(-0.0)));
    assert!(!number(f32::NAN).equals(&number(f32::NAN)));
    assert!(!number(1.0).equals(&number(f32::NAN)));
    assert!(number(f32::INFINITY).equals(&number(f32::INFINITY)));
    assert!(!number(f32::INFINITY).equals(&number(f32::NEG_INFINITY)));
}

#[test]
fn equality_goes_by_the_bits_not_by_the_text() {
    let a = Number::new("0.10".to_string(), 0.1f32.to_bits()).unwrap();
    let b = Number::new("0.1".to_string(), 0.1f32.to_bits()).unwrap();
    assert!(a.equals(&b));
    let c = Number::new("0.1".to_string(), 0.2f32.to_bits()).unwrap();
    assert!(!b.equals(&c));
}
