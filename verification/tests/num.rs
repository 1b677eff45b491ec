use retype::num::IncrementalU16;

fn typed(digits: &[u8]) -> u16 {
    let mut number = IncrementalU16::new();
    for digit in digits {
        number.push_digit(*digit);
    }
    number.value()
}

#[test]
fn number_starts_at_zero() {
    assert_eq!(IncrementalU16::new().value(), 0);
}

#[test]
fn digits_write_a_number() {
    assert_eq!(typed(&[1, 2, 0, 7]), 1207);
    assert_eq!(typed(&[0, 0, 4]), 4);
    assert_eq!(typed(&[6, 5, 5, 3, 5]), 65535);
}

#[test]
fn number_saturates() {
    assert_eq!(typed(&[6, 5, 5, 3, 6]), 65535);
    assert_eq!(typed(&[9, 9, 9, 9, 9, 9]), 65535);
    assert_eq!(typed(&[6, 5, 5, 3, 5, 0]), 65535);
    assert_eq!(typed(&[6, 5, 5, 3, 255]), 65535);
}

#[test]
fn number_is_forgotten() {
    let mut number = IncrementalU16::new();
    number.push_digit(8);
    number.clear();
    assert_eq!(number.value(), 0);
    number.push_digit(3);
    assert_eq!(number.value(), 3);
}
