use openml::id::{decimal_text, number, Id};

#[test]
fn number_as_text() {
    assert_eq!(166850u32.as_string(), "166850");
    assert_eq!(0u32.as_string(), "0");
    assert_eq!(7u32.as_string(), "7");
    assert_eq!(10u32.as_string(), "10");
    assert_eq!(u32::MAX.as_string(), "4294967295");
    assert_eq!(decimal_text(1002003), "1002003");
}

#[test]
fn number_as_number() {
    assert_eq!(146825u32.as_u32(), 146825);
}

#[test]
fn text_as_text() {
    assert_eq!("31".as_string(), "31");
    assert_eq!("31".to_string().as_string(), "31");
}

#[test]
fn text_as_number() {
    assert_eq!("31".as_u32(), 31);
    assert_eq!("0".as_u32(), 0);
    assert_eq!("007".as_u32(), 7);
    assert_eq!("+42".as_u32(), 42);
    assert_eq!("4294967295".to_string().as_u32(), u32::MAX);
    assert_eq!(number("166850"), 166850);
}

#[test]
fn text_as_number_agrees_with_std() {
    for text in ["1", "+1", "0010", "999999999", "+0"] {
        assert_eq!(text.as_u32(), text.parse::<u32>().unwrap());
    }
}
