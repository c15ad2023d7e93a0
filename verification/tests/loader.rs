use moonshot::loader::{load, LoadError};
use moonshot::spec::{MeasDim, StateDim};

#[test]
fn model_text_is_decoded() {
    let text = "Kalman((dt: (0.1), cayley_alpha: 1.0, state_scale: [1.0, 1.0, 1.0, 1.0]))";
    assert_eq!(load(text.as_bytes().to_vec()).unwrap(), text);
    assert_eq!(load("α = 0.5".as_bytes().to_vec()).unwrap(), "α = 0.5");
    assert_eq!(load(Vec::new()).unwrap(), "");
}

#[test]
fn bytes_that_are_no_utf8_are_refused() {
    assert_eq!(
        load(vec![b'a', b'b', 0xFF, b'c']),
        Err(LoadError::NotUtf8 { valid_up_to: 2 })
    );
    assert_eq!(load(vec![0xE2, 0x82]), Err(LoadError::NotUtf8 { valid_up_to: 0 }));
}

#[test]
fn dimensions_compare_by_value() {
    assert_eq!(StateDim(4), StateDim(4));
    assert_ne!(MeasDim(2), MeasDim(1));
}
