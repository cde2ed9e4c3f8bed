use eth_pir::record::RECORD_BYTES;
use eth_pir::shape::DIGIT_BYTES;
use eth_pir::{default_shape, Collapse, DatabaseLayout, DEFAULT_CAPACITY};

#[test]
fn default_shape_has_expected_capacity() {
    let (_config, layout) = default_shape();
    assert_eq!(
        layout.rows * layout.cols * DIGIT_BYTES / RECORD_BYTES,
        33_554_432
    );
    assert_eq!(DEFAULT_CAPACITY, 33_554_432);
}

#[test]
fn the_default_shape_is_the_recursive_construction() {
    let (config, layout) = default_shape();
    assert_eq!(
        config.collapse,
        Collapse::Recursion {
            gamma0: 32,
            gamma1: 1024,
            gamma2: 32,
        }
    );
    assert_eq!(layout, DatabaseLayout::new(16384, 65536));
}
