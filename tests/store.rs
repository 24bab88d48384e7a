use libpd_rs::error::{ArrayError, LibpdError, SizeError};
use libpd_rs::store::{ArrayStore, MAX_ARRAY_LEN};

const NON_EXISTENT: Result<(), LibpdError> = Err(LibpdError::ArrayError(ArrayError::NonExistent));
const OUT_OF_BOUNDS: Result<(), LibpdError> = Err(LibpdError::ArrayError(ArrayError::OutOfBounds));

fn store_with_buf1() -> ArrayStore<f32> {
    let mut store = ArrayStore::new(0.0_f32);
    assert!(store.add_array("buf1", 64, 0.0));
    store
}

#[test]
fn resize_and_size_scenario() {
    let mut store = store_with_buf1();
    assert_eq!(store.array_size("buf1"), Ok(64));
    assert_eq!(store.resize_array("buf1", 1024), Ok(()));
    assert_eq!(store.array_size("buf1"), Ok(1024));
    assert_eq!(store.resize_array("buf1", 0), Ok(()));
    assert_eq!(store.array_size("buf1"), Ok(1));
}

#[test]
fn write_then_read_scenario_float() {
    let mut store = store_with_buf1();
    assert_eq!(store.resize_array("buf1", 0), Ok(()));
    assert_eq!(store.resize_array("buf1", 64), Ok(()));
    let source = [1.0_f32; 64];
    assert_eq!(store.write_array_to("buf1", 0, &source, 64), Ok(()));
    let mut dest = [0.0_f32; 64];
    assert_eq!(store.read_array_from("buf1", 64, &mut dest, 0), Ok(()));
    assert_eq!(dest, [1.0_f32; 64]);
}

#[test]
fn write_then_read_scenario_double() {
    let mut store = ArrayStore::new(0.0_f64);
    assert!(store.add_array("buf1", 64, 0.0));
    let source = [1.0_f64; 64];
    assert_eq!(store.write_array_to("buf1", 0, &source, 64), Ok(()));
    let mut dest = [0.0_f64; 64];
    assert_eq!(store.read_array_from("buf1", 64, &mut dest, 0), Ok(()));
    assert_eq!(dest, [1.0_f64; 64]);
}

#[test]
fn size_of_missing_array_is_undeterminable() {
    let store = store_with_buf1();
    assert_eq!(
        store.array_size("nonexistent"),
        Err(LibpdError::SizeError(SizeError::CouldNotDetermine))
    );
}

#[test]
fn resize_missing_array_fails() {
    let mut store = store_with_buf1();
    assert_eq!(
        store.resize_array("nonexistent", 8),
        Err(LibpdError::SizeError(SizeError::CouldNotDetermine))
    );
    assert_eq!(store.array_size("buf1"), Ok(64));
}

#[test]
fn resize_clips_to_one() {
    let mut store = store_with_buf1();
    assert_eq!(store.resize_array("buf1", -5), Ok(()));
    assert_eq!(store.array_size("buf1"), Ok(1));
    assert_eq!(store.resize_array("buf1", MAX_ARRAY_LEN + 1), Ok(()));
    assert_eq!(store.array_size("buf1"), Ok(1));
    assert_eq!(store.resize_array("buf1", i64::MIN), Ok(()));
    assert_eq!(store.array_size("buf1"), Ok(1));
}

#[test]
fn resize_keeps_values_and_fills_new_elements() {
    let mut store = ArrayStore::new(0.5_f64);
    assert!(store.add_array("a", 3, 2.0));
    assert_eq!(store.write_array_to("a", 0, &[1.0, 2.0, 3.0], 3), Ok(()));
    assert_eq!(store.resize_array("a", 5), Ok(()));
    let mut dest = [0.0_f64; 5];
    assert_eq!(store.read_array_from("a", 5, &mut dest, 0), Ok(()));
    assert_eq!(dest, [1.0, 2.0, 3.0, 0.5, 0.5]);
    assert_eq!(store.resize_array("a", 2), Ok(()));
    let mut dest = [0.0_f64; 2];
    assert_eq!(store.read_array_from("a", 2, &mut dest, 0), Ok(()));
    assert_eq!(dest, [1.0, 2.0]);
}

#[test]
fn round_trip_into_offset_of_destination() {
    let mut store = ArrayStore::new(0.0_f32);
    assert!(store.add_array("a", 6, 9.0));
    assert_eq!(store.write_array_to("a", 0, &[4.0, 5.0, 6.0, 7.0], 3), Ok(()));
    let mut out = [0.0_f32; 6];
    assert_eq!(store.read_array_from("a", 3, &mut out, 2), Ok(()));
    assert_eq!(out, [0.0, 0.0, 4.0, 5.0, 6.0, 0.0]);
}

#[test]
fn write_at_offset_places_elements() {
    let mut store = ArrayStore::new(0.0_f64);
    assert!(store.add_array("a", 5, 0.0));
    assert_eq!(store.write_array_to("a", 2, &[7.0, 8.0, 9.0], 2), Ok(()));
    let mut out = [1.0_f64; 5];
    assert_eq!(store.read_array_from("a", 5, &mut out, 0), Ok(()));
    assert_eq!(out, [0.0, 0.0, 7.0, 8.0, 0.0]);
}

#[test]
fn read_out_of_bounds_copies_nothing() {
    let store = store_with_buf1();
    let mut dest = [3.0_f32; 80];
    assert_eq!(store.read_array_from("buf1", 65, &mut dest, 0), OUT_OF_BOUNDS);
    assert_eq!(store.read_array_from("buf1", 10, &mut dest, 60), OUT_OF_BOUNDS);
    assert_eq!(store.read_array_from("buf1", -1, &mut dest, 0), OUT_OF_BOUNDS);
    assert_eq!(store.read_array_from("buf1", 1, &mut dest, -1), OUT_OF_BOUNDS);
    assert_eq!(dest, [3.0_f32; 80]);
}

#[test]
fn write_out_of_bounds_changes_nothing() {
    let mut store = ArrayStore::new(0.0_f64);
    assert!(store.add_array("a", 4, 2.0));
    let source = [5.0_f64; 8];
    assert_eq!(store.write_array_to("a", 2, &source, 3), OUT_OF_BOUNDS);
    assert_eq!(store.write_array_to("a", 0, &source, 5), OUT_OF_BOUNDS);
    assert_eq!(store.write_array_to("a", -1, &source, 1), OUT_OF_BOUNDS);
    assert_eq!(store.write_array_to("a", 0, &source, -3), OUT_OF_BOUNDS);
    let mut out = [0.0_f64; 4];
    assert_eq!(store.read_array_from("a", 4, &mut out, 0), Ok(()));
    assert_eq!(out, [2.0; 4]);
}

#[test]
fn read_and_write_missing_array() {
    let mut store = store_with_buf1();
    let mut dest = [0.0_f32; 4];
    assert_eq!(store.read_array_from("missing", 4, &mut dest, 0), NON_EXISTENT);
    assert_eq!(store.write_array_to("missing", 0, &[1.0; 4], 4), NON_EXISTENT);
    assert_eq!(dest, [0.0; 4]);
}

#[test]
fn zero_amount_copies_succeed() {
    let mut store = store_with_buf1();
    let mut dest = [0.0_f32; 64];
    assert_eq!(store.read_array_from("buf1", 0, &mut dest, 64), Ok(()));
    assert_eq!(store.write_array_to("buf1", 64, &[], 0), Ok(()));
}

#[test]
fn add_array_refuses_duplicate_name() {
    let mut store = store_with_buf1();
    assert!(!store.add_array("buf1", 3, 1.0));
    assert_eq!(store.array_size("buf1"), Ok(64));
    assert!(store.add_array("buf2", 3, 1.0));
    assert_eq!(store.array_size("buf2"), Ok(3));
}

#[test]
fn empty_store_has_no_arrays() {
    let store = ArrayStore::new(0.0_f32);
    assert_eq!(
        store.array_size(""),
        Err(LibpdError::SizeError(SizeError::CouldNotDetermine))
    );
}
