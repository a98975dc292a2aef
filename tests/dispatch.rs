use affine_dispatch::buffer::{Buffer, Location};
use affine_dispatch::dispatch::{dispatch, validate_items, DispatchError, Dispatched};
use affine_dispatch::kernels::affine_scalar;

fn affine_f64(a: f64, b: f64, x: f64) -> f64 {
    a * x + b
}

fn inputs(location: Location) -> (Buffer<f64>, Buffer<f64>, Buffer<f64>) {
    let a = Buffer::from_host(vec![2.0f64, 2.0, 2.0, 2.0]).relocate(location);
    let b = Buffer::from_host(vec![1.0f64, 1.0, 1.0, 1.0]).relocate(location);
    let x = Buffer::from_host(vec![0.0f64, 1.0, 2.0, 3.5]).relocate(location);
    (a, b, x)
}

#[test]
fn host_affine_end_to_end() {
    let (a, b, x) = inputs(Location::Host);
    let mut y = Buffer::filled(Location::Host, x.len(), 0.0f64);
    let r = dispatch(&affine_f64, &a, &b, &x, &mut y);
    assert_eq!(r, Ok(Dispatched::Completed));
    assert_eq!(y.into_host_vec(), vec![1.0, 3.0, 5.0, 8.0]);
}

#[test]
fn device_resident_buffers_are_submitted() {
    let (a, b, x) = inputs(Location::Device(0));
    let mut y = Buffer::filled(Location::Device(0), 4, 0.0f64);
    let r = dispatch(&affine_f64, &a, &b, &x, &mut y);
    assert_eq!(r, Ok(Dispatched::Submitted(0)));
    assert_eq!(y.location(), Location::Device(0));
    assert_eq!(y.into_host_vec(), vec![0.0, 0.0, 0.0, 0.0]);
}

#[test]
fn shape_mismatch_writes_nothing() {
    let a = Buffer::from_host(vec![2.0f64, 2.0, 2.0, 2.0]);
    let b = Buffer::from_host(vec![1.0f64, 1.0, 1.0, 1.0]);
    let x = Buffer::from_host(vec![0.0f64, 1.0, 2.0]);
    let mut y = Buffer::filled(Location::Host, 4, -1.0f64);
    let r = dispatch(&affine_f64, &a, &b, &x, &mut y);
    assert_eq!(r, Err(DispatchError::ShapeMismatch { expected_len: 4, found_len: 3 }));
    assert_eq!(y.into_host_vec(), vec![-1.0, -1.0, -1.0, -1.0]);
}

#[test]
fn shape_is_checked_before_location() {
    let a = Buffer::from_host(vec![1i64, 2]);
    let b = Buffer::from_host(vec![1i64, 2]).relocate(Location::Device(3));
    let x = Buffer::from_host(vec![1i64]);
    let mut y = Buffer::filled(Location::Host, 2, 0i64);
    let r = dispatch(&|a: i64, b: i64, x: i64| a * x + b, &a, &b, &x, &mut y);
    assert_eq!(r, Err(DispatchError::ShapeMismatch { expected_len: 2, found_len: 1 }));
}

#[test]
fn host_and_device_mix_is_refused() {
    let a = Buffer::from_host(vec![2.0f64, 2.0]);
    let b = Buffer::from_host(vec![1.0f64, 1.0]);
    let x = Buffer::from_host(vec![0.0f64, 1.0]).relocate(Location::Device(0));
    let mut y = Buffer::filled(Location::Host, 2, 7.0f64);
    let r = dispatch(&affine_f64, &a, &b, &x, &mut y);
    assert_eq!(
        r,
        Err(DispatchError::LocationMismatch { expected_loc: Location::Host, found_loc: Location::Device(0) })
    );
    assert_eq!(y.into_host_vec(), vec![7.0, 7.0]);
}

#[test]
fn output_on_other_device_is_refused() {
    let a = Buffer::from_host(vec![1i64]).relocate(Location::Device(0));
    let b = Buffer::from_host(vec![1i64]).relocate(Location::Device(0));
    let x = Buffer::from_host(vec![1i64]).relocate(Location::Device(0));
    let mut y = Buffer::filled(Location::Device(1), 1, 0i64);
    let r = dispatch(&|a: i64, b: i64, x: i64| a * x + b, &a, &b, &x, &mut y);
    assert_eq!(
        r,
        Err(DispatchError::LocationMismatch { expected_loc: Location::Device(0), found_loc: Location::Device(1) })
    );
}

#[test]
fn empty_buffers_complete() {
    let a: Buffer<i64> = Buffer::from_host(vec![]);
    let b: Buffer<i64> = Buffer::from_host(vec![]);
    let x: Buffer<i64> = Buffer::from_host(vec![]);
    let mut y: Buffer<i64> = Buffer::from_host(vec![]);
    let r = dispatch(&|a: i64, b: i64, x: i64| a * x + b, &a, &b, &x, &mut y);
    assert_eq!(r, Ok(Dispatched::Completed));
    assert_eq!(y.len(), 0);
}

#[test]
fn integer_affine_kernel_on_host() {
    let a = Buffer::from_host(vec![3i64, -2, 0]);
    let b = Buffer::from_host(vec![1i64, 5, -4]);
    let x = Buffer::from_host(vec![4i64, 6, 9]);
    let mut y = Buffer::filled(Location::Host, 3, 0i64);
    let r = dispatch(&affine_scalar_total, &a, &b, &x, &mut y);
    assert_eq!(r, Ok(Dispatched::Completed));
    assert_eq!(y.into_host_vec(), vec![13, -7, -4]);
}

fn affine_scalar_total(a: i64, b: i64, x: i64) -> i64 {
    affine_scalar(a, b, x)
}

#[test]
fn affine_scalar_values() {
    assert_eq!(affine_scalar(2, 1, 3), 7);
    assert_eq!(affine_scalar(-3, 4, 5), -11);
    assert_eq!(affine_scalar(0, 9, 1000), 9);
}

#[test]
fn validate_reports_first_offending_length() {
    let lens = vec![5usize, 5, 2, 7];
    let locs = vec![Location::Host; 4];
    assert_eq!(
        validate_items(&lens, &locs),
        Err(DispatchError::ShapeMismatch { expected_len: 5, found_len: 2 })
    );
}

#[test]
fn validate_resolves_shared_location() {
    let lens = vec![3usize, 3, 3];
    let locs = vec![Location::Device(2); 3];
    assert_eq!(validate_items(&lens, &locs), Ok(Location::Device(2)));
    let single = vec![0usize];
    let host = vec![Location::Host];
    assert_eq!(validate_items(&single, &host), Ok(Location::Host));
}
