use imbuf::external::{channel_from_raw, extract_vec, IncompatibleBufferSize, RawBufferErrorReason};

#[test]
fn extract_vec_accepts_matching_length() {
    let v = extract_vec(vec![1u8, 2, 3, 4, 5, 6], 2, 3).ok().unwrap();
    assert_eq!(v, vec![1u8, 2, 3, 4, 5, 6]);
}

#[test]
fn extract_vec_reports_mismatch() {
    let (back, err) = extract_vec(vec![1u8, 2], 1, 1).err().unwrap();
    assert_eq!(back, vec![1u8, 2]);
    assert_eq!(err, IncompatibleBufferSize { expected: 1, actual: 2 });
    assert_eq!(err.message(), "The image has a wrong length. Expected 1, got 2");
}

#[test]
fn create_image_from_zero_width_fails() {
    let (_, reason) = channel_from_raw(Vec::<u8>::new(), 0, 1, 1).err().unwrap();
    assert_eq!(reason, RawBufferErrorReason::ZeroDimension);
}

#[test]
fn create_image_from_zero_height_fails() {
    let (_, reason) = channel_from_raw(Vec::<u8>::new(), 1, 0, 1).err().unwrap();
    assert_eq!(reason, RawBufferErrorReason::ZeroDimension);
}

#[test]
fn create_image_from_wrong_vec_len() {
    let (back, reason) = channel_from_raw(vec![0u8, 1], 1, 1, 1).err().unwrap();
    assert_eq!(back, vec![0u8, 1]);
    assert_eq!(
        reason,
        RawBufferErrorReason::IncompatibleBufferSize(IncompatibleBufferSize { expected: 1, actual: 2 })
    );
}

#[test]
fn raw_buffer_becomes_a_channel() {
    let raw = vec![1u16, 2, 3, 4, 5, 6];
    let pointer = raw.as_ptr();
    let channel = channel_from_raw(raw, 1, 2, 3).ok().unwrap();
    assert_eq!(channel.dimensions(), (1, 2));
    assert_eq!(channel.pixel_elements(), 3);
    assert_eq!(channel.flat_buffer().as_ptr(), pointer);
    assert_eq!(channel.into_vec(), vec![1u16, 2, 3, 4, 5, 6]);
}
