use std::sync::Arc;

use imbuf::channel::ImageChannel;
use imbuf::pixel::{ComptimeSize, RuntimeSize};
use imbuf::UnsafeImageChannel;

#[test]
fn miri_create_and_clear_vec_image_channel() {
    let size: u32 = 2;
    let image = ImageChannel::<u8>::new_vec(vec![0u8, 64u8, 128u8, 192u8], size, size);
    assert_eq!(image.buffer(), &[0u8, 64u8, 128u8, 192u8]);
}

#[test]
fn channel_miri_to_vec_reuses_pointer() {
    let raw = vec![0u8, 64u8, 128u8, 192u8];
    let pointer = raw[..].as_ptr();
    let size: u32 = 2;
    let image = ImageChannel::<u8>::new_vec(raw, size, size);
    let to_vec = image.into_vec();
    assert_eq!(to_vec, vec![0u8, 64u8, 128u8, 192u8]);
    assert_eq!(
        to_vec[..].as_ptr(),
        pointer,
        "Should reuse the buffer if it was created by vec"
    );
}

#[test]
fn miri_make_mut_reuses_arc_pointer() {
    let raw = Arc::<[u8]>::from([0u8, 64u8, 128u8, 192u8].as_slice());
    let pointer = raw[..].as_ptr();
    let size: u32 = 2;
    let mut image = ImageChannel::<u8>::new_arc(raw, size, size);
    let ptr_mut = image.make_mut();

    assert_eq!(
        ptr_mut[..].as_ptr(),
        pointer,
        "Should reuse the buffer if it was created by arc"
    );
}

#[test]
fn miri_make_mut_doesnt_reuse_arc_pointer_if_not_unique() {
    let raw = Arc::<[u8]>::from([0u8, 64u8, 128u8, 192u8].as_slice());
    let _raw2 = raw.clone();
    let pointer = raw[..].as_ptr();
    let size: u32 = 2;
    let mut image = ImageChannel::<u8>::new_arc(raw, size, size);
    let ptr_mut = image.make_mut();

    assert_ne!(
        ptr_mut[..].as_ptr(),
        pointer,
        "Should not reuse the buffer if arc is not unique"
    );
}

#[test]
fn miri_clone_arc_backed_shares_memory() {
    let raw = Arc::<[u8]>::from([0u8, 64u8, 128u8, 192u8].as_slice());
    let pointer = raw[..].as_ptr();
    let size: u32 = 2;
    let image = ImageChannel::<u8>::new_arc(raw, size, size);
    let image2 = image.clone();

    assert_eq!(
        image2.buffer().as_ptr(),
        pointer,
        "Should share the buffer if it was created by arc"
    );
}

#[test]
fn miri_clone_from_vec() {
    let raw = vec![0u8, 64u8, 128u8, 192u8];
    let size: u32 = 2;
    let image = ImageChannel::<u8>::new_vec(raw, size, size);
    let image2 = image.clone();
    let to_vec = image.into_vec();
    let to_vec2 = image2.into_vec();

    assert_ne!(
        to_vec[..].as_ptr(),
        to_vec2[..].as_ptr(),
        "Should not share the buffer if it was created by vec"
    );
}

fn test_entire_vtable<S: imbuf::pixel::PixelSize>(mut image: ImageChannel<u16, S>) {
    image.primitive_make_mut()[0] = 0;
    let clone = image.clone();
    assert_eq!(image.primitive_make_mut()[0], 0);
    image.primitive_make_mut()[0] = 0;

    assert!(image == clone);
}

#[test]
fn miri_test_shared_arc_u16_channel() {
    let arc: Arc<[u16]> = vec![1].into();
    test_entire_vtable(ImageChannel::<u16>::new_arc(arc, 1, 1));
}

#[test]
fn miri_test_exclusive_arc_u16_channel() {
    test_entire_vtable(ImageChannel::<u16>::new_arc(vec![1u16].into(), 1, 1));
}

#[test]
fn miri_test_vec_u16_channel() {
    test_entire_vtable(ImageChannel::<u16>::new_vec(vec![1u16], 1, 1));
}

#[test]
fn miri_test_vec_rgb16_channel() {
    test_entire_vtable(ImageChannel::<u16, ComptimeSize<3>>::new_vec(
        vec![1u16, 2u16, 3u16],
        1,
        1,
    ));
}

#[test]
fn owned_round_trip_keeps_contents_and_allocation() {
    let raw = vec![0u8, 64, 128, 192];
    let pointer = raw.as_ptr();
    let channel = ImageChannel::<u8>::new_vec(raw, 2, 2);
    let back = channel.into_vec();
    assert_eq!(back, vec![0u8, 64, 128, 192]);
    assert_eq!(back.as_ptr(), pointer);
}

#[test]
fn shared_clone_then_mutate_diverges() {
    let raw = Arc::<[u8]>::from([0u8, 64, 128, 192].as_slice());
    let pointer = raw.as_ptr();
    let mut original = ImageChannel::<u8>::new_arc(raw, 2, 2);
    let clone = original.clone();
    let buf = original.make_mut();
    assert_ne!(buf.as_ptr(), pointer);
    buf[0] = 7;
    assert_eq!(clone.buffer(), &[0u8, 64, 128, 192]);
    assert_eq!(clone.buffer().as_ptr(), pointer);
    assert_eq!(original.buffer(), &[7u8, 64, 128, 192]);
}

#[test]
fn shared_references_are_released() {
    let raw = Arc::<[u8]>::from([1u8, 2, 3, 4].as_slice());
    let channel = ImageChannel::<u8>::new_arc(Arc::clone(&raw), 2, 2);
    let clones: Vec<_> = (0..5).map(|_| channel.clone()).collect();
    assert_eq!(Arc::strong_count(&raw), 7);
    drop(clones);
    drop(channel);
    assert_eq!(Arc::strong_count(&raw), 1);
}

#[test]
fn runtime_sized_channel_reports_its_shape() {
    let channel = UnsafeImageChannel::<u8>::new_vec(vec![1, 2, 3, 4, 5, 6], 2, 1, 3);
    assert_eq!(channel.dimensions(), (2, 1));
    assert_eq!(channel.pixel_elements(), 3);
    assert_eq!(channel.calc_len_flat(), 6);
    assert_eq!(channel.len(), 6);
    let _ = RuntimeSize::new(0).is_none();
}

#[test]
fn equality_ignores_storage() {
    let a = ImageChannel::<u8>::new_vec(vec![1, 2], 2, 1);
    let b = ImageChannel::<u8>::new_arc(Arc::from(vec![1u8, 2]), 2, 1);
    let c = ImageChannel::<u8>::new_vec(vec![1, 2], 1, 2);
    let d = ImageChannel::<u8>::new_vec(vec![1, 3], 2, 1);
    assert!(a == b);
    assert!(a != c);
    assert!(a != d);
}
