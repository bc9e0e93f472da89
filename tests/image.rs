use imbuf::channel::ImageChannel;
use imbuf::image::IncompatibleImageErrorReason;
use imbuf::pixel::ComptimeSize;
use imbuf::Image;

type LumaImage<T> = Image<T, 1>;
type RgbImagePlanar<T> = Image<T, 3>;

#[test]
fn image_miri_create_and_clear_vec_image() {
    let size: u32 = 2;
    let image = LumaImage::new_vec(vec![0u8, 64u8, 128u8, 192u8], size, size);
    assert_eq!(image.buffers()[0], &[0u8, 64u8, 128u8, 192u8]);
    assert_eq!(image.buffer(), &[0u8, 64u8, 128u8, 192u8]);
}

#[test]
fn lib_miri_create_and_clear_vec_image() {
    let size: u32 = 2;
    let image = LumaImage::new_vec(vec![0u8, 64u8, 128u8, 192u8], size, size);
    assert_eq!(image.buffers()[0], &[0u8, 64u8, 128u8, 192u8]);
}

#[test]
fn image_miri_to_vec_reuses_pointer() {
    let raw = vec![0u8, 64u8, 128u8, 192u8];
    let pointer = raw[..].as_ptr();
    let size: u32 = 2;
    let image = LumaImage::new_vec(raw, size, size);
    let to_vec = image.into_vec();
    assert_eq!(
        to_vec[..].as_ptr(),
        pointer,
        "Should reuse the buffer if it was created by vec"
    );
}

#[test]
fn lib_miri_to_vec_reuses_pointer() {
    let raw = vec![0u8, 64u8, 128u8, 192u8];
    let pointer = raw[..].as_ptr();
    let size: u32 = 2;
    let image = LumaImage::new_vec(raw, size, size);
    let to_vec = image.into_vec();
    assert_eq!(to_vec, vec![0u8, 64u8, 128u8, 192u8]);
    assert_eq!(
        to_vec[..].as_ptr(),
        pointer,
        "Should reuse the buffer if it was created by vec"
    );
}

#[test]
fn image_miri_clone_from_box() {
    let raw = vec![0u8, 64u8, 128u8, 192u8];
    let size: u32 = 2;
    let image = LumaImage::new_vec(raw, size, size);
    let image2 = image.clone();
    let to_vec = image.into_vec();
    let to_vec2 = image2.into_vec();

    assert_ne!(
        to_vec[..].as_ptr(),
        to_vec2[..].as_ptr(),
        "Should reuse the buffer if it was created by vec"
    );
}

#[test]
fn lib_miri_clone_from_box() {
    let raw = vec![0u8, 64u8, 128u8, 192u8];
    let size: u32 = 2;
    let image = LumaImage::new_vec(raw, size, size);
    let image2 = image.clone();
    let to_vec = image.into_vec();
    let to_vec2 = image2.into_vec();
    assert_eq!(to_vec, to_vec2);
    assert_ne!(
        to_vec[..].as_ptr(),
        to_vec2[..].as_ptr(),
        "Should reuse the buffer if it was created by vec"
    );
}

#[test]
fn planar_image_splits_channels() {
    let image = RgbImagePlanar::new_vec((0..12).collect::<Vec<u8>>(), 2, 2);
    let buffers = image.buffers();
    assert_eq!(buffers[0], &[0u8, 1, 2, 3]);
    assert_eq!(buffers[1], &[4u8, 5, 6, 7]);
    assert_eq!(buffers[2], &[8u8, 9, 10, 11]);
    assert_eq!(image.dimensions(), (2, 2));
    assert_eq!(image.len_per_channel(), 4);
    assert_eq!(image.len_flat_per_channel(), 4);
    assert_eq!(image.into_vec(), (0..12).collect::<Vec<u8>>());
}

#[test]
fn create_interleaved_from_flat_vec() {
    let size: u32 = 2;
    let image: Image<u8, 1, ComptimeSize<3>> =
        Image::new_vec(vec![0, 1, 2, 3, 4, 5, 6, 7, 8, 9, 10, 11], size, size);
    let buffer = image.flat_buffer().to_vec();
    assert_eq!(buffer.len(), 12);
    let image_from_flat: Image<u8, 1, ComptimeSize<3>> = Image::new_vec(buffer, size, size);
    assert_eq!(image.len_flat_per_channel(), 12);
    assert_eq!(image.len_per_channel(), 4);
    assert!(image.into_channels() == image_from_flat.into_channels());
}

#[test]
fn test_flatten() {
    let input = vec![0u8, 1, 2, 3, 4, 5, 6, 7, 8, 9, 10, 11];
    let image = Image::<u8, 1, ComptimeSize<3>>::new_vec(input.clone(), 2, 2);
    assert_eq!(image.buffer(), &input[..]);
    assert_eq!(image.flat_buffer(), (0..12).collect::<Vec<_>>());
}

#[test]
fn mutating_one_planar_channel_leaves_the_others() {
    let mut image = RgbImagePlanar::new_vec(vec![1u8, 2, 3, 4, 5, 6], 2, 1);
    let before = image.buffers().iter().map(|b| b.as_ptr()).collect::<Vec<_>>();
    let clone = image.clone();
    let buf = image.make_mut(1);
    buf[0] = 30;
    let after = image.buffers();
    assert_eq!(after[0], &[1u8, 2]);
    assert_eq!(after[1], &[30u8, 4]);
    assert_eq!(after[2], &[5u8, 6]);
    assert_eq!(after[0].as_ptr(), before[0]);
    assert_eq!(after[2].as_ptr(), before[2]);
    assert_eq!(clone.buffers()[1], &[3u8, 4]);
}

#[test]
fn mismatched_channels_are_handed_back() {
    let a = ImageChannel::<u8>::new_vec(vec![1, 2, 3, 4], 2, 2);
    let b = ImageChannel::<u8>::new_vec(vec![5, 6], 1, 2);
    let err = Image::<u8, 2>::try_from_channels(vec![a, b]).err().unwrap();
    match err.reason {
        IncompatibleImageErrorReason::MixedImageSizes { a, b } => {
            assert_eq!(a, (2, 2));
            assert_eq!(b, (1, 2));
        }
        _ => panic!("expected a size mismatch"),
    }
    assert_eq!(err.image.len(), 2);
    assert_eq!(err.image[0].buffer(), &[1u8, 2, 3, 4]);
    assert_eq!(err.image[1].buffer(), &[5u8, 6]);
}

#[test]
fn wrong_channel_count_is_reported() {
    let a = ImageChannel::<u8>::new_vec(vec![1, 2], 2, 1);
    let err = Image::<u8, 2>::try_from_channels(vec![a]).err().unwrap();
    assert!(matches!(
        err.reason,
        IncompatibleImageErrorReason::WrongChannelCount { expected: 2, found: 1 }
    ));
}

#[test]
fn matching_channels_form_an_image() {
    let a = ImageChannel::<u8>::new_vec(vec![1, 2], 2, 1);
    let b = ImageChannel::<u8>::new_vec(vec![3, 4], 2, 1);
    let image = Image::<u8, 2>::try_from_channels(vec![a, b]).ok().unwrap();
    assert_eq!(image.dimensions(), (2, 1));
    assert_eq!(image.width(), 2);
    assert_eq!(image.height(), 1);
    assert_eq!(image.into_vec(), vec![1u8, 2, 3, 4]);
}

#[test]
fn from_planar_image() {
    let two: u32 = 2;
    let image = RgbImagePlanar::new_vec((0..12).collect::<Vec<u8>>(), two, two);
    let interleaved_image = Image::<u8, 1, ComptimeSize<3>>::from_planar_image(&image);
    assert_eq!(
        interleaved_image.buffer(),
        &[0u8, 4, 8, 1, 5, 9, 2, 6, 10, 3, 7, 11]
    );
    assert_eq!(interleaved_image.dimensions(), (two, two));
}

#[test]
fn luma_from_planar() {
    let two: u32 = 2;
    let image = LumaImage::new_vec(vec![0u8, 64u8, 128u8, 192u8], two, two);
    let planar_image = Image::<u8, 1, ComptimeSize<1>>::from_planar_image(&image);
    assert_eq!(planar_image.buffer(), &[0u8, 64u8, 128u8, 192u8]);
}

#[test]
fn luma_from_interleaved() {
    let two: u32 = 2;
    let interleaved_image = LumaImage::from_flat_interleaved(&[0u8, 64u8, 128u8, 192u8], two, two);
    assert_eq!(interleaved_image.buffers(), vec![&[0u8, 64u8, 128u8, 192u8][..]]);
    assert_eq!(interleaved_image.dimensions(), (two, two));
}

#[test]
fn from_flat_interleaved_image() {
    let two: u32 = 2;
    let image: RgbImagePlanar<u8> =
        Image::from_flat_interleaved((0..12).collect::<Vec<_>>().as_slice(), two, two);
    assert_eq!(
        image.buffers(),
        vec![&[0u8, 3, 6, 9][..], &[1, 4, 7, 10][..], &[2, 5, 8, 11][..]]
    );
    assert_eq!(image.dimensions(), (two, two));
}

#[test]
fn interleaved_and_planar_round_trip() {
    let interleaved = Image::<u16, 1, ComptimeSize<2>>::new_vec(vec![1, 2, 3, 4, 5, 6], 3, 1);
    let planar = Image::<u16, 2>::from_interleaved(&interleaved);
    assert_eq!(planar.buffers(), vec![&[1u16, 3, 5][..], &[2u16, 4, 6][..]]);
    let back = Image::<u16, 1, ComptimeSize<2>>::from_planar_image(&planar);
    assert_eq!(back.into_vec(), vec![1u16, 2, 3, 4, 5, 6]);
}

#[test]
fn from_planar_interleaves_planes() {
    let red = [1u8, 2];
    let green = [3u8, 4];
    let image = Image::<u8, 1, ComptimeSize<2>>::from_planar(&[&red[..], &green[..]], 2, 1);
    assert_eq!(image.buffer(), &[1u8, 3, 2, 4]);
}
