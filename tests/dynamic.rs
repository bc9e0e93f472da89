use imbuf::channel::ImageChannel;
use imbuf::dynamic::{DynamicImage, ElementKind};
use imbuf::image::IncompatibleImageErrorReason;
use imbuf::pixel::{ComptimeSize, Float32};
use imbuf::Image;

fn floats(values: &[f32]) -> Vec<Float32> {
    values.iter().map(|v| Float32::from_bits(v.to_bits())).collect()
}

#[test]
fn create_from_luma_u8() {
    let luma = Image::<u8, 1>::new_vec(vec![1], 1, 1);
    let dynamic = luma.into_dynamic();
    assert_eq!(1, dynamic.len());
    let luma_back = Image::<u8, 1>::try_from_dynamic(dynamic).ok().unwrap();
    assert_eq!(luma_back.into_vec(), vec![1]);
}

#[test]
fn create_from_luma_rgb16_interleaved() {
    let luma = Image::<u16, 1, ComptimeSize<3>>::new_vec(vec![1u16, 2, 3], 1, 1);
    let dynamic = luma.into_dynamic();
    assert_eq!(1, dynamic.len());
    let back = Image::<u16, 1, ComptimeSize<3>>::try_from_dynamic(dynamic).ok().unwrap();
    assert_eq!(back.into_vec(), vec![1u16, 2, 3]);
}

#[test]
fn create_from_rgb8_interleaved() {
    let rgb = Image::<u8, 1, ComptimeSize<3>>::new_vec(vec![1u8, 2, 3], 1, 1);
    let dynamic = rgb.into_dynamic();
    assert_eq!(1, dynamic.len());
    assert_eq!(dynamic.channel(0).pixel_elements(), 3);
    assert_eq!(dynamic.channel(0).kind(), ElementKind::Byte);
    let rgb_back = Image::<u8, 1, ComptimeSize<3>>::try_from_dynamic(dynamic).ok().unwrap();
    assert_eq!(rgb_back.into_vec(), vec![1u8, 2, 3]);
}

#[test]
fn create_from_luma_rgb8_planar() {
    let luma = Image::<u8, 3>::new_vec(vec![1u8, 2, 3], 1, 1);
    let dynamic = luma.into_dynamic();
    assert_eq!(3, dynamic.len());
    let luma_back = Image::<u8, 3>::try_from_dynamic(dynamic).ok().unwrap();
    assert_eq!(luma_back.into_vec(), vec![1u8, 2, 3]);
}

#[test]
fn clone_dynamic_image() {
    let width: u32 = 2;
    let height: u32 = 2;
    let luma = Image::<u8, 1>::new_vec(vec![1, 2, 3, 4], width, height);
    let dynamic = luma.into_dynamic();
    let cloned = dynamic.clone();

    let luma_back = Image::<u8, 1>::try_from_dynamic(dynamic).ok().unwrap();
    {
        let ref_luma = Image::<u8, 1>::try_from_dynamic(cloned.clone()).ok().unwrap();
        assert_eq!(ref_luma.dimensions(), (width, height));
    }
    let luma_cloned = Image::<u8, 1>::try_from_dynamic(cloned).ok().unwrap();
    let vec_back = luma_back.into_vec();
    let vec_cloned = luma_cloned.into_vec();
    assert_eq!(vec_back, vec_cloned);
    assert_eq!(vec_cloned, vec![1, 2, 3, 4]);
}

#[test]
fn create_from_incompatible_image() {
    let luma = Image::<u8, 1>::new_vec(vec![42], 1, 1);
    let dynamic = luma.clone().into_dynamic();
    let incompatible = Image::<u16, 1>::try_from_dynamic(dynamic).err().unwrap();
    assert!(incompatible.image == luma.into_dynamic());
}

#[test]
fn create_from_rgbf32() {
    let image = Image::<Float32, 3>::new_vec(floats(&[42f32, 42., 43.]), 1, 1);
    let dynamic = image.clone().into_dynamic();
    let back = Image::<Float32, 3>::try_from_dynamic(dynamic).ok().unwrap();
    assert!(back.into_channels() == image.into_channels());
}

#[test]
fn create_from_dynamic_with_different_size() {
    let image = Image::<Float32, 3>::new_vec(floats(&[42f32, 42., 43.]), 1, 1);
    let mut dynamic = image.into_dynamic();
    dynamic.set_channel(0, ImageChannel::<Float32>::new_vec(floats(&[42f32, 42.]), 1, 2).into_dynamic());

    let back = Image::<Float32, 3>::try_from_dynamic(dynamic.clone()).err().unwrap();
    assert!(back.image == dynamic);
    assert!(matches!(back.reason, IncompatibleImageErrorReason::MixedImageSizes { .. }));
}

#[test]
fn create_from_dynamic_with_different_type() {
    let image = Image::<Float32, 3>::new_vec(floats(&[42f32, 42., 43.]), 1, 1);
    let mut dynamic = image.into_dynamic();
    dynamic.set_channel(0, ImageChannel::<u16>::new_vec(vec![1u16], 1, 1).into_dynamic());

    let back = Image::<Float32, 3>::try_from_dynamic(dynamic.clone()).err().unwrap();
    assert!(back.image == dynamic);
    assert!(matches!(back.reason, IncompatibleImageErrorReason::IncompatibleChannel { index: 0 }));
}

#[test]
fn create_from_dynamic_with_too_few_channels() {
    let image = Image::<Float32, 3>::new_vec(floats(&[42f32, 42., 43.]), 1, 1);
    let dynamic = image.into_dynamic();
    let back = Image::<Float32, 4>::try_from_dynamic(dynamic.clone()).err().unwrap();
    assert!(back.image == dynamic);
}

#[test]
fn create_from_dynamic_with_too_many_channels() {
    let image = Image::<Float32, 3>::new_vec(floats(&[42f32, 42., 43.]), 1, 1);
    let dynamic = image.into_dynamic();
    let back = Image::<Float32, 2>::try_from_dynamic(dynamic).ok().unwrap();
    let expected = Image::<Float32, 2>::new_vec(floats(&[42f32, 42.]), 1, 1);
    assert!(back.into_channels() == expected.into_channels());
}

#[test]
fn channel_round_trip_through_dynamic() {
    let channel = ImageChannel::<u16, ComptimeSize<2>>::new_vec(vec![1, 2, 3, 4], 2, 1);
    let dynamic = channel.clone().into_dynamic();
    let back = ImageChannel::<u16, ComptimeSize<2>>::try_from_dynamic(dynamic).ok().unwrap();
    assert!(back == channel);
}

#[test]
fn channel_with_other_count_or_type_is_handed_back() {
    let channel = ImageChannel::<u16, ComptimeSize<2>>::new_vec(vec![1, 2, 3, 4], 2, 1);
    let dynamic = channel.into_dynamic();
    let err = ImageChannel::<u16, ComptimeSize<1>>::try_from_dynamic(dynamic.clone()).err().unwrap();
    assert!(err == dynamic);
    let err = ImageChannel::<u8, ComptimeSize<2>>::try_from_dynamic(dynamic.clone()).err().unwrap();
    assert!(err == dynamic);
    assert_eq!(err.kind(), ElementKind::U16);
}
