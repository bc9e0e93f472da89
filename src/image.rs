//! Images: a fixed number of channels of equal dimensions.

use vstd::prelude::*;
use vstd::std_specs::cmp::PartialEqSpec;

use crate::channel::{accepts, flat_len, ChannelView, ImageChannel};
use crate::dynamic::{DynamicImage, DynamicImageChannel, DynamicView};
use crate::pixel::{valid_count, ComptimeSize, PixelSize, PixelTypePrimitive};
use crate::shared_vec::{create_shared_channels, slice_start};
use crate::storage::extend_copy;

verus! {

/// Why channels could not be put together into an image.
#[derive(Clone, Copy, Debug)]
pub enum IncompatibleImageErrorReason {
    /// Two channels have different dimensions.
    MixedImageSizes { a: (u32, u32), b: (u32, u32) },
    /// Fewer channels than the image needs, or more than it can hold.
    WrongChannelCount { expected: usize, found: usize },
    /// The channel at `index` has another element type or element count.
    IncompatibleChannel { index: usize },
}

/// Channels that could not be put together into an image, handed back
/// unchanged, with the reason.
#[derive(Debug)]
pub struct IncompatibleImageError<I> {
    pub image: I,
    pub reason: IncompatibleImageErrorReason,
}

/// `CHANNELS` channels of equal dimensions; `S` is the element count per
/// pixel of each of them.
#[derive(Debug)]
pub struct Image<T, const CHANNELS: usize, S = ComptimeSize<1>> {
    channels: Vec<ImageChannel<T, S>>,
}

/// All channels are consistent and share the dimensions of the first.
pub open spec fn channels_agree<T, S: PixelSize>(cs: Seq<ImageChannel<T, S>>) -> bool {
    forall|i: int|
        0 <= i < cs.len() ==> (#[trigger] cs[i]).wf() && cs[i]@.width == cs[0]@.width && cs[i]@.height
            == cs[0]@.height
}

/// The views of a sequence of channels.
pub open spec fn channel_views<T, S: PixelSize>(cs: Seq<ImageChannel<T, S>>) -> Seq<ChannelView<T>> {
    cs.map_values(|c: ImageChannel<T, S>| c@)
}

/// The elements of all channels, one channel after the other.
pub open spec fn concat_data<T>(vs: Seq<ChannelView<T>>) -> Seq<T>
    decreases vs.len(),
{
    if vs.len() == 0 {
        Seq::empty()
    } else {
        concat_data(vs.drop_last()) + vs.last().data
    }
}

proof fn lemma_equal_slices(sizes: Seq<(u32, u32)>, w: u32, h: u32, n: nat, i: int)
    requires
        0 <= i <= sizes.len(),
        forall|k: int| 0 <= k < sizes.len() ==> #[trigger] sizes[k] == (w, h),
    ensures
        slice_start(sizes, n, i) == i * flat_len(w as nat, h as nat, n),
    decreases i,
{
    if i > 0 {
        let l = flat_len(w as nat, h as nat, n);
        lemma_equal_slices(sizes, w, h, n, i - 1);
        assert(sizes[i - 1] == (w, h));
        assert(slice_start(sizes, n, i) == slice_start(sizes, n, i - 1) + l);
        assert((i - 1) * l + l == i * l) by (nonlinear_arith);
    } else {
        assert(i * flat_len(w as nat, h as nat, n) == 0) by (nonlinear_arith)
            requires
                i == 0,
        ;
    }
}

proof fn lemma_views_update<T, S: PixelSize>(cs: Seq<ImageChannel<T, S>>, i: int, c: ImageChannel<T, S>)
    requires
        0 <= i < cs.len(),
    ensures
        channel_views(cs.update(i, c)) == channel_views(cs).update(i, c@),
{
    assert(channel_views(cs.update(i, c)) =~= channel_views(cs).update(i, c@));
}

impl<T, const CHANNELS: usize, S: PixelSize> View for Image<T, CHANNELS, S> {
    type V = Seq<ChannelView<T>>;

    closed spec fn view(&self) -> Seq<ChannelView<T>> {
        channel_views(self.channels@)
    }
}

impl<T, const CHANNELS: usize, S: PixelSize> Image<T, CHANNELS, S> {
    /// `CHANNELS` consistent channels, at least one, of equal dimensions.
    pub closed spec fn wf(&self) -> bool {
        &&& CHANNELS >= 1
        &&& self.channels@.len() == CHANNELS
        &&& channels_agree(self.channels@)
    }

    pub proof fn lemma_wf(&self)
        requires
            self.wf(),
        ensures
            self@.len() == CHANNELS,
            CHANNELS >= 1,
            forall|i: int|
                0 <= i < CHANNELS ==> (#[trigger] self@[i]).valid() && self@[i].width == self@[0].width
                    && self@[i].height == self@[0].height,
    {
        assert forall|i: int| 0 <= i < CHANNELS implies (#[trigger] self@[i]).valid() && self@[i].width
            == self@[0].width && self@[i].height == self@[0].height by {
            self.channels@[i].lemma_wf_valid();
        }
    }

    /// Puts channels together into an image. Fails, handing the channels
    /// back unchanged, when there are not exactly `CHANNELS` of them or when
    /// two of them have different dimensions.
    pub fn try_from_channels(channels: Vec<ImageChannel<T, S>>) -> (r: Result<
        Self,
        IncompatibleImageError<Vec<ImageChannel<T, S>>>,
    >)
        requires
            CHANNELS >= 1,
            forall|i: int| 0 <= i < channels@.len() ==> (#[trigger] channels@[i]).wf(),
        ensures
            match r {
                Ok(img) => channels@.len() == CHANNELS && channels_agree(channels@) && img.wf()
                    && img@ == channel_views(channels@),
                Err(e) => e.image == channels && !(channels@.len() == CHANNELS && channels_agree(
                    channels@,
                )),
            },
    {
        let n = channels.len();
        if n != CHANNELS {
            return Err(
                IncompatibleImageError {
                    image: channels,
                    reason: IncompatibleImageErrorReason::WrongChannelCount { expected: CHANNELS, found: n },
                },
            );
        }
        let a = channels[0].dimensions();
        let mut i: usize = 1;
        while i < n
            invariant
                1 <= i <= n,
                n == channels@.len(),
                a.0 as nat == channels@[0]@.width,
                a.1 as nat == channels@[0]@.height,
                forall|k: int| 0 <= k < n ==> (#[trigger] channels@[k]).wf(),
                forall|k: int|
                    0 <= k < i ==> (#[trigger] channels@[k])@.width == channels@[0]@.width
                        && channels@[k]@.height == channels@[0]@.height,
            decreases n - i,
        {
            let b = channels[i].dimensions();
            if b.0 != a.0 || b.1 != a.1 {
                return Err(
                    IncompatibleImageError {
                        image: channels,
                        reason: IncompatibleImageErrorReason::MixedImageSizes { a, b },
                    },
                );
            }
            i += 1;
        }
        Ok(Image { channels })
    }

    /// The channels of the image.
    pub fn into_channels(self) -> (r: Vec<ImageChannel<T, S>>)
        requires
            self.wf(),
        ensures
            r@.len() == CHANNELS,
            channels_agree(r@),
            channel_views(r@) == self@,
    {
        self.channels
    }

    pub fn width(&self) -> (r: u32)
        requires
            self.wf(),
        ensures
            r as nat == self@[0].width,
    {
        self.channels[0].width()
    }

    pub fn height(&self) -> (r: u32)
        requires
            self.wf(),
        ensures
            r as nat == self@[0].height,
    {
        self.channels[0].height()
    }

    pub fn dimensions(&self) -> (r: (u32, u32))
        requires
            self.wf(),
        ensures
            r.0 as nat == self@[0].width,
            r.1 as nat == self@[0].height,
    {
        self.channels[0].dimensions()
    }

    /// Number of pixels of each channel, `width × height`.
    pub fn len_per_channel(&self) -> (r: usize)
        requires
            self.wf(),
        ensures
            r as nat == self@[0].width * self@[0].height,
    {
        proof {
            self.lemma_wf();
            assert(self@[0].valid());
        }
        let w = self.channels[0].width() as usize;
        let h = self.channels[0].height() as usize;
        let e = self.channels[0].pixel_elements() as usize;
        proof {
            assert(w * h <= w * h * e) by (nonlinear_arith)
                requires
                    e >= 1,
            ;
        }
        w * h
    }

    /// Number of elements of each channel, `width × height × pixel elements`.
    pub fn len_flat_per_channel(&self) -> (r: usize)
        requires
            self.wf(),
        ensures
            r as nat == self@[0].data.len(),
    {
        self.channels[0].len()
    }

    /// The elements of each channel, read-only.
    pub fn buffers(&self) -> (r: Vec<&[T]>)
        requires
            self.wf(),
        ensures
            r@.len() == CHANNELS,
            forall|i: int| 0 <= i < CHANNELS ==> (#[trigger] r@[i])@ == self@[i].data,
    {
        let mut out: Vec<&[T]> = Vec::new();
        let mut i: usize = 0;
        while i < self.channels.len()
            invariant
                self.wf(),
                i <= CHANNELS,
                out@.len() == i,
                forall|k: int| 0 <= k < i ==> (#[trigger] out@[k])@ == self@[k].data,
            decreases CHANNELS - i,
        {
            out.push(self.channels[i].buffer());
            i += 1;
        }
        out
    }

    /// The elements of the first channel, read-only.
    pub fn buffer(&self) -> (r: &[T])
        requires
            self.wf(),
        ensures
            r@ == self@[0].data,
    {
        self.channels[0].buffer()
    }

    /// Same as `buffer`.
    pub fn flat_buffer(&self) -> (r: &[T])
        requires
            self.wf(),
        ensures
            r@ == self@[0].data,
    {
        self.channels[0].flat_buffer()
    }

    /// Same as `buffer`.
    pub fn buffer_flat(&self) -> (r: &[T])
        requires
            self.wf(),
        ensures
            r@ == self@[0].data,
    {
        self.channels[0].flat_buffer()
    }

    /// Number of pixels of each channel; same as `len_per_channel`.
    pub fn len(&self) -> (r: usize)
        requires
            self.wf(),
        ensures
            r as nat == self@[0].width * self@[0].height,
    {
        self.len_per_channel()
    }
}

impl<T: PixelTypePrimitive, const CHANNELS: usize, S: PixelSize> Image<T, CHANNELS, S> {
    /// Mutable access to the elements of channel `index`, copied first when
    /// other channels or images refer to them.
    pub fn make_mut(&mut self, index: usize) -> (r: &mut [T])
        requires
            old(self).wf(),
            index < CHANNELS,
        ensures
            r@ == old(self)@[index as int].data,
            final(r)@.len() == r@.len() ==> final(self).wf() && final(self)@ == old(self)@.update(
                index as int,
                old(self)@[index as int].with_data(final(r)@),
            ),
    {
        proof {
            self.lemma_wf();
        }
        let ghost before = self.channels@;
        let ch = &mut self.channels[index];
        proof {
            lemma_views_update(before, index as int, *final(ch));
        }
        ch.make_mut()
    }

    /// The elements of all channels, one channel after the other. For a
    /// single channel built from a vector and owned alone, that vector is
    /// handed back without copying.
    pub fn into_vec(self) -> (r: Vec<T>)
        requires
            self.wf(),
        ensures
            r@ == concat_data(self@),
    {
        proof {
            self.lemma_wf();
        }
        let ghost views = self@;
        let mut channels = self.channels;
        if CHANNELS == 1 {
            let c = channels.pop().unwrap();
            let r = c.into_vec();
            proof {
                assert(views.drop_last() =~= Seq::<ChannelView<T>>::empty());
                assert(concat_data(views.drop_last()) == Seq::<T>::empty());
                assert(c@ == views[0]);
                assert(concat_data(views) =~= r@);
            }
            return r;
        }
        let mut out: Vec<T> = Vec::new();
        let mut i: usize = 0;
        while i < channels.len()
            invariant
                i <= channels@.len() == CHANNELS,
                channels_agree(channels@),
                views == channel_views(channels@),
                out@ == concat_data(views.subrange(0, i as int)),
            decreases CHANNELS - i,
        {
            extend_copy(&mut out, channels[i].buffer());
            proof {
                assert(views.subrange(0, i + 1).drop_last() =~= views.subrange(0, i as int));
                assert(views.subrange(0, i + 1).last() == views[i as int]);
                assert(channels@[i as int]@ == views[i as int]);
                assert(concat_data(views.subrange(0, i + 1)) == concat_data(views.subrange(0, i as int))
                    + views[i as int].data);
            }
            i += 1;
        }
        assert(views.subrange(0, i as int) =~= views);
        out
    }
}

impl<T, const CHANNELS: usize, const N: usize> Image<T, CHANNELS, ComptimeSize<N>> {
    /// Same as `new_vec`: the elements of all pixels, one after the other.
    pub fn new_vec_flat(input: Vec<T>, width: u32, height: u32) -> (r: Self)
        requires
            CHANNELS >= 1,
            valid_count(N as nat),
            width >= 1,
            height >= 1,
            input@.len() == CHANNELS * flat_len(width as nat, height as nat, N as nat),
        ensures
            r.wf(),
            r@.len() == CHANNELS,
            forall|i: int|
                0 <= i < CHANNELS ==> #[trigger] r@[i] == (ChannelView {
                    width: width as nat,
                    height: height as nat,
                    elements: N as nat,
                    data: input@.subrange(
                        i * flat_len(width as nat, height as nat, N as nat),
                        (i + 1) * flat_len(width as nat, height as nat, N as nat),
                    ),
                }),
    {
        Self::new_vec(input, width, height)
    }

    /// An image over `width × height × N × CHANNELS` elements, channel after
    /// channel, without copying: one channel wraps the vector, several
    /// channels share it, each seeing its own range.
    pub fn new_vec(input: Vec<T>, width: u32, height: u32) -> (r: Self)
        requires
            CHANNELS >= 1,
            valid_count(N as nat),
            width >= 1,
            height >= 1,
            input@.len() == CHANNELS * flat_len(width as nat, height as nat, N as nat),
        ensures
            r.wf(),
            r@.len() == CHANNELS,
            forall|i: int|
                0 <= i < CHANNELS ==> #[trigger] r@[i] == (ChannelView {
                    width: width as nat,
                    height: height as nat,
                    elements: N as nat,
                    data: input@.subrange(
                        i * flat_len(width as nat, height as nat, N as nat),
                        (i + 1) * flat_len(width as nat, height as nat, N as nat),
                    ),
                }),
    {
        let ghost l = flat_len(width as nat, height as nat, N as nat);
        if CHANNELS == 1 {
            let ghost data = input@;
            let c = ImageChannel::new_vec(input, width, height);
            let mut channels: Vec<ImageChannel<T, ComptimeSize<N>>> = Vec::new();
            channels.push(c);
            let r = Image { channels };
            proof {
                assert(data.subrange(0, l as int) =~= data);
                assert(channels@[0] == c);
                assert(r@[0] == c@);
                assert((0 + 1) * l == l);
                assert(0 * l == 0);
                assert(r@[0] == (ChannelView {
                    width: width as nat,
                    height: height as nat,
                    elements: N as nat,
                    data: data.subrange(0 * l as int, (0 + 1) * l as int),
                }));
            }
            return r;
        }
        let mut sizes: Vec<(u32, u32)> = Vec::new();
        let mut i: usize = 0;
        while i < CHANNELS
            invariant
                i <= CHANNELS,
                sizes@.len() == i,
                forall|k: int| 0 <= k < i ==> #[trigger] sizes@[k] == (width, height),
            decreases CHANNELS - i,
        {
            sizes.push((width, height));
            i += 1;
        }
        proof {
            lemma_equal_slices(sizes@, width, height, N as nat, CHANNELS as int);
        }
        let ghost data = input@;
        let channels = create_shared_channels::<T, N>(input, sizes.as_slice());
        let r = Image { channels };
        proof {
            assert forall|k: int| 0 <= k < CHANNELS implies #[trigger] r@[k] == (ChannelView {
                width: width as nat,
                height: height as nat,
                elements: N as nat,
                data: data.subrange(k * l, (k + 1) * l),
            }) by {
                lemma_equal_slices(sizes@, width, height, N as nat, k);
                lemma_equal_slices(sizes@, width, height, N as nat, k + 1);
            }
            assert forall|k: int| 0 <= k < CHANNELS implies (#[trigger] channels@[k]).wf()
                && channels@[k]@.width == channels@[0]@.width && channels@[k]@.height
                == channels@[0]@.height by {}
        }
        r
    }
}

impl<T, const N: usize> Image<T, 1, ComptimeSize<N>> {
    /// A single-channel image over reference-counted storage of
    /// `width × height × N` elements, taking over one reference.
    pub fn new_arc(input: std::sync::Arc<[T]>, width: u32, height: u32) -> (r: Self)
        requires
            valid_count(N as nat),
            width >= 1,
            height >= 1,
            input@.len() == flat_len(width as nat, height as nat, N as nat),
        ensures
            r.wf(),
            r@[0] == (ChannelView { width: width as nat, height: height as nat, elements: N as nat, data: input@ }),
    {
        let c = ImageChannel::new_arc(input, width, height);
        let mut channels: Vec<ImageChannel<T, ComptimeSize<N>>> = Vec::new();
        channels.push(c);
        let r = Image { channels };
        assert(r@[0] == c@);
        r
    }
}

impl<T: PixelTypePrimitive, const CHANNELS: usize, S: PixelSize> Clone for Image<T, CHANNELS, S> {
    fn clone(&self) -> (r: Self)
        ensures
            self.wf() ==> r.wf() && r@ == self@,
    {
        let mut channels: Vec<ImageChannel<T, S>> = Vec::new();
        let mut i: usize = 0;
        while i < self.channels.len()
            invariant
                i <= self.channels@.len(),
                channels@.len() == i,
                forall|k: int|
                    0 <= k < i ==> (self.channels@[k].wf() ==> (#[trigger] channels@[k]).wf()
                        && channels@[k]@ == self.channels@[k]@),
            decreases self.channels@.len() - i,
        {
            channels.push(self.channels[i].clone());
            i += 1;
        }
        let r = Image { channels };
        proof {
            if self.wf() {
                assert(r@ =~= self@);
            }
        }
        r
    }
}

/// Whether the first `count` channels of a type-erased image can be
/// recovered as channels of element type `T` with `n` elements per pixel
/// and equal dimensions. Channels beyond the first `count` play no part.
pub open spec fn dynamic_fits<T: PixelTypePrimitive>(chans: Seq<DynamicView>, n: nat, count: nat) -> bool {
    &&& chans.len() >= count
    &&& forall|i: int|
        0 <= i < count ==> accepts::<T>(#[trigger] chans[i], n) && chans[i].width() == chans[0].width()
            && chans[i].height() == chans[0].height()
}

impl<T: PixelTypePrimitive, const CHANNELS: usize, S: PixelSize> Image<T, CHANNELS, S> {
    /// Erases the element type of every channel.
    pub fn into_dynamic(self) -> (r: DynamicImage)
        requires
            self.wf(),
        ensures
            r.wf(),
            r@.len() == CHANNELS,
            forall|i: int| 0 <= i < CHANNELS ==> #[trigger] r@[i] == T::spec_wrap_view(self@[i]),
    {
        let ghost views = self@;
        let mut rest = self.channels;
        let mut out: Vec<DynamicImageChannel> = Vec::new();
        let mut i: usize = 0;
        while i < CHANNELS
            invariant
                CHANNELS >= 1,
                i <= CHANNELS,
                rest@.len() == CHANNELS - i,
                forall|k: int| 0 <= k < rest@.len() ==> (#[trigger] rest@[k]).wf(),
                forall|k: int| 0 <= k < rest@.len() ==> #[trigger] rest@[k]@ == views[k + i],
                out@.len() == i,
                forall|k: int| 0 <= k < i ==> (#[trigger] out@[k]).wf(),
                forall|k: int| 0 <= k < i ==> #[trigger] out@[k]@ == T::spec_wrap_view(views[k]),
            decreases CHANNELS - i,
        {
            let c = rest.remove(0);
            out.push(c.into_dynamic());
            i += 1;
        }
        let r = DynamicImage::from_channels(out).unwrap();
        r
    }
}

impl<T: PixelTypePrimitive, const CHANNELS: usize, const N: usize> Image<T, CHANNELS, ComptimeSize<N>> {
    /// Recovers an image of `CHANNELS` channels of element type `T` and `N`
    /// elements per pixel from the first `CHANNELS` channels of a type-erased
    /// image. Fails, handing the image back unchanged, when it has too few
    /// channels, when one of them has another element type or element count,
    /// or when their dimensions differ.
    pub fn try_from_dynamic(value: DynamicImage) -> (r: Result<Self, IncompatibleImageError<DynamicImage>>)
        requires
            CHANNELS >= 1,
            value.wf(),
        ensures
            match r {
                Ok(img) => dynamic_fits::<T>(value@, N as nat, CHANNELS as nat) && img.wf() && forall|i: int|
                    0 <= i < CHANNELS ==> #[trigger] T::spec_wrap_view(img@[i]) == value@[i],
                Err(e) => !dynamic_fits::<T>(value@, N as nat, CHANNELS as nat) && e.image == value,
            },
    {
        let n = value.len();
        if n < CHANNELS {
            return Err(
                IncompatibleImageError {
                    image: value,
                    reason: IncompatibleImageErrorReason::WrongChannelCount { expected: CHANNELS, found: n },
                },
            );
        }
        let a = value.channel(0).dimensions();
        let mut i: usize = 0;
        while i < CHANNELS
            invariant
                value.wf(),
                i <= CHANNELS <= value@.len(),
                a.0 as nat == value@[0].width(),
                a.1 as nat == value@[0].height(),
                forall|k: int|
                    0 <= k < i ==> accepts::<T>(#[trigger] value@[k], N as nat) && value@[k].width()
                        == value@[0].width() && value@[k].height() == value@[0].height(),
            decreases CHANNELS - i,
        {
            let c = value.channel(i);
            if !T::holds_kind(c) || c.pixel_elements() as usize != N {
                proof {
                    T::lemma_unwrap_view(c@);
                }
                return Err(
                    IncompatibleImageError {
                        image: value,
                        reason: IncompatibleImageErrorReason::IncompatibleChannel { index: i },
                    },
                );
            }
            proof {
                T::lemma_unwrap_view(c@);
            }
            let b = c.dimensions();
            if b.0 != a.0 || b.1 != a.1 {
                return Err(
                    IncompatibleImageError {
                        image: value,
                        reason: IncompatibleImageErrorReason::MixedImageSizes { a, b },
                    },
                );
            }
            i += 1;
        }
        let ghost views = value@;
        let mut rest = value.into_channels();
        let mut channels: Vec<ImageChannel<T, ComptimeSize<N>>> = Vec::new();
        let mut j: usize = 0;
        while j < CHANNELS
            invariant
                CHANNELS >= 1,
                j <= CHANNELS <= views.len(),
                dynamic_fits::<T>(views, N as nat, CHANNELS as nat),
                rest@.len() == views.len() - j,
                forall|k: int| 0 <= k < rest@.len() ==> (#[trigger] rest@[k]).wf(),
                forall|k: int| 0 <= k < rest@.len() ==> #[trigger] rest@[k]@ == views[k + j],
                channels@.len() == j,
                forall|k: int| 0 <= k < j ==> (#[trigger] channels@[k]).wf(),
                forall|k: int| 0 <= k < j ==> #[trigger] T::spec_wrap_view(channels@[k]@) == views[k],
            decreases CHANNELS - j,
        {
            let d = rest.remove(0);
            assert(d@ == views[j as int]);
            match ImageChannel::<T, ComptimeSize<N>>::try_from_dynamic(d) {
                Ok(c) => channels.push(c),
                Err(_) => {
                    assert(accepts::<T>(views[j as int], N as nat));
                    return vstd::pervasive::unreached();
                },
            }
            j += 1;
        }
        let img = Image { channels };
        proof {
            assert forall|k: int| 0 <= k < CHANNELS implies #[trigger] T::spec_wrap_view(img@[k]) == views[k] by {
                assert(img@[k] == channels@[k]@);
            }
            assert forall|k: int| 0 <= k < CHANNELS implies (#[trigger] channels@[k]).wf()
                && channels@[k]@.width == channels@[0]@.width && channels@[k]@.height
                == channels@[0]@.height by {
                T::lemma_wrap_view(channels@[k]@);
                T::lemma_wrap_view(channels@[0]@);
            }
        }
        Ok(img)
    }
}

proof fn lemma_grid_index(row: int, col: int, rows: int, cols: int)
    requires
        0 <= row < rows,
        0 <= col < cols,
    ensures
        0 <= row * cols + col < rows * cols,
        row * cols + col + 1 <= rows * cols,
{
    assert(row * cols + col < rows * cols) by (nonlinear_arith)
        requires
            0 <= row < rows,
            0 <= col < cols,
    ;
    assert(0 <= row * cols) by (nonlinear_arith)
        requires
            0 <= row,
            0 <= col < cols,
    ;
}

impl<T: PixelTypePrimitive, const CHANNELS: usize> Image<T, CHANNELS> {
    /// A planar image from interleaved elements: element `c` of pixel `p`,
    /// `v[p × CHANNELS + c]`, becomes pixel `p` of channel `c`.
    pub fn from_flat_interleaved(v: &[T], width: u32, height: u32) -> (r: Self)
        requires
            CHANNELS >= 1,
            width >= 1,
            height >= 1,
            v@.len() == CHANNELS * flat_len(width as nat, height as nat, 1),
        ensures
            r.wf(),
            forall|c: int|
                0 <= c < CHANNELS ==> (#[trigger] r@[c]).width == width as nat && r@[c].height
                    == height as nat && r@[c].elements == 1 && r@[c].data.len() == width * height,
            forall|c: int, p: int|
                0 <= c < CHANNELS && 0 <= p < width * height ==> #[trigger] r@[c].data[p] == v@[p
                    * CHANNELS + c],
    {
        let ghost area = flat_len(width as nat, height as nat, 1) as int;
        let n = v.len();
        proof {
            assert(area == width * height);
            assert(n == CHANNELS * area);
            assert(area <= n) by (nonlinear_arith)
                requires
                    n == CHANNELS * area,
                    CHANNELS >= 1,
                    area >= 0,
            ;
        }
        let len = (width as usize) * (height as usize);
        let mut out: Vec<T> = Vec::with_capacity(n);
        let mut c: usize = 0;
        while c < CHANNELS
            invariant
                len == area,
                n == v@.len(),
                v@.len() == CHANNELS * area,
                c <= CHANNELS,
                out@.len() == c * area,
                forall|d: int, q: int|
                    0 <= d < c && 0 <= q < area ==> #[trigger] out@[d * area + q] == v@[q
                        * CHANNELS + d],
            decreases CHANNELS - c,
        {
            let mut p: usize = 0;
            while p < len
                invariant
                    len == area,
                    n == v@.len(),
                    v@.len() == CHANNELS * area,
                    c < CHANNELS,
                    p <= len,
                    out@.len() == c * area + p,
                    forall|d: int, q: int|
                        0 <= d < c && 0 <= q < area ==> #[trigger] out@[d * area + q] == v@[q
                            * CHANNELS + d],
                    forall|q: int| 0 <= q < p ==> #[trigger] out@[c * area + q] == v@[q * CHANNELS + c],
                decreases len - p,
            {
                proof {
                    lemma_grid_index(p as int, c as int, area, CHANNELS as int);
                    assert(area * CHANNELS == CHANNELS * area) by (nonlinear_arith);
                }
                let x = v[p * CHANNELS + c];
                let ghost before = out@;
                out.push(x);
                proof {
                    assert forall|d: int, q: int|
                        0 <= d < c && 0 <= q < area implies #[trigger] out@[d * area + q] == v@[q
                            * CHANNELS + d] by {
                        lemma_grid_index(d, q, c as int, area);
                        lemma_grid_index(q, d, area, CHANNELS as int);
                        assert(before[d * area + q] == v@[q * CHANNELS + d]);
                    }
                    assert forall|q: int| 0 <= q < p + 1 implies #[trigger] out@[c * area + q] == v@[q
                        * CHANNELS + c] by {
                        lemma_grid_index(q, c as int, area, CHANNELS as int);
                        if q < p {
                            assert(before[c * area + q] == v@[q * CHANNELS + c]);
                        }
                    }
                }
                p += 1;
            }
            proof {
                assert forall|d: int, q: int|
                    0 <= d < c + 1 && 0 <= q < area implies #[trigger] out@[d * area + q] == v@[q
                        * CHANNELS + d] by {
                    lemma_grid_index(q, d, area, CHANNELS as int);
                    if d == c {
                        assert(out@[c * area + q] == v@[q * CHANNELS + c]);
                    }
                }
                assert(c * area + area == (c + 1) * area) by (nonlinear_arith);
            }
            c += 1;
        }
        let ghost data = out@;
        let r = Image::<T, CHANNELS, ComptimeSize<1>>::new_vec(out, width, height);
        proof {
            assert(area * CHANNELS == CHANNELS * area) by (nonlinear_arith);
            assert forall|c: int| 0 <= c < CHANNELS implies (#[trigger] r@[c]).width == width as nat
                && r@[c].height == height as nat && r@[c].elements == 1 && r@[c].data.len() == width
                * height by {
                assert(c * area + area == (c + 1) * area) by (nonlinear_arith);
                assert((c + 1) * area <= CHANNELS * area) by (nonlinear_arith)
                    requires
                        c + 1 <= CHANNELS,
                        area >= 0,
                ;
                assert(0 <= c * area) by (nonlinear_arith)
                    requires
                        c >= 0,
                        area >= 0,
                ;
            }
            assert forall|c: int, p: int|
                0 <= c < CHANNELS && 0 <= p < width * height implies #[trigger] r@[c].data[p] == v@[p
                * CHANNELS + c] by {
                lemma_grid_index(c, p, CHANNELS as int, area);
                lemma_grid_index(p, c, area, CHANNELS as int);
                assert(c * area + area == (c + 1) * area) by (nonlinear_arith);
                assert((c + 1) * area <= CHANNELS * area) by (nonlinear_arith)
                    requires
                        c + 1 <= CHANNELS,
                        area >= 0,
                ;
                assert(r@[c].data == data.subrange(c * area, (c + 1) * area));
                assert(data[c * area + p] == v@[p * CHANNELS + c]);
            }
        }
        r
    }
}

impl<T: PixelTypePrimitive, const PIXEL_ELEMENTS: usize> Image<T, 1, ComptimeSize<PIXEL_ELEMENTS>> {
    /// An interleaved image from planes: pixel `p` of plane `c` becomes
    /// element `c` of pixel `p`, at `p × PIXEL_ELEMENTS + c`.
    pub fn from_planar(planes: &[&[T]], width: u32, height: u32) -> (r: Self)
        requires
            valid_count(PIXEL_ELEMENTS as nat),
            width >= 1,
            height >= 1,
            planes@.len() == PIXEL_ELEMENTS,
            forall|c: int| 0 <= c < PIXEL_ELEMENTS ==> (#[trigger] planes@[c])@.len() == width * height,
            width * height * PIXEL_ELEMENTS <= usize::MAX,
        ensures
            r.wf(),
            r@[0].width == width as nat,
            r@[0].height == height as nat,
            r@[0].elements == PIXEL_ELEMENTS as nat,
            forall|p: int, c: int|
                0 <= p < width * height && 0 <= c < PIXEL_ELEMENTS ==> #[trigger] r@[0].data[p
                    * PIXEL_ELEMENTS + c] == planes@[c]@[p],
    {
        let ghost area = width * height;
        let ghost k = PIXEL_ELEMENTS as int;
        proof {
            assert(area <= area * k) by (nonlinear_arith)
                requires
                    k >= 1,
                    area >= 0,
            ;
        }
        let len = (width as usize) * (height as usize);
        let mut out: Vec<T> = Vec::new();
        let mut p: usize = 0;
        while p < len
            invariant
                len == area,
                area == width * height,
                k == PIXEL_ELEMENTS as int,
                area * k <= usize::MAX,
                k >= 1,
                planes@.len() == k,
                forall|c: int| 0 <= c < k ==> (#[trigger] planes@[c])@.len() == area,
                p <= len,
                out@.len() == p * k,
                forall|q: int, d: int|
                    0 <= q < p && 0 <= d < k ==> #[trigger] out@[q * k + d] == planes@[d]@[q],
            decreases len - p,
        {
            let mut c: usize = 0;
            while c < PIXEL_ELEMENTS
                invariant
                    len == area,
                    area == width * height,
                    k == PIXEL_ELEMENTS as int,
                    area * k <= usize::MAX,
                    k >= 1,
                    planes@.len() == k,
                    forall|c: int| 0 <= c < k ==> (#[trigger] planes@[c])@.len() == area,
                    p < len,
                    c <= k,
                    out@.len() == p * k + c,
                    forall|q: int, d: int|
                        0 <= q < p && 0 <= d < k ==> #[trigger] out@[q * k + d] == planes@[d]@[q],
                    forall|d: int| 0 <= d < c ==> #[trigger] out@[p * k + d] == planes@[d]@[p as int],
                decreases k - c,
            {
                let ghost before = out@;
                out.push(planes[c][p]);
                proof {
                    assert forall|q: int, d: int|
                        0 <= q < p && 0 <= d < k implies #[trigger] out@[q * k + d]
                            == planes@[d]@[q] by {
                        lemma_grid_index(q, d, p as int, k);
                        assert(before[q * k + d] == planes@[d]@[q]);
                    }
                    assert forall|d: int| 0 <= d < c + 1 implies #[trigger] out@[p * k + d]
                        == planes@[d]@[p as int] by {
                        if d < c {
                            assert(before[p * k + d] == planes@[d]@[p as int]);
                        }
                    }
                }
                c += 1;
            }
            proof {
                assert forall|q: int, d: int|
                    0 <= q < p + 1 && 0 <= d < k implies #[trigger] out@[q * k + d]
                        == planes@[d]@[q] by {
                    lemma_grid_index(q, d, p + 1, k);
                    if q == p {
                        assert(out@[p * k + d] == planes@[d]@[p as int]);
                    }
                }
                assert(p * k + k == (p + 1) * k) by (nonlinear_arith);
            }
            p += 1;
        }
        let ghost data = out@;
        proof {
            assert(area * k == width * height * k) by (nonlinear_arith)
                requires
                    area == width * height,
            ;
            assert(1 * (width * height * k) == width * height * k);
        }
        let r = Image::<T, 1, ComptimeSize<PIXEL_ELEMENTS>>::new_vec(out, width, height);
        proof {
            assert(0 * (width * height * k) == 0);
            assert(data.subrange(0, width * height * k) =~= data);
            assert(r@[0].data == data);
            assert forall|p: int, c: int|
                0 <= p < width * height && 0 <= c < PIXEL_ELEMENTS implies #[trigger] r@[0].data[p
                * PIXEL_ELEMENTS + c] == planes@[c]@[p] by {
                lemma_grid_index(p, c, area, k);
                assert(data[p * k + c] == planes@[c]@[p]);
            }
        }
        r
    }
}

impl<T: PixelTypePrimitive, const CHANNELS: usize> Image<T, CHANNELS> {
    /// The planar form of an interleaved image; see `from_flat_interleaved`.
    pub fn from_interleaved(i: &Image<T, 1, ComptimeSize<CHANNELS>>) -> (r: Self)
        requires
            i.wf(),
        ensures
            r.wf(),
            forall|c: int|
                0 <= c < CHANNELS ==> (#[trigger] r@[c]).width == i@[0].width && r@[c].height
                    == i@[0].height && r@[c].elements == 1,
            forall|c: int, p: int|
                0 <= c < CHANNELS && 0 <= p < i@[0].width * i@[0].height ==> #[trigger] r@[c].data[p]
                    == i@[0].data[p * CHANNELS + c],
    {
        proof {
            i.lemma_wf();
            assert(i@[0].valid());
            i.channels@[0].lemma_wf_valid();
            assert(i@[0].elements == CHANNELS) by {
                i.channels@[0].lemma_wf_elements();
            }
            assert(i@[0].data.len() == CHANNELS * flat_len(i@[0].width, i@[0].height, 1)) by (nonlinear_arith)
                requires
                    i@[0].data.len() == flat_len(i@[0].width, i@[0].height, i@[0].elements),
                    i@[0].elements == CHANNELS,
            ;
        }
        let (width, height) = i.dimensions();
        Self::from_flat_interleaved(i.flat_buffer(), width, height)
    }
}

impl<T: PixelTypePrimitive, const PIXEL_ELEMENTS: usize> Image<T, 1, ComptimeSize<PIXEL_ELEMENTS>> {
    /// The interleaved form of a planar image with one plane per element of
    /// a pixel; see `from_planar`.
    pub fn from_planar_image<const CHANNELS: usize>(i: &Image<T, CHANNELS>) -> (r: Self)
        requires
            i.wf(),
            CHANNELS == PIXEL_ELEMENTS,
            valid_count(PIXEL_ELEMENTS as nat),
            i@[0].width * i@[0].height * PIXEL_ELEMENTS <= usize::MAX,
        ensures
            r.wf(),
            r@[0].width == i@[0].width,
            r@[0].height == i@[0].height,
            r@[0].elements == PIXEL_ELEMENTS as nat,
            forall|p: int, c: int|
                0 <= p < i@[0].width * i@[0].height && 0 <= c < PIXEL_ELEMENTS ==> #[trigger] r@[0].data[p
                    * PIXEL_ELEMENTS + c] == i@[c].data[p],
    {
        proof {
            i.lemma_wf();
            assert forall|c: int| 0 <= c < CHANNELS implies (#[trigger] i@[c]).data.len() == i@[0].width
                * i@[0].height by {
                assert(i@[c].valid());
                i.channels@[c].lemma_wf_elements();
                assert(i@[c].elements == 1);
                assert(i@[c].width == i@[0].width && i@[c].height == i@[0].height);
                assert(i@[c].width * i@[c].height * 1 == i@[c].width * i@[c].height) by (nonlinear_arith);
            }
        }
        let (width, height) = i.dimensions();
        let planes = i.buffers();
        Self::from_planar(planes.as_slice(), width, height)
    }
}

impl<T: PixelTypePrimitive, const CHANNELS: usize, S: PixelSize> PartialEq for Image<T, CHANNELS, S> {
    /// The same number of channels, pairwise equal.
    fn eq(&self, other: &Self) -> (r: bool) {
        if self.channels.len() != other.channels.len() {
            return false;
        }
        let mut i: usize = 0;
        while i < self.channels.len()
            invariant
                i <= self.channels@.len() == other.channels@.len(),
                forall|k: int|
                    0 <= k < i ==> PartialEqSpec::eq_spec(
                        &#[trigger] self.channels@[k],
                        &other.channels@[k],
                    ),
            decreases self.channels@.len() - i,
        {
            if !(self.channels[i] == other.channels[i]) {
                return false;
            }
            i += 1;
        }
        true
    }
}

impl<T: PixelTypePrimitive, const CHANNELS: usize, S: PixelSize> vstd::std_specs::cmp::PartialEqSpecImpl for Image<T, CHANNELS, S> {
    open spec fn obeys_eq_spec() -> bool {
        true
    }

    /// The same number of channels, pairwise equal.
    closed spec fn eq_spec(&self, other: &Self) -> bool {
        &&& self.channels@.len() == other.channels@.len()
        &&& forall|k: int|
            0 <= k < self.channels@.len() ==> PartialEqSpec::eq_spec(
                &#[trigger] self.channels@[k],
                &other.channels@[k],
            )
    }
}

} // verus!
