//! A single image channel: `width × height` pixels of `pixel elements` each,
//! stored flat, behind one of three storage strategies.

use std::sync::Arc;
use vstd::prelude::*;
use vstd::std_specs::cmp::PartialEqSpec;

use crate::pixel::{valid_count, ComptimeSize, PixelSize, PixelTypePrimitive, RuntimeSize};
use crate::dynamic::{DynamicImageChannel, DynamicView};
use crate::shared_vec::SharedVecData;
use crate::storage::{arc_clone, arc_from_slice, arc_make_mut, arc_try_unwrap, copy_range, range_mut};

verus! {

/// What a channel holds, whatever the storage behind it.
pub struct ChannelView<T> {
    pub width: nat,
    pub height: nat,
    pub elements: nat,
    pub data: Seq<T>,
}

/// Number of elements in a channel of the given shape.
pub open spec fn flat_len(width: nat, height: nat, elements: nat) -> nat {
    width * height * elements
}

impl<T> ChannelView<T> {
    /// Positive dimensions that fit `u32`, an element count in `1..=255`,
    /// and exactly `width × height × elements` elements.
    pub open spec fn valid(&self) -> bool {
        &&& 1 <= self.width <= u32::MAX
        &&& 1 <= self.height <= u32::MAX
        &&& 1 <= self.elements <= 255
        &&& self.data.len() == flat_len(self.width, self.height, self.elements)
        &&& self.data.len() <= usize::MAX
    }

    pub open spec fn with_data(self, data: Seq<T>) -> Self {
        ChannelView { data, ..self }
    }
}

/// How the elements of a channel are stored.
#[derive(Debug)]
pub(crate) enum Backing<T> {
    /// The sole owner of a vector; the channel's elements start at `start`.
    Exclusive { vec: Vec<T>, start: usize },
    /// One reference to reference-counted storage holding exactly the elements.
    Shared(Arc<[T]>),
    /// One reference to a record shared by several channels, each with its own range.
    SharedSlice { record: Arc<SharedVecData<T>>, start: usize },
}

impl<T> Backing<T> {
    pub(crate) closed spec fn spec_fits(&self, len: nat) -> bool {
        match self {
            Backing::Exclusive { vec, start } => *start + len <= vec@.len() && *start + len <= usize::MAX,
            Backing::Shared(a) => a@.len() == len,
            Backing::SharedSlice { record, start } => *start + len <= record.vec@.len() && *start + len
                <= usize::MAX,
        }
    }

    pub(crate) closed spec fn spec_data(&self, len: nat) -> Seq<T> {
        match self {
            Backing::Exclusive { vec, start } => vec@.subrange(*start as int, *start + len),
            Backing::Shared(a) => a@,
            Backing::SharedSlice { record, start } => record.vec@.subrange(
                *start as int,
                *start + len,
            ),
        }
    }
}

proof fn lemma_splice<T>(a: Seq<T>, b: Seq<T>, c: Seq<T>)
    ensures
        (a + b + c).subrange(a.len() as int, (a.len() + b.len()) as int) == b,
        (a + b + c).len() == a.len() + b.len() + c.len(),
{
    assert((a + b + c).subrange(a.len() as int, (a.len() + b.len()) as int) =~= b);
}

/// `width × height × pixel_elements`, the number of elements of a channel.
pub fn calc_image_channel_len_flat(width: u32, height: u32, pixel_elements: u8) -> (r: usize)
    requires
        flat_len(width as nat, height as nat, pixel_elements as nat) <= usize::MAX,
    ensures
        r as nat == flat_len(width as nat, height as nat, pixel_elements as nat),
{
    let w = width as usize;
    let h = height as usize;
    let e = pixel_elements as usize;
    proof {
        if e == 0 {
            assert(w * h * e == 0) by (nonlinear_arith)
                requires
                    e == 0,
            ;
        } else {
            assert(w * h <= w * h * e) by (nonlinear_arith)
                requires
                    e >= 1,
            ;
        }
        assert(0 <= w * h) by (nonlinear_arith);
    }
    if e == 0 {
        return 0;
    }
    w * h * e
}

/// The storage-level channel, the lowest layer of a channel: dimensions,
/// the number of elements per pixel as a run-time value, and the storage
/// strategy. All of its operations are safe. `ImageChannel` adds the
/// element count per pixel as a type parameter on top of it.
#[derive(Debug)]
pub struct UnsafeImageChannel<T> {
    width: u32,
    height: u32,
    pixel_elements: u8,
    backing: Backing<T>,
}

impl<T> View for UnsafeImageChannel<T> {
    type V = ChannelView<T>;

    closed spec fn view(&self) -> ChannelView<T> {
        ChannelView {
            width: self.width as nat,
            height: self.height as nat,
            elements: self.pixel_elements as nat,
            data: self.backing.spec_data(self.spec_len()),
        }
    }
}

impl<T> UnsafeImageChannel<T> {
    pub closed spec fn spec_len(&self) -> nat {
        flat_len(self.width as nat, self.height as nat, self.pixel_elements as nat)
    }

    /// The channel is consistent: its view is valid and its storage holds
    /// the range that the view describes.
    pub closed spec fn wf(&self) -> bool {
        &&& self.width >= 1
        &&& self.height >= 1
        &&& valid_count(self.pixel_elements as nat)
        &&& self.spec_len() <= usize::MAX
        &&& self.backing.spec_fits(self.spec_len())
    }

    pub proof fn lemma_wf_valid(&self)
        requires
            self.wf(),
        ensures
            self@.valid(),
    {
    }

    /// Number of elements of the channel, `width × height × pixel elements`.
    pub fn calc_len_flat(&self) -> (r: usize)
        requires
            self.wf(),
        ensures
            r as nat == self@.data.len(),
            r as nat == flat_len(self@.width, self@.height, self@.elements),
    {
        calc_image_channel_len_flat(self.width, self.height, self.pixel_elements)
    }

    /// Number of elements of the channel.
    pub fn len(&self) -> (r: usize)
        requires
            self.wf(),
        ensures
            r as nat == self@.data.len(),
    {
        self.calc_len_flat()
    }

    pub fn width(&self) -> (r: u32)
        ensures
            r as nat == self@.width,
    {
        self.width
    }

    pub fn height(&self) -> (r: u32)
        ensures
            r as nat == self@.height,
    {
        self.height
    }

    pub fn dimensions(&self) -> (r: (u32, u32))
        ensures
            r.0 as nat == self@.width,
            r.1 as nat == self@.height,
    {
        (self.width, self.height)
    }

    /// Elements per pixel.
    pub fn pixel_elements(&self) -> (r: u8)
        requires
            self.wf(),
        ensures
            r as nat == self@.elements,
    {
        self.pixel_elements
    }

    /// All elements of the channel, read-only. Never copies.
    pub fn flat_buffer(&self) -> (r: &[T])
        requires
            self.wf(),
        ensures
            r@ == self@.data,
    {
        let len = self.calc_len_flat();
        match &self.backing {
            Backing::Exclusive { vec, start } => &vec.as_slice()[*start..*start + len],
            Backing::Shared(a) => &**a,
            Backing::SharedSlice { record, start } => &record.vec.as_slice()[*start..*start + len],
        }
    }

    /// The number of elements when the channel is consistent, `None` otherwise.
    pub fn checked_len(&self) -> (r: Option<usize>)
        ensures
            r is Some <==> self.wf(),
            r matches Some(n) ==> n as nat == self.spec_len(),
    {
        if self.width == 0 || self.height == 0 {
            return None;
        }
        let e = self.pixel_elements;
        if e == 0 {
            return None;
        }
        let wh = match (self.width as usize).checked_mul(self.height as usize) {
            Some(v) => v,
            None => {
                proof {
                    assert((self.width as nat) * (self.height as nat) <= self.spec_len()) by (nonlinear_arith)
                        requires e >= 1, self.spec_len() == flat_len(self.width as nat, self.height as nat, e as nat);
                }
                return None;
            },
        };
        let len = match wh.checked_mul(e as usize) {
            Some(v) => v,
            None => return None,
        };
        let fits = match &self.backing {
            Backing::Exclusive { vec, start } => match start.checked_add(len) {
                Some(end) => end <= vec.len(),
                None => false,
            },
            Backing::Shared(a) => a.len() == len,
            Backing::SharedSlice { record, start } => match start.checked_add(len) {
                Some(end) => end <= record.vec.len(),
                None => false,
            },
        };
        if fits {
            Some(len)
        } else {
            None
        }
    }
}

impl<T: PixelTypePrimitive> UnsafeImageChannel<T> {
    /// Leaves the shared multi-channel record: takes the whole vector over
    /// when no other channel refers to it, and copies the channel's range
    /// otherwise.
    fn detach(&mut self)
        requires
            old(self).wf(),
        ensures
            final(self).wf(),
            final(self)@ == old(self)@,
            final(self).width == old(self).width,
            final(self).height == old(self).height,
            final(self).pixel_elements == old(self).pixel_elements,
            !(final(self).backing is SharedSlice),
    {
        let len = self.calc_len_flat();
        if let Backing::SharedSlice { .. } = &self.backing {
            let mut taken = Backing::Exclusive { vec: Vec::new(), start: 0 };
            std::mem::swap(&mut self.backing, &mut taken);
            match taken {
                Backing::SharedSlice { record, start } => {
                    match arc_try_unwrap(record) {
                        Ok(data) => {
                            self.backing = Backing::Exclusive { vec: data.vec, start };
                        },
                        Err(record) => {
                            let copy = copy_range(record.vec.as_slice(), start, start + len);
                            assert(copy@.subrange(0, len as int) =~= copy@);
                            self.backing = Backing::Exclusive { vec: copy, start: 0 };
                        },
                    }
                },
                _ => {},
            }
        }
    }

    /// Mutable access to the elements: in place when no other channel refers
    /// to the storage, after a private copy otherwise, so that no other
    /// channel ever sees the change.
    pub fn make_mut(&mut self) -> (r: &mut [T])
        requires
            old(self).wf(),
        ensures
            r@ == old(self)@.data,
            final(r)@.len() == r@.len() ==> final(self).wf() && final(self)@ == old(self)@.with_data(
                final(r)@,
            ),
    {
        self.detach();
        let len = self.calc_len_flat();
        match &mut self.backing {
            Backing::Exclusive { vec, start } => {
                let lo = *start;
                let ghost before = vec@;
                let r = range_mut(vec.as_mut_slice(), lo, lo + len);
                proof {
                    lemma_splice(
                        before.subrange(0, lo as int),
                        final(r)@,
                        before.subrange(lo + len, before.len() as int),
                    );
                }
                r
            },
            Backing::Shared(a) => arc_make_mut(a),
            Backing::SharedSlice { .. } => vstd::pervasive::unreached(),
        }
    }

    /// The elements as a vector: the very allocation it was built from, when
    /// the channel was built from a vector and is the sole owner of it, and
    /// one copy otherwise.
    pub fn into_vec(self) -> (r: Vec<T>)
        requires
            self.wf(),
        ensures
            r@ == self@.data,
    {
        let len = self.calc_len_flat();
        let ghost data = self@.data;
        match self.backing {
            Backing::Exclusive { mut vec, start } => {
                if start == 0 {
                    vec.truncate(len);
                    assert(vec@ =~= data);
                    vec
                } else {
                    copy_range(vec.as_slice(), start, start + len)
                }
            },
            Backing::Shared(a) => copy_range(&*a, 0, len),
            Backing::SharedSlice { record, start } => copy_range(
                record.vec.as_slice(),
                start,
                start + len,
            ),
        }
    }
}

impl<T> UnsafeImageChannel<T> {
    /// Wraps a vector of `width × height × pixel_elements` elements without
    /// copying it; the channel owns the vector alone.
    pub fn new_vec(input: Vec<T>, width: u32, height: u32, pixel_elements: u8) -> (r: Self)
        requires
            pixel_elements >= 1,
            width >= 1,
            height >= 1,
            input@.len() == flat_len(width as nat, height as nat, pixel_elements as nat),
        ensures
            r.wf(),
            r@ == (ChannelView {
                width: width as nat,
                height: height as nat,
                elements: pixel_elements as nat,
                data: input@,
            }),
    {
        let _ = input.len();
        let r = UnsafeImageChannel {
            width,
            height,
            pixel_elements,
            backing: Backing::Exclusive { vec: input, start: 0 },
        };
        assert(r@.data =~= input@);
        r
    }

    /// Wraps reference-counted storage of `width × height × pixel_elements`
    /// elements, taking over one reference without copying.
    pub fn new_arc(input: Arc<[T]>, width: u32, height: u32, pixel_elements: u8) -> (r: Self)
        requires
            pixel_elements >= 1,
            width >= 1,
            height >= 1,
            input@.len() == flat_len(width as nat, height as nat, pixel_elements as nat),
        ensures
            r.wf(),
            r@ == (ChannelView {
                width: width as nat,
                height: height as nat,
                elements: pixel_elements as nat,
                data: input@,
            }),
    {
        let _ = input.len();
        UnsafeImageChannel { width, height, pixel_elements, backing: Backing::Shared(input) }
    }

    /// The channel that sees elements `start..start + width × height ×
    /// pixel_elements` of a shared record, holding one more reference to it.
    pub(crate) fn from_shared_slice(
        record: Arc<SharedVecData<T>>,
        start: usize,
        width: u32,
        height: u32,
        pixel_elements: u8,
    ) -> (r: Self)
        requires
            pixel_elements >= 1,
            width >= 1,
            height >= 1,
            start + flat_len(width as nat, height as nat, pixel_elements as nat) <= record.vec@.len(),
        ensures
            r.wf(),
            r@ == (ChannelView {
                width: width as nat,
                height: height as nat,
                elements: pixel_elements as nat,
                data: record.vec@.subrange(
                    start as int,
                    start + flat_len(width as nat, height as nat, pixel_elements as nat),
                ),
            }),
    {
        let _ = record.vec.len();
        UnsafeImageChannel {
            width,
            height,
            pixel_elements,
            backing: Backing::SharedSlice { record, start },
        }
    }
}

impl<T: PixelTypePrimitive> PartialEq for UnsafeImageChannel<T> {
    /// Same dimensions, same element count per pixel and the same elements;
    /// where the elements are stored plays no part.
    fn eq(&self, other: &Self) -> (r: bool) {
        let (a, b) = match (self.checked_len(), other.checked_len()) {
            (Some(a), Some(b)) => (a, b),
            _ => return false,
        };
        if self.width != other.width || self.height != other.height || self.pixel_elements != other.pixel_elements {
            return false;
        }
        let x = self.flat_buffer();
        let y = other.flat_buffer();
        let mut i: usize = 0;
        while i < a
            invariant
                a == b,
                x@ == self@.data,
                y@ == other@.data,
                x@.len() == a,
                y@.len() == b,
                i <= a,
                x@.subrange(0, i as int) == y@.subrange(0, i as int),
            decreases a - i,
        {
            if !T::same(&x[i], &y[i]) {
                assert(x@[i as int] != y@[i as int]);
                assert(self@.data[i as int] != other@.data[i as int]);
                return false;
            }
            assert(x@.subrange(0, i + 1) =~= x@.subrange(0, i as int).push(x@[i as int]));
            assert(y@.subrange(0, i + 1) =~= y@.subrange(0, i as int).push(y@[i as int]));
            i += 1;
        }
        assert(x@ =~= x@.subrange(0, i as int));
        assert(y@ =~= y@.subrange(0, i as int));
        true
    }
}

impl<T: PixelTypePrimitive> vstd::std_specs::cmp::PartialEqSpecImpl for UnsafeImageChannel<T> {
    open spec fn obeys_eq_spec() -> bool {
        true
    }

    open spec fn eq_spec(&self, other: &Self) -> bool {
        self.wf() && other.wf() && self@ == other@
    }
}

impl<T: PixelTypePrimitive> Clone for UnsafeImageChannel<T> {
    /// A channel with the same contents. Reference-counted storage is shared
    /// by one more reference; an exclusively owned vector is copied once into
    /// new reference-counted storage, which the two channels cannot both own.
    fn clone(&self) -> (r: Self)
        ensures
            self.wf() ==> r.wf() && r@ == self@,
    {
        let backing = match &self.backing {
            Backing::Exclusive { vec, start } => match self.checked_len() {
                Some(len) => Backing::Shared(arc_from_slice(&vec.as_slice()[*start..*start + len])),
                None => Backing::Exclusive { vec: Vec::new(), start: 0 },
            },
            Backing::Shared(a) => Backing::Shared(arc_clone(a)),
            Backing::SharedSlice { record, start } => Backing::SharedSlice {
                record: arc_clone(record),
                start: *start,
            },
        };
        UnsafeImageChannel { width: self.width, height: self.height, pixel_elements: self.pixel_elements, backing }
    }
}

/// One rectangular plane of pixels. `S` says how many elements form a pixel:
/// fixed by the type (`ComptimeSize<N>`) or chosen at run time (`RuntimeSize`).
#[derive(Debug)]
pub struct ImageChannel<T, S = ComptimeSize<1>> {
    raw: UnsafeImageChannel<T>,
    size: S,
}

impl<T, S: PixelSize> View for ImageChannel<T, S> {
    type V = ChannelView<T>;

    closed spec fn view(&self) -> ChannelView<T> {
        self.raw@
    }
}

impl<T, S: PixelSize> ImageChannel<T, S> {
    /// The storage is consistent and holds as many elements per pixel as
    /// `S` says.
    pub closed spec fn wf(&self) -> bool {
        &&& self.raw.wf()
        &&& self.raw@.elements == self.size.spec_count()
    }

    pub proof fn lemma_wf_valid(&self)
        requires
            self.wf(),
        ensures
            self@.valid(),
    {
        self.raw.lemma_wf_valid();
    }
    /// Number of elements of the channel, `width × height × pixel elements`.
    pub fn len(&self) -> (r: usize)
        requires
            self.wf(),
        ensures
            r as nat == self@.data.len(),
            r as nat == flat_len(self@.width, self@.height, self@.elements),
    {
        self.raw.calc_len_flat()
    }

    pub fn width(&self) -> (r: u32)
        ensures
            r as nat == self@.width,
    {
        self.raw.width()
    }

    pub fn height(&self) -> (r: u32)
        ensures
            r as nat == self@.height,
    {
        self.raw.height()
    }

    pub fn dimensions(&self) -> (r: (u32, u32))
        ensures
            r.0 as nat == self@.width,
            r.1 as nat == self@.height,
    {
        self.raw.dimensions()
    }

    /// Elements per pixel.
    pub fn pixel_elements(&self) -> (r: u8)
        requires
            self.wf(),
        ensures
            r as nat == self@.elements,
    {
        self.raw.pixel_elements()
    }

    /// All elements of the channel, read-only. Never copies.
    pub fn flat_buffer(&self) -> (r: &[T])
        requires
            self.wf(),
        ensures
            r@ == self@.data,
    {
        self.raw.flat_buffer()
    }

    /// The elements of the channel, pixel after pixel, read-only.
    pub fn buffer(&self) -> (r: &[T])
        requires
            self.wf(),
        ensures
            r@ == self@.data,
    {
        self.raw.flat_buffer()
    }

    /// Same as `flat_buffer`.
    pub fn buffer_flat(&self) -> (r: &[T])
        requires
            self.wf(),
        ensures
            r@ == self@.data,
    {
        self.raw.flat_buffer()
    }

    /// The storage-level channel underneath.
    pub fn into_unsafe(self) -> (r: UnsafeImageChannel<T>)
        requires
            self.wf(),
        ensures
            r.wf(),
            r@ == self@,
    {
        self.raw
    }

    /// The same channel with its element count kept as a run-time value.
    pub fn into_runtime(self) -> (r: ImageChannel<T, RuntimeSize>)
        requires
            self.wf(),
        ensures
            r.wf(),
            r@ == self@,
    {
        let size = RuntimeSize::new(self.raw.pixel_elements()).unwrap();
        ImageChannel { raw: self.raw, size }
    }
}

impl<T: PixelTypePrimitive, S: PixelSize> ImageChannel<T, S> {
    /// Mutable access to the elements: in place when no other channel refers
    /// to the storage, after a private copy otherwise, so that no other
    /// channel ever sees the change.
    pub fn primitive_make_mut(&mut self) -> (r: &mut [T])
        requires
            old(self).wf(),
        ensures
            r@ == old(self)@.data,
            final(r)@.len() == r@.len() ==> final(self).wf() && final(self)@ == old(self)@.with_data(
                final(r)@,
            ),
    {
        self.raw.make_mut()
    }

    /// Mutable access to the pixels; see `primitive_make_mut`.
    pub fn make_mut(&mut self) -> (r: &mut [T])
        requires
            old(self).wf(),
        ensures
            r@ == old(self)@.data,
            final(r)@.len() == r@.len() ==> final(self).wf() && final(self)@ == old(self)@.with_data(
                final(r)@,
            ),
    {
        self.raw.make_mut()
    }

    /// The elements as a vector: the very allocation it was built from, when
    /// the channel was built from a vector and owns it alone, and one copy
    /// otherwise.
    pub fn primitive_into_vec(self) -> (r: Vec<T>)
        requires
            self.wf(),
        ensures
            r@ == self@.data,
    {
        self.raw.into_vec()
    }

    /// The pixels as a vector; see `primitive_into_vec`.
    pub fn into_vec(self) -> (r: Vec<T>)
        requires
            self.wf(),
        ensures
            r@ == self@.data,
    {
        self.raw.into_vec()
    }
}

impl<T, const N: usize> ImageChannel<T, ComptimeSize<N>> {
    pub proof fn lemma_wf_elements(&self)
        requires
            self.wf(),
        ensures
            self@.elements == N as nat,
    {
    }

    /// Wraps a vector of `width × height × N` elements without copying it.
    pub fn new_vec(input: Vec<T>, width: u32, height: u32) -> (r: Self)
        requires
            valid_count(N as nat),
            width >= 1,
            height >= 1,
            input@.len() == flat_len(width as nat, height as nat, N as nat),
        ensures
            r.wf(),
            r@ == (ChannelView { width: width as nat, height: height as nat, elements: N as nat, data: input@ }),
    {
        let raw = UnsafeImageChannel::new_vec(input, width, height, N as u8);
        ImageChannel { raw, size: ComptimeSize() }
    }

    /// Wraps reference-counted storage of `width × height × N` elements,
    /// taking over one reference without copying.
    pub fn new_arc(input: Arc<[T]>, width: u32, height: u32) -> (r: Self)
        requires
            valid_count(N as nat),
            width >= 1,
            height >= 1,
            input@.len() == flat_len(width as nat, height as nat, N as nat),
        ensures
            r.wf(),
            r@ == (ChannelView { width: width as nat, height: height as nat, elements: N as nat, data: input@ }),
    {
        let raw = UnsafeImageChannel::new_arc(input, width, height, N as u8);
        ImageChannel { raw, size: ComptimeSize() }
    }

    pub(crate) fn from_unsafe_internal(raw: UnsafeImageChannel<T>) -> (r: Self)
        requires
            raw.wf(),
            raw@.elements == N as nat,
        ensures
            r.wf(),
            r@ == raw@,
    {
        ImageChannel { raw, size: ComptimeSize() }
    }
}

impl<T> ImageChannel<T, RuntimeSize> {
    /// A channel over a storage-level channel, its element count per pixel
    /// kept as a run-time value.
    pub fn from_unsafe(raw: UnsafeImageChannel<T>) -> (r: Self)
        requires
            raw.wf(),
        ensures
            r.wf(),
            r@ == raw@,
    {
        let size = RuntimeSize::new(raw.pixel_elements()).unwrap();
        ImageChannel { raw, size }
    }

    /// The channel with its element count fixed by the type, when that count
    /// is `N`; the channel itself, unchanged, otherwise.
    pub fn try_into_comptime<const N: usize>(self) -> (r: Result<ImageChannel<T, ComptimeSize<N>>, Self>)
        requires
            self.wf(),
        ensures
            match r {
                Ok(c) => self@.elements == N as nat && c.wf() && c@ == self@,
                Err(e) => self@.elements != N as nat && e == self,
            },
    {
        if self.raw.pixel_elements() as usize == N {
            Ok(ImageChannel { raw: self.raw, size: ComptimeSize() })
        } else {
            Err(self)
        }
    }
}

impl<T: PixelTypePrimitive, S: PixelSize> PartialEq for ImageChannel<T, S> {
    /// Same dimensions, same element count per pixel and the same elements;
    /// where the elements are stored plays no part.
    fn eq(&self, other: &Self) -> (r: bool) {
        self.raw == other.raw
    }
}

impl<T: PixelTypePrimitive, S: PixelSize> vstd::std_specs::cmp::PartialEqSpecImpl for ImageChannel<T, S> {
    open spec fn obeys_eq_spec() -> bool {
        true
    }

    /// For consistent channels: the same view.
    closed spec fn eq_spec(&self, other: &Self) -> bool {
        self.raw.wf() && other.raw.wf() && self@ == other@
    }
}

impl<T: PixelTypePrimitive, S: PixelSize> ImageChannel<T, S> {
    /// For consistent channels `==` holds exactly when the views are equal.
    pub proof fn lemma_eq_view(&self, other: &Self)
        requires
            self.wf(),
            other.wf(),
        ensures
            PartialEqSpec::eq_spec(self, other) <==> self@ == other@,
    {
    }
}

impl<T: PixelTypePrimitive, S: PixelSize> Clone for ImageChannel<T, S> {
    /// A channel with the same contents; see `UnsafeImageChannel::clone`.
    fn clone(&self) -> (r: Self)
        ensures
            self.wf() ==> r.wf() && r@ == self@,
    {
        ImageChannel { raw: self.raw.clone(), size: self.size }
    }
}

/// Whether a type-erased channel can be recovered as a channel of element
/// type `T` with `n` elements per pixel.
pub open spec fn accepts<T: PixelTypePrimitive>(d: DynamicView, n: nat) -> bool {
    d.kind() == T::spec_kind() && d.elements() == n
}

impl<T: PixelTypePrimitive, S: PixelSize> ImageChannel<T, S> {
    /// Erases the element type and the element count per pixel.
    pub fn into_dynamic(self) -> (r: DynamicImageChannel)
        requires
            self.wf(),
        ensures
            r.wf(),
            r@ == T::spec_wrap_view(self@),
    {
        T::into_runtime_channel(self.into_runtime())
    }
}

impl<T: PixelTypePrimitive, const N: usize> ImageChannel<T, ComptimeSize<N>> {
    /// Recovers a channel of element type `T` and `N` elements per pixel;
    /// hands the type-erased channel back unchanged when it holds another
    /// element type or another element count.
    pub fn try_from_dynamic(d: DynamicImageChannel) -> (r: Result<Self, DynamicImageChannel>)
        requires
            d.wf(),
        ensures
            match r {
                Ok(c) => accepts::<T>(d@, N as nat) && c.wf() && T::spec_wrap_view(c@) == d@,
                Err(e) => !accepts::<T>(d@, N as nat) && e == d,
            },
    {
        proof {
            T::lemma_unwrap_view(d@);
        }
        if !T::holds_kind(&d) || d.pixel_elements() as usize != N {
            return Err(d);
        }
        match T::try_from_dynamic_image(d) {
            Ok(c) => {
                proof {
                    T::lemma_unwrap_view(d@);
                    T::lemma_wrap_view(c@);
                }
                match c.try_into_comptime::<N>() {
                    Ok(typed) => Ok(typed),
                    Err(_) => vstd::pervasive::unreached(),
                }
            },
            Err(_) => vstd::pervasive::unreached(),
        }
    }
}

} // verus!
