//! Pixel layouts: how many elements make up one pixel, and the closed set
//! of element types that a channel can hold.

use vstd::prelude::*;

use crate::channel::{ChannelView, ImageChannel};
use crate::dynamic::{DynamicImageChannel, DynamicView, ElementKind};

verus! {

/// Whether `n` elements per pixel can be represented: between 1 and 255.
pub open spec fn valid_count(n: nat) -> bool {
    1 <= n <= 255
}

/// The number of elements that form one pixel of a channel.
pub trait PixelSize: Sized + Copy {
    /// The element count this value stands for.
    spec fn spec_count(&self) -> nat;

    fn get(&self) -> (r: u8)
        requires
            valid_count(self.spec_count()),
        ensures
            r as nat == self.spec_count(),
    ;

    /// The count when it can be represented, 0 otherwise.
    fn get_checked(&self) -> (r: u8)
        ensures
            valid_count(self.spec_count()) ==> r as nat == self.spec_count(),
            !valid_count(self.spec_count()) ==> r == 0,
    ;
}

/// An element count fixed by the type.
#[derive(Clone, Copy, Debug)]
pub struct ComptimeSize<const PIXEL_ELEMENTS: usize>();

impl<const PIXEL_ELEMENTS: usize> PixelSize for ComptimeSize<PIXEL_ELEMENTS> {
    open spec fn spec_count(&self) -> nat {
        PIXEL_ELEMENTS as nat
    }

    fn get(&self) -> (r: u8) {
        PIXEL_ELEMENTS as u8
    }

    fn get_checked(&self) -> (r: u8) {
        if 1 <= PIXEL_ELEMENTS && PIXEL_ELEMENTS <= 255 {
            PIXEL_ELEMENTS as u8
        } else {
            0
        }
    }
}

impl<const PIXEL_ELEMENTS: usize> Default for ComptimeSize<PIXEL_ELEMENTS> {
    fn default() -> (r: Self) {
        ComptimeSize()
    }
}

/// An element count chosen at run time.
#[derive(Clone, Copy, Debug)]
pub struct RuntimeSize {
    count: u8,
}

impl RuntimeSize {
    /// Builds a run-time count; `None` for zero.
    pub fn new(count: u8) -> (r: Option<Self>)
        ensures
            count == 0 <==> r.is_none(),
            r matches Some(s) ==> s.spec_count() == count as nat,
    {
        if count == 0 {
            None
        } else {
            Some(RuntimeSize { count })
        }
    }
}

impl PixelSize for RuntimeSize {
    closed spec fn spec_count(&self) -> nat {
        self.count as nat
    }

    fn get(&self) -> (r: u8) {
        self.count
    }

    fn get_checked(&self) -> (r: u8) {
        self.count
    }
}

impl Default for RuntimeSize {
    fn default() -> (r: Self)
        ensures
            r.spec_count() == 1,
    {
        RuntimeSize { count: 1 }
    }
}

/// A 32-bit floating-point element, held by its IEEE-754 bit pattern. Two
/// elements are the same when their bit patterns are.
#[derive(Clone, Copy, Debug, PartialEq, Eq, Structural)]
pub struct Float32 {
    pub bits: u32,
}

impl Float32 {
    pub fn from_bits(bits: u32) -> (r: Self)
        ensures
            r.bits == bits,
    {
        Float32 { bits }
    }

    pub fn to_bits(self) -> (r: u32)
        ensures
            r == self.bits,
    {
        self.bits
    }
}

/// The closed set of element types a channel can hold: bytes, 16-bit
/// integers and 32-bit floats. Each of them has its own variant in
/// `DynamicImageChannel`, through which a channel of that type is erased and
/// recovered.
pub trait PixelTypePrimitive: Copy + Sized + crate::sealed::Sealed {
    /// Which element type this is.
    spec fn spec_kind() -> ElementKind;

    /// The view of a type-erased channel that holds a channel with view `v`.
    spec fn spec_wrap_view(v: ChannelView<Self>) -> DynamicView;

    /// The view of the channel a type-erased channel holds, when it holds
    /// one of this element type.
    spec fn spec_unwrap_view(d: DynamicView) -> Option<ChannelView<Self>>;

    proof fn lemma_wrap_view(v: ChannelView<Self>)
        ensures
            Self::spec_wrap_view(v).kind() == Self::spec_kind(),
            Self::spec_wrap_view(v).width() == v.width,
            Self::spec_wrap_view(v).height() == v.height,
            Self::spec_wrap_view(v).elements() == v.elements,
            Self::spec_unwrap_view(Self::spec_wrap_view(v)) == Some(v),
    ;

    proof fn lemma_unwrap_view(d: DynamicView)
        ensures
            Self::spec_unwrap_view(d) is Some <==> d.kind() == Self::spec_kind(),
            Self::spec_unwrap_view(d) matches Some(v) ==> Self::spec_wrap_view(v) == d,
    ;

    /// Whether two elements are the same.
    fn same(a: &Self, b: &Self) -> (r: bool)
        ensures
            r == (*a == *b),
    ;

    /// Erases the element type of a channel.
    fn into_runtime_channel(c: ImageChannel<Self, RuntimeSize>) -> (r: DynamicImageChannel)
        ensures
            r@ == Self::spec_wrap_view(c@),
            r.wf() == c.wf(),
    ;

    /// Recovers a channel of this element type; hands the type-erased
    /// channel back unchanged when it holds another element type.
    fn try_from_dynamic_image(d: DynamicImageChannel) -> (r: Result<
        ImageChannel<Self, RuntimeSize>,
        DynamicImageChannel,
    >)
        ensures
            match r {
                Ok(c) => Self::spec_unwrap_view(d@) == Some(c@) && c.wf() == d.wf(),
                Err(e) => Self::spec_unwrap_view(d@) is None && e == d,
            },
    ;

    /// Whether a type-erased channel holds this element type.
    fn holds_kind(d: &DynamicImageChannel) -> (r: bool)
        ensures
            r == (Self::spec_unwrap_view(d@) is Some),
    ;
}

impl PixelTypePrimitive for u8 {
    open spec fn spec_kind() -> ElementKind {
        ElementKind::Byte
    }

    open spec fn spec_wrap_view(v: ChannelView<Self>) -> DynamicView {
        DynamicView::U8(v)
    }

    open spec fn spec_unwrap_view(d: DynamicView) -> Option<ChannelView<Self>> {
        match d {
            DynamicView::U8(v) => Some(v),
            _ => None,
        }
    }

    proof fn lemma_wrap_view(v: ChannelView<Self>) {
    }

    proof fn lemma_unwrap_view(d: DynamicView) {
    }

    fn same(a: &Self, b: &Self) -> (r: bool) {
        *a == *b
    }

    fn into_runtime_channel(c: ImageChannel<Self, RuntimeSize>) -> (r: DynamicImageChannel) {
        DynamicImageChannel::U8(c)
    }

    fn try_from_dynamic_image(d: DynamicImageChannel) -> (r: Result<
        ImageChannel<Self, RuntimeSize>,
        DynamicImageChannel,
    >) {
        match d {
            DynamicImageChannel::U8(c) => Ok(c),
            _ => Err(d),
        }
    }

    fn holds_kind(d: &DynamicImageChannel) -> (r: bool) {
        match d {
            DynamicImageChannel::U8(_) => true,
            _ => false,
        }
    }
}

impl PixelTypePrimitive for u16 {
    open spec fn spec_kind() -> ElementKind {
        ElementKind::U16
    }

    open spec fn spec_wrap_view(v: ChannelView<Self>) -> DynamicView {
        DynamicView::U16(v)
    }

    open spec fn spec_unwrap_view(d: DynamicView) -> Option<ChannelView<Self>> {
        match d {
            DynamicView::U16(v) => Some(v),
            _ => None,
        }
    }

    proof fn lemma_wrap_view(v: ChannelView<Self>) {
    }

    proof fn lemma_unwrap_view(d: DynamicView) {
    }

    fn same(a: &Self, b: &Self) -> (r: bool) {
        *a == *b
    }

    fn into_runtime_channel(c: ImageChannel<Self, RuntimeSize>) -> (r: DynamicImageChannel) {
        DynamicImageChannel::U16(c)
    }

    fn try_from_dynamic_image(d: DynamicImageChannel) -> (r: Result<
        ImageChannel<Self, RuntimeSize>,
        DynamicImageChannel,
    >) {
        match d {
            DynamicImageChannel::U16(c) => Ok(c),
            _ => Err(d),
        }
    }

    fn holds_kind(d: &DynamicImageChannel) -> (r: bool) {
        match d {
            DynamicImageChannel::U16(_) => true,
            _ => false,
        }
    }
}

impl PixelTypePrimitive for Float32 {
    open spec fn spec_kind() -> ElementKind {
        ElementKind::F32
    }

    open spec fn spec_wrap_view(v: ChannelView<Self>) -> DynamicView {
        DynamicView::F32(v)
    }

    open spec fn spec_unwrap_view(d: DynamicView) -> Option<ChannelView<Self>> {
        match d {
            DynamicView::F32(v) => Some(v),
            _ => None,
        }
    }

    proof fn lemma_wrap_view(v: ChannelView<Self>) {
    }

    proof fn lemma_unwrap_view(d: DynamicView) {
    }

    fn same(a: &Self, b: &Self) -> (r: bool) {
        a.bits == b.bits
    }

    fn into_runtime_channel(c: ImageChannel<Self, RuntimeSize>) -> (r: DynamicImageChannel) {
        DynamicImageChannel::F32(c)
    }

    fn try_from_dynamic_image(d: DynamicImageChannel) -> (r: Result<
        ImageChannel<Self, RuntimeSize>,
        DynamicImageChannel,
    >) {
        match d {
            DynamicImageChannel::F32(c) => Ok(c),
            _ => Err(d),
        }
    }

    fn holds_kind(d: &DynamicImageChannel) -> (r: bool) {
        match d {
            DynamicImageChannel::F32(_) => true,
            _ => false,
        }
    }
}

} // verus!
