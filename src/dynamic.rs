//! Channels and images whose element type is only known at run time.

use vstd::prelude::*;
use vstd::std_specs::cmp::PartialEqSpec;

use crate::channel::{ChannelView, ImageChannel};
use crate::pixel::{Float32, RuntimeSize};

verus! {

/// The element types a type-erased channel can hold.
#[derive(Clone, Copy, Debug, PartialEq, Eq, Structural)]
pub enum ElementKind {
    Byte,
    U16,
    F32,
}

/// What a type-erased channel holds: its element type and the view of the
/// channel of that type.
pub enum DynamicView {
    U8(ChannelView<u8>),
    U16(ChannelView<u16>),
    F32(ChannelView<Float32>),
}

impl DynamicView {
    pub open spec fn kind(&self) -> ElementKind {
        match self {
            DynamicView::U8(_) => ElementKind::Byte,
            DynamicView::U16(_) => ElementKind::U16,
            DynamicView::F32(_) => ElementKind::F32,
        }
    }

    pub open spec fn width(&self) -> nat {
        match self {
            DynamicView::U8(v) => v.width,
            DynamicView::U16(v) => v.width,
            DynamicView::F32(v) => v.width,
        }
    }

    pub open spec fn height(&self) -> nat {
        match self {
            DynamicView::U8(v) => v.height,
            DynamicView::U16(v) => v.height,
            DynamicView::F32(v) => v.height,
        }
    }

    pub open spec fn elements(&self) -> nat {
        match self {
            DynamicView::U8(v) => v.elements,
            DynamicView::U16(v) => v.elements,
            DynamicView::F32(v) => v.elements,
        }
    }
}

/// A channel of one of the supported element types, chosen at run time; its
/// element count per pixel is a run-time value too.
#[derive(Debug)]
pub enum DynamicImageChannel {
    U8(ImageChannel<u8, RuntimeSize>),
    U16(ImageChannel<u16, RuntimeSize>),
    F32(ImageChannel<Float32, RuntimeSize>),
}

impl View for DynamicImageChannel {
    type V = DynamicView;

    open spec fn view(&self) -> DynamicView {
        match self {
            DynamicImageChannel::U8(c) => DynamicView::U8(c@),
            DynamicImageChannel::U16(c) => DynamicView::U16(c@),
            DynamicImageChannel::F32(c) => DynamicView::F32(c@),
        }
    }
}

impl DynamicImageChannel {
    pub open spec fn wf(&self) -> bool {
        match self {
            DynamicImageChannel::U8(c) => c.wf(),
            DynamicImageChannel::U16(c) => c.wf(),
            DynamicImageChannel::F32(c) => c.wf(),
        }
    }

    pub fn kind(&self) -> (r: ElementKind)
        ensures
            r == self@.kind(),
    {
        match self {
            DynamicImageChannel::U8(_) => ElementKind::Byte,
            DynamicImageChannel::U16(_) => ElementKind::U16,
            DynamicImageChannel::F32(_) => ElementKind::F32,
        }
    }

    pub fn width(&self) -> (r: u32)
        ensures
            r as nat == self@.width(),
    {
        match self {
            DynamicImageChannel::U8(c) => c.width(),
            DynamicImageChannel::U16(c) => c.width(),
            DynamicImageChannel::F32(c) => c.width(),
        }
    }

    pub fn height(&self) -> (r: u32)
        ensures
            r as nat == self@.height(),
    {
        match self {
            DynamicImageChannel::U8(c) => c.height(),
            DynamicImageChannel::U16(c) => c.height(),
            DynamicImageChannel::F32(c) => c.height(),
        }
    }

    pub fn dimensions(&self) -> (r: (u32, u32))
        ensures
            r.0 as nat == self@.width(),
            r.1 as nat == self@.height(),
    {
        (self.width(), self.height())
    }

    pub fn pixel_elements(&self) -> (r: u8)
        requires
            self.wf(),
        ensures
            r as nat == self@.elements(),
    {
        match self {
            DynamicImageChannel::U8(c) => c.pixel_elements(),
            DynamicImageChannel::U16(c) => c.pixel_elements(),
            DynamicImageChannel::F32(c) => c.pixel_elements(),
        }
    }
}

impl Clone for DynamicImageChannel {
    fn clone(&self) -> (r: Self)
        ensures
            self.wf() ==> r.wf() && r@ == self@,
    {
        match self {
            DynamicImageChannel::U8(c) => DynamicImageChannel::U8(c.clone()),
            DynamicImageChannel::U16(c) => DynamicImageChannel::U16(c.clone()),
            DynamicImageChannel::F32(c) => DynamicImageChannel::F32(c.clone()),
        }
    }
}

impl PartialEq for DynamicImageChannel {
    /// The same element type and equal channels.
    fn eq(&self, other: &Self) -> (r: bool) {
        match (self, other) {
            (DynamicImageChannel::U8(a), DynamicImageChannel::U8(b)) => a == b,
            (DynamicImageChannel::U16(a), DynamicImageChannel::U16(b)) => a == b,
            (DynamicImageChannel::F32(a), DynamicImageChannel::F32(b)) => a == b,
            _ => false,
        }
    }
}

impl vstd::std_specs::cmp::PartialEqSpecImpl for DynamicImageChannel {
    open spec fn obeys_eq_spec() -> bool {
        true
    }

    open spec fn eq_spec(&self, other: &Self) -> bool {
        match (self, other) {
            (DynamicImageChannel::U8(a), DynamicImageChannel::U8(b)) => PartialEqSpec::eq_spec(a, b),
            (DynamicImageChannel::U16(a), DynamicImageChannel::U16(b)) => PartialEqSpec::eq_spec(a, b),
            (DynamicImageChannel::F32(a), DynamicImageChannel::F32(b)) => PartialEqSpec::eq_spec(a, b),
            _ => false,
        }
    }
}

/// An image whose number of channels and whose element types are only
/// known at run time.
#[derive(Debug)]
pub struct DynamicImage {
    channels: Vec<DynamicImageChannel>,
}

impl View for DynamicImage {
    type V = Seq<DynamicView>;

    closed spec fn view(&self) -> Seq<DynamicView> {
        self.channels@.map_values(|c: DynamicImageChannel| c@)
    }
}

impl DynamicImage {
    /// At least one channel, and every channel consistent.
    pub closed spec fn wf(&self) -> bool {
        &&& self.channels@.len() >= 1
        &&& forall|i: int| 0 <= i < self.channels@.len() ==> (#[trigger] self.channels@[i]).wf()
    }

    /// An image of the given channels; `None` when there are none.
    pub fn from_channels(channels: Vec<DynamicImageChannel>) -> (r: Option<Self>)
        requires
            forall|i: int| 0 <= i < channels@.len() ==> (#[trigger] channels@[i]).wf(),
        ensures
            channels@.len() == 0 <==> r is None,
            r matches Some(img) ==> img.wf() && img@ == channels@.map_values(|c: DynamicImageChannel| c@),
    {
        if channels.len() == 0 {
            None
        } else {
            Some(DynamicImage { channels })
        }
    }

    /// Number of channels.
    pub fn len(&self) -> (r: usize)
        ensures
            r as nat == self@.len(),
    {
        self.channels.len()
    }

    /// The channel at `index`.
    pub fn channel(&self, index: usize) -> (r: &DynamicImageChannel)
        requires
            self.wf(),
            index < self@.len(),
        ensures
            r.wf(),
            r@ == self@[index as int],
    {
        &self.channels[index]
    }

    /// Replaces the channel at `index`.
    pub fn set_channel(&mut self, index: usize, channel: DynamicImageChannel)
        requires
            old(self).wf(),
            index < old(self)@.len(),
            channel.wf(),
        ensures
            final(self).wf(),
            final(self)@ == old(self)@.update(index as int, channel@),
    {
        self.channels.set(index, channel);
        assert(self@ =~= old(self)@.update(index as int, channel@));
    }

    /// The channels of the image.
    pub fn into_channels(self) -> (r: Vec<DynamicImageChannel>)
        ensures
            r@.map_values(|c: DynamicImageChannel| c@) == self@,
            self.wf() ==> forall|i: int| 0 <= i < r@.len() ==> (#[trigger] r@[i]).wf(),
    {
        self.channels
    }
}

impl Clone for DynamicImage {
    fn clone(&self) -> (r: Self)
        ensures
            self.wf() ==> r.wf() && r@ == self@,
    {
        let mut channels: Vec<DynamicImageChannel> = Vec::new();
        let mut i: usize = 0;
        while i < self.channels.len()
            invariant
                i <= self.channels@.len(),
                channels@.len() == i,
                forall|k: int|
                    0 <= k < i ==> (self.channels@[k].wf() ==> (#[trigger] channels@[k]).wf()
                        && channels@[k]@ == self.channels@[k]@),
            decreases self.channels@.len() - i,
        {
            channels.push(self.channels[i].clone());
            i += 1;
        }
        let r = DynamicImage { channels };
        proof {
            if self.wf() {
                assert(r@ =~= self@);
            }
        }
        r
    }
}

impl PartialEq for DynamicImage {
    /// The same number of channels, pairwise equal.
    fn eq(&self, other: &Self) -> (r: bool) {
        if self.channels.len() != other.channels.len() {
            return false;
        }
        let mut i: usize = 0;
        while i < self.channels.len()
            invariant
                i <= self.channels@.len() == other.channels@.len(),
                forall|k: int|
                    0 <= k < i ==> PartialEqSpec::eq_spec(
                        &#[trigger] self.channels@[k],
                        &other.channels@[k],
                    ),
            decreases self.channels@.len() - i,
        {
            if !(self.channels[i] == other.channels[i]) {
                return false;
            }
            i += 1;
        }
        true
    }
}

impl vstd::std_specs::cmp::PartialEqSpecImpl for DynamicImage {
    open spec fn obeys_eq_spec() -> bool {
        true
    }

    /// The same number of channels, pairwise equal.
    closed spec fn eq_spec(&self, other: &Self) -> bool {
        &&& self.channels@.len() == other.channels@.len()
        &&& forall|k: int|
            0 <= k < self.channels@.len() ==> PartialEqSpec::eq_spec(
                &#[trigger] self.channels@[k],
                &other.channels@[k],
            )
    }
}

} // verus!
