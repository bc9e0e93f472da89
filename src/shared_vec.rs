//! One vector shared by several channels, each of which sees its own range.

use std::sync::Arc;
use vstd::prelude::*;

use crate::channel::{flat_len, ChannelView, ImageChannel, UnsafeImageChannel};
use crate::pixel::{valid_count, ComptimeSize};
use crate::storage::arc_clone;

verus! {

/// The record behind a group of channels carved out of one vector. The
/// number of channels that refer to it is the strong count of the `Arc`
/// that holds it; the vector is freed when the last of them is dropped.
#[derive(Debug)]
pub struct SharedVecData<T> {
    pub(crate) vec: Vec<T>,
}

impl<T> SharedVecData<T> {
    /// The elements of the whole vector.
    pub closed spec fn spec_elements(&self) -> Seq<T> {
        self.vec@
    }

    pub fn new(vec: Vec<T>) -> (r: Self)
        ensures
            r.spec_elements() == vec@,
    {
        SharedVecData { vec }
    }

    /// Number of elements of the whole vector.
    pub fn len(&self) -> (r: usize)
        ensures
            r as nat == self.spec_elements().len(),
    {
        self.vec.len()
    }
}

/// Where slice `i` starts when slices of the given sizes are laid out one
/// after the other, `elements` elements per pixel.
pub open spec fn slice_start(sizes: Seq<(u32, u32)>, elements: nat, i: int) -> nat
    decreases i,
{
    if i <= 0 {
        0
    } else {
        slice_start(sizes, elements, i - 1) + flat_len(
            sizes[i - 1].0 as nat,
            sizes[i - 1].1 as nat,
            elements,
        )
    }
}

proof fn lemma_slice_start_monotonic(sizes: Seq<(u32, u32)>, elements: nat, i: int, j: int)
    requires
        0 <= i <= j,
    ensures
        slice_start(sizes, elements, i) <= slice_start(sizes, elements, j),
    decreases j - i,
{
    if i < j {
        lemma_slice_start_monotonic(sizes, elements, i, j - 1);
    }
}

/// Splits one vector into channels of the given sizes, laid out one after
/// the other, without copying: the channels share the vector, and each
/// becomes writable on its own (see `ImageChannel::make_mut`).
pub fn create_shared_channels<T, const N: usize>(vec: Vec<T>, sizes: &[(u32, u32)]) -> (r: Vec<
    ImageChannel<T, ComptimeSize<N>>,
>)
    requires
        valid_count(N as nat),
        sizes@.len() >= 1,
        forall|i: int| 0 <= i < sizes@.len() ==> #[trigger] sizes@[i].0 >= 1 && sizes@[i].1 >= 1,
        vec@.len() == slice_start(sizes@, N as nat, sizes@.len() as int),
    ensures
        r@.len() == sizes@.len(),
        forall|i: int|
            0 <= i < r@.len() ==> (#[trigger] r@[i]).wf() && r@[i]@ == (ChannelView {
                width: sizes@[i].0 as nat,
                height: sizes@[i].1 as nat,
                elements: N as nat,
                data: vec@.subrange(
                    slice_start(sizes@, N as nat, i) as int,
                    slice_start(sizes@, N as nat, i + 1) as int,
                ),
            }),
{
    let ghost all = vec@;
    let total = vec.len();
    let record = Arc::new(SharedVecData::new(vec));
    let mut channels: Vec<ImageChannel<T, ComptimeSize<N>>> = Vec::new();
    let mut start: usize = 0;
    let mut i: usize = 0;
    while i < sizes.len()
        invariant
            0 <= i <= sizes@.len(),
            record.vec@ == all,
            total == all.len(),
            all.len() == slice_start(sizes@, N as nat, sizes@.len() as int),
            start as nat == slice_start(sizes@, N as nat, i as int),
            valid_count(N as nat),
            forall|k: int| 0 <= k < sizes@.len() ==> #[trigger] sizes@[k].0 >= 1 && sizes@[k].1 >= 1,
            channels@.len() == i,
            forall|k: int|
                0 <= k < i ==> (#[trigger] channels@[k]).wf() && channels@[k]@ == (ChannelView {
                    width: sizes@[k].0 as nat,
                    height: sizes@[k].1 as nat,
                    elements: N as nat,
                    data: all.subrange(
                        slice_start(sizes@, N as nat, k) as int,
                        slice_start(sizes@, N as nat, k + 1) as int,
                    ),
                }),
        decreases sizes@.len() - i,
    {
        let (width, height) = sizes[i];
        proof {
            lemma_slice_start_monotonic(sizes@, N as nat, i + 1, sizes@.len() as int);
        }
        let len = crate::channel::calc_image_channel_len_flat(width, height, N as u8);
        let raw = UnsafeImageChannel::from_shared_slice(arc_clone(&record), start, width, height, N as u8);
        let channel = ImageChannel::from_unsafe_internal(raw);
        channels.push(channel);
        start = start + len;
        i = i + 1;
    }
    channels
}

} // verus!
