//! Properties that relate several operations of the library, stated over
//! the views that the operations' contracts use.

use vstd::prelude::*;

use crate::channel::{accepts, flat_len, ChannelView};
use crate::dynamic::DynamicView;
use crate::image::concat_data;
use crate::pixel::PixelTypePrimitive;

verus! {

/// Wrapping a buffer in a channel (`ImageChannel::new_vec`) and taking the
/// elements back out (`ImageChannel::into_vec`) gives the buffer back.
pub proof fn lemma_channel_round_trip<T>(buffer: Seq<T>, width: nat, height: nat, elements: nat)
    ensures
        (ChannelView { width, height, elements, data: buffer }).data == buffer,
{
}

/// Splitting a buffer into `count` channels of `len` elements each
/// (`Image::new_vec`) and joining them again (`Image::into_vec`) gives the
/// buffer back.
pub proof fn lemma_image_round_trip<T>(
    buffer: Seq<T>,
    views: Seq<ChannelView<T>>,
    count: nat,
    len: nat,
)
    requires
        buffer.len() == count * len,
        views.len() == count,
        forall|i: int|
            0 <= i < count ==> (#[trigger] views[i]).data == buffer.subrange(i * len, (i + 1) * len),
    ensures
        concat_data(views) == buffer,
    decreases count,
{
    if count == 0 {
        assert(buffer =~= Seq::<T>::empty());
    } else {
        let k = (count - 1) as nat;
        assert(k * len + len == count * len) by (nonlinear_arith)
            requires
                k == count - 1,
        ;
        assert(0 <= k * len <= count * len) by (nonlinear_arith)
            requires
                k == count - 1,
        ;
        let front = buffer.subrange(0, (k * len) as int);
        assert forall|i: int| 0 <= i < k implies (#[trigger] views.drop_last()[i]).data
            == front.subrange(i * len, (i + 1) * len) by {
            assert((i + 1) * len <= k * len) by (nonlinear_arith)
                requires
                    i + 1 <= k,
            ;
            assert(0 <= i * len <= (i + 1) * len) by (nonlinear_arith)
                requires
                    i >= 0,
            ;
            assert(front.subrange(i * len, (i + 1) * len) =~= buffer.subrange(i * len, (i + 1) * len));
        }
        lemma_image_round_trip(front, views.drop_last(), k, len);
        assert(views.last() == views[k as int]);
        assert(buffer =~= front + buffer.subrange((k * len) as int, ((k + 1) * len) as int));
    }
}

/// Changing one channel of an image (`Image::make_mut`) leaves the others
/// as they were.
pub proof fn lemma_channels_independent<T>(
    views: Seq<ChannelView<T>>,
    index: int,
    changed: ChannelView<T>,
    other: int,
)
    requires
        0 <= index < views.len(),
        0 <= other < views.len(),
        other != index,
    ensures
        views.update(index, changed)[other] == views[other],
{
}

/// Erasing the element type of a channel and recovering it with the same
/// element type and element count succeeds and gives the same channel back;
/// recovering it with another element type or another element count fails.
pub proof fn lemma_dynamic_round_trip<T: PixelTypePrimitive, U: PixelTypePrimitive>(
    v: ChannelView<T>,
    n: nat,
)
    ensures
        accepts::<T>(T::spec_wrap_view(v), v.elements),
        T::spec_unwrap_view(T::spec_wrap_view(v)) == Some(v),
        accepts::<U>(T::spec_wrap_view(v), n) <==> (U::spec_kind() == T::spec_kind() && n == v.elements),
{
    T::lemma_wrap_view(v);
}

} // verus!
