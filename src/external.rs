//! Length-checked import of raw buffers handed over by other image
//! libraries: malformed input is reported, never a reason to panic.

use vstd::prelude::*;

use crate::channel::{flat_len, ChannelView, UnsafeImageChannel};

verus! {

/// A buffer whose length does not match the dimensions it came with.
#[derive(Clone, Copy, Debug, PartialEq, Eq, Structural)]
pub struct IncompatibleBufferSize {
    pub expected: usize,
    pub actual: usize,
}

impl IncompatibleBufferSize {
    /// A line of text that describes the mismatch.
    pub fn message(&self) -> String {
        format_mismatch(self.expected, self.actual)
    }
}

/// Relies on `std::format!` to render the two lengths in decimal.
#[verifier::external_body]
fn format_mismatch(expected: usize, actual: usize) -> String {
    format!("The image has a wrong length. Expected {}, got {}", expected, actual)
}

/// Why a raw buffer could not be imported.
#[derive(Clone, Copy, Debug, PartialEq, Eq, Structural)]
pub enum RawBufferErrorReason {
    /// The width, the height or the element count per pixel is zero.
    ZeroDimension,
    IncompatibleBufferSize(IncompatibleBufferSize),
}

/// `a × b`, or `usize::MAX` when that does not fit.
pub open spec fn saturating_product(a: nat, b: nat) -> nat {
    if a * b <= usize::MAX {
        a * b
    } else {
        usize::MAX as nat
    }
}

/// Checks that a buffer holds `width_times_height × pixel_elements`
/// elements. The buffer comes back unchanged either way; on a mismatch
/// together with the expected and the actual length.
pub fn extract_vec<T>(buffer: Vec<T>, width_times_height: usize, pixel_elements: u8) -> (r: Result<
    Vec<T>,
    (Vec<T>, IncompatibleBufferSize),
>)
    ensures
        match r {
            Ok(v) => buffer@.len() == width_times_height * pixel_elements && v == buffer,
            Err((b, e)) => buffer@.len() != width_times_height * pixel_elements && b == buffer
                && e.actual == buffer@.len() && e.expected as nat == saturating_product(
                width_times_height as nat,
                pixel_elements as nat,
            ),
        },
{
    let actual = buffer.len();
    match width_times_height.checked_mul(pixel_elements as usize) {
        Some(expected) => {
            if actual == expected {
                Ok(buffer)
            } else {
                Err((buffer, IncompatibleBufferSize { expected, actual }))
            }
        },
        None => Err((buffer, IncompatibleBufferSize { expected: usize::MAX, actual })),
    }
}

/// Imports a raw buffer of `width × height` pixels of `pixel_elements`
/// elements each, without copying. The buffer comes back unchanged when a
/// dimension is zero or when its length does not match.
pub fn channel_from_raw<T>(buffer: Vec<T>, width: u32, height: u32, pixel_elements: u8) -> (r: Result<
    UnsafeImageChannel<T>,
    (Vec<T>, RawBufferErrorReason),
>)
    ensures
        match r {
            Ok(c) => width >= 1 && height >= 1 && pixel_elements >= 1 && buffer@.len() == flat_len(
                width as nat,
                height as nat,
                pixel_elements as nat,
            ) && c.wf() && c@ == (ChannelView {
                width: width as nat,
                height: height as nat,
                elements: pixel_elements as nat,
                data: buffer@,
            }),
            Err((b, reason)) => b == buffer && match reason {
                RawBufferErrorReason::ZeroDimension => width == 0 || height == 0 || pixel_elements
                    == 0,
                RawBufferErrorReason::IncompatibleBufferSize(e) => width >= 1 && height >= 1
                    && pixel_elements >= 1 && buffer@.len() != flat_len(
                    width as nat,
                    height as nat,
                    pixel_elements as nat,
                ) && e.actual == buffer@.len(),
            },
        },
{
    if width == 0 || height == 0 || pixel_elements == 0 {
        return Err((buffer, RawBufferErrorReason::ZeroDimension));
    }
    let actual = buffer.len();
    let width_times_height = match (width as usize).checked_mul(height as usize) {
        Some(v) => v,
        None => {
            proof {
                assert((width as nat) * (height as nat) <= flat_len(
                    width as nat,
                    height as nat,
                    pixel_elements as nat,
                )) by (nonlinear_arith)
                    requires
                        pixel_elements >= 1,
                ;
            }
            return Err(
                (
                    buffer,
                    RawBufferErrorReason::IncompatibleBufferSize(
                        IncompatibleBufferSize { expected: usize::MAX, actual },
                    ),
                ),
            );
        },
    };
    match extract_vec(buffer, width_times_height, pixel_elements) {
        Ok(v) => {
            assert(flat_len(width as nat, height as nat, pixel_elements as nat) == width_times_height
                * pixel_elements);
            Ok(UnsafeImageChannel::new_vec(v, width, height, pixel_elements))
        },
        Err((b, e)) => Err((b, RawBufferErrorReason::IncompatibleBufferSize(e))),
    }
}

} // verus!
