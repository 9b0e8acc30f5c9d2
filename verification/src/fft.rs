//! Fourier transforms: the checks and the layout before the kernel is run.

use vstd::prelude::*;

use crate::bridge;
use crate::error::{BufferError, Failure, Fault};
use crate::text;
use crate::text::{decimal, signed_decimal};

verus! {

/// The complaint that a stream does not have the declared length.
pub open spec fn stream_fault(lead: Seq<char>, len: nat, n: i64) -> Fault {
    Fault::Value(lead + decimal(len) + " != n "@ + signed_decimal(n as int))
}

fn complain_stream(lead: &str, len: usize, n: i64) -> (r: Failure)
    ensures
        r@ == stream_fault(lead@, len as nat, n),
{
    let mut out: String = lead.to_owned();
    text::push_decimal(&mut out, len as u128);
    out.append(" != n ");
    text::push_signed(&mut out, n);
    Failure::Value(out)
}

/// Why the streams of a signal of declared length `n` are refused: the real
/// stream before the imaginary one, which a real signal does not have.
pub open spec fn fft_fault(real_len: usize, imag_len: Option<usize>, n: i64) -> Option<Fault> {
    if real_len != n as usize {
        Some(stream_fault("fft: real stream len "@, real_len as nat, n))
    } else {
        match imag_len {
            Some(len) => if len != n as usize {
                Some(stream_fault("fft: imag stream len "@, len as nat, n))
            } else {
                None
            },
            None => None,
        }
    }
}

/// Checks that the streams of a signal have the declared length.
pub fn execute_fft(real_len: usize, imag_len: Option<usize>, n: i64) -> (r: Result<(), Failure>)
    ensures
        match r {
            Ok(_) => fft_fault(real_len, imag_len, n) is None,
            Err(e) => fft_fault(real_len, imag_len, n) == Some(e@),
        },
{
    if real_len != n as usize {
        return Err(complain_stream("fft: real stream len ", real_len, n));
    }
    match imag_len {
        Some(len) => {
            if len != n as usize {
                return Err(complain_stream("fft: imag stream len ", len, n));
            }
        },
        None => {},
    }
    Ok(())
}

/// How a transform is laid out: planes of `plane_bytes` bytes for the real and
/// the imaginary parts, in and out. A real signal gets an imaginary plane of
/// zeros.
#[derive(Debug, Clone, Copy, PartialEq, Eq, Structural)]
pub struct FftPlan {
    pub plane_bytes: usize,
    pub zero_imaginary: bool,
}

/// The layout of a real or complex signal of `n` samples.
pub open spec fn is_layout(complex: bool, n: i64, plan: FftPlan) -> bool {
    plan.plane_bytes == n * 4 && plan.zero_imaginary == !complex
}

/// Lays out the transform of a real or complex signal of `n` samples. There are
/// no empty device buffers, so an empty signal fails with its first plane.
pub fn fft_core(complex: bool, n: i64) -> (r: Result<FftPlan, String>)
    requires
        0 <= n,
        n * 4 <= usize::MAX,
    ensures
        match r {
            Ok(plan) => n > 0 && is_layout(complex, n, plan),
            Err(e) => n == 0 && e@ == "fft re staging: "@ + (BufferError::AllocationFailed {
                bytes: 0,
            }).text(),
        },
{
    let plane_bytes: usize = n as usize * 4;
    match bridge::check_allocation(plane_bytes) {
        Ok(_) => Ok(FftPlan { plane_bytes, zero_imaginary: !complex }),
        Err(e) => {
            let mut out: String = "fft re staging: ".to_owned();
            out.append(e.message().as_str());
            Err(out)
        },
    }
}

/// Streams are accepted exactly when each that there is has as many values as
/// were declared.
pub proof fn streams_have_the_declared_length(real_len: usize, imag_len: Option<usize>, n: i64)
    requires
        0 <= n <= usize::MAX,
    ensures
        fft_fault(real_len, imag_len, n) is None <==> real_len == n && (imag_len matches Some(len)
            ==> len == n),
{
}

/// Each plane holds every sample in four bytes, and only a real signal has its
/// imaginary plane filled with zeros.
pub proof fn planes_hold_every_sample(complex: bool, n: i64, plan: FftPlan, k: int)
    requires
        is_layout(complex, n, plan),
        0 <= k < n,
    ensures
        0 <= 4 * k,
        4 * k + 4 <= plan.plane_bytes,
        k == n - 1 ==> 4 * k + 4 == plan.plane_bytes,
        plan.zero_imaginary <==> !complex,
{
}

} // verus!
