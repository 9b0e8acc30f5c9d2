//! How a host buffer becomes a device buffer: wrapped without a copy when both
//! its address and its length are whole pages, copied otherwise.

use vstd::arithmetic::power2::is_pow2;
use vstd::prelude::*;

use crate::alignment;
use crate::alignment::{aligned, aligned_addresses_are_multiples};
use crate::error::BufferError;

verus! {

/// A host buffer, `arrow_buffer::Buffer`.
#[verifier::external_type_specification]
#[verifier::external_body]
pub struct ExHostBuffer(arrow_buffer::Buffer);

/// The bytes that a host buffer holds.
pub uninterp spec fn host_bytes(buffer: arrow_buffer::Buffer) -> Seq<u8>;

/// Calls `arrow_buffer::Buffer::len`: the number of bytes held.
#[verifier::external_body]
fn host_len(buffer: &arrow_buffer::Buffer) -> (r: usize)
    ensures
        r == host_bytes(*buffer).len(),
{
    buffer.len()
}

/// Calls `arrow_buffer::Buffer::as_ptr`: the address of the first byte. Where
/// the bytes lie is up to the allocator, so nothing is promised of it.
#[verifier::external_body]
fn host_address(buffer: &arrow_buffer::Buffer) -> (r: usize) {
    buffer.as_ptr() as usize
}

/// Calls `arrow_buffer::Buffer::from_vec`: a buffer that holds the vector's
/// bytes.
#[verifier::external_body]
fn host_from_vec(bytes: Vec<u8>) -> (r: arrow_buffer::Buffer)
    ensures
        host_bytes(r) == bytes@,
{
    arrow_buffer::Buffer::from_vec(bytes)
}

/// The two ways into device memory.
#[derive(Debug, Clone, Copy, PartialEq, Eq, Structural)]
pub enum IngestPath {
    ZeroCopy,
    Copy,
}

/// The way that a buffer at `ptr` of `len` bytes takes. An empty buffer is
/// refused: there are no empty device buffers.
pub fn ingest_path(ptr: usize, len: usize, page: usize) -> (r: Result<IngestPath, BufferError>)
    requires
        is_pow2(page as int),
    ensures
        match r {
            Err(e) => len == 0 && e == (BufferError::AllocationFailed { bytes: 0 }),
            Ok(path) => len > 0 && path == (if aligned(ptr as int, page as int) && aligned(
                len as int,
                page as int,
            ) {
                IngestPath::ZeroCopy
            } else {
                IngestPath::Copy
            }),
        },
{
    if len > 0 && alignment::is_page_aligned(ptr, len, page) {
        Ok(IngestPath::ZeroCopy)
    } else if len == 0 {
        Err(BufferError::AllocationFailed { bytes: 0 })
    } else {
        Ok(IngestPath::Copy)
    }
}

/// Where a host buffer lies, and the way into device memory that it takes.
#[derive(Debug, Clone, Copy, PartialEq, Eq, Structural)]
pub struct Ingest {
    pub address: usize,
    pub path: IngestPath,
}

/// The way of a buffer of `len` bytes goes by where it lies.
pub open spec fn goes_by_address(ingest: Ingest, len: nat, page: int) -> bool {
    ingest.path == (if aligned(ingest.address as int, page) && aligned(len as int, page) {
        IngestPath::ZeroCopy
    } else {
        IngestPath::Copy
    })
}

/// The way that a host buffer takes, from where it lies and how long it is.
/// Where it lies is up to the allocator.
pub fn from_arrow(buffer: &arrow_buffer::Buffer, page: usize) -> (r: Result<Ingest, BufferError>)
    requires
        is_pow2(page as int),
    ensures
        match r {
            Err(e) => host_bytes(*buffer).len() == 0 && e == (BufferError::AllocationFailed {
                bytes: 0,
            }),
            Ok(ingest) => host_bytes(*buffer).len() > 0 && goes_by_address(
                ingest,
                host_bytes(*buffer).len(),
                page as int,
            ),
        },
{
    let address: usize = host_address(buffer);
    match ingest_path(address, host_len(buffer), page) {
        Ok(path) => Ok(Ingest { address, path }),
        Err(e) => Err(e),
    }
}

/// A host buffer of `bytes` zeros.
pub fn zeroed(bytes: usize) -> (r: arrow_buffer::Buffer)
    ensures
        host_bytes(r) == Seq::new(bytes as nat, |i: int| 0u8),
{
    let zeros: Vec<u8> = vec![0u8; bytes];
    let r: arrow_buffer::Buffer = host_from_vec(zeros);
    assert(host_bytes(r) =~= Seq::new(bytes as nat, |i: int| 0u8));
    r
}

/// The check made before a device buffer of `bytes` bytes is allocated.
pub fn check_allocation(bytes: usize) -> (r: Result<(), BufferError>)
    ensures
        match r {
            Ok(_) => bytes > 0,
            Err(e) => bytes == 0 && e == (BufferError::AllocationFailed { bytes: 0 }),
        },
{
    if bytes == 0 {
        Err(BufferError::AllocationFailed { bytes: 0 })
    } else {
        Ok(())
    }
}

/// The check made before a view of `len` bytes at `offset` into a buffer of
/// `parent_len` bytes: the view is not empty and lies inside.
pub fn view_into(parent_len: usize, offset: usize, len: usize) -> (r: Result<(), BufferError>)
    ensures
        r is Ok <==> 0 < len && offset + len <= parent_len,
        r matches Err(e) ==> e == (BufferError::AllocationFailed { bytes: len }),
{
    if len == 0 {
        return Err(BufferError::AllocationFailed { bytes: 0 });
    }
    match offset.checked_add(len) {
        Some(end) => if end > parent_len {
            Err(BufferError::AllocationFailed { bytes: len })
        } else {
            Ok(())
        },
        None => Err(BufferError::AllocationFailed { bytes: len }),
    }
}

/// A buffer is wrapped without a copy exactly when its address and its length
/// are both whole numbers of pages.
pub proof fn whole_pages_are_wrapped(ingest: Ingest, len: nat, page: int, first: int, count: int)
    requires
        page > 0,
        goes_by_address(ingest, len, page),
    ensures
        ingest.address == first * page && len == count * page ==> ingest.path
            == IngestPath::ZeroCopy,
        ingest.path == IngestPath::ZeroCopy ==> ingest.address as int % page == 0 && len as int
            % page == 0,
{
    if ingest.address == first * page && len == count * page {
        aligned_addresses_are_multiples(ingest.address as int, page, first, 0);
        aligned_addresses_are_multiples(len as int, page, count, 0);
    }
}

} // verus!
