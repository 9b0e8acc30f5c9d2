use polars_metal::alignment::{is_aligned, is_page_aligned};
use polars_metal::arena::ARENA_ALIGN;
use polars_metal::bridge::{check_allocation, from_arrow, ingest_path, view_into, IngestPath};
use polars_metal::bytes::{push_le, read_i32, read_u32};
use polars_metal::dict::{build_dict, build_dict_nullable, decode_dict};
use polars_metal::null_bitmap::{pack_valid_bitmap, padded_validity_bytes};
use polars_metal::staging::{fill_front, StageStep};
use polars_metal::{
    count_valid, get_valid, load_chunk_8, set_valid, validity_bytes, BufferError, BumpArena,
    EngineError, ScratchArena, StagingPool, StubArena,
};

const PAGE: usize = 16384;

#[test]
fn display_alignment_error() {
    let err = BufferError::Alignment {
        ptr: 0xdeadbeef,
        len: 1024,
        required: 4096,
    };
    let s = err.message();
    assert!(s.contains("0xdeadbeef"));
    assert!(s.contains("1024"));
    assert!(s.contains("4096"));
}

#[test]
fn buffer_error_texts_are_exact() {
    assert_eq!(
        BufferError::Alignment {
            ptr: 0xdeadbeef,
            len: 1024,
            required: 4096
        }
        .message(),
        "alignment violation: pointer 0xdeadbeef length 1024 required alignment 4096"
    );
    assert_eq!(
        BufferError::ValidityShape {
            bitmap_len: 3,
            row_count: 40
        }
        .message(),
        "validity bitmap shape mismatch: bitmap len 3 for 40 rows"
    );
    assert_eq!(
        BufferError::AllocationFailed { bytes: 0 }.message(),
        "MTLBuffer allocation failed (requested 0 bytes)"
    );
}

#[test]
fn buffer_error_converts_into_engine_error() {
    let be = BufferError::AllocationFailed { bytes: 1024 };
    let ee: EngineError = be.into();
    let msg = ee.message();
    assert!(msg.contains("buffer"));
    assert!(msg.contains("1024"));
}

#[test]
fn engine_error_to_pyerr_carries_prefix() {
    let ee = EngineError::Other("kaboom".into());
    let msg = ee.exception_text();
    assert!(msg.contains("polars-metal:"));
    assert!(msg.contains("kaboom"));
}

#[test]
fn engine_error_texts_are_exact() {
    assert_eq!(EngineError::Ffi("x".into()).message(), "ffi: x");
    assert_eq!(
        EngineError::Other("kaboom".into()).exception_text(),
        "polars-metal: engine: kaboom"
    );
}

#[test]
fn dict_roundtrip_simple() {
    let strings = vec!["apple", "banana", "apple", "cherry", "banana"];
    let (dict, codes) = build_dict(&strings);
    assert_eq!(dict.len(), 3);
    assert!(dict.contains(&"apple".to_string()));
    let decoded = decode_dict(&dict, &codes);
    assert_eq!(
        decoded,
        vec!["apple", "banana", "apple", "cherry", "banana"]
    );
}

#[test]
fn dict_first_seen_order_is_deterministic() {
    let strings = vec!["b", "a", "b", "c", "a"];
    let (dict, codes) = build_dict(&strings);
    assert_eq!(
        dict,
        vec!["b".to_string(), "a".to_string(), "c".to_string()]
    );
    assert_eq!(codes, vec![0, 1, 0, 2, 1]);
}

#[test]
fn dict_empty_input() {
    let strings: Vec<&str> = vec![];
    let (dict, codes) = build_dict(&strings);
    assert!(dict.is_empty());
    assert!(codes.is_empty());
}

#[test]
fn dict_handles_empty_strings_and_nulls() {
    let strings: Vec<Option<&str>> = vec![Some("a"), None, Some(""), Some("a"), None];
    let (dict, codes, valid) = build_dict_nullable(&strings);
    assert_eq!(dict.len(), 2);
    assert_eq!(valid, vec![true, false, true, true, false]);
    assert_eq!(codes[0], 0);
    assert_eq!(codes[2], 1);
    assert_eq!(codes[3], 0);
}

#[test]
fn dict_nullable_all_null() {
    let strings: Vec<Option<&str>> = vec![None, None, None];
    let (dict, codes, valid) = build_dict_nullable(&strings);
    assert!(dict.is_empty());
    assert_eq!(valid, vec![false, false, false]);
    assert_eq!(codes, vec![0, 0, 0]);
}

#[test]
fn aligned_to_one_byte() {
    for ptr in [0usize, 1, 7, 4097, usize::MAX] {
        assert!(is_aligned(ptr, 1));
    }
}

#[test]
fn wrapped_products_are_aligned() {
    for shift in 0u32..16 {
        let align = 1usize << shift;
        for base in [0usize, 1, 3, 12345, usize::MAX, usize::MAX / 3] {
            assert!(is_aligned(base.wrapping_mul(align), align));
        }
    }
    assert!(!is_aligned(24, 16));
}

#[test]
fn page_alignment_needs_pointer_and_length() {
    for pages in 0usize..16 {
        assert!(is_page_aligned(PAGE * 5, pages * PAGE, PAGE));
    }
    assert!(!is_page_aligned(PAGE + 64, PAGE, PAGE));
    assert!(!is_page_aligned(PAGE, PAGE + 1, PAGE));
}

#[test]
fn validity_bytes_is_the_ceiling_of_eighths() {
    for rows in 0usize..1000 {
        assert_eq!(validity_bytes(rows), (rows + 7) / 8);
    }
    assert_eq!(validity_bytes(usize::MAX), usize::MAX / 8 + 1);
}

#[test]
fn set_bits_read_back() {
    let flags = [true, false, true, true, false, false, true, false, true, true, true];
    let mut bm = vec![0u8; validity_bytes(flags.len())];
    for (r, &v) in flags.iter().enumerate() {
        set_valid(&mut bm, r, v);
    }
    for (r, &v) in flags.iter().enumerate() {
        assert_eq!(get_valid(&bm, r), v);
    }
    assert_eq!(bm, vec![0b0100_1101, 0b0000_0111]);
    set_valid(&mut bm, 0, false);
    assert_eq!(bm, vec![0b0100_1100, 0b0000_0111]);
    assert!(!get_valid(&bm, 16));
}

#[test]
fn counting_matches_reading_row_by_row() {
    let bm: Vec<u8> = (0u8..40).map(|i| i.wrapping_mul(37) ^ 0x5a).collect();
    for rows in 0usize..400 {
        let naive = (0..rows).filter(|&r| get_valid(&bm, r)).count();
        assert_eq!(count_valid(&bm, rows), naive);
    }
}

#[test]
fn chunks_match_reading_row_by_row() {
    let bytes = [0xa5u8, 0x00, 0xff, 0x3c];
    for chunk in 0usize..6 {
        let got = load_chunk_8(&bytes, chunk * 8);
        for i in 0..8 {
            assert_eq!((got >> i) & 1 == 1, get_valid(&bytes, chunk * 8 + i));
        }
    }
}

#[test]
fn packing_pads_to_whole_words() {
    assert_eq!(padded_validity_bytes(0), 4);
    assert_eq!(padded_validity_bytes(32), 4);
    assert_eq!(padded_validity_bytes(33), 8);
    assert_eq!(pack_valid_bitmap(&[]), vec![0, 0, 0, 0]);
    assert_eq!(
        pack_valid_bitmap(&[true, false, true, false, false, false, false, false, true]),
        vec![0b101, 1, 0, 0]
    );
}

#[test]
fn little_endian_round_trip() {
    let mut out = Vec::new();
    push_le(&mut out, 0x0102_0304, 4);
    push_le(&mut out, (-2i32) as u32 as u64, 4);
    assert_eq!(out, vec![4, 3, 2, 1, 0xfe, 0xff, 0xff, 0xff]);
    assert_eq!(read_u32(&out, 0), 0x0102_0304);
    assert_eq!(read_i32(&out, 4), -2);
}

#[test]
fn zero_len_returns_error() {
    let arrow = arrow_buffer::Buffer::from_vec(vec![] as Vec<u8>);
    let result = from_arrow(&arrow, PAGE);
    assert!(
        result.is_err(),
        "zero-length buffer should fail with AllocationFailed"
    );
}

#[test]
fn short_host_buffers_are_copied() {
    let arrow = arrow_buffer::Buffer::from_vec(vec![1u8, 2, 3, 4, 5]);
    let ingest = from_arrow(&arrow, PAGE).expect("not empty");
    assert_eq!(ingest.path, IngestPath::Copy);
    assert_eq!(ingest.address, arrow.as_ptr() as usize);
}

#[test]
fn host_buffers_go_by_their_address() {
    let arrow = arrow_buffer::Buffer::from_vec(vec![0u8; 64]);
    let ingest = from_arrow(&arrow, 1).expect("not empty");
    assert_eq!(ingest.path, IngestPath::ZeroCopy);
    let ingest = from_arrow(&arrow, 64).expect("not empty");
    assert_eq!(
        ingest_path(ingest.address, 64, 64),
        Ok(ingest.path)
    );
}

#[test]
fn whole_pages_are_wrapped() {
    assert_eq!(ingest_path(PAGE * 3, PAGE, PAGE), Ok(IngestPath::ZeroCopy));
    assert_eq!(ingest_path(PAGE * 3 + 64, PAGE, PAGE), Ok(IngestPath::Copy));
    assert_eq!(
        ingest_path(0, 0, PAGE),
        Err(BufferError::AllocationFailed { bytes: 0 })
    );
}

#[test]
fn new_buffer_zeroed_rejects_zero_length() {
    match check_allocation(0) {
        Ok(_) => panic!("zero-byte allocation must error"),
        Err(BufferError::AllocationFailed { bytes: 0 }) => {}
        Err(other) => panic!("unexpected error variant: {other:?}"),
    }
}

#[test]
fn new_buffer_from_bytes_rejects_empty_input() {
    let empty: &[u8] = &[];
    match check_allocation(empty.len()) {
        Ok(_) => panic!("empty-input allocation must error"),
        Err(BufferError::AllocationFailed { bytes: 0 }) => {}
        Err(other) => panic!("unexpected error variant: {other:?}"),
    }
    assert_eq!(check_allocation(6), Ok(()));
}

#[test]
fn views_lie_inside_their_parent() {
    assert_eq!(view_into(64, 32, 32), Ok(()));
    assert_eq!(
        view_into(64, 33, 32),
        Err(BufferError::AllocationFailed { bytes: 32 })
    );
    assert_eq!(
        view_into(64, 0, 0),
        Err(BufferError::AllocationFailed { bytes: 0 })
    );
    assert_eq!(
        view_into(64, usize::MAX, 2),
        Err(BufferError::AllocationFailed { bytes: 2 })
    );
}

/// Stages `src` the way the device does: a vector stands for the buffer.
fn stage(pool: &mut StagingPool, buf: &mut Vec<u8>, src: &[u8]) -> Result<StageStep, BufferError> {
    let step = pool.stage(src.len())?;
    if let StageStep::Allocate { bytes } = step {
        *buf = vec![0xee; bytes];
        pool.allocated(bytes);
    }
    fill_front(buf, src);
    Ok(step)
}

#[test]
fn stage_copies_bytes() {
    let mut pool = StagingPool::new();
    let mut buf = Vec::new();
    let src: Vec<u8> = (0..200u32).map(|i| (i % 256) as u8).collect();
    stage(&mut pool, &mut buf, &src).expect("stage ok");
    assert_eq!(&buf[..src.len()], &src[..]);
}

#[test]
fn stage_reuses_buffer_when_fits() {
    let mut pool = StagingPool::new();
    let mut buf = Vec::new();
    let big = vec![1u8; 4096];
    stage(&mut pool, &mut buf, &big).expect("stage big");
    let ptr = buf.as_ptr() as usize;
    let small = vec![2u8; 128];
    assert_eq!(
        stage(&mut pool, &mut buf, &small).expect("stage small"),
        StageStep::Reuse
    );
    assert_eq!(buf.as_ptr() as usize, ptr, "should reuse buffer");
    assert_eq!(&buf[..small.len()], &small[..]);
    assert_eq!(buf[128], 1);
}

#[test]
fn stage_grows_when_larger() {
    let mut pool = StagingPool::new();
    let mut buf = Vec::new();
    let small = vec![9u8; 64];
    stage(&mut pool, &mut buf, &small).expect("s1");
    let big = vec![7u8; 1_000_000];
    stage(&mut pool, &mut buf, &big).expect("grow");
    assert!(buf.len() >= big.len(), "capacity grew to fit");
    assert_eq!(&buf[..big.len()], &big[..]);
    assert_eq!(pool.capacity, Some(1_000_000));
}

#[test]
fn stage_rejects_empty() {
    let mut pool = StagingPool::new();
    let mut buf = Vec::new();
    assert!(stage(&mut pool, &mut buf, &[]).is_err(), "empty input rejected");
}

#[test]
fn allocs_two_buffers_with_distinct_pointers() {
    let mut arena = BumpArena::with_capacity(1024 * 1024).expect("alloc backing");
    let a = arena.allocate(64).expect("first alloc");
    let b = arena.allocate(64).expect("second alloc");
    assert_ne!(a.offset, b.offset);
}

#[test]
fn alignment_at_least_16_bytes() {
    let mut arena = BumpArena::with_capacity(1024).expect("alloc backing");
    let a = arena.allocate(1).expect("first alloc");
    let b = arena.allocate(1).expect("second alloc");
    assert_eq!(a.offset % 16, 0);
    assert_eq!(b.offset % 16, 0);
    assert_eq!(ARENA_ALIGN, 16);
}

#[test]
fn exhaustion_returns_error_not_panic() {
    let mut arena = BumpArena::with_capacity(256).expect("alloc backing");
    let _ = arena.allocate(200).expect("fits");
    let result = arena.allocate(200);
    assert!(result.is_err(), "second 200B alloc must fail");
    assert_eq!(arena.used(), 200);
    assert_eq!(arena.capacity(), 256);
    assert!(arena.allocate(48).is_ok());
    assert_eq!(arena.used(), 256);
}

#[test]
fn alloc_returns_view_with_requested_byte_length() {
    let mut arena = BumpArena::with_capacity(1024).expect("alloc backing");
    let v = arena.allocate(100).expect("alloc");
    assert_eq!(v.len, 100);
}

#[test]
fn empty_arenas_and_regions_are_refused() {
    assert_eq!(
        BumpArena::with_capacity(0).err(),
        Some(BufferError::AllocationFailed { bytes: 0 })
    );
    let mut arena = BumpArena::with_capacity(64).expect("alloc backing");
    assert_eq!(
        arena.allocate(0),
        Err(BufferError::AllocationFailed { bytes: 0 })
    );
    assert_eq!(
        arena.allocate(65),
        Err(BufferError::AllocationFailed { bytes: 65 })
    );
}

#[test]
fn regions_of_one_arena_do_not_overlap() {
    let mut arena = BumpArena::with_capacity(4096).expect("alloc backing");
    let mut last_end = 0;
    for n in [1usize, 17, 64, 3, 100, 16] {
        let placed = arena.place(n).expect("fits");
        arena.commit(placed);
        assert!(placed.offset >= last_end);
        assert_eq!(placed.offset % 16, 0);
        last_end = placed.offset + placed.len;
    }
    assert_eq!(arena.used(), last_end);
}

#[test]
fn stub_arena_reserves_and_resets() {
    let mut a = StubArena::new(PAGE);
    let buf = a.reserve(4096).expect("reserve");
    assert_eq!(buf.buffer.len(), 4096);
    assert!(buf.buffer.as_slice().iter().all(|b| *b == 0));
    a.reset();
    let buf2 = a.reserve(2048).expect("reserve");
    assert_eq!(buf2.buffer.len(), 2048);
    assert_eq!(buf2.ingest.path, IngestPath::Copy);
    assert!(a.reserve(0).is_err());
}
