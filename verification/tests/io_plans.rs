use xcp::copy_loop::{copy_file, BatchCopy, CopyPlan, RangeCopy, ReadEvent, StreamCopy, StreamStep};
use xcp::config::{reflink_outcome, should_try_reflink, Reflink};
use xcp::errors::XcpError;
use xcp::errors::Error;
use xcp::kernel::{
    fiemap, map_extents_page, reflink, result_or_errno, try_copy_file_range, CopyRangeSupport, ExtentMapper, FiemapExtent,
    FiemapReq, EINVAL, ENOSYS, EOPNOTSUPP, EPERM, ETXTBSY, EXDEV, FIEMAP_EXTENT_LAST, FIEMAP_EXTENT_SHARED,
    FIEMAP_PAGE_SIZE,
};
use xcp::extent::Extent;
use xcp::sparse::{
    lseek_result, next_sparse_segments, probably_sparse, SeekOff, SparseCopy, SparseStep, ENXIO, ST_NBLOCKSIZE,
};

#[test]
fn sparse_guess() {
    assert!(probably_sparse(0, 1024 * 1024, ST_NBLOCKSIZE));
    assert!(!probably_sparse(2048, 1024 * 1024, ST_NBLOCKSIZE));
    assert!(!probably_sparse(0, 100, ST_NBLOCKSIZE));
    assert!(probably_sparse(1, 3 * 4096, 4096));
}

#[test]
fn seek_outcomes() {
    assert_eq!(lseek_result(Ok(512)), Ok(SeekOff::Offset(512)));
    assert_eq!(lseek_result(Err(ENXIO)), Ok(SeekOff::EOF));
    assert_eq!(lseek_result(Err(22)), Err(Error::OSError(22)));
    assert_eq!(next_sparse_segments(SeekOff::Offset(512), SeekOff::EOF, 4096), (512, 4096));
    assert_eq!(next_sparse_segments(SeekOff::EOF, SeekOff::EOF, 4096), (4096, 4096));
}

#[test]
fn sparse_walk() {
    let mut w = SparseCopy::new(1000);
    assert_eq!(w.next_step(), SparseStep::Lookup(0));
    w.on_segment(100, 200);
    assert_eq!(w.next_step(), SparseStep::Copy(100));
    assert_eq!(w.on_copied(100), Ok(()));
    assert_eq!(w.next_step(), SparseStep::Lookup(200));
    w.on_segment(500, 1000);
    assert_eq!(w.next_step(), SparseStep::Copy(500));
    assert_eq!(w.on_copied(500), Ok(()));
    assert_eq!(w.next_step(), SparseStep::Done);
    assert_eq!(w.copied, 600);
}

#[test]
fn sparse_walk_copies_the_rest_of_a_short_copy() {
    let mut w = SparseCopy::new(1000);
    w.on_segment(0, 300);
    assert_eq!(w.next_step(), SparseStep::Copy(300));
    assert_eq!(w.on_copied(120), Ok(()));
    assert_eq!(w.next_step(), SparseStep::Copy(180));
    assert_eq!(w.on_copied(0), Err(Error::InvalidSource("Source file ended prematurely.")));
    assert_eq!(w.next_step(), SparseStep::Copy(180));
    assert_eq!(w.on_copied(180), Ok(()));
    assert_eq!(w.next_step(), SparseStep::Lookup(300));
    w.on_segment(1000, 1000);
    assert_eq!(w.next_step(), SparseStep::Done);
    assert_eq!((w.pos, w.copied), (1000, 300));
}

#[test]
fn range_copy_reads_the_rest_at_each_offset() {
    let mut c = RangeCopy::new(10, 100);
    assert_eq!(c.next_read(), Some((100, 10)));
    assert!(c.on_transfer(4, Some(4)).is_ok());
    assert_eq!(c.next_read(), Some((104, 6)));
    assert!(c.on_transfer(6, Some(6)).is_ok());
    assert_eq!(c.next_read(), None);
    assert_eq!(c.written, 10);
}

#[test]
fn range_copy_errors() {
    let mut c = RangeCopy::new(10, 0);
    assert_eq!(c.on_transfer(0, None), Err(Error::InvalidSource("Source file ended prematurely.")));
    assert_eq!(c.on_transfer(5, Some(3)), Err(Error::InvalidSource("Failed write to file.")));
    assert_eq!(c.written, 0);
}

#[test]
fn stream_copy_retries_interrupted_reads() {
    let mut c = StreamCopy::new(8);
    assert_eq!(c.next_read(), Some(8));
    assert_eq!(c.on_read(ReadEvent::Interrupted), Ok(StreamStep::Retry));
    assert_eq!(c.on_read(ReadEvent::Data(5)), Ok(StreamStep::Write(5)));
    assert_eq!(c.next_read(), Some(3));
    assert_eq!(c.on_read(ReadEvent::Data(0)), Err(Error::InvalidSource("Source file ended prematurely.")));
    assert_eq!(c.on_read(ReadEvent::Failed(Error::OSError(5))), Err(Error::OSError(5)));
    assert_eq!(c.on_read(ReadEvent::Data(3)), Ok(StreamStep::Write(3)));
    assert_eq!(c.next_read(), None);
}

#[test]
fn batched_copy() {
    let mut b = BatchCopy::new(10, 4);
    assert_eq!(b.next_batch(), Some(4));
    assert_eq!(b.on_copied(4), Ok(()));
    assert_eq!(b.on_copied(4), Ok(()));
    assert_eq!(b.next_batch(), Some(2));
    assert_eq!(b.on_copied(2), Ok(()));
    assert_eq!(b.next_batch(), None);
    assert_eq!(b.written, 10);
    match copy_file(10, true, 4) {
        CopyPlan::Sparse(s) => assert_eq!((s.len, s.pos), (10, 0)),
        CopyPlan::Bytes(_) => panic!("expected a sparse copy"),
    }
    match copy_file(10, false, 4) {
        CopyPlan::Bytes(b) => assert_eq!((b.len, b.batch_size, b.written), (10, 4, 0)),
        CopyPlan::Sparse(_) => panic!("expected a batched copy"),
    }
}

#[test]
fn batched_copy_ends_when_the_source_ends_early() {
    let mut b = BatchCopy::new(10, 4);
    assert_eq!(b.on_copied(3), Ok(()));
    assert_eq!(b.next_batch(), Some(4));
    assert_eq!(b.on_copied(0), Err(Error::InvalidSource("Source file ended prematurely.")));
    assert_eq!(b.written, 3);
}

#[test]
fn copy_range_fallbacks() {
    assert_eq!(try_copy_file_range(Ok(7)), Some(Ok(7)));
    assert_eq!(try_copy_file_range(Err(ENOSYS)), None);
    assert_eq!(try_copy_file_range(Err(EPERM)), None);
    assert_eq!(try_copy_file_range(Err(EXDEV)), None);
    assert_eq!(try_copy_file_range(Err(EINVAL)), Some(Err(Error::OSError(EINVAL))));
    let mut s = CopyRangeSupport::new();
    assert!(s.enabled());
    assert_eq!(s.copy_file_range(12, 0), Some(Ok(12)));
    assert_eq!(s.copy_file_range(-1, 5), Some(Err(Error::OSError(5))));
    assert!(s.use_cfr);
    assert_eq!(s.copy_file_range(-1, EXDEV), None);
    assert!(!s.use_cfr);
    assert!(!s.enabled());
    assert_eq!(s.copy_file_range(5, 0), None);
    assert!(!s.enabled());
}

#[test]
fn reflink_modes() {
    assert!(!should_try_reflink(Reflink::Never));
    assert!(should_try_reflink(Reflink::Auto));
    assert!(should_try_reflink(Reflink::Always));
    assert_eq!(reflink_outcome(Reflink::Never, false), Ok(false));
    assert_eq!(reflink_outcome(Reflink::Auto, true), Ok(true));
    assert_eq!(reflink_outcome(Reflink::Auto, false), Ok(false));
    assert_eq!(reflink_outcome(Reflink::Always, true), Ok(true));
    assert_eq!(
        reflink_outcome(Reflink::Always, false),
        Err(XcpError::CopyError("Reflink is not supported for these files".to_string()))
    );
}

#[test]
fn clone_and_map_outcomes() {
    assert_eq!(reflink(0, 0), Ok(true));
    for e in [EOPNOTSUPP, EINVAL, EXDEV, ETXTBSY] {
        assert_eq!(reflink(-1, e), Ok(false));
    }
    assert_eq!(reflink(-1, 13), Err(Error::OSError(13)));
    assert_eq!(fiemap(0, 0), Ok(true));
    assert_eq!(fiemap(-1, EOPNOTSUPP), Ok(false));
    assert_eq!(fiemap(-1, 5), Err(Error::OSError(5)));
    assert_eq!(result_or_errno(3, "ok"), Ok("ok"));
    assert!(matches!(result_or_errno(-1, ()), Err(Error::OSError(_))));
}

#[test]
fn extent_map_pages() {
    let mut req = FiemapReq::new();
    assert_eq!(req.fm_length, u64::MAX);
    assert_eq!(req.fm_extent_count as usize, FIEMAP_PAGE_SIZE);
    assert_eq!(req.fm_extents.len(), FIEMAP_PAGE_SIZE);
    let mut out = Vec::new();
    assert_eq!(map_extents_page(&req, &mut out), None);
    assert!(out.is_empty());

    let mut e0 = FiemapExtent::new();
    e0.fe_logical = 0;
    e0.fe_length = 4096;
    let mut e1 = FiemapExtent::new();
    e1.fe_logical = 8192;
    e1.fe_length = 4096;
    e1.fe_flags = FIEMAP_EXTENT_SHARED;
    req.fm_extents[0] = e0;
    req.fm_extents[1] = e1;
    req.fm_mapped_extents = 2;
    assert_eq!(map_extents_page(&req, &mut out), Some(12288));
    assert_eq!(out, vec![
        Extent { start: 0, end: 4096, shared: false },
        Extent { start: 8192, end: 12288, shared: true },
    ]);
    req.fm_extents[1].fe_flags |= FIEMAP_EXTENT_LAST;
    let mut out2 = Vec::new();
    assert_eq!(map_extents_page(&req, &mut out2), None);
    assert_eq!(out2.len(), 2);
}

#[test]
fn extent_map_walks_every_page() {
    let mut m = ExtentMapper::new();
    assert_eq!(m.next_request(), Some(0));
    let mut req = FiemapReq::new();
    req.fm_extents[0].fe_logical = 0;
    req.fm_extents[0].fe_length = 4096;
    req.fm_extents[1].fe_logical = 8192;
    req.fm_extents[1].fe_length = 100;
    req.fm_mapped_extents = 2;
    m.on_page(&req);
    assert_eq!(m.next_request(), Some(8292));
    let mut req2 = FiemapReq::new();
    req2.fm_extents[0].fe_logical = 65536;
    req2.fm_extents[0].fe_length = 4096;
    req2.fm_extents[0].fe_flags = FIEMAP_EXTENT_LAST | FIEMAP_EXTENT_SHARED;
    req2.fm_mapped_extents = 1;
    m.on_page(&req2);
    assert_eq!(m.next_request(), None);
    assert_eq!(m.finish(), vec![
        Extent { start: 0, end: 4096, shared: false },
        Extent { start: 8192, end: 8292, shared: false },
        Extent { start: 65536, end: 69632, shared: true },
    ]);

    let mut empty = ExtentMapper::new();
    empty.on_page(&FiemapReq::new());
    assert_eq!(empty.next_request(), None);
    assert!(empty.finish().is_empty());
}

#[test]
fn extent_map_request_is_zeroed() {
    let req = FiemapReq::new();
    assert_eq!((req.fm_start, req.fm_flags, req.fm_mapped_extents, req.fm_reserved), (0, 0, 0, 0));
    for e in &req.fm_extents {
        assert_eq!((e.fe_logical, e.fe_physical, e.fe_length, e.fe_flags), (0, 0, 0, 0));
        assert_eq!(e.fe_reserved64, [0; 2]);
        assert_eq!(e.fe_reserved, [0; 3]);
    }
}
