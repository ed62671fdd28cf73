//! Interpretation of what the kernel's copy, clone and extent-map calls
//! return: which errors mean "not available here, fall back", which are
//! real failures, and how a page of the extent map reads.

use vstd::prelude::*;

use crate::errors::Error;
use crate::extent::Extent;

verus! {

/// `EPERM`: operation not permitted.
pub const EPERM: i32 = 1;
/// `EXDEV`: cross-device link.
pub const EXDEV: i32 = 18;
/// `EINVAL`: invalid argument.
pub const EINVAL: i32 = 22;
/// `ETXTBSY`: text file busy.
pub const ETXTBSY: i32 = 26;
/// `ENOSYS`: function not implemented.
pub const ENOSYS: i32 = 38;
/// `EOPNOTSUPP`: operation not supported.
pub const EOPNOTSUPP: i32 = 95;

/// `copy_file_range(2)` failed with an error that means the call cannot
/// be used here, so that the copy should fall back to user space.
pub open spec fn is_fallback_errno(errno: i32) -> bool {
    errno == ENOSYS || errno == EPERM || errno == EXDEV
}

/// The outcome of `copy_file_range(2)`: `None` where the call is not
/// usable here and the caller should copy in user space, else the
/// number of bytes copied or the error.
pub fn try_copy_file_range(r: Result<usize, i32>) -> (res: Option<Result<usize, Error>>)
    ensures
        r matches Ok(n) ==> res == Some(Ok::<usize, Error>(n)),
        r matches Err(errno) ==> (is_fallback_errno(errno) <==> res is None),
        r matches Err(errno) ==> (!is_fallback_errno(errno) ==> res == Some(
            Err::<usize, Error>(Error::OSError(errno)),
        )),
{
    match r {
        Ok(n) => Some(Ok(n)),
        Err(errno) => {
            if errno == ENOSYS || errno == EPERM || errno == EXDEV {
                None
            } else {
                Some(Err(Error::OSError(errno)))
            }
        },
    }
}

/// Whether `copy_file_range(2)` is still to be tried. It starts out
/// enabled and is switched off for good the first time the call fails
/// in a way that means it is not available.
pub struct CopyRangeSupport {
    pub use_cfr: bool,
}

impl CopyRangeSupport {
    pub fn new() -> (s: CopyRangeSupport)
        ensures
            s.use_cfr,
    {
        CopyRangeSupport { use_cfr: true }
    }

    /// Whether `copy_file_range(2)` is to be called at all; once it is
    /// switched off the copy goes to user space without a system call.
    pub fn enabled(&self) -> (b: bool)
        ensures
            b == self.use_cfr,
    {
        self.use_cfr
    }

    /// Take back the return value `r` of `copy_file_range(2)` and the
    /// error number that was set if it is `-1`. Where the call is
    /// switched off, no call was made: the answer is `None` whatever `r`
    /// holds, and the call stays off.
    pub fn copy_file_range(&mut self, r: i64, errno: i32) -> (res: Option<Result<u64, Error>>)
        requires
            r >= -1,
        ensures
            !old(self).use_cfr ==> res is None && !final(self).use_cfr,
            old(self).use_cfr && r >= 0 ==> res == Some(Ok::<u64, Error>(r as u64)) && final(self).use_cfr,
            old(self).use_cfr && r == -1 && is_fallback_errno(errno) ==> res is None && !final(self).use_cfr,
            old(self).use_cfr && r == -1 && !is_fallback_errno(errno) ==> res == Some(
                Err::<u64, Error>(Error::OSError(errno)),
            ) && final(self).use_cfr,
            res is None ==> !final(self).use_cfr,
            final(self).use_cfr ==> old(self).use_cfr,
    {
        if !self.use_cfr {
            return None;
        }
        if r == -1 {
            if errno == ENOSYS || errno == EPERM || errno == EXDEV {
                self.use_cfr = false;
                None
            } else {
                Some(Err(Error::OSError(errno)))
            }
        } else {
            Some(Ok(r as u64))
        }
    }
}

/// The outcome of the clone ioctl of a reflink: `Ok(true)` when it
/// succeeded, `Ok(false)` when the filesystem cannot reflink these
/// files, else the error.
pub fn reflink(r: i32, errno: i32) -> (res: Result<bool, Error>)
    ensures
        r == 0 ==> res == Ok::<bool, Error>(true),
        r != 0 && (errno == EOPNOTSUPP || errno == EINVAL || errno == EXDEV || errno == ETXTBSY)
            ==> res == Ok::<bool, Error>(false),
        r != 0 && !(errno == EOPNOTSUPP || errno == EINVAL || errno == EXDEV || errno == ETXTBSY)
            ==> res == Err::<bool, Error>(Error::OSError(errno)),
{
    if r != 0 {
        if errno == EOPNOTSUPP || errno == EINVAL || errno == EXDEV || errno == ETXTBSY {
            Ok(false)
        } else {
            Err(Error::OSError(errno))
        }
    } else {
        Ok(true)
    }
}

/// The outcome of the extent-map ioctl: `Ok(true)` when the page was
/// filled, `Ok(false)` when the filesystem has no extent map.
pub fn fiemap(r: i32, errno: i32) -> (res: Result<bool, Error>)
    ensures
        r == 0 ==> res == Ok::<bool, Error>(true),
        r != 0 && errno == EOPNOTSUPP ==> res == Ok::<bool, Error>(false),
        r != 0 && errno != EOPNOTSUPP ==> res == Err::<bool, Error>(Error::OSError(errno)),
{
    if r != 0 {
        if errno == EOPNOTSUPP {
            Ok(false)
        } else {
            Err(Error::OSError(errno))
        }
    } else {
        Ok(true)
    }
}

/// The error number that the last failed system call of this thread set.
/// Reads the thread's `errno` through `std::io::Error::last_os_error`; a
/// value made that way always carries an OS error number, so the `0`
/// fallback is never taken. Nothing is stated of the number: it depends
/// on the state of the thread.
#[verifier::external_body]
fn last_errno() -> (e: i32) {
    std::io::Error::last_os_error().raw_os_error().unwrap_or(0)
}

/// A system call result: `-1` means failure, with the error number the
/// call left in `errno`; anything else is success and yields `retval`.
pub fn result_or_errno<T>(result: i64, retval: T) -> (res: Result<T, Error>)
    ensures
        result != -1 ==> res == Ok::<T, Error>(retval),
        result == -1 ==> res matches Err(Error::OSError(_)),
{
    match result {
        -1 => Err(Error::OSError(last_errno())),
        _ => Ok(retval),
    }
}

/// Number of extents that one extent-map request holds.
pub const FIEMAP_PAGE_SIZE: usize = 32;
/// Flag of the last extent of a file.
pub const FIEMAP_EXTENT_LAST: u32 = 0x1;
/// Flag of an extent that is shared with another file.
pub const FIEMAP_EXTENT_SHARED: u32 = 0x2000;

/// One extent as the extent-map ioctl reports it.
#[derive(Clone, Copy, Debug)]
pub struct FiemapExtent {
    /// Logical offset in bytes of the start of the extent.
    pub fe_logical: u64,
    /// Physical offset in bytes of the start of the extent.
    pub fe_physical: u64,
    /// Length of the extent in bytes.
    pub fe_length: u64,
    pub fe_reserved64: [u64; 2],
    /// `FIEMAP_EXTENT_*` flags of the extent.
    pub fe_flags: u32,
    pub fe_reserved: [u32; 3],
}

impl FiemapExtent {
    pub fn new() -> (e: FiemapExtent)
        ensures
            e.fe_logical == 0,
            e.fe_physical == 0,
            e.fe_length == 0,
            e.fe_flags == 0,
            e.fe_reserved64@ == seq![0u64, 0u64],
            e.fe_reserved@ == seq![0u32, 0u32, 0u32],
    {
        FiemapExtent {
            fe_logical: 0,
            fe_physical: 0,
            fe_length: 0,
            fe_reserved64: [0, 0],
            fe_flags: 0,
            fe_reserved: [0, 0, 0],
        }
    }
}

/// One page of an extent-map request.
#[derive(Debug)]
pub struct FiemapReq {
    /// Logical offset at which to start mapping (in).
    pub fm_start: u64,
    /// Logical length of the mapping (in).
    pub fm_length: u64,
    /// `FIEMAP_FLAG_*` flags of the request (in/out).
    pub fm_flags: u32,
    /// Number of extents mapped (out).
    pub fm_mapped_extents: u32,
    /// Number of slots in `fm_extents` (in).
    pub fm_extent_count: u32,
    pub fm_reserved: u32,
    /// The mapped extents (out).
    pub fm_extents: Vec<FiemapExtent>,
}

impl FiemapReq {
    /// A request for the whole file from offset 0, with room for one
    /// page of extents.
    pub fn new() -> (r: FiemapReq)
        ensures
            r.fm_start == 0,
            r.fm_length == u64::MAX,
            r.fm_flags == 0,
            r.fm_mapped_extents == 0,
            r.fm_extent_count == FIEMAP_PAGE_SIZE,
            r.fm_reserved == 0,
            r.fm_extents@.len() == FIEMAP_PAGE_SIZE,
            forall|i: int| 0 <= i < FIEMAP_PAGE_SIZE ==> {
                &&& #[trigger] r.fm_extents@[i].fe_logical == 0
                &&& r.fm_extents@[i].fe_physical == 0
                &&& r.fm_extents@[i].fe_length == 0
                &&& r.fm_extents@[i].fe_flags == 0
                &&& r.fm_extents@[i].fe_reserved64@ == seq![0u64, 0u64]
                &&& r.fm_extents@[i].fe_reserved@ == seq![0u32, 0u32, 0u32]
            },
    {
        let mut extents: Vec<FiemapExtent> = Vec::new();
        let mut i: usize = 0;
        while i < FIEMAP_PAGE_SIZE
            invariant
                i <= FIEMAP_PAGE_SIZE,
                extents@.len() == i,
                forall|j: int| 0 <= j < i ==> {
                    &&& #[trigger] extents@[j].fe_logical == 0
                    &&& extents@[j].fe_physical == 0
                    &&& extents@[j].fe_length == 0
                    &&& extents@[j].fe_flags == 0
                    &&& extents@[j].fe_reserved64@ == seq![0u64, 0u64]
                    &&& extents@[j].fe_reserved@ == seq![0u32, 0u32, 0u32]
                },
            decreases FIEMAP_PAGE_SIZE - i,
        {
            let ghost before = extents@;
            extents.push(FiemapExtent::new());
            proof {
                assert forall|j: int| 0 <= j < i + 1 implies {
                    &&& #[trigger] extents@[j].fe_logical == 0
                    &&& extents@[j].fe_physical == 0
                    &&& extents@[j].fe_length == 0
                    &&& extents@[j].fe_flags == 0
                    &&& extents@[j].fe_reserved64@ == seq![0u64, 0u64]
                    &&& extents@[j].fe_reserved@ == seq![0u32, 0u32, 0u32]
                } by {
                    if j < i {
                        assert(extents@[j] == before[j]);
                    }
                }
            }
            i = i + 1;
        }
        FiemapReq {
            fm_start: 0,
            fm_length: u64::MAX,
            fm_flags: 0,
            fm_mapped_extents: 0,
            fm_extent_count: FIEMAP_PAGE_SIZE as u32,
            fm_reserved: 0,
            fm_extents: extents,
        }
    }
}

/// The extent that a reported extent stands for: from its logical
/// offset to its logical offset plus its length, shared if flagged so.
pub open spec fn extent_of(e: FiemapExtent) -> Extent {
    Extent {
        start: e.fe_logical,
        end: (e.fe_logical + e.fe_length) as u64,
        shared: e.fe_flags & FIEMAP_EXTENT_SHARED != 0,
    }
}

/// The first `n` reported extents of a page, as extents.
pub open spec fn page_extents(page: Seq<FiemapExtent>, n: int) -> Seq<Extent> {
    Seq::new(n as nat, |i: int| extent_of(page[i]))
}

/// Read one filled page of the extent map: append its extents to
/// `extents` and return the offset to ask for the next page from, or
/// `None` when the page is empty or holds the last extent of the file.
pub fn map_extents_page(req: &FiemapReq, extents: &mut Vec<Extent>) -> (next: Option<u64>)
    requires
        req.fm_mapped_extents as int <= req.fm_extents@.len(),
        forall|i: int| 0 <= i < req.fm_mapped_extents ==>
            #[trigger] req.fm_extents@[i].fe_logical + req.fm_extents@[i].fe_length <= u64::MAX,
    ensures
        final(extents)@ == old(extents)@ + page_extents(req.fm_extents@, req.fm_mapped_extents as int),
        req.fm_mapped_extents == 0 ==> next is None,
        req.fm_mapped_extents > 0 ==> ({
            let last = req.fm_extents@[req.fm_mapped_extents - 1];
            &&& last.fe_flags & FIEMAP_EXTENT_LAST != 0 ==> next is None
            &&& last.fe_flags & FIEMAP_EXTENT_LAST == 0 ==> next == Some((last.fe_logical + last.fe_length) as u64)
        }),
{
    let n = req.fm_mapped_extents as usize;
    let ghost base = old(extents)@;
    let mut i: usize = 0;
    while i < n
        invariant
            n == req.fm_mapped_extents,
            n <= req.fm_extents@.len(),
            i <= n,
            forall|k: int| 0 <= k < n ==>
                #[trigger] req.fm_extents@[k].fe_logical + req.fm_extents@[k].fe_length <= u64::MAX,
            extents@ == base + page_extents(req.fm_extents@, i as int),
        decreases n - i,
    {
        let e = req.fm_extents[i];
        extents.push(Extent {
            start: e.fe_logical,
            end: e.fe_logical + e.fe_length,
            shared: e.fe_flags & FIEMAP_EXTENT_SHARED != 0,
        });
        proof {
            assert(extents@ =~= base + page_extents(req.fm_extents@, i + 1));
        }
        i = i + 1;
    }
    if n == 0 {
        return None;
    }
    let last = req.fm_extents[n - 1];
    if last.fe_flags & FIEMAP_EXTENT_LAST != 0 {
        None
    } else {
        Some(last.fe_logical + last.fe_length)
    }
}

/// The walk over the pages of a file's extent map: which offset to ask
/// the next page from, and the extents read so far, which are those of
/// the pages read, in order.
pub struct ExtentMapper {
    /// The extents of the pages read so far.
    pub extents: Vec<Extent>,
    /// The offset to ask the next page from; `None` once the map is read.
    pub next_start: Option<u64>,
    /// The extents of each page read, in order.
    pub pages: Ghost<Seq<Seq<Extent>>>,
}

impl ExtentMapper {
    /// The extents read are those of the pages read, one page after the
    /// other.
    pub open spec fn wf(&self) -> bool {
        self.extents@ == self.pages@.flatten()
    }

    /// A walk that starts at offset 0 with nothing read.
    pub fn new() -> (m: ExtentMapper)
        ensures
            m.wf(),
            m.pages@ == Seq::<Seq<Extent>>::empty(),
            m.extents@ == Seq::<Extent>::empty(),
            m.next_start == Some(0u64),
    {
        ExtentMapper { extents: Vec::new(), next_start: Some(0), pages: Ghost(Seq::empty()) }
    }

    /// The offset to ask the next page from, or `None` when the map has
    /// been read to its end.
    pub fn next_request(&self) -> (r: Option<u64>)
        ensures
            r == self.next_start,
    {
        self.next_start
    }

    /// Take in one filled page: its extents follow those read so far, and
    /// the walk goes on after its last extent unless the page is empty or
    /// holds the last extent of the file.
    pub fn on_page(&mut self, req: &FiemapReq)
        requires
            old(self).wf(),
            req.fm_mapped_extents as int <= req.fm_extents@.len(),
            forall|i: int| 0 <= i < req.fm_mapped_extents ==>
                #[trigger] req.fm_extents@[i].fe_logical + req.fm_extents@[i].fe_length <= u64::MAX,
        ensures
            final(self).wf(),
            final(self).pages@ == old(self).pages@.push(
                page_extents(req.fm_extents@, req.fm_mapped_extents as int),
            ),
            final(self).extents@ == old(self).extents@ + page_extents(
                req.fm_extents@,
                req.fm_mapped_extents as int,
            ),
            req.fm_mapped_extents == 0 ==> final(self).next_start is None,
            req.fm_mapped_extents > 0 ==> ({
                let last = req.fm_extents@[req.fm_mapped_extents - 1];
                &&& last.fe_flags & FIEMAP_EXTENT_LAST != 0 ==> final(self).next_start is None
                &&& last.fe_flags & FIEMAP_EXTENT_LAST == 0 ==> final(self).next_start == Some(
                    (last.fe_logical + last.fe_length) as u64,
                )
            }),
    {
        let next = map_extents_page(req, &mut self.extents);
        self.next_start = next;
        let ghost page = page_extents(req.fm_extents@, req.fm_mapped_extents as int);
        proof {
            old(self).pages@.lemma_flatten_push(page);
        }
        self.pages = Ghost(self.pages@.push(page));
    }

    /// The extents of the whole map, in the order the pages gave them.
    pub fn finish(self) -> (v: Vec<Extent>)
        requires
            self.wf(),
        ensures
            v@ == self.pages@.flatten(),
    {
        self.extents
    }
}

} // verus!
