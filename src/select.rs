//! Multi-descriptor readiness selection: descriptor sets, the candidate list,
//! counting ready candidates, and the result sets.
use vstd::prelude::*;

use crate::{SysError, POLLERR, POLLIN, POLLOUT};

verus! {

/// Capacity of a descriptor set.
pub const FD_SETSIZE: usize = 1024;

/// A set of descriptor numbers below `FD_SETSIZE`, kept in the `bitmaps`
/// crate's fixed-size bitmap.
#[verifier::external_body]
pub struct FdSet {
    bits: bitmaps::Bitmap<1024>,
}

/// The descriptor numbers whose bits are set.
pub uninterp spec fn fd_set_bits(b: FdSet) -> Set<int>;

/// Relies on `Bitmap::new`: every bit is clear.
#[verifier::external_body]
fn bitmap_new() -> (r: FdSet)
    ensures
        fd_set_bits(r) == Set::<int>::empty(),
{
    FdSet { bits: bitmaps::Bitmap::new() }
}

/// Relies on `Bitmap::get`: the bit at `index`.
#[verifier::external_body]
fn bitmap_get(b: &FdSet, index: usize) -> (r: bool)
    requires
        index < FD_SETSIZE,
    ensures
        r == fd_set_bits(*b).contains(index as int),
{
    b.bits.get(index)
}

/// Relies on `Bitmap::set`: the bit at `index` becomes `value`, the others stay.
#[verifier::external_body]
fn bitmap_set(b: &mut FdSet, index: usize, value: bool)
    requires
        index < FD_SETSIZE,
    ensures
        fd_set_bits(*final(b)) == if value {
            fd_set_bits(*old(b)).insert(index as int)
        } else {
            fd_set_bits(*old(b)).remove(index as int)
        },
{
    b.bits.set(index, value);
}

/// Relies on `Bitmap`'s `|`: the union of the two bitmaps.
#[verifier::external_body]
fn bitmap_or(a: &FdSet, b: &FdSet) -> (r: FdSet)
    ensures
        fd_set_bits(r) == fd_set_bits(*a).union(fd_set_bits(*b)),
{
    FdSet { bits: a.bits | b.bits }
}

/// Number of 64-bit words in a descriptor set as user memory holds it.
pub const FD_SET_WORDS: usize = 16;

/// Whether bit `k` of word `w` is set.
pub open spec fn word_bit(w: u64, k: u64) -> bool {
    (w >> k) & 1u64 == 1u64
}

proof fn lemma_word_bit_or(w: u64, k: u64, j: u64)
    requires
        k < 64,
        j < 64,
    ensures
        word_bit(w | (1u64 << k), j) == (j == k || word_bit(w, j)),
{
    assert(((w | (1u64 << k)) >> j) & 1u64 == 1u64 <==> (j == k || (w >> j) & 1u64 == 1u64))
        by (bit_vector)
        requires
            k < 64,
            j < 64,
    ;
}

proof fn lemma_word_bit_zero(j: u64)
    requires
        j < 64,
    ensures
        !word_bit(0u64, j),
{
    assert((0u64 >> j) & 1u64 != 1u64) by (bit_vector);
}

/// A descriptor set in the layout of user memory: `FD_SETSIZE` bits in
/// `FD_SET_WORDS` words, descriptor `fd` at bit `fd % 64` of word `fd / 64`.
pub struct KernelFdSet {
    pub fds_bits: Vec<u64>,
}

impl KernelFdSet {
    /// The set has its full size.
    pub open spec fn wf(&self) -> bool {
        self.fds_bits@.len() == FD_SET_WORDS
    }

    /// Whether descriptor `fd` is in the set.
    pub open spec fn has(&self, fd: int) -> bool {
        &&& 0 <= fd < FD_SETSIZE
        &&& word_bit(self.fds_bits@[fd / 64], (fd % 64) as u64)
    }

    /// The empty set.
    pub fn zeroed() -> (r: KernelFdSet)
        ensures
            r.wf(),
            forall|fd: int| !#[trigger] r.has(fd),
    {
        let mut fds_bits: Vec<u64> = Vec::new();
        let mut i: usize = 0;
        while i < FD_SET_WORDS
            invariant
                i <= FD_SET_WORDS,
                fds_bits@.len() == i,
                forall|k: int| 0 <= k < i ==> fds_bits@[k] == 0u64,
            decreases FD_SET_WORDS - i,
        {
            fds_bits.push(0u64);
            i = i + 1;
        }
        let r = KernelFdSet { fds_bits };
        assert forall|fd: int| !#[trigger] r.has(fd) by {
            if 0 <= fd < FD_SETSIZE {
                lemma_word_bit_zero((fd % 64) as u64);
            }
        }
        r
    }

    /// Whether descriptor `fd` is in the set.
    pub fn is_set(&self, fd: usize) -> (r: bool)
        requires
            self.wf(),
            fd < FD_SETSIZE,
        ensures
            r == self.has(fd as int),
    {
        (self.fds_bits[fd / 64] >> ((fd % 64) as u64)) & 1u64 == 1u64
    }

    /// Adds descriptor `fd` to the set.
    pub fn set(&mut self, fd: usize)
        requires
            old(self).wf(),
            fd < FD_SETSIZE,
        ensures
            final(self).wf(),
            forall|f: int| #[trigger] final(self).has(f) == (f == fd || old(self).has(f)),
    {
        let w = fd / 64;
        let k = (fd % 64) as u64;
        let word = self.fds_bits[w] | (1u64 << k);
        self.fds_bits.set(w, word);
        assert forall|f: int| #[trigger] self.has(f) == (f == fd || old(self).has(f)) by {
            if 0 <= f < FD_SETSIZE {
                if f / 64 == w as int {
                    lemma_word_bit_or(old(self).fds_bits@[w as int], k, (f % 64) as u64);
                }
            }
        }
    }
}

impl FdSet {
    /// The descriptor numbers in the set.
    pub open spec fn bits(&self) -> Set<int> {
        fd_set_bits(*self)
    }

    /// The descriptors below `nfds` of a user set; empty where none is given.
    pub fn new(nfds: usize, fds: Option<&KernelFdSet>) -> (r: FdSet)
        requires
            nfds <= FD_SETSIZE,
            fds matches Some(f) ==> f.wf(),
        ensures
            forall|fd: int| #[trigger]
                r.bits().contains(fd) == (0 <= fd < nfds && (fds matches Some(f) && f.has(fd))),
    {
        let mut bitmap = bitmap_new();
        match fds {
            Some(f) => {
                let mut i: usize = 0;
                while i < nfds
                    invariant
                        i <= nfds <= FD_SETSIZE,
                        f.wf(),
                        forall|fd: int| #[trigger]
                            fd_set_bits(bitmap).contains(fd) == (0 <= fd < i && f.has(fd)),
                    decreases nfds - i,
                {
                    if f.is_set(i) {
                        bitmap_set(&mut bitmap, i, true);
                    }
                    i = i + 1;
                }
            },
            None => {},
        }
        bitmap
    }

    /// Whether descriptor `fd` is in the set.
    pub fn contains(&self, fd: usize) -> (r: bool)
        requires
            fd < FD_SETSIZE,
        ensures
            r == self.bits().contains(fd as int),
    {
        bitmap_get(self, fd)
    }
}

/// A descriptor to wait on and the events it is watched for.
#[derive(Debug, Clone, Copy, PartialEq, Eq, Structural)]
pub struct Candidate {
    pub fd: usize,
    pub interest: u32,
}

/// The events that the three interest sets ask of descriptor `fd`.
pub open spec fn interest_of(r: Set<int>, w: Set<int>, e: Set<int>, fd: int) -> u32 {
    (if r.contains(fd) {
        POLLIN
    } else {
        0u32
    }) | (if w.contains(fd) {
        POLLOUT
    } else {
        0u32
    }) | (if e.contains(fd) {
        POLLERR
    } else {
        0u32
    })
}

/// Whether any of the three interest sets holds descriptor `fd`.
pub open spec fn wanted(r: Set<int>, w: Set<int>, e: Set<int>, fd: int) -> bool {
    r.contains(fd) || w.contains(fd) || e.contains(fd)
}

/// The candidates among descriptors `0..n`, in ascending order.
pub open spec fn candidates_upto(r: Set<int>, w: Set<int>, e: Set<int>, n: int) -> Seq<Candidate>
    decreases n,
{
    if n <= 0 {
        Seq::empty()
    } else {
        let prev = candidates_upto(r, w, e, n - 1);
        if wanted(r, w, e, n - 1) {
            prev.push(Candidate { fd: (n - 1) as usize, interest: interest_of(r, w, e, n - 1) })
        } else {
            prev
        }
    }
}

/// Whether descriptor `fd` resolves in a table where `open[fd]` says so.
pub open spec fn is_open(open: Seq<bool>, fd: int) -> bool {
    0 <= fd < open.len() && open[fd]
}

/// Whether some descriptor below `n` in an interest set does not resolve.
pub open spec fn has_missing(r: Set<int>, w: Set<int>, e: Set<int>, open: Seq<bool>, n: int) -> bool {
    exists|fd: int| 0 <= fd < n && #[trigger] wanted(r, w, e, fd) && !is_open(open, fd)
}

/// The candidate list of a wait: each descriptor below `nfds` that one of the
/// interest sets holds, with the events asked of it, in ascending order. It
/// fails if one of those descriptors is not open in the table that `open`
/// describes (`open[fd]` for each descriptor the table holds).
pub fn build_candidates(
    nfds: usize,
    read: &FdSet,
    write: &FdSet,
    except: &FdSet,
    open: &Vec<bool>,
) -> (r: Result<Vec<Candidate>, SysError>)
    requires
        nfds <= FD_SETSIZE,
    ensures
        has_missing(read.bits(), write.bits(), except.bits(), open@, nfds as int) ==> r
            == Err::<Vec<Candidate>, SysError>(SysError::BadFileDescriptor),
        !has_missing(read.bits(), write.bits(), except.bits(), open@, nfds as int) ==> r is Ok
            && r->Ok_0@ == candidates_upto(
            read.bits(),
            write.bits(),
            except.bits(),
            nfds as int,
        ),
{
    let any = bitmap_or(&bitmap_or(read, write), except);
    let mut out: Vec<Candidate> = Vec::new();
    let mut i: usize = 0;
    while i < nfds
        invariant
            i <= nfds <= FD_SETSIZE,
            forall|fd: int| #[trigger]
                fd_set_bits(any).contains(fd) == wanted(read.bits(), write.bits(), except.bits(), fd),
            out@ == candidates_upto(read.bits(), write.bits(), except.bits(), i as int),
            !has_missing(read.bits(), write.bits(), except.bits(), open@, i as int),
        decreases nfds - i,
    {
        if any.contains(i) {
            if !(i < open.len() && open[i]) {
                assert(wanted(read.bits(), write.bits(), except.bits(), i as int));
                return Err(SysError::BadFileDescriptor);
            }
            let events = (if read.contains(i) {
                POLLIN
            } else {
                0u32
            }) | (if write.contains(i) {
                POLLOUT
            } else {
                0u32
            }) | (if except.contains(i) {
                POLLERR
            } else {
                0u32
            });
            out.push(Candidate { fd: i, interest: events });
        }
        i = i + 1;
    }
    Ok(out)
}

/// Whether candidate `c` with current events `ev` is ready.
pub open spec fn is_ready(c: Candidate, ev: u32) -> bool {
    ev & c.interest != 0
}

/// How many of the first `n` candidates are ready, given their current events.
pub open spec fn ready_count(c: Seq<Candidate>, ev: Seq<u32>, n: int) -> nat
    decreases n,
{
    if n <= 0 {
        0
    } else {
        ready_count(c, ev, n - 1) + if is_ready(c[n - 1], ev[n - 1]) {
            1nat
        } else {
            0nat
        }
    }
}

proof fn lemma_ready_count_bound(c: Seq<Candidate>, ev: Seq<u32>, n: int)
    requires
        n >= 0,
    ensures
        ready_count(c, ev, n) <= n,
    decreases n,
{
    if n > 0 {
        lemma_ready_count_bound(c, ev, n - 1);
    }
}

/// How many candidates are ready, given the events each reports now
/// (`revents[i]` for candidate `i`).
pub fn count_ready(cands: &Vec<Candidate>, revents: &Vec<u32>) -> (r: usize)
    requires
        cands@.len() == revents@.len(),
    ensures
        r == ready_count(cands@, revents@, cands@.len() as int),
{
    let mut res: usize = 0;
    let mut i: usize = 0;
    while i < cands.len()
        invariant
            i <= cands@.len() == revents@.len(),
            res == ready_count(cands@, revents@, i as int),
        decreases cands@.len() - i,
    {
        proof {
            lemma_ready_count_bound(cands@, revents@, i as int);
        }
        if revents[i] & cands[i].interest != 0 {
            res = res + 1;
        }
        i = i + 1;
    }
    res
}

/// The descriptors among the first `n` candidates whose current events meet
/// their interest in the event `bit`.
pub open spec fn reported(c: Seq<Candidate>, ev: Seq<u32>, n: int, bit: u32) -> Set<int>
    decreases n,
{
    if n <= 0 {
        Set::empty()
    } else {
        let prev = reported(c, ev, n - 1, bit);
        if ev[n - 1] & c[n - 1].interest & bit != 0 {
            prev.insert(c[n - 1].fd as int)
        } else {
            prev
        }
    }
}

/// The result of a wait: the number of ready descriptors and the three sets
/// to hand back.
pub struct SelectOutcome {
    pub count: usize,
    pub read: KernelFdSet,
    pub write: KernelFdSet,
    pub except: KernelFdSet,
}

/// Builds the result of a wait that resolved with `ready` ready candidates
/// (zero on timeout), re-polled as `revents`. On timeout the count is zero and
/// the three sets are empty. Otherwise each candidate with a met interest is
/// counted once and its descriptor is set in the set of each event met.
pub fn select_outcome(cands: &Vec<Candidate>, revents: &Vec<u32>, ready: usize) -> (r:
    SelectOutcome)
    requires
        cands@.len() == revents@.len(),
        forall|i: int| 0 <= i < cands@.len() ==> #[trigger] cands@[i].fd < FD_SETSIZE,
    ensures
        r.read.wf(),
        r.write.wf(),
        r.except.wf(),
        ready == 0 ==> r.count == 0 && forall|fd: int|
            !#[trigger] r.read.has(fd) && !r.write.has(fd) && !r.except.has(fd),
        ready != 0 ==> {
            &&& r.count == ready_count(cands@, revents@, cands@.len() as int)
            &&& forall|fd: int| #[trigger]
                r.read.has(fd) == reported(cands@, revents@, cands@.len() as int, POLLIN).contains(
                    fd,
                )
            &&& forall|fd: int| #[trigger]
                r.write.has(fd) == reported(cands@, revents@, cands@.len() as int, POLLOUT).contains(
                    fd,
                )
            &&& forall|fd: int| #[trigger]
                r.except.has(fd) == reported(cands@, revents@, cands@.len() as int, POLLERR).contains(
                    fd,
                )
        },
{
    let mut out_read = KernelFdSet::zeroed();
    let mut out_write = KernelFdSet::zeroed();
    let mut out_except = KernelFdSet::zeroed();
    if ready == 0 {
        return SelectOutcome { count: 0, read: out_read, write: out_write, except: out_except };
    }
    let mut res: usize = 0;
    let mut i: usize = 0;
    while i < cands.len()
        invariant
            i <= cands@.len() == revents@.len(),
            forall|j: int| 0 <= j < cands@.len() ==> #[trigger] cands@[j].fd < FD_SETSIZE,
            res == ready_count(cands@, revents@, i as int),
            out_read.wf(),
            out_write.wf(),
            out_except.wf(),
            forall|fd: int| #[trigger]
                out_read.has(fd) == reported(cands@, revents@, i as int, POLLIN).contains(fd),
            forall|fd: int| #[trigger]
                out_write.has(fd) == reported(cands@, revents@, i as int, POLLOUT).contains(fd),
            forall|fd: int| #[trigger]
                out_except.has(fd) == reported(cands@, revents@, i as int, POLLERR).contains(fd),
        decreases cands@.len() - i,
    {
        proof {
            lemma_ready_count_bound(cands@, revents@, i as int);
        }
        let fd = cands[i].fd;
        let events = revents[i] & cands[i].interest;
        if events != 0 {
            res = res + 1;
            if events & POLLIN != 0 {
                out_read.set(fd);
            }
            if events & POLLOUT != 0 {
                out_write.set(fd);
            }
            if events & POLLERR != 0 {
                out_except.set(fd);
            }
        } else {
            assert(events & POLLIN == 0 && events & POLLOUT == 0 && events & POLLERR == 0)
                by (bit_vector)
                requires
                    events == 0u32,
            ;
        }
        i = i + 1;
    }
    SelectOutcome { count: res, read: out_read, write: out_write, except: out_except }
}

/// Size in bytes of a signal set.
pub const SIGSET_SIZE: usize = 8;

/// Microseconds in one second.
pub const USEC_PER_SEC: i64 = 1_000_000;

/// Checks the arguments of a wait before anything is read: the descriptor
/// bound must not exceed `FD_SETSIZE`, and a signal-mask override, where one is
/// given with its declared size, must declare the size of a signal set.
pub fn check_select_args(nfds: u32, sigsetsize: Option<usize>) -> (r: Result<(), SysError>)
    ensures
        r is Ok <==> (nfds <= FD_SETSIZE && (sigsetsize matches Some(n) ==> n == SIGSET_SIZE)),
        r is Err ==> r == Err::<(), SysError>(SysError::InvalidInput),
{
    if nfds as usize > FD_SETSIZE {
        return Err(SysError::InvalidInput);
    }
    match sigsetsize {
        Some(n) => if n != SIGSET_SIZE {
            return Err(SysError::InvalidInput);
        },
        None => {},
    }
    Ok(())
}

/// A timeout in seconds and microseconds.
#[derive(Debug, Clone, Copy, PartialEq, Eq, Structural)]
pub struct TimeVal {
    pub tv_sec: i64,
    pub tv_usec: i64,
}

/// A timeout with no negative part and fewer microseconds than a second.
pub open spec fn tv_valid(tv: TimeVal) -> bool {
    tv.tv_sec >= 0 && 0 <= tv.tv_usec < USEC_PER_SEC
}

/// The duration of a valid timeout in nanoseconds.
pub fn timeval_to_nanos(tv: &TimeVal) -> (r: Result<u128, SysError>)
    ensures
        tv_valid(*tv) ==> r == Ok::<u128, SysError>(
            (tv.tv_sec * 1_000_000_000 + tv.tv_usec * 1000) as u128,
        ),
        !tv_valid(*tv) ==> r == Err::<u128, SysError>(SysError::InvalidInput),
{
    if tv.tv_sec < 0 || tv.tv_usec < 0 || tv.tv_usec >= USEC_PER_SEC {
        return Err(SysError::InvalidInput);
    }
    assert(tv.tv_sec * 1_000_000_000 <= i64::MAX * 1_000_000_000) by (nonlinear_arith)
        requires
            0 <= tv.tv_sec <= i64::MAX,
    ;
    Ok(tv.tv_sec as u128 * 1_000_000_000u128 + tv.tv_usec as u128 * 1000u128)
}

/// The descriptors below `nfds` of a user set; none where no set is given.
pub open spec fn interest_bits(fds: Option<&KernelFdSet>, nfds: int) -> Set<int> {
    Set::new(|fd: int| 0 <= fd < nfds && (fds matches Some(f) && f.has(fd)))
}

/// The candidate list of a wait on descriptors below `nfds` with the given
/// user interest sets (each optional) against a table where `open[fd]` tells
/// whether descriptor `fd` is open. A bound over `FD_SETSIZE` is refused, a
/// descriptor of an interest set that is not open fails the whole call, and
/// otherwise the candidates are those of `candidates_upto`.
pub fn prepare_select(
    nfds: u32,
    readfds: Option<&KernelFdSet>,
    writefds: Option<&KernelFdSet>,
    exceptfds: Option<&KernelFdSet>,
    open: &Vec<bool>,
) -> (r: Result<Vec<Candidate>, SysError>)
    requires
        readfds matches Some(f) ==> f.wf(),
        writefds matches Some(f) ==> f.wf(),
        exceptfds matches Some(f) ==> f.wf(),
    ensures
        nfds > FD_SETSIZE ==> r == Err::<Vec<Candidate>, SysError>(SysError::InvalidInput),
        nfds <= FD_SETSIZE && has_missing(
            interest_bits(readfds, nfds as int),
            interest_bits(writefds, nfds as int),
            interest_bits(exceptfds, nfds as int),
            open@,
            nfds as int,
        ) ==> r == Err::<Vec<Candidate>, SysError>(SysError::BadFileDescriptor),
        nfds <= FD_SETSIZE && !has_missing(
            interest_bits(readfds, nfds as int),
            interest_bits(writefds, nfds as int),
            interest_bits(exceptfds, nfds as int),
            open@,
            nfds as int,
        ) ==> r is Ok && r->Ok_0@ == candidates_upto(
            interest_bits(readfds, nfds as int),
            interest_bits(writefds, nfds as int),
            interest_bits(exceptfds, nfds as int),
            nfds as int,
        ),
{
    if nfds as usize > FD_SETSIZE {
        return Err(SysError::InvalidInput);
    }
    let n = nfds as usize;
    let read_set = FdSet::new(n, readfds);
    let write_set = FdSet::new(n, writefds);
    let except_set = FdSet::new(n, exceptfds);
    assert(read_set.bits() =~= interest_bits(readfds, nfds as int));
    assert(write_set.bits() =~= interest_bits(writefds, nfds as int));
    assert(except_set.bits() =~= interest_bits(exceptfds, nfds as int));
    build_candidates(n, &read_set, &write_set, &except_set, open)
}

proof fn lemma_candidates_below(r: Set<int>, w: Set<int>, e: Set<int>, n: int)
    requires
        n <= FD_SETSIZE,
    ensures
        forall|i: int|
            0 <= i < candidates_upto(r, w, e, n).len() ==> 0 <= #[trigger] candidates_upto(
                r,
                w,
                e,
                n,
            )[i].fd < n,
    decreases n,
{
    if n > 0 {
        lemma_candidates_below(r, w, e, n - 1);
        let prev = candidates_upto(r, w, e, n - 1);
        if wanted(r, w, e, n - 1) {
            let c = candidates_upto(r, w, e, n);
            assert forall|i: int| 0 <= i < c.len() implies 0 <= #[trigger] c[i].fd < n by {
                if i < prev.len() {
                    assert(c[i] == prev[i]);
                }
            }
        }
    }
}

proof fn lemma_reported_is_candidate(c: Seq<Candidate>, ev: Seq<u32>, n: int, bit: u32, fd: int)
    requires
        0 <= n <= c.len(),
        reported(c, ev, n, bit).contains(fd),
    ensures
        exists|i: int| 0 <= i < n && #[trigger] c[i].fd == fd,
    decreases n,
{
    if n > 0 {
        let prev = reported(c, ev, n - 1, bit);
        if prev.contains(fd) {
            lemma_reported_is_candidate(c, ev, n - 1, bit, fd);
        } else {
            assert(c[n - 1].fd == fd);
        }
    }
}

/// A descriptor at or above the bound of a wait is never reported ready, in
/// any of the three result sets, whatever events the waited-on objects report.
pub proof fn lemma_select_ignores_beyond_nfds(
    r: Set<int>,
    w: Set<int>,
    e: Set<int>,
    nfds: int,
    revents: Seq<u32>,
    bit: u32,
    fd: int,
)
    requires
        nfds <= FD_SETSIZE,
        fd >= nfds,
    ensures
        !reported(
            candidates_upto(r, w, e, nfds),
            revents,
            candidates_upto(r, w, e, nfds).len() as int,
            bit,
        ).contains(fd),
{
    let c = candidates_upto(r, w, e, nfds);
    lemma_candidates_below(r, w, e, nfds);
    if reported(c, revents, c.len() as int, bit).contains(fd) {
        lemma_reported_is_candidate(c, revents, c.len() as int, bit, fd);
    }
}

/// When no candidate reports an event of interest, a wait counts none ready
/// (and so resolves only by its timeout, with empty result sets).
pub proof fn lemma_nothing_ready_counts_zero(c: Seq<Candidate>, revents: Seq<u32>)
    requires
        c.len() == revents.len(),
        forall|i: int| 0 <= i < c.len() ==> !#[trigger] is_ready(c[i], revents[i]),
    ensures
        ready_count(c, revents, c.len() as int) == 0,
{
    assert forall|n: int| 0 <= n <= c.len() implies #[trigger] ready_count(c, revents, n) == 0 by {
        lemma_ready_prefix_zero(c, revents, n);
    }
}

proof fn lemma_ready_prefix_zero(c: Seq<Candidate>, revents: Seq<u32>, n: int)
    requires
        0 <= n <= c.len() == revents.len(),
        forall|i: int| 0 <= i < c.len() ==> !#[trigger] is_ready(c[i], revents[i]),
    ensures
        ready_count(c, revents, n) == 0,
    decreases n,
{
    if n > 0 {
        lemma_ready_prefix_zero(c, revents, n - 1);
    }
}

/// A wait that names, below its bound, a descriptor that is not open fails as
/// a whole: its candidate list is refused with `BadFileDescriptor`, so nothing
/// is waited on and no result set is written.
pub proof fn lemma_missing_descriptor_fails(
    r: Set<int>,
    w: Set<int>,
    e: Set<int>,
    open: Seq<bool>,
    nfds: int,
    fd: int,
)
    requires
        0 <= fd < nfds,
        wanted(r, w, e, fd),
        !is_open(open, fd),
    ensures
        has_missing(r, w, e, open, nfds),
{
}

} // verus!
