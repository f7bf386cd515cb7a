//! Adaptive readahead: detects sequential access and grows a prefetch window.
use vstd::prelude::*;

verus! {

/// Page size in bytes.
pub const PAGE_SIZE: u64 = 4096;

/// Initial readahead size in pages.
pub const RA_INIT_PAGES: u32 = 4;

/// Maximum readahead size in pages.
pub const RA_MAX_PAGES: u32 = 64;

/// Largest gap between reads, in pages, that still counts as sequential.
pub const RA_SEQ_GAP_PAGES: u64 = 2;

/// Access pattern seen on a file.
#[derive(Debug, Clone, Copy, PartialEq, Eq, Structural)]
pub enum RaPattern {
    /// No pattern detected yet.
    Initial,
    /// Sequential access detected.
    Sequential,
    /// Random access detected.
    Random,
}

/// The pattern that a stored code stands for; unknown codes read as `Initial`.
pub open spec fn pattern_of_code(value: u32) -> RaPattern {
    if value == 1 {
        RaPattern::Sequential
    } else if value == 2 {
        RaPattern::Random
    } else {
        RaPattern::Initial
    }
}

impl From<u32> for RaPattern {
    fn from(value: u32) -> (r: Self)
        ensures
            r == pattern_of_code(value),
    {
        if value == 1 {
            RaPattern::Sequential
        } else if value == 2 {
            RaPattern::Random
        } else {
            RaPattern::Initial
        }
    }
}

impl vstd::std_specs::convert::FromSpecImpl<u32> for RaPattern {
    open spec fn obeys_from_spec() -> bool {
        true
    }

    open spec fn from_spec(v: u32) -> RaPattern {
        pattern_of_code(v)
    }
}

/// Mathematical view of a readahead state.
pub struct RaView {
    /// Byte offset where the current window starts.
    pub ra_start: u64,
    /// Window size in pages.
    pub ra_size: u32,
    /// Size in pages of the tail of the window that triggers the next one.
    pub async_size: u32,
    /// Byte offset just past the previous read.
    pub prev_end: u64,
    /// Detected access pattern.
    pub pattern: RaPattern,
    /// Number of consecutive sequential reads, modulo 2^32.
    pub seq_count: u32,
}

/// Readahead state of one open file.
pub struct ReadaheadState {
    ra_start: u64,
    ra_size: u32,
    async_size: u32,
    prev_end: u64,
    pattern: RaPattern,
    seq_count: u32,
}

impl View for ReadaheadState {
    type V = RaView;

    closed spec fn view(&self) -> RaView {
        RaView {
            ra_start: self.ra_start,
            ra_size: self.ra_size,
            async_size: self.async_size,
            prev_end: self.prev_end,
            pattern: self.pattern,
            seq_count: self.seq_count,
        }
    }
}

/// The window never exceeds the maximum readahead size.
pub open spec fn ra_wf(s: RaView) -> bool {
    s.ra_size <= RA_MAX_PAGES
}

/// Whether a read starting at `read_start` continues the previous one, which
/// ended at `prev_end` (zero before the first read).
pub open spec fn is_sequential_read(prev_end: u64, read_start: u64) -> bool {
    if prev_end == 0 {
        read_start < PAGE_SIZE * 4
    } else if read_start >= prev_end {
        read_start - prev_end <= RA_SEQ_GAP_PAGES * PAGE_SIZE
    } else {
        prev_end - read_start <= RA_SEQ_GAP_PAGES * PAGE_SIZE
    }
}

/// Whether a read at `read_start` falls in the trigger tail of the window.
pub open spec fn in_async_window(s: RaView, read_start: u64) -> bool {
    let start = s.ra_start as int;
    let size = s.ra_size as int * PAGE_SIZE as int;
    let tail = s.async_size as int * PAGE_SIZE as int;
    let trigger = if size >= tail { start + size - tail } else { start };
    s.ra_size != 0 && read_start as int >= trigger && (read_start as int) < start + size
}

/// The size of the next window: the initial size, then doubling up to the maximum.
pub open spec fn next_size_of(current: u32) -> u32 {
    if current == 0 {
        RA_INIT_PAGES
    } else if current as int * 2 <= RA_MAX_PAGES as int {
        (current * 2) as u32
    } else {
        RA_MAX_PAGES
    }
}

/// The state after a read of `read_len` bytes at `read_start` has been classified.
pub open spec fn detected(s: RaView, read_start: u64, read_len: usize) -> RaView {
    let end = (read_start + read_len) as u64;
    if is_sequential_read(s.prev_end, read_start) {
        RaView {
            prev_end: end,
            seq_count: if s.seq_count == u32::MAX { 0 } else { (s.seq_count + 1) as u32 },
            pattern: if s.pattern != RaPattern::Sequential && s.seq_count >= 2 {
                RaPattern::Sequential
            } else {
                s.pattern
            },
            ..s
        }
    } else {
        RaView { prev_end: end, seq_count: 0, pattern: RaPattern::Random, ra_size: 0, ..s }
    }
}

/// The state of a file that has not been read yet.
pub open spec fn initial_view() -> RaView {
    RaView {
        ra_start: 0,
        ra_size: 0,
        async_size: 0,
        prev_end: 0,
        pattern: RaPattern::Initial,
        seq_count: 0,
    }
}

impl ReadaheadState {
    /// A fresh state: no window, no previous read, no pattern.
    pub fn new() -> (r: Self)
        ensures
            r@ == initial_view(),
    {
        ReadaheadState {
            ra_start: 0,
            ra_size: 0,
            async_size: 0,
            prev_end: 0,
            pattern: RaPattern::Initial,
            seq_count: 0,
        }
    }

    /// The current access pattern.
    pub fn pattern(&self) -> (r: RaPattern)
        ensures
            r == self@.pattern,
    {
        self.pattern
    }

    /// Whether a read at `read_start` should trigger the next asynchronous window.
    pub fn should_trigger_async(&self, read_start: u64) -> (r: bool)
        ensures
            r == in_async_window(self@, read_start),
    {
        let ra_start = self.ra_start as u128;
        let ra_size = self.ra_size as u128 * PAGE_SIZE as u128;
        let async_size = self.async_size as u128 * PAGE_SIZE as u128;
        if ra_size == 0 {
            return false;
        }
        let trigger_point = ra_start + ra_size.saturating_sub(async_size);
        read_start as u128 >= trigger_point && (read_start as u128) < ra_start + ra_size
    }

    /// Replaces the readahead window.
    pub fn update_window(&mut self, start: u64, size_pages: u32, async_pages: u32)
        ensures
            final(self)@ == (RaView {
                ra_start: start,
                ra_size: size_pages,
                async_size: async_pages,
                ..old(self)@
            }),
    {
        self.ra_start = start;
        self.ra_size = size_pages;
        self.async_size = async_pages;
    }

    /// The size of the next window: exponential growth capped at the maximum.
    pub fn next_ra_size(&self) -> (r: u32)
        requires
            ra_wf(self@),
        ensures
            r == next_size_of(self@.ra_size),
            0 < r <= RA_MAX_PAGES,
    {
        let current = self.ra_size;
        if current == 0 {
            RA_INIT_PAGES
        } else if current * 2 <= RA_MAX_PAGES {
            current * 2
        } else {
            RA_MAX_PAGES
        }
    }

    /// Classifies a read as sequential or random and records it; returns
    /// whether it was sequential, and `cache_hit` as given.
    pub fn detect_pattern(&mut self, read_start: u64, read_len: usize, cache_hit: bool) -> (r: (
        bool,
        bool,
    ))
        requires
            read_start + read_len <= u64::MAX,
        ensures
            r == (is_sequential_read(old(self)@.prev_end, read_start), cache_hit),
            final(self)@ == detected(old(self)@, read_start, read_len),
    {
        let prev_end = self.prev_end;
        self.prev_end = read_start + read_len as u64;
        let pattern = self.pattern;
        let gap = if read_start >= prev_end {
            read_start - prev_end
        } else {
            prev_end - read_start
        };
        let is_sequential = if prev_end == 0 {
            read_start < PAGE_SIZE * 4
        } else {
            gap <= RA_SEQ_GAP_PAGES * PAGE_SIZE
        };
        if is_sequential {
            let count = self.seq_count;
            self.seq_count = count.wrapping_add(1);
            if pattern != RaPattern::Sequential && count >= 2 {
                self.pattern = RaPattern::Sequential;
            }
        } else {
            self.seq_count = 0;
            self.pattern = RaPattern::Random;
            self.ra_size = 0;
        }
        (is_sequential, cache_hit)
    }
}

impl Default for ReadaheadState {
    fn default() -> (r: Self)
        ensures
            r@ == initial_view(),
    {
        ReadaheadState::new()
    }
}

/// Outcome of a readahead decision.
pub enum ReadaheadAction {
    /// No readahead needed.
    Skip,
    /// Prefetch synchronously (first sequential miss).
    Sync { start_page: u32, num_pages: u32 },
    /// Prefetch the next window in the background.
    Async { start_page: u32, num_pages: u32 },
}

/// `a + b`, or `u64::MAX` where the sum does not fit.
pub open spec fn sat_add_u64(a: int, b: int) -> u64 {
    if a + b > u64::MAX {
        u64::MAX
    } else {
        (a + b) as u64
    }
}

/// The state after a decision on a read, and the action decided.
pub open spec fn decision(s: RaView, cache_hit: bool, read_start: u64, read_len: usize) -> (
    RaView,
    ReadaheadAction,
) {
    if read_len == 0 {
        (s, ReadaheadAction::Skip)
    } else {
        let d = detected(s, read_start, read_len);
        if !is_sequential_read(s.prev_end, read_start) {
            (d, ReadaheadAction::Skip)
        } else if in_async_window(d, read_start) {
            let next_start = sat_add_u64(d.ra_start as int, d.ra_size as int * PAGE_SIZE as int);
            let n = next_size_of(d.ra_size);
            (
                RaView { ra_start: next_start, ra_size: n, async_size: (n / 4) as u32, ..d },
                ReadaheadAction::Async {
                    start_page: (next_start / PAGE_SIZE) as u32,
                    num_pages: n,
                },
            )
        } else if !cache_hit && d.pattern != RaPattern::Random {
            let sp = (read_start / PAGE_SIZE) as u32;
            (
                RaView {
                    ra_start: (sp as int * PAGE_SIZE as int) as u64,
                    ra_size: RA_INIT_PAGES,
                    async_size: 1,
                    ..d
                },
                ReadaheadAction::Sync { start_page: sp, num_pages: RA_INIT_PAGES },
            )
        } else {
            (d, ReadaheadAction::Skip)
        }
    }
}

/// Decides the readahead for a read of `read_len` bytes at `read_start`, given
/// whether the page cache already holds its first page, and updates the state.
pub fn readahead_decide(
    state: &mut ReadaheadState,
    cache_hit: bool,
    read_start: u64,
    read_len: usize,
) -> (r: ReadaheadAction)
    requires
        ra_wf(old(state)@),
        read_start + read_len <= u64::MAX,
    ensures
        (final(state)@, r) == decision(old(state)@, cache_hit, read_start, read_len),
        ra_wf(final(state)@),
{
    if read_len == 0 {
        return ReadaheadAction::Skip;
    }
    let start_page = offset_to_page(read_start);
    let (is_sequential, _) = state.detect_pattern(read_start, read_len, cache_hit);
    if !is_sequential {
        return ReadaheadAction::Skip;
    }
    if state.should_trigger_async(read_start) {
        let ra_start = state.ra_start;
        let ra_size = state.ra_size;
        let next_start = ra_start.saturating_add(ra_size as u64 * PAGE_SIZE);
        let next_size = state.next_ra_size();
        let async_size = next_size / 4;
        state.update_window(next_start, next_size, async_size);
        return ReadaheadAction::Async { start_page: offset_to_page(next_start), num_pages: next_size };
    }
    if !cache_hit && state.pattern() != RaPattern::Random {
        let ra_size = RA_INIT_PAGES;
        let async_size = ra_size / 4;
        let window_start = page_to_offset(start_page);
        state.update_window(window_start, ra_size, if async_size > 1 { async_size } else { 1 });
        return ReadaheadAction::Sync { start_page, num_pages: ra_size };
    }
    ReadaheadAction::Skip
}

/// The window of an asynchronous action, as (start page, page count).
pub fn should_async_readahead(action: &ReadaheadAction) -> (r: Option<(u32, u32)>)
    ensures
        r == (match *action {
            ReadaheadAction::Async { start_page, num_pages } => Some((start_page, num_pages)),
            _ => None,
        }),
{
    match action {
        ReadaheadAction::Async { start_page, num_pages } => Some((*start_page, *num_pages)),
        _ => None,
    }
}

/// The page that holds byte `offset` (page numbers are 32 bits wide).
pub fn offset_to_page(offset: u64) -> (r: u32)
    ensures
        r == (offset / PAGE_SIZE) as u32,
{
    (offset / PAGE_SIZE) as u32
}

/// The byte offset where page `page` starts.
pub fn page_to_offset(page: u32) -> (r: u64)
    ensures
        r == page as int * PAGE_SIZE as int,
{
    page as u64 * PAGE_SIZE
}

} // verus!
