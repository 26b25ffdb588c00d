//! Segmented NAR downloads: when to split a download into byte ranges, how
//! the ranges are laid out, and when a running range is split again.
use vstd::prelude::*;

use crate::load_tracker::DownloadLoadTracker;
use crate::text::{
    chars_of, decimal, digits_value, is_digit, lemma_decimal_reads_back, push_decimal,
    string_from_chars,
};

verus! {

/// How NAR files are downloaded.
#[derive(Debug, Clone, Copy, PartialEq, Eq, Structural, Hash)]
pub struct DownloadConfiguration {
    /// Whether large files are fetched as several byte ranges at once.
    pub segmented: bool,
    /// Files smaller than this are fetched in one request.
    pub segmented_min_file_bytes: u64,
    /// Most connections one file is fetched over.
    pub segmented_max_connections: usize,
    /// No segmented download starts while more downloads than this run.
    pub segmented_load_threshold: usize,
    /// Bytes that may be buffered ahead of what the client has received.
    pub segmented_buffer_bytes: usize,
}

/// The settings used when the configuration names none.
pub open spec fn default_download_configuration() -> DownloadConfiguration {
    DownloadConfiguration {
        segmented: false,
        segmented_min_file_bytes: 8388608u64,
        segmented_max_connections: 4usize,
        segmented_load_threshold: 3usize,
        segmented_buffer_bytes: 16777216usize,
    }
}

impl DownloadConfiguration {
    /// The settings used when the configuration names none: segmented
    /// downloads off, 8 MiB minimum file size, 4 connections, a load
    /// threshold of 3 and a 16 MiB buffer.
    pub fn default_settings() -> (r: DownloadConfiguration)
        ensures
            r == default_download_configuration(),
    {
        DownloadConfiguration {
            segmented: false,
            segmented_min_file_bytes: 8 * 1024 * 1024,
            segmented_max_connections: 4,
            segmented_load_threshold: 3,
            segmented_buffer_bytes: 16 * 1024 * 1024,
        }
    }

    /// The configuration with at least two connections per segmented
    /// download.
    pub fn normalized(self) -> (r: DownloadConfiguration)
        ensures
            r == (DownloadConfiguration {
                segmented_max_connections: if self.segmented_max_connections < 2 {
                    2
                } else {
                    self.segmented_max_connections
                },
                ..self
            }),
    {
        DownloadConfiguration {
            segmented_max_connections: if self.segmented_max_connections < 2 {
                2
            } else {
                self.segmented_max_connections
            },
            ..self
        }
    }
}

impl Default for DownloadConfiguration {
    fn default() -> (r: DownloadConfiguration)
        ensures
            r == default_download_configuration(),
    {
        DownloadConfiguration::default_settings()
    }
}

/// The characters of `"bytes"`.
pub open spec fn bytes_unit() -> Seq<char> {
    seq!['b', 'y', 't', 'e', 's']
}

/// The code point of the ASCII lower case of a character (others
/// unchanged).
pub open spec fn ascii_lower(c: char) -> u32 {
    if 'A' <= c && c <= 'Z' {
        ((c as u32) + 32) as u32
    } else {
        c as u32
    }
}

/// `a` and `b` are equal ignoring ASCII case (`str::eq_ignore_ascii_case`).
pub open spec fn eq_ignore_ascii_case(a: Seq<char>, b: Seq<char>) -> bool {
    a.len() == b.len() && forall|i: int| 0 <= i < a.len() ==> ascii_lower(#[trigger] a[i])
        == ascii_lower(b[i])
}

fn lower(c: char) -> (r: u32)
    ensures
        r == ascii_lower(c),
{
    if 'A' <= c && c <= 'Z' {
        (c as u32) + 32
    } else {
        c as u32
    }
}

/// Whether an `Accept-Ranges` header value announces byte ranges.
pub fn accepts_byte_ranges(accept_ranges: Option<&str>) -> (r: bool)
    ensures
        r == (accept_ranges matches Some(v) && eq_ignore_ascii_case(v@, bytes_unit())),
{
    match accept_ranges {
        None => false,
        Some(v) => {
            let cs = chars_of(v);
            let unit = vec!['b', 'y', 't', 'e', 's'];
            assert(unit@ == bytes_unit());
            if cs.len() != unit.len() {
                return false;
            }
            let mut i: usize = 0;
            while i < cs.len()
                invariant
                    accept_ranges == Some(v),
                    cs@ == v@,
                    unit@ == bytes_unit(),
                    cs.len() == unit.len(),
                    i <= cs.len(),
                    forall|k: int| 0 <= k < i ==> ascii_lower(#[trigger] cs@[k]) == ascii_lower(
                        unit@[k],
                    ),
                decreases cs.len() - i,
            {
                if lower(cs[i]) != lower(unit[i]) {
                    assert(unit@[i as int] == bytes_unit()[i as int]);
                    assert(!eq_ignore_ascii_case(v@, bytes_unit()));
                    return false;
                }
                i = i + 1;
            }
            true
        },
    }
}

/// The rule for splitting a download into byte ranges: segmented downloads
/// are on, the load is at most the threshold, the file is at least the
/// minimum size, the server accepts byte ranges and the body is not encoded.
pub open spec fn eligible_at(
    config: DownloadConfiguration,
    load: usize,
    content_length: u64,
    accept_ranges: bool,
    unencoded: bool,
) -> bool {
    config.segmented && load <= config.segmented_load_threshold && content_length
        >= config.segmented_min_file_bytes && accept_ranges && unencoded
}

/// A download is split into byte ranges only when segmented downloads are
/// on, the given load is at most the threshold, the file is at least the
/// minimum size, the server accepts byte ranges and the body is not encoded.
pub fn is_segmented_eligible_at_load(
    config: &DownloadConfiguration,
    current_load: usize,
    content_length: u64,
    accept_ranges: bool,
    content_encoding: Option<&str>,
) -> (r: bool)
    ensures
        r == eligible_at(*config, current_load, content_length, accept_ranges, content_encoding is None),
{
    config.segmented && current_load <= config.segmented_load_threshold && content_length
        >= config.segmented_min_file_bytes && accept_ranges && content_encoding.is_none()
}

/// Whether a download is split into byte ranges, with the load read from the
/// tracker (see [`eligible_at`]). The load is whatever the shared count
/// holds at the moment: the answer is the rule applied to some load.
pub fn is_segmented_eligible(
    config: &DownloadConfiguration,
    load_tracker: &DownloadLoadTracker,
    content_length: u64,
    accept_ranges: bool,
    content_encoding: Option<&str>,
) -> (r: bool)
    ensures
        exists|load: usize|
            #[trigger] eligible_at(*config, load, content_length, accept_ranges, content_encoding is None)
                == r,
{
    let load = load_tracker.current();
    is_segmented_eligible_at_load(config, load, content_length, accept_ranges, content_encoding)
}

/// End of the first segment, which the initial response serves: the file
/// size divided by the number of connections, at least 1.
pub open spec fn initial_segment_end_spec(total_size: u64, max_connections: usize) -> u64 {
    let share = total_size / (max_connections as u64);
    if share < 1 {
        1
    } else {
        share
    }
}

/// End of the first segment (see [`initial_segment_end_spec`]).
pub fn initial_segment_end(total_size: u64, max_connections: usize) -> (r: u64)
    requires
        max_connections > 0,
    ensures
        r == initial_segment_end_spec(total_size, max_connections),
{
    let share = total_size / (max_connections as u64);
    if share < 1 {
        1
    } else {
        share
    }
}

/// End of the range the initial response serves: [`initial_segment_end`],
/// but never past the end of the file.
pub fn first_segment_end(total_size: u64, max_connections: usize) -> (r: u64)
    requires
        max_connections > 0,
    ensures
        r == if initial_segment_end_spec(total_size, max_connections) < total_size {
            initial_segment_end_spec(total_size, max_connections)
        } else {
            total_size
        },
{
    let end = initial_segment_end(total_size, max_connections);
    if end < total_size {
        end
    } else {
        total_size
    }
}

/// A range worker that stopped at `offset` of a range ending at `end`
/// failed when bytes are missing and it was not told to stop.
pub fn range_left_incomplete(offset: u64, end: u64, cancelled: bool) -> (r: bool)
    ensures
        r == (offset < end && !cancelled),
{
    offset < end && !cancelled
}

/// Number of ranges `[start, end)` is cut into: at most `max_segments`, and
/// no more than there are bytes.
pub open spec fn segment_count(start: u64, end: u64, max_segments: usize) -> int {
    let len = end - start;
    let cap = if len < 1 {
        1
    } else {
        len
    };
    if (max_segments as int) < cap {
        max_segments as int
    } else {
        cap
    }
}

/// Bytes per range: the range length divided by the count, rounded up.
pub open spec fn segment_chunk_size(start: u64, end: u64, max_segments: usize) -> int {
    let len = end - start;
    let count = segment_count(start, end, max_segments);
    (len + count - 1) / count
}

/// `segs` cuts `[start, end)` into consecutive non-empty ranges, in order,
/// each `chunk` bytes long except the last, which may be shorter.
pub open spec fn is_segment_plan(segs: Seq<(u64, u64)>, start: u64, end: u64, chunk: int) -> bool {
    &&& segs.len() > 0
    &&& segs[0].0 == start
    &&& segs.last().1 == end
    &&& forall|i: int| 0 <= i < segs.len() ==> #[trigger] segs[i].0 < segs[i].1
    &&& forall|i: int| 0 <= i < segs.len() - 1 ==> #[trigger] segs[i].1 == segs[i + 1].0
    &&& forall|i: int| 0 <= i < segs.len() - 1 ==> #[trigger] segs[i].1 - segs[i].0 == chunk
    &&& segs.last().1 - segs.last().0 <= chunk
}

/// The byte ranges `[start, end)` is fetched as: nothing when the range is
/// empty or no connection is left; otherwise [`segment_count`] ranges of
/// [`segment_chunk_size`] bytes, the last one possibly shorter.
pub fn plan_range_segments(start: u64, end: u64, max_segments: usize) -> (r: Vec<(u64, u64)>)
    ensures
        start >= end || max_segments == 0 ==> r@.len() == 0,
        start < end && max_segments > 0 ==> {
            &&& is_segment_plan(r@, start, end, segment_chunk_size(start, end, max_segments))
            &&& r@.len() <= segment_count(start, end, max_segments)
        },
{
    let mut segs: Vec<(u64, u64)> = Vec::new();
    if start >= end || max_segments == 0 {
        return segs;
    }
    let len = end - start;
    let cap: u64 = if len < 1 {
        1
    } else {
        len
    };
    let count: u64 = if (max_segments as u64) < cap {
        max_segments as u64
    } else {
        cap
    };
    assert(len % count != 0 ==> len / count < len) by (nonlinear_arith)
        requires
            count >= 1,
            len >= 1,
    {
    }
    let chunk: u64 = len / count + if len % count != 0 {
        1
    } else {
        0
    };
    proof {
        assert(chunk == segment_chunk_size(start, end, max_segments)) by (nonlinear_arith)
            requires
                count > 0,
                chunk == len / count + if len % count != 0 { 1int } else { 0int },
                segment_chunk_size(start, end, max_segments) == (len as int + count as int - 1) / (count as int),
        {
        }
        assert(chunk >= 1 && chunk * count >= len) by (nonlinear_arith)
            requires
                count > 0,
                len >= 1,
                chunk == len / count + if len % count != 0 { 1int } else { 0int },
        {
        }
    }
    let mut offset = start;
    while offset < end
        invariant
            start < end,
            start <= offset <= end,
            chunk >= 1,
            count >= 1,
            chunk * count >= end - start,
            chunk == segment_chunk_size(start, end, max_segments),
            count == segment_count(start, end, max_segments),
            offset < end ==> segs@.len() * chunk == offset - start,
            segs@.len() > 0 ==> segs@.last().0 == start + (segs@.len() - 1) * chunk,
            segs@.len() == 0 ==> offset == start,
            segs@.len() > 0 ==> segs@[0].0 == start,
            segs@.len() > 0 ==> segs@.last().1 == offset,
            forall|i: int| 0 <= i < segs@.len() ==> #[trigger] segs@[i].0 < segs@[i].1,
            forall|i: int| 0 <= i < segs@.len() ==> #[trigger] segs@[i].1 - segs@[i].0 <= chunk,
            forall|i: int| 0 <= i < segs@.len() - 1 ==> #[trigger] segs@[i].1 == segs@[i + 1].0,
            forall|i: int| 0 <= i < segs@.len() ==> #[trigger] segs@[i].1 - segs@[i].0 == chunk
                || (segs@[i].1 == end && i == segs@.len() - 1),
            offset < end ==> forall|i: int| 0 <= i < segs@.len() ==> #[trigger] segs@[i].1
                - segs@[i].0 == chunk,
        decreases end - offset,
    {
        let segment_end = if end - offset < chunk {
            end
        } else {
            offset + chunk
        };
        let ghost old_len = segs@.len();
        segs.push((offset, segment_end));
        proof {
            assert(segs@.len() * chunk == offset + chunk - start) by (nonlinear_arith)
                requires
                    segs@.len() == old_len + 1,
                    old_len * chunk == offset - start,
            ;
            assert(segs@.last().0 == start + (segs@.len() - 1) * chunk) by (nonlinear_arith)
                requires
                    segs@.len() == old_len + 1,
                    old_len * chunk == offset - start,
                    segs@.last().0 == offset,
            ;
        }
        offset = segment_end;
    }
    proof {
        // The number of ranges never exceeds the count: all but the last
        // are `chunk` long and `chunk * count` covers the range.
        let n = segs@.len();
        assert((n - 1) * chunk < end - start) by (nonlinear_arith)
            requires
                n >= 1,
                segs@.last().0 == start + (n - 1) * chunk,
                segs@.last().0 < end,
        {
        }
        assert(n <= count) by (nonlinear_arith)
            requires
                (n - 1) * chunk < end - start,
                chunk * count >= end - start,
                chunk >= 1,
                n >= 1,
                count >= 1,
        {
        }
    }
    segs
}

/// A range being downloaded: the bytes `[start, end)` of the file.
#[derive(Debug, Clone, Copy, PartialEq, Eq, Structural, Hash)]
pub struct SegmentSpan {
    pub start: u64,
    pub end: u64,
}

/// How far a range has come: the bytes before `delivered` have reached the
/// client, so a range progresses from the later of its start and that.
pub open spec fn segment_progress(s: SegmentSpan, delivered: u64) -> u64 {
    if delivered < s.start {
        s.start
    } else {
        delivered
    }
}

/// A range worth splitting: more than `min_tail_bytes` of it are left.
pub open spec fn is_splittable(s: SegmentSpan, delivered: u64, min_tail_bytes: u64) -> bool {
    s.end > segment_progress(s, delivered) && s.end - segment_progress(s, delivered)
        > min_tail_bytes
}

/// Bytes left in a range.
pub open spec fn segment_remaining(s: SegmentSpan, delivered: u64) -> int {
    if s.end > segment_progress(s, delivered) {
        s.end - segment_progress(s, delivered)
    } else {
        0
    }
}

/// The bytes left in a range are the bytes of it not yet delivered: while
/// the delivered cursor is before the range, all of it; as the cursor moves
/// through the range, exactly one less for every byte delivered; none once
/// the cursor has passed its end.
pub proof fn lemma_remaining_counts_undelivered_bytes(s: SegmentSpan, d1: u64, d2: u64)
    requires
        s.start <= s.end,
        d1 <= d2,
    ensures
        d1 <= s.start ==> segment_remaining(s, d1) == s.end - s.start,
        s.start <= d1 && d2 <= s.end ==> segment_remaining(s, d2) == segment_remaining(s, d1) - (d2
            - d1),
        d1 >= s.end ==> segment_remaining(s, d1) == 0,
{
}

/// Range `i` is the one to split: it is worth splitting, no range worth
/// splitting has more bytes left, and every later one worth splitting has
/// fewer.
pub open spec fn is_best_split(segments: Seq<SegmentSpan>, delivered: u64, min_tail_bytes: u64, i: int) -> bool {
    &&& 0 <= i < segments.len()
    &&& is_splittable(segments[i], delivered, min_tail_bytes)
    &&& forall|j: int|
        0 <= j < segments.len() && is_splittable(#[trigger] segments[j], delivered, min_tail_bytes)
            ==> segment_remaining(segments[j], delivered) <= segment_remaining(segments[i], delivered)
    &&& forall|j: int|
        i < j < segments.len() && is_splittable(#[trigger] segments[j], delivered, min_tail_bytes)
            ==> segment_remaining(segments[j], delivered) < segment_remaining(segments[i], delivered)
}

/// The range to split: among those worth splitting, the one with the most
/// bytes left (the last such one when several tie). The answer gives its
/// index, where it has progressed to, and its end.
pub fn find_splittable(segments: &[SegmentSpan], delivered: u64, min_tail_bytes: u64) -> (r:
    Option<(usize, u64, u64)>)
    ensures
        match r {
            None => forall|j: int| 0 <= j < segments@.len() ==> !is_splittable(
                #[trigger] segments@[j],
                delivered,
                min_tail_bytes,
            ),
            Some((i, at, end)) => {
                &&& is_best_split(segments@, delivered, min_tail_bytes, i as int)
                &&& at == segment_progress(segments@[i as int], delivered)
                &&& end == segments@[i as int].end
                &&& at >= segments@[i as int].start && at >= delivered
                &&& forall|j: int|
                    0 <= j < segments@.len() && is_splittable(
                        #[trigger] segments@[j],
                        delivered,
                        min_tail_bytes,
                    ) ==> segments@[j].end - (if delivered < segments@[j].start {
                        segments@[j].start
                    } else {
                        delivered
                    }) <= end - at
            },
        },
{
    let mut best: Option<(usize, u64, u64)> = None;
    let mut best_remaining: u64 = 0;
    let mut k: usize = 0;
    while k < segments.len()
        invariant
            k <= segments@.len(),
            match best {
                None => forall|j: int| 0 <= j < k ==> !is_splittable(
                    #[trigger] segments@[j],
                    delivered,
                    min_tail_bytes,
                ),
                Some((i, at, end)) => {
                    &&& i < k
                    &&& is_splittable(segments@[i as int], delivered, min_tail_bytes)
                    &&& at == segment_progress(segments@[i as int], delivered)
                    &&& end == segments@[i as int].end
                    &&& best_remaining == segment_remaining(segments@[i as int], delivered)
                    &&& forall|j: int|
                        0 <= j < k && is_splittable(
                            #[trigger] segments@[j],
                            delivered,
                            min_tail_bytes,
                        ) ==> segment_remaining(segments@[j], delivered) <= best_remaining
                    &&& forall|j: int|
                        i < j < k && is_splittable(
                            #[trigger] segments@[j],
                            delivered,
                            min_tail_bytes,
                        ) ==> segment_remaining(segments@[j], delivered) < best_remaining
                },
            },
        decreases segments@.len() - k,
    {
        let s = segments[k];
        let progress = if delivered < s.start {
            s.start
        } else {
            delivered
        };
        if s.end > progress && s.end - progress > min_tail_bytes {
            let remaining = s.end - progress;
            let better = match best {
                None => true,
                Some(_) => remaining >= best_remaining,
            };
            if better {
                best = Some((k, progress, s.end));
                best_remaining = remaining;
            }
        }
        k = k + 1;
    }
    best
}

/// Bytes a range must have left to be split: the minimum file size shared
/// among the connections, at least 1.
pub open spec fn min_tail_bytes_spec(config: DownloadConfiguration) -> u64 {
    let share = config.segmented_min_file_bytes / (config.segmented_max_connections as u64);
    if share < 1 {
        1
    } else {
        share
    }
}

/// Bytes a range must have left to be split (see [`min_tail_bytes_spec`]).
pub fn min_tail_bytes(config: &DownloadConfiguration) -> (r: u64)
    requires
        config.segmented_max_connections > 0,
    ensures
        r == min_tail_bytes_spec(*config),
{
    let share = config.segmented_min_file_bytes / (config.segmented_max_connections as u64);
    if share < 1 {
        1
    } else {
        share
    }
}

/// What the supervisor of a segmented download does on one tick.
#[derive(Debug, Clone, Copy, PartialEq, Eq, Structural, Hash)]
pub enum SupervisorAction {
    /// Every byte has reached the client; stop supervising.
    Finish,
    /// Nothing to do on this tick.
    Wait,
    /// Cancel range `index` and fetch `[split_at, old_end)` again over at
    /// most `max_segments` new ranges.
    Split { index: usize, split_at: u64, old_end: u64, max_segments: usize },
}

/// Splitting may be considered on this tick: bytes are still missing, the
/// load is at most the threshold, more than the minimum tail is left, and
/// a connection is free.
pub open spec fn may_split(
    config: DownloadConfiguration,
    total_size: u64,
    delivered: u64,
    current_load: usize,
    active_workers: usize,
) -> bool {
    &&& delivered < total_size
    &&& current_load <= config.segmented_load_threshold
    &&& total_size - delivered > min_tail_bytes_spec(config)
    &&& active_workers < config.segmented_max_connections
}

/// One supervisor tick. It finishes once the client has every byte. When
/// splitting may be considered and some range is worth splitting, it splits
/// the one with the most bytes left (see [`is_best_split`]) from where it
/// has progressed to, over the connections that are free; otherwise it
/// waits.
pub fn supervisor_step(
    config: &DownloadConfiguration,
    total_size: u64,
    delivered: u64,
    current_load: usize,
    active_workers: usize,
    segments: &[SegmentSpan],
) -> (r: SupervisorAction)
    requires
        config.segmented_max_connections > 0,
    ensures
        (r == SupervisorAction::Finish) == (delivered >= total_size),
        (r == SupervisorAction::Wait) == (delivered < total_size && (!may_split(
            *config,
            total_size,
            delivered,
            current_load,
            active_workers,
        ) || forall|j: int|
            0 <= j < segments@.len() ==> !is_splittable(
                #[trigger] segments@[j],
                delivered,
                min_tail_bytes_spec(*config),
            ))),
        r matches SupervisorAction::Split { index, split_at, old_end, max_segments } ==> {
            &&& may_split(*config, total_size, delivered, current_load, active_workers)
            &&& is_best_split(segments@, delivered, min_tail_bytes_spec(*config), index as int)
            &&& split_at == segment_progress(segments@[index as int], delivered)
            &&& old_end == segments@[index as int].end
            &&& max_segments == config.segmented_max_connections - active_workers
        },
{
    let min_tail = min_tail_bytes(config);
    if delivered >= total_size {
        return SupervisorAction::Finish;
    }
    if current_load > config.segmented_load_threshold || total_size - delivered <= min_tail
        || active_workers >= config.segmented_max_connections {
        return SupervisorAction::Wait;
    }
    match find_splittable(segments, delivered, min_tail) {
        None => SupervisorAction::Wait,
        Some((index, split_at, old_end)) => SupervisorAction::Split {
            index,
            split_at,
            old_end,
            max_segments: config.segmented_max_connections - active_workers,
        },
    }
}

/// What a worker does with a chunk that starts at `offset` of a range ending
/// at `end`: how many of its bytes to keep, and whether the range is then
/// complete because the chunk reached past it.
pub fn clip_chunk(offset: u64, end: u64, chunk_len: u64) -> (r: (u64, bool))
    requires
        offset < end,
    ensures
        chunk_len > end - offset ==> r == ((end - offset) as u64, true),
        chunk_len <= end - offset ==> r == (chunk_len, false),
{
    let remaining = end - offset;
    if chunk_len > remaining {
        (remaining, true)
    } else {
        (chunk_len, false)
    }
}

/// Whether a finished worker completes the download: every expected worker
/// has finished and none is still running.
pub fn completes_download(workers_done: usize, expected_workers: usize, active_workers: usize) -> (r:
    bool)
    ensures
        r == (workers_done >= expected_workers && active_workers == 0),
{
    workers_done >= expected_workers && active_workers == 0
}

/// The characters of `"bytes="`.
pub open spec fn range_unit_prefix() -> Seq<char> {
    seq!['b', 'y', 't', 'e', 's', '=']
}

/// The `Range` header value for the bytes `[start, end)`:
/// `bytes=<start>-<end - 1>` (`end - 1` is 0 when `end` is 0).
pub open spec fn range_header_spec(start: u64, end: u64) -> Seq<char> {
    range_unit_prefix() + decimal(start as nat) + seq!['-'] + decimal(
        if end == 0 {
            0nat
        } else {
            (end - 1) as nat
        },
    )
}

/// The header of a non-empty range `[start, end)` is `bytes=`, then digits
/// that read back as `start`, then `-`, then digits that read back as the
/// last byte `end - 1`.
pub proof fn lemma_range_header_names_the_range(start: u64, end: u64)
    requires
        start < end,
    ensures
        ({
            let h = range_header_spec(start, end);
            let a = decimal(start as nat);
            let b = decimal((end - 1) as nat);
            &&& h == range_unit_prefix() + a + seq!['-'] + b
            &&& a.len() >= 1 && b.len() >= 1
            &&& (forall|i: int| 0 <= i < a.len() ==> is_digit(#[trigger] a[i]))
            &&& (forall|i: int| 0 <= i < b.len() ==> is_digit(#[trigger] b[i]))
            &&& digits_value(a) == start
            &&& digits_value(b) == end - 1
        }),
{
    lemma_decimal_reads_back(start as nat);
    lemma_decimal_reads_back((end - 1) as nat);
}

/// The `Range` header value for the bytes `[start, end)`.
pub fn range_header_value(start: u64, end: u64) -> (r: String)
    ensures
        r@ == range_header_spec(start, end),
{
    let mut out = vec!['b', 'y', 't', 'e', 's', '='];
    push_decimal(&mut out, start);
    out.push('-');
    let last = if end == 0 {
        0
    } else {
        end - 1
    };
    push_decimal(&mut out, last);
    string_from_chars(&out)
}

/// Every range plan covers its range: the ranges are consecutive, start at
/// `start`, end at `end`, and each holds at least one byte, so each byte is
/// fetched exactly once.
pub proof fn lemma_segment_plan_covers(segs: Seq<(u64, u64)>, start: u64, end: u64, chunk: int, b: int)
    requires
        is_segment_plan(segs, start, end, chunk),
        start <= b < end,
    ensures
        exists|i: int| 0 <= i < segs.len() && (#[trigger] segs[i]).0 <= b < segs[i].1,
    decreases segs.len(),
{
    if b < segs.last().0 {
        let prefix = segs.drop_last();
        assert(is_segment_plan(prefix, start, prefix.last().1, chunk)) by {
            assert forall|i: int| 0 <= i < prefix.len() implies #[trigger] prefix[i].0 < prefix[i].1 by {
            }
            assert forall|i: int| 0 <= i < prefix.len() - 1 implies #[trigger] prefix[i].1 == prefix[i + 1].0 by {
            }
            assert forall|i: int| 0 <= i < prefix.len() - 1 implies #[trigger] prefix[i].1 - prefix[i].0 == chunk by {
            }
        }
        lemma_segment_plan_covers(prefix, start, prefix.last().1, chunk, b);
    }
}

} // verus!
