//! The assembly pipelines around the encoders: the online step that builds
//! the final container from the metadata and an ordered chunk list, and the
//! local-disk pipeline that reads the same chunk shapes from a directory
//! listing, restores their order from the file names, looks their timing up
//! in the timing table, and reports progress after every chunk processed.

use vstd::prelude::*;
use vstd::string::*;

use crate::chunk::{
    build_replay, container_bytes, container_size_checked, parts_wf, Chunk, ChunkV,
    PartV, ReplayPart,
};
use crate::dates::{
    created_time_spec, date_label_spec, format_date_label, parse_created, CreatedTime,
};
use crate::errors::{FormatError, ReplayError};
use crate::events::{
    event_chunks, event_chunks_upto, opt_i32_or_zero, Event, EventKind,
};
use crate::meta::{build_meta, meta_record_bytes, meta_ticks_spec, MetaData};
use crate::order::{sort_by_key, sorted_by_key};
use crate::progress::{Config, Progress, ProgressUpdate};
use crate::text::{parse_i32, parse_i32_spec, parse_usize, parse_usize_spec, sanitize_char,
    sanitize_friendly_name};

verus! {

/// One entry of the local timing table (`timing.json`): all three fields
/// arrive as strings.
#[derive(Debug, Clone, PartialEq)]
pub struct TimingEntry {
    pub numchunks: String,
    pub mtime1: String,
    pub mtime2: String,
}

/// Whether a timing entry belongs to the stream chunk with this 1-based
/// number.
pub open spec fn timing_matches(t: TimingEntry, chunk_number: usize) -> bool {
    parse_usize_spec(t.numchunks@) == Some(chunk_number)
}

/// The first timing entry of a chunk number, or the table length when none
/// matches.
pub open spec fn timing_index(timing: Seq<TimingEntry>, chunk_number: usize) -> int
    decreases timing.len(),
{
    if timing.len() == 0 {
        0
    } else if timing_matches(timing[0], chunk_number) {
        0
    } else {
        1 + timing_index(timing.drop_first(), chunk_number)
    }
}

/// The timing of a stream chunk: the first matching entry's values, each
/// defaulting to zero when absent or unreadable.
pub open spec fn timing_times(timing: Seq<TimingEntry>, chunk_number: usize) -> (i32, i32) {
    let k = timing_index(timing, chunk_number);
    if k < timing.len() {
        (
            opt_i32_or_zero(parse_i32_spec(timing[k].mtime1@)),
            opt_i32_or_zero(parse_i32_spec(timing[k].mtime2@)),
        )
    } else {
        (0i32, 0i32)
    }
}

proof fn lemma_timing_index_is(timing: Seq<TimingEntry>, chunk_number: usize, k: int)
    requires
        0 <= k <= timing.len(),
        forall|j: int| 0 <= j < k ==> !timing_matches(#[trigger] timing[j], chunk_number),
        k < timing.len() ==> timing_matches(timing[k], chunk_number),
    ensures
        timing_index(timing, chunk_number) == k,
    decreases timing.len(),
{
    if timing.len() > 0 && k > 0 {
        assert(!timing_matches(timing[0], chunk_number));
        assert forall|j: int|
            0 <= j < k - 1 implies !timing_matches(
            #[trigger] timing.drop_first()[j],
            chunk_number,
        ) by {
            assert(timing.drop_first()[j] == timing[j + 1]);
        }
        if k - 1 < timing.drop_first().len() {
            assert(timing.drop_first()[k - 1] == timing[k]);
        }
        lemma_timing_index_is(timing.drop_first(), chunk_number, k - 1);
    }
}

/// Looks a stream chunk's timing up by its 1-based number.
pub fn lookup_timing(timing: &Vec<TimingEntry>, chunk_number: usize) -> (r: (i32, i32))
    ensures
        r == timing_times(timing@, chunk_number),
{
    let n: usize = timing.len();
    let mut i: usize = 0;
    while i < n
        invariant
            i <= n,
            n == timing@.len(),
            forall|j: int| 0 <= j < i ==> !timing_matches(#[trigger] timing@[j], chunk_number),
        decreases n - i,
    {
        let found: bool = match parse_usize(timing[i].numchunks.as_str()) {
            Some(v) => v == chunk_number,
            None => false,
        };
        if found {
            proof {
                lemma_timing_index_is(timing@, chunk_number, i as int);
            }
            let t1: i32 = match parse_i32(timing[i].mtime1.as_str()) {
                Some(v) => v,
                None => 0,
            };
            let t2: i32 = match parse_i32(timing[i].mtime2.as_str()) {
                Some(v) => v,
                None => 0,
            };
            return (t1, t2);
        }
        i = i + 1;
    }
    proof {
        lemma_timing_index_is(timing@, chunk_number, n as int);
    }
    (0, 0)
}

/// The first position of a character at or after `from`, or the text
/// length when the character does not occur there.
pub open spec fn char_index(s: Seq<char>, c: char, from: int) -> int
    decreases s.len() - from,
    when 0 <= from <= s.len()
{
    if from >= s.len() {
        s.len() as int
    } else if s[from] == c {
        from
    } else {
        char_index(s, c, from + 1)
    }
}

proof fn lemma_char_index_is(s: Seq<char>, c: char, from: int, k: int)
    requires
        0 <= from <= k <= s.len(),
        forall|j: int| from <= j < k ==> s[j] != c,
        k < s.len() ==> s[k] == c,
    ensures
        char_index(s, c, from) == k,
    decreases k - from,
{
    if from < k {
        assert(s[from] != c);
        lemma_char_index_is(s, c, from + 1, k);
    }
}

/// Finds a character in a string, from a given position on.
fn find_char(s: &str, c: char, from: usize) -> (r: usize)
    requires
        from <= s@.len(),
    ensures
        r == char_index(s@, c, from as int),
        from <= r <= s@.len(),
        r < s@.len() ==> s@[r as int] == c,
{
    let n: usize = s.unicode_len();
    let mut i: usize = from;
    while i < n
        invariant
            from <= i <= n,
            n == s@.len(),
            forall|j: int| from <= j < i ==> s@[j] != c,
        decreases n - i,
    {
        if s.get_char(i) == c {
            proof {
                lemma_char_index_is(s@, c, from as int, i as int);
            }
            return i;
        }
        i = i + 1;
    }
    proof {
        lemma_char_index_is(s@, c, from as int, n as int);
    }
    n
}

/// The numeric index of a stream file name (`stream.N`): the text between
/// the first dot and the next dot (or the end), read as a decimal number;
/// a name without one counts as zero.
pub open spec fn stream_index_spec(s: Seq<char>) -> i32 {
    let i = char_index(s, '.', 0);
    if i >= s.len() {
        0
    } else {
        let j = char_index(s, '.', i + 1);
        opt_i32_or_zero(parse_i32_spec(s.subrange(i + 1, j)))
    }
}

/// The sort key of a stream file: its numeric index, shifted to be
/// non-negative so that the order of keys is the order of indexes.
pub open spec fn stream_sort_key(s: Seq<char>) -> u64 {
    (stream_index_spec(s) + 0x8000_0000) as u64
}

/// Reads the numeric index out of a stream file name.
pub fn stream_file_index(name: &str) -> (r: i32)
    ensures
        r == stream_index_spec(name@),
{
    let n: usize = name.unicode_len();
    let i: usize = find_char(name, '.', 0);
    if i == n {
        return 0;
    }
    let j: usize = find_char(name, '.', i + 1);
    let seg: &str = name.substring_char(i + 1, j);
    match parse_i32(seg) {
        Some(v) => v,
        None => 0,
    }
}

/// The sort key of a stream file name.
pub fn stream_file_key(name: &str) -> (r: u64)
    ensures
        r == stream_sort_key(name@),
{
    let idx: i32 = stream_file_index(name);
    ((idx as i64) + 0x8000_0000i64) as u64
}

/// The timing read from an optional response header value: a missing or
/// unreadable value counts as zero.
pub open spec fn header_time(o: Option<Seq<char>>) -> i32 {
    match o {
        Some(s) => opt_i32_or_zero(parse_i32_spec(s)),
        None => 0,
    }
}

/// The stream chunk of one fetched `stream.{i}` body, with its timing taken
/// from the optional `mtime1`/`mtime2` response headers.
pub fn stream_chunk(data: Vec<u8>, mtime1: Option<&str>, mtime2: Option<&str>) -> (c: Chunk)
    ensures
        c@ == (ChunkV::Data {
            data: data@,
            time1: header_time(
                match mtime1 {
                    Some(s) => Some(s@),
                    None => None,
                },
            ),
            time2: header_time(
                match mtime2 {
                    Some(s) => Some(s@),
                    None => None,
                },
            ),
            size_in_bytes: None,
        }),
{
    let time1: i32 = match mtime1 {
        Some(s) => match parse_i32(s) {
            Some(v) => v,
            None => 0,
        },
        None => 0,
    };
    let time2: i32 = match mtime2 {
        Some(s) => match parse_i32(s) {
            Some(v) => v,
            None => 0,
        },
        None => 0,
    };
    Chunk::Data { data, time1, time2, size_in_bytes: None }
}

/// Chunks wrapped as container parts.
pub open spec fn chunk_parts(chunks: Seq<ChunkV>) -> Seq<PartV> {
    chunks.map_values(|c: ChunkV| PartV::Chunk(c))
}

/// Builds the metadata record and assembles the container over it and the
/// given chunks, in list order: the canonical final step of both
/// pipelines. Fails only on an unusable `created` timestamp or on payloads
/// too large for the container's length fields.
pub fn assemble_replay(meta: &MetaData, chunks: Vec<Chunk>) -> (r: Result<Vec<u8>, ReplayError>)
    ensures
        meta_ticks_spec(*meta) is None ==> r == Result::<Vec<u8>, ReplayError>::Err(
            ReplayError::FormatError(FormatError::InvalidTimestamp),
        ),
        meta_ticks_spec(*meta) matches Some(t) ==> {
            let parts = seq![PartV::Meta(meta_record_bytes(*meta, t as i64))] + chunk_parts(
                chunks.deep_view(),
            );
            if parts_wf(parts) && container_bytes(parts).len() <= usize::MAX {
                r matches Ok(v) && v@ == container_bytes(parts)
            } else {
                r == Result::<Vec<u8>, ReplayError>::Err(
                    ReplayError::FormatError(FormatError::PayloadTooLarge),
                )
            }
        },
{
    let ghost cv = chunks.deep_view();
    let record: Vec<u8> = match build_meta(meta) {
        Ok(v) => v,
        Err(e) => {
            return Err(e);
        },
    };
    let ghost rv = record@;
    let mut parts: Vec<ReplayPart> = Vec::new();
    parts.push(ReplayPart::Meta(record));
    let mut src = chunks;
    while src.len() > 0
        invariant
            parts@.len() >= 1,
            parts@.len() - 1 + src@.len() == cv.len(),
            src.deep_view() =~= cv.skip(parts@.len() - 1),
            parts.deep_view() =~= seq![PartV::Meta(rv)] + chunk_parts(
                cv.take(parts@.len() - 1),
            ),
        decreases src@.len(),
    {
        let ghost k = parts@.len() - 1;
        let ghost pre = src.deep_view();
        let ghost pre_elems = src@;
        let c = src.remove(0);
        proof {
            assert(pre[0] == pre_elems[0].deep_view());
            assert(c@ == cv[k]);
            assert forall|j: int| 0 <= j < src@.len() implies src.deep_view()[j] == cv.skip(
                k + 1,
            )[j] by {
                assert(src@[j] == pre_elems[j + 1]);
                assert(src.deep_view()[j] == src@[j].deep_view());
                assert(pre[j + 1] == pre_elems[j + 1].deep_view());
                assert(pre[j + 1] == cv.skip(k)[j + 1]);
            }
            assert(src.deep_view() =~= cv.skip(k + 1));
        }
        let ghost pre_parts = parts.deep_view();
        let ghost pre_parts_elems = parts@;
        parts.push(ReplayPart::Chunk(c));
        proof {
            assert(cv.take(k + 1) =~= cv.take(k).push(cv[k]));
            assert(chunk_parts(cv.take(k + 1)) =~= chunk_parts(cv.take(k)).push(
                PartV::Chunk(cv[k]),
            ));
            assert forall|j: int| 0 <= j < parts@.len() implies parts.deep_view()[j] == (seq![
                PartV::Meta(rv),
            ] + chunk_parts(cv.take(k + 1)))[j] by {
                assert(parts.deep_view()[j] == parts@[j].deep_view());
                if j < parts@.len() - 1 {
                    assert(parts@[j] == pre_parts_elems[j]);
                    assert(pre_parts[j] == pre_parts_elems[j].deep_view());
                    assert(pre_parts[j] == (seq![PartV::Meta(rv)] + chunk_parts(cv.take(k)))[j]);
                } else {
                    assert(parts@[j] == ReplayPart::Chunk(c));
                }
            }
            assert(parts.deep_view() =~= seq![PartV::Meta(rv)] + chunk_parts(cv.take(k + 1)));
        }
    }
    proof {
        assert(cv.take(cv.len() as int) =~= cv);
        assert(parts.deep_view() =~= seq![PartV::Meta(rv)] + chunk_parts(cv));
    }
    match container_size_checked(&parts) {
        Some(_) => build_replay(&parts),
        None => Err(ReplayError::FormatError(FormatError::PayloadTooLarge)),
    }
}

/// The derived file name of a downloaded replay:
/// `{sanitized-name}-{gameMode}-{date}({id}).replay`.
pub open spec fn replay_filename_spec(m: MetaData, t: CreatedTime, id: Seq<char>) -> Seq<char> {
    m.friendly_name@.map_values(|c: char| sanitize_char(c)) + "-"@ + m.game_mode@ + "-"@
        + date_label_spec(t) + "("@ + id + ")"@ + ".replay"@
}

/// The derived file name of a locally processed replay:
/// `{sanitized-name}-{gameMode}-{date}.replay`.
pub open spec fn local_filename_spec(m: MetaData, t: CreatedTime) -> Seq<char> {
    m.friendly_name@.map_values(|c: char| sanitize_char(c)) + "-"@ + m.game_mode@ + "-"@
        + date_label_spec(t) + ".replay"@
}

/// Derives the file name of a downloaded replay.
pub fn replay_filename(m: &MetaData, t: &CreatedTime, id: &str) -> (r: String)
    ensures
        r@ == replay_filename_spec(*m, *t, id@),
{
    let mut out: String = sanitize_friendly_name(m.friendly_name.as_str());
    out.append("-");
    out.append(m.game_mode.as_str());
    out.append("-");
    let label: String = format_date_label(t);
    out.append(label.as_str());
    out.append("(");
    out.append(id);
    out.append(")");
    out.append(".replay");
    out
}

/// Derives the file name of a locally processed replay.
pub fn local_filename(m: &MetaData, t: &CreatedTime) -> (r: String)
    ensures
        r@ == local_filename_spec(*m, *t),
{
    let mut out: String = sanitize_friendly_name(m.friendly_name.as_str());
    out.append("-");
    out.append(m.game_mode.as_str());
    out.append("-");
    let label: String = format_date_label(t);
    out.append(label.as_str());
    out.append(".replay");
    out
}

} // verus!

verus! {

/// The output of a local processing run: the assembled container, the
/// progress snapshots in the order they were reported, and the derived
/// file name.
#[derive(Debug)]
pub struct LocalOutput {
    pub replay: Vec<u8>,
    pub updates: Vec<Progress>,
    pub filename: String,
}

/// A count capped by a configured limit.
pub open spec fn capped(n: int, cap: usize) -> int {
    if n <= cap as int {
        n
    } else {
        cap as int
    }
}

/// The stream chunks of the first `i` sorted files, capped at `cap` files:
/// one data chunk per non-empty file, its timing looked up by the file's
/// 1-based position.
pub open spec fn stream_chunks_upto(
    files: Seq<(String, Vec<u8>)>,
    timing: Seq<TimingEntry>,
    cap: usize,
    i: int,
) -> Seq<ChunkV>
    decreases i,
{
    if i <= 0 {
        Seq::<ChunkV>::empty()
    } else {
        stream_chunks_upto(files, timing, cap, i - 1) + (if i - 1 < cap as int && i - 1
            < files.len() && files[i - 1].1@.len() > 0 {
            seq![
                ChunkV::Data {
                    data: files[i - 1].1@,
                    time1: timing_times(timing, i as usize).0,
                    time2: timing_times(timing, i as usize).1,
                    size_in_bytes: None,
                },
            ]
        } else {
            Seq::<ChunkV>::empty()
        })
    }
}

/// All the chunks of a local run, in the order the local pipeline emits
/// them: the header, the stream chunks by file order, the Pavlov events
/// (type 3), then the checkpoint events (type 2). (The online pipeline
/// orders the two event groups the other way around; each pipeline keeps
/// its own documented order.)
pub open spec fn local_chunks_spec(
    header: Seq<u8>,
    files: Seq<(String, Vec<u8>)>,
    timing: Seq<TimingEntry>,
    pav: Seq<Event>,
    chk: Seq<Event>,
    cfg: Config,
) -> Seq<ChunkV> {
    seq![ChunkV::Header { data: header }] + stream_chunks_upto(
        files,
        timing,
        cfg.data_count,
        files.len() as int,
    ) + event_chunks_upto(pav, cfg.event_count, EventKind::Pavlov, pav.len() as int)
        + event_chunks_upto(chk, cfg.checkpoint_count, EventKind::Checkpoint, chk.len() as int)
}

/// The container parts of a local run.
pub open spec fn local_parts_spec(
    record: Seq<u8>,
    header: Seq<u8>,
    files: Seq<(String, Vec<u8>)>,
    timing: Seq<TimingEntry>,
    pav: Seq<Event>,
    chk: Seq<Event>,
    cfg: Config,
) -> Seq<PartV> {
    seq![PartV::Meta(record)] + chunk_parts(
        local_chunks_spec(header, files, timing, pav, chk, cfg),
    )
}

/// The counter maxima of a local run, before any work.
pub open spec fn local_base(files_len: int, pav_len: int, chk_len: int, cfg: Config) -> Progress {
    Progress {
        header: ProgressUpdate { current: 0, max: 1 },
        data_chunks: ProgressUpdate { current: 0, max: capped(files_len, cfg.data_count) as usize },
        event_chunks: ProgressUpdate { current: 0, max: capped(pav_len, cfg.event_count) as usize },
        checkpoint_chunks: ProgressUpdate {
            current: 0,
            max: capped(chk_len, cfg.checkpoint_count) as usize,
        },
    }
}

/// One snapshot: the given currents over the maxima of the base.
pub open spec fn local_snap(base: Progress, h: usize, d: usize, e: usize, c: usize) -> Progress {
    Progress {
        header: ProgressUpdate { current: h, max: base.header.max },
        data_chunks: ProgressUpdate { current: d, max: base.data_chunks.max },
        event_chunks: ProgressUpdate { current: e, max: base.event_chunks.max },
        checkpoint_chunks: ProgressUpdate { current: c, max: base.checkpoint_chunks.max },
    }
}

/// The snapshots of the stream phase over the first `i` files: one after
/// each non-empty file, carrying that file's 1-based position.
pub open spec fn data_updates_upto(
    files: Seq<(String, Vec<u8>)>,
    base: Progress,
    cap: usize,
    i: int,
) -> Seq<Progress>
    decreases i,
{
    if i <= 0 {
        Seq::<Progress>::empty()
    } else {
        data_updates_upto(files, base, cap, i - 1) + (if i - 1 < cap as int && i - 1 < files.len()
            && files[i - 1].1@.len() > 0 {
            seq![local_snap(base, 1, i as usize, 0, 0)]
        } else {
            Seq::<Progress>::empty()
        })
    }
}

/// The data counter after the stream phase: the 1-based position of the
/// last non-empty file processed, or zero when none was.
pub open spec fn final_data_current(files: Seq<(String, Vec<u8>)>, cap: usize, upto: int) -> usize
    decreases upto,
{
    if upto <= 0 {
        0
    } else if upto - 1 < cap as int && upto - 1 < files.len() && files[upto - 1].1@.len() > 0 {
        upto as usize
    } else {
        final_data_current(files, cap, upto - 1)
    }
}

/// Every progress snapshot of a local run, in order: the initial counters,
/// the header done, one snapshot per non-empty stream file, one per Pavlov
/// event considered, one per checkpoint event considered.
pub open spec fn local_updates_spec(
    files: Seq<(String, Vec<u8>)>,
    pav_len: int,
    chk_len: int,
    cfg: Config,
) -> Seq<Progress> {
    let base = local_base(files.len() as int, pav_len, chk_len, cfg);
    let fdc = final_data_current(files, cfg.data_count, files.len() as int);
    let emax = capped(pav_len, cfg.event_count);
    seq![local_snap(base, 0, 0, 0, 0), local_snap(base, 1, 0, 0, 0)] + data_updates_upto(
        files,
        base,
        cfg.data_count,
        files.len() as int,
    ) + Seq::new(emax as nat, |k: int| local_snap(base, 1, fdc, (k + 1) as usize, 0)) + Seq::new(
        capped(chk_len, cfg.checkpoint_count) as nat,
        |k: int| local_snap(base, 1, fdc, emax as usize, (k + 1) as usize),
    )
}

proof fn lemma_stream_upto_stable(
    files: Seq<(String, Vec<u8>)>,
    timing: Seq<TimingEntry>,
    cap: usize,
    i: int,
)
    requires
        cap as int <= i,
    ensures
        stream_chunks_upto(files, timing, cap, i) == stream_chunks_upto(
            files,
            timing,
            cap,
            cap as int,
        ),
    decreases i,
{
    if i > cap as int {
        lemma_stream_upto_stable(files, timing, cap, i - 1);
        assert(stream_chunks_upto(files, timing, cap, i) =~= stream_chunks_upto(
            files,
            timing,
            cap,
            i - 1,
        ));
    }
}

proof fn lemma_data_updates_stable(
    files: Seq<(String, Vec<u8>)>,
    base: Progress,
    cap: usize,
    i: int,
)
    requires
        cap as int <= i,
    ensures
        data_updates_upto(files, base, cap, i) == data_updates_upto(files, base, cap, cap as int),
    decreases i,
{
    if i > cap as int {
        lemma_data_updates_stable(files, base, cap, i - 1);
        assert(data_updates_upto(files, base, cap, i) =~= data_updates_upto(
            files,
            base,
            cap,
            i - 1,
        ));
    }
}

proof fn lemma_fdc_stable(files: Seq<(String, Vec<u8>)>, cap: usize, i: int)
    requires
        cap as int <= i,
    ensures
        final_data_current(files, cap, i) == final_data_current(files, cap, cap as int),
    decreases i,
{
    if i > cap as int {
        lemma_fdc_stable(files, cap, i - 1);
    }
}

/// Appends one chunk, extending the ghost chunk list by its value.
fn push_chunk(chunks: &mut Vec<Chunk>, c: Chunk)
    ensures
        final(chunks).deep_view() == old(chunks).deep_view().push(c@),
{
    let ghost pre = chunks.deep_view();
    let ghost pre_elems = chunks@;
    chunks.push(c);
    proof {
        assert forall|j: int| 0 <= j < chunks@.len() implies chunks.deep_view()[j] == pre.push(
            c@,
        )[j] by {
            assert(chunks.deep_view()[j] == chunks@[j].deep_view());
            if j < chunks@.len() - 1 {
                assert(chunks@[j] == pre_elems[j]);
                assert(pre[j] == pre_elems[j].deep_view());
            }
        }
        assert(chunks.deep_view() =~= pre.push(c@));
    }
}

/// Appends a whole chunk list, extending the ghost chunk list by its
/// values.
fn append_chunks(chunks: &mut Vec<Chunk>, more: Vec<Chunk>)
    ensures
        final(chunks).deep_view() == old(chunks).deep_view() + more.deep_view(),
{
    let ghost pre = chunks.deep_view();
    let ghost pre_elems = chunks@;
    let ghost more_deep = more.deep_view();
    let ghost more_elems = more@;
    let mut m = more;
    chunks.append(&mut m);
    proof {
        assert forall|j: int| 0 <= j < chunks@.len() implies chunks.deep_view()[j] == (pre
            + more_deep)[j] by {
            assert(chunks.deep_view()[j] == chunks@[j].deep_view());
            if j < pre_elems.len() {
                assert(chunks@[j] == pre_elems[j]);
                assert(pre[j] == pre_elems[j].deep_view());
            } else {
                assert(chunks@[j] == more_elems[j - pre_elems.len()]);
                assert(more_deep[j - pre_elems.len()] == more_elems[j
                    - pre_elems.len()].deep_view());
            }
        }
        assert(chunks.deep_view() =~= pre + more_deep);
    }
}

/// Copies a byte buffer.
fn copy_bytes(v: &Vec<u8>) -> (r: Vec<u8>)
    ensures
        r@ == v@,
{
    let mut out: Vec<u8> = Vec::new();
    out.extend_from_slice(v.as_slice());
    out
}

} // verus!

verus! {

/// A stream file tagged with the sort key taken from its name.
pub open spec fn with_stream_key(f: (String, Vec<u8>)) -> (u64, (String, Vec<u8>)) {
    (stream_sort_key(f.0@), f)
}

/// The stream files, each tagged with its sort key.
pub open spec fn keyed_files(files: Seq<(String, Vec<u8>)>) -> Seq<(u64, (String, Vec<u8>))> {
    files.map_values(|f: (String, Vec<u8>)| with_stream_key(f))
}

/// The files of a tagged list, in its order.
pub open spec fn stripped(perm: Seq<(u64, (String, Vec<u8>))>) -> Seq<(String, Vec<u8>)> {
    perm.map_values(|p: (u64, (String, Vec<u8>))| p.1)
}

/// Processes a local chunk directory, given its parts as plain values: the
/// parsed metadata, the header bytes, the stream files (name and content),
/// the timing table, and the two event groups. The stream files are put in
/// the order of the numeric indexes in their names; every non-empty one
/// becomes a data chunk with its timing looked up by position; the Pavlov
/// events (type 3) follow, then the checkpoint events (type 2) — the local
/// pipeline's own order. A progress snapshot is recorded after every chunk
/// and every event considered. The assembled container and the derived
/// file name are returned together with the snapshots.
#[verifier::rlimit(100)]
pub fn process_local(
    meta: &MetaData,
    header_data: Vec<u8>,
    stream_files: Vec<(String, Vec<u8>)>,
    timing: &Vec<TimingEntry>,
    pavlov_events: &Vec<Event>,
    checkpoint_events: &Vec<Event>,
    config: &Config,
) -> (r: Result<LocalOutput, ReplayError>)
    ensures
        meta_ticks_spec(*meta) is None ==> r == Result::<LocalOutput, ReplayError>::Err(
            ReplayError::FormatError(FormatError::InvalidTimestamp),
        ),
        meta_ticks_spec(*meta) matches Some(t) ==> exists|perm: Seq<(u64, (String, Vec<u8>))>| {
            let files = stripped(perm);
            let parts = local_parts_spec(
                meta_record_bytes(*meta, t as i64),
                header_data@,
                files,
                timing@,
                pavlov_events@,
                checkpoint_events@,
                *config,
            );
            &&& #[trigger] sorted_by_key(perm)
            &&& perm.to_multiset() == keyed_files(stream_files@).to_multiset()
            &&& if parts_wf(parts) && container_bytes(parts).len() <= usize::MAX {
                r matches Ok(out) && {
                    &&& out.replay@ == container_bytes(parts)
                    &&& out.updates@ == local_updates_spec(
                        files,
                        pavlov_events@.len() as int,
                        checkpoint_events@.len() as int,
                        *config,
                    )
                    &&& created_time_spec(meta.created@) matches Some(ct) && out.filename@
                        == local_filename_spec(*meta, ct)
                }
            } else {
                r == Result::<LocalOutput, ReplayError>::Err(
                    ReplayError::FormatError(FormatError::PayloadTooLarge),
                )
            }
        },
{
    let created: CreatedTime = match parse_created(meta.created.as_str()) {
        Some(t) => t,
        None => {
            return Err(ReplayError::FormatError(FormatError::InvalidTimestamp));
        },
    };
    // tag every stream file with the sort key from its name, then restore
    // the deterministic order
    let ghost orig_files = stream_files@;
    let mut keyed: Vec<(u64, (String, Vec<u8>))> = Vec::new();
    let mut src = stream_files;
    while src.len() > 0
        invariant
            keyed@.len() + src@.len() == orig_files.len(),
            src@ =~= orig_files.skip(keyed@.len() as int),
            keyed@ =~= keyed_files(orig_files.take(keyed@.len() as int)),
        decreases src@.len(),
    {
        let ghost k = keyed@.len() as int;
        let f = src.remove(0);
        proof {
            assert(f == orig_files[k]);
            assert(src@ =~= orig_files.skip(k + 1));
        }
        let key: u64 = stream_file_key(f.0.as_str());
        keyed.push((key, f));
        proof {
            assert(orig_files.take(k + 1) =~= orig_files.take(k).push(orig_files[k]));
            assert(keyed_files(orig_files.take(k + 1)) =~= keyed_files(
                orig_files.take(k),
            ).push(with_stream_key(orig_files[k])));
            assert(keyed@ =~= keyed_files(orig_files.take(k + 1)));
        }
    }
    proof {
        assert(orig_files.take(orig_files.len() as int) =~= orig_files);
        assert(keyed@ =~= keyed_files(orig_files));
    }
    let sorted: Vec<(u64, (String, Vec<u8>))> = sort_by_key(keyed);
    let ghost perm = sorted@;
    let ghost files = stripped(perm);

    let n: usize = sorted.len();
    let plen: usize = pavlov_events.len();
    let clen: usize = checkpoint_events.len();
    let dmax: usize = if n < config.data_count {
        n
    } else {
        config.data_count
    };
    let emax: usize = if plen < config.event_count {
        plen
    } else {
        config.event_count
    };
    let cmax: usize = if clen < config.checkpoint_count {
        clen
    } else {
        config.checkpoint_count
    };
    let ghost base = local_base(files.len() as int, plen as int, clen as int, *config);
    proof {
        assert(files.len() == n);
        assert(base.data_chunks.max == dmax);
        assert(base.event_chunks.max == emax);
        assert(base.checkpoint_chunks.max == cmax);
    }
    let mut updates: Vec<Progress> = Vec::new();
    updates.push(
        Progress {
            header: ProgressUpdate { current: 0, max: 1 },
            data_chunks: ProgressUpdate { current: 0, max: dmax },
            event_chunks: ProgressUpdate { current: 0, max: emax },
            checkpoint_chunks: ProgressUpdate { current: 0, max: cmax },
        },
    );
    updates.push(
        Progress {
            header: ProgressUpdate { current: 1, max: 1 },
            data_chunks: ProgressUpdate { current: 0, max: dmax },
            event_chunks: ProgressUpdate { current: 0, max: emax },
            checkpoint_chunks: ProgressUpdate { current: 0, max: cmax },
        },
    );
    proof {
        assert(updates@ =~= seq![local_snap(base, 0, 0, 0, 0), local_snap(base, 1, 0, 0, 0)]);
    }

    let mut chunks: Vec<Chunk> = Vec::new();
    let ghost hv = header_data@;
    push_chunk(&mut chunks, Chunk::Header { data: header_data });
    proof {
        assert(chunks.deep_view() =~= seq![ChunkV::Header { data: hv }] + stream_chunks_upto(
            files,
            timing@,
            config.data_count,
            0,
        ));
    }

    let mut ld: usize = 0;
    let mut i: usize = 0;
    while i < n && i < config.data_count
        invariant
            i <= n,
            i <= config.data_count,
            n == sorted@.len(),
            sorted@ == perm,
            files == stripped(perm),
            files.len() == n,
            base == local_base(n as int, plen as int, clen as int, *config),
            dmax == base.data_chunks.max,
            emax == base.event_chunks.max,
            cmax == base.checkpoint_chunks.max,
            chunks.deep_view() =~= seq![ChunkV::Header { data: hv }] + stream_chunks_upto(
                files,
                timing@,
                config.data_count,
                i as int,
            ),
            updates@ =~= seq![local_snap(base, 0, 0, 0, 0), local_snap(base, 1, 0, 0, 0)]
                + data_updates_upto(files, base, config.data_count, i as int),
            ld == final_data_current(files, config.data_count, i as int),
        decreases n - i,
    {
        proof {
            assert(files[i as int] == perm[i as int].1);
        }
        let flen: usize = sorted[i].1.1.len();
        if flen > 0 {
            let data: Vec<u8> = copy_bytes(&sorted[i].1.1);
            let timing_pair: (i32, i32) = lookup_timing(timing, i + 1);
            let c = Chunk::Data {
                data,
                time1: timing_pair.0,
                time2: timing_pair.1,
                size_in_bytes: None,
            };
            proof {
                assert(c@ == (ChunkV::Data {
                    data: files[i as int].1@,
                    time1: timing_times(timing@, (i + 1) as usize).0,
                    time2: timing_times(timing@, (i + 1) as usize).1,
                    size_in_bytes: None,
                }));
            }
            push_chunk(&mut chunks, c);
            ld = i + 1;
            updates.push(
                Progress {
                    header: ProgressUpdate { current: 1, max: 1 },
                    data_chunks: ProgressUpdate { current: ld, max: dmax },
                    event_chunks: ProgressUpdate { current: 0, max: emax },
                    checkpoint_chunks: ProgressUpdate { current: 0, max: cmax },
                },
            );
        }
        proof {
            assert(chunks.deep_view() =~= seq![ChunkV::Header { data: hv }] + stream_chunks_upto(
                files,
                timing@,
                config.data_count,
                i + 1 as int,
            ));
            assert(updates@ =~= seq![local_snap(base, 0, 0, 0, 0), local_snap(base, 1, 0, 0, 0)]
                + data_updates_upto(files, base, config.data_count, i + 1 as int));
            assert(ld == final_data_current(files, config.data_count, i + 1 as int));
        }
        i = i + 1;
    }
    proof {
        if i < n {
            lemma_stream_upto_stable(files, timing@, config.data_count, n as int);
            lemma_data_updates_stable(files, base, config.data_count, n as int);
            lemma_fdc_stable(files, config.data_count, n as int);
        }
        assert(chunks.deep_view() =~= seq![ChunkV::Header { data: hv }] + stream_chunks_upto(
            files,
            timing@,
            config.data_count,
            n as int,
        ));
        assert(updates@ =~= seq![local_snap(base, 0, 0, 0, 0), local_snap(base, 1, 0, 0, 0)]
            + data_updates_upto(files, base, config.data_count, n as int));
        assert(ld == final_data_current(files, config.data_count, n as int));
    }
    let ghost fdc = ld;
    let ghost updates_prefix = updates@;

    // the Pavlov events (type 3) come before the checkpoint events (type
    // 2): the local pipeline's own order
    let pav_chunks: Vec<Chunk> = event_chunks(pavlov_events, config.event_count, EventKind::Pavlov);
    append_chunks(&mut chunks, pav_chunks);
    let chk_chunks: Vec<Chunk> = event_chunks(
        checkpoint_events,
        config.checkpoint_count,
        EventKind::Checkpoint,
    );
    append_chunks(&mut chunks, chk_chunks);
    proof {
        assert(chunks.deep_view() =~= local_chunks_spec(
            hv,
            files,
            timing@,
            pavlov_events@,
            checkpoint_events@,
            *config,
        ));
    }

    let mut k: usize = 0;
    while k < emax
        invariant
            k <= emax,
            ld == fdc,
            base.header.max == 1,
            dmax == base.data_chunks.max,
            emax == base.event_chunks.max,
            cmax == base.checkpoint_chunks.max,
            updates@ =~= updates_prefix + Seq::new(
                k as nat,
                |j: int| local_snap(base, 1, fdc, (j + 1) as usize, 0),
            ),
        decreases emax - k,
    {
        let snap = Progress {
            header: ProgressUpdate { current: 1, max: 1 },
            data_chunks: ProgressUpdate { current: ld, max: dmax },
            event_chunks: ProgressUpdate { current: k + 1, max: emax },
            checkpoint_chunks: ProgressUpdate { current: 0, max: cmax },
        };
        updates.push(snap);
        proof {
            assert(snap == local_snap(base, 1, fdc, (k + 1) as usize, 0));
            assert(Seq::new((k + 1) as nat, |j: int| local_snap(base, 1, fdc, (j + 1) as usize, 0))
                =~= Seq::new(k as nat, |j: int| local_snap(base, 1, fdc, (j + 1) as usize, 0)).push(
                local_snap(base, 1, fdc, (k + 1) as usize, 0),
            ));
            assert(updates@ =~= updates_prefix + Seq::new(
                (k + 1) as nat,
                |j: int| local_snap(base, 1, fdc, (j + 1) as usize, 0),
            ));
        }
        k = k + 1;
    }
    let ghost updates_prefix2 = updates@;
    let mut k2: usize = 0;
    while k2 < cmax
        invariant
            k2 <= cmax,
            ld == fdc,
            base.header.max == 1,
            dmax == base.data_chunks.max,
            emax == base.event_chunks.max,
            cmax == base.checkpoint_chunks.max,
            updates@ =~= updates_prefix2 + Seq::new(
                k2 as nat,
                |j: int| local_snap(base, 1, fdc, emax as usize, (j + 1) as usize),
            ),
        decreases cmax - k2,
    {
        let snap2 = Progress {
            header: ProgressUpdate { current: 1, max: 1 },
            data_chunks: ProgressUpdate { current: ld, max: dmax },
            event_chunks: ProgressUpdate { current: emax, max: emax },
            checkpoint_chunks: ProgressUpdate { current: k2 + 1, max: cmax },
        };
        updates.push(snap2);
        proof {
            assert(snap2 == local_snap(base, 1, fdc, emax as usize, (k2 + 1) as usize));
            assert(Seq::new(
                (k2 + 1) as nat,
                |j: int| local_snap(base, 1, fdc, emax as usize, (j + 1) as usize),
            ) =~= Seq::new(
                k2 as nat,
                |j: int| local_snap(base, 1, fdc, emax as usize, (j + 1) as usize),
            ).push(local_snap(base, 1, fdc, emax as usize, (k2 + 1) as usize)));
            assert(updates@ =~= updates_prefix2 + Seq::new(
                (k2 + 1) as nat,
                |j: int| local_snap(base, 1, fdc, emax as usize, (j + 1) as usize),
            ));
        }
        k2 = k2 + 1;
    }
    proof {
        assert(updates@ =~= local_updates_spec(
            files,
            pavlov_events@.len() as int,
            checkpoint_events@.len() as int,
            *config,
        ));
    }

    let ghost chunks_v = chunks.deep_view();
    let replay: Vec<u8> = match assemble_replay(meta, chunks) {
        Ok(v) => v,
        Err(e) => {
            proof {
                assert(sorted_by_key(perm));
            }
            return Err(e);
        },
    };
    let filename: String = local_filename(meta, &created);
    proof {
        assert(sorted_by_key(perm));
    }
    Ok(LocalOutput { replay, updates, filename })
}

} // verus!

verus! {

/// The canonical chunk order of the online pipeline: the header chunk, the
/// stream chunks exactly as ordered by the caller (ascending by original
/// index once sorted), the checkpoint-group events (type 2), then the
/// Pavlov-group events (type 3).
pub fn online_chunk_list(
    header_data: Vec<u8>,
    stream_chunks: Vec<Chunk>,
    checkpoint_events: &Vec<Event>,
    pavlov_events: &Vec<Event>,
) -> (r: Vec<Chunk>)
    ensures
        r.deep_view() == seq![ChunkV::Header { data: header_data@ }] + stream_chunks.deep_view()
            + event_chunks_upto(
            checkpoint_events@,
            usize::MAX,
            EventKind::Checkpoint,
            checkpoint_events@.len() as int,
        ) + event_chunks_upto(
            pavlov_events@,
            usize::MAX,
            EventKind::Pavlov,
            pavlov_events@.len() as int,
        ),
{
    let ghost hv = header_data@;
    let ghost sv = stream_chunks.deep_view();
    let mut chunks: Vec<Chunk> = Vec::new();
    push_chunk(&mut chunks, Chunk::Header { data: header_data });
    proof {
        assert(chunks.deep_view() =~= seq![ChunkV::Header { data: hv }]);
    }
    append_chunks(&mut chunks, stream_chunks);
    let checkpoint_chunks: Vec<Chunk> = event_chunks(
        checkpoint_events,
        usize::MAX,
        EventKind::Checkpoint,
    );
    append_chunks(&mut chunks, checkpoint_chunks);
    let pavlov_chunks: Vec<Chunk> = event_chunks(pavlov_events, usize::MAX, EventKind::Pavlov);
    append_chunks(&mut chunks, pavlov_chunks);
    proof {
        assert(chunks.deep_view() =~= seq![ChunkV::Header { data: hv }] + sv + event_chunks_upto(
            checkpoint_events@,
            usize::MAX,
            EventKind::Checkpoint,
            checkpoint_events@.len() as int,
        ) + event_chunks_upto(
            pavlov_events@,
            usize::MAX,
            EventKind::Pavlov,
            pavlov_events@.len() as int,
        ));
    }
    chunks
}

} // verus!
