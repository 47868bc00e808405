//! The typed chunks of the replay container and their binary encodings.
//! Every chunk is framed by an 8-byte header of chunk type and body length;
//! the body layout depends on the kind. A chunk with an unknown type value
//! is skipped rather than aborting the assembly: the assembler never
//! produces one itself but must not fail when fed one.

use vstd::prelude::*;
use vstd::bytes::{spec_u32_to_le_bytes, u32_to_le_bytes};
use vstd::string::*;
use vstd::utf8::encode_utf8;

use crate::errors::ReplayError;
use crate::nums::{enc_i32, i32_to_le_vec, u32_of_i32};

verus! {

/// One typed unit of replay payload.
///
/// - `Header` (type 0): the raw header bytes, verbatim.
/// - `Data` (type 1): a stream chunk with its two timing fields; the size
///   field defaults to the data length when absent.
/// - `Checkpoint` (type 2) and `Event` (type 3): an event with identifier,
///   group and optional metadata text (missing metadata is stored as the
///   empty string).
/// - `Unknown`: a type value the assembler does not know; it encodes to
///   nothing.
#[derive(Debug, Clone)]
pub enum Chunk {
    Header { data: Vec<u8> },
    Data { data: Vec<u8>, time1: i32, time2: i32, size_in_bytes: Option<i32> },
    Checkpoint {
        data: Vec<u8>,
        id: String,
        group: String,
        metadata: Option<String>,
        time1: i32,
        time2: i32,
    },
    Event {
        data: Vec<u8>,
        id: String,
        group: String,
        metadata: Option<String>,
        time1: i32,
        time2: i32,
    },
    Unknown { chunk_type: u32, data: Vec<u8> },
}

/// The mathematical value of a chunk: the same shape over sequences.
pub enum ChunkV {
    Header { data: Seq<u8> },
    Data { data: Seq<u8>, time1: i32, time2: i32, size_in_bytes: Option<i32> },
    Checkpoint {
        data: Seq<u8>,
        id: Seq<char>,
        group: Seq<char>,
        metadata: Option<Seq<char>>,
        time1: i32,
        time2: i32,
    },
    Event {
        data: Seq<u8>,
        id: Seq<char>,
        group: Seq<char>,
        metadata: Option<Seq<char>>,
        time1: i32,
        time2: i32,
    },
    Unknown { chunk_type: u32, data: Seq<u8> },
}

impl View for Chunk {
    type V = ChunkV;

    open spec fn view(&self) -> ChunkV {
        match self {
            Chunk::Header { data } => ChunkV::Header { data: data@ },
            Chunk::Data { data, time1, time2, size_in_bytes } => ChunkV::Data {
                data: data@,
                time1: *time1,
                time2: *time2,
                size_in_bytes: *size_in_bytes,
            },
            Chunk::Checkpoint { data, id, group, metadata, time1, time2 } => ChunkV::Checkpoint {
                data: data@,
                id: id@,
                group: group@,
                metadata: match metadata {
                    Some(m) => Some(m@),
                    None => None,
                },
                time1: *time1,
                time2: *time2,
            },
            Chunk::Event { data, id, group, metadata, time1, time2 } => ChunkV::Event {
                data: data@,
                id: id@,
                group: group@,
                metadata: match metadata {
                    Some(m) => Some(m@),
                    None => None,
                },
                time1: *time1,
                time2: *time2,
            },
            Chunk::Unknown { chunk_type, data } => ChunkV::Unknown {
                chunk_type: *chunk_type,
                data: data@,
            },
        }
    }
}

impl DeepView for Chunk {
    type V = ChunkV;

    open spec fn deep_view(&self) -> ChunkV {
        self.view()
    }
}

/// A part of the final container: the pre-encoded metadata record, or one
/// chunk.
#[derive(Debug, Clone)]
pub enum ReplayPart {
    Meta(Vec<u8>),
    Chunk(Chunk),
}

/// The mathematical value of a container part.
pub enum PartV {
    Meta(Seq<u8>),
    Chunk(ChunkV),
}

impl View for ReplayPart {
    type V = PartV;

    open spec fn view(&self) -> PartV {
        match self {
            ReplayPart::Meta(d) => PartV::Meta(d@),
            ReplayPart::Chunk(c) => PartV::Chunk(c@),
        }
    }
}

impl DeepView for ReplayPart {
    type V = PartV;

    open spec fn deep_view(&self) -> PartV {
        self.view()
    }
}

/// The numeric chunk type stored in the chunk header.
pub open spec fn chunk_type_value(c: ChunkV) -> u32 {
    match c {
        ChunkV::Header { .. } => 0,
        ChunkV::Data { .. } => 1,
        ChunkV::Checkpoint { .. } => 2,
        ChunkV::Event { .. } => 3,
        ChunkV::Unknown { chunk_type, .. } => chunk_type,
    }
}

/// The text of an optional string field, defaulting to empty.
pub open spec fn opt_text(m: Option<Seq<char>>) -> Seq<char> {
    match m {
        Some(s) => s,
        None => Seq::<char>::empty(),
    }
}

/// A non-negative length laid out as four little-endian bytes.
pub open spec fn enc_len32(n: int) -> Seq<u8> {
    spec_u32_to_le_bytes(n as u32)
}

/// A string buffer: a 32-bit byte length counting a trailing NUL, the
/// UTF-8 bytes of the string, and one NUL byte. (Distinct from the UTF-16LE
/// layout of the metadata record's friendly-name block; each encoding has
/// its own reader downstream.)
pub open spec fn string_buffer_spec(s: Seq<char>) -> Seq<u8> {
    enc_len32(encode_utf8(s).len() + 1 as int) + encode_utf8(s) + seq![0u8]
}

/// The body of a checkpoint or event chunk: three string buffers for id,
/// group and metadata, the two timing fields, the data length, and the raw
/// data.
pub open spec fn event_body_bytes(
    data: Seq<u8>,
    id: Seq<char>,
    group: Seq<char>,
    metadata: Seq<char>,
    time1: i32,
    time2: i32,
) -> Seq<u8> {
    string_buffer_spec(id) + string_buffer_spec(group) + string_buffer_spec(metadata) + enc_i32(
        time1,
    ) + enc_i32(time2) + enc_len32(data.len() as int) + data
}

/// The body bytes of a chunk, before the 8-byte chunk header.
pub open spec fn chunk_body_bytes(c: ChunkV) -> Seq<u8> {
    match c {
        ChunkV::Header { data } => data,
        ChunkV::Data { data, time1, time2, size_in_bytes } => enc_i32(time1) + enc_i32(time2)
            + enc_len32(data.len() as int) + (match size_in_bytes {
            Some(sz) => enc_i32(sz),
            None => enc_len32(data.len() as int),
        }) + data,
        ChunkV::Checkpoint { data, id, group, metadata, time1, time2 } => event_body_bytes(
            data,
            id,
            group,
            opt_text(metadata),
            time1,
            time2,
        ),
        ChunkV::Event { data, id, group, metadata, time1, time2 } => event_body_bytes(
            data,
            id,
            group,
            opt_text(metadata),
            time1,
            time2,
        ),
        ChunkV::Unknown { .. } => Seq::<u8>::empty(),
    }
}

/// The chunk's body must fit the signed 32-bit length field of the chunk
/// header; larger payloads must be rejected or split by the caller.
pub open spec fn chunk_wf(c: ChunkV) -> bool {
    chunk_body_bytes(c).len() <= 0x7fffffff
}

/// The full encoding of one chunk: the 8-byte header (type, body length)
/// followed by the body; a chunk of unknown type encodes to nothing.
pub open spec fn chunk_bytes(c: ChunkV) -> Seq<u8> {
    match c {
        ChunkV::Unknown { .. } => Seq::<u8>::empty(),
        _ => spec_u32_to_le_bytes(chunk_type_value(c)) + enc_len32(chunk_body_bytes(c).len() as int)
            + chunk_body_bytes(c),
    }
}

/// The encoding of one container part.
pub open spec fn part_bytes(p: PartV) -> Seq<u8> {
    match p {
        PartV::Meta(d) => d,
        PartV::Chunk(c) => chunk_bytes(c),
    }
}

/// Every chunk among the parts fits its length field.
pub open spec fn parts_wf(parts: Seq<PartV>) -> bool {
    forall|i: int|
        0 <= i < parts.len() ==> (#[trigger] parts[i] matches PartV::Chunk(c) ==> chunk_wf(c))
}

/// The final container: the encodings of the parts, concatenated in list
/// order. The assembler never reorders.
pub open spec fn container_bytes(parts: Seq<PartV>) -> Seq<u8>
    decreases parts.len(),
{
    if parts.len() == 0 {
        Seq::<u8>::empty()
    } else {
        container_bytes(parts.drop_last()) + part_bytes(parts.last())
    }
}

/// A string buffer takes five bytes more than the UTF-8 text it holds.
pub proof fn lemma_string_buffer_len(s: Seq<char>)
    ensures
        string_buffer_spec(s).len() == 5 + encode_utf8(s).len(),
{
    vstd::bytes::lemma_auto_spec_u32_to_from_le_bytes();
}

/// The body lengths of the chunk kinds: a header chunk's body is its data;
/// a data chunk adds a 16-byte prefix; a checkpoint or event chunk adds
/// three string buffers and a 12-byte block.
pub proof fn lemma_chunk_body_len(c: ChunkV)
    ensures
        c matches ChunkV::Header { data } ==> chunk_body_bytes(c).len() == data.len(),
        c matches ChunkV::Data { data, .. } ==> chunk_body_bytes(c).len() == 16 + data.len(),
        c matches ChunkV::Checkpoint { data, id, group, metadata, .. } ==> chunk_body_bytes(c).len()
            == (4 + encode_utf8(id).len() + 1) + (4 + encode_utf8(group).len() + 1) + (4
            + encode_utf8(opt_text(metadata)).len() + 1) + 12 + data.len(),
        c matches ChunkV::Event { data, id, group, metadata, .. } ==> chunk_body_bytes(c).len() == (
        4 + encode_utf8(id).len() + 1) + (4 + encode_utf8(group).len() + 1) + (4 + encode_utf8(
            opt_text(metadata),
        ).len() + 1) + 12 + data.len(),
        c matches ChunkV::Unknown { .. } ==> chunk_body_bytes(c).len() == 0,
{
    broadcast use crate::nums::lemma_enc_i32_len;

    vstd::bytes::lemma_auto_spec_u32_to_from_le_bytes();
    match c {
        ChunkV::Checkpoint { data, id, group, metadata, .. } => {
            lemma_string_buffer_len(id);
            lemma_string_buffer_len(group);
            lemma_string_buffer_len(opt_text(metadata));
        },
        ChunkV::Event { data, id, group, metadata, .. } => {
            lemma_string_buffer_len(id);
            lemma_string_buffer_len(group);
            lemma_string_buffer_len(opt_text(metadata));
        },
        _ => {},
    }
}

/// The length of one encoded chunk: 8 bytes of header plus the body, or
/// nothing for an unknown type.
pub proof fn lemma_chunk_bytes_len(c: ChunkV)
    ensures
        !(c matches ChunkV::Unknown { .. }) ==> chunk_bytes(c).len() == 8 + chunk_body_bytes(
            c,
        ).len(),
        c matches ChunkV::Unknown { .. } ==> chunk_bytes(c).len() == 0,
{
    vstd::bytes::lemma_auto_spec_u32_to_from_le_bytes();
}

/// Encodes a chunk string field as a string buffer.
pub fn write_string_buffer(s: &str) -> (r: Vec<u8>)
    requires
        encode_utf8(s@).len() + 1 <= 0x7fffffff,
    ensures
        r@ == string_buffer_spec(s@),
{
    let len: usize = s.len();
    let mut out: Vec<u8> = u32_to_le_bytes((len + 1) as u32);
    out.extend_from_slice(s.as_bytes());
    out.push(0u8);
    proof {
        assert(out@ =~= string_buffer_spec(s@));
    }
    out
}

/// Builds the body of a checkpoint or event chunk.
fn event_like_body(
    data: &Vec<u8>,
    id: &String,
    group: &String,
    metadata: &Option<String>,
    time1: i32,
    time2: i32,
) -> (r: Vec<u8>)
    requires
        event_body_bytes(
            data@,
            id@,
            group@,
            opt_text(
                match *metadata {
                    Some(m) => Some(m@),
                    None => None,
                },
            ),
            time1,
            time2,
        ).len() <= 0x7fffffff,
    ensures
        r@ == event_body_bytes(
            data@,
            id@,
            group@,
            opt_text(
                match *metadata {
                    Some(m) => Some(m@),
                    None => None,
                },
            ),
            time1,
            time2,
        ),
{
    let ghost meta_text = opt_text(
        match metadata {
            Some(m) => Some(m@),
            None => None,
        },
    );
    proof {
        broadcast use crate::nums::lemma_enc_i32_len;

        vstd::bytes::lemma_auto_spec_u32_to_from_le_bytes();
        lemma_string_buffer_len(id@);
        lemma_string_buffer_len(group@);
        lemma_string_buffer_len(meta_text);
    }
    let mut out: Vec<u8> = write_string_buffer(id.as_str());
    let mut gb: Vec<u8> = write_string_buffer(group.as_str());
    out.append(&mut gb);
    let mut mb: Vec<u8> = match metadata {
        Some(m) => write_string_buffer(m.as_str()),
        None => {
            proof {
                reveal_strlit("");
                assert(""@ =~= meta_text);
            }
            write_string_buffer("")
        },
    };
    out.append(&mut mb);
    let mut t1: Vec<u8> = i32_to_le_vec(time1);
    out.append(&mut t1);
    let mut t2: Vec<u8> = i32_to_le_vec(time2);
    out.append(&mut t2);
    let dl: usize = data.len();
    let mut dlb: Vec<u8> = u32_to_le_bytes(dl as u32);
    out.append(&mut dlb);
    out.extend_from_slice(data.as_slice());
    proof {
        assert(out@ =~= event_body_bytes(data@, id@, group@, meta_text, time1, time2));
    }
    out
}

/// Encodes one chunk: the 8-byte header of type and body length, then the
/// body. A chunk of unknown type yields no bytes.
pub fn chunk_to_bytes(c: &Chunk) -> (r: Vec<u8>)
    requires
        chunk_wf(c@),
    ensures
        r@ == chunk_bytes(c@),
{
    proof {
        broadcast use crate::nums::lemma_enc_i32_len;

        vstd::bytes::lemma_auto_spec_u32_to_from_le_bytes();
        lemma_chunk_body_len(c@);
    }
    let type_code: u32 = match c {
        Chunk::Header { .. } => 0,
        Chunk::Data { .. } => 1,
        Chunk::Checkpoint { .. } => 2,
        Chunk::Event { .. } => 3,
        Chunk::Unknown { chunk_type, .. } => *chunk_type,
    };
    let mut body: Vec<u8> = match c {
        Chunk::Header { data } => {
            let mut b: Vec<u8> = Vec::new();
            b.extend_from_slice(data.as_slice());
            b
        },
        Chunk::Data { data, time1, time2, size_in_bytes } => {
            let mut b: Vec<u8> = i32_to_le_vec(*time1);
            let mut t2: Vec<u8> = i32_to_le_vec(*time2);
            b.append(&mut t2);
            let dl: usize = data.len();
            let mut dlb: Vec<u8> = u32_to_le_bytes(dl as u32);
            b.append(&mut dlb);
            let sz: i32 = match size_in_bytes {
                Some(s) => *s,
                None => dl as i32,
            };
            let mut szb: Vec<u8> = i32_to_le_vec(sz);
            b.append(&mut szb);
            b.extend_from_slice(data.as_slice());
            proof {
                if (*size_in_bytes) is None {
                    assert(u32_of_i32(dl as i32) == dl as u32);
                    assert(enc_i32(dl as i32) == enc_len32(data@.len() as int));
                }
            }
            b
        },
        Chunk::Checkpoint { data, id, group, metadata, time1, time2 } => event_like_body(
            data,
            id,
            group,
            metadata,
            *time1,
            *time2,
        ),
        Chunk::Event { data, id, group, metadata, time1, time2 } => event_like_body(
            data,
            id,
            group,
            metadata,
            *time1,
            *time2,
        ),
        Chunk::Unknown { .. } => {
            return Vec::new();
        },
    };
    let mut out: Vec<u8> = u32_to_le_bytes(type_code);
    let bl: usize = body.len();
    let mut blb: Vec<u8> = u32_to_le_bytes(bl as u32);
    out.append(&mut blb);
    out.append(&mut body);
    proof {
        assert(out@ =~= chunk_bytes(c@));
    }
    out
}

/// The length of the encoding of a prefix of the parts never exceeds the
/// length of the whole container.
pub proof fn lemma_container_prefix_len(parts: Seq<PartV>, i: int)
    requires
        0 <= i <= parts.len(),
    ensures
        container_bytes(parts.take(i)).len() <= container_bytes(parts).len(),
    decreases parts.len() - i,
{
    if i == parts.len() {
        assert(parts.take(i) =~= parts);
    } else {
        lemma_container_prefix_len(parts, i + 1);
        assert(parts.take(i + 1).drop_last() =~= parts.take(i));
        assert(parts.take(i + 1).last() == parts[i]);
    }
}

/// One more part appends its encoding.
pub proof fn lemma_container_step(parts: Seq<PartV>, i: int)
    requires
        0 <= i < parts.len(),
    ensures
        container_bytes(parts.take(i + 1)) == container_bytes(parts.take(i)) + part_bytes(
            parts[i],
        ),
{
    assert(parts.take(i + 1).drop_last() =~= parts.take(i));
    assert(parts.take(i + 1).last() == parts[i]);
}

/// The total output size of the parts, pre-computed so the assembler can
/// size its output buffer once. The same pass checks the structural
/// preconditions of the assembly: nothing is returned when a chunk body
/// does not fit its signed 32-bit length field, or when the whole
/// container does not fit the address space.
#[verifier::rlimit(50)]
pub fn container_size_checked(parts: &Vec<ReplayPart>) -> (r: Option<usize>)
    ensures
        r matches Some(n) ==> {
            &&& parts_wf(parts.deep_view())
            &&& n == container_bytes(parts.deep_view()).len()
        },
        r is None ==> !(parts_wf(parts.deep_view()) && container_bytes(parts.deep_view()).len()
            <= usize::MAX),
{
    let ghost pv = parts.deep_view();
    let mut total: u128 = 0;
    let n: usize = parts.len();
    let mut i: usize = 0;
    proof {
        assert(pv.len() == parts@.len());
        assert(pv.take(0) =~= Seq::<PartV>::empty());
    }
    while i < n
        invariant
            i <= n,
            n == parts@.len(),
            pv == parts.deep_view(),
            pv.len() == n,
            parts_wf(pv.take(i as int)),
            total == container_bytes(pv.take(i as int)).len(),
            total <= usize::MAX,
        decreases n - i,
    {
        proof {
            assert(pv[i as int] == parts@[i as int]@);
            lemma_container_step(pv, i as int);
            match pv[i as int] {
                PartV::Chunk(c) => {
                    lemma_chunk_body_len(c);
                    lemma_chunk_bytes_len(c);
                },
                PartV::Meta(_) => {},
            }
        }
        let part_len: u128 = match &parts[i] {
            ReplayPart::Meta(d) => d.len() as u128,
            ReplayPart::Chunk(c) => {
                let body_len: u128 = match c {
                    Chunk::Header { data } => data.len() as u128,
                    Chunk::Data { data, .. } => 16 + data.len() as u128,
                    Chunk::Checkpoint { data, id, group, metadata, .. } => {
                        let meta_len: usize = match metadata {
                            Some(m) => m.as_str().as_bytes().len(),
                            None => 0,
                        };
                        (4 + id.as_str().as_bytes().len() as u128 + 1) + (4 + group.as_str().as_bytes().len() as u128
                            + 1) + (4 + meta_len as u128 + 1) + 12 + data.len() as u128
                    },
                    Chunk::Event { data, id, group, metadata, .. } => {
                        let meta_len: usize = match metadata {
                            Some(m) => m.as_str().as_bytes().len(),
                            None => 0,
                        };
                        (4 + id.as_str().as_bytes().len() as u128 + 1) + (4 + group.as_str().as_bytes().len() as u128
                            + 1) + (4 + meta_len as u128 + 1) + 12 + data.len() as u128
                    },
                    Chunk::Unknown { .. } => 0,
                };
                let is_unknown: bool = match c {
                    Chunk::Unknown { .. } => true,
                    _ => false,
                };
                if !is_unknown && body_len > 0x7fffffff {
                    proof {
                        assert(!chunk_wf(pv[i as int]->Chunk_0));
                        assert(!parts_wf(pv));
                    }
                    return None;
                }
                proof {
                    assert(pv[i as int] == PartV::Chunk(c@));
                    match pv[i as int] {
                        PartV::Chunk(cv) => {
                            assert(cv == c@);
                            match cv {
                                ChunkV::Header { data } => {
                                    assert(chunk_body_bytes(cv).len() == data.len());
                                    assert(body_len == data.len());
                                },
                                ChunkV::Data { data, .. } => {
                                    assert(chunk_body_bytes(cv).len() == 16 + data.len());
                                    assert(body_len == 16 + data.len());
                                },
                                ChunkV::Checkpoint { data, id, group, metadata, .. } => {
                                    assert(chunk_body_bytes(cv).len() == (4 + encode_utf8(
                                        id,
                                    ).len() + 1) + (4 + encode_utf8(group).len() + 1) + (4
                                        + encode_utf8(opt_text(metadata)).len() + 1) + 12
                                        + data.len());
                                    assert(body_len == chunk_body_bytes(cv).len());
                                },
                                ChunkV::Event { data, id, group, metadata, .. } => {
                                    assert(body_len == chunk_body_bytes(cv).len());
                                },
                                ChunkV::Unknown { .. } => {
                                    assert(chunk_body_bytes(cv).len() == 0);
                                },
                            }
                            assert(chunk_wf(cv));
                        },
                        PartV::Meta(_) => {},
                    }
                }
                if is_unknown {
                    0
                } else {
                    8 + body_len
                }
            },
        };
        total = total + part_len;
        if total > usize::MAX as u128 {
            proof {
                lemma_container_prefix_len(pv, i + 1 as int);
            }
            return None;
        }
        proof {
            assert forall|j: int|
                0 <= j < i + 1 implies (#[trigger] pv.take(i + 1 as int)[j] matches PartV::Chunk(c)
                ==> chunk_wf(c)) by {
                assert(pv.take(i + 1 as int)[j] == pv[j]);
                if j < i {
                    assert(pv.take(i as int)[j] == pv[j]);
                }
            }
            assert(parts_wf(pv.take(i + 1 as int)));
        }
        i = i + 1;
    }
    proof {
        assert(pv.take(n as int) =~= pv);
    }
    Some(total as usize)
}

/// Assembles the final container: the encodings of the parts, concatenated
/// in list order into a buffer sized once up front. The assembly itself
/// cannot fail; a chunk of unknown type contributes nothing.
pub fn build_replay(parts: &Vec<ReplayPart>) -> (r: Result<Vec<u8>, ReplayError>)
    requires
        parts_wf(parts.deep_view()),
        container_bytes(parts.deep_view()).len() <= usize::MAX,
    ensures
        r matches Ok(v) && v@ == container_bytes(parts.deep_view()),
{
    let ghost pv = parts.deep_view();
    let total: usize = match container_size_checked(parts) {
        Some(t) => t,
        None => {
            proof {
                assert(false);
            }
            0
        },
    };
    let mut out: Vec<u8> = Vec::with_capacity(total);
    let n: usize = parts.len();
    let mut i: usize = 0;
    proof {
        assert(pv.len() == parts@.len());
        assert(pv.take(0) =~= Seq::<PartV>::empty());
    }
    while i < n
        invariant
            i <= n,
            n == parts@.len(),
            pv == parts.deep_view(),
            pv.len() == n,
            parts_wf(pv),
            out@ == container_bytes(pv.take(i as int)),
        decreases n - i,
    {
        proof {
            assert(pv[i as int] == parts@[i as int]@);
            lemma_container_step(pv, i as int);
        }
        match &parts[i] {
            ReplayPart::Meta(d) => {
                out.extend_from_slice(d.as_slice());
            },
            ReplayPart::Chunk(c) => {
                let mut cb: Vec<u8> = chunk_to_bytes(c);
                out.append(&mut cb);
            },
        }
        i = i + 1;
    }
    proof {
        assert(pv.take(n as int) =~= pv);
    }
    Ok(out)
}

} // verus!
