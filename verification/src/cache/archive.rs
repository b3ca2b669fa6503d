//! The archive format of a cache entry.
//!
//! An archive is a tag, the number of streams, and the streams in order. Every
//! number is eight bytes, little-endian. A stream is the length of its name,
//! the name in UTF-8, the length of its data, and the data.

use vstd::prelude::*;
use vstd::bytes::*;
use vstd::utf8::*;
use crate::errors::CodecError;

verus! {

/// The streams of a bundle, in order: each a name and its bytes.
pub type Streams = Seq<(Seq<char>, Seq<u8>)>;

/// The tag of an archive: its first eight bytes, `SCCACHE1`, read as a
/// little-endian number.
pub const MAGIC: u64 = 0x3145_4843_4143_4353;

/// Whether a stream of `streams` is called `name`.
pub open spec fn has_name(streams: Streams, name: Seq<char>) -> bool {
    exists|i: int| 0 <= i < streams.len() && (#[trigger] streams[i]).0 == name
}

/// No two streams share a name.
pub open spec fn distinct_names(streams: Streams) -> bool {
    forall|i: int, j: int|
        0 <= i < j < streams.len() ==> (#[trigger] streams[i]).0 != (#[trigger] streams[j]).0
}

/// Every length of the bundle fits the eight bytes that the format gives it.
pub open spec fn representable(streams: Streams) -> bool {
    &&& streams.len() <= u64::MAX
    &&& forall|i: int|
        0 <= i < streams.len() ==> {
            &&& encode_utf8((#[trigger] streams[i]).0).len() <= u64::MAX
            &&& streams[i].1.len() <= u64::MAX
        }
}

/// A bundle that has an archive: distinct names, lengths that fit.
pub open spec fn well_formed(streams: Streams) -> bool {
    distinct_names(streams) && representable(streams)
}

/// Bytes behind their length.
pub open spec fn encode_block(bytes: Seq<u8>) -> Seq<u8> {
    spec_u64_to_le_bytes(bytes.len() as u64) + bytes
}

/// One stream: its name, then its data, each behind its length.
pub open spec fn encode_stream(name: Seq<char>, data: Seq<u8>) -> Seq<u8> {
    encode_block(encode_utf8(name)) + encode_block(data)
}

/// The streams one after another.
pub open spec fn encode_streams(streams: Streams) -> Seq<u8>
    decreases streams.len(),
{
    if streams.len() == 0 {
        Seq::empty()
    } else {
        encode_stream(streams[0].0, streams[0].1) + encode_streams(streams.skip(1))
    }
}

/// The archive of a bundle.
pub open spec fn encode_archive(streams: Streams) -> Seq<u8> {
    spec_u64_to_le_bytes(MAGIC) + spec_u64_to_le_bytes(streams.len() as u64) + encode_streams(
        streams,
    )
}

/// The number at the front of `bytes` and what follows it.
pub open spec fn parse_u64(bytes: Seq<u8>) -> Option<(u64, Seq<u8>)> {
    if bytes.len() < 8 {
        None
    } else {
        Some((spec_u64_from_le_bytes(bytes.take(8)), bytes.skip(8)))
    }
}

/// The block at the front of `bytes` and what follows it.
pub open spec fn parse_block(bytes: Seq<u8>) -> Option<(Seq<u8>, Seq<u8>)> {
    match parse_u64(bytes) {
        None => None,
        Some((len, rest)) => if rest.len() < len {
            None
        } else {
            Some((rest.take(len as int), rest.skip(len as int)))
        },
    }
}

/// Reads `count` streams from `bytes` behind the streams `seen` so far. The
/// first fault found, front to back, decides the error.
pub open spec fn parse_streams(bytes: Seq<u8>, count: nat, seen: Streams) -> Result<
    Streams,
    CodecError,
>
    decreases count,
{
    if count == 0 {
        if bytes.len() == 0 {
            Ok(seen)
        } else {
            Err(CodecError::TrailingBytes)
        }
    } else {
        match parse_block(bytes) {
            None => Err(CodecError::Truncated),
            Some((name, rest)) => if !valid_utf8(name) {
                Err(CodecError::InvalidName)
            } else if has_name(seen, decode_utf8(name)) {
                Err(CodecError::DuplicateName)
            } else {
                match parse_block(rest) {
                    None => Err(CodecError::Truncated),
                    Some((data, rest)) => parse_streams(
                        rest,
                        (count - 1) as nat,
                        seen.push((decode_utf8(name), data)),
                    ),
                }
            },
        }
    }
}

/// The bundle that `bytes` is the archive of, or why it is none.
pub open spec fn parse_archive(bytes: Seq<u8>) -> Result<Streams, CodecError> {
    match parse_u64(bytes) {
        None => Err(CodecError::Truncated),
        Some((tag, rest)) => if tag != MAGIC {
            Err(CodecError::BadMagic)
        } else {
            match parse_u64(rest) {
                None => Err(CodecError::Truncated),
                Some((count, body)) => parse_streams(body, count as nat, Seq::empty()),
            }
        },
    }
}

/// A number that was written is read back, and the rest is left.
proof fn lemma_parse_u64_encoded(x: u64, rest: Seq<u8>)
    ensures
        parse_u64(spec_u64_to_le_bytes(x) + rest) == Some((x, rest)),
{
    lemma_auto_spec_u64_to_from_le_bytes();
    let bytes = spec_u64_to_le_bytes(x) + rest;
    assert(bytes.take(8) =~= spec_u64_to_le_bytes(x));
    assert(bytes.skip(8) =~= rest);
}

/// A block that was written is read back, and the rest is left.
proof fn lemma_parse_block_encoded(block: Seq<u8>, rest: Seq<u8>)
    requires
        block.len() <= u64::MAX,
    ensures
        parse_block(encode_block(block) + rest) == Some((block, rest)),
{
    let len = block.len() as u64;
    let tail = block + rest;
    assert(encode_block(block) + rest =~= spec_u64_to_le_bytes(len) + tail);
    lemma_parse_u64_encoded(len, tail);
    assert(tail.take(len as int) =~= block);
    assert(tail.skip(len as int) =~= rest);
}

/// What is read in front of a number is that number's eight bytes.
proof fn lemma_parse_u64_canonical(bytes: Seq<u8>)
    requires
        parse_u64(bytes) is Some,
    ensures
        bytes == spec_u64_to_le_bytes(parse_u64(bytes).unwrap().0) + parse_u64(bytes).unwrap().1,
{
    lemma_auto_spec_u64_to_from_le_bytes();
    let head = bytes.take(8);
    assert(spec_u64_to_le_bytes(spec_u64_from_le_bytes(head)) == head);
    assert(bytes =~= head + bytes.skip(8));
}

/// What is read as a block is that block's encoding.
proof fn lemma_parse_block_canonical(bytes: Seq<u8>)
    requires
        parse_block(bytes) is Some,
    ensures
        parse_block(bytes).unwrap().0.len() <= u64::MAX,
        bytes == encode_block(parse_block(bytes).unwrap().0) + parse_block(bytes).unwrap().1,
{
    lemma_parse_u64_canonical(bytes);
    let (len, rest) = parse_u64(bytes).unwrap();
    let block = rest.take(len as int);
    assert(block.len() == len);
    assert(rest =~= block + rest.skip(len as int));
    assert(bytes =~= encode_block(block) + rest.skip(len as int));
}

/// Adding a stream to a bundle appends that stream's bytes.
pub proof fn lemma_encode_streams_push(streams: Streams, name: Seq<char>, data: Seq<u8>)
    ensures
        encode_streams(streams.push((name, data))) == encode_streams(streams) + encode_stream(
            name,
            data,
        ),
    decreases streams.len(),
{
    let longer = streams.push((name, data));
    if streams.len() == 0 {
        assert(longer.skip(1) =~= Seq::<(Seq<char>, Seq<u8>)>::empty());
        assert(encode_streams(longer.skip(1)) =~= Seq::<u8>::empty());
        assert(encode_streams(longer) =~= encode_stream(name, data));
        assert(encode_streams(streams) + encode_stream(name, data) =~= encode_stream(name, data));
    } else {
        lemma_encode_streams_push(streams.skip(1), name, data);
        assert(longer.skip(1) =~= streams.skip(1).push((name, data)));
        assert(encode_streams(longer) =~= encode_streams(streams) + encode_stream(name, data));
    }
}

/// The bytes of the first `n` streams are no longer than the bytes of all.
pub proof fn lemma_encode_prefix_len(streams: Streams, n: int)
    requires
        0 <= n <= streams.len(),
    ensures
        encode_streams(streams.take(n)).len() <= encode_streams(streams).len(),
    decreases streams.len() - n,
{
    if n == streams.len() {
        assert(streams.take(n) =~= streams);
    } else {
        lemma_encode_prefix_len(streams, n + 1);
        assert(streams.take(n + 1) =~= streams.take(n).push(streams[n]));
        lemma_encode_streams_push(streams.take(n), streams[n].0, streams[n].1);
    }
}

/// Streams that were written are read back behind the streams seen so far.
proof fn lemma_parse_streams_encoded(streams: Streams, seen: Streams)
    requires
        representable(streams),
        distinct_names(seen + streams),
    ensures
        parse_streams(encode_streams(streams), streams.len(), seen) == Ok::<Streams, CodecError>(
            seen + streams,
        ),
    decreases streams.len(),
{
    if streams.len() == 0 {
        assert(seen + streams =~= seen);
    } else {
        let name = streams[0].0;
        let data = streams[0].1;
        let tail = streams.skip(1);
        let name_bytes = encode_utf8(name);
        let after_name = encode_block(data) + encode_streams(tail);
        assert(encode_streams(streams) =~= encode_block(name_bytes) + after_name);
        lemma_parse_block_encoded(name_bytes, after_name);
        lemma_parse_block_encoded(data, encode_streams(tail));
        encode_utf8_valid_utf8(name);
        encode_utf8_decode_utf8(name);
        let all = seen + streams;
        assert(!has_name(seen, name)) by {
            if has_name(seen, name) {
                let i = choose|i: int| 0 <= i < seen.len() && (#[trigger] seen[i]).0 == name;
                assert(all[i] == seen[i]);
                assert(all[seen.len() as int] == streams[0]);
            }
        }
        let next = seen.push((name, data));
        assert(next + tail =~= all);
        assert(representable(tail)) by {
            assert forall|i: int| 0 <= i < tail.len() implies {
                &&& encode_utf8((#[trigger] tail[i]).0).len() <= u64::MAX
                &&& tail[i].1.len() <= u64::MAX
            } by {
                assert(tail[i] == streams[i + 1]);
            }
        }
        lemma_parse_streams_encoded(tail, next);
    }
}

/// The archive of a bundle reads back as that bundle: the same streams in the
/// same order, each with its name and its bytes.
pub proof fn lemma_round_trip(streams: Streams)
    requires
        well_formed(streams),
    ensures
        parse_archive(encode_archive(streams)) == Ok::<Streams, CodecError>(streams),
{
    let count = streams.len() as u64;
    let body = encode_streams(streams);
    let after_tag = spec_u64_to_le_bytes(count) + body;
    assert(encode_archive(streams) =~= spec_u64_to_le_bytes(MAGIC) + after_tag);
    lemma_parse_u64_encoded(MAGIC, after_tag);
    lemma_parse_u64_encoded(count, body);
    let none = Seq::<(Seq<char>, Seq<u8>)>::empty();
    assert(none + streams =~= streams);
    lemma_parse_streams_encoded(streams, none);
}

/// What `parse_streams` accepts is `seen` followed by the streams whose bytes
/// it was given, and no name of those is in `seen` or occurs twice.
proof fn lemma_parse_streams_canonical(bytes: Seq<u8>, count: nat, seen: Streams)
    requires
        parse_streams(bytes, count, seen) is Ok,
        distinct_names(seen),
        count <= u64::MAX,
    ensures
        ({
            let all = parse_streams(bytes, count, seen)->Ok_0;
            &&& all.len() == seen.len() + count
            &&& all.take(seen.len() as int) == seen
            &&& encode_streams(all.skip(seen.len() as int)) == bytes
            &&& representable(all.skip(seen.len() as int))
            &&& distinct_names(all)
        }),
    decreases count,
{
    let all = parse_streams(bytes, count, seen)->Ok_0;
    if count == 0 {
        assert(all.take(seen.len() as int) =~= seen);
        assert(all.skip(seen.len() as int) =~= Seq::<(Seq<char>, Seq<u8>)>::empty());
        assert(encode_streams(all.skip(seen.len() as int)) =~= bytes);
    } else {
        lemma_parse_block_canonical(bytes);
        let (name_bytes, rest) = parse_block(bytes).unwrap();
        lemma_parse_block_canonical(rest);
        let (data, rest2) = parse_block(rest).unwrap();
        let name = decode_utf8(name_bytes);
        decode_utf8_encode_utf8(name_bytes);
        let next = seen.push((name, data));
        assert(distinct_names(next)) by {
            assert forall|i: int, j: int| 0 <= i < j < next.len() implies (#[trigger] next[i]).0 != (
            #[trigger] next[j]).0 by {
                if j == seen.len() {
                    assert(next[i] == seen[i]);
                } else {
                    assert(next[i] == seen[i]);
                    assert(next[j] == seen[j]);
                }
            }
        }
        lemma_parse_streams_canonical(rest2, (count - 1) as nat, next);
        let n = seen.len() as int;
        let added = all.skip(n);
        let later = all.skip(n + 1);
        assert(all.take(n + 1) == next);
        assert(all.take(n) =~= seen) by {
            assert forall|i: int| 0 <= i < n implies all.take(n)[i] == seen[i] by {
                assert(all.take(n + 1)[i] == next[i]);
            }
        }
        assert(all[n] == (name, data)) by {
            assert(all.take(n + 1)[n] == next[n]);
        }
        assert(added[0] == (name, data));
        assert(added.skip(1) =~= later);
        assert(encode_streams(added) =~= bytes);
        assert(representable(added)) by {
            assert forall|i: int| 0 <= i < added.len() implies {
                &&& encode_utf8((#[trigger] added[i]).0).len() <= u64::MAX
                &&& added[i].1.len() <= u64::MAX
            } by {
                if i > 0 {
                    assert(added[i] == later[i - 1]);
                }
            }
        }
    }
}

/// Bytes that are an archive are the archive of exactly the bundle they read
/// as, and that bundle is well formed.
pub proof fn lemma_archive_is_canonical(bytes: Seq<u8>)
    requires
        parse_archive(bytes) is Ok,
    ensures
        well_formed(parse_archive(bytes)->Ok_0),
        encode_archive(parse_archive(bytes)->Ok_0) == bytes,
{
    lemma_parse_u64_canonical(bytes);
    let (tag, rest) = parse_u64(bytes).unwrap();
    lemma_parse_u64_canonical(rest);
    let (count, body) = parse_u64(rest).unwrap();
    let none = Seq::<(Seq<char>, Seq<u8>)>::empty();
    lemma_parse_streams_canonical(body, count as nat, none);
    let all = parse_archive(bytes)->Ok_0;
    assert(all.skip(0) =~= all);
    assert(encode_archive(all) =~= bytes);
}

} // verus!
