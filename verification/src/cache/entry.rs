//! Cache entries: the builder that is stored, the handle that a lookup gives
//! back, and the outcome of a lookup.

use vstd::prelude::*;
use vstd::bytes::*;
use vstd::slice::*;
use vstd::utf8::*;
use crate::cache::archive::{
    distinct_names, encode_archive, encode_block, encode_stream, encode_streams, has_name,
    lemma_encode_prefix_len, lemma_encode_streams_push, lemma_round_trip, parse_archive,
    parse_block, parse_streams, parse_u64, well_formed, Streams, MAGIC,
};
use crate::errors::CodecError;

verus! {

/// The error of `String::from_utf8`; nothing is read from it.
#[verifier::external_type_specification]
#[verifier::external_body]
pub struct ExFromUtf8Error(std::string::FromUtf8Error);

/// `String::from_utf8` accepts exactly the vectors that hold UTF-8, and the
/// string it makes has the vector's bytes.
pub assume_specification[ String::from_utf8 ](vec: Vec<u8>) -> (r: Result<
    String,
    std::string::FromUtf8Error,
>)
    ensures
        r is Ok <==> valid_utf8(vec@),
        r matches Ok(s) ==> encode_utf8(s@) == vec@,
;

/// One named stream of a bundle.
#[derive(Debug)]
struct Stream {
    name: String,
    data: Vec<u8>,
}

/// The streams of a vector as the contracts see them.
spec fn streams_view(streams: Seq<Stream>) -> Streams {
    Seq::new(streams.len(), |i: int| (streams[i].name@, streams[i].data@))
}

/// The place of the stream called `name`, if there is one.
fn position(streams: &Vec<Stream>, name: &String) -> (found: Option<usize>)
    ensures
        match found {
            Some(i) => i < streams.len() && streams[i as int].name@ == name@,
            None => !has_name(streams_view(streams@), name@),
        },
{
    let mut i: usize = 0;
    while i < streams.len()
        invariant
            i <= streams.len(),
            forall|j: int| 0 <= j < i ==> (#[trigger] streams_view(streams@)[j]).0 != name@,
        decreases streams.len() - i,
    {
        if streams[i].name == *name {
            return Some(i);
        }
        i += 1;
    }
    None
}

/// The number at `pos`, and the place behind it.
fn read_u64(bytes: &[u8], pos: usize) -> (r: Option<(u64, usize)>)
    requires
        pos <= bytes@.len(),
    ensures
        match r {
            Some((x, next)) => pos <= next <= bytes@.len() && parse_u64(bytes@.skip(pos as int))
                == Some((x, bytes@.skip(next as int))),
            None => parse_u64(bytes@.skip(pos as int)) is None,
        },
{
    if bytes.len() - pos < 8 {
        return None;
    }
    let x = u64_from_le_bytes(slice_subrange(bytes, pos, pos + 8));
    proof {
        let rest = bytes@.skip(pos as int);
        assert(rest.take(8) =~= bytes@.subrange(pos as int, pos + 8));
        assert(rest.skip(8) =~= bytes@.skip(pos + 8));
    }
    Some((x, pos + 8))
}

/// The block at `pos`, and the place behind it.
fn read_block(bytes: &[u8], pos: usize) -> (r: Option<(Vec<u8>, usize)>)
    requires
        pos <= bytes@.len(),
    ensures
        match r {
            Some((block, next)) => pos <= next <= bytes@.len() && parse_block(
                bytes@.skip(pos as int),
            ) == Some((block@, bytes@.skip(next as int))),
            None => parse_block(bytes@.skip(pos as int)) is None,
        },
{
    match read_u64(bytes, pos) {
        None => None,
        Some((len, start)) => {
            if len > (bytes.len() - start) as u64 {
                return None;
            }
            let end: usize = start + len as usize;
            let block = slice_to_vec(slice_subrange(bytes, start, end));
            proof {
                let rest = bytes@.skip(start as int);
                assert(rest.take(len as int) =~= bytes@.subrange(start as int, end as int));
                assert(rest.skip(len as int) =~= bytes@.skip(end as int));
            }
            Some((block, end))
        },
    }
}

/// Appends `block` behind its length.
fn write_block(out: &mut Vec<u8>, block: &[u8])
    ensures
        final(out)@ == old(out)@ + encode_block(block@),
{
    let len = u64_to_le_bytes(block.len() as u64);
    out.extend_from_slice(len.as_slice());
    out.extend_from_slice(block);
    assert(out@ =~= old(out)@ + encode_block(block@));
}

/// The write form of a cache entry: a bundle that gathers named streams and
/// is then turned into one archive.
#[derive(Debug)]
pub struct CacheWrite {
    streams: Vec<Stream>,
}

impl View for CacheWrite {
    type V = Streams;

    closed spec fn view(&self) -> Streams {
        streams_view(self.streams@)
    }
}

impl CacheWrite {
    #[verifier::type_invariant]
    spec fn names_differ(self) -> bool {
        distinct_names(self@)
    }

    /// A bundle without streams.
    pub fn new() -> (entry: CacheWrite)
        ensures
            entry@ == Seq::<(Seq<char>, Seq<u8>)>::empty(),
    {
        let entry = CacheWrite { streams: Vec::new() };
        assert(entry@ =~= Seq::<(Seq<char>, Seq<u8>)>::empty());
        entry
    }

    /// Adds the stream `name` with the bytes `data` behind the streams that
    /// are there. A name can be used once: a second stream of the same name is
    /// refused and the bundle stays as it was.
    pub fn add_stream(&mut self, name: &str, data: Vec<u8>) -> (r: Result<(), CodecError>)
        ensures
            has_name(old(self)@, name@) ==> r == Err::<(), CodecError>(CodecError::DuplicateName)
                && final(self)@ == old(self)@,
            !has_name(old(self)@, name@) ==> r is Ok && final(self)@ == old(self)@.push(
                (name@, data@),
            ),
    {
        proof {
            use_type_invariant(&*self);
        }
        let name = name.to_owned();
        match position(&self.streams, &name) {
            Some(i) => {
                assert(self@[i as int].0 == name@);
                Err(CodecError::DuplicateName)
            },
            None => {
                let ghost before = self@;
                let ghost added = (name@, data@);
                let mut streams: Vec<Stream> = Vec::new();
                std::mem::swap(&mut streams, &mut self.streams);
                streams.push(Stream { name, data });
                proof {
                    let after = streams_view(streams@);
                    assert(after =~= before.push(added));
                    assert forall|i: int, j: int| 0 <= i < j < after.len() implies (
                    #[trigger] after[i]).0 != (#[trigger] after[j]).0 by {
                        assert(after[i] == before[i]);
                        if j < before.len() {
                            assert(after[j] == before[j]);
                        }
                    }
                }
                self.streams = streams;
                Ok(())
            },
        }
    }

    /// Turns the bundle into its archive, which reads back as the same
    /// streams. The one bundle that has none is a bundle whose archive would
    /// be longer than a buffer can be.
    pub fn finish(self) -> (r: Result<Vec<u8>, CodecError>)
        ensures
            match r {
                Ok(bytes) => {
                    &&& bytes@ == encode_archive(self@)
                    &&& bytes@.len() <= isize::MAX
                    &&& well_formed(self@)
                    &&& parse_archive(bytes@) == Ok::<Streams, CodecError>(self@)
                },
                Err(e) => e == CodecError::TooLarge && encode_archive(self@).len() > isize::MAX,
            },
    {
        proof {
            use_type_invariant(&self);
        }
        let limit: usize = isize::MAX as usize;
        let mut out: Vec<u8> = u64_to_le_bytes(MAGIC);
        let count = u64_to_le_bytes(self.streams.len() as u64);
        out.extend_from_slice(count.as_slice());
        let ghost header = out@;
        let ghost all = self@;
        assert(all.take(0) =~= Seq::<(Seq<char>, Seq<u8>)>::empty());
        assert(out@ =~= header + encode_streams(all.take(0)));
        let mut i: usize = 0;
        while i < self.streams.len()
            invariant
                i <= self.streams.len(),
                all == self@,
                all.len() == self.streams.len(),
                limit == isize::MAX,
                header == spec_u64_to_le_bytes(MAGIC) + spec_u64_to_le_bytes(all.len() as u64),
                out@ == header + encode_streams(all.take(i as int)),
                out@.len() <= limit,
                forall|j: int|
                    0 <= j < i ==> {
                        &&& encode_utf8((#[trigger] all[j]).0).len() <= u64::MAX
                        &&& all[j].1.len() <= u64::MAX
                    },
            decreases self.streams.len() - i,
        {
            let stream = &self.streams[i];
            let name = stream.name.as_str().as_bytes();
            let room: usize = limit - out.len();
            proof {
                assert(all[i as int] == (stream.name@, stream.data@));
                assert(all.take(i + 1) =~= all.take(i as int).push(all[i as int]));
                lemma_encode_streams_push(all.take(i as int), stream.name@, stream.data@);
                lemma_encode_prefix_len(all, i + 1);
                assert(encode_stream(stream.name@, stream.data@).len() == 16 + name@.len()
                    + stream.data@.len()) by {
                    lemma_auto_spec_u64_to_from_le_bytes();
                }
            }
            if room < 16 || room - 16 < name.len() || room - 16 - name.len() < stream.data.len() {
                return Err(CodecError::TooLarge);
            }
            write_block(&mut out, name);
            write_block(&mut out, stream.data.as_slice());
            assert(out@ =~= header + encode_streams(all.take(i + 1)));
            i += 1;
        }
        proof {
            assert(all.take(i as int) =~= all);
            lemma_round_trip(all);
        }
        Ok(out)
    }
}

/// The read form of a cache entry: the streams that an archive holds.
#[derive(Debug)]
pub struct CacheRead {
    streams: Vec<Stream>,
}

impl View for CacheRead {
    type V = Streams;

    closed spec fn view(&self) -> Streams {
        streams_view(self.streams@)
    }
}

impl CacheRead {
    #[verifier::type_invariant]
    spec fn names_differ(self) -> bool {
        distinct_names(self@)
    }

    /// Reads an archive. The streams come out as the archive holds them; bytes
    /// that are no archive are refused with the first fault found in them.
    pub fn from(bytes: Vec<u8>) -> (r: Result<CacheRead, CodecError>)
        ensures
            match r {
                Ok(entry) => parse_archive(bytes@) == Ok::<Streams, CodecError>(entry@),
                Err(e) => parse_archive(bytes@) == Err::<Streams, CodecError>(e),
            },
    {
        let buf = bytes.as_slice();
        assert(buf@.skip(0) =~= buf@);
        let (tag, pos) = match read_u64(buf, 0) {
            Some(found) => found,
            None => {
                return Err(CodecError::Truncated);
            },
        };
        if tag != MAGIC {
            return Err(CodecError::BadMagic);
        }
        let (count, body) = match read_u64(buf, pos) {
            Some(found) => found,
            None => {
                return Err(CodecError::Truncated);
            },
        };
        let mut streams: Vec<Stream> = Vec::new();
        let mut left: u64 = count;
        let mut pos: usize = body;
        assert(streams_view(streams@) =~= Seq::<(Seq<char>, Seq<u8>)>::empty());
        while left > 0
            invariant
                pos <= buf@.len(),
                distinct_names(streams_view(streams@)),
                parse_streams(buf@.skip(pos as int), left as nat, streams_view(streams@))
                    == parse_archive(bytes@),
            decreases left,
        {
            let (raw, next) = match read_block(buf, pos) {
                Some(found) => found,
                None => {
                    return Err(CodecError::Truncated);
                },
            };
            let ghost raw_name = raw@;
            let name = match String::from_utf8(raw) {
                Ok(name) => name,
                Err(_) => {
                    return Err(CodecError::InvalidName);
                },
            };
            proof {
                encode_utf8_decode_utf8(name@);
                assert(name@ == decode_utf8(raw_name));
            }
            if let Some(i) = position(&streams, &name) {
                assert(streams_view(streams@)[i as int].0 == name@);
                return Err(CodecError::DuplicateName);
            }
            let (data, next) = match read_block(buf, next) {
                Some(found) => found,
                None => {
                    return Err(CodecError::Truncated);
                },
            };
            let ghost before = streams_view(streams@);
            let ghost added = (name@, data@);
            streams.push(Stream { name, data });
            proof {
                let after = streams_view(streams@);
                assert(after =~= before.push(added));
                assert forall|i: int, j: int| 0 <= i < j < after.len() implies (
                #[trigger] after[i]).0 != (#[trigger] after[j]).0 by {
                    assert(after[i] == before[i]);
                    if j < before.len() {
                        assert(after[j] == before[j]);
                    }
                }
            }
            pos = next;
            left -= 1;
        }
        if pos != buf.len() {
            return Err(CodecError::TrailingBytes);
        }
        Ok(CacheRead { streams })
    }

    /// The bytes of the stream called `name`. No two streams of an entry have
    /// the same name, so there is one such stream or none.
    pub fn get_stream(&self, name: &str) -> (r: Result<Vec<u8>, CodecError>)
        ensures
            distinct_names(self@),
            match r {
                Ok(data) => exists|i: int|
                    0 <= i < self@.len() && (#[trigger] self@[i]) == (name@, data@),
                Err(e) => e == CodecError::NoSuchStream && !has_name(self@, name@),
            },
    {
        proof {
            use_type_invariant(self);
        }
        let name = name.to_owned();
        match position(&self.streams, &name) {
            Some(i) => {
                let data = self.streams[i].data.clone();
                assert(self@[i as int] == (name@, data@));
                Ok(data)
            },
            None => Err(CodecError::NoSuchStream),
        }
    }

    /// The names of the streams, in the order of the archive.
    pub fn stream_names(&self) -> (names: Vec<String>)
        ensures
            names@.len() == self@.len(),
            forall|i: int| 0 <= i < self@.len() ==> (#[trigger] names@[i])@ == self@[i].0,
    {
        let mut names: Vec<String> = Vec::new();
        let mut i: usize = 0;
        while i < self.streams.len()
            invariant
                i <= self.streams.len(),
                names@.len() == i,
                forall|j: int| 0 <= j < i ==> (#[trigger] names@[j])@ == self@[j].0,
            decreases self.streams.len() - i,
        {
            names.push(self.streams[i].name.clone());
            i += 1;
        }
        names
    }
}

/// The outcome of a lookup. A miss is no error: it is the answer that nothing
/// is stored under the key.
#[derive(Debug)]
pub enum Cache {
    /// An entry is stored under the key.
    Hit(CacheRead),
    /// Nothing is stored under the key.
    Miss,
}

impl View for Cache {
    type V = Option<Streams>;

    open spec fn view(&self) -> Option<Streams> {
        match self {
            Cache::Hit(entry) => Some(entry@),
            Cache::Miss => None,
        }
    }
}

} // verus!
