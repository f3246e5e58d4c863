//! The length-framed stream of consensus updates.
//!
//! A stream is a run of records, each made of an eight-byte little-endian size,
//! a four-byte fork digest and an encoded update; the size counts the digest
//! and the update. Decoding an update is left to the caller's decoder, which
//! also names the least length an encoded update can have.

use crate::period::{calc_sync_period, sync_period};
use vstd::bytes::{
    lemma_auto_spec_u64_to_from_le_bytes, spec_u64_from_le_bytes, spec_u64_to_le_bytes,
    u64_from_le_bytes,
};
use vstd::prelude::*;
use vstd::slice::slice_subrange;

verus! {

/// Length of the size field of a record.
pub const U64_LEN: usize = 8;

/// Length of the fork digest of a record.
pub const FORK_DIGEST_LEN: usize = 4;

/// Tag of the fork that an update belongs to. It is not interpreted here.
pub type ForkDigest = [u8; 4];

/// A decoded consensus update: the slot of its attested header, which is all
/// that the selection of updates reads, and the body that the decoder built.
#[derive(Debug)]
pub struct Update<B> {
    pub attested_slot: u64,
    pub body: B,
}

/// One record of a stream.
#[derive(Debug)]
pub struct UpdateItem<B> {
    pub size: u64,
    pub fork_digest: ForkDigest,
    pub update: Update<B>,
}

/// The records of a stream, in stream order.
#[derive(Debug)]
pub struct UpdateResponse<B> {
    pub updates: Vec<UpdateItem<B>>,
}

/// Why a stream could not be read.
#[derive(Debug)]
pub enum TypesError<E> {
    /// Fewer bytes are present than the structure needs.
    UnderLength { minimum: u128, actual: usize, structure: String },
    /// The decoder rejected the update of a well-framed record.
    Decode(E),
}

/// A record as the framing sees it: the update is still encoded.
pub ghost struct Frame {
    pub size: u64,
    pub fork_digest: Seq<u8>,
    pub payload: Seq<u8>,
}

/// The two byte counts of an under-length report.
pub ghost struct Shortfall {
    pub minimum: nat,
    pub actual: nat,
}

/// What stands at the head of the unread part of a stream.
pub ghost enum Head {
    /// Nothing is left to read.
    End,
    /// What is left cannot hold the record it announces.
    Short(Shortfall),
    /// A whole record.
    Record(Frame),
}

/// Reads the head of `rest`, the part of a stream that starts `offset` bytes
/// into it. `base_len` is the least length of an encoded update.
pub open spec fn head(rest: Seq<u8>, offset: nat, base_len: nat) -> Head {
    if rest.len() == 0 {
        Head::End
    } else if rest.len() < 8 {
        Head::Short(Shortfall { minimum: 8 + 4 + base_len, actual: rest.len() })
    } else {
        let size = spec_u64_from_le_bytes(rest.subrange(0, 8));
        if 8 + size > rest.len() {
            Head::Short(
                Shortfall { minimum: (offset + 8 + size) as nat, actual: offset + rest.len() },
            )
        } else if size < 4 {
            Head::Short(Shortfall { minimum: 4 + base_len, actual: size as nat })
        } else {
            Head::Record(
                Frame {
                    size,
                    fork_digest: rest.subrange(8, 12),
                    payload: rest.subrange(12, 8 + size),
                },
            )
        }
    }
}

/// The well-framed records at the front of a stream, and the shortfall that
/// ends them if the stream does not end with a record.
pub ghost struct Framing {
    pub frames: Seq<Frame>,
    pub fault: Option<Shortfall>,
}

/// Frames `rest`, the part of a stream that starts `offset` bytes into it.
pub open spec fn framing(rest: Seq<u8>, offset: nat, base_len: nat) -> Framing
    decreases rest.len(),
{
    match head(rest, offset, base_len) {
        Head::End => Framing { frames: Seq::empty(), fault: None },
        Head::Short(shortfall) => Framing { frames: Seq::empty(), fault: Some(shortfall) },
        Head::Record(frame) => {
            let tail = framing(
                rest.skip(8 + frame.size),
                (offset + 8 + frame.size) as nat,
                base_len,
            );
            Framing { frames: seq![frame] + tail.frames, fault: tail.fault }
        },
    }
}

/// Tells whether the size of `frame` counts its digest and its payload, and
/// its digest has four bytes.
pub open spec fn well_formed(frame: Frame) -> bool {
    &&& frame.fork_digest.len() == 4
    &&& frame.size == 4 + frame.payload.len()
}

/// The bytes of one record: size, digest, payload.
pub open spec fn encode_frame(frame: Frame) -> Seq<u8> {
    spec_u64_to_le_bytes(frame.size) + frame.fork_digest + frame.payload
}

/// The bytes of a stream: its records one after the other.
pub open spec fn encode_stream(frames: Seq<Frame>) -> Seq<u8>
    decreases frames.len(),
{
    if frames.len() == 0 {
        Seq::empty()
    } else {
        encode_frame(frames[0]) + encode_stream(frames.skip(1))
    }
}

/// A well-formed record at the head of a stream is read back as it was
/// written, and what follows it is the rest of the stream.
proof fn lemma_head_of_record(frame: Frame, tail: Seq<u8>, offset: nat, base_len: nat)
    requires
        well_formed(frame),
    ensures
        encode_frame(frame).len() == 8 + frame.size,
        head(encode_frame(frame) + tail, offset, base_len) == Head::Record(frame),
        (encode_frame(frame) + tail).skip(8 + frame.size) == tail,
{
    lemma_auto_spec_u64_to_from_le_bytes();
    let record = encode_frame(frame);
    let rest = record + tail;
    assert(rest.subrange(0, 8) == spec_u64_to_le_bytes(frame.size));
    assert(rest.subrange(8, 12) == frame.fork_digest);
    assert(rest.subrange(12, 8 + frame.size) == frame.payload);
    assert(rest.skip(8 + frame.size) == tail);
}

/// A stream is at least as long as its last record.
proof fn lemma_stream_holds_last(frames: Seq<Frame>)
    requires
        frames.len() > 0,
        forall|i: int| 0 <= i < frames.len() ==> well_formed(#[trigger] frames[i]),
    ensures
        encode_stream(frames).len() >= 8 + frames.last().size,
    decreases frames.len(),
{
    lemma_head_of_record(frames[0], Seq::empty(), 0, 0);
    if frames.len() > 1 {
        let rest = frames.skip(1);
        assert(rest.last() == frames.last());
        assert forall|i: int| 0 <= i < rest.len() implies well_formed(#[trigger] rest[i]) by {
            assert(rest[i] == frames[i + 1]);
        }
        lemma_stream_holds_last(rest);
    }
}

/// Reading back what was written: the framing of the encoding of well-formed
/// records is those records, in their order, and it ends without a shortfall.
pub proof fn lemma_framing_of_encoding(frames: Seq<Frame>, offset: nat, base_len: nat)
    requires
        forall|i: int| 0 <= i < frames.len() ==> well_formed(#[trigger] frames[i]),
    ensures
        framing(encode_stream(frames), offset, base_len) == (Framing { frames, fault: None }),
    decreases frames.len(),
{
    if frames.len() > 0 {
        let first = frames[0];
        let rest = frames.skip(1);
        assert forall|i: int| 0 <= i < rest.len() implies well_formed(#[trigger] rest[i]) by {
            assert(rest[i] == frames[i + 1]);
        }
        lemma_head_of_record(first, encode_stream(rest), offset, base_len);
        lemma_framing_of_encoding(rest, (offset + 8 + first.size) as nat, base_len);
        assert(seq![first] + rest == frames);
    } else {
        assert(frames == Seq::<Frame>::empty());
    }
}

/// Cutting a stream short: when the encoding of well-formed records loses a
/// tail of at least one byte and of fewer bytes than its last record has, the
/// framing of what is left reads the records before the last and ends in a
/// shortfall.
pub proof fn lemma_framing_of_truncation(
    frames: Seq<Frame>,
    cut: nat,
    offset: nat,
    base_len: nat,
)
    requires
        frames.len() > 0,
        forall|i: int| 0 <= i < frames.len() ==> well_formed(#[trigger] frames[i]),
        0 < cut < 8 + frames.last().size,
    ensures
        cut < encode_stream(frames).len(),
        framing(
            encode_stream(frames).take(encode_stream(frames).len() - cut),
            offset,
            base_len,
        ).frames == frames.drop_last(),
        framing(
            encode_stream(frames).take(encode_stream(frames).len() - cut),
            offset,
            base_len,
        ).fault is Some,
    decreases frames.len(),
{
    let stream = encode_stream(frames);
    let kept = stream.take(stream.len() - cut);
    let first = frames[0];
    let rest = frames.skip(1);
    lemma_stream_holds_last(frames);
    lemma_head_of_record(first, encode_stream(rest), offset, base_len);
    if frames.len() == 1 {
        lemma_auto_spec_u64_to_from_le_bytes();
        assert(encode_stream(rest) == Seq::<u8>::empty());
        assert(stream == encode_frame(first));
        if kept.len() >= 8 {
            assert(kept.subrange(0, 8) == spec_u64_to_le_bytes(first.size));
        }
        assert(frames.drop_last() == Seq::<Frame>::empty());
    } else {
        assert(rest.last() == frames.last());
        assert forall|i: int| 0 <= i < rest.len() implies well_formed(#[trigger] rest[i]) by {
            assert(rest[i] == frames[i + 1]);
        }
        lemma_stream_holds_last(rest);
        let tail = encode_stream(rest);
        let kept_tail = tail.take(tail.len() - cut);
        assert(kept == encode_frame(first) + kept_tail);
        lemma_head_of_record(first, kept_tail, offset, base_len);
        lemma_framing_of_truncation(rest, cut, (offset + 8 + first.size) as nat, base_len);
        assert(seq![first] + rest.drop_last() == frames.drop_last());
    }
}

/// The head of the unread part of a stream, as the reader reports it.
#[derive(Debug)]
pub enum Record {
    /// Nothing is left to read.
    End,
    /// What is left cannot hold the record it announces.
    Short { minimum: u128, actual: usize },
    /// A whole record: its size, its digest, and where its encoded update
    /// starts and ends in what was handed in.
    Whole { size: u64, fork_digest: ForkDigest, payload_start: usize, payload_end: usize },
}

/// Reads the record at the head of `rest`, the part of a stream that starts
/// `offset` bytes into it.
pub fn read_record(rest: &[u8], offset: usize, base_len: usize) -> (record: Record)
    requires
        offset + rest.len() <= usize::MAX,
    ensures
        match head(rest@, offset as nat, base_len as nat) {
            Head::End => record is End,
            Head::Short(shortfall) => record matches Record::Short { minimum, actual }
                && minimum == shortfall.minimum && actual == shortfall.actual,
            Head::Record(frame) => record matches Record::Whole {
                size,
                fork_digest,
                payload_start,
                payload_end,
            } && size == frame.size && fork_digest@ == frame.fork_digest && payload_start == 12
                && payload_end == 8 + frame.size && rest@.subrange(
                payload_start as int,
                payload_end as int,
            ) == frame.payload,
        },
{
    let length = rest.len();
    if length == 0 {
        return Record::End;
    }
    if length < U64_LEN {
        let minimum: u128 = 12u128 + (base_len as u128);
        return Record::Short { minimum, actual: length };
    }
    let size = u64_from_le_bytes(slice_subrange(rest, 0, U64_LEN));
    if size > ((length - U64_LEN) as u64) {
        let minimum: u128 = (offset as u128) + 8u128 + (size as u128);
        return Record::Short { minimum, actual: offset + length };
    }
    if size < (FORK_DIGEST_LEN as u64) {
        let minimum: u128 = 4u128 + (base_len as u128);
        return Record::Short { minimum, actual: size as usize };
    }
    let fork_digest: ForkDigest = [rest[8], rest[9], rest[10], rest[11]];
    assert(fork_digest@ =~= rest@.subrange(8, 12));
    Record::Whole {
        size,
        fork_digest,
        payload_start: U64_LEN + FORK_DIGEST_LEN,
        payload_end: U64_LEN + (size as usize),
    }
}

/// Tells whether `decode` can answer `outcome` when it is handed `payload`.
pub open spec fn decoded<B, E, D: Fn(&[u8]) -> Result<Update<B>, E>>(
    decode: D,
    payload: Seq<u8>,
    outcome: Result<Update<B>, E>,
) -> bool {
    exists|input: &[u8]| input@ == payload && call_ensures(decode, (input,), outcome)
}

/// Tells whether `decode` can answer with an update when it is handed
/// `payload`.
pub open spec fn accepts<B, E, D: Fn(&[u8]) -> Result<Update<B>, E>>(
    decode: D,
    payload: Seq<u8>,
) -> bool {
    exists|update: Update<B>| decoded::<B, E, D>(decode, payload, Ok(update))
}

/// Tells whether `decode` can accept each of the first `count` payloads of
/// `frames`.
pub open spec fn accepted<B, E, D: Fn(&[u8]) -> Result<Update<B>, E>>(
    decode: D,
    frames: Seq<Frame>,
    count: int,
) -> bool {
    forall|i: int| 0 <= i < count ==> accepts::<B, E, D>(decode, (#[trigger] frames[i]).payload)
}

/// Tells whether `item` is the record `frame` with its update decoded by
/// `decode`.
pub open spec fn item_of<B, E, D: Fn(&[u8]) -> Result<Update<B>, E>>(
    decode: D,
    frame: Frame,
    item: UpdateItem<B>,
) -> bool {
    &&& item.size == frame.size
    &&& item.fork_digest@ == frame.fork_digest
    &&& decoded::<B, E, D>(decode, frame.payload, Ok(item.update))
}

/// Tells whether `decode` may be called on the payload of each of `frames`.
pub open spec fn callable<B, E, D: Fn(&[u8]) -> Result<Update<B>, E>>(
    decode: D,
    frames: Seq<Frame>,
) -> bool {
    forall|i: int, input: &[u8]|
        0 <= i < frames.len() && input@ == frames[i].payload ==> call_requires(decode, (input,))
}

/// Tells whether `decode` answers nothing but updates on the payloads of
/// `frames`.
pub open spec fn unfailing<B, E, D: Fn(&[u8]) -> Result<Update<B>, E>>(
    decode: D,
    frames: Seq<Frame>,
) -> bool {
    forall|i: int, outcome: Result<Update<B>, E>|
        0 <= i < frames.len() && #[trigger] decoded::<B, E, D>(
            decode,
            frames[i].payload,
            outcome,
        ) ==> outcome is Ok
}

/// Tells whether `parsed` is what reading a stream with the framing `found`
/// and the decoder `decode` can give.
///
/// A response holds every record of the framing, in order, each with the
/// update that the decoder made of its payload, and the framing has no
/// shortfall. An under-length error reports the shortfall of the framing, after
/// every record was decoded. A decoding error is the decoder's answer to a
/// record, after every record before it was decoded.
pub open spec fn read_from<B, E, D: Fn(&[u8]) -> Result<Update<B>, E>>(
    decode: D,
    found: Framing,
    parsed: Result<UpdateResponse<B>, TypesError<E>>,
) -> bool {
    match parsed {
        Ok(response) => {
            &&& found.fault is None
            &&& response.updates@.len() == found.frames.len()
            &&& forall|i: int|
                0 <= i < response.updates@.len() ==> item_of::<B, E, D>(
                    decode,
                    found.frames[i],
                    #[trigger] response.updates@[i],
                )
        },
        Err(TypesError::UnderLength { minimum, actual, structure }) => {
            &&& found.fault == Some(Shortfall { minimum: minimum as nat, actual: actual as nat })
            &&& structure@ == "UpdateResponse"@
            &&& accepted::<B, E, D>(decode, found.frames, found.frames.len() as int)
        },
        Err(TypesError::Decode(error)) => exists|i: int|
            {
                &&& 0 <= i < found.frames.len()
                &&& decoded::<B, E, D>(decode, (#[trigger] found.frames[i]).payload, Err(error))
                &&& accepted::<B, E, D>(decode, found.frames, i)
            },
    }
}

/// Records that were decoded were accepted by the decoder.
proof fn lemma_items_accepted<B, E, D: Fn(&[u8]) -> Result<Update<B>, E>>(
    decode: D,
    frames: Seq<Frame>,
    items: Seq<UpdateItem<B>>,
)
    requires
        items.len() <= frames.len(),
        forall|i: int|
            0 <= i < items.len() ==> item_of::<B, E, D>(decode, frames[i], #[trigger] items[i]),
    ensures
        accepted::<B, E, D>(decode, frames, items.len() as int),
{
    assert forall|i: int| 0 <= i < items.len() implies accepts::<B, E, D>(
        decode,
        (#[trigger] frames[i]).payload,
    ) by {
        assert(item_of::<B, E, D>(decode, frames[i], items[i]));
        assert(decoded::<B, E, D>(decode, frames[i].payload, Ok(items[i].update)));
    }
}

/// Reading back what was written: whatever reading the encoding of
/// well-formed records gives, it is no under-length error, and a response
/// holds exactly those records, in their order, with their sizes and digests.
pub proof fn lemma_reading_of_encoding<B, E, D: Fn(&[u8]) -> Result<Update<B>, E>>(
    decode: D,
    frames: Seq<Frame>,
    base_len: nat,
    parsed: Result<UpdateResponse<B>, TypesError<E>>,
)
    requires
        forall|i: int| 0 <= i < frames.len() ==> well_formed(#[trigger] frames[i]),
        read_from::<B, E, D>(decode, framing(encode_stream(frames), 0, base_len), parsed),
    ensures
        !(parsed matches Err(TypesError::UnderLength { .. })),
        parsed matches Ok(response) ==> {
            &&& response.updates@.len() == frames.len()
            &&& forall|i: int|
                0 <= i < frames.len() ==> {
                    &&& (#[trigger] response.updates@[i]).size == frames[i].size
                    &&& response.updates@[i].fork_digest@ == frames[i].fork_digest
                    &&& decoded::<B, E, D>(
                        decode,
                        frames[i].payload,
                        Ok(response.updates@[i].update),
                    )
                }
        },
{
    lemma_framing_of_encoding(frames, 0, base_len);
    if let Ok(response) = parsed {
        assert forall|i: int| 0 <= i < frames.len() implies {
            &&& (#[trigger] response.updates@[i]).size == frames[i].size
            &&& response.updates@[i].fork_digest@ == frames[i].fork_digest
            &&& decoded::<B, E, D>(decode, frames[i].payload, Ok(response.updates@[i].update))
        } by {
            assert(item_of::<B, E, D>(decode, frames[i], response.updates@[i]));
        }
    }
}

/// Cutting a stream short: when the encoding of well-formed records loses a
/// tail of at least one byte and of fewer bytes than its last record has,
/// reading what is left fails, and it fails with an under-length error unless
/// the decoder rejects one of the records before the last.
pub proof fn lemma_reading_of_truncation<B, E, D: Fn(&[u8]) -> Result<Update<B>, E>>(
    decode: D,
    frames: Seq<Frame>,
    cut: nat,
    base_len: nat,
    parsed: Result<UpdateResponse<B>, TypesError<E>>,
)
    requires
        frames.len() > 0,
        forall|i: int| 0 <= i < frames.len() ==> well_formed(#[trigger] frames[i]),
        0 < cut < 8 + frames.last().size,
        read_from::<B, E, D>(
            decode,
            framing(encode_stream(frames).take(encode_stream(frames).len() - cut), 0, base_len),
            parsed,
        ),
    ensures
        parsed is Err,
        unfailing::<B, E, D>(decode, frames.drop_last()) ==> parsed matches Err(
            TypesError::UnderLength { .. },
        ),
{
    lemma_framing_of_truncation(frames, cut, 0, base_len);
}

/// Tells whether `item` belongs to the period that follows `known_period`.
pub open spec fn advances<B>(item: UpdateItem<B>, known_period: u64) -> bool {
    sync_period(item.update.attested_slot) == known_period + 1
}

/// Tells whether the record at `index` is the first of `items` that belongs to
/// the period that follows `known_period`.
pub open spec fn first_advance<B>(
    items: Seq<UpdateItem<B>>,
    known_period: u64,
    index: int,
) -> bool {
    &&& 0 <= index < items.len()
    &&& advances(items[index], known_period)
    &&& forall|earlier: int|
        0 <= earlier < index ==> !advances(#[trigger] items[earlier], known_period)
}

/// At most one record is the first that belongs to the period that follows
/// `known_period`: the selection has one answer.
pub proof fn lemma_first_advance_unique<B>(
    items: Seq<UpdateItem<B>>,
    known_period: u64,
    one: int,
    other: int,
)
    requires
        first_advance(items, known_period, one),
        first_advance(items, known_period, other),
    ensures
        one == other,
{
    if one < other {
        assert(!advances(items[one], known_period));
    } else if other < one {
        assert(!advances(items[other], known_period));
    }
}

impl<B> UpdateItem<B> {
    /// The length of digest and update, as the stream states it.
    pub fn size(&self) -> (size: &u64)
        ensures
            *size == self.size,
    {
        &self.size
    }

    /// The digest of the fork that the update belongs to.
    pub fn fork_digest(&self) -> (fork_digest: &ForkDigest)
        ensures
            *fork_digest == self.fork_digest,
    {
        &self.fork_digest
    }

    /// The decoded update.
    pub fn update(&self) -> (update: &Update<B>)
        ensures
            *update == self.update,
    {
        &self.update
    }
}

impl<B> UpdateResponse<B> {
    /// The records, in stream order.
    pub fn updates(&self) -> (updates: &Vec<UpdateItem<B>>)
        ensures
            updates == self.updates,
    {
        &self.updates
    }

    /// Reads a stream of records, handing each encoded update to `decode`.
    ///
    /// `base_len` is the least length of an encoded update; it is only
    /// reported, in the under-length error of a stream that ends inside a size
    /// field or of a record too short for its digest. The records are read in
    /// order and the first failure ends the reading: an under-length error
    /// where the framing breaks, or the decoder's own error.
    pub fn from_ssz_bytes<E, D: Fn(&[u8]) -> Result<Update<B>, E>>(
        bytes: &[u8],
        base_len: usize,
        decode: D,
    ) -> (parsed: Result<UpdateResponse<B>, TypesError<E>>)
        requires
            callable::<B, E, D>(decode, framing(bytes@, 0, base_len as nat).frames),
        ensures
            read_from::<B, E, D>(decode, framing(bytes@, 0, base_len as nat), parsed),
            framing(bytes@, 0, base_len as nat).fault is None && unfailing::<B, E, D>(
                decode,
                framing(bytes@, 0, base_len as nat).frames,
            ) ==> parsed is Ok,
    {
        let ghost whole = framing(bytes@, 0, base_len as nat);
        let ghost mut done: Seq<Frame> = Seq::empty();
        let mut updates: Vec<UpdateItem<B>> = Vec::new();
        let mut cursor: usize = 0;
        assert(bytes@.skip(0) == bytes@);
        loop
            invariant
                cursor <= bytes.len(),
                whole == framing(bytes@, 0, base_len as nat),
                whole.frames == done + framing(
                    bytes@.skip(cursor as int),
                    cursor as nat,
                    base_len as nat,
                ).frames,
                whole.fault == framing(
                    bytes@.skip(cursor as int),
                    cursor as nat,
                    base_len as nat,
                ).fault,
                updates@.len() == done.len(),
                forall|i: int|
                    0 <= i < done.len() ==> item_of::<B, E, D>(
                        decode,
                        whole.frames[i],
                        #[trigger] updates@[i],
                    ),
                callable::<B, E, D>(decode, whole.frames),
            decreases bytes.len() - cursor,
        {
            let rest = slice_subrange(bytes, cursor, bytes.len());
            let ghost unread = framing(rest@, cursor as nat, base_len as nat);
            assert(rest@ == bytes@.skip(cursor as int));
            match read_record(rest, cursor, base_len) {
                Record::End => {
                    assert(whole.frames == done);
                    return Ok(UpdateResponse { updates });
                },
                Record::Short { minimum, actual } => {
                    assert(whole.frames == done);
                    proof {
                        lemma_items_accepted::<B, E, D>(decode, whole.frames, updates@);
                    }
                    return Err(
                        TypesError::UnderLength {
                            minimum,
                            actual,
                            structure: String::from_str("UpdateResponse"),
                        },
                    );
                },
                Record::Whole { size, fork_digest, payload_start, payload_end } => {
                    let ghost frame = head(rest@, cursor as nat, base_len as nat)->Record_0;
                    let ghost tail = framing(
                        rest@.skip(8 + size),
                        (cursor + 8 + size) as nat,
                        base_len as nat,
                    );
                    let payload = slice_subrange(rest, payload_start, payload_end);
                    proof {
                        assert(unread.frames == seq![frame] + tail.frames);
                        assert(rest@.skip(8 + size) == bytes@.skip(cursor + 8 + size));
                        assert(whole.frames == done.push(frame) + tail.frames);
                        assert(whole.frames[done.len() as int] == frame);
                    }
                    match decode(payload) {
                        Err(error) => {
                            assert(decoded::<B, E, D>(
                                decode,
                                whole.frames[done.len() as int].payload,
                                Err(error),
                            ));
                            proof {
                                lemma_items_accepted::<B, E, D>(decode, whole.frames, updates@);
                            }
                            return Err(TypesError::Decode(error));
                        },
                        Ok(update) => {
                            assert(decoded::<B, E, D>(decode, frame.payload, Ok(update)));
                            updates.push(UpdateItem { size, fork_digest, update });
                            proof {
                                done = done.push(frame);
                            }
                            cursor = cursor + payload_end;
                        },
                    }
                },
            }
        }
    }

    /// Gives the update that carries the committee change after `known_period`:
    /// the update of the first record, in stream order, whose attested slot lies
    /// in the period that follows `known_period`. Records of other periods, and
    /// later records of that same period, are passed over. Finding none is an
    /// ordinary outcome.
    pub fn extract_committee_change(self, known_period: u64) -> (found: Option<Update<B>>)
        ensures
            match found {
                Some(update) => exists|i: int|
                    #[trigger] first_advance(self.updates@, known_period, i) && update
                        == self.updates@[i].update,
                None => forall|i: int|
                    0 <= i < self.updates@.len() ==> !advances(
                        #[trigger] self.updates@[i],
                        known_period,
                    ),
            },
    {
        let mut updates = self.updates;
        let mut index: usize = 0;
        while index < updates.len()
            invariant
                index <= updates.len(),
                updates@ == self.updates@,
                forall|i: int| 0 <= i < index ==> !advances(#[trigger] updates@[i], known_period),
            decreases updates.len() - index,
        {
            let period = calc_sync_period(updates[index].update.attested_slot);
            if known_period < u64::MAX && period == known_period + 1 {
                assert(first_advance(self.updates@, known_period, index as int));
                let item = updates.swap_remove(index);
                return Some(item.update);
            }
            index += 1;
        }
        None
    }
}

} // verus!
