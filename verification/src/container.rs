//! The capture container: a run of records, each a header of three
//! little-endian 32-bit numbers (seconds, microseconds, payload length)
//! followed by that many bytes of payload.

use vstd::prelude::*;

verus! {

/// Number of bytes of a record header.
pub const HEADER_LEN: usize = 12;

/// One record of a capture: a chunk of terminal output and when it was
/// written.
#[derive(Debug, PartialEq, Eq)]
pub struct TtyrecRecord {
    pub seconds: u32,
    pub micros: u32,
    pub data: Vec<u8>,
}

/// The mathematical model of a record.
pub struct Frame {
    pub seconds: u32,
    pub micros: u32,
    pub payload: Seq<u8>,
}

impl View for TtyrecRecord {
    type V = Frame;

    open spec fn view(&self) -> Frame {
        Frame { seconds: self.seconds, micros: self.micros, payload: self.data@ }
    }
}

/// The models of a list of records.
pub open spec fn frames(records: Seq<TtyrecRecord>) -> Seq<Frame> {
    Seq::new(records.len(), |i: int| records[i]@)
}

/// Why a capture cannot be decoded.
#[derive(Debug, Clone, Copy, PartialEq, Eq)]
pub enum ContainerError {
    /// The header at `offset` declares a payload of `declared` bytes, but
    /// only `available` bytes follow it.
    TruncatedPayload { offset: usize, declared: u32, available: usize },
}

/// The number that four bytes write in little-endian order.
pub open spec fn le_u32(bytes: Seq<u8>) -> int {
    bytes[0] as int + 256 * (bytes[1] as int) + 65536 * (bytes[2] as int) + 16777216 * (
    bytes[3] as int)
}

/// The four bytes that write `value` in little-endian order.
pub open spec fn le_bytes(value: u32) -> Seq<u8> {
    seq![
        (value % 256) as u8,
        ((value / 256) % 256) as u8,
        ((value / 65536) % 256) as u8,
        (value / 16777216) as u8,
    ]
}

/// The records that the bytes from `at` on hold. Fewer than a header's
/// bytes end the capture; a payload longer than what follows its header is
/// an error.
pub open spec fn decode(bytes: Seq<u8>, at: int) -> Result<Seq<Frame>, ContainerError>
    decreases bytes.len() - at,
{
    if at < 0 || bytes.len() - at < HEADER_LEN {
        Ok(Seq::empty())
    } else {
        let declared = le_u32(bytes.subrange(at + 8, at + 12));
        let available = bytes.len() - at - HEADER_LEN;
        if declared > available {
            Err(
                ContainerError::TruncatedPayload {
                    offset: at as usize,
                    declared: declared as u32,
                    available: available as usize,
                },
            )
        } else {
            let frame = Frame {
                seconds: le_u32(bytes.subrange(at, at + 4)) as u32,
                micros: le_u32(bytes.subrange(at + 4, at + 8)) as u32,
                payload: bytes.subrange(at + 12, at + 12 + declared),
            };
            match decode(bytes, at + 12 + declared) {
                Ok(rest) => Ok(seq![frame] + rest),
                Err(error) => Err(error),
            }
        }
    }
}

/// `first` followed by what `rest` holds, or the error of `rest`.
pub open spec fn followed_by(first: Seq<Frame>, rest: Result<Seq<Frame>, ContainerError>) -> Result<
    Seq<Frame>,
    ContainerError,
> {
    match rest {
        Ok(frames) => Ok(first + frames),
        Err(error) => Err(error),
    }
}

/// The bytes that write a frame: its header, then its payload.
pub open spec fn encode_frame(frame: Frame) -> Seq<u8> {
    le_bytes(frame.seconds) + le_bytes(frame.micros) + le_bytes(frame.payload.len() as u32)
        + frame.payload
}

/// The bytes that write a list of frames, one after the other.
pub open spec fn encode(list: Seq<Frame>) -> Seq<u8>
    decreases list.len(),
{
    if list.len() == 0 {
        Seq::empty()
    } else {
        encode_frame(list[0]) + encode(list.drop_first())
    }
}

fn read_u32(bytes: &[u8], at: usize) -> (value: u32)
    requires
        at + 4 <= bytes.len(),
    ensures
        value == le_u32(bytes@.subrange(at as int, at + 4)),
{
    let b0: u32 = bytes[at] as u32;
    let b1: u32 = bytes[at + 1] as u32;
    let b2: u32 = bytes[at + 2] as u32;
    let b3: u32 = bytes[at + 3] as u32;
    b0 + 256 * b1 + 65536 * b2 + 16777216 * b3
}

fn copy_range(bytes: &[u8], from: usize, to: usize) -> (data: Vec<u8>)
    requires
        from <= to <= bytes.len(),
    ensures
        data@ == bytes@.subrange(from as int, to as int),
{
    let mut data: Vec<u8> = Vec::new();
    let mut i: usize = from;
    while i < to
        invariant
            from <= i <= to <= bytes.len(),
            data@ == bytes@.subrange(from as int, i as int),
        decreases to - i,
    {
        data.push(bytes[i]);
        i += 1;
    }
    data
}

/// Decodes a capture into its records, in order. Decoding ends without
/// error where fewer than a header's bytes remain; it fails where a header
/// declares more payload than the bytes that follow it.
pub fn parse_ttyrec(bytes: &[u8]) -> (r: Result<Vec<TtyrecRecord>, ContainerError>)
    ensures
        match r {
            Ok(records) => decode(bytes@, 0) == Ok::<Seq<Frame>, ContainerError>(
                frames(records@),
            ),
            Err(error) => decode(bytes@, 0) == Err::<Seq<Frame>, ContainerError>(error),
        },
{
    let mut records: Vec<TtyrecRecord> = Vec::new();
    let mut at: usize = 0;
    assert(frames(records@) =~= Seq::<Frame>::empty());
    assert(Seq::<Frame>::empty() + Seq::<Frame>::empty() =~= Seq::<Frame>::empty());
    while bytes.len() - at >= HEADER_LEN
        invariant
            at <= bytes.len(),
            decode(bytes@, 0) == followed_by(frames(records@), decode(bytes@, at as int)),
        decreases bytes.len() - at,
    {
        let seconds = read_u32(bytes, at);
        let micros = read_u32(bytes, at + 4);
        let declared = read_u32(bytes, at + 8);
        let available: usize = bytes.len() - at - HEADER_LEN;
        if declared as usize > available {
            return Err(ContainerError::TruncatedPayload { offset: at, declared, available });
        }
        let start: usize = at + HEADER_LEN;
        let end: usize = start + declared as usize;
        let data = copy_range(bytes, start, end);
        let record = TtyrecRecord { seconds, micros, data };
        proof {
            let rest = decode(bytes@, end as int);
            assert(frames(records@.push(record)) =~= frames(records@) + seq![record@]);
            assert(decode(bytes@, at as int) == followed_by(seq![record@], rest));
            if rest is Ok {
                assert(frames(records@) + (seq![record@] + rest->Ok_0) =~= (frames(records@)
                    + seq![record@]) + rest->Ok_0);
            }
        }
        records.push(record);
        at = end;
    }
    assert(frames(records@) + Seq::<Frame>::empty() =~= frames(records@));
    Ok(records)
}

/// The four bytes of a number write that number.
pub proof fn lemma_le_roundtrip(value: u32)
    ensures
        le_bytes(value).len() == 4,
        le_u32(le_bytes(value)) == value,
{
}

/// Where the bytes from `at` on start with the encoding of `frame`,
/// decoding from `at` gives that frame, then what follows it.
pub proof fn lemma_decode_frame(bytes: Seq<u8>, at: int, frame: Frame)
    requires
        0 <= at,
        frame.payload.len() <= u32::MAX,
        at + HEADER_LEN + frame.payload.len() <= bytes.len(),
        bytes.subrange(at, at + HEADER_LEN + frame.payload.len()) == encode_frame(frame),
    ensures
        decode(bytes, at) == followed_by(
            seq![frame],
            decode(bytes, at + HEADER_LEN + frame.payload.len()),
        ),
{
    let size = frame.payload.len() as u32;
    let whole = encode_frame(frame);
    assert(bytes.subrange(at, at + 4) == le_bytes(frame.seconds)) by {
        assert(bytes.subrange(at, at + 4) =~= whole.subrange(0, 4));
        assert(whole.subrange(0, 4) =~= le_bytes(frame.seconds));
    }
    assert(bytes.subrange(at + 4, at + 8) == le_bytes(frame.micros)) by {
        assert(bytes.subrange(at + 4, at + 8) =~= whole.subrange(4, 8));
        assert(whole.subrange(4, 8) =~= le_bytes(frame.micros));
    }
    assert(bytes.subrange(at + 8, at + 12) == le_bytes(size)) by {
        assert(bytes.subrange(at + 8, at + 12) =~= whole.subrange(8, 12));
        assert(whole.subrange(8, 12) =~= le_bytes(size));
    }
    assert(bytes.subrange(at + 12, at + 12 + size) == frame.payload) by {
        assert(bytes.subrange(at + 12, at + 12 + size) =~= whole.subrange(12, 12 + size));
        assert(whole.subrange(12, 12 + size) =~= frame.payload);
    }
    lemma_le_roundtrip(frame.seconds);
    lemma_le_roundtrip(frame.micros);
    lemma_le_roundtrip(size);
}

/// Decoding what encodes a list of frames gives that list back, wherever
/// the encoding stands after `prefix`.
pub proof fn lemma_decode_encode_after(prefix: Seq<u8>, list: Seq<Frame>)
    requires
        forall|i: int| 0 <= i < list.len() ==> (#[trigger] list[i]).payload.len() <= u32::MAX,
    ensures
        decode(prefix + encode(list), prefix.len() as int) == Ok::<Seq<Frame>, ContainerError>(
            list,
        ),
    decreases list.len(),
{
    let bytes = prefix + encode(list);
    let at = prefix.len() as int;
    if list.len() == 0 {
        assert(bytes =~= prefix);
        assert(list =~= Seq::<Frame>::empty());
    } else {
        let frame = list[0];
        let rest = list.drop_first();
        let next = prefix + encode_frame(frame);
        assert(encode_frame(frame).len() == HEADER_LEN + frame.payload.len());
        assert(bytes == next + encode(rest)) by {
            assert(bytes =~= next + encode(rest));
        }
        assert(bytes.subrange(at, at + HEADER_LEN + frame.payload.len()) == encode_frame(frame))
            by {
            assert(bytes.subrange(at, at + HEADER_LEN + frame.payload.len()) =~= encode_frame(
                frame,
            ));
        }
        lemma_decode_frame(bytes, at, frame);
        lemma_decode_encode_after(next, rest);
        assert(next.len() == at + HEADER_LEN + frame.payload.len());
        assert(decode(bytes, next.len() as int) == Ok::<Seq<Frame>, ContainerError>(rest));
        assert(seq![frame] + rest =~= list);
    }
}

/// Decoding what encodes a list of frames gives that list back: every
/// payload with the length that its header declares.
pub proof fn lemma_decode_encode(list: Seq<Frame>)
    requires
        forall|i: int| 0 <= i < list.len() ==> (#[trigger] list[i]).payload.len() <= u32::MAX,
    ensures
        decode(encode(list), 0) == Ok::<Seq<Frame>, ContainerError>(list),
{
    lemma_decode_encode_after(Seq::empty(), list);
    assert(Seq::<u8>::empty() + encode(list) =~= encode(list));
}

} // verus!
