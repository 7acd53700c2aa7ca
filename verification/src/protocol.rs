//! The wire format: a datagram opens with an 8-byte little-endian speaker
//! session key, followed by records that each begin with a one-byte
//! opcode. A silence record carries nothing; an audio-batch record holds
//! sub-records (a 16-bit length, a 16-bit sequence counter, then that
//! many payload bytes) up to four bytes short of the datagram's end.
//! Malformed input is dropped in place, never surfaced as an error.
use vstd::prelude::*;

use crate::HEADER_SIZE;
use crate::MAX_DATAGRAM_LEN;
use crate::SUBFRAME_SIZE;

verus! {

/// Opcode of a record that marks silence and carries no payload.
pub const OPCODE_SILENCE: u8 = 0;

/// Opcode of a record that carries a run of compressed-audio sub-records.
pub const OPCODE_AUDIO_BATCH: u8 = 6;

/// One fixed-size fragment of compressed audio, zero-padded to
/// [`SUBFRAME_SIZE`](crate::SUBFRAME_SIZE) bytes.
pub struct SubFrame {
    /// The padded fragment bytes.
    pub bytes: Vec<u8>,
}

impl View for SubFrame {
    type V = Seq<u8>;

    open spec fn view(&self) -> Seq<u8> {
        self.bytes@
    }
}

impl SubFrame {
    /// A well-formed sub-frame holds exactly the fixed number of bytes.
    pub open spec fn wf(self) -> bool {
        self@.len() == SUBFRAME_SIZE
    }
}

/// The byte sequences held by a run of sub-frames.
pub open spec fn views_of(frames: Seq<SubFrame>) -> Seq<Seq<u8>> {
    frames.map_values(|f: SubFrame| f@)
}

/// The 16-bit little-endian value stored at `pos`.
pub open spec fn le16_at(data: Seq<u8>, pos: int) -> int
    recommends
        0 <= pos,
        pos + 2 <= data.len(),
{
    data[pos] + 0x100 * data[pos + 1]
}

/// The 64-bit little-endian value stored at `pos`.
pub open spec fn le64_at(data: Seq<u8>, pos: int) -> int
    recommends
        0 <= pos,
        pos + 8 <= data.len(),
{
    data[pos] + 0x100 * data[pos + 1] + 0x1_0000 * data[pos + 2] + 0x100_0000 * data[pos + 3]
        + 0x1_0000_0000 * data[pos + 4] + 0x100_0000_0000 * data[pos + 5] + 0x1_0000_0000_0000
        * data[pos + 6] + 0x100_0000_0000_0000 * data[pos + 7]
}

/// A short fragment extended with zero bytes to the fixed sub-frame size.
pub open spec fn zero_padded(payload: Seq<u8>) -> Seq<u8>
    recommends
        payload.len() <= SUBFRAME_SIZE,
{
    payload + Seq::new((SUBFRAME_SIZE - payload.len()) as nat, |i: int| 0u8)
}

/// The sub-frames carried by the sub-records that start at `pos` and run
/// until four bytes short of the datagram's end. A sub-record declaring
/// length 2 is empty and skipped; one whose declared payload would cross
/// the boundary aborts the rest of the datagram; one longer than a
/// sub-frame is mis-sized and dropped; any other is zero-padded to the
/// fixed size and kept.
pub open spec fn sub_frames_from(data: Seq<u8>, pos: int) -> Seq<Seq<u8>>
    decreases data.len() - pos,
{
    let goal = data.len() - 4;
    if 0 <= pos < goal {
        let len = le16_at(data, pos);
        if len == 2 {
            sub_frames_from(data, pos + 4)
        } else if pos + 4 + len > goal {
            Seq::empty()
        } else if len > SUBFRAME_SIZE as int {
            sub_frames_from(data, pos + 4 + len)
        } else {
            seq![zero_padded(data.subrange(pos + 4, pos + 4 + len))] + sub_frames_from(
                data,
                pos + 4 + len,
            )
        }
    } else {
        Seq::empty()
    }
}

/// The sub-frames carried by the records that start at `pos`: silence
/// records are skipped, an audio-batch record holds the rest of the
/// datagram's sub-records, and an unrecognized opcode ends parsing.
pub open spec fn frames_from(data: Seq<u8>, pos: int) -> Seq<Seq<u8>>
    decreases data.len() - pos,
{
    if 0 <= pos < data.len() {
        if data[pos] == OPCODE_SILENCE {
            frames_from(data, pos + 1)
        } else if data[pos] == OPCODE_AUDIO_BATCH {
            sub_frames_from(data, pos + 1)
        } else {
            Seq::empty()
        }
    } else {
        Seq::empty()
    }
}

/// The sub-frames a whole datagram carries; one too short to hold the
/// speaker key carries none.
pub open spec fn datagram_frames(data: Seq<u8>) -> Seq<Seq<u8>> {
    if data.len() >= HEADER_SIZE {
        frames_from(data, HEADER_SIZE as int)
    } else {
        Seq::empty()
    }
}

/// The speaker session key in a datagram's first eight bytes.
pub open spec fn datagram_speaker(data: Seq<u8>) -> int
    recommends
        data.len() >= HEADER_SIZE,
{
    le64_at(data, 0)
}

/// Reads the 16-bit little-endian value at `pos`.
pub fn read_u16_le(data: &Vec<u8>, pos: usize) -> (r: u16)
    requires
        pos + 2 <= data.len(),
    ensures
        r == le16_at(data@, pos as int),
{
    data[pos] as u16 + data[pos + 1] as u16 * 0x100
}

/// Reads the 64-bit little-endian value at `pos`.
pub fn read_u64_le(data: &Vec<u8>, pos: usize) -> (r: u64)
    requires
        pos + 8 <= data.len(),
    ensures
        r == le64_at(data@, pos as int),
{
    data[pos] as u64 + data[pos + 1] as u64 * 0x100 + data[pos + 2] as u64 * 0x1_0000 + data[pos
        + 3] as u64 * 0x100_0000 + data[pos + 4] as u64 * 0x1_0000_0000 + data[pos + 5] as u64
        * 0x100_0000_0000 + data[pos + 6] as u64 * 0x1_0000_0000_0000 + data[pos + 7] as u64
        * 0x100_0000_0000_0000
}

/// Law: a sub-record whose declared payload would read past the record
/// boundary aborts parsing of the datagram on the spot: neither that
/// sub-record nor anything after it produces a sub-frame.
pub proof fn lemma_overrun_aborts(data: Seq<u8>, pos: int)
    requires
        0 <= pos < data.len() - 4,
        le16_at(data, pos) != 2,
        pos + 4 + le16_at(data, pos) > data.len() - 4,
    ensures
        sub_frames_from(data, pos) == Seq::<Seq<u8>>::empty(),
{
}

/// Law: a sub-record with declared length exactly 2 is empty: it is
/// skipped whole and never produces a sub-frame, and the sub-records
/// after it are parsed as if it were not there.
pub proof fn lemma_empty_sub_record_skipped(data: Seq<u8>, pos: int)
    requires
        0 <= pos < data.len() - 4,
        le16_at(data, pos) == 2,
    ensures
        sub_frames_from(data, pos) == sub_frames_from(data, pos + 4),
{
}

/// A decoded datagram: its speaker session key and the sub-frames it carried.
pub struct ParsedDatagram {
    /// The speaker session key from the header.
    pub speaker: u64,
    /// The zero-padded sub-frames, in wire order.
    pub frames: Vec<SubFrame>,
}

/// Copies `len_field` payload bytes starting at `payload_pos` into a fresh
/// sub-frame, zero-padded to the fixed size.
fn copy_padded(data: &Vec<u8>, payload_pos: usize, len_field: usize) -> (frame: SubFrame)
    requires
        payload_pos + len_field <= data.len(),
        len_field <= SUBFRAME_SIZE,
    ensures
        frame@ == zero_padded(
            data@.subrange(payload_pos as int, payload_pos + len_field as int),
        ),
        frame.wf(),
{
    let mut buf: Vec<u8> = Vec::new();
    let mut i: usize = 0;
    while i < len_field
        invariant
            i <= len_field,
            payload_pos + len_field <= data.len(),
            buf@ == data@.subrange(payload_pos as int, payload_pos + i as int),
        decreases len_field - i,
    {
        buf.push(data[payload_pos + i]);
        i = i + 1;
        proof {
            assert(buf@ =~= data@.subrange(payload_pos as int, payload_pos + i as int));
        }
    }
    while buf.len() < SUBFRAME_SIZE
        invariant
            len_field <= buf.len() <= SUBFRAME_SIZE,
            payload_pos + len_field <= data.len(),
            buf@.subrange(0, len_field as int) == data@.subrange(
                payload_pos as int,
                payload_pos + len_field as int,
            ),
            forall|j: int| len_field <= j < buf@.len() ==> buf@[j] == 0u8,
        decreases SUBFRAME_SIZE - buf.len(),
    {
        buf.push(0u8);
        proof {
            assert(buf@.subrange(0, len_field as int) =~= data@.subrange(
                payload_pos as int,
                payload_pos + len_field as int,
            ));
        }
    }
    proof {
        let payload = data@.subrange(payload_pos as int, payload_pos + len_field as int);
        assert forall|j: int| 0 <= j < len_field implies buf@[j] == payload[j] by {
            assert(buf@.subrange(0, len_field as int)[j] == buf@[j]);
        }
        assert(buf@ =~= zero_padded(payload));
    }
    SubFrame { bytes: buf }
}

/// Parses the run of sub-records that starts at `start`, keeping each
/// well-formed sub-record's zero-padded payload.
fn parse_sub_records(data: &Vec<u8>, start: usize) -> (frames: Vec<SubFrame>)
    requires
        HEADER_SIZE <= data.len() <= MAX_DATAGRAM_LEN,
        start <= data.len(),
    ensures
        views_of(frames@) == sub_frames_from(data@, start as int),
        forall|i: int| 0 <= i < frames@.len() ==> (#[trigger] frames@[i]).wf(),
{
    let goal: usize = data.len() - 4;
    let mut frames: Vec<SubFrame> = Vec::new();
    let mut pos: usize = start;
    while pos < goal
        invariant
            HEADER_SIZE <= data.len() <= MAX_DATAGRAM_LEN,
            goal == data.len() - 4,
            start <= pos <= data.len(),
            views_of(frames@) + sub_frames_from(data@, pos as int) == sub_frames_from(
                data@,
                start as int,
            ),
            forall|i: int| 0 <= i < frames@.len() ==> (#[trigger] frames@[i]).wf(),
        ensures
            views_of(frames@) == sub_frames_from(data@, start as int),
            forall|i: int| 0 <= i < frames@.len() ==> (#[trigger] frames@[i]).wf(),
        decreases data.len() - pos,
    {
        let len_field: usize = read_u16_le(data, pos) as usize;
        let _march: u16 = read_u16_le(data, pos + 2);
        if len_field == 2 {
            // An empty sub-record: only its header is consumed.
            pos = pos + 4;
        } else if pos + 4 + len_field > goal {
            // The declared payload would cross the record boundary:
            // abort the rest of the datagram.
            proof {
                assert(sub_frames_from(data@, pos as int) =~= Seq::<Seq<u8>>::empty());
                assert(views_of(frames@) + sub_frames_from(data@, pos as int) =~= views_of(
                    frames@,
                ));
            }
            break ;
        } else if len_field > SUBFRAME_SIZE {
            // A mis-sized fragment: drop it and go on.
            pos = pos + 4 + len_field;
        } else {
            let frame = copy_padded(data, pos + 4, len_field);
            let ghost prior = frames@;
            frames.push(frame);
            proof {
                assert(views_of(frames@) =~= views_of(prior) + seq![frame@]);
                assert((views_of(prior) + seq![frame@]) + sub_frames_from(
                    data@,
                    pos + 4 + len_field as int,
                ) =~= views_of(prior) + (seq![frame@] + sub_frames_from(
                    data@,
                    pos + 4 + len_field as int,
                )));
            }
            pos = pos + 4 + len_field;
        }
    }
    frames
}

/// Parses one datagram into its speaker session key and sub-frames.
/// A datagram too short to hold the key is dropped in place.
pub fn parse_datagram(data: &Vec<u8>) -> (r: Option<ParsedDatagram>)
    requires
        data.len() <= MAX_DATAGRAM_LEN,
    ensures
        match r {
            Some(p) => {
                &&& data.len() >= HEADER_SIZE
                &&& p.speaker == datagram_speaker(data@)
                &&& views_of(p.frames@) == datagram_frames(data@)
                &&& forall|i: int| 0 <= i < p.frames@.len() ==> (#[trigger] p.frames@[i]).wf()
            },
            None => data.len() < HEADER_SIZE,
        },
{
    if data.len() < HEADER_SIZE {
        return None;
    }
    let speaker: u64 = read_u64_le(data, 0);
    let mut frames: Vec<SubFrame> = Vec::new();
    let mut pos: usize = HEADER_SIZE;
    while pos < data.len()
        invariant_except_break
            frames@.len() == 0,
            frames_from(data@, HEADER_SIZE as int) == frames_from(data@, pos as int),
        invariant
            HEADER_SIZE <= data.len() <= MAX_DATAGRAM_LEN,
            HEADER_SIZE <= pos <= data.len(),
        ensures
            views_of(frames@) == frames_from(data@, HEADER_SIZE as int),
            forall|i: int| 0 <= i < frames@.len() ==> (#[trigger] frames@[i]).wf(),
        decreases data.len() - pos,
    {
        let op: u8 = data[pos];
        if op == OPCODE_SILENCE {
            pos = pos + 1;
        } else if op == OPCODE_AUDIO_BATCH {
            frames = parse_sub_records(data, pos + 1);
            break ;
        } else {
            // An unrecognized opcode ends useful parsing of the datagram.
            proof {
                assert(views_of(frames@) =~= frames_from(data@, pos as int));
            }
            break ;
        }
    }
    Some(ParsedDatagram { speaker, frames })
}

} // verus!
