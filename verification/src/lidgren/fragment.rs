//! Payloads that do not fit one frame travel as chunks of a fragment group.
//! This module cuts a payload into chunks and puts the chunks of a group
//! together again, in whatever order they arrive.

use crate::lidgren::util::formatter::{
    lemma_vint_length, lemma_vint_round_trip, read_vint_32, spec_read_vint_32,
    spec_vint_length, vint_encoding, vint_length, write_vint_32,
};
use crate::network::message_pack::round_trip::{
    begins_with, lemma_begins_with, lemma_begins_with_split,
};
use crate::util::custom_iterator::{Cursor, CustomIterator};
use crate::util::error_handling::ReadError;
use vstd::arithmetic::div_mod::{lemma_fundamental_div_mod, lemma_mod_bound};
use vstd::arithmetic::mul::{lemma_mul_inequality, lemma_mul_is_commutative};
use vstd::prelude::*;

verus! {

/// How many chunks of `chunk_size` bytes cover `total_bytes` bytes.
pub open spec fn chunks_for(total_bytes: int, chunk_size: int) -> int {
    if chunk_size <= 0 {
        0
    } else if total_bytes / chunk_size * chunk_size < total_bytes {
        total_bytes / chunk_size + 1
    } else {
        total_bytes / chunk_size
    }
}

/// The length of the last of the chunks that cover `total_bytes` bytes: the
/// remainder, or a whole chunk where the remainder is zero.
pub open spec fn last_chunk_length(total_bytes: int, chunk_size: int) -> int {
    if chunk_size <= 0 {
        0
    } else if total_bytes % chunk_size == 0 {
        chunk_size
    } else {
        total_bytes % chunk_size
    }
}

/// The chunks cover the bytes exactly: all but the last are full.
pub proof fn lemma_chunks(total_bytes: int, chunk_size: int)
    requires
        0 < total_bytes,
        0 < chunk_size,
    ensures
        1 <= chunks_for(total_bytes, chunk_size) <= total_bytes,
        (chunks_for(total_bytes, chunk_size) - 1) * chunk_size + last_chunk_length(
            total_bytes,
            chunk_size,
        ) == total_bytes,
        1 <= last_chunk_length(total_bytes, chunk_size) <= chunk_size,
{
    let q = total_bytes / chunk_size;
    let r = total_bytes % chunk_size;
    lemma_fundamental_div_mod(total_bytes, chunk_size);
    lemma_mod_bound(total_bytes, chunk_size);
    lemma_mul_is_commutative(chunk_size, q);
    assert(total_bytes == q * chunk_size + r);
    assert(q >= 0 && q <= total_bytes) by (nonlinear_arith)
        requires
            total_bytes == q * chunk_size + r,
            0 <= r < chunk_size,
            0 < total_bytes,
    ;
    if r == 0 {
        assert((q - 1) * chunk_size + chunk_size == q * chunk_size) by (nonlinear_arith);
        assert(q >= 1) by (nonlinear_arith)
            requires
                total_bytes == q * chunk_size,
                0 < total_bytes,
                0 < chunk_size,
        ;
    } else {
        assert(q + 1 <= total_bytes) by (nonlinear_arith)
            requires
                total_bytes == q * chunk_size + r,
                0 < r < chunk_size,
                0 <= q,
        ;
    }
}

/// What stands before the bytes of a chunk.
#[derive(Clone, Copy, Debug, PartialEq, Eq, Structural)]
pub struct ChunkHeader {
    pub group_id: u32,
    /// The length of the whole payload in bits.
    pub total_bits: u32,
    /// The length of every chunk but the last in bytes.
    pub chunk_size: u32,
    pub index: u32,
}

impl ChunkHeader {
    pub open spec fn total_bytes(self) -> int {
        (self.total_bits + 7) / 8
    }

    pub open spec fn chunk_count(self) -> int {
        chunks_for(self.total_bytes(), self.chunk_size as int)
    }

    /// Whether the index names one of the chunks.
    pub open spec fn is_valid(self) -> bool {
        self.chunk_size > 0 && self.index < self.chunk_count()
    }

    /// The most bytes that this chunk may carry.
    pub open spec fn limit(self) -> int {
        if self.index == self.chunk_count() - 1 {
            last_chunk_length(self.total_bytes(), self.chunk_size as int)
        } else {
            self.chunk_size as int
        }
    }

    /// Where the bytes of this chunk begin in the payload.
    pub open spec fn offset(self) -> int {
        self.index * self.chunk_size
    }

    /// Four variable-length integers: group, bits, chunk size, index.
    pub open spec fn encoding(self) -> Seq<u8> {
        vint_encoding(self.group_id as int) + vint_encoding(self.total_bits as int)
            + vint_encoding(self.chunk_size as int) + vint_encoding(self.index as int)
    }

    pub open spec fn spec_read(c: Cursor) -> (Result<ChunkHeader, ReadError>, Cursor) {
        match spec_read_vint_32(c) {
            (Ok(group_id), c1) => match spec_read_vint_32(c1) {
                (Ok(total_bits), c2) => match spec_read_vint_32(c2) {
                    (Ok(chunk_size), c3) => match spec_read_vint_32(c3) {
                        (Ok(index), c4) => (
                            Ok(ChunkHeader { group_id, total_bits, chunk_size, index }),
                            c4,
                        ),
                        (Err(e), c4) => (Err(e), c4),
                    },
                    (Err(e), c3) => (Err(e), c3),
                },
                (Err(e), c2) => (Err(e), c2),
            },
            (Err(e), c1) => (Err(e), c1),
        }
    }

    pub fn read(iterator: &mut CustomIterator) -> (r: Result<ChunkHeader, ReadError>)
        ensures
            (r, final(iterator)@) == ChunkHeader::spec_read(old(iterator)@),
    {
        let group_id = read_vint_32(iterator)?;
        let total_bits = read_vint_32(iterator)?;
        let chunk_size = read_vint_32(iterator)?;
        let index = read_vint_32(iterator)?;
        Ok(ChunkHeader { group_id, total_bits, chunk_size, index })
    }

    pub fn write(&self, buffer: &mut Vec<u8>)
        ensures
            final(buffer)@ == old(buffer)@ + self.encoding(),
    {
        write_vint_32(buffer, self.group_id);
        write_vint_32(buffer, self.total_bits);
        write_vint_32(buffer, self.chunk_size);
        write_vint_32(buffer, self.index);
        assert(buffer@ =~= old(buffer)@ + self.encoding());
    }

    /// The number of bytes of the payload.
    pub fn byte_count(&self) -> (n: u32)
        ensures
            n == self.total_bytes(),
            n <= 0x2000_0000,
    {
        (((self.total_bits as u64) + 7) / 8) as u32
    }

    /// The number of chunks, 0 where the chunk size is 0.
    pub fn count(&self) -> (n: u32)
        ensures
            n == self.chunk_count(),
    {
        if self.chunk_size == 0 {
            return 0;
        }
        let total: u32 = self.byte_count();
        let whole: u32 = total / self.chunk_size;
        proof {
            if total > 0 {
                lemma_chunks(total as int, self.chunk_size as int);
            }
            lemma_fundamental_div_mod(total as int, self.chunk_size as int);
            lemma_mod_bound(total as int, self.chunk_size as int);
            lemma_mul_is_commutative(self.chunk_size as int, whole as int);
        }
        if (whole as u64) * (self.chunk_size as u64) < (total as u64) {
            whole + 1
        } else {
            whole
        }
    }

    /// The most bytes that this chunk may carry, and where they begin.
    pub fn bounds(&self) -> (r: (u32, u32))
        requires
            self.is_valid(),
        ensures
            r.0 == self.limit(),
            r.1 == self.offset(),
            r.1 + r.0 <= self.total_bytes(),
            r.0 >= 1,
    {
        let total: u32 = self.byte_count();
        let count: u32 = self.count();
        proof {
            lemma_chunks(total as int, self.chunk_size as int);
            lemma_fundamental_div_mod(total as int, self.chunk_size as int);
            lemma_mod_bound(total as int, self.chunk_size as int);
            let c = self.chunk_count();
            let s = self.chunk_size as int;
            let i = self.index as int;
            assert(i * s <= (c - 1) * s) by (nonlinear_arith)
                requires
                    0 <= i <= c - 1,
                    0 < s,
            ;
            assert(i < c - 1 ==> i * s + s <= (c - 1) * s) by (nonlinear_arith)
                requires
                    0 <= i,
                    0 < s,
            ;
        }
        let offset: u32 = ((self.index as u64) * (self.chunk_size as u64)) as u32;
        let limit: u32 = if self.index == count - 1 {
            let rest: u32 = total % self.chunk_size;
            if rest == 0 {
                self.chunk_size
            } else {
                rest
            }
        } else {
            self.chunk_size
        };
        (limit, offset)
    }
}

/// How many chunks are marked as received.
pub open spec fn count_true(marks: Seq<bool>) -> nat
    decreases marks.len(),
{
    if marks.len() == 0 {
        0
    } else {
        count_true(marks.drop_last()) + if marks.last() {
            1nat
        } else {
            0nat
        }
    }
}

/// Marking one more chunk counts one more, and all are marked exactly when
/// the count is the length.
pub proof fn lemma_count_true(marks: Seq<bool>, index: int)
    ensures
        count_true(marks) <= marks.len(),
        0 <= index < marks.len() && !marks[index] ==> count_true(marks.update(index, true))
            == count_true(marks) + 1 && count_true(marks) < marks.len(),
        count_true(marks) == marks.len() ==> forall|i: int|
            0 <= i < marks.len() ==> #[trigger] marks[i],
        (forall|i: int| 0 <= i < marks.len() ==> !#[trigger] marks[i]) ==> count_true(marks) == 0,
    decreases marks.len(),
{
    if marks.len() > 0 {
        let front = marks.drop_last();
        lemma_count_true(front, index);
        if 0 <= index < marks.len() && !marks[index] {
            if index == marks.len() - 1 {
                assert(marks.update(index, true).drop_last() =~= front);
            } else {
                assert(marks.update(index, true).drop_last() =~= front.update(index, true));
            }
        }
        if count_true(marks) == marks.len() {
            assert forall|i: int| 0 <= i < marks.len() implies #[trigger] marks[i] by {
                if i < marks.len() - 1 {
                    assert(front[i]);
                }
            }
        }
        if forall|i: int| 0 <= i < marks.len() ==> !#[trigger] marks[i] {
            assert forall|i: int| 0 <= i < front.len() implies !#[trigger] front[i] by {
                assert(!marks[i]);
            }
        }
    }
}

/// `buffer` with `payload` written over it from `offset` on.
pub open spec fn overlay(buffer: Seq<u8>, offset: int, payload: Seq<u8>) -> Seq<u8> {
    Seq::new(
        buffer.len(),
        |i: int|
            if offset <= i < offset + payload.len() {
                payload[i - offset]
            } else {
                buffer[i]
            },
    )
}

/// What is known of one fragment group.
pub struct GroupState {
    pub last_access: int,
    pub chunk_count: int,
    pub total_bits: int,
    /// The payload as far as it has arrived; empty once it has been handed on.
    pub buffer: Seq<u8>,
    pub received: Seq<bool>,
    pub received_count: int,
}

impl GroupState {
    pub open spec fn wf(self) -> bool {
        &&& 0 <= self.chunk_count <= u32::MAX
        &&& 0 <= self.total_bits <= u32::MAX
        &&& 0 <= self.last_access <= u64::MAX
        &&& self.received.len() == self.chunk_count
        &&& self.received_count == count_true(self.received)
        &&& self.received_count < self.chunk_count ==> self.buffer.len() == (self.total_bits + 7)
            / 8
    }

    /// Complete means that as many chunks have arrived as were announced.
    pub open spec fn is_complete(self) -> bool {
        self.received_count == self.chunk_count
    }

    /// The state of a group of which nothing has arrived.
    pub open spec fn fresh(chunk: ChunkHeader, now: int) -> GroupState {
        GroupState {
            last_access: now,
            chunk_count: chunk.chunk_count(),
            total_bits: chunk.total_bits as int,
            buffer: Seq::new(chunk.total_bytes() as nat, |i: int| 0u8),
            received: Seq::new(chunk.chunk_count() as nat, |i: int| false),
            received_count: 0,
        }
    }

    /// A chunk with a valid header arrives at `now`: the state afterwards, and
    /// the payload where this chunk completed it.
    ///
    /// The chunk is dropped where its header does not agree with the group,
    /// where it has arrived before, and where it carries more bytes than its
    /// place has.
    pub open spec fn accept(self, chunk: ChunkHeader, payload: Seq<u8>, now: int) -> (
        GroupState,
        Option<Seq<u8>>,
    ) {
        let current = GroupState { last_access: now, ..self };
        if current.chunk_count != chunk.chunk_count() || current.total_bits != chunk.total_bits {
            (current, None)
        } else if current.received[chunk.index as int] {
            (current, None)
        } else if payload.len() > chunk.limit() {
            (current, None)
        } else {
            let buffer = overlay(current.buffer, chunk.offset(), payload);
            let received = current.received.update(chunk.index as int, true);
            if current.received_count + 1 == current.chunk_count {
                (
                    GroupState {
                        buffer: Seq::empty(),
                        received,
                        received_count: current.received_count + 1,
                        ..current
                    },
                    Some(buffer),
                )
            } else {
                (
                    GroupState {
                        buffer,
                        received,
                        received_count: current.received_count + 1,
                        ..current
                    },
                    None,
                )
            }
        }
    }
}

/// A chunk arrives for a group that may be new.
pub open spec fn accept_chunk(
    group: Option<GroupState>,
    chunk: ChunkHeader,
    payload: Seq<u8>,
    now: int,
) -> (GroupState, Option<Seq<u8>>) {
    match group {
        Some(known) => known.accept(chunk, payload, now),
        None => GroupState::fresh(chunk, now).accept(chunk, payload, now),
    }
}

/// Accepting a chunk keeps the invariant of the group.
pub proof fn lemma_accept_keeps_wf(
    group: Option<GroupState>,
    chunk: ChunkHeader,
    payload: Seq<u8>,
    now: int,
)
    requires
        chunk.is_valid(),
        0 <= now <= u64::MAX,
        group matches Some(known) ==> known.wf(),
    ensures
        accept_chunk(group, chunk, payload, now).0.wf(),
{
    let start = match group {
        Some(known) => known,
        None => GroupState::fresh(chunk, now),
    };
    if group is None {
        lemma_count_true(start.received, 0);
        lemma_chunks(chunk.total_bytes(), chunk.chunk_size as int);
    }
    lemma_count_true(start.received, chunk.index as int);
}

pub struct FragmentData {
    last_accessed_time: u64,
    announced_chunk_count: u32,
    announced_chunk_bits: u32,
    buffer: Vec<u8>,
    chunk_checklist: Vec<bool>,
    chunk_amount: u32,
}

impl View for FragmentData {
    type V = GroupState;

    closed spec fn view(&self) -> GroupState {
        GroupState {
            last_access: self.last_accessed_time as int,
            chunk_count: self.announced_chunk_count as int,
            total_bits: self.announced_chunk_bits as int,
            buffer: self.buffer@,
            received: self.chunk_checklist@,
            received_count: self.chunk_amount as int,
        }
    }
}

fn filled<T: Copy>(value: T, length: usize) -> (out: Vec<T>)
    ensures
        out@ == Seq::new(length as nat, |i: int| value),
{
    let mut out: Vec<T> = Vec::new();
    let mut i: usize = 0;
    while i < length
        invariant
            i <= length,
            out@ == Seq::new(i as nat, |k: int| value),
        decreases length - i,
    {
        out.push(value);
        i += 1;
        assert(out@ =~= Seq::new(i as nat, |k: int| value));
    }
    out
}

impl FragmentData {
    /// The state of a group of which nothing has arrived.
    pub fn new(chunk: &ChunkHeader, now: u64) -> (data: FragmentData)
        requires
            chunk.is_valid(),
        ensures
            data@ == GroupState::fresh(*chunk, now as int),
            data@.wf(),
    {
        let total_bytes: u32 = chunk.byte_count();
        let count: u32 = chunk.count();
        let data = FragmentData {
            last_accessed_time: now,
            announced_chunk_count: count,
            announced_chunk_bits: chunk.total_bits,
            buffer: filled(0u8, total_bytes as usize),
            chunk_checklist: filled(false, count as usize),
            chunk_amount: 0,
        };
        proof {
            lemma_count_true(data@.received, 0);
            lemma_chunks(chunk.total_bytes(), chunk.chunk_size as int);
        }
        data
    }

    /// Takes a chunk with a valid header. Returns the payload where this
    /// chunk completed it.
    pub fn accept(&mut self, chunk: &ChunkHeader, payload: &Vec<u8>, now: u64) -> (out: Option<
        Vec<u8>,
    >)
        requires
            old(self)@.wf(),
            chunk.is_valid(),
        ensures
            final(self)@.wf(),
            final(self)@ == old(self)@.accept(*chunk, payload@, now as int).0,
            match old(self)@.accept(*chunk, payload@, now as int).1 {
                Some(bytes) => out is Some && out->Some_0@ == bytes,
                None => out is None,
            },
    {
        proof {
            lemma_accept_keeps_wf(Some(self@), *chunk, payload@, now as int);
            lemma_count_true(self@.received, chunk.index as int);
        }
        self.last_accessed_time = now;
        let count: u32 = chunk.count();
        if count != self.announced_chunk_count || chunk.total_bits != self.announced_chunk_bits {
            return None;
        }
        if self.chunk_checklist[chunk.index as usize] {
            return None;
        }
        let (limit, offset) = chunk.bounds();
        if payload.len() > limit as usize {
            return None;
        }
        let ghost before = self.buffer@;
        let mut i: usize = 0;
        assert(self.buffer.len() == before.len());
        assert(self.buffer@ =~= overlay(before, offset as int, payload@.subrange(0, 0)));
        while i < payload.len()
            invariant
                i <= payload.len(),
                offset + payload.len() <= before.len() <= usize::MAX,
                self.buffer@ == overlay(before, offset as int, payload@.subrange(0, i as int)),
                self.last_accessed_time == now,
                self.announced_chunk_count == old(self).announced_chunk_count,
                self.announced_chunk_bits == old(self).announced_chunk_bits,
                self.chunk_checklist == old(self).chunk_checklist,
                self.chunk_amount == old(self).chunk_amount,
            decreases payload.len() - i,
        {
            self.buffer[offset as usize + i] = payload[i];
            i += 1;
            assert(self.buffer@ =~= overlay(before, offset as int, payload@.subrange(0, i as int)));
        }
        assert(payload@.subrange(0, i as int) =~= payload@);
        self.chunk_checklist[chunk.index as usize] = true;
        self.chunk_amount = self.chunk_amount + 1;
        if self.is_complete() {
            let mut buffer: Vec<u8> = Vec::new();
            std::mem::swap(&mut self.buffer, &mut buffer);
            Some(buffer)
        } else {
            None
        }
    }

    pub fn is_complete(&self) -> (complete: bool)
        ensures
            complete == self@.is_complete(),
    {
        self.chunk_amount == self.announced_chunk_count
    }

    /// The time of the last chunk that came for the group.
    pub fn last_accessed_time(&self) -> (time: u64)
        ensures
            time == self@.last_access,
    {
        self.last_accessed_time
    }
}

/// The most bytes that a frame may have on the wire, header and all.
pub const MAXIMUM_FRAME_BYTES: u32 = 1408;

/// Whether chunks of `chunk_size` bytes, with the two integers of their
/// header that depend on the chunk size, fit into `budget` bytes.
pub open spec fn chunk_fits(budget: int, data_bytes: int, chunk_size: int) -> bool {
    chunk_size + spec_vint_length(chunk_size) + spec_vint_length(
        chunks_for(data_bytes, chunk_size),
    ) <= budget
}

/// The first chunk size from `chunk_size` downwards that fits.
pub open spec fn chosen_chunk_size(budget: int, data_bytes: int, chunk_size: int) -> int
    decreases chunk_size,
{
    if chunk_size <= 1 || chunk_fits(budget, data_bytes, chunk_size) {
        chunk_size
    } else {
        chosen_chunk_size(budget, data_bytes, chunk_size - 1)
    }
}

/// The bytes of the chunk with the number `index`.
pub open spec fn chunk_bytes(data: Seq<u8>, chunk_size: int, index: int) -> Seq<u8> {
    data.subrange(
        index * chunk_size,
        if (index + 1) * chunk_size <= data.len() {
            (index + 1) * chunk_size
        } else {
            data.len() as int
        },
    )
}

/// The header of the chunk with the number `index` of a payload.
pub open spec fn chunk_header(group_id: u32, data: Seq<u8>, chunk_size: u32, index: int)
    -> ChunkHeader {
    ChunkHeader {
        group_id,
        total_bits: (data.len() * 8) as u32,
        chunk_size,
        index: index as u32,
    }
}

/// What the frame of a chunk carries: the header, then the bytes.
pub open spec fn fragment_frame(group_id: u32, data: Seq<u8>, chunk_size: u32, index: int) -> Seq<
    u8,
> {
    chunk_header(group_id, data, chunk_size, index).encoding() + chunk_bytes(
        data,
        chunk_size as int,
        index,
    )
}

/// What the frames of all chunks of a payload carry, in order.
pub open spec fn fragment_frames(group_id: u32, data: Seq<u8>, chunk_size: u32) -> Seq<Seq<u8>> {
    Seq::new(
        chunks_for(data.len() as int, chunk_size as int) as nat,
        |index: int| fragment_frame(group_id, data, chunk_size, index),
    )
}

/// The budget that is left for a chunk and the two integers of its header
/// that depend on the chunk size.
pub open spec fn chunk_budget(group_id: u32, data_bytes: int) -> int {
    MAXIMUM_FRAME_BYTES - 5 - spec_vint_length(group_id as int) - spec_vint_length(data_bytes * 8)
}

/// The chunk size for a payload of `data_bytes` bytes in the group `group_id`.
pub open spec fn planned_chunk_size(group_id: u32, data_bytes: int) -> int {
    chosen_chunk_size(
        chunk_budget(group_id, data_bytes),
        data_bytes,
        chunk_budget(group_id, data_bytes) - 2,
    )
}

/// The chosen chunk size is at least 1 and fits.
pub proof fn lemma_chosen_chunk_size(budget: int, data_bytes: int, chunk_size: int)
    requires
        7 <= budget,
        1 <= chunk_size,
        0 <= data_bytes <= 0x2000_0000,
    ensures
        1 <= chosen_chunk_size(budget, data_bytes, chunk_size) <= chunk_size,
        chunk_fits(budget, data_bytes, chosen_chunk_size(budget, data_bytes, chunk_size)),
    decreases chunk_size,
{
    if chunk_size <= 1 {
        assert(chunks_for(data_bytes, 1) == data_bytes);
    } else if !chunk_fits(budget, data_bytes, chunk_size) {
        lemma_chosen_chunk_size(budget, data_bytes, chunk_size - 1);
    }
}

/// Chooses the chunk size and the chunk count for `data_bytes` bytes, of
/// which each chunk with the two integers of its header that depend on the
/// chunk size has to fit into `max_packet_bytes`: the chunk size shrinks from
/// `max_packet_bytes - 2` until it fits.
pub fn figure_out_chunk_stuff(max_packet_bytes: u32, data_bytes: u32) -> (r: (u32, u32))
    requires
        9 <= max_packet_bytes,
        1 <= data_bytes <= 0x2000_0000,
    ensures
        r.0 == chosen_chunk_size(
            max_packet_bytes as int,
            data_bytes as int,
            max_packet_bytes - 2,
        ),
        r.1 == chunks_for(data_bytes as int, r.0 as int),
        1 <= r.0,
        1 <= r.1,
        chunk_fits(max_packet_bytes as int, data_bytes as int, r.0 as int),
{
    proof {
        lemma_chosen_chunk_size(max_packet_bytes as int, data_bytes as int, max_packet_bytes - 2);
    }
    let mut chunk_size: u32 = max_packet_bytes - 2;
    let mut chunk_count: u32 = chunk_amount(data_bytes, chunk_size);
    while chunk_size > 1 && (chunk_size as u64) + (vint_length(chunk_size) as u64) + (vint_length(
        chunk_count,
    ) as u64) > (max_packet_bytes as u64)
        invariant
            1 <= chunk_size <= max_packet_bytes - 2,
            1 <= data_bytes <= 0x2000_0000,
            chunk_count == chunks_for(data_bytes as int, chunk_size as int),
            chosen_chunk_size(max_packet_bytes as int, data_bytes as int, chunk_size as int)
                == chosen_chunk_size(
                max_packet_bytes as int,
                data_bytes as int,
                max_packet_bytes - 2,
            ),
        decreases chunk_size,
    {
        chunk_size -= 1;
        chunk_count = chunk_amount(data_bytes, chunk_size);
    }
    proof {
        lemma_chunks(data_bytes as int, chunk_size as int);
    }
    (chunk_size, chunk_count)
}

fn chunk_amount(data_bytes: u32, chunk_size: u32) -> (count: u32)
    requires
        chunk_size >= 1,
    ensures
        count == chunks_for(data_bytes as int, chunk_size as int),
{
    let whole: u32 = data_bytes / chunk_size;
    proof {
        lemma_fundamental_div_mod(data_bytes as int, chunk_size as int);
        lemma_mod_bound(data_bytes as int, chunk_size as int);
        lemma_mul_is_commutative(chunk_size as int, whole as int);
        if data_bytes > 0 {
            lemma_chunks(data_bytes as int, chunk_size as int);
        }
    }
    if (whole as u64) * (chunk_size as u64) < (data_bytes as u64) {
        whole + 1
    } else {
        whole
    }
}

/// Where the chunk with the number `index` begins and ends in the payload.
pub proof fn lemma_chunk_range(data_bytes: int, chunk_size: int, index: int)
    requires
        0 < data_bytes,
        0 < chunk_size,
        0 <= index < chunks_for(data_bytes, chunk_size),
    ensures
        0 <= index * chunk_size < data_bytes,
        index < chunks_for(data_bytes, chunk_size) - 1 ==> (index + 1) * chunk_size < data_bytes,
        index == chunks_for(data_bytes, chunk_size) - 1 ==> (index + 1) * chunk_size
            >= data_bytes && data_bytes - index * chunk_size == last_chunk_length(
            data_bytes,
            chunk_size,
        ),
        (index + 1) * chunk_size == index * chunk_size + chunk_size,
{
    lemma_chunks(data_bytes, chunk_size);
    let count = chunks_for(data_bytes, chunk_size);
    assert((index + 1) * chunk_size == index * chunk_size + chunk_size) by (nonlinear_arith);
    assert(0 <= index * chunk_size) by (nonlinear_arith)
        requires
            0 <= index,
            0 < chunk_size,
    ;
    assert(index * chunk_size <= (count - 1) * chunk_size) by (nonlinear_arith)
        requires
            index <= count - 1,
            0 < chunk_size,
    ;
    if index < count - 1 {
        assert((index + 1) * chunk_size <= (count - 1) * chunk_size) by (nonlinear_arith)
            requires
                index + 1 <= count - 1,
                0 < chunk_size,
        ;
    }
}

/// Cuts a payload into the chunks of the fragment group `group_id`. Returns,
/// in order, what the frames of the chunks carry; each fits a frame of at
/// most 1408 bytes.
pub fn fragment_payload(group_id: u32, data: &Vec<u8>) -> (frames: Vec<Vec<u8>>)
    requires
        1 <= data@.len() <= 0x1FFF_FFFF,
    ensures
        frames@.len() == chunks_for(
            data@.len() as int,
            planned_chunk_size(group_id, data@.len() as int),
        ),
        forall|i: int|
            0 <= i < frames@.len() ==> (#[trigger] frames@[i])@ == fragment_frame(
                group_id,
                data@,
                planned_chunk_size(group_id, data@.len() as int) as u32,
                i,
            ),
        forall|i: int| 0 <= i < frames@.len() ==> (#[trigger] frames@[i])@.len() + 5 <= 1408,
        1 <= planned_chunk_size(group_id, data@.len() as int) <= 1408,
{
    let data_bytes: u32 = data.len() as u32;
    let total_bits: u32 = data_bytes * 8;
    let constant_header_size: u32 = vint_length(group_id) + vint_length(total_bits);
    let maximum_data_bytes: u32 = MAXIMUM_FRAME_BYTES - (5 + constant_header_size);
    let (chunk_size, chunk_count) = figure_out_chunk_stuff(maximum_data_bytes, data_bytes);
    let mut frames: Vec<Vec<u8>> = Vec::new();
    let mut index: u32 = 0;
    while index < chunk_count
        invariant
            index <= chunk_count,
            1 <= chunk_size,
            data_bytes == data@.len(),
            1 <= data_bytes <= 0x1FFF_FFFF,
            total_bits == data_bytes * 8,
            chunk_count == chunks_for(data_bytes as int, chunk_size as int),
            chunk_fits(maximum_data_bytes as int, data_bytes as int, chunk_size as int),
            maximum_data_bytes == chunk_budget(group_id, data_bytes as int),
            frames@.len() == index,
            forall|i: int|
                0 <= i < index ==> (#[trigger] frames@[i])@ == fragment_frame(
                    group_id,
                    data@,
                    chunk_size,
                    i,
                ),
            forall|i: int| 0 <= i < index ==> (#[trigger] frames@[i])@.len() + 5 <= 1408,
        decreases chunk_count - index,
    {
        proof {
            lemma_chunk_range(data_bytes as int, chunk_size as int, index as int);
        }
        let header = ChunkHeader { group_id, total_bits, chunk_size, index };
        let start: u32 = index * chunk_size;
        let end: u32 = if data_bytes - start > chunk_size {
            start + chunk_size
        } else {
            data_bytes
        };
        let mut frame: Vec<u8> = Vec::new();
        header.write(&mut frame);
        let ghost head = frame@;
        let mut k: u32 = start;
        assert(frame@ =~= head + data@.subrange(start as int, start as int));
        while k < end
            invariant
                start <= k <= end <= data@.len(),
                frame@ == head + data@.subrange(start as int, k as int),
            decreases end - k,
        {
            frame.push(data[k as usize]);
            k += 1;
            assert(frame@ =~= head + data@.subrange(start as int, k as int));
        }
        proof {
            lemma_vint_length(group_id as int);
            lemma_vint_length(total_bits as int);
            lemma_vint_length(chunk_size as int);
            lemma_vint_length(index as int);
            assert(spec_vint_length(index as int) <= spec_vint_length(chunk_count as int));
            assert(head.len() == spec_vint_length(group_id as int) + spec_vint_length(
                total_bits as int,
            ) + spec_vint_length(chunk_size as int) + spec_vint_length(index as int));
        }
        frames.push(frame);
        index += 1;
    }
    frames
}

/// The state of the group `id`, if the map knows it.
pub open spec fn group_of(groups: Map<u32, GroupState>, id: u32) -> Option<GroupState> {
    if groups.dom().contains(id) {
        Some(groups[id])
    } else {
        None
    }
}

/// What a frame with the fragment flag carries arrives at `now`: the groups
/// afterwards, and the payload where this chunk completed one.
///
/// Where the header cannot be read, or its index names no chunk, nothing
/// changes.
pub open spec fn deliver_fragment(groups: Map<u32, GroupState>, frame: Seq<u8>, now: int) -> (
    Map<u32, GroupState>,
    Option<Seq<u8>>,
) {
    match ChunkHeader::spec_read(Cursor { bytes: frame, position: 0 }) {
        (Ok(chunk), c) => if chunk.is_valid() {
            (
                groups.insert(
                    chunk.group_id,
                    accept_chunk(group_of(groups, chunk.group_id), chunk, c.rest(), now).0,
                ),
                accept_chunk(group_of(groups, chunk.group_id), chunk, c.rest(), now).1,
            )
        } else {
            (groups, None)
        },
        (Err(_), _) => (groups, None),
    }
}

} // verus!
