//! What is cut into chunks comes together again, in whatever order the
//! chunks arrive and however often.

use crate::lidgren::fragment::{
    accept_chunk, chunk_bytes, chunk_header, chunks_for, count_true, deliver_fragment,
    fragment_frame, fragment_frames, group_of, last_chunk_length, lemma_accept_keeps_wf,
    lemma_chunk_range, lemma_chunks, lemma_count_true, overlay, ChunkHeader, GroupState,
};
use crate::lidgren::util::formatter::{lemma_vint_round_trip, vint_encoding};
use crate::network::message_pack::round_trip::{begins_with, lemma_begins_with_split};
use crate::util::custom_iterator::Cursor;
use crate::util::error_handling::ReadError;
use vstd::arithmetic::div_mod::{lemma_fundamental_div_mod, lemma_mod_bound};
use vstd::prelude::*;

verus! {

/// A chunk header that was written is read back, and the cursor then stands
/// behind it.
pub proof fn lemma_chunk_header_round_trip(c: Cursor, header: ChunkHeader)
    requires
        begins_with(c, header.encoding()),
    ensures
        ChunkHeader::spec_read(c) == (
            Ok::<ChunkHeader, ReadError>(header),
            c.skipped(header.encoding().len() as int),
        ),
{
    let a = vint_encoding(header.group_id as int);
    let b = vint_encoding(header.total_bits as int);
    let d = vint_encoding(header.chunk_size as int);
    let e = vint_encoding(header.index as int);
    lemma_begins_with_split(c, a + b + d, e);
    lemma_begins_with_split(c, a + b, d);
    lemma_begins_with_split(c, a, b);
    let c1 = c.skipped(a.len() as int);
    let c2 = c1.skipped(b.len() as int);
    let c3 = c2.skipped(d.len() as int);
    assert(c2 == c.skipped((a + b).len() as int));
    assert(c3 == c.skipped((a + b + d).len() as int));
    lemma_vint_round_trip(c, header.group_id as int);
    lemma_vint_round_trip(c1, header.total_bits as int);
    lemma_vint_round_trip(c2, header.chunk_size as int);
    lemma_vint_round_trip(c3, header.index as int);
    assert(c3.skipped(e.len() as int) == c.skipped(header.encoding().len() as int));
}

/// The frame of a chunk is read as its header followed by its bytes.
pub proof fn lemma_fragment_frame_parses(group_id: u32, data: Seq<u8>, chunk_size: u32, index: int)
    ensures
        ({
            let frame = fragment_frame(group_id, data, chunk_size, index);
            let header = chunk_header(group_id, data, chunk_size, index);
            let read = ChunkHeader::spec_read(Cursor { bytes: frame, position: 0 });
            &&& read.0 == Ok::<ChunkHeader, ReadError>(header)
            &&& read.1.rest() == chunk_bytes(data, chunk_size as int, index)
        }),
{
    let frame = fragment_frame(group_id, data, chunk_size, index);
    let header = chunk_header(group_id, data, chunk_size, index);
    let c = Cursor { bytes: frame, position: 0 };
    assert(c.window(header.encoding().len() as int) =~= header.encoding());
    lemma_chunk_header_round_trip(c, header);
    let after = c.skipped(header.encoding().len() as int);
    assert(after.rest() =~= chunk_bytes(data, chunk_size as int, index));
}

/// Whether the bytes of the chunk `index` stand in `buffer` as they do in `data`.
pub open spec fn chunk_is_in(buffer: Seq<u8>, data: Seq<u8>, chunk_size: int, index: int) -> bool {
    forall|k: int|
        index * chunk_size <= k < index * chunk_size + chunk_size && 0 <= k < data.len()
            ==> #[trigger] buffer[k] == data[k]
}

/// What is handed on so far and what the group holds agree with the payload
/// `data` that is being put together from chunks of `chunk_size` bytes.
pub open spec fn assembling(
    group: Option<GroupState>,
    out: Seq<Seq<u8>>,
    data: Seq<u8>,
    chunk_size: u32,
) -> bool {
    match group {
        None => out.len() == 0,
        Some(g) => {
            &&& g.wf()
            &&& g.chunk_count == chunks_for(data.len() as int, chunk_size as int)
            &&& g.total_bits == data.len() * 8
            &&& if g.is_complete() {
                out == seq![data]
            } else {
                &&& out.len() == 0
                &&& forall|i: int|
                    0 <= i < g.chunk_count && #[trigger] g.received[i] ==> chunk_is_in(
                        g.buffer,
                        data,
                        chunk_size as int,
                        i,
                    )
            }
        },
    }
}

/// `out` with what one delivery handed on.
pub open spec fn with_output(out: Seq<Seq<u8>>, handed: Option<Seq<u8>>) -> Seq<Seq<u8>> {
    match handed {
        Some(bytes) => out.push(bytes),
        None => out,
    }
}

/// Every byte of the payload belongs to one chunk.
proof fn lemma_byte_in_chunk(data_bytes: int, chunk_size: int, k: int)
    requires
        0 < chunk_size,
        0 <= k < data_bytes,
    ensures
        0 <= k / chunk_size < chunks_for(data_bytes, chunk_size),
        (k / chunk_size) * chunk_size <= k < (k / chunk_size) * chunk_size + chunk_size,
{
    lemma_chunks(data_bytes, chunk_size);
    lemma_fundamental_div_mod(k, chunk_size);
    lemma_mod_bound(k, chunk_size);
    let j = k / chunk_size;
    let count = chunks_for(data_bytes, chunk_size);
    assert(j * chunk_size == chunk_size * j) by (nonlinear_arith);
    assert(j >= 0) by (nonlinear_arith)
        requires
            j * chunk_size + chunk_size > 0,
            chunk_size > 0,
    ;
    if j >= count {
        assert(j * chunk_size >= count * chunk_size) by (nonlinear_arith)
            requires
                j >= count,
                chunk_size > 0,
        ;
        assert((count - 1) * chunk_size + chunk_size == count * chunk_size) by (nonlinear_arith);
    }
}

/// Two different chunks do not overlap.
proof fn lemma_chunks_apart(chunk_size: int, i: int, j: int)
    requires
        0 < chunk_size,
        0 <= i,
        0 <= j,
        i != j,
    ensures
        i * chunk_size + chunk_size <= j * chunk_size || j * chunk_size + chunk_size <= i
            * chunk_size,
{
    if i < j {
        assert(i * chunk_size + chunk_size <= j * chunk_size) by (nonlinear_arith)
            requires
                i + 1 <= j,
                0 < chunk_size,
        ;
    } else {
        assert(j * chunk_size + chunk_size <= i * chunk_size) by (nonlinear_arith)
            requires
                j + 1 <= i,
                0 < chunk_size,
        ;
    }
}

/// One chunk of the payload arrives: what was true of the group stays true,
/// the chunk is marked, and no mark is lost.
pub proof fn lemma_deliver_step(
    groups: Map<u32, GroupState>,
    group_id: u32,
    data: Seq<u8>,
    chunk_size: u32,
    index: int,
    now: int,
    out: Seq<Seq<u8>>,
)
    requires
        1 <= data.len() <= 0x1FFF_FFFF,
        1 <= chunk_size,
        0 <= index < chunks_for(data.len() as int, chunk_size as int),
        0 <= now <= u64::MAX,
        assembling(group_of(groups, group_id), out, data, chunk_size),
    ensures
        ({
            let frame = fragment_frame(group_id, data, chunk_size, index);
            let after = deliver_fragment(groups, frame, now);
            &&& assembling(
                group_of(after.0, group_id),
                with_output(out, after.1),
                data,
                chunk_size,
            )
            &&& group_of(after.0, group_id) is Some
            &&& group_of(after.0, group_id)->Some_0.received[index]
            &&& forall|i: int|
                0 <= i < chunks_for(data.len() as int, chunk_size as int) && group_of(
                    groups,
                    group_id,
                ) is Some && (#[trigger] group_of(groups, group_id)->Some_0.received[i])
                    ==> group_of(after.0, group_id)->Some_0.received[i]
        }),
{
    let size = chunk_size as int;
    let count = chunks_for(data.len() as int, size);
    let frame = fragment_frame(group_id, data, chunk_size, index);
    let header = chunk_header(group_id, data, chunk_size, index);
    let payload = chunk_bytes(data, size, index);
    lemma_fragment_frame_parses(group_id, data, chunk_size, index);
    lemma_chunks(data.len() as int, size);
    lemma_chunk_range(data.len() as int, size, index);
    assert(header.total_bytes() == data.len());
    assert(header.chunk_count() == count);
    assert(header.is_valid());
    let before = group_of(groups, group_id);
    lemma_accept_keeps_wf(before, header, payload, now);
    let start = match before {
        Some(known) => known,
        None => GroupState::fresh(header, now),
    };
    let current = GroupState { last_access: now, ..start };
    let result = accept_chunk(before, header, payload, now);
    let after = deliver_fragment(groups, frame, now);
    assert(after.0 == groups.insert(group_id, result.0));
    assert(after.1 == result.1);
    assert(group_of(after.0, group_id) == Some(result.0));
    lemma_count_true(current.received, index);
    if before is None {
        assert(count_true(start.received) == 0);
    }
    if current.received[index] {
        assert(result.0 == current);
        assert(result.1 is None);
    } else {
        assert(current.received_count < current.chunk_count);
        assert(current.buffer.len() == data.len());
        assert(payload.len() <= header.limit());
        let buffer = overlay(current.buffer, header.offset(), payload);
        let received = current.received.update(index, true);
        assert forall|i: int| 0 <= i < count && #[trigger] received[i] implies chunk_is_in(
            buffer,
            data,
            size,
            i,
        ) by {
            assert forall|k: int|
                i * size <= k < i * size + size && 0 <= k < data.len() implies #[trigger] buffer[k]
                == data[k] by {
                if i == index {
                    assert(payload[k - index * size] == data[k]);
                } else {
                    lemma_chunks_apart(size, i, index);
                    assert(current.received[i]);
                    assert(chunk_is_in(current.buffer, data, size, i));
                    assert(current.buffer[k] == data[k]);
                }
            }
        }
        if current.received_count + 1 == current.chunk_count {
            lemma_count_true(received, 0);
            assert(count_true(received) == received.len());
            assert forall|k: int| 0 <= k < data.len() implies buffer[k] == data[k] by {
                lemma_byte_in_chunk(data.len() as int, size, k);
                let j = k / size;
                assert(received[j]);
                assert(chunk_is_in(buffer, data, size, j));
            }
            assert(buffer =~= data);
            assert(with_output(out, after.1) =~= seq![data]);
        }
    }
}

/// Delivers the frames `frames[order[0]]`, `frames[order[1]]` and so on, the
/// first at `times[0]`, and appends to `out` what is handed on.
pub open spec fn deliver_in_order(
    groups: Map<u32, GroupState>,
    frames: Seq<Seq<u8>>,
    order: Seq<int>,
    times: Seq<int>,
    out: Seq<Seq<u8>>,
) -> (Map<u32, GroupState>, Seq<Seq<u8>>)
    decreases order.len(),
{
    if order.len() == 0 {
        (groups, out)
    } else {
        deliver_in_order(
            deliver_fragment(groups, frames[order[0]], times[0]).0,
            frames,
            order.drop_first(),
            times.drop_first(),
            with_output(out, deliver_fragment(groups, frames[order[0]], times[0]).1),
        )
    }
}

/// Delivering chunks of the payload in any order keeps what is true of the
/// group, marks every chunk delivered and loses no mark.
proof fn lemma_deliver_in_order(
    groups: Map<u32, GroupState>,
    group_id: u32,
    data: Seq<u8>,
    chunk_size: u32,
    order: Seq<int>,
    times: Seq<int>,
    out: Seq<Seq<u8>>,
)
    requires
        1 <= data.len() <= 0x1FFF_FFFF,
        1 <= chunk_size,
        times.len() == order.len(),
        forall|k: int| 0 <= k < times.len() ==> 0 <= #[trigger] times[k] <= u64::MAX,
        forall|k: int|
            0 <= k < order.len() ==> 0 <= #[trigger] order[k] < chunks_for(
                data.len() as int,
                chunk_size as int,
            ),
        assembling(group_of(groups, group_id), out, data, chunk_size),
    ensures
        ({
            let after = deliver_in_order(
                groups,
                fragment_frames(group_id, data, chunk_size),
                order,
                times,
                out,
            );
            &&& assembling(group_of(after.0, group_id), after.1, data, chunk_size)
            &&& order.len() > 0 ==> group_of(after.0, group_id) is Some
            &&& forall|k: int|
                0 <= k < order.len() ==> group_of(after.0, group_id)->Some_0.received[#[trigger] order[k]]
            &&& forall|i: int|
                0 <= i < chunks_for(data.len() as int, chunk_size as int) && group_of(
                    groups,
                    group_id,
                ) is Some && (#[trigger] group_of(groups, group_id)->Some_0.received[i])
                    ==> group_of(after.0, group_id) is Some && group_of(
                    after.0,
                    group_id,
                )->Some_0.received[i]
        }),
    decreases order.len(),
{
    if order.len() > 0 {
        let frames = fragment_frames(group_id, data, chunk_size);
        let index = order[0];
        assert(frames[index] == fragment_frame(group_id, data, chunk_size, index));
        lemma_deliver_step(groups, group_id, data, chunk_size, index, times[0], out);
        let step = deliver_fragment(groups, frames[index], times[0]);
        let rest = order.drop_first();
        let later = times.drop_first();
        assert forall|k: int| 0 <= k < rest.len() implies 0 <= #[trigger] rest[k] < chunks_for(
            data.len() as int,
            chunk_size as int,
        ) by {
            assert(rest[k] == order[k + 1]);
        }
        assert forall|k: int| 0 <= k < later.len() implies 0 <= #[trigger] later[k]
            <= u64::MAX by {
            assert(later[k] == times[k + 1]);
        }
        lemma_deliver_in_order(
            step.0,
            group_id,
            data,
            chunk_size,
            rest,
            later,
            with_output(out, step.1),
        );
        let after = deliver_in_order(groups, frames, order, times, out);
        assert forall|k: int| 0 <= k < order.len() implies group_of(
            after.0,
            group_id,
        )->Some_0.received[#[trigger] order[k]] by {
            if k == 0 {
                assert(group_of(step.0, group_id)->Some_0.received[index]);
            } else {
                assert(rest[k - 1] == order[k]);
            }
        }
    }
}

/// Whether the chunk `index` is among those that `order` delivers.
pub open spec fn is_delivered(order: Seq<int>, index: int) -> bool {
    exists|k: int| 0 <= k < order.len() && #[trigger] order[k] == index
}

/// Cutting a payload into chunks and delivering the chunks puts the payload
/// together again: whatever the order of the chunks and however often each
/// arrives, once every chunk has arrived, exactly one payload has been handed
/// on, and it is the one that was cut. The group must be new to the receiver.
pub proof fn lemma_fragments_round_trip(
    groups: Map<u32, GroupState>,
    group_id: u32,
    data: Seq<u8>,
    chunk_size: u32,
    order: Seq<int>,
    times: Seq<int>,
)
    requires
        1 <= data.len() <= 0x1FFF_FFFF,
        1 <= chunk_size,
        !groups.dom().contains(group_id),
        times.len() == order.len(),
        forall|k: int| 0 <= k < times.len() ==> 0 <= #[trigger] times[k] <= u64::MAX,
        forall|k: int|
            0 <= k < order.len() ==> 0 <= #[trigger] order[k] < chunks_for(
                data.len() as int,
                chunk_size as int,
            ),
        forall|i: int|
            0 <= i < chunks_for(data.len() as int, chunk_size as int) ==> #[trigger] is_delivered(
                order,
                i,
            ),
    ensures
        deliver_in_order(
            groups,
            fragment_frames(group_id, data, chunk_size),
            order,
            times,
            Seq::empty(),
        ).1 == seq![data],
{
    let count = chunks_for(data.len() as int, chunk_size as int);
    lemma_chunks(data.len() as int, chunk_size as int);
    lemma_deliver_in_order(groups, group_id, data, chunk_size, order, times, Seq::empty());
    let after = deliver_in_order(
        groups,
        fragment_frames(group_id, data, chunk_size),
        order,
        times,
        Seq::empty(),
    );
    assert(is_delivered(order, 0));
    assert(order.len() > 0);
    let group = group_of(after.0, group_id)->Some_0;
    assert forall|i: int| 0 <= i < group.received.len() implies #[trigger] group.received[i] by {
        assert(is_delivered(order, i));
        let k = choose|k: int| 0 <= k < order.len() && #[trigger] order[k] == i;
        assert(group.received[order[k]]);
    }
    lemma_all_true(group.received);
}

/// Where every chunk is marked, the count is the number of chunks.
proof fn lemma_all_true(marks: Seq<bool>)
    requires
        forall|i: int| 0 <= i < marks.len() ==> #[trigger] marks[i],
    ensures
        count_true(marks) == marks.len(),
    decreases marks.len(),
{
    if marks.len() > 0 {
        assert forall|i: int| 0 <= i < marks.drop_last().len() implies #[trigger] marks.drop_last()[i] by {
            assert(marks[i]);
        }
        lemma_all_true(marks.drop_last());
        assert(marks[marks.len() - 1]);
    }
}

/// A chunk that arrives a second time does not touch the payload: the group
/// only notes the time, and nothing is handed on.
pub proof fn lemma_repeated_chunk(
    group: Option<GroupState>,
    chunk: ChunkHeader,
    payload: Seq<u8>,
    first: int,
    second: int,
)
    requires
        chunk.is_valid(),
        0 <= first <= u64::MAX,
        group matches Some(known) ==> known.wf(),
    ensures
        ({
            let once = accept_chunk(group, chunk, payload, first).0;
            accept_chunk(Some(once), chunk, payload, second) == (
                GroupState { last_access: second, ..once },
                None::<Seq<u8>>,
            )
        }),
{
    let start = match group {
        Some(known) => known,
        None => GroupState::fresh(chunk, first),
    };
    lemma_accept_keeps_wf(group, chunk, payload, first);
    lemma_count_true(start.received, chunk.index as int);
    if group is None {
        lemma_chunks(chunk.total_bytes(), chunk.chunk_size as int);
    }
}

/// A chunk whose index names no chunk of its payload is rejected, and
/// nothing changes.
pub proof fn lemma_index_out_of_range(
    groups: Map<u32, GroupState>,
    chunk: ChunkHeader,
    payload: Seq<u8>,
    now: int,
)
    requires
        chunk.index >= chunk.chunk_count(),
    ensures
        deliver_fragment(groups, chunk.encoding() + payload, now) == (groups, None::<Seq<u8>>),
{
    let frame = chunk.encoding() + payload;
    let c = Cursor { bytes: frame, position: 0 };
    assert(c.window(chunk.encoding().len() as int) =~= chunk.encoding());
    lemma_chunk_header_round_trip(c, chunk);
}

} // verus!
