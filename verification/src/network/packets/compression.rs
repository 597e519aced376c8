//! Payloads may arrive as LZ4 blocks: an array whose first element is an ext
//! value with the tag 98 that holds the sizes of the unpacked chunks, each 64
//! bits, most significant byte first, and whose other elements are the
//! blocks, as binary values. Any other payload is taken as it is.

use crate::network::message_pack::reader::{
    ext_read_as, optional_ext_read_as, read_bytes, spec_read_bytes, spec_try_array,
    spec_try_ext, try_array, try_ext,
};
use crate::util::byte_order::push_all;
use crate::util::custom_iterator::{bytes_read_as, Cursor, CustomIterator};
use crate::util::error_handling::{DecompressError, ReadError};
use vstd::prelude::*;

verus! {

/// The tag of the ext value that holds the sizes.
pub const LZ4_BLOCK_ARRAY: u8 = 98;

/// What `lz4::block::decompress_to_buffer` writes for a block and a declared
/// size, into a buffer of that size: the bytes written, or nothing where it
/// fails.
pub uninterp spec fn lz4_unpacked(block: Seq<u8>, size: int) -> Option<Seq<u8>>;

/// `lz4::block::decompress_to_buffer` on a buffer of `size` bytes: the bytes
/// that it wrote, or nothing where it reports an error.
#[verifier::external_body]
fn unpack_block(block: &Vec<u8>, size: i32) -> (r: Option<Vec<u8>>)
    requires
        size >= 0,
    ensures
        match lz4_unpacked(block@, size as int) {
            Some(bytes) => r is Some && r->Some_0@ == bytes,
            None => r is None,
        },
{
    let mut buffer = vec![0u8; size as usize];
    match lz4::block::decompress_to_buffer(block, Some(size), &mut buffer) {
        Ok(written) => {
            buffer.truncate(written);
            Some(buffer)
        },
        Err(_) => None,
    }
}

/// The chunk that an unpacked block makes: the block has to unpack, and to
/// exactly the declared size.
pub open spec fn spec_accept_block(unpacked: Option<Seq<u8>>, size: int) -> Result<
    Seq<u8>,
    DecompressError,
> {
    match unpacked {
        Some(bytes) => if bytes.len() == size {
            Ok(bytes)
        } else {
            Err(DecompressError::Malformed)
        },
        None => Err(DecompressError::Malformed),
    }
}

/// Checks what a block unpacked to against the declared size.
pub fn accept_block(unpacked: Option<Vec<u8>>, size: usize) -> (r: Result<
    Vec<u8>,
    DecompressError,
>)
    ensures
        match spec_accept_block(
            match unpacked {
                Some(bytes) => Some(bytes@),
                None => None,
            },
            size as int,
        ) {
            Ok(bytes) => r is Ok && r->Ok_0@ == bytes,
            Err(e) => r is Err && r->Err_0 == e,
        },
{
    match unpacked {
        Some(bytes) => {
            if bytes.len() != size {
                return Err(DecompressError::Malformed);
            }
            Ok(bytes)
        },
        None => Err(DecompressError::Malformed),
    }
}

/// Reads `count` sizes and appends them to `read`.
pub open spec fn spec_read_sizes(c: Cursor, count: int, read: Seq<u64>) -> Result<
    Seq<u64>,
    DecompressError,
>
    decreases count,
{
    if count <= 0 {
        if c.remaining() > 0 {
            Err(DecompressError::TrailingSizes)
        } else {
            Ok(read)
        }
    } else {
        match c.be_u64() {
            (Ok(size), c1) => spec_read_sizes(c1, count - 1, read.push(size)),
            (Err(e), _) => Err(DecompressError::Read(e)),
        }
    }
}

/// Reads the blocks for the sizes from the number `from` on, unpacks them
/// and appends the chunks to `out`.
pub open spec fn spec_unpack_chunks(c: Cursor, sizes: Seq<u64>, from: int, out: Seq<u8>)
    -> Result<Seq<u8>, DecompressError>
    decreases sizes.len() - from,
{
    if from < 0 || from >= sizes.len() {
        Ok(out)
    } else {
        match spec_read_bytes(c) {
            (Ok(block), c1) => if sizes[from] > i32::MAX {
                Err(DecompressError::ChunkTooLarge)
            } else {
                match spec_accept_block(
                    lz4_unpacked(block, sizes[from] as int),
                    sizes[from] as int,
                ) {
                    Ok(chunk) => spec_unpack_chunks(c1, sizes, from + 1, out + chunk),
                    Err(e) => Err(e),
                }
            },
            (Err(e), _) => Err(DecompressError::Read(e)),
        }
    }
}

/// What follows the ext value with the sizes.
pub open spec fn spec_unpack(c: Cursor, sizes_data: Seq<u8>, count: int) -> Result<
    Seq<u8>,
    DecompressError,
> {
    match spec_read_sizes(Cursor { bytes: sizes_data, position: 0 }, count, Seq::empty()) {
        Ok(sizes) => spec_unpack_chunks(c, sizes, 0, Seq::empty()),
        Err(e) => Err(e),
    }
}

/// The unpacked payload, if the bytes at the cursor have the shape of a
/// compressed one; nothing, if they have another shape.
pub open spec fn spec_try_decompress(c: Cursor) -> Result<Option<Seq<u8>>, DecompressError> {
    match spec_try_array(c) {
        (Ok(Some(array_size)), c1) => if array_size < 2 {
            Ok(None)
        } else {
            match spec_try_ext(c1) {
                (Ok(Some(ext)), c2) => if ext.0 != LZ4_BLOCK_ARRAY {
                    Ok(None)
                } else {
                    match spec_unpack(c2, ext.1, array_size - 1) {
                        Ok(bytes) => Ok(Some(bytes)),
                        Err(e) => Err(e),
                    }
                },
                (Ok(None), _) => Ok(None),
                (Err(e), _) => Err(DecompressError::Read(e)),
            }
        },
        (Ok(None), _) => Ok(None),
        (Err(e), _) => Err(DecompressError::Read(e)),
    }
}

fn read_sizes(data: Vec<u8>, count: u32) -> (r: Result<Vec<u64>, DecompressError>)
    ensures
        match spec_read_sizes(Cursor { bytes: data@, position: 0 }, count as int, Seq::empty()) {
            Ok(sizes) => r is Ok && r->Ok_0@ == sizes,
            Err(e) => r is Err && r->Err_0 == e,
        },
{
    let mut iterator = CustomIterator::own(data);
    let ghost start = iterator@;
    let mut sizes: Vec<u64> = Vec::new();
    let mut left: u32 = count;
    while left > 0
        invariant
            start == (Cursor { bytes: data@, position: 0 }),
            spec_read_sizes(iterator@, left as int, sizes@) == spec_read_sizes(
                start,
                count as int,
                Seq::empty(),
            ),
        decreases left,
    {
        let size = match iterator.read_be_u64() {
            Ok(size) => size,
            Err(e) => {
                return Err(DecompressError::Read(e));
            },
        };
        sizes.push(size);
        left -= 1;
    }
    if iterator.has_more() {
        return Err(DecompressError::TrailingSizes);
    }
    Ok(sizes)
}

fn unpack_chunks(iterator: &mut CustomIterator, sizes: &Vec<u64>) -> (r: Result<
    Vec<u8>,
    DecompressError,
>)
    ensures
        final(iterator)@.bytes == old(iterator)@.bytes,
        match spec_unpack_chunks(old(iterator)@, sizes@, 0, Seq::empty()) {
            Ok(bytes) => r is Ok && r->Ok_0@ == bytes,
            Err(e) => r is Err && r->Err_0 == e,
        },
{
    let mut out: Vec<u8> = Vec::new();
    let mut i: usize = 0;
    while i < sizes.len()
        invariant
            i <= sizes@.len(),
            iterator@.bytes == old(iterator)@.bytes,
            spec_unpack_chunks(iterator@, sizes@, i as int, out@) == spec_unpack_chunks(
                old(iterator)@,
                sizes@,
                0,
                Seq::empty(),
            ),
        decreases sizes@.len() - i,
    {
        let block = match read_bytes(iterator) {
            Ok(block) => block,
            Err(e) => {
                return Err(DecompressError::Read(e));
            },
        };
        let size: u64 = sizes[i];
        if size > i32::MAX as u64 {
            return Err(DecompressError::ChunkTooLarge);
        }
        let chunk = accept_block(unpack_block(&block, size as i32), size as usize)?;
        push_all(&mut out, chunk.as_slice());
        i += 1;
    }
    Ok(out)
}

/// Unpacks the payload at the cursor, if it has the shape of a compressed
/// one. The cursor stays where it is unless an error is reported.
pub fn try_decompress(iterator: &mut CustomIterator) -> (r: Result<
    Option<Vec<u8>>,
    DecompressError,
>)
    ensures
        final(iterator)@.bytes == old(iterator)@.bytes,
        r is Ok ==> final(iterator)@ == old(iterator)@,
        match spec_try_decompress(old(iterator)@) {
            Ok(Some(bytes)) => r is Ok && r->Ok_0 is Some && r->Ok_0->Some_0@ == bytes,
            Ok(None) => r is Ok && r->Ok_0 is None,
            Err(e) => r is Err && r->Err_0 == e,
        },
{
    let iterator_position = iterator.pointer_save();
    let res = try_decompress_inner(iterator)?;
    iterator.pointer_restore(iterator_position);
    Ok(res)
}

fn try_decompress_inner(iterator: &mut CustomIterator) -> (r: Result<
    Option<Vec<u8>>,
    DecompressError,
>)
    ensures
        final(iterator)@.bytes == old(iterator)@.bytes,
        match spec_try_decompress(old(iterator)@) {
            Ok(Some(bytes)) => r is Ok && r->Ok_0 is Some && r->Ok_0->Some_0@ == bytes,
            Ok(None) => r is Ok && r->Ok_0 is None,
            Err(e) => r is Err && r->Err_0 == e,
        },
{
    let array_size = match try_array(iterator) {
        Ok(Some(array_size)) => array_size,
        Ok(None) => {
            return Ok(None);
        },
        Err(e) => {
            return Err(DecompressError::Read(e));
        },
    };
    if array_size < 2 {
        return Ok(None);
    }
    let (tag, sizes_data) = match try_ext(iterator) {
        Ok(Some(ext)) => ext,
        Ok(None) => {
            return Ok(None);
        },
        Err(e) => {
            return Err(DecompressError::Read(e));
        },
    };
    if tag != LZ4_BLOCK_ARRAY {
        return Ok(None);
    }
    let sizes = read_sizes(sizes_data, array_size - 1)?;
    let bytes = unpack_chunks(iterator, &sizes)?;
    Ok(Some(bytes))
}

} // verus!
