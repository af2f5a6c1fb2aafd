//! The bundle container: a fixed header, a table of compressed block sizes and
//! the compressed blocks themselves.
//!
//! Block decompression is a native primitive that lives outside this crate.
//! The container logic here says which bytes each call of the primitive is
//! given, how many bytes it must produce and where they go, and judges what
//! the primitive returned.

use crate::bytes::{le_u32_at, le_u64_at, u32_at, u64_at};
use vstd::prelude::*;

verus! {

/// Length of the fixed part of a bundle header.
pub const HEADER_LEN: usize = 60;

/// Why a bundle could not be read or decompressed.
#[derive(Debug, Clone, Copy, PartialEq, Eq, Structural)]
pub enum BundleError {
    /// The input ends before the header, the block table or a compressed
    /// block is complete.
    UnexpectedEof,
    /// The decompression primitive returned `returned` for a block that must
    /// decompress to exactly `expected` bytes.
    SizeMismatch { returned: i32, expected: usize },
}

/// One archive container.
#[derive(Debug, Clone, PartialEq, Eq)]
pub struct Bundle {
    pub uncompressed_size: u32,
    pub total_payload_size: u32,
    pub head_payload_size: u32,
    pub first_file_encode: u32,
    pub uncompressed_size2: u64,
    pub total_payload_size2: u64,
    pub block_count: u32,
    pub chunk_size: u32,
    pub block_sizes: Vec<u32>,
    pub data_offset: u64,
}

/// A bundle as a mathematical value.
pub struct BundleView {
    pub uncompressed_size: u32,
    pub total_payload_size: u32,
    pub head_payload_size: u32,
    pub first_file_encode: u32,
    pub uncompressed_size2: u64,
    pub total_payload_size2: u64,
    pub block_count: u32,
    pub chunk_size: u32,
    pub block_sizes: Seq<u32>,
    pub data_offset: u64,
}

impl View for Bundle {
    type V = BundleView;

    open spec fn view(&self) -> BundleView {
        BundleView {
            uncompressed_size: self.uncompressed_size,
            total_payload_size: self.total_payload_size,
            head_payload_size: self.head_payload_size,
            first_file_encode: self.first_file_encode,
            uncompressed_size2: self.uncompressed_size2,
            total_payload_size2: self.total_payload_size2,
            block_count: self.block_count,
            chunk_size: self.chunk_size,
            block_sizes: self.block_sizes@,
            data_offset: self.data_offset,
        }
    }
}

/// One call of the decompression primitive: the compressed bytes it is given
/// and the part of the output it must fill.
#[derive(Debug, Clone, Copy, PartialEq, Eq, Structural)]
pub struct BlockTask {
    /// Where the compressed block starts in the input; `u64::MAX` when the
    /// block starts beyond what a `u64` can address. No input reaches that
    /// far, so the block passes `check_source` only if it is empty, as it
    /// would with its true offset.
    pub source_offset: u64,
    /// Length of the compressed block.
    pub source_len: u32,
    /// Where the decompressed bytes start in the output.
    pub target_offset: usize,
    /// How many bytes the block must decompress to.
    pub target_len: usize,
}

/// Whether `data` holds the fixed header and the whole block table that the
/// header announces.
pub open spec fn header_complete(data: Seq<u8>) -> bool {
    data.len() >= HEADER_LEN && data.len() >= HEADER_LEN + 4 * le_u32_at(data, 36)
}

/// The bundle that the header at the start of `data` describes.
pub open spec fn parse_header(data: Seq<u8>) -> BundleView {
    let block_count = le_u32_at(data, 36);
    BundleView {
        uncompressed_size: le_u32_at(data, 0) as u32,
        total_payload_size: le_u32_at(data, 4) as u32,
        head_payload_size: le_u32_at(data, 8) as u32,
        first_file_encode: le_u32_at(data, 12) as u32,
        uncompressed_size2: le_u64_at(data, 20) as u64,
        total_payload_size2: le_u64_at(data, 28) as u64,
        block_count: block_count as u32,
        chunk_size: le_u32_at(data, 40) as u32,
        block_sizes: Seq::new(block_count as nat, |i: int| le_u32_at(data, HEADER_LEN + 4 * i) as u32),
        data_offset: (HEADER_LEN + 4 * block_count) as u64,
    }
}

/// Total length of the first `n` compressed blocks.
pub open spec fn compressed_before(sizes: Seq<u32>, n: nat) -> nat
    decreases n,
{
    if n == 0 {
        0
    } else {
        compressed_before(sizes, (n - 1) as nat) + sizes[n - 1] as nat
    }
}

/// How many bytes a block must decompress to when `written` bytes of the
/// output are already filled.
pub open spec fn block_output_len(uncompressed: nat, chunk: nat, written: nat) -> nat {
    if uncompressed <= written {
        0
    } else if chunk <= uncompressed - written {
        chunk
    } else {
        (uncompressed - written) as nat
    }
}

/// How many bytes of the output the first `n` blocks fill.
pub open spec fn written_before(uncompressed: nat, chunk: nat, n: nat) -> nat
    decreases n,
{
    if n == 0 {
        0
    } else {
        let w = written_before(uncompressed, chunk, (n - 1) as nat);
        w + block_output_len(uncompressed, chunk, w)
    }
}

impl BundleView {
    /// Where compressed block `i` starts in the input.
    pub open spec fn source_offset(self, i: nat) -> nat {
        self.data_offset as nat + compressed_before(self.block_sizes, i)
    }

    /// The task of block `i`.
    pub open spec fn task(self, i: nat) -> BlockTask {
        let written = written_before(self.uncompressed_size as nat, self.chunk_size as nat, i);
        BlockTask {
            source_offset: if self.source_offset(i) <= u64::MAX {
                self.source_offset(i) as u64
            } else {
                u64::MAX
            },
            source_len: self.block_sizes[i as int],
            target_offset: written as usize,
            target_len: block_output_len(
                self.uncompressed_size as nat,
                self.chunk_size as nat,
                written,
            ) as usize,
        }
    }

    /// The tasks of all blocks, in the order in which they are carried out.
    pub open spec fn tasks(self) -> Seq<BlockTask> {
        Seq::new(self.block_sizes.len(), |i: int| self.task(i as nat))
    }
}

impl BlockTask {
    /// Whether the compressed block can be read from an input of `stream_len`
    /// bytes. An empty block can be read anywhere.
    pub open spec fn source_available(self, stream_len: u64) -> bool {
        self.source_len == 0 || self.source_offset + self.source_len <= stream_len
    }

    /// Whether `returned` is what the primitive must return for this block.
    pub open spec fn accepts(self, returned: i32) -> bool {
        returned as int == self.target_len as int
    }

    /// Checks that the compressed block lies inside an input of `stream_len`
    /// bytes.
    pub fn check_source(&self, stream_len: u64) -> (r: Result<(), BundleError>)
        ensures
            r == if self.source_available(stream_len) {
                Ok::<(), BundleError>(())
            } else {
                Err(BundleError::UnexpectedEof)
            },
    {
        if self.source_len == 0 {
            Ok(())
        } else if self.source_offset <= stream_len && self.source_len as u64 <= stream_len
            - self.source_offset {
            Ok(())
        } else {
            Err(BundleError::UnexpectedEof)
        }
    }

    /// Judges the value that the primitive returned for this block: anything
    /// but the exact number of bytes asked for is an error that carries both
    /// numbers.
    pub fn check_result(&self, returned: i32) -> (r: Result<(), BundleError>)
        ensures
            r == if self.accepts(returned) {
                Ok::<(), BundleError>(())
            } else {
                Err(BundleError::SizeMismatch { returned, expected: self.target_len })
            },
    {
        if returned >= 0 && returned as u64 == self.target_len as u64 {
            Ok(())
        } else {
            Err(BundleError::SizeMismatch { returned, expected: self.target_len })
        }
    }
}

/// The first `n` blocks fill `n` whole chunks, or the whole output if that is
/// less.
pub proof fn lemma_written_before(uncompressed: nat, chunk: nat, n: nat)
    ensures
        written_before(uncompressed, chunk, n) == if n * chunk <= uncompressed {
            n * chunk
        } else {
            uncompressed
        },
    decreases n,
{
    if n == 0 {
        assert(n * chunk == 0) by (nonlinear_arith)
            requires
                n == 0,
        ;
    } else {
        let m = (n - 1) as nat;
        lemma_written_before(uncompressed, chunk, m);
        assert(n * chunk == m * chunk + chunk) by (nonlinear_arith)
            requires
                n == m + 1,
        ;
    }
}

/// As long as the chunks of all blocks together cover the declared size, the
/// lengths asked of the blocks add up to exactly that size.
pub proof fn lemma_block_lengths_sum_to_size(uncompressed: nat, chunk: nat, blocks: nat)
    requires
        blocks * chunk >= uncompressed,
    ensures
        written_before(uncompressed, chunk, blocks) == uncompressed,
{
    lemma_written_before(uncompressed, chunk, blocks);
}

/// Every block that a whole chunk is left for must decompress to a whole
/// chunk.
pub proof fn lemma_whole_chunks(bundle: BundleView, i: nat)
    requires
        (i + 1) * bundle.chunk_size <= bundle.uncompressed_size,
    ensures
        bundle.task(i).target_offset == i * bundle.chunk_size,
        bundle.task(i).target_len == bundle.chunk_size,
{
    lemma_written_before(bundle.uncompressed_size as nat, bundle.chunk_size as nat, i);
    assert((i + 1) * bundle.chunk_size == i * bundle.chunk_size + bundle.chunk_size)
        by (nonlinear_arith);
    assert(i * bundle.chunk_size >= 0) by (nonlinear_arith);
}

/// The tasks fill the output from its start without gap or overlap and never
/// reach beyond the declared size.
pub proof fn lemma_tasks_tile_the_output(bundle: BundleView, i: nat)
    ensures
        bundle.task(0).target_offset == 0,
        bundle.task(i).target_offset + bundle.task(i).target_len == bundle.task(
            i + 1,
        ).target_offset,
        bundle.task(i).target_offset + bundle.task(i).target_len <= bundle.uncompressed_size,
{
    lemma_written_before(bundle.uncompressed_size as nat, bundle.chunk_size as nat, i);
    lemma_written_before(bundle.uncompressed_size as nat, bundle.chunk_size as nat, i + 1);
}

impl Bundle {
    /// Length of the block size table that the fixed header at the start of
    /// `data` announces, or nothing where `data` is too short for the fixed
    /// header.
    pub fn block_table_len(data: &[u8]) -> (len: Option<u64>)
        ensures
            match len {
                Some(len) => data@.len() >= HEADER_LEN && len == 4 * le_u32_at(data@, 36),
                None => data@.len() < HEADER_LEN,
            },
    {
        if data.len() < HEADER_LEN {
            None
        } else {
            Some(4 * (u32_at(data, 36) as u64))
        }
    }

    /// Reads the fixed header and the block size table from the start of
    /// `data`. Offsets in the result count from the start of `data`.
    pub fn read_header(data: &[u8]) -> (r: Result<Bundle, BundleError>)
        ensures
            match r {
                Ok(bundle) => header_complete(data@) && bundle@ == parse_header(data@),
                Err(e) => !header_complete(data@) && e == BundleError::UnexpectedEof,
            },
    {
        if data.len() < HEADER_LEN {
            return Err(BundleError::UnexpectedEof);
        }
        let uncompressed_size = u32_at(data, 0);
        let total_payload_size = u32_at(data, 4);
        let head_payload_size = u32_at(data, 8);
        let first_file_encode = u32_at(data, 12);
        let uncompressed_size2 = u64_at(data, 20);
        let total_payload_size2 = u64_at(data, 28);
        let block_count = u32_at(data, 36);
        let chunk_size = u32_at(data, 40);
        let table_len: u64 = 4 * (block_count as u64);
        if ((data.len() - HEADER_LEN) as u64) < table_len {
            return Err(BundleError::UnexpectedEof);
        }
        let mut block_sizes: Vec<u32> = Vec::new();
        let mut i: usize = 0;
        while i < block_count as usize
            invariant
                data@.len() == data.len(),
                data@.len() >= HEADER_LEN + 4 * block_count,
                i <= block_count,
                block_sizes@.len() == i,
                forall|k: int|
                    0 <= k < i ==> block_sizes@[k] == le_u32_at(data@, HEADER_LEN + 4 * k) as u32,
            decreases block_count - i,
        {
            let size = u32_at(data, HEADER_LEN + 4 * i);
            block_sizes.push(size);
            i += 1;
        }
        let data_offset: u64 = HEADER_LEN as u64 + table_len;
        let bundle = Bundle {
            uncompressed_size,
            total_payload_size,
            head_payload_size,
            first_file_encode,
            uncompressed_size2,
            total_payload_size2,
            block_count,
            chunk_size,
            block_sizes,
            data_offset,
        };
        assert(bundle@.block_sizes =~= parse_header(data@).block_sizes);
        Ok(bundle)
    }

    /// Lays out the decompression of the bundle: one task per block, in
    /// order. Each block must decompress to a whole chunk, or to what is left
    /// of the declared size if that is less.
    pub fn decompress(&self) -> (tasks: Vec<BlockTask>)
        ensures
            tasks@ == self@.tasks(),
    {
        let mut tasks: Vec<BlockTask> = Vec::new();
        let mut position: u64 = self.data_offset;
        let mut written: u32 = 0;
        let mut i: usize = 0;
        while i < self.block_sizes.len()
            invariant
                i <= self.block_sizes@.len(),
                tasks@.len() == i,
                forall|k: int| 0 <= k < i ==> tasks@[k] == self@.task(k as nat),
                position == if self@.source_offset(i as nat) <= u64::MAX {
                    self@.source_offset(i as nat) as u64
                } else {
                    u64::MAX
                },
                written == written_before(
                    self.uncompressed_size as nat,
                    self.chunk_size as nat,
                    i as nat,
                ),
                written <= self.uncompressed_size,
            decreases self.block_sizes@.len() - i,
        {
            let size = self.block_sizes[i];
            let remaining = self.uncompressed_size - written;
            let target_len = if self.chunk_size <= remaining {
                self.chunk_size
            } else {
                remaining
            };
            tasks.push(
                BlockTask {
                    source_offset: position,
                    source_len: size,
                    target_offset: written as usize,
                    target_len: target_len as usize,
                },
            );
            position = position.saturating_add(size as u64);
            written = written + target_len;
            i += 1;
        }
        proof {
            assert(tasks@ =~= self@.tasks());
        }
        tasks
    }
}

} // verus!
