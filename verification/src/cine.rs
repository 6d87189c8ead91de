//! The records at the head of a CINE container, and their wire layout.
//!
//! Each record is decoded from a byte region of exactly its wire size.
//! Only the fields that the decoder consumes are read; every offset below
//! counts bytes from the start of the record.
use vstd::prelude::*;
use crate::errors::{CineError, CineResult};
use crate::packed::{le_i64, le_u16, le_u32, read_i64_le, read_u16_le, read_u32_le};

verus! {

/// Bytes of a file header on the wire.
pub const FILE_HEADER_SIZE: usize = 44;

/// Offset of the marker in a file header.
pub const HEADER_TYPE_AT: usize = 0;

/// Offset of the header size in a file header.
pub const HEADER_SIZE_AT: usize = 2;

/// Offset of the compression marker in a file header.
pub const HEADER_COMPRESSION_AT: usize = 4;

/// Offset of the version in a file header.
pub const HEADER_VERSION_AT: usize = 6;

/// Offset of the frame count in a file header.
pub const HEADER_IMAGE_COUNT_AT: usize = 20;

/// Offset, in a file header, of the offset of the bitmap descriptor.
pub const HEADER_OFFSET_IMAGE_HEADER_AT: usize = 24;

/// Offset, in a file header, of the offset of the setup block.
pub const HEADER_OFFSET_SETUP_AT: usize = 28;

/// Offset, in a file header, of the offset of the frame-offset table.
pub const HEADER_OFFSET_IMAGE_OFFSETS_AT: usize = 32;

/// Bytes of a bitmap descriptor on the wire.
pub const BITMAP_HEADER_SIZE: usize = 40;

/// Offset of the descriptor's own size in a bitmap descriptor.
pub const BITMAP_SIZE_AT: usize = 0;

/// Offset of the width in a bitmap descriptor.
pub const BITMAP_WIDTH_AT: usize = 4;

/// Offset of the height in a bitmap descriptor.
pub const BITMAP_HEIGHT_AT: usize = 8;

/// Offset of the bits per sample in a bitmap descriptor.
pub const BITMAP_BIT_COUNT_AT: usize = 14;

/// Offset of the compression code in a bitmap descriptor.
pub const BITMAP_COMPRESSION_AT: usize = 16;

/// Offset of the payload size in a bitmap descriptor.
pub const BITMAP_SIZE_IMAGE_AT: usize = 20;

/// Bytes of a setup block on the wire, up to the end of its gamma field.
pub const SETUP_SIZE: usize = 6028;

/// Offset of the vertical-flip flag in a setup block.
pub const SETUP_FLIP_V_AT: usize = 760;

/// Offset of the CFA code in a setup block.
pub const SETUP_CFA_AT: usize = 808;

/// Offset of the gamma value in a setup block.
pub const SETUP_GAMMA_AT: usize = 6024;

/// Bytes of one entry of the frame-offset table.
pub const FRAME_OFFSET_SIZE: usize = 8;

/// The file header: where the other records are, and how many frames the
/// container holds.
#[derive(Clone, Copy, Debug, PartialEq, Eq, Structural)]
pub struct CineFileHeader {
    /// The marker that opens a container.
    pub file_type: u16,
    pub header_size: u16,
    /// The container-level compression marker.
    pub compression: u16,
    pub version: u16,
    /// Number of frames stored.
    pub image_count: u32,
    /// Offset of the bitmap descriptor from the start of the file.
    pub offset_image_header: u32,
    /// Offset of the setup block from the start of the file.
    pub offset_setup: u32,
    /// Offset of the frame-offset table from the start of the file.
    pub offset_image_offsets: u32,
}

/// The bitmap descriptor: the geometry of every frame and how its payload
/// is stored.
#[derive(Clone, Copy, Debug, PartialEq, Eq, Structural)]
pub struct BitmapInfoHeader {
    pub bi_size: u32,
    /// Photosites per row.
    pub bi_width: u32,
    /// Rows per frame.
    pub bi_height: u32,
    pub bi_bit_count: u16,
    /// 0 for unpacked, 256 for 10-bit packed, 1024 for 12-bit packed.
    pub bi_compression: u32,
    /// Bytes of the payload of every frame.
    pub bi_size_image: u32,
}

/// The part of the camera setup that the decoder consumes.
#[derive(Clone, Copy, Debug, PartialEq, Eq, Structural)]
pub struct Setup {
    /// Sensor layout in the low byte, gray-head markers in the high four
    /// bits.
    pub cfa: u32,
    /// Whether the camera stored the rows of a frame in reverse order.
    pub flip_v: bool,
    /// The bit pattern of the 32-bit floating-point gamma value.
    pub gamma_bits: u32,
}

impl CineFileHeader {
    /// The header that the 44 bytes `bytes` encode.
    pub open spec fn of_bytes(bytes: Seq<u8>) -> Self {
        CineFileHeader {
            file_type: le_u16(bytes, HEADER_TYPE_AT as int),
            header_size: le_u16(bytes, HEADER_SIZE_AT as int),
            compression: le_u16(bytes, HEADER_COMPRESSION_AT as int),
            version: le_u16(bytes, HEADER_VERSION_AT as int),
            image_count: le_u32(bytes, HEADER_IMAGE_COUNT_AT as int),
            offset_image_header: le_u32(bytes, HEADER_OFFSET_IMAGE_HEADER_AT as int),
            offset_setup: le_u32(bytes, HEADER_OFFSET_SETUP_AT as int),
            offset_image_offsets: le_u32(bytes, HEADER_OFFSET_IMAGE_OFFSETS_AT as int),
        }
    }

    /// Decodes a file header. Fails unless `bytes` has the wire size of
    /// the record.
    pub fn decode(bytes: &[u8]) -> (r: CineResult<Self>)
        ensures
            bytes@.len() == FILE_HEADER_SIZE ==> r == Ok::<Self, CineError>(
                Self::of_bytes(bytes@),
            ),
            bytes@.len() != FILE_HEADER_SIZE ==> r is Err && r->Err_0 is IoError,
    {
        if bytes.len() != FILE_HEADER_SIZE {
            return Err(CineError::io("a file header takes 44 bytes"));
        }
        Ok(
            CineFileHeader {
                file_type: read_u16_le(bytes, HEADER_TYPE_AT),
                header_size: read_u16_le(bytes, HEADER_SIZE_AT),
                compression: read_u16_le(bytes, HEADER_COMPRESSION_AT),
                version: read_u16_le(bytes, HEADER_VERSION_AT),
                image_count: read_u32_le(bytes, HEADER_IMAGE_COUNT_AT),
                offset_image_header: read_u32_le(bytes, HEADER_OFFSET_IMAGE_HEADER_AT),
                offset_setup: read_u32_le(bytes, HEADER_OFFSET_SETUP_AT),
                offset_image_offsets: read_u32_le(bytes, HEADER_OFFSET_IMAGE_OFFSETS_AT),
            },
        )
    }
}

impl BitmapInfoHeader {
    /// The descriptor that the 40 bytes `bytes` encode.
    pub open spec fn of_bytes(bytes: Seq<u8>) -> Self {
        BitmapInfoHeader {
            bi_size: le_u32(bytes, BITMAP_SIZE_AT as int),
            bi_width: le_u32(bytes, BITMAP_WIDTH_AT as int),
            bi_height: le_u32(bytes, BITMAP_HEIGHT_AT as int),
            bi_bit_count: le_u16(bytes, BITMAP_BIT_COUNT_AT as int),
            bi_compression: le_u32(bytes, BITMAP_COMPRESSION_AT as int),
            bi_size_image: le_u32(bytes, BITMAP_SIZE_IMAGE_AT as int),
        }
    }

    /// Decodes a bitmap descriptor. Fails unless `bytes` has the wire size
    /// of the record.
    pub fn decode(bytes: &[u8]) -> (r: CineResult<Self>)
        ensures
            bytes@.len() == BITMAP_HEADER_SIZE ==> r == Ok::<Self, CineError>(
                Self::of_bytes(bytes@),
            ),
            bytes@.len() != BITMAP_HEADER_SIZE ==> r is Err && r->Err_0 is IoError,
    {
        if bytes.len() != BITMAP_HEADER_SIZE {
            return Err(CineError::io("a bitmap descriptor takes 40 bytes"));
        }
        Ok(
            BitmapInfoHeader {
                bi_size: read_u32_le(bytes, BITMAP_SIZE_AT),
                bi_width: read_u32_le(bytes, BITMAP_WIDTH_AT),
                bi_height: read_u32_le(bytes, BITMAP_HEIGHT_AT),
                bi_bit_count: read_u16_le(bytes, BITMAP_BIT_COUNT_AT),
                bi_compression: read_u32_le(bytes, BITMAP_COMPRESSION_AT),
                bi_size_image: read_u32_le(bytes, BITMAP_SIZE_IMAGE_AT),
            },
        )
    }
}

impl Setup {
    /// The setup that the 6028 bytes `bytes` encode.
    pub open spec fn of_bytes(bytes: Seq<u8>) -> Self {
        Setup {
            cfa: le_u32(bytes, SETUP_CFA_AT as int),
            flip_v: bytes[SETUP_FLIP_V_AT as int] != 0,
            gamma_bits: le_u32(bytes, SETUP_GAMMA_AT as int),
        }
    }

    /// Decodes a setup block. Fails unless `bytes` has the wire size of
    /// the record.
    pub fn decode(bytes: &[u8]) -> (r: CineResult<Self>)
        ensures
            bytes@.len() == SETUP_SIZE ==> r == Ok::<Self, CineError>(Self::of_bytes(bytes@)),
            bytes@.len() != SETUP_SIZE ==> r is Err && r->Err_0 is IoError,
    {
        if bytes.len() != SETUP_SIZE {
            return Err(CineError::io("a setup block takes 6028 bytes"));
        }
        Ok(
            Setup {
                cfa: read_u32_le(bytes, SETUP_CFA_AT),
                flip_v: bytes[SETUP_FLIP_V_AT] != 0,
                gamma_bits: read_u32_le(bytes, SETUP_GAMMA_AT),
            },
        )
    }
}

/// The `count` frame offsets that `bytes` encodes, eight bytes each.
pub open spec fn frame_offsets_of(bytes: Seq<u8>, count: int) -> Seq<i64> {
    Seq::new(count as nat, |k: int| le_i64(bytes, FRAME_OFFSET_SIZE * k))
}

/// Decodes a frame-offset table of `count` entries. Fails unless `bytes`
/// holds exactly that many entries.
pub fn decode_frame_offsets(bytes: &[u8], count: u32) -> (r: CineResult<Vec<i64>>)
    ensures
        bytes@.len() == FRAME_OFFSET_SIZE * count ==> r is Ok && r->Ok_0@ == frame_offsets_of(
            bytes@,
            count as int,
        ),
        bytes@.len() != FRAME_OFFSET_SIZE * count ==> r is Err && r->Err_0 is IoError,
{
    let len: usize = bytes.len();
    if len % FRAME_OFFSET_SIZE != 0 || len / FRAME_OFFSET_SIZE != count as usize {
        return Err(CineError::io("a frame-offset table takes 8 bytes for every frame"));
    }
    let n: usize = count as usize;
    let mut offsets: Vec<i64> = Vec::with_capacity(n);
    let mut k: usize = 0;
    while k < n
        invariant
            len == bytes@.len(),
            len == FRAME_OFFSET_SIZE * n,
            k <= n,
            offsets@.len() == k,
            forall|j: int| 0 <= j < k ==> offsets@[j] == le_i64(bytes@, FRAME_OFFSET_SIZE * j),
        decreases n - k,
    {
        offsets.push(read_i64_le(bytes, FRAME_OFFSET_SIZE * k));
        k += 1;
    }
    Ok(offsets)
}

} // verus!
