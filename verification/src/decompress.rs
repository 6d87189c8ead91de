//! Unpacking of one frame's payload into one 16-bit sample per photosite.
//!
//! A payload is stored in one of three ways: one byte per sample, four
//! 10-bit samples in every five bytes, or two 12-bit samples in every three
//! bytes. Packed samples are stored most significant bit first, in photosite
//! order. Bytes after the last complete group are ignored.
use vstd::prelude::*;
use crate::cine::BitmapInfoHeader;
use crate::conversions::{flip_rows, flip_vertical_16bit, overwritten};
use crate::grid::{lemma_cell_bound, lemma_cell_row};
use crate::errors::{CineError, CineResult};
use crate::file::CineFile;

verus! {

/// How the samples of a frame are stored in its payload.
#[derive(Clone, Copy, Debug, PartialEq, Eq, Structural)]
pub enum Decompression {
    Uncompressed,
    Packed10Bit,
    Packed12Bit,
}

/// Unpacking of a payload by what the bitmap descriptor says of it.
pub trait Decompress {
    /// The samples of the payload `data` of a frame that `header`
    /// describes. A compression code that names no storage is refused; an
    /// unpacked payload shorter than the frame cannot be converted.
    fn decompress(header: &BitmapInfoHeader, data: &[u8]) -> (r: CineResult<Vec<u16>>)
        ensures
            match Decompression::of_code(header.bi_compression) {
                None => r is Err && r->Err_0 is Unsupported,
                Some(kind) => if kind.accepts(
                    data@.len() as int,
                    header.bi_width as int,
                    header.bi_height as int,
                ) {
                    r is Ok && r->Ok_0@ == kind.samples(
                        data@,
                        header.bi_width as int,
                        header.bi_height as int,
                    )
                } else {
                    r is Err && r->Err_0 is Conversion
                },
            },
    ;
}

impl Decompress for Decompression {
    fn decompress(header: &BitmapInfoHeader, data: &[u8]) -> (r: CineResult<Vec<u16>>) {
        let kind = Decompression::get_decompression_type(&header.bi_compression)?;
        let mut samples: Vec<u16> = vec![0u16; kind.samples_in(data.len())];
        kind.unpack(data, header.bi_width, header.bi_height, samples.as_mut_slice())?;
        Ok(samples)
    }
}

/// Every byte of an unpacked payload as a sample of its own.
pub open spec fn widen(data: Seq<u8>) -> Seq<u16> {
    Seq::new(data.len(), |i: int| data[i] as u16)
}

impl Decompression {
    /// The storage that a compression code stands for, if any.
    pub open spec fn of_code(code: u32) -> Option<Decompression> {
        if code == 0 {
            Some(Decompression::Uncompressed)
        } else if code == 256 {
            Some(Decompression::Packed10Bit)
        } else if code == 1024 {
            Some(Decompression::Packed12Bit)
        } else {
            None
        }
    }

    /// Bytes of one group of samples.
    pub open spec fn block_bytes(self) -> int {
        match self {
            Decompression::Uncompressed => 1,
            Decompression::Packed10Bit => 5,
            Decompression::Packed12Bit => 3,
        }
    }

    /// Samples in one group.
    pub open spec fn samples_per_block(self) -> int {
        match self {
            Decompression::Uncompressed => 1,
            Decompression::Packed10Bit => 4,
            Decompression::Packed12Bit => 2,
        }
    }

    /// Samples in a payload of `payload_len` bytes.
    pub open spec fn sample_count(self, payload_len: int) -> int {
        payload_len / self.block_bytes() * self.samples_per_block()
    }

    /// Whether a payload of `len` bytes of a frame of `w` by `h`
    /// photosites can be unpacked. An unpacked payload stores its rows
    /// bottom-up, and so has to hold them all.
    pub open spec fn accepts(self, len: int, w: int, h: int) -> bool {
        self is Uncompressed ==> w * h <= len
    }

    /// The samples of the payload `data`, top row first.
    pub open spec fn samples(self, data: Seq<u8>, w: int, h: int) -> Seq<u16> {
        match self {
            Decompression::Uncompressed => flip_rows(widen(data), w, h),
            Decompression::Packed10Bit => unpack10(data),
            Decompression::Packed12Bit => unpack12(data),
        }
    }

    /// The storage that the compression code `compression` stands for.
    /// Every code but 0, 256 and 1024 is refused.
    pub fn get_decompression_type(compression: &u32) -> (r: CineResult<Self>)
        ensures
            match Self::of_code(*compression) {
                Some(kind) => r == Ok::<Self, CineError>(kind),
                None => r is Err && r->Err_0 is Unsupported,
            },
    {
        let code: u32 = *compression;
        if code == 0 {
            Ok(Self::Uncompressed)
        } else if code == 256 {
            Ok(Self::Packed10Bit)
        } else if code == 1024 {
            Ok(Self::Packed12Bit)
        } else {
            Err(CineError::unsupported("unsupported compression type"))
        }
    }

    /// The number of samples in a payload of `payload_len` bytes.
    pub fn samples_in(&self, payload_len: usize) -> (n: usize)
        ensures
            n == self.sample_count(payload_len as int),
    {
        match self {
            Self::Uncompressed => payload_len,
            Self::Packed10Bit => payload_len / 5 * 4,
            Self::Packed12Bit => payload_len / 3 * 2,
        }
    }

    /// Overwrites the first values of `out` by the samples of the payload
    /// `data` of a frame of `width` by `height` photosites; what follows
    /// them in `out` stays. Fails, and leaves `out` as it was, where an
    /// unpacked payload is shorter than the frame, and where `out` has no
    /// room for the samples.
    pub fn unpack(&self, data: &[u8], width: u32, height: u32, out: &mut [u16]) -> (r: CineResult<
        (),
    >)
        ensures
            r is Ok <==> self.accepts(data@.len() as int, width as int, height as int)
                && self.sample_count(data@.len() as int) <= old(out)@.len(),
            r is Ok ==> final(out)@ == overwritten(
                old(out)@,
                self.samples(data@, width as int, height as int),
            ),
            r is Err ==> r->Err_0 is Conversion && final(out)@ == old(out)@,
    {
        match self {
            Self::Uncompressed => Self::order_uncompressed(data, width, height, out),
            Self::Packed10Bit => decompress_10bit_packed(data, out),
            Self::Packed12Bit => decompress_12bit_packed(data, out),
        }
    }

    /// Unpacks the payload held in the byte buffer of `cine_file` into its
    /// sample buffer.
    pub fn decompress(cine_file: &mut CineFile) -> (r: CineResult<()>)
        ensures
            r is Ok <==> old(cine_file).compression_type.accepts(
                old(cine_file).img_byte_buffer@.len() as int,
                old(cine_file).width(),
                old(cine_file).height(),
            ) && old(cine_file).compression_type.sample_count(
                old(cine_file).img_byte_buffer@.len() as int,
            ) <= old(cine_file).pixel_buffer@.len(),
            r is Ok ==> final(cine_file).pixel_buffer@ == overwritten(
                old(cine_file).pixel_buffer@,
                old(cine_file).compression_type.samples(
                    old(cine_file).img_byte_buffer@,
                    old(cine_file).width(),
                    old(cine_file).height(),
                ),
            ),
            r is Err ==> r->Err_0 is Conversion && final(cine_file).pixel_buffer@ == old(
                cine_file,
            ).pixel_buffer@,
            final(cine_file).same_container(old(cine_file)),
            final(cine_file).img_byte_buffer@ == old(cine_file).img_byte_buffer@,
            final(cine_file).pixels@ == old(cine_file).pixels@,
    {
        let kind = cine_file.compression_type;
        let width: u32 = cine_file.bitmap_info_header.bi_width;
        let height: u32 = cine_file.bitmap_info_header.bi_height;
        kind.unpack(
            cine_file.img_byte_buffer.as_slice(),
            width,
            height,
            cine_file.pixel_buffer.as_mut_slice(),
        )
    }

    /// Unpacked payloads store the bottom row first: the samples are
    /// taken over one byte each and the rows brought into top-down order.
    fn order_uncompressed(data: &[u8], width: u32, height: u32, out: &mut [u16]) -> (r: CineResult<
        (),
    >)
        ensures
            r is Ok <==> width * height <= data@.len() <= old(out)@.len(),
            r is Ok ==> final(out)@ == overwritten(
                old(out)@,
                flip_rows(widen(data@), width as int, height as int),
            ),
            r is Err ==> r->Err_0 is Conversion && final(out)@ == old(out)@,
    {
        let n: usize = data.len();
        let ghost before = out@;
        let ghost w = width as int;
        let ghost h = height as int;
        assert(width * height <= 0xffff_ffff * 0xffff_ffff) by (nonlinear_arith)
            requires
                width <= 0xffff_ffff,
                height <= 0xffff_ffff,
        ;
        if (width as u64) * (height as u64) > n as u64 {
            return Err(CineError::conversion("samples", "the payload is shorter than the frame"));
        }
        if out.len() < n {
            return Err(CineError::conversion("samples", "the sample buffer is too short"));
        }
        let mut i: usize = 0;
        while i < n
            invariant
                n == data@.len(),
                i <= n <= out@.len() == before.len(),
                forall|k: int| 0 <= k < i ==> out@[k] == data@[k] as u16,
                forall|k: int| i <= k < out@.len() ==> out@[k] == before[k],
            decreases n - i,
        {
            out[i] = data[i] as u16;
            i += 1;
        }
        flip_vertical_16bit(out, width, height);
        proof {
            assert forall|k: int| 0 <= k < before.len() implies out@[k] == overwritten(
                before,
                flip_rows(widen(data@), w, h),
            )[k] by {
                if k < w * h {
                    lemma_cell_row(w, h, k);
                    lemma_cell_bound(w, h, h - 1 - k / w, k % w);
                }
            }
        }
        Ok(())
    }
}

/// The number of samples that unpacking yields depends on the length of the
/// payload alone: the number of complete groups times the samples of a
/// group. A payload shorter than one group yields none.
pub proof fn lemma_sample_count(kind: Decompression, data: Seq<u8>, w: int, h: int)
    ensures
        kind.samples(data, w, h).len() == kind.sample_count(data.len() as int),
        data.len() < kind.block_bytes() ==> kind.samples(data, w, h).len() == 0,
{
}

/// Sample `j` of a payload that packs four 10-bit samples into five bytes.
pub open spec fn packed10_sample(data: Seq<u8>, j: int) -> u16 {
    let g = 5 * (j / 4);
    if j % 4 == 0 {
        ((data[g] as u16) << 2) | ((data[g + 1] as u16) >> 6)
    } else if j % 4 == 1 {
        (((data[g + 1] & 0x3f) as u16) << 4) | ((data[g + 2] as u16) >> 4)
    } else if j % 4 == 2 {
        (((data[g + 2] & 0x0f) as u16) << 6) | ((data[g + 3] as u16) >> 2)
    } else {
        (((data[g + 3] & 0x03) as u16) << 8) | (data[g + 4] as u16)
    }
}

/// All samples of a 10-bit packed payload.
pub open spec fn unpack10(data: Seq<u8>) -> Seq<u16> {
    Seq::new((data.len() / 5 * 4) as nat, |j: int| packed10_sample(data, j))
}

/// Sample `j` of a payload that packs two 12-bit samples into three bytes.
pub open spec fn packed12_sample(data: Seq<u8>, j: int) -> u16 {
    let g = 3 * (j / 2);
    if j % 2 == 0 {
        ((data[g] as u16) << 4) | ((data[g + 1] as u16) >> 4)
    } else {
        (((data[g + 1] & 0x0f) as u16) << 8) | (data[g + 2] as u16)
    }
}

/// All samples of a 12-bit packed payload.
pub open spec fn unpack12(data: Seq<u8>) -> Seq<u16> {
    Seq::new((data.len() / 3 * 2) as nat, |j: int| packed12_sample(data, j))
}

/// Byte `i` of the five-byte groups that hold the 10-bit samples `samples`.
pub open spec fn packed10_byte(samples: Seq<u16>, i: int) -> u8 {
    let g = 4 * (i / 5);
    if i % 5 == 0 {
        (samples[g] >> 2) as u8
    } else if i % 5 == 1 {
        (((samples[g] & 0x03) << 6) | (samples[g + 1] >> 4)) as u8
    } else if i % 5 == 2 {
        (((samples[g + 1] & 0x0f) << 4) | (samples[g + 2] >> 6)) as u8
    } else if i % 5 == 3 {
        (((samples[g + 2] & 0x3f) << 2) | (samples[g + 3] >> 8)) as u8
    } else {
        (samples[g + 3] & 0xff) as u8
    }
}

/// The 10-bit packing of `samples`; samples after the last complete group of
/// four are left out.
pub open spec fn pack10(samples: Seq<u16>) -> Seq<u8> {
    Seq::new((samples.len() / 4 * 5) as nat, |i: int| packed10_byte(samples, i))
}

/// Byte `i` of the three-byte groups that hold the 12-bit samples `samples`.
pub open spec fn packed12_byte(samples: Seq<u16>, i: int) -> u8 {
    let g = 2 * (i / 3);
    if i % 3 == 0 {
        (samples[g] >> 4) as u8
    } else if i % 3 == 1 {
        (((samples[g] & 0x0f) << 4) | (samples[g + 1] >> 8)) as u8
    } else {
        (samples[g + 1] & 0xff) as u8
    }
}

/// The 12-bit packing of `samples`; a sample after the last complete pair
/// is left out.
pub open spec fn pack12(samples: Seq<u16>) -> Seq<u8> {
    Seq::new((samples.len() / 2 * 3) as nat, |i: int| packed12_byte(samples, i))
}

proof fn lemma_group10(s0: u16, s1: u16, s2: u16, s3: u16)
    by (bit_vector)
    requires
        s0 <= 1023,
        s1 <= 1023,
        s2 <= 1023,
        s3 <= 1023,
    ensures
        ((((s0 >> 2) as u8) as u16) << 2) | (((((s0 & 0x03) << 6) | (s1 >> 4)) as u8) as u16 >> 6)
            == s0,
        ((((((s0 & 0x03) << 6) | (s1 >> 4)) as u8) & 0x3f) as u16) << 4 | (((((s1 & 0x0f) << 4) | (
        s2 >> 6)) as u8) as u16 >> 4) == s1,
        ((((((s1 & 0x0f) << 4) | (s2 >> 6)) as u8) & 0x0f) as u16) << 6 | (((((s2 & 0x3f) << 2) | (
        s3 >> 8)) as u8) as u16 >> 2) == s2,
        ((((((s2 & 0x3f) << 2) | (s3 >> 8)) as u8) & 0x03) as u16) << 8 | (((s3 & 0xff) as u8) as u16)
            == s3,
{
}

proof fn lemma_group12(s0: u16, s1: u16)
    by (bit_vector)
    requires
        s0 <= 4095,
        s1 <= 4095,
    ensures
        ((((s0 >> 4) as u8) as u16) << 4) | (((((s0 & 0x0f) << 4) | (s1 >> 8)) as u8) as u16 >> 4)
            == s0,
        ((((((s0 & 0x0f) << 4) | (s1 >> 8)) as u8) & 0x0f) as u16) << 8 | (((s1 & 0xff) as u8) as u16)
            == s1,
{
}

/// Packing 10-bit samples and unpacking the bytes gives the samples back:
/// for every sequence of samples, each at most 1023, whose length is a
/// multiple of four.
pub proof fn lemma_unpack10_of_pack10(samples: Seq<u16>)
    requires
        samples.len() % 4 == 0,
        forall|j: int| 0 <= j < samples.len() ==> samples[j] <= 1023,
    ensures
        unpack10(pack10(samples)) == samples,
{
    let bytes = pack10(samples);
    assert forall|j: int| 0 <= j < samples.len() implies packed10_sample(bytes, j) == samples[j] by {
        let q = j / 4;
        let g = 5 * q;
        // The five bytes of group `q`, by the samples they were packed from.
        assert(g / 5 == q && (g + 1) / 5 == q && (g + 2) / 5 == q && (g + 3) / 5 == q && (g + 4)
            / 5 == q);
        assert(bytes[g] == packed10_byte(samples, g) && bytes[g + 1] == packed10_byte(
            samples,
            g + 1,
        ) && bytes[g + 2] == packed10_byte(samples, g + 2) && bytes[g + 3] == packed10_byte(
            samples,
            g + 3,
        ) && bytes[g + 4] == packed10_byte(samples, g + 4));
        lemma_group10(samples[4 * q], samples[4 * q + 1], samples[4 * q + 2], samples[4 * q + 3]);
    }
}

/// Packing 12-bit samples and unpacking the bytes gives the samples back:
/// for every sequence of samples, each at most 4095, whose length is even.
pub proof fn lemma_unpack12_of_pack12(samples: Seq<u16>)
    requires
        samples.len() % 2 == 0,
        forall|j: int| 0 <= j < samples.len() ==> samples[j] <= 4095,
    ensures
        unpack12(pack12(samples)) == samples,
{
    let bytes = pack12(samples);
    assert forall|j: int| 0 <= j < samples.len() implies packed12_sample(bytes, j) == samples[j] by {
        let q = j / 2;
        lemma_group12(samples[2 * q], samples[2 * q + 1]);
    }
}

/// Overwrites the first values of `out` by the samples of the 10-bit packed
/// payload `data`; what follows them in `out` stays. Fails, and leaves
/// `out` as it was, where `out` has no room for the samples.
pub fn decompress_10bit_packed(data: &[u8], out: &mut [u16]) -> (r: CineResult<()>)
    ensures
        r is Ok <==> unpack10(data@).len() <= old(out)@.len(),
        r is Ok ==> final(out)@ == overwritten(old(out)@, unpack10(data@)),
        r is Err ==> r->Err_0 is Conversion && final(out)@ == old(out)@,
{
    let n: usize = data.len();
    let ghost before = out@;
    if out.len() < n / 5 * 4 {
        return Err(CineError::conversion("samples", "the sample buffer is too short"));
    }
    let mut i: usize = 0;
    let mut j: usize = 0;
    while n - i >= 5
        invariant
            n == data@.len(),
            i <= n,
            i % 5 == 0,
            j == i / 5 * 4,
            n / 5 * 4 <= out@.len() == before.len(),
            forall|k: int| 0 <= k < j ==> out@[k] == packed10_sample(data@, k),
            forall|k: int| j <= k < out@.len() ==> out@[k] == before[k],
        decreases n - i,
    {
        let b0: u8 = data[i];
        let b1: u8 = data[i + 1];
        let b2: u8 = data[i + 2];
        let b3: u8 = data[i + 3];
        let b4: u8 = data[i + 4];
        out[j] = ((b0 as u16) << 2) | ((b1 as u16) >> 6);
        out[j + 1] = (((b1 & 0x3f) as u16) << 4) | ((b2 as u16) >> 4);
        out[j + 2] = (((b2 & 0x0f) as u16) << 6) | ((b3 as u16) >> 2);
        out[j + 3] = (((b3 & 0x03) as u16) << 8) | (b4 as u16);
        i += 5;
        j += 4;
    }
    Ok(())
}

/// Overwrites the first values of `out` by the samples of the 12-bit packed
/// payload `data`; what follows them in `out` stays. Fails, and leaves
/// `out` as it was, where `out` has no room for the samples.
pub fn decompress_12bit_packed(data: &[u8], out: &mut [u16]) -> (r: CineResult<()>)
    ensures
        r is Ok <==> unpack12(data@).len() <= old(out)@.len(),
        r is Ok ==> final(out)@ == overwritten(old(out)@, unpack12(data@)),
        r is Err ==> r->Err_0 is Conversion && final(out)@ == old(out)@,
{
    let n: usize = data.len();
    let ghost before = out@;
    if out.len() < n / 3 * 2 {
        return Err(CineError::conversion("samples", "the sample buffer is too short"));
    }
    let mut i: usize = 0;
    let mut j: usize = 0;
    while n - i >= 3
        invariant
            n == data@.len(),
            i <= n,
            i % 3 == 0,
            j == i / 3 * 2,
            n / 3 * 2 <= out@.len() == before.len(),
            forall|k: int| 0 <= k < j ==> out@[k] == packed12_sample(data@, k),
            forall|k: int| j <= k < out@.len() ==> out@[k] == before[k],
        decreases n - i,
    {
        let b0: u8 = data[i];
        let b1: u8 = data[i + 1];
        let b2: u8 = data[i + 2];
        out[j] = ((b0 as u16) << 4) | ((b1 as u16) >> 4);
        out[j + 1] = (((b1 & 0x0f) as u16) << 8) | (b2 as u16);
        i += 3;
        j += 2;
    }
    Ok(())
}

} // verus!
