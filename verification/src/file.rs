//! Video sources: a container held in memory, its headers, and the frames
//! it gives out.
use vstd::prelude::*;
use vstd::string::*;
use crate::cine::{
    frame_offsets_of, decode_frame_offsets, BitmapInfoHeader, CineFileHeader, Setup,
    BITMAP_HEADER_SIZE, FILE_HEADER_SIZE, FRAME_OFFSET_SIZE, SETUP_SIZE,
};
use crate::conversions::{cfa_of_code, overwritten, ColorFilterArray};
use crate::decompress::{lemma_sample_count, Decompression};
use crate::errors::{CineError, CineResult, Failure, FrameRangeError};
use crate::exporters::{
    base64_standard, le_bytes, png_encoding, png_ready, FrameData, FrameType, SaveData, SaveType,
};
use crate::packed::{le_u32, read_bytes, read_u32_le, slice_at};

verus! {

/// What a caller can ask of a video source, whatever its container.
pub trait VideoOps {
    /// The name and the geometry of the video.
    fn get_headers(&self) -> (r: CineResult<VideoHeader>);

    /// Frame `frame_no` in the form `frame_type`.
    fn get_frame_as(&mut self, frame_no: i32, frame_type: FrameType) -> (r: CineResult<FrameData>);

    /// The bytes of the file that holds frame `frame_no` in the format
    /// `save_type`, for the caller to write out.
    fn save_frame_as(&mut self, frame_no: i32, save_type: SaveType) -> (r: CineResult<SaveData>);
}

/// The name and the geometry of a video.
#[derive(Debug)]
pub struct VideoHeader {
    pub file_name: String,
    pub width: u32,
    pub height: u32,
    pub frame_count: u32,
}

/// A CINE container, opened: its bytes, its decoded records, and the three
/// buffers that every frame request reuses. `open` makes a well-formed
/// value and gives the buffers their lengths; no operation changes
/// anything but what the buffers hold.
#[derive(Debug)]
pub struct CineFile {
    /// The bytes of the container.
    pub file: Vec<u8>,
    pub cine_file_header: CineFileHeader,
    pub bitmap_info_header: BitmapInfoHeader,
    pub setup: Setup,
    /// The offsets of the annotation blocks of the frames, in frame order.
    pub p_images: Vec<i64>,
    pub compression_type: Decompression,
    pub cfa: ColorFilterArray,
    /// The payload of the frame last requested.
    pub img_byte_buffer: Vec<u8>,
    /// Its samples, one per photosite.
    pub pixel_buffer: Vec<u16>,
    /// Its pixel values.
    pub pixels: Vec<u16>,
}

/// The file header of the container `file`.
pub open spec fn header_of(file: Seq<u8>) -> Option<CineFileHeader> {
    match slice_at(file, 0, FILE_HEADER_SIZE as int) {
        Some(bytes) => Some(CineFileHeader::of_bytes(bytes)),
        None => None,
    }
}

/// The bitmap descriptor of the container `file`, where the file header
/// says.
pub open spec fn bitmap_of(file: Seq<u8>) -> Option<BitmapInfoHeader> {
    match header_of(file) {
        Some(header) => match slice_at(
            file,
            header.offset_image_header as int,
            BITMAP_HEADER_SIZE as int,
        ) {
            Some(bytes) => Some(BitmapInfoHeader::of_bytes(bytes)),
            None => None,
        },
        None => None,
    }
}

/// The setup block of the container `file`, where the file header says.
pub open spec fn setup_of(file: Seq<u8>) -> Option<Setup> {
    match header_of(file) {
        Some(header) => match slice_at(file, header.offset_setup as int, SETUP_SIZE as int) {
            Some(bytes) => Some(Setup::of_bytes(bytes)),
            None => None,
        },
        None => None,
    }
}

/// The frame-offset table of the container `file`: one entry for each of
/// the frames that the file header counts, where the file header says.
pub open spec fn offsets_of(file: Seq<u8>) -> Option<Seq<i64>> {
    match header_of(file) {
        Some(header) => match slice_at(
            file,
            header.offset_image_offsets as int,
            FRAME_OFFSET_SIZE * header.image_count,
        ) {
            Some(bytes) => Some(frame_offsets_of(bytes, header.image_count as int)),
            None => None,
        },
        None => None,
    }
}

/// Whether `file` holds all four records in full.
pub open spec fn readable(file: Seq<u8>) -> bool {
    bitmap_of(file) is Some && setup_of(file) is Some && offsets_of(file) is Some
}

/// The number of pixel values of a frame of `w` by `h` photosites: one
/// for each photosite of a gray sensor, three for each of a colour sensor.
pub open spec fn pixel_len(cfa: ColorFilterArray, w: int, h: int) -> int {
    if cfa is Gray {
        w * h
    } else {
        w * h * 3
    }
}

/// Whether the payload storage and the sensor layout that the records of
/// `file` name are ones that frames can be decoded for, and the pixel
/// values of a frame are no more than this machine can address.
pub open spec fn supported(file: Seq<u8>) -> bool {
    &&& Decompression::of_code(bitmap_of(file)->Some_0.bi_compression) is Some
    &&& cfa_of_code(setup_of(file)->Some_0.cfa) is Some
    &&& cfa_of_code(setup_of(file)->Some_0.cfa)->Some_0.has_rule()
    &&& pixel_len(
        cfa_of_code(setup_of(file)->Some_0.cfa)->Some_0,
        bitmap_of(file)->Some_0.bi_width as int,
        bitmap_of(file)->Some_0.bi_height as int,
    ) <= usize::MAX
}

/// Why the container `file` cannot be opened, if it cannot: a record that
/// the file does not hold in full is a read failure; a payload storage or
/// a sensor layout that cannot be decoded, or a frame too large for this
/// machine, is refused, once all records are read.
pub open spec fn open_failure(file: Seq<u8>) -> Option<Failure> {
    if !readable(file) {
        Some(Failure::Io)
    } else if !supported(file) {
        Some(Failure::Unsupported)
    } else {
        None
    }
}

/// The payload of frame `n` of a container: `size` bytes that start where
/// the first four bytes of the frame's annotation block say, counted from
/// that block's start. There is none where the table's offset is negative
/// or smaller than that of the frame before, or where the file ends before
/// the last byte of the payload.
pub open spec fn frame_payload(file: Seq<u8>, offsets: Seq<i64>, n: int, size: int) -> Option<
    Seq<u8>,
> {
    let at = offsets[n] as int;
    if n > 0 && offsets[n - 1] > offsets[n] {
        None
    } else if slice_at(file, at, 4) is None {
        None
    } else {
        slice_at(file, at + le_u32(file, at), size)
    }
}

/// What decoding the payload `bytes` of a frame of `w` by `h` photosites
/// into a pixel buffer that holds `held` gives: what the pixel buffer then
/// holds, or the kind of failure. A gray frame with fewer samples than
/// photosites overwrites the first values and leaves the others; one with
/// more samples than photosites cannot be converted.
pub open spec fn decoded(
    kind: Decompression,
    cfa: ColorFilterArray,
    bytes: Seq<u8>,
    w: int,
    h: int,
    held: Seq<u16>,
) -> Result<Seq<u16>, Failure> {
    if !kind.accepts(bytes.len() as int, w, h) {
        Err(Failure::Conversion)
    } else {
        let samples = kind.samples(bytes, w, h);
        if cfa.accepts(samples.len() as int, w, h) && cfa.value_count(samples.len() as int, w, h)
            <= held.len() {
            Ok(overwritten(held, cfa.pixels(samples, w, h)))
        } else if cfa.has_rule() {
            Err(Failure::Conversion)
        } else {
            Err(Failure::Unsupported)
        }
    }
}

impl CineFile {
    /// The offsets of the annotation blocks of the frames, in frame order.
    pub open spec fn frame_offsets(&self) -> Seq<i64> {
        self.p_images@
    }

    /// Photosites per row.
    pub open spec fn width(&self) -> int {
        self.bitmap_info_header.bi_width as int
    }

    /// Rows per frame.
    pub open spec fn height(&self) -> int {
        self.bitmap_info_header.bi_height as int
    }

    /// Whether the records of `self` are those that its bytes encode, and
    /// its payload storage and sensor layout those that the records name.
    pub open spec fn well_formed(&self) -> bool {
        &&& Some(self.cine_file_header) == header_of(self.file@)
        &&& Some(self.bitmap_info_header) == bitmap_of(self.file@)
        &&& Some(self.setup) == setup_of(self.file@)
        &&& Some(self.frame_offsets()) == offsets_of(self.file@)
        &&& Some(self.compression_type) == Decompression::of_code(
            self.bitmap_info_header.bi_compression,
        )
        &&& Some(self.cfa) == cfa_of_code(self.setup.cfa)
        &&& self.cfa.has_rule()
    }

    /// Whether the three buffers have the lengths that the records ask
    /// for: the payload buffer one byte for each byte of a payload, the
    /// sample buffer one value for each sample of a payload, the pixel
    /// buffer one value for each pixel value of a frame.
    pub open spec fn buffers_ready(&self) -> bool {
        &&& self.img_byte_buffer@.len() == self.bitmap_info_header.bi_size_image
        &&& self.pixel_buffer@.len() == self.compression_type.sample_count(
            self.bitmap_info_header.bi_size_image as int,
        )
        &&& self.pixels@.len() == pixel_len(self.cfa, self.width(), self.height())
    }

    /// Whether `self` is the container `file`, just opened: well formed,
    /// with buffers of their lengths that hold zeros.
    pub open spec fn opens(&self, file: Seq<u8>) -> bool {
        &&& self.file@ == file
        &&& self.well_formed()
        &&& self.buffers_ready()
        &&& forall|i: int| 0 <= i < self.img_byte_buffer@.len() ==> self.img_byte_buffer@[i] == 0
        &&& forall|i: int| 0 <= i < self.pixel_buffer@.len() ==> self.pixel_buffer@[i] == 0
        &&& forall|i: int| 0 <= i < self.pixels@.len() ==> self.pixels@[i] == 0
    }

    /// Whether the three buffers of `self` are as long as those of
    /// `other`.
    pub open spec fn same_lengths(&self, other: &CineFile) -> bool {
        &&& self.img_byte_buffer@.len() == other.img_byte_buffer@.len()
        &&& self.pixel_buffer@.len() == other.pixel_buffer@.len()
        &&& self.pixels@.len() == other.pixels@.len()
    }

    /// Whether `r` and the state `after` are what a request for frame
    /// `frame_no` in the form `frame_type` gives.
    pub open spec fn gives_frame_as(
        &self,
        after: &CineFile,
        frame_no: i32,
        frame_type: FrameType,
        r: CineResult<FrameData>,
    ) -> bool {
        let width = self.bitmap_info_header.bi_width;
        let height = self.bitmap_info_header.bi_height;
        &&& after.same_container(self)
        &&& after.same_lengths(self)
        &&& match self.frame(frame_no as int) {
            Ok(values) => {
                &&& after.pixels@ == values
                &&& frame_type == FrameType::Raw ==> r is Ok && r->Ok_0 is Raw && r->Ok_0->Raw_0@
                    == values
                &&& frame_type == FrameType::Bytes ==> r is Ok && r->Ok_0 is Bytes
                    && r->Ok_0->Bytes_0@ == le_bytes(values)
                &&& frame_type == FrameType::Png ==> (r is Ok ==> r->Ok_0 is Png
                    && r->Ok_0->Png_0@ == png_encoding(values, width, height))
                &&& frame_type == FrameType::Base64 ==> (r is Ok ==> r->Ok_0 is Base64
                    && r->Ok_0->Base64_0@ == base64_standard(png_encoding(values, width, height)))
                &&& r is Err ==> r->Err_0 is Conversion
                &&& (frame_type == FrameType::Png || frame_type == FrameType::Base64)
                    && !png_ready(values.len() as int, width, height) ==> r is Err
            },
            Err(failure) => r is Err && r->Err_0.failure() == failure && after.pixels@
                == self.pixels@,
        }
    }

    /// Whether `r` and the state `after` are what a request for the file
    /// of frame `frame_no` in the format `save_type` gives.
    pub open spec fn gives_save_as(
        &self,
        after: &CineFile,
        frame_no: i32,
        save_type: SaveType,
        r: CineResult<SaveData>,
    ) -> bool {
        let width = self.bitmap_info_header.bi_width;
        let height = self.bitmap_info_header.bi_height;
        &&& after.same_container(self)
        &&& after.same_lengths(self)
        &&& match self.frame(frame_no as int) {
            Ok(values) => {
                &&& after.pixels@ == values
                &&& save_type == SaveType::Png ==> (r is Ok ==> r->Ok_0 is Png && r->Ok_0->Png_0@
                    == png_encoding(values, width, height))
                &&& save_type == SaveType::Png ==> (r is Err ==> r->Err_0 is Conversion)
                &&& save_type == SaveType::Png && !png_ready(values.len() as int, width, height)
                    ==> r is Err
                &&& save_type != SaveType::Png ==> r is Err && r->Err_0 is Unsupported
            },
            Err(failure) => r is Err && r->Err_0.failure() == failure && after.pixels@
                == self.pixels@,
        }
    }

    /// Whether `header` is what the container reports of itself.
    pub open spec fn gives_headers(&self, r: CineResult<VideoHeader>) -> bool {
        &&& r is Ok
        &&& r->Ok_0.file_name@ == "temp.cine"@
        &&& r->Ok_0.width == self.bitmap_info_header.bi_width
        &&& r->Ok_0.height == self.bitmap_info_header.bi_height
        &&& r->Ok_0.frame_count == self.cine_file_header.image_count
    }

    /// Whether `self` and `other` are the same container with the same
    /// records; their buffers may differ.
    pub open spec fn same_container(&self, other: &CineFile) -> bool {
        &&& self.file@ == other.file@
        &&& self.cine_file_header == other.cine_file_header
        &&& self.bitmap_info_header == other.bitmap_info_header
        &&& self.setup == other.setup
        &&& self.frame_offsets() == other.frame_offsets()
        &&& self.compression_type == other.compression_type
        &&& self.cfa == other.cfa
    }

    /// The payload of frame `n`.
    pub open spec fn payload(&self, n: int) -> Option<Seq<u8>> {
        frame_payload(
            self.file@,
            self.frame_offsets(),
            n,
            self.bitmap_info_header.bi_size_image as int,
        )
    }

    /// What a request for frame `n` gives: what the pixel buffer then
    /// holds, or the kind of failure. A source whose buffers no longer
    /// have their lengths cannot convert.
    pub open spec fn frame(&self, n: int) -> Result<Seq<u16>, Failure> {
        if !(0 <= n < self.frame_offsets().len()) {
            Err(Failure::OutOfRange)
        } else if !self.buffers_ready() {
            Err(Failure::Conversion)
        } else {
            match self.payload(n) {
                None => Err(Failure::Io),
                Some(bytes) => decoded(
                    self.compression_type,
                    self.cfa,
                    bytes,
                    self.width(),
                    self.height(),
                    self.pixels@,
                ),
            }
        }
    }

    /// The number of frames.
    pub fn frame_count(&self) -> (n: usize)
        ensures
            n == self.frame_offsets().len(),
    {
        self.p_images.len()
    }

    /// The offset of the annotation block of frame `frame_no`. Only the
    /// frames that the container holds have one.
    pub fn frame_offset(&self, frame_no: i32) -> (r: CineResult<i64>)
        ensures
            0 <= frame_no < self.frame_offsets().len() ==> r == Ok::<i64, CineError>(
                self.frame_offsets()[frame_no as int],
            ),
            !(0 <= frame_no < self.frame_offsets().len()) ==> r == Err::<i64, CineError>(
                CineError::OutOfRange(
                    FrameRangeError { frame_no, frame_count: self.cine_file_header.image_count },
                ),
            ),
    {
        if frame_no < 0 || frame_no as usize >= self.p_images.len() {
            return Err(
                CineError::OutOfRange(
                    FrameRangeError { frame_no, frame_count: self.cine_file_header.image_count },
                ),
            );
        }
        Ok(self.p_images[frame_no as usize])
    }

    /// Opens the container whose bytes are `file`: decodes the file header,
    /// the bitmap descriptor, the setup block and the frame-offset table,
    /// checks that frames of this storage and sensor layout can be
    /// decoded, and makes the three buffers in their lengths, filled with
    /// zeros. A frame with more pixel values than this machine can address
    /// is refused like a storage or a layout that cannot be decoded. No
    /// frame is read.
    pub fn open(file: Vec<u8>) -> (r: CineResult<CineFile>)
        ensures
            match open_failure(file@) {
                None => r is Ok && r->Ok_0.opens(file@),
                Some(failure) => r is Err && r->Err_0.failure() == failure,
            },
    {
        let bytes: &[u8] = file.as_slice();
        let cine_file_header = CineFileHeader::decode(read_bytes(bytes, 0, FILE_HEADER_SIZE)?)?;
        let bitmap_info_header = BitmapInfoHeader::decode(
            read_bytes(bytes, cine_file_header.offset_image_header as u64, BITMAP_HEADER_SIZE)?,
        )?;
        let setup = Setup::decode(
            read_bytes(bytes, cine_file_header.offset_setup as u64, SETUP_SIZE)?,
        )?;
        let table_size: u64 = (FRAME_OFFSET_SIZE as u64) * (cine_file_header.image_count as u64);
        if table_size > bytes.len() as u64 {
            return Err(CineError::io("unexpected end of file"));
        }
        let p_images = decode_frame_offsets(
            read_bytes(bytes, cine_file_header.offset_image_offsets as u64, table_size as usize)?,
            cine_file_header.image_count,
        )?;
        let compression_type = Decompression::get_decompression_type(
            &bitmap_info_header.bi_compression,
        )?;
        let cfa = ColorFilterArray::get_cfa(&setup.cfa)?;
        if !(cfa == ColorFilterArray::Gray || cfa == ColorFilterArray::Bayer) {
            return Err(CineError::unsupported("sensor layout without a reconstruction"));
        }
        let values: u128 = pixel_values(cfa, bitmap_info_header.bi_width, bitmap_info_header.bi_height);
        if values > usize::MAX as u128 {
            return Err(CineError::unsupported("frames too large for this machine"));
        }
        let payload: usize = bitmap_info_header.bi_size_image as usize;
        let img_byte_buffer: Vec<u8> = vec![0u8; payload];
        let pixel_buffer: Vec<u16> = vec![0u16; compression_type.samples_in(payload)];
        let pixels: Vec<u16> = vec![0u16; values as usize];
        Ok(
            CineFile {
                file,
                cine_file_header,
                bitmap_info_header,
                setup,
                p_images,
                compression_type,
                cfa,
                img_byte_buffer,
                pixel_buffer,
                pixels,
            },
        )
    }

    /// Decodes frame `frame_no` into the pixel buffer, and hands the pixel
    /// buffer out: finds the payload, copies it into the byte buffer,
    /// unpacks the samples into the sample buffer and reconstructs the
    /// pixel values. The buffers are overwritten where they are and keep
    /// their lengths. A gray frame with fewer samples than photosites
    /// overwrites the first pixel values and leaves the others; one with
    /// more samples than photosites cannot be converted. A failure leaves
    /// the pixel buffer as it was.
    pub fn get_frame(&mut self, frame_no: i32) -> (r: CineResult<&Vec<u16>>)
        ensures
            final(self).same_container(old(self)),
            final(self).same_lengths(old(self)),
            old(self).well_formed() ==> final(self).well_formed(),
            match old(self).frame(frame_no as int) {
                Ok(values) => r is Ok && r->Ok_0@ == values && final(self).pixels@ == values,
                Err(failure) => r is Err && r->Err_0.failure() == failure && final(self).pixels@
                    == old(self).pixels@,
            },
            r is Ok ==> Some(final(self).img_byte_buffer@) == old(self).payload(frame_no as int)
                && final(self).pixel_buffer@ == old(self).compression_type.samples(
                final(self).img_byte_buffer@,
                old(self).width(),
                old(self).height(),
            ),
            old(self).frame(frame_no as int) == Err::<Seq<u16>, Failure>(Failure::OutOfRange) ==> r
                == Err::<&Vec<u16>, CineError>(
                CineError::OutOfRange(
                    FrameRangeError {
                        frame_no,
                        frame_count: old(self).cine_file_header.image_count,
                    },
                ),
            ),
    {
        self.get_bytes(frame_no)?;
        self.apply_correction()?;
        Ok(&self.pixels)
    }

    /// Whether the three buffers have their lengths.
    pub fn buffers_fit(&self) -> (fit: bool)
        ensures
            fit == self.buffers_ready(),
    {
        let payload: usize = self.bitmap_info_header.bi_size_image as usize;
        let values: u128 = pixel_values(
            self.cfa,
            self.bitmap_info_header.bi_width,
            self.bitmap_info_header.bi_height,
        );
        self.img_byte_buffer.len() == payload && self.pixel_buffer.len()
            == self.compression_type.samples_in(payload) && self.pixels.len() as u128 == values
    }

    /// Copies the payload of frame `frame_no` into the byte buffer.
    fn get_bytes(&mut self, frame_no: i32) -> (r: CineResult<()>)
        ensures
            final(self).same_container(old(self)),
            final(self).same_lengths(old(self)),
            final(self).pixel_buffer@ == old(self).pixel_buffer@,
            final(self).pixels@ == old(self).pixels@,
            !(0 <= frame_no < old(self).frame_offsets().len()) ==> r == Err::<(), CineError>(
                CineError::OutOfRange(
                    FrameRangeError {
                        frame_no,
                        frame_count: old(self).cine_file_header.image_count,
                    },
                ),
            ),
            0 <= frame_no < old(self).frame_offsets().len() && !old(self).buffers_ready() ==> r is Err
                && r->Err_0 is Conversion,
            0 <= frame_no < old(self).frame_offsets().len() && old(self).buffers_ready()
                ==> match old(self).payload(frame_no as int) {
                Some(bytes) => r is Ok && final(self).img_byte_buffer@ == bytes,
                None => r is Err && r->Err_0 is IoError,
            },
    {
        let annotations_loc: i64 = self.frame_offset(frame_no)?;
        if !self.buffers_fit() {
            return Err(CineError::conversion("frame", "the buffers do not have their lengths"));
        }
        let n: usize = frame_no as usize;
        if annotations_loc < 0 || (n > 0 && self.p_images[n - 1] > annotations_loc) {
            return Err(CineError::io("the frame-offset table is out of order"));
        }
        let at: u64 = annotations_loc as u64;
        let offset_to_pixels: u32 = read_u32_le(read_bytes(self.file.as_slice(), at, 4)?, 0);
        let size: usize = self.bitmap_info_header.bi_size_image as usize;
        let start: u64 = at + offset_to_pixels as u64;
        let payload: &[u8] = read_bytes(self.file.as_slice(), start, size)?;
        fill(self.img_byte_buffer.as_mut_slice(), payload);
        Ok(())
    }

    /// Unpacks the byte buffer and reconstructs the pixel values.
    fn apply_correction(&mut self) -> (r: CineResult<()>)
        requires
            old(self).buffers_ready(),
        ensures
            final(self).same_container(old(self)),
            final(self).same_lengths(old(self)),
            final(self).img_byte_buffer@ == old(self).img_byte_buffer@,
            r is Ok ==> final(self).pixel_buffer@ == old(self).compression_type.samples(
                old(self).img_byte_buffer@,
                old(self).width(),
                old(self).height(),
            ),
            match decoded(
                old(self).compression_type,
                old(self).cfa,
                old(self).img_byte_buffer@,
                old(self).width(),
                old(self).height(),
                old(self).pixels@,
            ) {
                Ok(values) => r is Ok && final(self).pixels@ == values,
                Err(failure) => r is Err && r->Err_0.failure() == failure && final(self).pixels@
                    == old(self).pixels@,
            },
    {
        let ghost samples = self.compression_type.samples(
            self.img_byte_buffer@,
            self.width(),
            self.height(),
        );
        proof {
            lemma_sample_count(
                self.compression_type,
                self.img_byte_buffer@,
                self.width(),
                self.height(),
            );
        }
        Decompression::decompress(self)?;
        assert(self.pixel_buffer@ =~= samples);
        ColorFilterArray::apply_color_array(self)
    }
}

/// The number of pixel values of a frame of `width` by `height` photosites.
fn pixel_values(cfa: ColorFilterArray, width: u32, height: u32) -> (n: u128)
    ensures
        n == pixel_len(cfa, width as int, height as int),
{
    assert(width * height * 3 <= 0xffff_ffff * 0xffff_ffff * 3) by (nonlinear_arith)
        requires
            width <= 0xffff_ffff,
            height <= 0xffff_ffff,
    ;
    assert(0 <= width * height <= width * height * 3) by (nonlinear_arith);
    let photosites: u128 = (width as u128) * (height as u128);
    if cfa == ColorFilterArray::Gray {
        photosites
    } else {
        photosites * 3
    }
}

/// Overwrites `buffer` by `bytes`.
fn fill(buffer: &mut [u8], bytes: &[u8])
    requires
        old(buffer)@.len() == bytes@.len(),
    ensures
        final(buffer)@ == bytes@,
{
    let n: usize = bytes.len();
    let mut i: usize = 0;
    while i < n
        invariant
            n == bytes@.len() == buffer@.len(),
            i <= n,
            forall|k: int| 0 <= k < i ==> buffer@[k] == bytes@[k],
        decreases n - i,
    {
        buffer[i] = bytes[i];
        i += 1;
    }
}

/// What a request for a frame gives depends on the container, on the
/// lengths of the buffers and on what the pixel buffer holds: what the
/// byte buffer and the sample buffer hold of the frames asked for before
/// has no part in it.
pub proof fn lemma_frame_by_container(a: &CineFile, b: &CineFile, n: int)
    requires
        a.same_container(b),
        a.same_lengths(b),
        a.pixels@ == b.pixels@,
    ensures
        a.frame(n) == b.frame(n),
{
}

/// A frame that fills the pixel buffer, as every colour frame does and
/// every gray frame with a sample for each photosite, is decoded to the
/// same pixel values whatever the pixel buffer held.
pub proof fn lemma_full_frame(a: &CineFile, b: &CineFile, n: int)
    requires
        a.same_container(b),
        a.same_lengths(b),
        a.frame(n) is Ok,
        a.payload(n) is Some,
        a.cfa.value_count(
            a.compression_type.sample_count(a.bitmap_info_header.bi_size_image as int),
            a.width(),
            a.height(),
        ) == a.pixels@.len(),
    ensures
        b.frame(n) == a.frame(n),
{
    let bytes = a.payload(n)->Some_0;
    lemma_sample_count(a.compression_type, bytes, a.width(), a.height());
    let samples = a.compression_type.samples(bytes, a.width(), a.height());
    crate::conversions::lemma_pixel_count(a.cfa, samples, a.width(), a.height());
    assert(overwritten(a.pixels@, a.cfa.pixels(samples, a.width(), a.height())) =~= overwritten(
        b.pixels@,
        b.cfa.pixels(samples, a.width(), a.height()),
    ));
}

/// Whatever is asked of a well-formed container, it stays well formed.
pub proof fn lemma_same_container_well_formed(a: &CineFile, b: &CineFile)
    requires
        a.well_formed(),
        b.same_container(a),
    ensures
        b.well_formed(),
{
}

impl VideoOps for CineFile {
    fn get_headers(&self) -> (r: CineResult<VideoHeader>)
        ensures
            self.gives_headers(r),
    {
        Ok(
            VideoHeader {
                file_name: String::from_str("temp.cine"),
                width: self.bitmap_info_header.bi_width,
                height: self.bitmap_info_header.bi_height,
                frame_count: self.cine_file_header.image_count,
            },
        )
    }

    fn get_frame_as(&mut self, frame_no: i32, frame_type: FrameType) -> (r: CineResult<FrameData>)
        ensures
            old(self).gives_frame_as(final(self), frame_no, frame_type, r),
    {
        let width: u32 = self.bitmap_info_header.bi_width;
        let height: u32 = self.bitmap_info_header.bi_height;
        let pixels = self.get_frame(frame_no)?;
        frame_type.format(pixels.as_slice(), width, height)
    }

    fn save_frame_as(&mut self, frame_no: i32, save_type: SaveType) -> (r: CineResult<SaveData>)
        ensures
            old(self).gives_save_as(final(self), frame_no, save_type, r),
    {
        let width: u32 = self.bitmap_info_header.bi_width;
        let height: u32 = self.bitmap_info_header.bi_height;
        let pixels = self.get_frame(frame_no)?;
        save_type.format(pixels.as_slice(), width, height)
    }
}

/// An MP4 container. The format is recognised, and nothing of it is read.
#[derive(Clone, Copy, Debug)]
pub struct Mp4File {}

impl Mp4File {
    /// MP4 containers cannot be opened: every call is refused.
    pub fn open(path: &str) -> (r: CineResult<Mp4File>)
        ensures
            r is Err && r->Err_0 is Unsupported,
    {
        Err(CineError::unsupported("mp4 containers are not implemented"))
    }
}

impl VideoOps for Mp4File {
    fn get_headers(&self) -> (r: CineResult<VideoHeader>)
        ensures
            r is Err && r->Err_0 is Unsupported,
    {
        Err(CineError::unsupported("mp4 containers are not implemented"))
    }

    fn get_frame_as(&mut self, frame_no: i32, frame_type: FrameType) -> (r: CineResult<FrameData>)
        ensures
            r is Err && r->Err_0 is Unsupported,
    {
        Err(CineError::unsupported("mp4 containers are not implemented"))
    }

    fn save_frame_as(&mut self, frame_no: i32, save_type: SaveType) -> (r: CineResult<SaveData>)
        ensures
            r is Err && r->Err_0 is Unsupported,
    {
        Err(CineError::unsupported("mp4 containers are not implemented"))
    }
}

/// An opened video source of either container.
#[derive(Debug)]
pub enum VideoSource {
    Cine(CineFile),
    Mp4(Mp4File),
}

impl VideoOps for VideoSource {
    fn get_headers(&self) -> (r: CineResult<VideoHeader>)
        ensures
            match self {
                VideoSource::Cine(cine) => cine.gives_headers(r),
                VideoSource::Mp4(_) => r is Err && r->Err_0 is Unsupported,
            },
    {
        match self {
            VideoSource::Cine(cine) => cine.get_headers(),
            VideoSource::Mp4(mp4) => mp4.get_headers(),
        }
    }

    fn get_frame_as(&mut self, frame_no: i32, frame_type: FrameType) -> (r: CineResult<FrameData>)
        ensures
            match *old(self) {
                VideoSource::Cine(cine) => *final(self) is Cine && cine.gives_frame_as(
                    &(*final(self))->Cine_0,
                    frame_no,
                    frame_type,
                    r,
                ),
                VideoSource::Mp4(_) => *final(self) is Mp4 && r is Err && r->Err_0 is Unsupported,
            },
    {
        match self {
            VideoSource::Cine(cine) => cine.get_frame_as(frame_no, frame_type),
            VideoSource::Mp4(mp4) => mp4.get_frame_as(frame_no, frame_type),
        }
    }

    fn save_frame_as(&mut self, frame_no: i32, save_type: SaveType) -> (r: CineResult<SaveData>)
        ensures
            match *old(self) {
                VideoSource::Cine(cine) => *final(self) is Cine && cine.gives_save_as(
                    &(*final(self))->Cine_0,
                    frame_no,
                    save_type,
                    r,
                ),
                VideoSource::Mp4(_) => *final(self) is Mp4 && r is Err && r->Err_0 is Unsupported,
            },
    {
        match self {
            VideoSource::Cine(cine) => cine.save_frame_as(frame_no, save_type),
            VideoSource::Mp4(mp4) => mp4.save_frame_as(frame_no, save_type),
        }
    }
}

} // verus!
