//! Reconstruction of pixel values from raw sensor samples, by the layout of
//! the sensor's colour filter array.
use vstd::prelude::*;
use crate::errors::{CineError, CineResult};
use crate::file::CineFile;
use crate::grid::{cell, lemma_cell_bound, lemma_cell_parts, lemma_cell_row, lemma_cell_split};

verus! {

/// The layout of the colour filters over the photosites of a sensor, and
/// the markers of the gray heads of a multi-head camera.
#[derive(Clone, Copy, Debug, PartialEq, Eq, Structural)]
pub enum ColorFilterArray {
    /// Code 0: gray sensor.
    Gray,
    /// Code 1: gbrg / rggb.
    Vri,
    /// Code 2: bggr / grbg.
    VriV6,
    /// Code 3: gb / rg.
    Bayer,
    /// Code 4: rg / gb.
    BayerFlip,
    /// Code 5: gr / gb.
    BayerFlipPb,
    /// Code 6: bg / gr.
    BayerFlipPh,
    /// Head marker 0x8000_0000.
    TopLeftGray,
    /// Head marker 0x4000_0000.
    TopRightGray,
    /// Head marker 0x2000_0000.
    BottomLeftGray,
    /// Head marker 0x1000_0000.
    BottomRightGray,
}

/// The sensor layout that the low byte of a CFA code stands for, if any.
pub open spec fn cfa_of_code(code: u32) -> Option<ColorFilterArray> {
    let low = code & 0x0000_00ff;
    if low == 0 {
        Some(ColorFilterArray::Gray)
    } else if low == 1 {
        Some(ColorFilterArray::Vri)
    } else if low == 2 {
        Some(ColorFilterArray::VriV6)
    } else if low == 3 {
        Some(ColorFilterArray::Bayer)
    } else if low == 4 {
        Some(ColorFilterArray::BayerFlip)
    } else if low == 5 {
        Some(ColorFilterArray::BayerFlipPb)
    } else if low == 6 {
        Some(ColorFilterArray::BayerFlipPh)
    } else {
        None
    }
}

/// The gray head that the high four bits of a CFA code mark, if they mark
/// exactly one.
pub open spec fn head_of_code(code: u32) -> Option<ColorFilterArray> {
    let high = code & 0xf000_0000;
    if high == 0x8000_0000 {
        Some(ColorFilterArray::TopLeftGray)
    } else if high == 0x4000_0000 {
        Some(ColorFilterArray::TopRightGray)
    } else if high == 0x2000_0000 {
        Some(ColorFilterArray::BottomLeftGray)
    } else if high == 0x1000_0000 {
        Some(ColorFilterArray::BottomRightGray)
    } else {
        None
    }
}

/// The sensor layout of a CFA code depends on its low byte alone: changing
/// any of the other bits, the head markers among them, leaves it as it is.
pub proof fn lemma_cfa_ignores_other_bits(code: u32, bits: u32)
    requires
        bits & 0x0000_00ff == 0,
    ensures
        cfa_of_code(code ^ bits) == cfa_of_code(code),
{
    assert((code ^ bits) & 0x0000_00ff == code & 0x0000_00ff) by (bit_vector)
        requires
            bits & 0x0000_00ff == 0,
    ;
}

/// The low byte of a CFA code decides its layout: the codes 0 to 6 have
/// one, every other low byte has none.
pub proof fn lemma_cfa_by_low_byte(code: u32)
    ensures
        code & 0x0000_00ff <= 6 <==> cfa_of_code(code) is Some,
        cfa_of_code(code) == cfa_of_code(code & 0x0000_00ff),
{
    assert((code & 0x0000_00ff) & 0x0000_00ff == code & 0x0000_00ff) by (bit_vector);
}

impl ColorFilterArray {
    /// The sensor layout named by the low byte of `value`; a low byte
    /// above 6 names none.
    pub fn get_cfa(value: &u32) -> (r: CineResult<Self>)
        ensures
            match cfa_of_code(*value) {
                Some(kind) => r == Ok::<Self, CineError>(kind),
                None => r is Err && r->Err_0 is Unsupported,
            },
    {
        let low: u32 = *value & 0x0000_00ff;
        if low == 0 {
            Ok(Self::Gray)
        } else if low == 1 {
            Ok(Self::Vri)
        } else if low == 2 {
            Ok(Self::VriV6)
        } else if low == 3 {
            Ok(Self::Bayer)
        } else if low == 4 {
            Ok(Self::BayerFlip)
        } else if low == 5 {
            Ok(Self::BayerFlipPb)
        } else if low == 6 {
            Ok(Self::BayerFlipPh)
        } else {
            Err(CineError::unsupported("unknown CFA type"))
        }
    }

    /// The gray head marked by the high four bits of `value`. A code that
    /// marks no head, or more than one, gives `None`: a head marker is
    /// optional.
    pub fn get_color_head(value: &u32) -> (r: Option<Self>)
        ensures
            r == head_of_code(*value),
    {
        let high: u32 = *value & 0xf000_0000;
        if high == 0x8000_0000 {
            Some(Self::TopLeftGray)
        } else if high == 0x4000_0000 {
            Some(Self::TopRightGray)
        } else if high == 0x2000_0000 {
            Some(Self::BottomLeftGray)
        } else if high == 0x1000_0000 {
            Some(Self::BottomRightGray)
        } else {
            None
        }
    }

    /// The sensor layout of `value`, followed by its gray head where one
    /// is marked.
    pub fn from_u32(value: u32) -> (r: CineResult<Vec<ColorFilterArray>>)
        ensures
            match cfa_of_code(value) {
                Some(kind) => r is Ok && r->Ok_0@ == (match head_of_code(value) {
                    Some(head) => seq![kind, head],
                    None => seq![kind],
                }),
                None => r is Err && r->Err_0 is Unsupported,
            },
    {
        let kind = Self::get_cfa(&value)?;
        let mut found: Vec<ColorFilterArray> = Vec::new();
        found.push(kind);
        if let Some(head) = Self::get_color_head(&value) {
            found.push(head);
        }
        Ok(found)
    }

    /// Whether a reconstruction is defined for this layout.
    pub open spec fn has_rule(self) -> bool {
        self is Gray || self is Bayer
    }

    /// Whether a frame of `w` by `h` photosites, held in `len` samples,
    /// can be reconstructed for this layout.
    pub open spec fn accepts(self, len: int, w: int, h: int) -> bool {
        self is Gray || (self is Bayer && bayer_accepts(len, w, h))
    }

    /// The pixel values of such a frame: one value per sample for a gray
    /// sensor, three values per photosite for a colour sensor.
    pub open spec fn pixels(self, samples: Seq<u16>, w: int, h: int) -> Seq<u16> {
        if self is Gray {
            gray16(samples)
        } else {
            bayer_rgb(samples, w, h)
        }
    }

    /// The number of pixel values of such a frame.
    pub open spec fn value_count(self, len: int, w: int, h: int) -> int {
        if self is Gray {
            len
        } else {
            w * h * 3
        }
    }

    /// Overwrites the first values of `out` by the pixel values of the
    /// frame `samples` of `width` by `height` photosites; what follows
    /// them in `out` stays. Fails, and leaves `out` as it was, for a
    /// layout without a reconstruction, for a frame that the layout's
    /// reconstruction does not accept, and where `out` has no room for the
    /// pixel values.
    pub fn reconstruct(&self, samples: &[u16], width: u32, height: u32, out: &mut [u16]) -> (r:
        CineResult<()>)
        ensures
            r is Ok <==> self.accepts(samples@.len() as int, width as int, height as int)
                && self.value_count(samples@.len() as int, width as int, height as int) <= old(
                out,
            )@.len(),
            r is Ok ==> final(out)@ == overwritten(
                old(out)@,
                self.pixels(samples@, width as int, height as int),
            ),
            r is Err ==> final(out)@ == old(out)@,
            r is Err ==> (if self.has_rule() {
                r->Err_0 is Conversion
            } else {
                r->Err_0 is Unsupported
            }),
    {
        match self {
            Self::Gray => grayscale_10_to_16bit(samples, out),
            Self::Bayer => bayer(samples, width, height, out),
            Self::Vri => Self::vri(),
            Self::VriV6 => Self::vri_v6(),
            Self::BayerFlip => Self::bayer_flip(),
            Self::BayerFlipPb => Self::bayer_flip_pb(),
            Self::BayerFlipPh => Self::bayer_flip_ph(),
            Self::TopLeftGray => Self::top_left_grey(),
            Self::TopRightGray => Self::top_right_grey(),
            Self::BottomLeftGray => Self::bottom_left_grey(),
            Self::BottomRightGray => Self::bottom_right_grey(),
        }
    }

    /// Reconstructs the pixel values of the samples held in the sample
    /// buffer of `cine_file` into its pixel buffer.
    pub fn apply_color_array(cine_file: &mut CineFile) -> (r: CineResult<()>)
        ensures
            r is Ok <==> old(cine_file).cfa.accepts(
                old(cine_file).pixel_buffer@.len() as int,
                old(cine_file).width(),
                old(cine_file).height(),
            ) && old(cine_file).cfa.value_count(
                old(cine_file).pixel_buffer@.len() as int,
                old(cine_file).width(),
                old(cine_file).height(),
            ) <= old(cine_file).pixels@.len(),
            r is Ok ==> final(cine_file).pixels@ == overwritten(
                old(cine_file).pixels@,
                old(cine_file).cfa.pixels(
                    old(cine_file).pixel_buffer@,
                    old(cine_file).width(),
                    old(cine_file).height(),
                ),
            ),
            r is Err ==> final(cine_file).pixels@ == old(cine_file).pixels@,
            r is Err ==> (if old(cine_file).cfa.has_rule() {
                r->Err_0 is Conversion
            } else {
                r->Err_0 is Unsupported
            }),
            final(cine_file).same_container(old(cine_file)),
            final(cine_file).img_byte_buffer@ == old(cine_file).img_byte_buffer@,
            final(cine_file).pixel_buffer@ == old(cine_file).pixel_buffer@,
    {
        let cfa = cine_file.cfa;
        let width: u32 = cine_file.bitmap_info_header.bi_width;
        let height: u32 = cine_file.bitmap_info_header.bi_height;
        cfa.reconstruct(
            cine_file.pixel_buffer.as_slice(),
            width,
            height,
            cine_file.pixels.as_mut_slice(),
        )
    }

    /// A gbrg/rggb sensor has no reconstruction.
    fn vri() -> (r: CineResult<()>)
        ensures
            r is Err && r->Err_0 is Unsupported,
    {
        Err(CineError::unsupported("gbrg/rggb sensor"))
    }

    /// A bggr/grbg sensor has no reconstruction.
    fn vri_v6() -> (r: CineResult<()>)
        ensures
            r is Err && r->Err_0 is Unsupported,
    {
        Err(CineError::unsupported("bggr/grbg sensor"))
    }

    /// An rg/gb sensor has no reconstruction.
    fn bayer_flip() -> (r: CineResult<()>)
        ensures
            r is Err && r->Err_0 is Unsupported,
    {
        Err(CineError::unsupported("rg/gb sensor"))
    }

    /// A gr/gb sensor has no reconstruction.
    fn bayer_flip_pb() -> (r: CineResult<()>)
        ensures
            r is Err && r->Err_0 is Unsupported,
    {
        Err(CineError::unsupported("gr/gb sensor"))
    }

    /// A bg/gr sensor has no reconstruction.
    fn bayer_flip_ph() -> (r: CineResult<()>)
        ensures
            r is Err && r->Err_0 is Unsupported,
    {
        Err(CineError::unsupported("bg/gr sensor"))
    }

    /// A gray head is a marker, not a layout to reconstruct by.
    fn top_left_grey() -> (r: CineResult<()>)
        ensures
            r is Err && r->Err_0 is Unsupported,
    {
        Err(CineError::unsupported("top left gray head"))
    }

    /// A gray head is a marker, not a layout to reconstruct by.
    fn top_right_grey() -> (r: CineResult<()>)
        ensures
            r is Err && r->Err_0 is Unsupported,
    {
        Err(CineError::unsupported("top right gray head"))
    }

    /// A gray head is a marker, not a layout to reconstruct by.
    fn bottom_left_grey() -> (r: CineResult<()>)
        ensures
            r is Err && r->Err_0 is Unsupported,
    {
        Err(CineError::unsupported("bottom left gray head"))
    }

    /// A gray head is a marker, not a layout to reconstruct by.
    fn bottom_right_grey() -> (r: CineResult<()>)
        ensures
            r is Err && r->Err_0 is Unsupported,
    {
        Err(CineError::unsupported("bottom right gray head"))
    }
}

/// `buffer` with its first values replaced by `values`; what follows them
/// stays.
pub open spec fn overwritten(buffer: Seq<u16>, values: Seq<u16>) -> Seq<u16> {
    Seq::new(
        buffer.len(),
        |i: int|
            if i < values.len() {
                values[i]
            } else {
                buffer[i]
            },
    )
}

/// `samples` with the first `height` rows of `width` samples in reverse
/// order; what follows them stays in place.
pub open spec fn flip_rows(samples: Seq<u16>, width: int, height: int) -> Seq<u16> {
    Seq::new(
        samples.len(),
        |i: int|
            if 0 <= i < width * height {
                samples[cell(width, height - 1 - i / width, i % width)]
            } else {
                samples[i]
            },
    )
}

/// Whether the sample in row `r` and column `c` has been exchanged once the
/// rows before `y` and the columns before `x` of row `y` are done.
spec fn exchanged(h: int, y: int, x: int, r: int, c: int) -> bool {
    r < y || r > h - 1 - y || ((r == y || r == h - 1 - y) && c < x)
}

/// Sample `i` at that stage of the exchange.
spec fn partly_flipped(before: Seq<u16>, w: int, h: int, y: int, x: int, i: int) -> u16 {
    if i < w * h && exchanged(h, y, x, i / w, i % w) {
        before[cell(w, h - 1 - i / w, i % w)]
    } else {
        before[i]
    }
}

spec fn flipping(before: Seq<u16>, now: Seq<u16>, w: int, h: int, y: int, x: int) -> bool {
    &&& now.len() == before.len()
    &&& forall|i: int|
        0 <= i < before.len() ==> #[trigger] now[i] == partly_flipped(before, w, h, y, x, i)
}

/// Reverses the order of the first `height` rows of `width` samples each.
/// With fewer than two rows there is nothing to exchange, and `data` may
/// be of any length.
pub fn flip_vertical_16bit(data: &mut [u16], width: u32, height: u32)
    requires
        height >= 2 ==> width * height <= old(data)@.len(),
    ensures
        final(data)@ == flip_rows(old(data)@, width as int, height as int),
{
    let row_len: usize = width as usize;
    let rows: usize = height as usize;
    let ghost w = width as int;
    let ghost h = height as int;
    let ghost before = data@;
    let len: usize = data.len();
    if row_len == 0 || rows < 2 {
        proof {
            assert forall|i: int| 0 <= i < before.len() implies data@[i] == flip_rows(before, w, h)[i] by {
                if 0 < w && h == 1 && i < w {
                    lemma_cell_parts(w, 0, i);
                }
            }
        }
        return ;
    }
    let mut y: usize = 0;
    proof {
        assert forall|i: int| 0 <= i < before.len() implies #[trigger] data@[i] == partly_flipped(
            before,
            w,
            h,
            0,
            0,
            i,
        ) by {
            if i < w * h {
                lemma_cell_row(w, h, i);
            }
        }
    }
    while y < rows / 2
        invariant
            0 < w,
            w == row_len,
            h == rows,
            w * h <= before.len() == len,
            y <= rows / 2,
            flipping(before, data@, w, h, y as int, 0),
        decreases rows / 2 - y,
    {
        proof {
            lemma_cell_bound(w, h, y as int, 0);
            lemma_cell_bound(w, h, h - 1 - y, 0);
        }
        let top_row: usize = y * row_len;
        let bottom_row: usize = (rows - 1 - y) * row_len;
        let mut x: usize = 0;
        while x < row_len
            invariant
                0 < w,
                w == row_len,
                h == rows,
                w * h <= before.len() == len,
                y < rows / 2,
                x <= row_len,
                top_row == y * w,
                bottom_row == (h - 1 - y) * w,
                top_row + w <= w * h,
                bottom_row + w <= w * h,
                flipping(before, data@, w, h, y as int, x as int),
            decreases row_len - x,
        {
            let a: usize = top_row + x;
            let b: usize = bottom_row + x;
            proof {
                lemma_cell_parts(w, y as int, x as int);
                lemma_cell_parts(w, h - 1 - y, x as int);
            }
            let upper: u16 = data[a];
            let lower: u16 = data[b];
            data[a] = lower;
            data[b] = upper;
            proof {
                assert forall|i: int| 0 <= i < before.len() implies #[trigger] data@[i]
                    == partly_flipped(before, w, h, y as int, x + 1, i) by {
                    lemma_cell_split(w, i);
                }
            }
            x += 1;
        }
        y += 1;
    }
    proof {
        assert forall|i: int| 0 <= i < before.len() implies data@[i] == flip_rows(before, w, h)[i] by {
            lemma_cell_split(w, i);
            if i < w * h {
                lemma_cell_row(w, h, i);
            }
        }
    }
}

/// A sample moved up into the 16-bit range: multiplied by 64, modulo 65536.
/// A 10-bit sample is exactly multiplied by 64.
pub open spec fn scale16(v: u16) -> u16 {
    ((v as int * 64) % 0x1_0000) as u16
}

/// Moving a sample up is a shift to the left by six bits. For a 10-bit
/// sample nothing is lost by it: the result is 64 times the sample.
pub proof fn lemma_scale16(v: u16)
    ensures
        scale16(v) == (v << 6),
        v <= 1023 ==> scale16(v) == v * 64,
{
    assert((v << 6) == ((v as u32 * 64) % 0x1_0000) as u16) by (bit_vector);
}

/// Every sample of `samples`, moved up into the 16-bit range.
pub open spec fn gray16(samples: Seq<u16>) -> Seq<u16> {
    Seq::new(samples.len(), |i: int| scale16(samples[i]))
}

/// The sample of the photosite in row `r` and column `c`.
pub open spec fn sample_at(samples: Seq<u16>, w: int, r: int, c: int) -> int {
    samples[cell(w, r, c)] as int
}

/// The mean of the left and the right neighbour, rounded down.
pub open spec fn mean_horizontal(samples: Seq<u16>, w: int, r: int, c: int) -> int {
    (sample_at(samples, w, r, c - 1) + sample_at(samples, w, r, c + 1)) / 2
}

/// The mean of the neighbour above and the neighbour below, rounded down.
pub open spec fn mean_vertical(samples: Seq<u16>, w: int, r: int, c: int) -> int {
    (sample_at(samples, w, r - 1, c) + sample_at(samples, w, r + 1, c)) / 2
}

/// The mean of the four neighbours that share an edge, rounded down.
pub open spec fn mean_orthogonal(samples: Seq<u16>, w: int, r: int, c: int) -> int {
    (sample_at(samples, w, r, c - 1) + sample_at(samples, w, r, c + 1) + sample_at(
        samples,
        w,
        r - 1,
        c,
    ) + sample_at(samples, w, r + 1, c)) / 4
}

/// The mean of the four neighbours that share a corner, rounded down.
pub open spec fn mean_diagonal(samples: Seq<u16>, w: int, r: int, c: int) -> int {
    (sample_at(samples, w, r - 1, c - 1) + sample_at(samples, w, r - 1, c + 1) + sample_at(
        samples,
        w,
        r + 1,
        c - 1,
    ) + sample_at(samples, w, r + 1, c + 1)) / 4
}

/// The red value of an interior photosite of a sensor whose even rows
/// alternate green and blue and whose odd rows alternate red and green.
pub open spec fn bayer_red(samples: Seq<u16>, w: int, r: int, c: int) -> int {
    if r % 2 == 0 {
        if c % 2 == 0 {
            mean_horizontal(samples, w, r, c)
        } else {
            mean_diagonal(samples, w, r, c)
        }
    } else if c % 2 == 0 {
        sample_at(samples, w, r, c)
    } else {
        mean_vertical(samples, w, r, c)
    }
}

/// The green value of an interior photosite of that sensor.
pub open spec fn bayer_green(samples: Seq<u16>, w: int, r: int, c: int) -> int {
    if (r % 2 == 0) == (c % 2 == 0) {
        sample_at(samples, w, r, c)
    } else {
        mean_orthogonal(samples, w, r, c)
    }
}

/// The blue value of an interior photosite of that sensor.
pub open spec fn bayer_blue(samples: Seq<u16>, w: int, r: int, c: int) -> int {
    if r % 2 == 0 {
        if c % 2 == 0 {
            mean_vertical(samples, w, r, c)
        } else {
            sample_at(samples, w, r, c)
        }
    } else if c % 2 == 0 {
        mean_diagonal(samples, w, r, c)
    } else {
        mean_horizontal(samples, w, r, c)
    }
}

/// The interior position nearest to position `i` of a row or column of `n`
/// photosites: `i` itself unless `i` lies on the border.
pub open spec fn nearest_interior(n: int, i: int) -> int {
    if i < 1 {
        1
    } else if i > n - 2 {
        n - 2
    } else {
        i
    }
}

/// Channel `ch` (0 red, 1 green, 2 blue) of the pixel in row `r` and column
/// `c`. A photosite on the one-photosite border has no full neighbourhood:
/// its pixel is that of the nearest interior photosite.
pub open spec fn bayer_channel(samples: Seq<u16>, w: int, h: int, r: int, c: int, ch: int) -> u16 {
    let rr = nearest_interior(h, r);
    let cc = nearest_interior(w, c);
    if ch == 0 {
        scale16(bayer_red(samples, w, rr, cc) as u16)
    } else if ch == 1 {
        scale16(bayer_green(samples, w, rr, cc) as u16)
    } else {
        scale16(bayer_blue(samples, w, rr, cc) as u16)
    }
}

/// The interleaved red, green and blue values of all `w * h` pixels, row by
/// row.
pub open spec fn bayer_rgb(samples: Seq<u16>, w: int, h: int) -> Seq<u16> {
    Seq::new(
        (w * h * 3) as nat,
        |i: int| bayer_channel(samples, w, h, (i / 3) / w, (i / 3) % w, i % 3),
    )
}

/// Whether a frame of `w` by `h` photosites, held in `len` samples, can be
/// reconstructed: it needs an interior, and a sample for every photosite.
pub open spec fn bayer_accepts(len: int, w: int, h: int) -> bool {
    w >= 3 && h >= 3 && w * h <= len
}

fn mean2(a: u16, b: u16) -> (m: u16)
    ensures
        m == (a + b) / 2,
{
    let sum: u32 = a as u32 + b as u32;
    (sum / 2) as u16
}

fn mean4(a: u16, b: u16, c: u16, d: u16) -> (m: u16)
    ensures
        m == (a + b + c + d) / 4,
{
    let sum: u32 = a as u32 + b as u32 + c as u32 + d as u32;
    (sum / 4) as u16
}

fn scale(v: u16) -> (s: u16)
    ensures
        s == scale16(v),
{
    proof {
        lemma_scale16(v);
    }
    v << 6
}

/// Overwrites the first values of `out` by the samples of `samples`, each
/// moved up into the 16-bit range; what follows them in `out` stays. Fails,
/// and leaves `out` as it was, where `out` has no room for them.
pub fn grayscale_10_to_16bit(samples: &[u16], out: &mut [u16]) -> (r: CineResult<()>)
    ensures
        r is Ok <==> samples@.len() <= old(out)@.len(),
        r is Ok ==> final(out)@ == overwritten(old(out)@, gray16(samples@)),
        r is Err ==> r->Err_0 is Conversion && final(out)@ == old(out)@,
{
    let n: usize = samples.len();
    let ghost before = out@;
    if out.len() < n {
        return Err(CineError::conversion("gray", "the frame has more samples than pixels"));
    }
    let mut i: usize = 0;
    while i < n
        invariant
            n == samples@.len(),
            i <= n <= out@.len() == before.len(),
            forall|k: int| 0 <= k < i ==> out@[k] == scale16(samples@[k]),
            forall|k: int| i <= k < out@.len() ==> out@[k] == before[k],
        decreases n - i,
    {
        out[i] = scale(samples[i]);
        i += 1;
    }
    Ok(())
}

/// Every sample of `samples` looked up in `lut`, a sample above 1023 as
/// 1023.
pub open spec fn lut_applied(samples: Seq<u16>, lut: Seq<u16>) -> Seq<u16> {
    Seq::new(
        samples.len(),
        |i: int|
            if samples[i] <= 1023 {
                lut[samples[i] as int]
            } else {
                lut[1023]
            },
    )
}

/// Replaces every 10-bit sample of `pixels` by its entry in the table
/// `lut`, which maps the 1024 packed codes to linear 12-bit values.
pub fn apply_lut_10_to_12(pixels: &mut [u16], lut: &[u16])
    requires
        lut@.len() >= 1024,
    ensures
        final(pixels)@ == lut_applied(old(pixels)@, lut@),
{
    let n: usize = pixels.len();
    let ghost before = pixels@;
    let mut i: usize = 0;
    while i < n
        invariant
            n == before.len() == pixels@.len(),
            lut@.len() >= 1024,
            i <= n,
            forall|k: int| 0 <= k < i ==> pixels@[k] == lut_applied(before, lut@)[k],
            forall|k: int| i <= k < n ==> pixels@[k] == before[k],
        decreases n - i,
    {
        let value: u16 = pixels[i];
        let clamped: usize = if value <= 1023 {
            value as usize
        } else {
            1023
        };
        pixels[i] = lut[clamped];
        i += 1;
    }
}

/// Overwrites the first values of `out` by the colour image of a frame of
/// `width` by `height` photosites whose even rows alternate green and blue
/// and whose odd rows alternate red and green; what follows them in `out`
/// stays. Fails, and leaves `out` as it was, where the frame has no
/// interior, where `samples` is too short for it, and where `out` has no
/// room for three values for each photosite.
pub fn bayer(samples: &[u16], width: u32, height: u32, out: &mut [u16]) -> (r: CineResult<()>)
    ensures
        r is Ok <==> bayer_accepts(samples@.len() as int, width as int, height as int) && width
            * height * 3 <= old(out)@.len(),
        r is Ok ==> final(out)@ == overwritten(
            old(out)@,
            bayer_rgb(samples@, width as int, height as int),
        ),
        r is Err ==> r->Err_0 is Conversion && final(out)@ == old(out)@,
{
    let w: usize = width as usize;
    let h: usize = height as usize;
    let len: usize = samples.len();
    let room: usize = out.len();
    let ghost before = out@;
    if w < 3 || h < 3 {
        return Err(CineError::conversion("rgb", "the frame has no interior photosite"));
    }
    if len / w < h {
        proof {
            lemma_cell_split(w as int, len as int);
            assert((len as int) < (w as int) * (h as int)) by (nonlinear_arith)
                requires
                    (len as int) / (w as int) <= h as int - 1,
                    len as int == (len as int) / (w as int) * (w as int) + (len as int) % (w as int),
                    (len as int) % (w as int) < w as int,
                    0 < w as int,
            ;
        }
        return Err(CineError::conversion("rgb", "the frame has fewer samples than photosites"));
    }
    proof {
        lemma_cell_split(w as int, len as int);
        assert((w as int) * (h as int) <= len as int) by (nonlinear_arith)
            requires
                (len as int) / (w as int) >= h as int,
                (len as int) / (w as int) * (w as int) <= len as int,
                0 < w as int,
        ;
    }
    if room / 3 < w * h {
        return Err(CineError::conversion("rgb", "the pixel buffer is too short"));
    }
    let ghost s = samples@;
    let ghost wi = w as int;
    let ghost hi = h as int;
    let mut o: usize = 0;
    let mut r: usize = 0;
    while r < h
        invariant
            s == samples@,
            wi == w == width,
            hi == h == height,
            3 <= wi,
            3 <= hi,
            wi * hi <= len == s.len(),
            wi * hi * 3 <= room == out@.len() == before.len(),
            r <= h,
            o == 3 * (r * wi),
            forall|k: int|
                0 <= k < o ==> out@[k] == bayer_channel(
                    s,
                    wi,
                    hi,
                    (k / 3) / wi,
                    (k / 3) % wi,
                    k % 3,
                ),
            forall|k: int| o <= k < out@.len() ==> out@[k] == before[k],
        decreases h - r,
    {
        let rr: usize = if r < 1 {
            1
        } else if r > h - 2 {
            h - 2
        } else {
            r
        };
        proof {
            lemma_cell_bound(wi, hi, rr - 1, 0);
            lemma_cell_bound(wi, hi, rr as int, 0);
            lemma_cell_bound(wi, hi, rr + 1, 0);
        }
        let above: usize = (rr - 1) * w;
        let level: usize = rr * w;
        let below: usize = (rr + 1) * w;
        proof {
            assert((rr - 1) * wi + wi == rr * wi && rr * wi + wi == (rr + 1) * wi)
                by (nonlinear_arith);
        }
        let mut c: usize = 0;
        while c < w
            invariant
                s == samples@,
                wi == w == width,
                hi == h == height,
                3 <= wi,
                3 <= hi,
                wi * hi <= len == s.len(),
                wi * hi * 3 <= room == out@.len() == before.len(),
                r < h,
                c <= w,
                rr == nearest_interior(hi, r as int),
                above == (rr - 1) * wi,
                level == rr * wi,
                below == (rr + 1) * wi,
                level == above + wi,
                below == level + wi,
                0 <= above,
                below + wi <= wi * hi,
                o == 3 * (r * wi + c),
                forall|k: int|
                    0 <= k < o ==> out@[k] == bayer_channel(
                        s,
                        wi,
                        hi,
                        (k / 3) / wi,
                        (k / 3) % wi,
                        k % 3,
                    ),
                forall|k: int| o <= k < out@.len() ==> out@[k] == before[k],
            decreases w - c,
        {
            let cc: usize = if c < 1 {
                1
            } else if c > w - 2 {
                w - 2
            } else {
                c
            };
            let nw: u16 = samples[above + cc - 1];
            let n: u16 = samples[above + cc];
            let ne: u16 = samples[above + cc + 1];
            let west: u16 = samples[level + cc - 1];
            let here: u16 = samples[level + cc];
            let east: u16 = samples[level + cc + 1];
            let sw: u16 = samples[below + cc - 1];
            let south: u16 = samples[below + cc];
            let se: u16 = samples[below + cc + 1];
            let red: u16;
            let green: u16;
            let blue: u16;
            if rr % 2 == 0 {
                if cc % 2 == 0 {
                    red = mean2(west, east);
                    green = here;
                    blue = mean2(n, south);
                } else {
                    red = mean4(nw, ne, sw, se);
                    green = mean4(west, east, n, south);
                    blue = here;
                }
            } else if cc % 2 == 0 {
                red = here;
                green = mean4(west, east, n, south);
                blue = mean4(nw, ne, sw, se);
            } else {
                red = mean2(n, south);
                green = here;
                blue = mean2(west, east);
            }
            let ghost p = r * wi + c;
            proof {
                lemma_cell_bound(wi, hi, r as int, c as int);
            }
            out[o] = scale(red);
            out[o + 1] = scale(green);
            out[o + 2] = scale(blue);
            proof {
                lemma_cell_parts(wi, r as int, c as int);
                assert(red == bayer_red(s, wi, rr as int, cc as int) && green == bayer_green(
                    s,
                    wi,
                    rr as int,
                    cc as int,
                ) && blue == bayer_blue(s, wi, rr as int, cc as int));
                assert forall|k: int| 0 <= k < o + 3 implies out@[k] == bayer_channel(
                    s,
                    wi,
                    hi,
                    (k / 3) / wi,
                    (k / 3) % wi,
                    k % 3,
                ) by {
                    if k >= 3 * p {
                        assert(k / 3 == p);
                    }
                }
            }
            o += 3;
            c += 1;
        }
        proof {
            assert(r * wi + wi == (r + 1) * wi) by (nonlinear_arith);
        }
        r += 1;
    }
    proof {
        assert(h * wi == wi * hi) by (nonlinear_arith)
            requires
                h == hi,
        ;
    }
    Ok(())
}

/// A gray frame has one pixel value for each sample, a colour frame three
/// for each photosite.
pub proof fn lemma_pixel_count(kind: ColorFilterArray, samples: Seq<u16>, w: int, h: int)
    requires
        kind.accepts(samples.len() as int, w, h),
    ensures
        kind.pixels(samples, w, h).len() == kind.value_count(samples.len() as int, w, h),
{
    if kind is Bayer {
        assert(0 <= w * h * 3) by (nonlinear_arith)
            requires
                3 <= w,
                3 <= h,
        ;
    }
}

/// Whether the photosite in row `r` and column `c` and its eight neighbours
/// all hold the sample `v`.
pub open spec fn flat_around(samples: Seq<u16>, w: int, r: int, c: int, v: u16) -> bool {
    &&& sample_at(samples, w, r - 1, c - 1) == v
    &&& sample_at(samples, w, r - 1, c) == v
    &&& sample_at(samples, w, r - 1, c + 1) == v
    &&& sample_at(samples, w, r, c - 1) == v
    &&& sample_at(samples, w, r, c) == v
    &&& sample_at(samples, w, r, c + 1) == v
    &&& sample_at(samples, w, r + 1, c - 1) == v
    &&& sample_at(samples, w, r + 1, c) == v
    &&& sample_at(samples, w, r + 1, c + 1) == v
}

/// On a flat field the reconstruction adds nothing: an interior photosite
/// whose neighbourhood holds one value `v` gets that value, moved up into
/// the 16-bit range, in all three channels.
pub proof fn lemma_flat_field(samples: Seq<u16>, w: int, h: int, r: int, c: int, v: u16)
    requires
        1 <= r <= h - 2,
        1 <= c <= w - 2,
        flat_around(samples, w, r, c, v),
    ensures
        bayer_channel(samples, w, h, r, c, 0) == scale16(v),
        bayer_channel(samples, w, h, r, c, 1) == scale16(v),
        bayer_channel(samples, w, h, r, c, 2) == scale16(v),
{
}

/// The colour image of a frame whose samples all hold one value `v` holds
/// that value, moved up into the 16-bit range, everywhere.
pub proof fn lemma_flat_frame(samples: Seq<u16>, w: int, h: int, v: u16)
    requires
        bayer_accepts(samples.len() as int, w, h),
        forall|i: int| 0 <= i < samples.len() ==> samples[i] == v,
    ensures
        bayer_rgb(samples, w, h) == Seq::new((w * h * 3) as nat, |i: int| scale16(v)),
{
    let flat = Seq::new((w * h * 3) as nat, |i: int| scale16(v));
    assert(0 <= w * h) by (nonlinear_arith)
        requires
            3 <= w,
            3 <= h,
    ;
    assert forall|i: int| 0 <= i < w * h * 3 implies bayer_rgb(samples, w, h)[i] == flat[i] by {
        lemma_cell_row(w, h, i / 3);
        let rr = nearest_interior(h, (i / 3) / w);
        let cc = nearest_interior(w, (i / 3) % w);
        lemma_cell_bound(w, h, rr - 1, cc - 1);
        lemma_cell_bound(w, h, rr - 1, cc);
        lemma_cell_bound(w, h, rr - 1, cc + 1);
        lemma_cell_bound(w, h, rr, cc - 1);
        lemma_cell_bound(w, h, rr, cc);
        lemma_cell_bound(w, h, rr, cc + 1);
        lemma_cell_bound(w, h, rr + 1, cc - 1);
        lemma_cell_bound(w, h, rr + 1, cc);
        lemma_cell_bound(w, h, rr + 1, cc + 1);
        lemma_flat_field(samples, w, h, rr, cc, v);
    }
}

} // verus!
