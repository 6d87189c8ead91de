use cine_core::cine::{BitmapInfoHeader, CineFileHeader, Setup};
use cine_core::conversions::ColorFilterArray;
use cine_core::decompress::Decompression;
use cine_core::errors::{CineError, Failure, FrameRangeError};
use cine_core::exporters::{FrameData, FrameType, SaveData, SaveType};
use cine_core::file::{CineFile, Mp4File, VideoOps, VideoSource};
use cine_core::Video;

const HEADER_AT: usize = 0;
const BITMAP_AT: usize = 44;
const SETUP_AT: usize = 84;
const TABLE_AT: usize = 84 + 6028;

fn put_u16(file: &mut [u8], at: usize, value: u16) {
    file[at..at + 2].copy_from_slice(&value.to_le_bytes());
}

fn put_u32(file: &mut [u8], at: usize, value: u32) {
    file[at..at + 4].copy_from_slice(&value.to_le_bytes());
}

fn put_i64(file: &mut [u8], at: usize, value: i64) {
    file[at..at + 8].copy_from_slice(&value.to_le_bytes());
}

fn pack10(samples: &[u16]) -> Vec<u8> {
    let mut bytes = Vec::new();
    for group in samples.chunks_exact(4) {
        bytes.push((group[0] >> 2) as u8);
        bytes.push((((group[0] & 0x03) << 6) | (group[1] >> 4)) as u8);
        bytes.push((((group[1] & 0x0f) << 4) | (group[2] >> 6)) as u8);
        bytes.push((((group[2] & 0x3f) << 2) | (group[3] >> 8)) as u8);
        bytes.push((group[3] & 0xff) as u8);
    }
    bytes
}

/// A container with the given geometry and one annotation block of
/// `gap` bytes before the payload of every frame.
fn container(
    width: u32,
    height: u32,
    compression: u32,
    cfa: u32,
    gap: u32,
    payloads: &[Vec<u8>],
) -> Vec<u8> {
    let frames = payloads.len();
    let size = payloads.first().map(|p| p.len()).unwrap_or(0);
    let first_frame = TABLE_AT + 8 * frames;
    let mut file = vec![0u8; first_frame];
    put_u16(&mut file, HEADER_AT, 0x4943);
    put_u16(&mut file, HEADER_AT + 2, 44);
    put_u16(&mut file, HEADER_AT + 4, 0);
    put_u16(&mut file, HEADER_AT + 6, 1);
    put_u32(&mut file, HEADER_AT + 20, frames as u32);
    put_u32(&mut file, HEADER_AT + 24, BITMAP_AT as u32);
    put_u32(&mut file, HEADER_AT + 28, SETUP_AT as u32);
    put_u32(&mut file, HEADER_AT + 32, TABLE_AT as u32);
    put_u32(&mut file, BITMAP_AT, 40);
    put_u32(&mut file, BITMAP_AT + 4, width);
    put_u32(&mut file, BITMAP_AT + 8, height);
    put_u16(&mut file, BITMAP_AT + 14, 16);
    put_u32(&mut file, BITMAP_AT + 16, compression);
    put_u32(&mut file, BITMAP_AT + 20, size as u32);
    put_u32(&mut file, SETUP_AT + 760, 1);
    put_u32(&mut file, SETUP_AT + 808, cfa);
    put_u32(&mut file, SETUP_AT + 6024, 2.2f32.to_bits());
    for (n, payload) in payloads.iter().enumerate() {
        let at = file.len();
        put_i64(&mut file, TABLE_AT + 8 * n, at as i64);
        file.extend_from_slice(&gap.to_le_bytes());
        file.extend(std::iter::repeat(0xee).take(gap as usize - 4));
        file.extend_from_slice(payload);
    }
    file
}

fn gray_8_by_8() -> Vec<u8> {
    container(8, 8, 256, 0, 4, &[pack10(&[512u16; 64])])
}

#[test]
fn one_gray_frame_end_to_end() {
    let file = gray_8_by_8();
    let mut cine = CineFile::open(file).unwrap();
    assert_eq!(cine.get_frame(0).unwrap(), &vec![512u16 << 6; 64]);
    assert_eq!(cine.pixels, vec![512u16 << 6; 64]);
    assert_eq!(cine.pixel_buffer, vec![512u16; 64]);
    assert_eq!(cine.img_byte_buffer, pack10(&[512u16; 64]));
    match cine.get_frame(1) {
        Err(CineError::OutOfRange(range)) => {
            assert_eq!(range, FrameRangeError { frame_no: 1, frame_count: 1 })
        }
        other => panic!("{:?}", other),
    }
    assert_eq!(cine.get_frame(-1).unwrap_err().kind(), Failure::OutOfRange);
    assert_eq!(cine.get_frame(i32::MAX).unwrap_err().kind(), Failure::OutOfRange);
    assert_eq!(cine.pixels, vec![512u16 << 6; 64]);
}

#[test]
fn payload_that_starts_at_the_annotation_block() {
    // With an offset to the payload of 0 the payload begins with the four
    // bytes that hold that offset, and every group of five bytes is read
    // four bytes early.
    let mut file = container(8, 8, 256, 0, 4, &[pack10(&[512u16; 64])]);
    let at = file.len() - 84;
    put_u32(&mut file, at, 0);
    let mut cine = CineFile::open(file).unwrap();
    assert!(cine.get_frame(0).is_ok());
    let mut samples = vec![0u16, 0, 0, 128];
    samples.extend(vec![128u16; 60]);
    assert_eq!(cine.pixel_buffer, samples);
    assert_eq!(cine.pixels.len(), 64);
}

#[test]
fn opening_decodes_the_records() {
    let cine = CineFile::open(gray_8_by_8()).unwrap();
    assert_eq!(
        cine.cine_file_header,
        CineFileHeader {
            file_type: 0x4943,
            header_size: 44,
            compression: 0,
            version: 1,
            image_count: 1,
            offset_image_header: 44,
            offset_setup: 84,
            offset_image_offsets: 6112,
        }
    );
    assert_eq!(
        cine.bitmap_info_header,
        BitmapInfoHeader {
            bi_size: 40,
            bi_width: 8,
            bi_height: 8,
            bi_bit_count: 16,
            bi_compression: 256,
            bi_size_image: 80,
        }
    );
    assert_eq!(cine.setup, Setup { cfa: 0, flip_v: true, gamma_bits: 2.2f32.to_bits() });
    assert_eq!(cine.p_images, vec![6120]);
    assert_eq!(cine.frame_count(), 1);
    assert_eq!(cine.compression_type, Decompression::Packed10Bit);
    assert_eq!(cine.cfa, ColorFilterArray::Gray);
    assert_eq!(cine.img_byte_buffer, vec![0u8; 80]);
    assert_eq!(cine.pixel_buffer, vec![0u16; 64]);
    assert_eq!(cine.pixels, vec![0u16; 64]);
    assert!(cine.buffers_fit());
    let headers = cine.get_headers().unwrap();
    assert_eq!(headers.file_name, "temp.cine");
    assert_eq!((headers.width, headers.height, headers.frame_count), (8, 8, 1));
}

#[test]
fn unsupported_compression_is_refused_at_open() {
    for code in [999u32, 1, 255, 512] {
        let file = container(8, 8, code, 0, 4, &[pack10(&[512u16; 64])]);
        assert_eq!(CineFile::open(file).unwrap_err().kind(), Failure::Unsupported);
    }
}

#[test]
fn layouts_without_reconstruction_are_refused_at_open() {
    for cfa in [1u32, 2, 4, 5, 6, 7, 0xff, 0x8000_0001] {
        let file = container(8, 8, 256, cfa, 4, &[pack10(&[512u16; 64])]);
        assert_eq!(CineFile::open(file).unwrap_err().kind(), Failure::Unsupported);
    }
    let file = container(8, 8, 256, 0x8000_0003, 4, &[pack10(&[512u16; 64])]);
    assert_eq!(CineFile::open(file).unwrap().cfa, ColorFilterArray::Bayer);
}

#[test]
fn truncated_containers_are_read_failures() {
    let whole = gray_8_by_8();
    for len in [0usize, 43, 44, 83, 84, 6111, 6112, 6119] {
        let file = whole[..len].to_vec();
        assert_eq!(CineFile::open(file).unwrap_err().kind(), Failure::Io);
    }
    // All four records are there; the frame is not.
    let mut cine = CineFile::open(whole[..6120].to_vec()).unwrap();
    assert_eq!(cine.get_frame(0).unwrap_err().kind(), Failure::Io);
    let mut cine = CineFile::open(whole[..whole.len() - 1].to_vec()).unwrap();
    assert_eq!(cine.get_frame(0).unwrap_err().kind(), Failure::Io);
    assert_eq!(cine.pixels, vec![0u16; 64]);
}

#[test]
fn a_read_failure_comes_before_a_refusal() {
    let whole = container(8, 8, 999, 0, 4, &[pack10(&[512u16; 64])]);
    assert_eq!(CineFile::open(whole[..6119].to_vec()).unwrap_err().kind(), Failure::Io);
    assert_eq!(CineFile::open(whole).unwrap_err().kind(), Failure::Unsupported);
}

#[test]
fn frame_offsets_are_checked_when_the_frame_is_asked_for() {
    let payloads = vec![pack10(&[1u16; 64]), pack10(&[2u16; 64]), pack10(&[3u16; 64])];
    let good = container(8, 8, 256, 0, 8, &payloads);
    let mut cine = CineFile::open(good.clone()).unwrap();
    for n in [2, 0, 1] {
        assert_eq!(cine.get_frame(n).unwrap(), &vec![((n + 1) as u16) << 6; 64]);
    }
    // A negative offset.
    let mut bad = good.clone();
    put_i64(&mut bad, TABLE_AT + 8, -1);
    let mut cine = CineFile::open(bad).unwrap();
    assert!(cine.get_frame(0).is_ok());
    assert_eq!(cine.get_frame(1).unwrap_err().kind(), Failure::Io);
    // An offset before that of the frame before.
    let mut bad = good.clone();
    put_i64(&mut bad, TABLE_AT + 16, 6200);
    let mut cine = CineFile::open(bad).unwrap();
    assert!(cine.get_frame(1).is_ok());
    assert_eq!(cine.get_frame(2).unwrap_err().kind(), Failure::Io);
    // An offset past the end of the file.
    let mut bad = good.clone();
    put_i64(&mut bad, TABLE_AT + 16, i64::MAX);
    let mut cine = CineFile::open(bad).unwrap();
    assert_eq!(cine.get_frame(2).unwrap_err().kind(), Failure::Io);
    assert_eq!(cine.pixels, vec![0u16; 64]);
}

#[test]
fn frame_index() {
    let payloads = vec![pack10(&[1u16; 64]), pack10(&[2u16; 64])];
    let cine = CineFile::open(container(8, 8, 256, 0, 8, &payloads)).unwrap();
    assert_eq!(cine.frame_offset(0).unwrap(), 6128);
    assert_eq!(cine.frame_offset(1).unwrap(), 6128 + 8 + 80);
    for n in [-1, 2, i32::MIN, i32::MAX] {
        match cine.frame_offset(n) {
            Err(CineError::OutOfRange(range)) => {
                assert_eq!(range, FrameRangeError { frame_no: n, frame_count: 2 })
            }
            other => panic!("{:?}", other),
        }
    }
}

#[test]
fn colour_frame_end_to_end() {
    let file = container(4, 4, 256, 3, 4, &[pack10(&[700u16; 16])]);
    let mut cine = CineFile::open(file).unwrap();
    assert_eq!(cine.get_frame(0).unwrap(), &vec![700u16 << 6; 48]);
}

#[test]
fn colour_frame_without_interior_cannot_be_converted() {
    let file = container(2, 8, 256, 3, 4, &[pack10(&[700u16; 16])]);
    let mut cine = CineFile::open(file).unwrap();
    assert_eq!(cine.get_frame(0).unwrap_err().kind(), Failure::Conversion);
}

#[test]
fn unpacked_frame_end_to_end() {
    let file = container(2, 3, 0, 0, 4, &[vec![1, 2, 3, 4, 5, 6]]);
    let mut cine = CineFile::open(file).unwrap();
    assert!(cine.get_frame(0).is_ok());
    assert_eq!(cine.pixel_buffer, vec![5, 6, 3, 4, 1, 2]);
    assert_eq!(cine.pixels, vec![5 << 6, 6 << 6, 3 << 6, 4 << 6, 1 << 6, 2 << 6]);
    let file = container(2, 4, 0, 0, 4, &[vec![1, 2, 3, 4, 5, 6]]);
    let mut cine = CineFile::open(file).unwrap();
    assert_eq!(cine.get_frame(0).unwrap_err().kind(), Failure::Conversion);
}

#[test]
fn frames_in_the_forms_asked_for() {
    let mut cine = CineFile::open(gray_8_by_8()).unwrap();
    match cine.get_frame_as(0, FrameType::Raw).unwrap() {
        FrameData::Raw(values) => assert_eq!(values, vec![32768u16; 64]),
        other => panic!("{:?}", other),
    }
    match cine.get_frame_as(0, FrameType::Bytes).unwrap() {
        FrameData::Bytes(bytes) => assert_eq!(bytes, [0u8, 0x80].repeat(64)),
        other => panic!("{:?}", other),
    }
    match cine.get_frame_as(0, FrameType::Png).unwrap() {
        FrameData::Png(bytes) => assert_eq!(&bytes[..8], &[0x89, b'P', b'N', b'G', 13, 10, 26, 10]),
        other => panic!("{:?}", other),
    }
    assert_eq!(cine.get_frame_as(1, FrameType::Raw).unwrap_err().kind(), Failure::OutOfRange);
    match cine.save_frame_as(0, SaveType::Png).unwrap() {
        SaveData::Png(bytes) => assert_eq!(&bytes[..8], &[0x89, b'P', b'N', b'G', 13, 10, 26, 10]),
        other => panic!("{:?}", other),
    }
    assert_eq!(cine.save_frame_as(0, SaveType::Jpeg).unwrap_err().kind(), Failure::Unsupported);
    assert_eq!(cine.save_frame_as(0, SaveType::Mp4).unwrap_err().kind(), Failure::Unsupported);
    assert_eq!(cine.save_frame_as(5, SaveType::Png).unwrap_err().kind(), Failure::OutOfRange);
}

#[test]
fn buffers_keep_their_lengths() {
    let payloads = vec![pack10(&[1u16; 16]), pack10(&[2u16; 16])];
    for (cfa, values) in [(0u32, 16usize), (3, 48)] {
        let mut cine = CineFile::open(container(4, 4, 256, cfa, 8, &payloads)).unwrap();
        let lengths = |cine: &CineFile| {
            (cine.img_byte_buffer.len(), cine.pixel_buffer.len(), cine.pixels.len())
        };
        assert_eq!(lengths(&cine), (20, 16, values));
        for n in [0, 1, 7, -1, 0] {
            let _ = cine.get_frame(n);
            assert_eq!(lengths(&cine), (20, 16, values));
        }
    }
}

#[test]
fn gray_frame_with_fewer_samples_than_photosites() {
    // 16 samples for 5 by 4 photosites: the first 16 pixel values are
    // written, the others stay as `open` left them.
    let file = container(5, 4, 256, 0, 4, &[pack10(&[300u16; 16])]);
    let mut cine = CineFile::open(file).unwrap();
    assert_eq!(cine.pixels.len(), 20);
    let mut expected = vec![300u16 << 6; 16];
    expected.extend(vec![0u16; 4]);
    assert_eq!(cine.get_frame(0).unwrap(), &expected);
}

#[test]
fn gray_frame_with_more_samples_than_photosites() {
    let file = container(3, 4, 256, 0, 4, &[pack10(&[300u16; 16])]);
    let mut cine = CineFile::open(file).unwrap();
    assert_eq!(cine.pixels.len(), 12);
    assert_eq!(cine.get_frame(0).unwrap_err().kind(), Failure::Conversion);
    assert_eq!(cine.pixels, vec![0u16; 12]);
}

#[test]
fn buffers_of_other_lengths_are_refused() {
    let mut cine = CineFile::open(gray_8_by_8()).unwrap();
    cine.pixels.push(0);
    assert!(!cine.buffers_fit());
    assert_eq!(cine.get_frame(0).unwrap_err().kind(), Failure::Conversion);
    assert_eq!(cine.get_frame(1).unwrap_err().kind(), Failure::OutOfRange);
    cine.pixels.pop();
    cine.img_byte_buffer.clear();
    assert_eq!(cine.get_frame(0).unwrap_err().kind(), Failure::Conversion);
    cine.img_byte_buffer = vec![0u8; 80];
    cine.pixel_buffer.truncate(63);
    assert_eq!(cine.get_frame(0).unwrap_err().kind(), Failure::Conversion);
    cine.pixel_buffer.push(0);
    assert!(cine.get_frame(0).is_ok());
}

#[test]
fn frames_too_large_for_the_machine_are_refused_at_open() {
    let file = container(u32::MAX, u32::MAX, 256, 3, 4, &[pack10(&[1u16; 4])]);
    assert_eq!(CineFile::open(file).unwrap_err().kind(), Failure::Unsupported);
}

#[test]
fn extensions() {
    assert_eq!(Video::extension("clip.cine"), "cine");
    assert_eq!(Video::extension("/data/run.7/clip.mp4"), "mp4");
    assert_eq!(Video::extension("a.b.c"), "c");
    assert_eq!(Video::extension("clip"), "");
    assert_eq!(Video::extension("clip."), "");
    assert_eq!(Video::extension(".cine"), "");
    assert_eq!(Video::extension("dir/.cine"), "");
    assert_eq!(Video::extension("dir.d/clip"), "");
    assert_eq!(Video::extension("clip.cine/"), "cine");
    assert_eq!(Video::extension(""), "");
    assert_eq!(Video::extension("é.ciné"), "ciné");
    assert_eq!(Video::extension("..cine"), "cine");
}

#[test]
fn video_is_opened_by_the_extension_given() {
    assert!(matches!(Video::open_as("cine", "clip", gray_8_by_8()), Ok(VideoSource::Cine(_))));
    assert!(matches!(Video::open_as("cine", "clip", vec![]), Err(CineError::IoError(_))));
    assert!(matches!(Video::open_as("mp4", "clip.cine", gray_8_by_8()), Err(CineError::Unsupported(_))));
    match Video::open_as("avi", "clip.cine", gray_8_by_8()) {
        Err(CineError::Unsupported(refused)) => assert_eq!(refused.file_type, "avi"),
        _ => panic!("an unknown extension"),
    }
}

#[test]
fn video_is_opened_by_its_extension() {
    match Video::open("run/clip.cine", gray_8_by_8()).unwrap() {
        VideoSource::Cine(mut cine) => {
            assert!(cine.get_frame(0).is_ok());
            assert_eq!(cine.pixels, vec![32768u16; 64]);
        }
        VideoSource::Mp4(_) => panic!("a cine container"),
    }
    let mut source = Video::open("clip.cine", gray_8_by_8()).unwrap();
    assert_eq!(source.get_headers().unwrap().frame_count, 1);
    match source.get_frame_as(0, FrameType::Raw).unwrap() {
        FrameData::Raw(values) => assert_eq!(values, vec![32768u16; 64]),
        other => panic!("{:?}", other),
    }
    assert_eq!(source.get_frame_as(1, FrameType::Raw).unwrap_err().kind(), Failure::OutOfRange);
    assert_eq!(source.save_frame_as(0, SaveType::Jpeg).unwrap_err().kind(), Failure::Unsupported);
    match Video::open("clip.avi", gray_8_by_8()) {
        Err(CineError::Unsupported(refused)) => assert_eq!(refused.file_type, "avi"),
        _ => panic!("an unknown extension"),
    }
    match Video::open("clip", gray_8_by_8()) {
        Err(CineError::Unsupported(refused)) => assert_eq!(refused.file_type, ""),
        _ => panic!("no extension"),
    }
    assert!(matches!(Video::open("clip.mp4", gray_8_by_8()), Err(CineError::Unsupported(_))));
    assert!(matches!(Video::open("clip.CINE", gray_8_by_8()), Err(CineError::Unsupported(_))));
    assert!(matches!(Video::open("clip.cine", vec![0u8; 10]), Err(CineError::IoError(_))));
}

#[test]
fn mp4_is_not_implemented() {
    assert_eq!(Mp4File::open("clip.mp4").unwrap_err().kind(), Failure::Unsupported);
    let mut mp4 = Mp4File {};
    assert_eq!(mp4.get_headers().unwrap_err().kind(), Failure::Unsupported);
    assert_eq!(mp4.get_frame_as(0, FrameType::Raw).unwrap_err().kind(), Failure::Unsupported);
    assert_eq!(mp4.save_frame_as(0, SaveType::Png).unwrap_err().kind(), Failure::Unsupported);
}
