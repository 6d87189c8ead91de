//! Decoder for high-speed-camera CINE video containers: header parsing,
//! frame lookup, packed-sample decompression and colour reconstruction.
use vstd::prelude::*;
use vstd::string::*;
use crate::errors::{CineError, CineResult};
use crate::file::{open_failure, CineFile, Mp4File, VideoSource};

pub mod cine;
pub mod conversions;
pub mod decompress;
pub mod errors;
pub mod exporters;
pub mod file;
pub mod grid;
pub mod packed;

verus! {

/// Whether `ext` stands in `path` right behind a dot, and holds no dot
/// itself.
pub open spec fn follows_a_dot(path: Seq<char>, ext: Seq<char>) -> bool {
    &&& exists|i: int|
        0 <= i && i + 1 + ext.len() <= path.len() && #[trigger] path[i] == '.' && path.subrange(
            i + 1,
            i + 1 + ext.len(),
        ) == ext
    &&& forall|k: int| 0 <= k < ext.len() ==> #[trigger] ext[k] != '.'
}

/// `std::path::Path::extension` on the path `path`. Which part of a path
/// is the file's name depends on the platform, so the extension is not
/// stated. Claimed, of every platform: an extension is what follows the
/// last dot of the file's name, so it stands in the path behind a dot and
/// holds no dot.
#[verifier::external_body]
fn path_extension(path: &str) -> (found: Option<&str>)
    ensures
        found is Some ==> follows_a_dot(path@, found->Some_0@),
{
    match std::path::Path::new(path).extension() {
        Some(ext) => ext.to_str(),
        None => None,
    }
}

fn same_text(a: &str, b: &str) -> (same: bool)
    ensures
        same == (a@ == b@),
{
    String::from_str(a) == String::from_str(b)
}

/// The entry point: opens a video source by the extension of its path.
pub struct Video;

impl Video {
    /// The extension of the file that `path` names, as the platform reads
    /// paths; the empty text where the file has none.
    pub fn extension(path: &str) -> (ext: &str)
        ensures
            ext@.len() == 0 || follows_a_dot(path@, ext@),
    {
        match path_extension(path) {
            Some(ext) => ext,
            None => {
                proof {
                    reveal_strlit("");
                }
                ""
            },
        }
    }

    /// Opens the video with the extension `ext`, the path `path` and the
    /// bytes `file`. The extension `cine` opens a CINE container; `mp4` is
    /// refused as not implemented; every other extension is refused by its
    /// name.
    pub fn open_as(ext: &str, path: &str, file: Vec<u8>) -> (r: CineResult<VideoSource>)
        ensures
            ext@ == "cine"@ ==> match open_failure(file@) {
                None => r is Ok && r->Ok_0 is Cine && r->Ok_0->Cine_0.opens(file@),
                Some(failure) => r is Err && r->Err_0.failure() == failure,
            },
            ext@ != "cine"@ ==> r is Err && r->Err_0 is Unsupported,
            ext@ != "cine"@ && ext@ != "mp4"@ ==> r->Err_0->Unsupported_0.file_type@ == ext@,
    {
        if same_text(ext, "cine") {
            let opened = CineFile::open(file)?;
            Ok(VideoSource::Cine(opened))
        } else if same_text(ext, "mp4") {
            let opened = Mp4File::open(path)?;
            Ok(VideoSource::Mp4(opened))
        } else {
            Err(CineError::unsupported(ext))
        }
    }

    /// Opens the video whose path is `path` and whose bytes are `file`, by
    /// the extension of the path. Only a CINE container is ever opened. A
    /// path without a dot has no extension, and is refused.
    pub fn open(path: &str, file: Vec<u8>) -> (r: CineResult<VideoSource>)
        ensures
            r is Ok ==> open_failure(file@) is None && r->Ok_0 is Cine && r->Ok_0->Cine_0.opens(
                file@,
            ),
            r is Err ==> r->Err_0 is Unsupported || open_failure(file@) == Some(
                r->Err_0.failure(),
            ),
            (forall|i: int| 0 <= i < path@.len() ==> path@[i] != '.') ==> r is Err
                && r->Err_0 is Unsupported && r->Err_0->Unsupported_0.file_type@.len() == 0,
    {
        let ext: &str = Self::extension(path);
        proof {
            reveal_strlit("cine");
            reveal_strlit("mp4");
        }
        Self::open_as(ext, path, file)
    }
}

} // verus!
