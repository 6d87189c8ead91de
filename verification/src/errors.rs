//! The error values that every fallible operation of the decoder returns.
use vstd::prelude::*;
use vstd::std_specs::convert::FromSpecImpl;
use vstd::string::*;

verus! {

/// Why an operation on a video container failed.
#[derive(Debug)]
pub enum CineError {
    /// Pixel data could not be reconstructed or exported.
    Conversion(ConversionError),
    /// The container, its compression code or its sensor layout is not one
    /// that this decoder handles.
    Unsupported(FileTypeError),
    /// The container's bytes could not be read, or end before a record that
    /// the headers announce.
    IoError(String),
    /// A frame number outside `[0, frame_count)` was requested.
    OutOfRange(FrameRangeError),
}

/// A failed conversion: what was being produced, and the cause.
#[derive(Debug)]
pub struct ConversionError {
    pub file_type: String,
    pub source: String,
}

/// An input kind without an implementation.
#[derive(Debug)]
pub struct FileTypeError {
    pub file_type: String,
}

/// A frame request that the container cannot serve.
#[derive(Debug, Clone, Copy, PartialEq, Eq, Structural)]
pub struct FrameRangeError {
    pub frame_no: i32,
    pub frame_count: u32,
}

pub type CineResult<T> = Result<T, CineError>;

/// The four kinds of failure, without what each carries.
#[derive(Clone, Copy, Debug, PartialEq, Eq, Structural)]
pub enum Failure {
    Conversion,
    Unsupported,
    Io,
    OutOfRange,
}

impl ConversionError {
    /// Records that producing `file_type` failed because of `err`.
    pub fn new(file_type: &str, err: &str) -> (e: Self)
        ensures
            e.file_type@ == file_type@,
            e.source@ == err@,
    {
        ConversionError { file_type: String::from_str(file_type), source: String::from_str(err) }
    }

    /// The message of this error: what could not be produced.
    pub fn message(&self) -> (text: String)
        ensures
            text@ == "Failed to convert file type: "@ + self.file_type@,
    {
        String::from_str("Failed to convert file type: ").concat(self.file_type.as_str())
    }

    /// The cause of this error.
    pub fn source(&self) -> (cause: &str)
        ensures
            cause@ == self.source@,
    {
        self.source.as_str()
    }
}

impl CineError {
    /// The kind of this failure.
    pub open spec fn failure(&self) -> Failure {
        match self {
            CineError::Conversion(_) => Failure::Conversion,
            CineError::Unsupported(_) => Failure::Unsupported,
            CineError::IoError(_) => Failure::Io,
            CineError::OutOfRange(_) => Failure::OutOfRange,
        }
    }

    /// The kind of this failure.
    pub fn kind(&self) -> (k: Failure)
        ensures
            k == self.failure(),
    {
        match self {
            CineError::Conversion(_) => Failure::Conversion,
            CineError::Unsupported(_) => Failure::Unsupported,
            CineError::IoError(_) => Failure::Io,
            CineError::OutOfRange(_) => Failure::OutOfRange,
        }
    }

    /// An `Unsupported` error that names `what`.
    pub fn unsupported(what: &str) -> (e: Self)
        ensures
            e is Unsupported,
            e->Unsupported_0.file_type@ == what@,
    {
        CineError::Unsupported(FileTypeError { file_type: String::from_str(what) })
    }

    /// A `Conversion` error for the output `file_type` with cause `cause`.
    pub fn conversion(file_type: &str, cause: &str) -> (e: Self)
        ensures
            e is Conversion,
            e->Conversion_0.file_type@ == file_type@,
            e->Conversion_0.source@ == cause@,
    {
        CineError::Conversion(ConversionError::new(file_type, cause))
    }

    /// An `IoError` with the message `what`.
    pub fn io(what: &str) -> (e: Self)
        ensures
            e is IoError,
            e->IoError_0@ == what@,
    {
        CineError::IoError(String::from_str(what))
    }
}

impl FileTypeError {
    /// The message of this error: what is not handled.
    pub fn message(&self) -> (text: String)
        ensures
            text@ == "Unsupported file type: "@ + self.file_type@,
    {
        String::from_str("Unsupported file type: ").concat(self.file_type.as_str())
    }
}

impl FrameRangeError {
    /// The message of this error.
    pub fn message(&self) -> (text: String)
        ensures
            text@ == "Frame number out of range"@,
    {
        String::from_str("Frame number out of range")
    }
}

impl CineError {
    /// The message of this error: that of the error it wraps.
    pub fn message(&self) -> (text: String)
        ensures
            text@ == (match *self {
                CineError::Conversion(inner) => "Failed to convert file type: "@
                    + inner.file_type@,
                CineError::Unsupported(inner) => "Unsupported file type: "@ + inner.file_type@,
                CineError::IoError(inner) => inner@,
                CineError::OutOfRange(_) => "Frame number out of range"@,
            }),
    {
        match self {
            CineError::Conversion(inner) => inner.message(),
            CineError::Unsupported(inner) => inner.message(),
            CineError::IoError(inner) => inner.clone(),
            CineError::OutOfRange(inner) => inner.message(),
        }
    }
}

impl From<ConversionError> for CineError {
    fn from(err: ConversionError) -> (e: CineError) {
        CineError::Conversion(err)
    }
}

impl FromSpecImpl<ConversionError> for CineError {
    open spec fn obeys_from_spec() -> bool {
        true
    }

    open spec fn from_spec(err: ConversionError) -> CineError {
        CineError::Conversion(err)
    }
}

impl From<FileTypeError> for CineError {
    fn from(err: FileTypeError) -> (e: CineError) {
        CineError::Unsupported(err)
    }
}

impl FromSpecImpl<FileTypeError> for CineError {
    open spec fn obeys_from_spec() -> bool {
        true
    }

    open spec fn from_spec(err: FileTypeError) -> CineError {
        CineError::Unsupported(err)
    }
}

impl From<FrameRangeError> for CineError {
    fn from(err: FrameRangeError) -> (e: CineError) {
        CineError::OutOfRange(err)
    }
}

impl FromSpecImpl<FrameRangeError> for CineError {
    open spec fn obeys_from_spec() -> bool {
        true
    }

    open spec fn from_spec(err: FrameRangeError) -> CineError {
        CineError::OutOfRange(err)
    }
}

/// `std::io::Error`, as file access hands it over.
#[verifier::external_type_specification]
#[verifier::external_body]
pub struct ExIoError(std::io::Error);

/// The message of a `std::io::Error`, as its `Display` writes it. Nothing
/// is claimed of the text.
#[verifier::external_body]
fn io_error_text(error: &std::io::Error) -> (text: String) {
    format!("{}", error)
}

impl From<std::io::Error> for CineError {
    fn from(err: std::io::Error) -> (e: CineError)
        ensures
            e is IoError,
    {
        CineError::IoError(io_error_text(&err))
    }
}

impl FromSpecImpl<std::io::Error> for CineError {
    open spec fn obeys_from_spec() -> bool {
        false
    }

    open spec fn from_spec(err: std::io::Error) -> CineError {
        arbitrary()
    }
}

} // verus!
