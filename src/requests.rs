use vstd::prelude::*;

use crate::error::AppError;
use crate::stat::FileStatWithName;

verus! {

/// The height that a video is scaled to when the request names none.
pub const DEFAULT_VIDEO_HEIGHT: u32 = 720;

/// The bit rate, in kbit/s, of a video when the request names none.
pub const DEFAULT_VIDEO_BITRATE: u32 = 2000;

/// The parameter that a request names, or the error for its absence.
pub open spec fn required(p: Option<String>) -> Result<Seq<char>, AppError> {
    match p {
        Some(s) => Ok(s@),
        None => Err(AppError::MissingParameter),
    }
}

fn require(p: &Option<String>) -> (r: Result<String, AppError>)
    ensures
        p matches Some(s) ==> (r matches Ok(t) && t@ == s@),
        p is None ==> r == Err::<String, AppError>(AppError::MissingParameter),
{
    match p {
        Some(s) => Ok(s.clone()),
        None => Err(AppError::MissingParameter),
    }
}

/// A request on one path: list, read, stat, delete, create a directory,
/// zip or preview an archive.
pub struct GetFilesOfDirReq {
    pub file: Option<String>,
}

impl GetFilesOfDirReq {
    /// The path asked for.
    pub fn file(&self) -> (r: Result<String, AppError>)
        ensures
            self.file matches Some(s) ==> (r matches Ok(t) && t@ == s@),
            self.file is None ==> r == Err::<String, AppError>(AppError::MissingParameter),
    {
        require(&self.file)
    }
}

/// The listing of a directory.
pub struct GetFilesOfDirResp {
    pub files: Vec<FileStatWithName>,
}

/// A request to delete several paths.
pub struct DeleteFilesOfDirReq {
    pub files: Option<Vec<String>>,
}

impl DeleteFilesOfDirReq {
    /// The paths asked for, in order.
    pub fn files(self) -> (r: Result<Vec<String>, AppError>)
        ensures
            self.files matches Some(v) ==> (r matches Ok(t) && t@ == v@),
            self.files is None ==> r == Err::<Vec<String>, AppError>(AppError::MissingParameter),
    {
        match self.files {
            Some(v) => Ok(v),
            None => Err(AppError::MissingParameter),
        }
    }
}

/// A request for an image, scaled to fit a square of `resize` pixels where
/// that is given.
pub struct ReadImageReq {
    pub file: Option<String>,
    pub resize: Option<u32>,
}

impl ReadImageReq {
    /// The image asked for.
    pub fn file(&self) -> (r: Result<String, AppError>)
        ensures
            self.file matches Some(s) ==> (r matches Ok(t) && t@ == s@),
            self.file is None ==> r == Err::<String, AppError>(AppError::MissingParameter),
    {
        require(&self.file)
    }
}

/// A request for a video, transcoded to a height and a bit rate.
pub struct ReadVideoReq {
    pub file: Option<String>,
    pub resize: Option<u32>,
    pub bitrate: Option<u32>,
}

impl ReadVideoReq {
    /// The video asked for.
    pub fn file(&self) -> (r: Result<String, AppError>)
        ensures
            self.file matches Some(s) ==> (r matches Ok(t) && t@ == s@),
            self.file is None ==> r == Err::<String, AppError>(AppError::MissingParameter),
    {
        require(&self.file)
    }

    /// The height asked for, or `DEFAULT_VIDEO_HEIGHT`.
    pub fn height(&self) -> (r: u32)
        ensures
            self.resize matches Some(h) ==> r == h,
            self.resize is None ==> r == DEFAULT_VIDEO_HEIGHT,
    {
        match self.resize {
            Some(h) => h,
            None => DEFAULT_VIDEO_HEIGHT,
        }
    }

    /// The bit rate asked for, or `DEFAULT_VIDEO_BITRATE`.
    pub fn bitrate(&self) -> (r: u32)
        ensures
            self.bitrate matches Some(b) ==> r == b,
            self.bitrate is None ==> r == DEFAULT_VIDEO_BITRATE,
    {
        match self.bitrate {
            Some(b) => b,
            None => DEFAULT_VIDEO_BITRATE,
        }
    }
}

/// A search by name or by content.
pub struct SearchFilesReq {
    pub keyword: String,
}

/// Whether an answer reports success; sent as 0 or 1.
#[derive(Debug, Clone, Copy, PartialEq, Eq, Structural)]
pub enum AppResponseStatus {
    Success,
    Error,
}

impl AppResponseStatus {
    /// The status of an answer that succeeded or not.
    pub fn from_success(success: bool) -> (r: Self)
        ensures
            success ==> r == AppResponseStatus::Success,
            !success ==> r == AppResponseStatus::Error,
    {
        if success {
            AppResponseStatus::Success
        } else {
            AppResponseStatus::Error
        }
    }

    /// The number that stands for the status in an answer.
    pub fn code(&self) -> (r: i32)
        ensures
            *self == AppResponseStatus::Success ==> r == 0,
            *self == AppResponseStatus::Error ==> r == 1,
    {
        match self {
            AppResponseStatus::Success => 0,
            AppResponseStatus::Error => 1,
        }
    }
}

/// The data of an answer that carries none.
#[derive(Debug, Clone, Copy, PartialEq, Eq, Structural)]
pub struct EmptyResponseData {}

impl EmptyResponseData {
    pub fn new() -> (r: Self)
        ensures
            r == (EmptyResponseData {}),
    {
        EmptyResponseData {}
    }
}

} // verus!
