use vstd::prelude::*;

verus! {

/// Error type for every fallible operation of this crate.
///
/// `InvalidDimension` is returned when a requested target size has a zero
/// axis; `RasterizationFailure` covers pixel-buffer allocation, vector
/// parsing and image encoding failures.  The remaining variants carry the
/// failure text of the surrounding application operations (wallpaper
/// control, file handling, network fetches).
#[derive(Debug)]
pub enum AppError {
    InvalidDimension,
    RasterizationFailure(String),
    MonitorDetection(String),
    Generation(String),
    Upscale(String),
    Wallpaper(String),
    FileOp(String),
    Http(String),
    Io(String),
}

/// The text `message` yields: a fixed per-variant prefix, followed by
/// the carried failure text where the variant holds one.
pub open spec fn spec_message(e: AppError) -> Seq<char> {
    match e {
        AppError::InvalidDimension => "Image generation failed: width and height must be positive"@,
        AppError::RasterizationFailure(m) => "Image generation failed: "@ + m@,
        AppError::MonitorDetection(m) => "Monitor detection failed: "@ + m@,
        AppError::Generation(m) => "Image generation failed: "@ + m@,
        AppError::Upscale(m) => "Upscaling failed: "@ + m@,
        AppError::Wallpaper(m) => "Wallpaper operation failed: "@ + m@,
        AppError::FileOp(m) => "File operation failed: "@ + m@,
        AppError::Http(m) => "HTTP request failed: "@ + m@,
        AppError::Io(m) => "IO error: "@ + m@,
    }
}

impl AppError {
    /// A human-readable description of the error.
    pub fn message(&self) -> (r: String)
        ensures
            r@ == spec_message(*self),
    {
        let mut s = String::new();
        match self {
            AppError::InvalidDimension => {
                s.append("Image generation failed: width and height must be positive");
            },
            AppError::RasterizationFailure(m) => {
                s.append("Image generation failed: ");
                s.append(m.as_str());
            },
            AppError::MonitorDetection(m) => {
                s.append("Monitor detection failed: ");
                s.append(m.as_str());
            },
            AppError::Generation(m) => {
                s.append("Image generation failed: ");
                s.append(m.as_str());
            },
            AppError::Upscale(m) => {
                s.append("Upscaling failed: ");
                s.append(m.as_str());
            },
            AppError::Wallpaper(m) => {
                s.append("Wallpaper operation failed: ");
                s.append(m.as_str());
            },
            AppError::FileOp(m) => {
                s.append("File operation failed: ");
                s.append(m.as_str());
            },
            AppError::Http(m) => {
                s.append("HTTP request failed: ");
                s.append(m.as_str());
            },
            AppError::Io(m) => {
                s.append("IO error: ");
                s.append(m.as_str());
            },
        }
        proof {
            assert(s@ =~= spec_message(*self));
        }
        s
    }
}

} // verus!
