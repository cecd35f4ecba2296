pub mod download;
pub mod resolution;
pub mod text;
pub mod thumbnail;
pub mod video_id;

pub use download::{DownloadError, DownloadSession, FetchOutcome, FetchStep};
pub use resolution::Resolution;
pub use thumbnail::thumbnail_url;
pub use video_id::{
    extract_video_id, is_valid_video_id, video_id_from_url, ExtractError, ExtractErrorKind,
    UrlParts,
};
