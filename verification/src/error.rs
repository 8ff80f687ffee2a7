//! What goes wrong with a storage target.

use crate::text::optional_text;
use vstd::prelude::*;
use vstd::string::*;

verus! {

/// A failure of a storage target.
#[derive(Debug, PartialEq, Eq)]
pub enum StorageError {
    /// A URL that does not parse.
    InvalidUrl(url::ParseError),
    /// A URL of another scheme than `s3`.
    NotS3Url,
    /// An `s3` URL without a host.
    MissingBucket { output_folder: String },
    MissingAccessKey,
    MissingSecretKey,
    /// The output folder exists and is no folder.
    NotAFolder,
    UploadFailed { key: String, status: String },
    CacheDownloadFailed { key: String, status: String },
}

/// The model of [`StorageError`].
pub enum ErrorView {
    InvalidUrl(url::ParseError),
    NotS3Url,
    MissingBucket { output_folder: Seq<char> },
    MissingAccessKey,
    MissingSecretKey,
    NotAFolder,
    UploadFailed { key: Seq<char>, status: Seq<char> },
    CacheDownloadFailed { key: Seq<char>, status: Seq<char> },
}

impl View for StorageError {
    type V = ErrorView;

    open spec fn view(&self) -> ErrorView {
        match *self {
            StorageError::InvalidUrl(error) => ErrorView::InvalidUrl(error),
            StorageError::NotS3Url => ErrorView::NotS3Url,
            StorageError::MissingBucket { output_folder } => ErrorView::MissingBucket {
                output_folder: output_folder@,
            },
            StorageError::MissingAccessKey => ErrorView::MissingAccessKey,
            StorageError::MissingSecretKey => ErrorView::MissingSecretKey,
            StorageError::NotAFolder => ErrorView::NotAFolder,
            StorageError::UploadFailed { key, status } => ErrorView::UploadFailed {
                key: key@,
                status: status@,
            },
            StorageError::CacheDownloadFailed { key, status } => ErrorView::CacheDownloadFailed {
                key: key@,
                status: status@,
            },
        }
    }
}

/// The text that tells a user of an error; `None` where the URL parser words
/// it.
pub open spec fn message_of(error: ErrorView) -> Option<Seq<char>> {
    match error {
        ErrorView::InvalidUrl(_) => None,
        ErrorView::NotS3Url => Some("expected an `s3://bucket/prefix` output folder"@),
        ErrorView::MissingBucket { output_folder } => Some(
            "missing S3 bucket in `"@ + output_folder + "`"@,
        ),
        ErrorView::MissingAccessKey => Some(
            "missing S3 access key id (`--s3-access-key-id` or `BS_S3_ACCESS_KEY_ID`)"@,
        ),
        ErrorView::MissingSecretKey => Some(
            "missing S3 secret access key (`--s3-secret-access-key` or `BS_S3_SECRET_ACCESS_KEY`)"@,
        ),
        ErrorView::NotAFolder => Some(
            "Cannot use `output-folder`, as it is not a folder. Please delete it and create as a directory, or try a different path."@,
        ),
        ErrorView::UploadFailed { key, status } => Some(
            "S3 upload failed for `"@ + key + "` with status "@ + status,
        ),
        ErrorView::CacheDownloadFailed { key, status } => Some(
            "S3 cache download failed for `"@ + key + "` with status "@ + status,
        ),
    }
}

impl StorageError {
    /// The text that tells a user of the error. A URL that does not parse has
    /// none here: `url::ParseError` words it.
    pub fn message(&self) -> (text: Option<String>)
        ensures
            optional_text(text) == message_of(self@),
    {
        match self {
            StorageError::InvalidUrl(_) => None,
            StorageError::NotS3Url => Some(
                String::from_str("expected an `s3://bucket/prefix` output folder"),
            ),
            StorageError::MissingBucket { output_folder } => {
                let mut text = String::from_str("missing S3 bucket in `");
                text.append(output_folder.as_str());
                text.append("`");
                Some(text)
            },
            StorageError::MissingAccessKey => Some(
                String::from_str(
                    "missing S3 access key id (`--s3-access-key-id` or `BS_S3_ACCESS_KEY_ID`)",
                ),
            ),
            StorageError::MissingSecretKey => Some(
                String::from_str(
                    "missing S3 secret access key (`--s3-secret-access-key` or `BS_S3_SECRET_ACCESS_KEY`)",
                ),
            ),
            StorageError::NotAFolder => Some(
                String::from_str(
                    "Cannot use `output-folder`, as it is not a folder. Please delete it and create as a directory, or try a different path.",
                ),
            ),
            StorageError::UploadFailed { key, status } => {
                let mut text = String::from_str("S3 upload failed for `");
                text.append(key.as_str());
                text.append("` with status ");
                text.append(status.as_str());
                Some(text)
            },
            StorageError::CacheDownloadFailed { key, status } => {
                let mut text = String::from_str("S3 cache download failed for `");
                text.append(key.as_str());
                text.append("` with status ");
                text.append(status.as_str());
                Some(text)
            },
        }
    }
}

} // verus!
