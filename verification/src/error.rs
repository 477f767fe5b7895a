//! The failures of the store, and the message each one is reported with.

use vstd::prelude::*;
use vstd::string::StringExecFns;

verus! {

/// Why a storage operation failed.
#[derive(Debug, PartialEq, Eq)]
pub enum StorageError {
    /// A stored line is not JSON. `line` counts from zero.
    Decode { line: usize, detail: String },
    /// The patch handed to an update is not JSON.
    PatchDecode { detail: String },
    /// The patch is JSON, but it is not an object.
    PatchNotObject,
    /// A record could not be written back as JSON.
    Encode { detail: String },
    /// An update named an id that no stored record has.
    NotFound { id: String },
    /// The platform offers no directory for application data.
    PathResolution,
    /// The backend does not implement the operation.
    Unimplemented,
}

/// A [`StorageError`] as a mathematical value.
pub ghost enum Failure {
    Decode { line: nat, detail: Seq<char> },
    PatchDecode { detail: Seq<char> },
    PatchNotObject,
    Encode { detail: Seq<char> },
    NotFound { id: Seq<char> },
    PathResolution,
    Unimplemented,
}

/// The classes into which failures fall.
#[derive(Clone, Copy, Debug, PartialEq, Eq, Structural)]
pub enum ErrorKind {
    Decode,
    Encode,
    NotFound,
    PathResolution,
    Unimplemented,
}

impl View for StorageError {
    type V = Failure;

    open spec fn view(&self) -> Failure {
        match *self {
            StorageError::Decode { line, detail } => Failure::Decode {
                line: line as nat,
                detail: detail@,
            },
            StorageError::PatchDecode { detail } => Failure::PatchDecode { detail: detail@ },
            StorageError::PatchNotObject => Failure::PatchNotObject,
            StorageError::Encode { detail } => Failure::Encode { detail: detail@ },
            StorageError::NotFound { id } => Failure::NotFound { id: id@ },
            StorageError::PathResolution => Failure::PathResolution,
            StorageError::Unimplemented => Failure::Unimplemented,
        }
    }
}

impl Failure {
    /// The class of a failure. A patch that cannot be read is a decode failure.
    pub open spec fn kind(self) -> ErrorKind {
        match self {
            Failure::Decode { .. } => ErrorKind::Decode,
            Failure::PatchDecode { .. } => ErrorKind::Decode,
            Failure::PatchNotObject => ErrorKind::Decode,
            Failure::Encode { .. } => ErrorKind::Encode,
            Failure::NotFound { .. } => ErrorKind::NotFound,
            Failure::PathResolution => ErrorKind::PathResolution,
            Failure::Unimplemented => ErrorKind::Unimplemented,
        }
    }

    /// The text a failure is reported with.
    pub open spec fn message(self) -> Seq<char> {
        match self {
            Failure::Decode { detail, .. } => "JSONの解析に失敗しました: "@ + detail,
            Failure::PatchDecode { detail } => "更新データの解析に失敗しました: "@ + detail,
            Failure::PatchNotObject => "更新データはJSONオブジェクトではありません"@,
            Failure::Encode { detail } => "JSONのシリアル化に失敗しました: "@ + detail,
            Failure::NotFound { id } => "no record with id "@ + id,
            Failure::PathResolution => "アプリケーションデータディレクトリの取得に失敗しました"@,
            Failure::Unimplemented => "not implemented"@,
        }
    }
}

impl StorageError {
    /// The class of this failure.
    pub fn kind(&self) -> (kind: ErrorKind)
        ensures
            kind == self@.kind(),
    {
        match self {
            StorageError::Decode { .. } => ErrorKind::Decode,
            StorageError::PatchDecode { .. } => ErrorKind::Decode,
            StorageError::PatchNotObject => ErrorKind::Decode,
            StorageError::Encode { .. } => ErrorKind::Encode,
            StorageError::NotFound { .. } => ErrorKind::NotFound,
            StorageError::PathResolution => ErrorKind::PathResolution,
            StorageError::Unimplemented => ErrorKind::Unimplemented,
        }
    }

    /// The text this failure is reported with.
    pub fn message(&self) -> (text: String)
        ensures
            text@ == self@.message(),
    {
        match self {
            StorageError::Decode { detail, .. } => String::from_str(
                "JSONの解析に失敗しました: ",
            ).concat(detail.as_str()),
            StorageError::PatchDecode { detail } => String::from_str(
                "更新データの解析に失敗しました: ",
            ).concat(detail.as_str()),
            StorageError::PatchNotObject => String::from_str(
                "更新データはJSONオブジェクトではありません",
            ),
            StorageError::Encode { detail } => String::from_str(
                "JSONのシリアル化に失敗しました: ",
            ).concat(detail.as_str()),
            StorageError::NotFound { id } => String::from_str("no record with id ").concat(
                id.as_str(),
            ),
            StorageError::PathResolution => String::from_str(
                "アプリケーションデータディレクトリの取得に失敗しました",
            ),
            StorageError::Unimplemented => String::from_str("not implemented"),
        }
    }
}

} // verus!
