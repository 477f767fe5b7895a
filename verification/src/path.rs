//! Where the store file lies.
//!
//! In development the file has a fixed place beside the project. A packaged
//! program keeps it in the directory that the platform gives it for its data.
//! The host joins directory and file name and creates what is missing.

use crate::error::{Failure, StorageError};
use vstd::prelude::*;
use vstd::string::StringExecFns;

verus! {

/// The place of the store file.
#[derive(Debug, PartialEq, Eq)]
pub enum DataPath {
    /// A path as it stands.
    Fixed(String),
    /// A file in a directory.
    InDirectory { directory: String, file: String },
}

/// A [`DataPath`] as a mathematical value.
pub ghost enum Place {
    Fixed(Seq<char>),
    InDirectory { directory: Seq<char>, file: Seq<char> },
}

impl View for DataPath {
    type V = Place;

    open spec fn view(&self) -> Place {
        match *self {
            DataPath::Fixed(path) => Place::Fixed(path@),
            DataPath::InDirectory { directory, file } => Place::InDirectory {
                directory: directory@,
                file: file@,
            },
        }
    }
}

/// The path of the store file in development.
pub open spec fn development_path() -> Seq<char> {
    "../data/data.jsonl"@
}

/// The name of the store file in the data directory.
pub open spec fn file_name() -> Seq<char> {
    "data.jsonl"@
}

/// The place of the store file: fixed in development; else in the data
/// directory, which the platform must have given.
pub open spec fn resolved(development: bool, data_directory: Option<Seq<char>>) -> Result<
    Place,
    Failure,
> {
    if development {
        Ok(Place::Fixed(development_path()))
    } else {
        match data_directory {
            Some(directory) => Ok(Place::InDirectory { directory, file: file_name() }),
            None => Err(Failure::PathResolution),
        }
    }
}

/// Resolves the place of the store file.
pub fn resolve(development: bool, data_directory: Option<&str>) -> (r: Result<
    DataPath,
    StorageError,
>)
    ensures
        match r {
            Ok(path) => resolved(
                development,
                match data_directory {
                    Some(directory) => Some(directory@),
                    None => None,
                },
            ) == Ok::<Place, Failure>(path@),
            Err(error) => resolved(
                development,
                match data_directory {
                    Some(directory) => Some(directory@),
                    None => None,
                },
            ) == Err::<Place, Failure>(error@),
        },
{
    if development {
        Ok(DataPath::Fixed(String::from_str("../data/data.jsonl")))
    } else {
        match data_directory {
            Some(directory) => Ok(
                DataPath::InDirectory {
                    directory: String::from_str(directory),
                    file: String::from_str("data.jsonl"),
                },
            ),
            None => Err(StorageError::PathResolution),
        }
    }
}

} // verus!
