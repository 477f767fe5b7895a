//! The storage backends and what they have in common.
//!
//! A backend decides; the host reads and writes. The host hands a backend the
//! text of the store file, and a backend answers with the [`Change`] that the
//! host is to make to the file.

use crate::error::{Failure, StorageError};
use crate::framing::{framed, join_lines, lines_of, split_lines};
use crate::log::{delete, load, update};
use crate::path::{resolve, resolved, DataPath, Place};
use vstd::prelude::*;
use vstd::string::StringExecFns;

verus! {

/// What the host is to do to the store file.
#[derive(Debug, PartialEq, Eq)]
pub enum Change {
    /// Leave the file as it is.
    Nothing,
    /// Write the text at the end of the file.
    Append(String),
    /// Empty the file, then write the text.
    Rewrite(String),
}

/// A [`Change`] as a mathematical value.
pub ghost enum Edit {
    Nothing,
    Append(Seq<char>),
    Rewrite(Seq<char>),
}

impl View for Change {
    type V = Edit;

    open spec fn view(&self) -> Edit {
        match *self {
            Change::Nothing => Edit::Nothing,
            Change::Append(text) => Edit::Append(text@),
            Change::Rewrite(text) => Edit::Rewrite(text@),
        }
    }
}

impl Edit {
    /// The text of the store file once the change is made.
    pub open spec fn applied(self, stored: Seq<char>) -> Seq<char> {
        match self {
            Edit::Nothing => stored,
            Edit::Append(text) => stored + text,
            Edit::Rewrite(text) => text,
        }
    }
}

/// The text of the store file after an operation: changed as the operation
/// asks where it succeeds, and as it was where it fails.
pub open spec fn store_after(stored: Seq<char>, outcome: Result<Edit, Failure>) -> Seq<char> {
    match outcome {
        Ok(edit) => edit.applied(stored),
        Err(_) => stored,
    }
}

/// The outcome of an operation that changes the store.
pub open spec fn change_of(r: Result<Change, StorageError>) -> Result<Edit, Failure> {
    match r {
        Ok(change) => Ok(change@),
        Err(error) => Err(error@),
    }
}

/// The outcome of an operation that answers with a text.
pub open spec fn answer_of(r: Result<String, StorageError>) -> Result<Seq<char>, Failure> {
    match r {
        Ok(text) => Ok(text@),
        Err(error) => Err(error@),
    }
}

/// The four operations of a storage backend. Each backend says, as a function
/// of what it is given, what each operation comes to.
pub trait DataStorage: Send + Sync {
    /// What adding a record comes to.
    spec fn added(&self, data: Seq<char>) -> Result<Edit, Failure>;

    /// What updating the record with an id by a patch comes to, on a store
    /// with the given text.
    spec fn updated(&self, stored: Seq<char>, id: Seq<char>, patch: Seq<char>) -> Result<
        Edit,
        Failure,
    >;

    /// What loading a store with the given text answers.
    spec fn loaded(&self, stored: Seq<char>) -> Result<Seq<char>, Failure>;

    /// What deleting the records with an id comes to, on a store with the
    /// given text.
    spec fn deleted(&self, stored: Seq<char>, id: Seq<char>) -> Result<Edit, Failure>;

    /// Adds a record.
    fn add_data(&self, data: &str) -> (r: Result<Change, StorageError>)
        ensures
            change_of(r) == self.added(data@),
    ;

    /// Updates the record with the given id by a patch.
    fn update_data(&self, stored: &str, id: &str, data: &str) -> (r: Result<Change, StorageError>)
        ensures
            change_of(r) == self.updated(stored@, id@, data@),
    ;

    /// Answers with all records.
    fn load_data(&self, stored: &str) -> (r: Result<String, StorageError>)
        ensures
            answer_of(r) == self.loaded(stored@),
    ;

    /// Deletes the records with the given id.
    fn delete_data(&self, stored: &str, id: &str) -> (r: Result<Change, StorageError>)
        ensures
            change_of(r) == self.deleted(stored@, id@),
    ;
}

/// The backend that keeps the records in a file, one to a line.
#[derive(Debug)]
pub struct FileSystemStorage {
    /// Whether the program runs in development.
    pub development: bool,
    /// The directory that the platform gives the program for its data.
    pub data_directory: Option<String>,
}

impl FileSystemStorage {
    /// A backend for the given mode and data directory.
    pub fn new(development: bool, data_directory: Option<String>) -> (storage: Self)
        ensures
            storage.development == development,
            storage.data_directory == data_directory,
    {
        FileSystemStorage { development, data_directory }
    }

    /// The data directory as a mathematical value.
    pub open spec fn directory(&self) -> Option<Seq<char>> {
        match self.data_directory {
            Some(directory) => Some(directory@),
            None => None,
        }
    }

    /// The place of the store file.
    pub fn get_data_path(&self) -> (r: Result<DataPath, StorageError>)
        ensures
            match r {
                Ok(path) => resolved(self.development, self.directory()) == Ok::<Place, Failure>(
                    path@,
                ),
                Err(error) => resolved(self.development, self.directory()) == Err::<
                    Place,
                    Failure,
                >(error@),
            },
    {
        match &self.data_directory {
            Some(directory) => resolve(self.development, Some(directory.as_str())),
            None => resolve(self.development, None),
        }
    }
}

impl DataStorage for FileSystemStorage {
    /// The record goes to the end of the file, on a line of its own.
    open spec fn added(&self, data: Seq<char>) -> Result<Edit, Failure> {
        Ok(Edit::Append(data + seq!['\n']))
    }

    /// The file is written anew from the updated lines.
    open spec fn updated(&self, stored: Seq<char>, id: Seq<char>, patch: Seq<char>) -> Result<
        Edit,
        Failure,
    > {
        match crate::log::updated(lines_of(stored), id, patch) {
            Ok(lines) => Ok(Edit::Rewrite(framed(lines))),
            Err(failure) => Err(failure),
        }
    }

    /// The answer is the list of the records on the lines of the file.
    open spec fn loaded(&self, stored: Seq<char>) -> Result<Seq<char>, Failure> {
        crate::log::loaded(lines_of(stored))
    }

    /// The file is written anew from the lines that stay.
    open spec fn deleted(&self, stored: Seq<char>, id: Seq<char>) -> Result<Edit, Failure> {
        match crate::log::deleted(lines_of(stored), id) {
            Ok(lines) => Ok(Edit::Rewrite(framed(lines))),
            Err(failure) => Err(failure),
        }
    }

    fn add_data(&self, data: &str) -> (r: Result<Change, StorageError>) {
        let mut line = String::from_str(data);
        line.push('\n');
        assert(line@ =~= data@ + seq!['\n']);
        Ok(Change::Append(line))
    }

    fn update_data(&self, stored: &str, id: &str, data: &str) -> (r: Result<
        Change,
        StorageError,
    >) {
        let lines = split_lines(stored);
        match update(&lines, id, data) {
            Ok(lines) => Ok(Change::Rewrite(join_lines(&lines))),
            Err(error) => Err(error),
        }
    }

    fn load_data(&self, stored: &str) -> (r: Result<String, StorageError>) {
        let lines = split_lines(stored);
        load(&lines)
    }

    fn delete_data(&self, stored: &str, id: &str) -> (r: Result<Change, StorageError>) {
        let lines = split_lines(stored);
        match delete(&lines, id) {
            Ok(lines) => Ok(Change::Rewrite(join_lines(&lines))),
            Err(error) => Err(error),
        }
    }
}

/// The backend that stands in for a database. It keeps nothing: adding is
/// accepted, loading answers with a fixed text, and the rest is not
/// implemented.
#[derive(Clone, Copy, Debug)]
pub struct DatabaseStorage;

/// What the database backend answers a load with.
pub open spec fn database_answer() -> Seq<char> {
    "データベースから読み込んだデータ"@
}

impl DataStorage for DatabaseStorage {
    open spec fn added(&self, data: Seq<char>) -> Result<Edit, Failure> {
        Ok(Edit::Nothing)
    }

    open spec fn updated(&self, stored: Seq<char>, id: Seq<char>, patch: Seq<char>) -> Result<
        Edit,
        Failure,
    > {
        Err(Failure::Unimplemented)
    }

    open spec fn loaded(&self, stored: Seq<char>) -> Result<Seq<char>, Failure> {
        Ok(database_answer())
    }

    open spec fn deleted(&self, stored: Seq<char>, id: Seq<char>) -> Result<Edit, Failure> {
        Err(Failure::Unimplemented)
    }

    fn add_data(&self, _data: &str) -> (r: Result<Change, StorageError>) {
        Ok(Change::Nothing)
    }

    fn update_data(&self, _stored: &str, _id: &str, _data: &str) -> (r: Result<
        Change,
        StorageError,
    >) {
        Err(StorageError::Unimplemented)
    }

    fn load_data(&self, _stored: &str) -> (r: Result<String, StorageError>) {
        Ok(String::from_str("データベースから読み込んだデータ"))
    }

    fn delete_data(&self, _stored: &str, _id: &str) -> (r: Result<Change, StorageError>) {
        Err(StorageError::Unimplemented)
    }
}

/// Whether a setting asks for the database backend: it is set, and it is not
/// set to `false`.
pub open spec fn asks_for_database(setting: Option<Seq<char>>) -> bool {
    match setting {
        Some(value) => value != "false"@,
        None => false,
    }
}

/// Whether the setting, as the host found it, asks for the database backend.
pub fn use_database(setting: Option<&str>) -> (r: bool)
    ensures
        r == asks_for_database(
            match setting {
                Some(value) => Some(value@),
                None => None,
            },
        ),
{
    match setting {
        Some(value) => String::from_str(value) != String::from_str("false"),
        None => false,
    }
}

/// The backend that the program runs with. It is chosen once, at startup.
#[derive(Debug)]
pub enum Backend {
    Files(FileSystemStorage),
    Database(DatabaseStorage),
}

impl Backend {
    /// Chooses the backend: the database where it is asked for, and else the
    /// file backend for the given mode and data directory.
    pub fn select(use_database: bool, development: bool, data_directory: Option<String>) -> (backend:
        Backend)
        ensures
            match backend {
                Backend::Database(_) => use_database,
                Backend::Files(files) => !use_database && files.development == development
                    && files.data_directory == data_directory,
            },
    {
        if use_database {
            Backend::Database(DatabaseStorage)
        } else {
            Backend::Files(FileSystemStorage::new(development, data_directory))
        }
    }
}

impl DataStorage for Backend {
    open spec fn added(&self, data: Seq<char>) -> Result<Edit, Failure> {
        match self {
            Backend::Files(files) => files.added(data),
            Backend::Database(database) => database.added(data),
        }
    }

    open spec fn updated(&self, stored: Seq<char>, id: Seq<char>, patch: Seq<char>) -> Result<
        Edit,
        Failure,
    > {
        match self {
            Backend::Files(files) => files.updated(stored, id, patch),
            Backend::Database(database) => database.updated(stored, id, patch),
        }
    }

    open spec fn loaded(&self, stored: Seq<char>) -> Result<Seq<char>, Failure> {
        match self {
            Backend::Files(files) => files.loaded(stored),
            Backend::Database(database) => database.loaded(stored),
        }
    }

    open spec fn deleted(&self, stored: Seq<char>, id: Seq<char>) -> Result<Edit, Failure> {
        match self {
            Backend::Files(files) => files.deleted(stored, id),
            Backend::Database(database) => database.deleted(stored, id),
        }
    }

    fn add_data(&self, data: &str) -> (r: Result<Change, StorageError>) {
        match self {
            Backend::Files(files) => files.add_data(data),
            Backend::Database(database) => database.add_data(data),
        }
    }

    fn update_data(&self, stored: &str, id: &str, data: &str) -> (r: Result<
        Change,
        StorageError,
    >) {
        match self {
            Backend::Files(files) => files.update_data(stored, id, data),
            Backend::Database(database) => database.update_data(stored, id, data),
        }
    }

    fn load_data(&self, stored: &str) -> (r: Result<String, StorageError>) {
        match self {
            Backend::Files(files) => files.load_data(stored),
            Backend::Database(database) => database.load_data(stored),
        }
    }

    fn delete_data(&self, stored: &str, id: &str) -> (r: Result<Change, StorageError>) {
        match self {
            Backend::Files(files) => files.delete_data(stored, id),
            Backend::Database(database) => database.delete_data(stored, id),
        }
    }
}

} // verus!
