//! Objects as files below one directory.

use vstd::prelude::*;
use vstd::string::*;

use crate::paths::{join, parent, with_extension};
use crate::text::{dec_u64, joined};
use crate::types::error::{MeruError, Result};

verus! {

/// Object store in a local directory.
#[derive(Debug)]
pub struct LocalFileStore {
    root: String,
}

/// The files that a write touches. It creates `dir`, writes and syncs `tmp`,
/// renames it to `target` and syncs `dir`, so that a crash leaves the old
/// object or the new one.
#[derive(Debug)]
pub struct LocalPut {
    pub dir: Option<String>,
    pub tmp: String,
    pub target: String,
}

/// A file operation that failed.
#[derive(Debug)]
pub struct FileFault {
    /// There is no such file.
    pub not_found: bool,
    /// The file is there already.
    pub already_exists: bool,
    /// The message of the operating system.
    pub message: String,
}

impl LocalFileStore {
    /// The directory of the store.
    pub closed spec fn root(&self) -> Seq<char> {
        self.root@
    }

    /// The file of an object.
    pub open spec fn file_of(&self, path: Seq<char>) -> Seq<char> {
        crate::paths::joined_path(self.root(), path)
    }

    /// The store in a directory.
    pub fn new(root: &str) -> (r: Self)
        ensures
            r.root() == root@,
    {
        LocalFileStore { root: root.to_owned() }
    }

    /// The file of an object.
    pub fn full_path(&self, path: &str) -> (r: String)
        ensures
            r@ == self.file_of(path@),
    {
        join(self.root.as_str(), path)
    }

    /// The files that writing an object touches.
    pub fn put_files(&self, path: &str) -> (r: LocalPut)
        ensures
            r.target@ == self.file_of(path@),
            r.tmp@ == crate::paths::with_extension_of(self.file_of(path@), "tmp"@),
            match r.dir {
                Some(dir) => crate::paths::parent_of(self.file_of(path@)) == Some(dir@),
                None => crate::paths::parent_of(self.file_of(path@)) is None,
            },
    {
        let target = self.full_path(path);
        proof {
            reveal_strlit("tmp");
        }
        let tmp = with_extension(target.as_str(), "tmp");
        let dir = parent(target.as_str());
        LocalPut { dir, tmp, target }
    }

    /// The error of a read that failed: it names the file.
    pub fn read_error(&self, path: &str, message: &str) -> (r: MeruError)
        ensures
            r@ == crate::types::error::ErrorView::ObjectStore(
                self.file_of(path@) + ": "@ + message@,
            ),
    {
        let mut text = self.full_path(path);
        text.append(": ");
        text.append(message);
        MeruError::ObjectStore(text)
    }
}

/// The bytes of an object from `offset` on, exactly `length` of them.
pub fn slice_range(data: &[u8], offset: usize, length: usize) -> (r: Result<Vec<u8>>)
    requires
        offset + length <= usize::MAX,
    ensures
        match r {
            Ok(bytes) => {
                &&& offset + length <= data@.len()
                &&& bytes@ == data@.subrange(offset as int, offset + length)
            },
            Err(e) => {
                &&& offset + length > data@.len()
                &&& e@ == crate::types::error::ErrorView::ObjectStore(
                    "range ["@ + crate::text::dec_nat(offset as nat) + ", "@ + crate::text::dec_nat(
                        (offset + length) as nat,
                    ) + ") exceeds file size "@ + crate::text::dec_nat(data@.len()),
                )
            },
        },
{
    let end: usize = offset + length;
    if end > data.len() {
        let mut text = joined("range [", dec_u64(offset as u64).as_str());
        text.append(", ");
        text.append(dec_u64(end as u64).as_str());
        text.append(") exceeds file size ");
        text.append(dec_u64(data.len() as u64).as_str());
        return Err(MeruError::ObjectStore(text));
    }
    let mut bytes: Vec<u8> = Vec::new();
    let mut i: usize = offset;
    while i < end
        invariant
            offset <= i <= end <= data@.len(),
            bytes@ == data@.subrange(offset as int, i as int),
        decreases end - i,
    {
        bytes.push(data[i]);
        assert(bytes@ =~= data@.subrange(offset as int, i + 1));
        i = i + 1;
    }
    Ok(bytes)
}

/// What a create-only write returns. A file that is there already means that
/// another writer was first.
pub fn created_file(path: &str, outcome: std::result::Result<(), FileFault>) -> (r: Result<()>)
    ensures
        match r {
            Ok(()) => outcome is Ok,
            Err(e) => {
                &&& outcome is Err
                &&& e@ == if outcome->Err_0.already_exists {
                    crate::types::error::ErrorView::AlreadyExists(path@)
                } else {
                    crate::types::error::ErrorView::Io(outcome->Err_0.message@)
                }
            },
        },
{
    match outcome {
        Ok(()) => Ok(()),
        Err(fault) => {
            if fault.already_exists {
                Err(MeruError::AlreadyExists(path.to_owned()))
            } else {
                Err(MeruError::Io(fault.message))
            }
        },
    }
}

/// What deleting an object returns: an object that is not there is as good as
/// deleted.
pub fn deleted(outcome: std::result::Result<(), FileFault>) -> (r: Result<()>)
    ensures
        match r {
            Ok(()) => outcome is Ok || outcome->Err_0.not_found,
            Err(e) => {
                &&& outcome is Err
                &&& !outcome->Err_0.not_found
                &&& e@ == crate::types::error::ErrorView::Io(outcome->Err_0.message@)
            },
        },
{
    match outcome {
        Ok(()) => Ok(()),
        Err(fault) => {
            if fault.not_found {
                Ok(())
            } else {
                Err(MeruError::Io(fault.message))
            }
        },
    }
}

/// An object lies below the directory of its store: its file begins with that
/// directory and ends with the object's path, and different objects have
/// different files.
pub proof fn law_objects_lie_below_the_root(
    store: LocalFileStore,
    path: Seq<char>,
    other: Seq<char>,
)
    requires
        store.root().len() > 0,
        store.root().last() != '/',
        path.len() > 0 ==> path[0] != '/',
        other.len() > 0 ==> other[0] != '/',
    ensures
        store.file_of(path) == store.root() + seq!['/'] + path,
        store.file_of(path) == store.file_of(other) ==> path == other,
{
    crate::paths::law_joined_path_keeps_both_parts(store.root(), path);
    if store.file_of(path) == store.file_of(other) {
        crate::paths::law_joined_paths_differ(store.root(), path, other);
    }
}

} // verus!
