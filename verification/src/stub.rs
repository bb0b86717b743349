use vstd::prelude::*;
use crate::client::PaperlessClient;

verus! {

/// The one answer the write-only namespace gives to a structural query:
/// everything is the empty root directory, never a file, owned by uid and gid
/// zero.
#[derive(Debug)]
pub struct Meta {}

impl Meta {
    pub fn len(&self) -> (r: u64)
        ensures
            r == 0,
    {
        0
    }

    pub fn is_dir(&self) -> (r: bool)
        ensures
            r,
    {
        true
    }

    pub fn is_file(&self) -> (r: bool)
        ensures
            !r,
    {
        false
    }

    pub fn is_symlink(&self) -> (r: bool)
        ensures
            !r,
    {
        false
    }

    pub fn gid(&self) -> (r: u32)
        ensures
            r == 0,
    {
        0
    }

    pub fn uid(&self) -> (r: u32)
        ensures
            r == 0,
    {
        0
    }
}

/// The typed signal for a storage operation the bridge does not support:
/// reads, deletion, renaming and directory creation are answered with this
/// rather than by aborting, so a protocol engine probing capabilities cannot
/// crash the process.
#[derive(Debug, Clone, Copy, PartialEq, Eq, Structural)]
pub enum StorageOpError {
    Unsupported,
}

/// The storage face of the bridge: a flat, write-only namespace in front of
/// one ingestion client. Structural queries get fixed answers; only uploads
/// do real work, through the upload bridge.
pub struct PaperlessStorage {
    pub paperless_client: PaperlessClient,
}

impl PaperlessStorage {
    pub fn new(paperless_client: PaperlessClient) -> (r: Self)
        ensures
            r.paperless_client == paperless_client,
    {
        PaperlessStorage { paperless_client }
    }

    /// Every path names the same empty, non-listable directory.
    pub fn metadata(&self, path: &str) -> (r: Result<Meta, StorageOpError>)
        ensures
            r is Ok,
    {
        Ok(Meta {  })
    }

    /// Listing is always empty: the namespace offers no read-back.
    pub fn list(&self, path: &str) -> (r: Result<Vec<String>, StorageOpError>)
        ensures
            r matches Ok(v) && v@.len() == 0,
    {
        Ok(Vec::new())
    }

    /// Reading back an uploaded document is unsupported.
    pub fn get(&self, path: &str) -> (r: Result<Vec<u8>, StorageOpError>)
        ensures
            r == Err::<Vec<u8>, StorageOpError>(StorageOpError::Unsupported),
    {
        Err(StorageOpError::Unsupported)
    }

    /// Deletion is unsupported.
    pub fn del(&self, path: &str) -> (r: Result<(), StorageOpError>)
        ensures
            r == Err::<(), StorageOpError>(StorageOpError::Unsupported),
    {
        Err(StorageOpError::Unsupported)
    }

    /// Directory creation is unsupported.
    pub fn mkd(&self, path: &str) -> (r: Result<(), StorageOpError>)
        ensures
            r == Err::<(), StorageOpError>(StorageOpError::Unsupported),
    {
        Err(StorageOpError::Unsupported)
    }

    /// Renaming is unsupported.
    pub fn rename(&self, from: &str, to: &str) -> (r: Result<(), StorageOpError>)
        ensures
            r == Err::<(), StorageOpError>(StorageOpError::Unsupported),
    {
        Err(StorageOpError::Unsupported)
    }

    /// Directory removal is unsupported.
    pub fn rmd(&self, path: &str) -> (r: Result<(), StorageOpError>)
        ensures
            r == Err::<(), StorageOpError>(StorageOpError::Unsupported),
    {
        Err(StorageOpError::Unsupported)
    }

    /// Changing directory always succeeds, whatever the path: there is
    /// exactly one writable location.
    pub fn cwd(&self, path: &str) -> (r: Result<(), StorageOpError>)
        ensures
            r == Ok::<(), StorageOpError>(()),
    {
        Ok(())
    }
}

} // verus!
