//! Loading a repository from a working directory.
//!
//! A directory is a repository when it holds a `.warp` directory. Probing the
//! file system is the caller's work; the decision over the probe's outcome is
//! made here.

use vstd::prelude::*;

verus! {

/// A single repository, loaded from a directory that holds `.warp`.
pub struct Repo {}

/// What probing a directory's `.warp` entry found.
pub enum DirProbe {
    /// The entry exists and is a directory.
    Directory,
    /// The entry exists but is no directory.
    NotDirectory,
    /// There is no such entry.
    Missing,
    /// The entry's metadata could not be read; holds the reported cause.
    Inaccessible(String),
}

impl Repo {
    /// Decides whether a directory whose `.warp` entry probed as `probe` is a
    /// repository.
    pub fn load(probe: DirProbe) -> (r: Result<Repo, RepoLoadError>)
        ensures
            probe is Directory <==> r is Ok,
            probe is NotDirectory || probe is Missing ==> (r matches Err(e) && e is NotWarpRepo),
            probe matches DirProbe::Inaccessible(m) ==> (r matches Err(e) && e matches
                RepoLoadError::GetMetaDataFailed(cause) && cause == m),
    {
        match probe {
            DirProbe::Directory => Ok(Repo {}),
            DirProbe::NotDirectory => Err(RepoLoadError::NotWarpRepo),
            DirProbe::Missing => Err(RepoLoadError::NotWarpRepo),
            DirProbe::Inaccessible(m) => Err(RepoLoadError::GetMetaDataFailed(m)),
        }
    }
}

/// An error while loading a repository.
#[derive(Debug)]
pub enum RepoLoadError {
    /// The `.warp` entry's metadata could not be read; holds the reported
    /// cause.
    GetMetaDataFailed(String),
    /// The directory is no repository.
    NotWarpRepo,
}

} // verus!
