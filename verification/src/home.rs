//! The application home directory.
//!
//! The home is a `.warp` directory under the user's home; resolving the
//! user's home and creating the directory are the caller's platform work,
//! while the path arithmetic lives here.

use vstd::prelude::*;

verus! {

use vstd::string::{StrSliceExecFns, StringExecFns};

/// The application home directory.
#[derive(Clone, Debug)]
pub struct Home {
    root: String,
}

impl View for Home {
    type V = Seq<char>;

    closed spec fn view(&self) -> Seq<char> {
        self.root@
    }
}

impl Home {
    /// Builds the home path under the user's home directory: `.warp` joined
    /// onto it.
    pub fn new(user_home: String) -> (r: Home)
        ensures
            r@ == user_home@ + "/.warp"@,
    {
        let mut root = user_home;
        root.append("/.warp");
        Home { root }
    }

    /// The home directory path itself.
    pub fn root(&self) -> (r: &str)
        ensures
            r@ == self@,
    {
        self.root.as_str()
    }

    /// The path of the application configuration file inside the home.
    pub fn config(&self) -> (r: String)
        ensures
            r@ == self@ + "/config.yml"@,
    {
        let mut path = self.root.clone();
        path.append("/config.yml");
        path
    }
}

/// An error while locating or creating the home directory.
#[derive(Debug)]
pub enum HomeError {
    /// The user's home directory could not be determined.
    GetUserHomeFailed,
    /// The home directory could not be created; holds the path that failed.
    CreateDirectoryFailed(String),
}

} // verus!
