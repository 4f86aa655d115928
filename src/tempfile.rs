use vstd::prelude::*;
use vstd::string::*;
use crate::env::{join_path, joined_path};

verus! {

/// A private temporary file `<dir>/<stamp>.dm.tmp`; the caller creates it
/// and removes it once done.
pub struct Tempfile {
    path: String,
}

impl Tempfile {
    pub closed spec fn path_view(&self) -> Seq<char> {
        self.path@
    }

    /// The temporary file named after `stamp` (the creation time) in `dir`.
    pub fn new(dir: &str, stamp: &str) -> (r: Tempfile)
        ensures
            r.path_view() == joined_path(dir@, stamp@ + ".dm.tmp"@),
    {
        let name = String::from_str(stamp).concat(".dm.tmp");
        Tempfile { path: join_path(dir, name.as_str()) }
    }

    pub fn get_path_buf(&self) -> (r: &String)
        ensures
            r@ == self.path_view(),
    {
        &self.path
    }
}

} // verus!
