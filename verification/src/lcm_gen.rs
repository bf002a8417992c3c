//! Configuration for a run of the schema compiler.
//!
//! The compiler itself is an external tool run out of process; this
//! type only collects which schema files to hand it and where the
//! generated code should go.  Locating files on disk and running the
//! tool happen in the build glue around this crate.

use vstd::prelude::*;

verus! {

/// The collected arguments for one run of the schema compiler: the
/// schema files to translate and the output directory.
#[derive(Debug)]
pub struct LcmGen {
    pub files: Vec<String>,
    pub out_dir: String,
}

impl Default for LcmGen {
    /// A configuration with no files and an empty output directory.
    fn default() -> (r: LcmGen)
        ensures
            r.files@.len() == 0,
            r.out_dir@.len() == 0,
    {
        LcmGen { files: Vec::new(), out_dir: String::new() }
    }
}

impl LcmGen {
    /// Sets the output directory.
    pub fn output_directory(&mut self, path: String)
        ensures
            final(self).out_dir == path,
            final(self).files == old(self).files,
    {
        self.out_dir = path;
    }

    /// Adds one schema file to the list handed to the compiler.
    pub fn add_file(&mut self, path: String)
        ensures
            final(self).files@ == old(self).files@.push(path),
            final(self).out_dir == old(self).out_dir,
    {
        self.files.push(path);
    }
}

} // verus!
