//! The file tree of a Java runtime, as its manifest lists it.

use vstd::prelude::*;
use vstd::string::*;
use crate::text::{chars_of, comes_before, text_before};

verus! {

/// A runtime's manifest: every path of the tree with what stands there, in
/// the order of the paths. No path occurs twice.
pub struct JavaFilesJson {
    pub files: Vec<(String, JavaFile)>,
}

/// What stands at one path of the tree.
#[allow(non_camel_case_types)]
pub enum JavaFile {
    file { downloads: JavaFileDownload, executable: bool },
    directory {  },
    link { target: String },
}

/// Where a file's bytes can be had: as they are, and perhaps compressed.
pub struct JavaFileDownload {
    pub lzma: Option<JavaFileDownloadDetails>,
    pub raw: JavaFileDownloadDetails,
}

pub struct JavaFileDownloadDetails {
    pub url: String,
}

impl JavaFilesJson {
    /// The paths of the tree, in order.
    pub open spec fn paths(&self) -> Seq<Seq<char>> {
        Seq::new(self.files@.len(), |i: int| self.files@[i].0@)
    }

    /// Whether every path comes before the one that follows it.
    pub open spec fn sorted(&self) -> bool {
        forall|i: int|
            0 <= i && i + 1 < self.paths().len() ==> text_before(
                #[trigger] self.paths()[i],
                self.paths()[i + 1],
            )
    }

    /// Whether no path occurs twice.
    pub open spec fn unique(&self) -> bool {
        forall|i: int, j: int|
            0 <= i < j < self.paths().len() ==> self.paths()[i] != self.paths()[j]
    }

    /// Whether the paths are in order and none occurs twice.
    pub open spec fn wf(&self) -> bool {
        self.sorted() && self.unique()
    }

    /// Whether every path comes before the one that follows it.
    pub fn is_sorted(&self) -> (r: bool)
        ensures
            r == self.sorted(),
    {
        let mut i: usize = 0;
        while i < self.files.len() && self.files.len() - i > 1
            invariant
                i <= self.files.len(),
                forall|k: int|
                    0 <= k < i && k + 1 < self.paths().len() ==> text_before(
                        #[trigger] self.paths()[k],
                        self.paths()[k + 1],
                    ),
            decreases self.files.len() - i,
        {
            let a = chars_of(self.files[i].0.as_str());
            let b = chars_of(self.files[i + 1].0.as_str());
            if !comes_before(a.as_slice(), b.as_slice()) {
                proof {
                    assert(self.paths()[i as int] == a@);
                    assert(self.paths()[i + 1] == b@);
                }
                return false;
            }
            proof {
                assert(self.paths()[i as int] == a@);
                assert(self.paths()[i + 1] == b@);
            }
            i += 1;
        }
        true
    }

    /// Whether the paths are in order and none occurs twice.
    pub fn is_well_formed(&self) -> (r: bool)
        ensures
            r == self.wf(),
    {
        if !self.is_sorted() {
            return false;
        }
        let mut j: usize = 0;
        while j < self.files.len()
            invariant
                j <= self.files.len(),
                forall|a: int, b: int| 0 <= a < b < j ==> self.paths()[a] != self.paths()[b],
            decreases self.files.len() - j,
        {
            let mut i: usize = 0;
            while i < j
                invariant
                    i <= j < self.files.len(),
                    forall|a: int| 0 <= a < i ==> self.paths()[a] != self.paths()[j as int],
                decreases j - i,
            {
                if self.files[i].0 == self.files[j].0 {
                    proof {
                        assert(self.paths()[i as int] == self.paths()[j as int]);
                    }
                    return false;
                }
                i += 1;
            }
            j += 1;
        }
        true
    }
}

} // verus!
