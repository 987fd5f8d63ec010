//! A library reference in a remote repository: a coordinate plus the
//! repository it is served from, and the download descriptor assembled from
//! what the repository reports about it.

use vstd::prelude::*;
use vstd::string::*;

use crate::component::{Download, DownloadModel};
use crate::coordinate::{spec_url, CoordModel, GradleSpecifier};

verus! {

/// A coordinate and the repository base URL it is fetched from.
#[derive(Debug)]
pub struct Library {
    pub name: GradleSpecifier,
    pub url: String,
}

/// Model of a library reference.
pub struct LibraryRefModel {
    pub name: CoordModel,
    pub url: Seq<char>,
}

impl View for Library {
    type V = LibraryRefModel;

    open spec fn view(&self) -> LibraryRefModel {
        LibraryRefModel { name: self.name@, url: self.url@ }
    }
}

/// The download descriptor of a library: its repository URL, and the hash
/// and size the repository reported for it.
pub fn library_download(library: &Library, hash: crate::component::Hash, size: u32) -> (r:
    Download)
    ensures
        r@ == (DownloadModel {
            name: library@.name,
            url: spec_url(library@.name, library@.url),
            size,
            hash: hash@,
        }),
{
    Download {
        name: library.name.duplicate(),
        url: library.name.to_url(library.url.as_str()),
        size,
        hash,
    }
}

} // verus!
