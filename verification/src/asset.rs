//! One file of the package: where it comes from, where it goes, and its
//! permission bits.

use vstd::prelude::*;
use crate::path::{
    ends_with_separator, file_name, file_name_spec, is_absolute, is_absolute_spec, join,
    join_spec, lemma_file_name_is_relative, starts_with, starts_with_spec, strip_root,
    without_root,
};

verus! {

/// A file to install.
#[derive(Debug)]
pub struct Asset {
    /// Where the file is read from: relative to the workspace root, or absolute.
    pub source_file: String,
    /// Where the file goes, relative to the root of the package.
    pub target_path: String,
    /// Its permission bits.
    pub chmod: u32,
}

/// An asset as plain values.
pub struct AssetView {
    pub source_file: Seq<char>,
    pub target_path: Seq<char>,
    pub chmod: u32,
}

impl View for Asset {
    type V = AssetView;

    open spec fn view(&self) -> AssetView {
        AssetView {
            source_file: self.source_file@,
            target_path: self.target_path@,
            chmod: self.chmod,
        }
    }
}

impl DeepView for Asset {
    type V = AssetView;

    open spec fn deep_view(&self) -> AssetView {
        self@
    }
}

/// A destination taken relative to the package root: an absolute one loses
/// its root and keeps the rest to its end, a relative one stays as it is.
pub open spec fn rooted_in_package(target: Seq<char>) -> Seq<char> {
    if is_absolute_spec(target) {
        without_root(target)
    } else {
        target
    }
}

/// Whether a destination names a directory to put the source's file into.
pub open spec fn is_directory_target(target: Seq<char>) -> bool {
    rooted_in_package(target).len() > 0 && rooted_in_package(target).last() == '/'
}

/// Whether an asset can be made of `source` and `target`: a destination
/// that names a directory needs a source with a file name.
pub open spec fn can_place(source: Seq<char>, target: Seq<char>) -> bool {
    is_directory_target(target) ==> file_name_spec(source) is Some
}

/// The destination an asset gets: relative to the package root, and, where
/// it names a directory, extended by the source's file name.
pub open spec fn placed_target(source: Seq<char>, target: Seq<char>) -> Seq<char> {
    if is_directory_target(target) {
        join_spec(rooted_in_package(target), file_name_spec(source)->0)
    } else {
        rooted_in_package(target)
    }
}

/// The asset made of these three values.
pub open spec fn placed(source: Seq<char>, target: Seq<char>, chmod: u32) -> AssetView {
    AssetView { source_file: source, target_path: placed_target(source, target), chmod }
}

impl Asset {
    /// Makes an asset. An absolute destination loses its root; a
    /// destination that then ends in a separator names a directory and
    /// gets the file name of the source. The destination is always
    /// relative afterwards.
    pub fn new(source_file: String, target_path: String, chmod: u32) -> (asset: Asset)
        requires
            can_place(source_file@, target_path@),
        ensures
            asset@ == placed(source_file@, target_path@, chmod),
            !is_absolute_spec(asset.target_path@),
    {
        let mut target_path = target_path;
        if is_absolute(target_path.as_str()) {
            target_path = strip_root(target_path.as_str());
        }
        if ends_with_separator(target_path.as_str()) {
            let name = file_name(source_file.as_str());
            assert(name.deep_view() is Some);
            let name = name.unwrap();
            proof {
                lemma_file_name_is_relative(source_file@);
            }
            target_path = join(target_path.as_str(), name.as_str());
        }
        Asset { source_file, target_path, chmod }
    }

    /// Whether this asset is an executable that the build produced: it lies
    /// under `release_dir_prefix` once taken from `workspace_root`, and some
    /// executable bit is set.
    pub fn is_binary_executable(&self, workspace_root: &str, release_dir_prefix: &str) -> (b: bool)
        ensures
            b == is_binary_executable_spec(self@, workspace_root@, release_dir_prefix@),
    {
        let source_file_abspath = join(workspace_root, self.source_file.as_str());
        starts_with(source_file_abspath.as_str(), release_dir_prefix) && 0 != (self.chmod & 0o111)
    }
}

/// Whether an asset lies under `release_dir_prefix` once taken from
/// `workspace_root`, with some executable bit set.
pub open spec fn is_binary_executable_spec(
    asset: AssetView,
    workspace_root: Seq<char>,
    release_dir_prefix: Seq<char>,
) -> bool {
    starts_with_spec(join_spec(workspace_root, asset.source_file), release_dir_prefix) && 0
        != (asset.chmod & 0o111)
}

} // verus!
