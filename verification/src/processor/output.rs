use std::path::{Path, PathBuf};
use vstd::prelude::*;
use vstd::string::*;

verus! {

/// Where processed images are written.
#[derive(Debug, Clone, PartialEq)]
pub enum OutputMode {
    /// Under `dir`, keeping each file's path relative to `scan_root`.
    OutputFolder { dir: String, scan_root: String },
    /// Next to the source file, replacing it.
    InPlace,
}

/// `Path::parent` of a path.
pub uninterp spec fn spec_path_parent(path: Seq<char>) -> Option<Seq<char>>;

/// `Path::file_stem` of a path.
pub uninterp spec fn spec_path_file_stem(path: Seq<char>) -> Option<Seq<char>>;

/// `Path::file_name` of a path.
pub uninterp spec fn spec_path_file_name(path: Seq<char>) -> Option<Seq<char>>;

/// `Path::strip_prefix` of a path by a base.
pub uninterp spec fn spec_path_strip_prefix(path: Seq<char>, base: Seq<char>) -> Option<Seq<char>>;

/// `Path::join` of a path and a second path.
pub uninterp spec fn spec_path_join(path: Seq<char>, more: Seq<char>) -> Seq<char>;

/// Calls `Path::parent`; the parent of a path given as text is text again.
#[verifier::external_body]
pub(crate) fn path_parent(path: &str) -> (r: Option<String>)
    ensures
        text_option(r) == spec_path_parent(path@),
{
    Path::new(path).parent().and_then(|p| p.to_str()).map(|s| s.to_string())
}

/// Calls `Path::file_stem`.
#[verifier::external_body]
fn path_file_stem(path: &str) -> (r: Option<String>)
    ensures
        text_option(r) == spec_path_file_stem(path@),
{
    Path::new(path).file_stem().and_then(|p| p.to_str()).map(|s| s.to_string())
}

/// Calls `Path::file_name`.
#[verifier::external_body]
pub(crate) fn path_file_name(path: &str) -> (r: Option<String>)
    ensures
        text_option(r) == spec_path_file_name(path@),
{
    Path::new(path).file_name().and_then(|p| p.to_str()).map(|s| s.to_string())
}

/// Calls `Path::strip_prefix`.
#[verifier::external_body]
fn path_strip_prefix(path: &str, base: &str) -> (r: Option<String>)
    ensures
        text_option(r) == spec_path_strip_prefix(path@, base@),
{
    Path::new(path).strip_prefix(base).ok().and_then(|p| p.to_str()).map(|s| s.to_string())
}

/// Calls `Path::join`; joining two texts gives text.
#[verifier::external_body]
pub(crate) fn path_join(path: &str, more: &str) -> (r: String)
    ensures
        r@ == spec_path_join(path@, more@),
{
    let joined: PathBuf = Path::new(path).join(more);
    joined.to_string_lossy().into_owned()
}

/// View of an optional text.
pub open spec fn text_option(o: Option<String>) -> Option<Seq<char>> {
    match o {
        Some(s) => Some(s@),
        None => None,
    }
}

/// File name of the output: the source's stem (`"image"` when it has none), a
/// dot, and the new extension.
pub open spec fn output_file_name(source: Seq<char>, ext: Seq<char>) -> Seq<char> {
    spec_path_file_stem(source).unwrap_or("image"@) + "."@ + ext
}

/// Path that a processed image is written to: next to the source (in the
/// current directory when the source has no parent) for `InPlace`; for
/// `OutputFolder`, under `dir` at the source's place relative to `scan_root` (or
/// directly under `dir` when the source is not inside `scan_root`).
pub open spec fn spec_output_path(source: Seq<char>, ext: Seq<char>, mode: OutputMode) -> Seq<char> {
    match mode {
        OutputMode::InPlace => spec_path_join(
            spec_path_parent(source).unwrap_or("."@),
            output_file_name(source, ext),
        ),
        OutputMode::OutputFolder { dir, scan_root } => {
            let rel = match spec_path_strip_prefix(source, scan_root@) {
                Some(r) => r,
                None => spec_path_file_name(source).unwrap_or(source),
            };
            spec_path_join(
                spec_path_join(dir@, spec_path_parent(rel).unwrap_or(Seq::empty())),
                output_file_name(source, ext),
            )
        },
    }
}

/// File name of the output for `source` with extension `ext`.
pub(crate) fn output_file_name_of(source: &str, ext: &str) -> (r: String)
    ensures
        r@ == output_file_name(source@, ext@),
{
    let mut name = match path_file_stem(source) {
        Some(s) => s,
        None => String::from_str("image"),
    };
    name.append(".");
    name.append(ext);
    name
}

/// Path that a processed image with extension `ext` is written to.
pub fn output_path(source: &str, ext: &str, mode: &OutputMode) -> (r: String)
    ensures
        r@ == spec_output_path(source@, ext@, *mode),
        mode matches OutputMode::OutputFolder { dir, scan_root } ==> (spec_path_strip_prefix(source@, scan_root@) matches Some(
            rel,
        ) ==> r@ == spec_path_join(
            spec_path_join(dir@, spec_path_parent(rel).unwrap_or(Seq::empty())),
            spec_path_file_stem(source@).unwrap_or("image"@) + "."@ + ext@,
        )),
        mode matches OutputMode::OutputFolder { dir, scan_root } ==> (spec_path_strip_prefix(source@, scan_root@) is None
            ==> r@ == spec_path_join(
            spec_path_join(
                dir@,
                spec_path_parent(spec_path_file_name(source@).unwrap_or(source@)).unwrap_or(Seq::empty()),
            ),
            spec_path_file_stem(source@).unwrap_or("image"@) + "."@ + ext@,
        )),
        *mode == OutputMode::InPlace ==> r@ == spec_path_join(
            spec_path_parent(source@).unwrap_or("."@),
            spec_path_file_stem(source@).unwrap_or("image"@) + "."@ + ext@,
        ),
{
    proof {
        lemma_output_folder_keeps_relative_folders(source@, ext@, *mode);
    }
    let name = output_file_name_of(source, ext);
    match mode {
        OutputMode::InPlace => {
            let parent = match path_parent(source) {
                Some(p) => p,
                None => String::from_str("."),
            };
            path_join(parent.as_str(), name.as_str())
        },
        OutputMode::OutputFolder { dir, scan_root } => {
            let rel = match path_strip_prefix(source, scan_root.as_str()) {
                Some(r) => r,
                None => match path_file_name(source) {
                    Some(n) => n,
                    None => String::from_str(source),
                },
            };
            let rel_parent = match path_parent(rel.as_str()) {
                Some(p) => p,
                None => String::new(),
            };
            let folder = path_join(dir.as_str(), rel_parent.as_str());
            path_join(folder.as_str(), name.as_str())
        },
    }
}

/// Writing into an output folder keeps the source's whole folder structure below the
/// scan root: when the source lies under `scan_root` at relative path `rel`, the
/// output is `dir` joined with every folder of `rel` (its full parent), then the
/// source's stem with the new extension; for a source outside the scan root, the
/// parent of its file name takes the place of `rel`'s. Writing in place puts that
/// name in the source's own folder.
pub proof fn lemma_output_folder_keeps_relative_folders(source: Seq<char>, ext: Seq<char>, mode: OutputMode)
    ensures
        mode matches OutputMode::OutputFolder { dir, scan_root } ==> (spec_path_strip_prefix(source, scan_root@) matches Some(
            rel,
        ) ==> spec_output_path(source, ext, mode) == spec_path_join(
            spec_path_join(dir@, spec_path_parent(rel).unwrap_or(Seq::empty())),
            spec_path_file_stem(source).unwrap_or("image"@) + "."@ + ext,
        )),
        mode matches OutputMode::OutputFolder { dir, scan_root } ==> (spec_path_strip_prefix(source, scan_root@) is None
            ==> spec_output_path(source, ext, mode) == spec_path_join(
            spec_path_join(
                dir@,
                spec_path_parent(spec_path_file_name(source).unwrap_or(source)).unwrap_or(Seq::empty()),
            ),
            spec_path_file_stem(source).unwrap_or("image"@) + "."@ + ext,
        )),
        mode == OutputMode::InPlace ==> spec_output_path(source, ext, mode) == spec_path_join(
            spec_path_parent(source).unwrap_or("."@),
            spec_path_file_stem(source).unwrap_or("image"@) + "."@ + ext,
        ),
{
}

} // verus!
