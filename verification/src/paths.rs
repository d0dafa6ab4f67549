//! Paths, as the sequences of their components, and where an archive goes by
//! default.
//!
//! The paths are those of Unix: there is one root, no drive or other prefix, `/` is the
//! only separator, and the bytes of a name are what they are. What is claimed here of
//! std holds of such paths.
use crate::text::{is_nfc, is_plain_bytes, is_plain_name, lossy_text, nfc_form, nfc_text};
use std::path::{Path, PathBuf};
use vstd::prelude::*;
use vstd::utf8::{decode_utf8, encode_utf8, valid_utf8};

verus! {

/// `std::path::Path`. Of its value only `path_components` is known.
#[verifier::external_type_specification]
#[verifier::external_body]
pub struct ExPath(Path);

/// `std::path::PathBuf`. Of its value only `path_buf_components` is known.
#[verifier::external_type_specification]
#[verifier::external_body]
pub struct ExPathBuf(PathBuf);

/// What a path holds: its components in order, each as the bytes of its name. The
/// root is `/`, the current directory `.`, the parent directory `..`; repeated and
/// trailing separators, and every `.` but one at the start, are no components. On Unix
/// there are no others.
pub uninterp spec fn path_components(path: &Path) -> Seq<Seq<u8>>;

/// The same of an owned path.
pub uninterp spec fn path_buf_components(path: &PathBuf) -> Seq<Seq<u8>>;

/// How a path is written for people to read.
pub uninterp spec fn path_buf_text(path: &PathBuf) -> Seq<char>;

/// The contents of the vectors.
pub open spec fn byte_views(names: Seq<Vec<u8>>) -> Seq<Seq<u8>> {
    names.map_values(|name: Vec<u8>| name@)
}

/// Whether the path ends in the name of a directory entry, and not in a root, a
/// `.` or a `..`.
pub open spec fn is_named(components: Seq<Seq<u8>>) -> bool {
    components.len() > 0 && is_plain_bytes(components.last())
}

/// The path of the entry called `name` in the directory that holds this one.
pub open spec fn sibling(components: Seq<Seq<u8>>, name: Seq<char>) -> Seq<Seq<u8>> {
    components.drop_last().push(encode_utf8(name))
}

/// Calls `Path::components` of std and copies the name of each component.
///
/// Claimed of Unix paths, and not proved: these are the components of the path.
#[verifier::external_body]
pub(crate) fn component_names(path: &Path) -> (names: Vec<Vec<u8>>)
    ensures
        byte_views(names@) == path_components(path),
{
    path.components().map(|part| part.as_os_str().as_encoded_bytes().to_vec()).collect()
}

/// Calls `Path::file_name` of std and copies the name.
///
/// Claimed of Unix paths, and not proved: there is a name exactly if the last component
/// is the name of a directory entry, and then it is that component.
#[verifier::external_body]
pub(crate) fn file_name(path: &Path) -> (name: Option<Vec<u8>>)
    ensures
        name is Some == is_named(path_components(path)),
        name matches Some(bytes) ==> bytes@ == path_components(path).last(),
{
    path.file_name().map(|name| name.as_encoded_bytes().to_vec())
}

/// Calls `Path::parent` of std.
///
/// Claimed of Unix paths, and not proved: there is a parent exactly if the path has a last
/// component that is not the root, and then it is the path without that component.
#[verifier::external_body]
pub(crate) fn parent(path: &Path) -> (dir: Option<&Path>)
    ensures
        dir is Some == (path_components(path).len() > 0 && path_components(path).last()
            != seq![0x2fu8]),
        dir matches Some(above) ==> path_components(above) == path_components(path).drop_last(),
{
    path.parent()
}

/// Calls `Path::join` of std.
///
/// Claimed of Unix paths, and not proved: joining the name of a directory entry appends
/// it as one component. It is called with such names only.
#[verifier::external_body]
pub(crate) fn join(dir: &Path, name: &str) -> (path: PathBuf)
    requires
        is_plain_name(name@),
    ensures
        path_buf_components(&path) == path_components(dir).push(encode_utf8(name@)),
{
    dir.join(name)
}

/// Calls `Path::display` of std and writes what it gives into a string.
///
/// Claimed, and not proved: the text is a function of the path. How it is made of the
/// components is left unsaid: std promises a text for printing, and no more.
#[verifier::external_body]
pub(crate) fn show(path: &PathBuf) -> (text: String)
    ensures
        text@ == path_buf_text(path),
{
    path.display().to_string()
}

/// Calls `Path::strip_prefix` of std.
///
/// Claimed of Unix paths, and not proved: it succeeds exactly if the components of `base` come
/// first among those of `path`, and gives the components that follow them.
#[verifier::external_body]
pub(crate) fn strip_prefix<'a>(path: &'a Path, base: &Path) -> (rest: Option<&'a Path>)
    ensures
        rest is Some == path_components(base).is_prefix_of(path_components(path)),
        rest matches Some(below) ==> path_components(below) == path_components(path).skip(
            path_components(base).len() as int,
        ),
{
    path.strip_prefix(base).ok()
}

/// Why a folder cannot give its name to an archive.
#[derive(Debug, Clone, Copy, PartialEq, Eq, Structural)]
pub enum FolderError {
    /// The path ends in a root, a `.` or a `..`, or is empty.
    NoName,
}

impl FolderError {
    /// What is said of the error.
    pub fn message(&self) -> (text: &'static str)
        ensures
            text@ == "folder has no name"@,
    {
        match self {
            FolderError::NoName => "folder has no name",
        }
    }
}

/// The name of a folder in form C.
pub open spec fn nfc_folder_name(folder: Seq<Seq<u8>>) -> Seq<char> {
    nfc_form(lossy_text(folder.last()))
}

/// The name of a folder that is Unicode is read as what it encodes.
pub open spec fn reads_folder_name(folder: Seq<Seq<u8>>) -> bool {
    is_named(folder) && valid_utf8(folder.last()) ==> nfc_folder_name(folder) == nfc_form(
        decode_utf8(folder.last()),
    )
}

/// The name of the folder, in form C. Parts of it that are not Unicode are
/// replaced.
pub fn folder_name(folder: &Path) -> (name: Result<String, FolderError>)
    ensures
        match name {
            Ok(text) => {
                &&& is_named(path_components(folder))
                &&& text@ == nfc_folder_name(path_components(folder))
                &&& is_nfc(text@)
                &&& is_plain_name(text@)
            },
            Err(FolderError::NoName) => !is_named(path_components(folder)),
        },
        reads_folder_name(path_components(folder)),
        name is Ok <==> path_components(folder).len() > 0 && is_plain_bytes(
            path_components(folder).last(),
        ),
        name matches Ok(text) ==> text@ == nfc_form(lossy_text(path_components(folder).last())),
        name matches Ok(text) ==> (valid_utf8(path_components(folder).last()) ==> text@
            == nfc_form(decode_utf8(path_components(folder).last()))),
{
    match file_name(folder) {
        Some(bytes) => Ok(nfc_text(&bytes)),
        None => Err(FolderError::NoName),
    }
}

/// The file name of the archive of a folder of this name.
pub fn archive_file_name(name: String) -> (file: String)
    ensures
        file@ == name@ + ".zip"@,
        is_plain_name(name@) ==> is_plain_name(file@),
{
    let ghost start = name@;
    let mut file = name;
    file.append(".zip");
    proof {
        reveal_strlit(".zip");
        assert(file@[start.len() as int] == '.');
        assert(file@[start.len() as int + 1] == 'z');
        if file@.contains('/') {
            let i = choose|i: int| 0 <= i < file@.len() && file@[i] == '/';
            assert(i < start.len());
            assert(start[i] == '/');
        }
    }
    file
}

/// Where the archive of a folder goes by default: `<folder-name>.zip` next to the
/// folder, with the name in form C.
///
/// A path that ends in the name of a directory entry always has a parent, so a
/// folder without a name is the only one that is refused.
pub fn default_output_for(folder: &Path) -> (output: Result<PathBuf, FolderError>)
    ensures
        match output {
            Ok(path) => {
                &&& is_named(path_components(folder))
                &&& path_buf_components(&path) == sibling(
                    path_components(folder),
                    nfc_folder_name(path_components(folder)) + ".zip"@,
                )
            },
            Err(FolderError::NoName) => !is_named(path_components(folder)),
        },
        reads_folder_name(path_components(folder)),
        output is Ok <==> path_components(folder).len() > 0 && is_plain_bytes(
            path_components(folder).last(),
        ),
        output matches Ok(path) ==> path_buf_components(&path) == path_components(
            folder,
        ).drop_last().push(
            encode_utf8(nfc_form(lossy_text(path_components(folder).last())) + ".zip"@),
        ),
{
    let name = match folder_name(folder) {
        Ok(name) => name,
        Err(error) => return Err(error),
    };
    let file = archive_file_name(name);
    match parent(folder) {
        Some(dir) => Ok(join(dir, file.as_str())),
        None => {
            assert(is_plain_bytes(path_components(folder).last()));
            assert(seq![0x2fu8][0] == 0x2f);
            Err(FolderError::NoName)
        },
    }
}

/// Where an archive goes: where the caller says, or else where it goes by default.
pub fn choose_output(given: Option<PathBuf>, folder: &Path) -> (output: Result<
    PathBuf,
    FolderError,
>)
    ensures
        match given {
            Some(path) => output == Ok::<PathBuf, FolderError>(path),
            None => match output {
                Ok(path) => {
                    &&& is_named(path_components(folder))
                    &&& path_buf_components(&path) == sibling(
                        path_components(folder),
                        nfc_folder_name(path_components(folder)) + ".zip"@,
                    )
                },
                Err(FolderError::NoName) => !is_named(path_components(folder)),
            },
        },
        given is None ==> reads_folder_name(path_components(folder)),
        given is None ==> (output is Ok <==> path_components(folder).len() > 0 && is_plain_bytes(
            path_components(folder).last(),
        )),
        given is None ==> (output matches Ok(path) ==> path_buf_components(&path)
            == path_components(folder).drop_last().push(
            encode_utf8(nfc_form(lossy_text(path_components(folder).last())) + ".zip"@),
        )),
{
    match given {
        Some(path) => Ok(path),
        None => default_output_for(folder),
    }
}

/// An archive goes beside the folder: into the same directory, and never below the
/// folder that it is made of.
pub proof fn law_default_output_lies_beside_the_folder(folder: Seq<Seq<u8>>, file: Seq<char>)
    requires
        is_named(folder),
    ensures
        sibling(folder, file).drop_last() == folder.drop_last(),
        sibling(folder, file).last() == encode_utf8(file),
        folder.is_prefix_of(sibling(folder, file)) ==> sibling(folder, file) == folder,
{
    let output = sibling(folder, file);
    assert(output.drop_last() =~= folder.drop_last());
    if folder.is_prefix_of(output) {
        assert(output.subrange(0, folder.len() as int) =~= output);
    }
}

/// What lies in a directory, however deep that is, has a name exactly if its own
/// component names a directory entry; an empty path has none.
pub proof fn law_last_component_names_the_entry(dir: Seq<Seq<u8>>, name: Seq<u8>)
    ensures
        is_named(dir.push(name)) <==> is_plain_bytes(name),
        !is_named(Seq::<Seq<u8>>::empty()),
{
    assert(dir.push(name).last() == name);
}

/// The other entries of a directory: what lies in the directory under the other name.
pub proof fn law_sibling_lies_in_the_same_directory(
    dir: Seq<Seq<u8>>,
    name: Seq<u8>,
    other: Seq<char>,
)
    ensures
        sibling(dir.push(name), other) == dir.push(encode_utf8(other)),
{
    assert(dir.push(name).drop_last() =~= dir);
}

/// A folder that lies anywhere is called what the form C of its own name is.
pub proof fn law_folder_is_called_by_its_own_name(dir: Seq<Seq<u8>>, name: Seq<u8>)
    ensures
        nfc_folder_name(dir.push(name)) == nfc_form(lossy_text(name)),
        is_plain_bytes(name) && valid_utf8(name) && reads_folder_name(dir.push(name)) ==> nfc_form(
            lossy_text(name),
        ) == nfc_form(decode_utf8(name)),
{
    assert(dir.push(name).last() == name);
}

/// Each vector stands for its own bytes, in its own place.
pub proof fn law_bytes_keep_their_places(names: Seq<Vec<u8>>)
    ensures
        byte_views(names).len() == names.len(),
        forall|i: int| 0 <= i < names.len() ==> #[trigger] byte_views(names)[i] == names[i]@,
{
}

} // verus!
