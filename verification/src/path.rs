//! Where the files to convert are, and where the converted files go.

use vstd::prelude::*;
use vstd::string::*;
use crate::text::texts_of;

verus! {

/// A directory for the converted files that is no directory.
#[derive(Debug, Clone, PartialEq, Eq)]
pub struct InvalidDirectoryError {
    pub path: String,
}

impl InvalidDirectoryError {
    /// The text of the message that describes the error.
    pub open spec fn message_text(&self) -> Seq<char> {
        "'"@ + self.path@ + "' is not a valid directory"@
    }

    /// A message that describes the error.
    pub fn message(&self) -> (r: String)
        ensures
            r@ == self.message_text(),
    {
        let mut text = String::from_str("'");
        text.append(self.path.as_str());
        text.append("' is not a valid directory");
        text
    }
}

/// Several inputs of which one is a directory.
#[derive(Debug, Clone, Copy, PartialEq, Eq, Structural)]
pub struct MultipleInputDirectoriesError {}

impl MultipleInputDirectoriesError {
    /// The text of the message that describes the error.
    pub open spec fn message_text(&self) -> Seq<char> {
        "Either a single directory or multiple files can be used as input"@
    }

    /// A message that describes the error.
    pub fn message(&self) -> (r: String)
        ensures
            r@ == self.message_text(),
    {
        String::from_str("Either a single directory or multiple files can be used as input")
    }
}

/// What `Path::with_extension` of std makes of a path and an extension, by
/// the path rules of the platform that the library is built for.
pub uninterp spec fn path_with_extension(path: Seq<char>, extension: Seq<char>) -> Seq<char>;

/// What `Path::join` of std makes of a path and a second one, by the path
/// rules of the platform that the library is built for.
pub uninterp spec fn joined_path(base: Seq<char>, path: Seq<char>) -> Seq<char>;

/// What `clean_path::clean` makes of a path: the shortest path that names
/// the same place without looking at the file system.
pub uninterp spec fn cleaned_path(path: Seq<char>) -> Seq<char>;

/// Whether a text can serve as an extension: it holds no path separator.
pub open spec fn is_extension(extension: Seq<char>) -> bool {
    !extension.contains('/') && !extension.contains('\\')
}

/// `Path::with_extension` of std: the path with its extension replaced by
/// the given one, or with the given one added where it has none. The
/// contract names the result and says nothing more of it. An extension
/// with a path separator in it is left out: std panics on it.
#[verifier::external_body]
fn with_extension(path: &str, extension: &str) -> (r: String)
    requires
        is_extension(extension@),
    ensures
        r@ == path_with_extension(path@, extension@),
{
    std::path::Path::new(path).with_extension(extension).to_string_lossy().into_owned()
}

/// `Path::join` of std: the second path where it is absolute, else the
/// first path with the second one after it. The contract names the result
/// and says nothing more of it.
#[verifier::external_body]
fn join(base: &str, path: &str) -> (r: String)
    ensures
        r@ == joined_path(base@, path@),
{
    std::path::Path::new(base).join(path).to_string_lossy().into_owned()
}

/// `clean_path::clean`: the path without repeated separators, without `.`
/// elements, and without the `..` elements that an element before them
/// cancels. The contract names the result and says nothing more of it.
#[verifier::external_body]
fn clean(path: &str) -> (r: String)
    ensures
        r@ == cleaned_path(path@),
{
    clean_path::clean(path).to_string_lossy().into_owned()
}

/// Where the converted file of one input goes: into the directory, under
/// the name of the input with the extension of the output type, cleaned.
pub open spec fn output_path_of(
    output_directory: Seq<char>,
    input_file_path: Seq<char>,
    output_file_type: Seq<char>,
) -> Seq<char> {
    cleaned_path(
        joined_path(output_directory, path_with_extension(input_file_path, output_file_type)),
    )
}

/// The paths of the converted files, one for each input and in the order of
/// the inputs. `output_directory_exists` says whether the file system has a
/// directory at `output_directory`: where it has none, that is the error.
pub fn get_output_file_paths(
    output_directory: &str,
    output_directory_exists: bool,
    input_file_paths: &Vec<String>,
    output_file_type: &str,
) -> (r: Result<Vec<String>, InvalidDirectoryError>)
    requires
        is_extension(output_file_type@),
    ensures
        match r {
            Ok(paths) => {
                &&& output_directory_exists
                &&& paths.len() == input_file_paths.len()
                &&& forall|i: int|
                    0 <= i < paths.len() ==> (#[trigger] paths[i])@ == output_path_of(
                        output_directory@,
                        input_file_paths[i]@,
                        output_file_type@,
                    )
            },
            Err(error) => !output_directory_exists && error.path@ == output_directory@,
        },
{
    if !output_directory_exists {
        return Err(InvalidDirectoryError { path: output_directory.to_owned() });
    }
    let mut paths: Vec<String> = Vec::new();
    let mut i: usize = 0;
    while i < input_file_paths.len()
        invariant
            i <= input_file_paths.len(),
            paths.len() == i,
            is_extension(output_file_type@),
            forall|k: int|
                0 <= k < i ==> (#[trigger] paths[k])@ == output_path_of(
                    output_directory@,
                    input_file_paths[k]@,
                    output_file_type@,
                ),
        decreases input_file_paths.len() - i,
    {
        let renamed = with_extension(input_file_paths[i].as_str(), output_file_type);
        let placed = join(output_directory, renamed.as_str());
        paths.push(clean(placed.as_str()));
        i += 1;
    }
    Ok(paths)
}

/// A path that was given as input, or that stands in a directory, with
/// what the file system says of it.
#[derive(Debug, Clone, PartialEq, Eq)]
pub struct InputPath {
    pub path: String,
    pub is_directory: bool,
}

/// The files to convert: the given files themselves, or all the files of
/// one directory, which are still to be listed.
#[derive(Debug, Clone, PartialEq, Eq)]
pub enum InputFiles {
    Files(Vec<String>),
    Directory(String),
}

/// Whether one of the paths is a directory.
pub open spec fn holds_directory(paths: Seq<InputPath>) -> bool {
    exists|i: int| 0 <= i < paths.len() && (#[trigger] paths[i]).is_directory
}

/// The paths that are no directories, in their order.
pub open spec fn files_among(paths: Seq<InputPath>) -> Seq<Seq<char>>
    decreases paths.len(),
{
    if paths.len() == 0 {
        Seq::empty()
    } else if paths.last().is_directory {
        files_among(paths.drop_last())
    } else {
        files_among(paths.drop_last()).push(paths.last().path@)
    }
}

/// The files to convert, from the paths that were given. A single path
/// that is a directory stands for the files in it. Else every path must be
/// a file, and the files are the paths in their order.
pub fn get_input_file_paths(input_file_paths: &Vec<InputPath>) -> (r: Result<
    InputFiles,
    MultipleInputDirectoriesError,
>)
    ensures
        match r {
            Ok(InputFiles::Directory(path)) => {
                &&& input_file_paths.len() == 1
                &&& input_file_paths[0].is_directory
                &&& path@ == input_file_paths[0].path@
            },
            Ok(InputFiles::Files(paths)) => {
                &&& !holds_directory(input_file_paths@)
                &&& paths.len() == input_file_paths.len()
                &&& forall|i: int|
                    0 <= i < paths.len() ==> (#[trigger] paths[i])@ == input_file_paths[i].path@
            },
            Err(_) => input_file_paths.len() != 1 && holds_directory(input_file_paths@),
        },
{
    if input_file_paths.len() == 1 && input_file_paths[0].is_directory {
        return Ok(InputFiles::Directory(input_file_paths[0].path.clone()));
    }
    let mut paths: Vec<String> = Vec::new();
    let mut i: usize = 0;
    while i < input_file_paths.len()
        invariant
            i <= input_file_paths.len(),
            paths.len() == i,
            input_file_paths.len() == 1 ==> !input_file_paths[0].is_directory,
            forall|k: int| 0 <= k < i ==> !(#[trigger] input_file_paths[k]).is_directory,
            forall|k: int| 0 <= k < i ==> (#[trigger] paths[k])@ == input_file_paths[k].path@,
        decreases input_file_paths.len() - i,
    {
        if input_file_paths[i].is_directory {
            return Err(MultipleInputDirectoriesError {  });
        }
        paths.push(input_file_paths[i].path.clone());
        i += 1;
    }
    Ok(InputFiles::Files(paths))
}

/// The files of a directory, from its entries: the entries that are no
/// directories, in the order in which they were listed.
pub fn get_directory_file_paths(entries: &Vec<InputPath>) -> (r: Vec<String>)
    ensures
        texts_of(r@) == files_among(entries@),
{
    let mut paths: Vec<String> = Vec::new();
    let mut i: usize = 0;
    assert(entries@.take(0) =~= Seq::<InputPath>::empty());
    assert(texts_of(paths@) =~= Seq::<Seq<char>>::empty());
    while i < entries.len()
        invariant
            i <= entries.len(),
            texts_of(paths@) == files_among(entries@.take(i as int)),
        decreases entries.len() - i,
    {
        let ghost before = texts_of(paths@);
        assert(entries@.take(i + 1).drop_last() =~= entries@.take(i as int));
        if !entries[i].is_directory {
            paths.push(entries[i].path.clone());
            assert(texts_of(paths@) =~= before.push(entries[i as int].path@));
        }
        i += 1;
    }
    assert(entries@.take(i as int) =~= entries@);
    paths
}

} // verus!
