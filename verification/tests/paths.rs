use qonvert::path::{
    get_directory_file_paths, get_input_file_paths, get_output_file_paths, InputFiles, InputPath,
    InvalidDirectoryError, MultipleInputDirectoriesError,
};

fn strings(items: &[&str]) -> Vec<String> {
    items.iter().map(|item| item.to_string()).collect()
}

fn file(path: &str) -> InputPath {
    InputPath { path: path.to_string(), is_directory: false }
}

fn directory(path: &str) -> InputPath {
    InputPath { path: path.to_string(), is_directory: true }
}

#[test]
fn outputs_take_the_new_extension() {
    assert_eq!(
        get_output_file_paths("out", true, &strings(&["clip.mov", "b.tar.gz", "noext"]), "mp4"),
        Ok(strings(&["out/clip.mp4", "out/b.tar.mp4", "out/noext.mp4"]))
    );
}

#[test]
fn outputs_are_joined_to_the_directory() {
    assert_eq!(
        get_output_file_paths("/videos/done", true, &strings(&["sub/clip.mov"]), "webm"),
        Ok(strings(&["/videos/done/sub/clip.webm"]))
    );
    assert_eq!(
        get_output_file_paths("out", true, &strings(&["/abs/clip.mov"]), "webm"),
        Ok(strings(&["/abs/clip.webm"]))
    );
}

#[test]
fn outputs_are_cleaned() {
    assert_eq!(
        get_output_file_paths(".", true, &strings(&["./a/../clip.mov"]), "gif"),
        Ok(strings(&["clip.gif"]))
    );
    assert_eq!(
        get_output_file_paths("./out//x/", true, &strings(&["../clip.mov", "./b//c.avi"]), "gif"),
        Ok(strings(&["out/clip.gif", "out/x/b/c.gif"]))
    );
    assert_eq!(
        get_output_file_paths("out", true, &strings(&["../../clip.mov"]), "gif"),
        Ok(strings(&["../clip.gif"]))
    );
}

#[test]
fn outputs_of_no_inputs() {
    assert_eq!(get_output_file_paths("out", true, &strings(&[]), "mp4"), Ok(strings(&[])));
}

#[test]
fn output_directory_that_is_none() {
    let result = get_output_file_paths("missing/dir", false, &strings(&["clip.mov"]), "mp4");
    assert_eq!(result, Err(InvalidDirectoryError { path: "missing/dir".to_string() }));
    assert_eq!(
        get_output_file_paths("", false, &strings(&[]), "mp4"),
        Err(InvalidDirectoryError { path: String::new() })
    );
}

#[test]
fn a_single_directory_stands_for_its_files() {
    assert_eq!(
        get_input_file_paths(&vec![directory("clips")]),
        Ok(InputFiles::Directory("clips".to_string()))
    );
}

#[test]
fn files_are_taken_as_they_are() {
    assert_eq!(
        get_input_file_paths(&vec![file("b.mov"), file("a.mov"), file("b.mov")]),
        Ok(InputFiles::Files(strings(&["b.mov", "a.mov", "b.mov"])))
    );
    assert_eq!(
        get_input_file_paths(&vec![file("only.mov")]),
        Ok(InputFiles::Files(strings(&["only.mov"])))
    );
    assert_eq!(get_input_file_paths(&vec![]), Ok(InputFiles::Files(strings(&[]))));
}

#[test]
fn a_directory_among_several_inputs_is_refused() {
    assert_eq!(
        get_input_file_paths(&vec![file("a.mov"), directory("clips")]),
        Err(MultipleInputDirectoriesError {})
    );
    assert_eq!(
        get_input_file_paths(&vec![directory("one"), directory("two")]),
        Err(MultipleInputDirectoriesError {})
    );
    assert_eq!(
        get_input_file_paths(&vec![directory("one"), file("a.mov"), file("b.mov")]),
        Err(MultipleInputDirectoriesError {})
    );
}

#[test]
fn directories_in_a_directory_are_left_out() {
    assert_eq!(
        get_directory_file_paths(&vec![
            file("clips/a.mov"),
            directory("clips/old"),
            file("clips/b.mov"),
            directory("clips/new"),
        ]),
        strings(&["clips/a.mov", "clips/b.mov"])
    );
    assert_eq!(get_directory_file_paths(&vec![directory("clips/old")]), strings(&[]));
    assert_eq!(get_directory_file_paths(&vec![]), strings(&[]));
}

#[test]
fn messages_of_the_path_errors() {
    assert_eq!(
        InvalidDirectoryError { path: "some/where".to_string() }.message(),
        "'some/where' is not a valid directory"
    );
    assert_eq!(
        MultipleInputDirectoriesError {}.message(),
        "Either a single directory or multiple files can be used as input"
    );
}
