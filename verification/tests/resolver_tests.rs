use minishell::resolver::{candidate_paths, first_executable, split_search_path, FileStatus};

fn status(exists: bool, is_regular: bool, is_executable: bool) -> FileStatus {
    FileStatus { exists, is_regular, is_executable }
}

#[test]
fn search_path_splits_on_colons() {
    assert_eq!(split_search_path("/usr/bin:/bin"), vec!["/usr/bin", "/bin"]);
}

#[test]
fn search_path_keeps_empty_fields() {
    assert_eq!(split_search_path("/a::/b"), vec!["/a", "", "/b"]);
}

#[test]
fn empty_search_path_is_one_empty_field() {
    assert_eq!(split_search_path(""), vec![""]);
}

#[test]
fn candidates_join_directory_and_name() {
    assert_eq!(
        candidate_paths("ls", "/usr/bin:/bin"),
        vec!["/usr/bin/ls", "/bin/ls"]
    );
}

#[test]
fn candidate_under_directory_with_trailing_slash_gets_no_second_slash() {
    assert_eq!(candidate_paths("ls", "/bin/"), vec!["/bin/ls"]);
}

#[test]
fn candidate_under_empty_directory_is_the_bare_name() {
    assert_eq!(candidate_paths("ls", ""), vec!["ls"]);
}

#[test]
fn first_match_wins() {
    let infos = vec![
        status(true, true, true),
        status(true, true, true),
    ];
    assert_eq!(first_executable(&infos), Some(0));
}

#[test]
fn directories_and_non_executables_are_skipped() {
    // A correctly named directory and a non-executable regular file stand
    // earlier in the list than the valid match; neither may be returned.
    let directory = status(true, false, true);
    let plain_file = status(true, true, false);
    let executable = status(true, true, true);
    let infos = vec![directory, plain_file, executable];
    assert_eq!(first_executable(&infos), Some(2));
}

#[test]
fn missing_entries_are_skipped() {
    let infos = vec![status(false, false, false), status(true, true, true)];
    assert_eq!(first_executable(&infos), Some(1));
}

#[test]
fn no_qualifying_entry_means_not_found() {
    let infos = vec![
        status(true, false, true),
        status(true, true, false),
        status(false, true, true),
    ];
    assert_eq!(first_executable(&infos), None);
}

#[test]
fn empty_candidate_list_means_not_found() {
    assert_eq!(first_executable(&Vec::new()), None);
}
