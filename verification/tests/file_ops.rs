use rs_file_explorer::app::App;
use rs_file_explorer::error::{FsError, IoKind};
use rs_file_explorer::file_ops::{renamed_path, FsAction, PathKind};
use rs_file_explorer::path::AbsolutePath;

fn app_at(text: &str) -> App {
    App::new(AbsolutePath::parse(text).unwrap())
}

#[test]
fn delete_of_a_path_that_is_gone_is_not_found_and_changes_nothing() {
    let mut app = app_at("/home/user/docs");
    app.navigate_back();
    let outcome = app.delete_file_or_dir("/home/user/gone.txt".to_string(), PathKind::Missing);
    assert_eq!(outcome, Err(FsError::NotFound));
    assert_eq!(app.get_current_path(), "/home/user");
    assert_eq!(app.history().len(), 1);
    assert_eq!(app.history()[0], "docs");
}

#[test]
fn delete_of_what_is_neither_file_nor_directory_is_not_found() {
    let app = app_at("/dev");
    assert_eq!(
        app.delete_file_or_dir("/dev/null".to_string(), PathKind::Other),
        Err(FsError::NotFound)
    );
}

#[test]
fn delete_of_a_file_removes_the_file_alone() {
    let app = app_at("/home/user");
    assert_eq!(
        app.delete_file_or_dir("/home/user/a.txt".to_string(), PathKind::File),
        Ok(FsAction::RemoveFile("/home/user/a.txt".to_string()))
    );
}

#[test]
fn delete_of_a_directory_removes_all_below_it() {
    let app = app_at("/home/user");
    assert_eq!(
        app.delete_file_or_dir("/home/user/docs".to_string(), PathKind::Directory),
        Ok(FsAction::RemoveDirAll("/home/user/docs".to_string()))
    );
}

#[test]
fn rename_to_a_name_that_is_taken_already_exists() {
    let mut app = app_at("/a");
    for taken in [PathKind::File, PathKind::Directory, PathKind::Other] {
        let outcome = app.rename_file_or_dir(
            "/a/foo.txt".to_string(),
            "bar.txt".to_string(),
            PathKind::File,
            taken,
        );
        assert_eq!(outcome, Err(FsError::AlreadyExists));
    }
    app.navigate_back();
    assert_eq!(app.get_current_path(), "/");
}

#[test]
fn rename_moves_within_the_parent() {
    let app = app_at("/a");
    assert_eq!(
        app.rename_file_or_dir(
            "/a/foo.txt".to_string(),
            "bar.txt".to_string(),
            PathKind::File,
            PathKind::Missing
        ),
        Ok(FsAction::Rename { from: "/a/foo.txt".to_string(), to: "/a/bar.txt".to_string() })
    );
    assert_eq!(
        app.rename_file_or_dir(
            "/top".to_string(),
            "new top".to_string(),
            PathKind::Directory,
            PathKind::Missing
        ),
        Ok(FsAction::Rename { from: "/top".to_string(), to: "/new top".to_string() })
    );
}

#[test]
fn rename_of_a_path_that_is_gone_is_not_found() {
    let app = app_at("/a");
    for target in [PathKind::Missing, PathKind::File, PathKind::Directory, PathKind::Other] {
        assert_eq!(
            app.rename_file_or_dir(
                "/a/foo.txt".to_string(),
                "bar.txt".to_string(),
                PathKind::Missing,
                target
            ),
            Err(FsError::NotFound)
        );
    }
}

#[test]
fn rename_of_a_path_that_is_gone_is_not_found_whatever_the_new_name() {
    let app = app_at("/a");
    for new_name in ["", ".", "..", "b/bar.txt", "/bar.txt", "bar.txt", "foo.txt"] {
        for target in [PathKind::Missing, PathKind::File] {
            assert_eq!(
                app.rename_file_or_dir(
                    "/a/foo.txt".to_string(),
                    new_name.to_string(),
                    PathKind::Missing,
                    target
                ),
                Err(FsError::NotFound),
                "new name {:?}",
                new_name
            );
        }
    }
}

#[test]
fn rename_of_a_text_that_is_no_path_and_leads_nowhere_is_not_found() {
    let app = app_at("/a");
    for path in ["", "a/foo.txt", "/a/../foo.txt", "/a//foo.txt", "/a/"] {
        assert_eq!(
            app.rename_file_or_dir(
                path.to_string(),
                "bar.txt".to_string(),
                PathKind::Missing,
                PathKind::Missing
            ),
            Err(FsError::NotFound),
            "path {:?}",
            path
        );
    }
}

#[test]
fn rename_of_the_root_is_an_invalid_path_whatever_was_found() {
    let app = app_at("/");
    for source in [PathKind::Directory, PathKind::Missing, PathKind::File, PathKind::Other] {
        for target in [PathKind::Missing, PathKind::Directory] {
            for new_name in ["elsewhere", "", ".."] {
                assert_eq!(
                    app.rename_file_or_dir("/".to_string(), new_name.to_string(), source, target),
                    Err(FsError::InvalidPath)
                );
            }
        }
    }
}

#[test]
fn rename_with_a_path_or_name_that_cannot_be_is_an_invalid_path() {
    let app = app_at("/a");
    let cases = [
        ("a/foo.txt", "bar.txt"),
        ("", "bar.txt"),
        ("/a/../foo.txt", "bar.txt"),
        ("/a/foo.txt", ""),
        ("/a/foo.txt", ".."),
        ("/a/foo.txt", "."),
        ("/a/foo.txt", "b/bar.txt"),
        ("/a/foo.txt", "/bar.txt"),
    ];
    for (path, new_name) in cases {
        for source in [PathKind::File, PathKind::Directory, PathKind::Other] {
            for target in [PathKind::File, PathKind::Missing] {
                assert_eq!(
                    app.rename_file_or_dir(path.to_string(), new_name.to_string(), source, target),
                    Err(FsError::InvalidPath),
                    "{:?} to {:?}",
                    path,
                    new_name
                );
            }
        }
    }
}

#[test]
fn rename_looks_at_the_name_before_it_looks_at_what_is_taken() {
    let app = app_at("/a");
    assert_eq!(
        app.rename_file_or_dir(
            "/a/foo.txt".to_string(),
            "..".to_string(),
            PathKind::File,
            PathKind::Directory
        ),
        Err(FsError::InvalidPath)
    );
}

#[test]
fn renamed_path_replaces_the_last_segment() {
    assert_eq!(renamed_path("/a/foo.txt", "bar.txt").unwrap().to_string(), "/a/bar.txt");
    assert_eq!(renamed_path("/a/b/c", "d").unwrap().to_string(), "/a/b/d");
    assert_eq!(renamed_path("/x", "y").unwrap().to_string(), "/y");
    assert_eq!(renamed_path("/x", "x").unwrap().to_string(), "/x");
}

#[test]
fn renamed_path_of_what_cannot_be_renamed() {
    assert_eq!(renamed_path("/", "y").err(), Some(FsError::InvalidPath));
    assert_eq!(renamed_path("x", "y").err(), Some(FsError::InvalidPath));
    assert_eq!(renamed_path("/x", "a/b").err(), Some(FsError::InvalidPath));
    assert_eq!(renamed_path("/x", "..").err(), Some(FsError::InvalidPath));
    assert_eq!(renamed_path("/x/", "y").err(), Some(FsError::InvalidPath));
}

#[test]
fn refusal_by_the_system_keeps_not_found_and_already_exists_apart() {
    assert_eq!(FsError::from_refusal(IoKind::NotFound), FsError::NotFound);
    assert_eq!(FsError::from_refusal(IoKind::AlreadyExists), FsError::AlreadyExists);
}

#[test]
fn refusal_by_the_system_for_another_reason_is_passed_on() {
    for kind in [
        IoKind::PermissionDenied,
        IoKind::NotADirectory,
        IoKind::DirectoryNotEmpty,
        IoKind::CrossesDevices,
        IoKind::InvalidData,
        IoKind::Other,
    ] {
        assert_eq!(FsError::from_refusal(kind), FsError::Io(kind));
    }
}
