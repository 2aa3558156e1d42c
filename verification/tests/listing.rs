use rs_file_explorer::app::App;
use rs_file_explorer::error::{FsError, IoKind};
use rs_file_explorer::listing::{list, DirectoryEntry, RawEntry};
use rs_file_explorer::path::AbsolutePath;

fn raw(name: &str, is_directory: bool) -> RawEntry {
    RawEntry { name: name.to_string(), is_directory }
}

fn summary(entries: &[DirectoryEntry]) -> Vec<(String, String, bool)> {
    entries
        .iter()
        .map(|entry| (entry.name().to_string(), entry.abs_path(), entry.is_directory()))
        .collect()
}

#[test]
fn listing_keeps_every_child_in_the_order_read() {
    let directory = AbsolutePath::parse("/home/user").unwrap();
    let read = Ok(vec![Ok(raw("zeta.txt", false)), Ok(raw("docs", true)), Ok(raw("alpha", false))]);
    let entries = list(&directory, &read).unwrap();
    assert_eq!(
        summary(&entries),
        vec![
            ("zeta.txt".to_string(), "/home/user/zeta.txt".to_string(), false),
            ("docs".to_string(), "/home/user/docs".to_string(), true),
            ("alpha".to_string(), "/home/user/alpha".to_string(), false),
        ]
    );
}

#[test]
fn listing_of_the_root() {
    let read = Ok(vec![Ok(raw("etc", true))]);
    let entries = list(&AbsolutePath::root(), &read).unwrap();
    assert_eq!(summary(&entries), vec![("etc".to_string(), "/etc".to_string(), true)]);
}

#[test]
fn listing_of_an_empty_directory_is_empty() {
    let directory = AbsolutePath::parse("/tmp").unwrap();
    let entries = list(&directory, &Ok(Vec::new())).unwrap();
    assert!(entries.is_empty());
}

#[test]
fn directory_that_cannot_be_opened_fails_the_listing() {
    let directory = AbsolutePath::parse("/root").unwrap();
    assert_eq!(
        list(&directory, &Err(IoKind::PermissionDenied)).err(),
        Some(FsError::Io(IoKind::PermissionDenied))
    );
    assert_eq!(list(&directory, &Err(IoKind::NotFound)).err(), Some(FsError::Io(IoKind::NotFound)));
    assert_eq!(
        list(&directory, &Err(IoKind::NotADirectory)).err(),
        Some(FsError::Io(IoKind::NotADirectory))
    );
}

#[test]
fn one_child_that_cannot_be_read_fails_the_whole_listing() {
    let directory = AbsolutePath::parse("/home/user").unwrap();
    let read = Ok(vec![Ok(raw("a", false)), Err(IoKind::Other), Ok(raw("b", true))]);
    assert_eq!(list(&directory, &read).err(), Some(FsError::Io(IoKind::Other)));
}

#[test]
fn the_first_child_that_cannot_be_listed_gives_the_reason() {
    let directory = AbsolutePath::parse("/home/user").unwrap();
    let read = Ok(vec![
        Ok(raw("a", false)),
        Err(IoKind::InvalidData),
        Ok(raw("..", true)),
        Err(IoKind::PermissionDenied),
    ]);
    assert_eq!(list(&directory, &read).err(), Some(FsError::Io(IoKind::InvalidData)));

    let read = Ok(vec![Ok(raw("a/b", false)), Err(IoKind::PermissionDenied)]);
    assert_eq!(list(&directory, &read).err(), Some(FsError::InvalidPath));
}

#[test]
fn child_whose_name_is_no_segment_fails_the_listing() {
    let directory = AbsolutePath::parse("/home/user").unwrap();
    for name in ["", ".", "..", "a/b"] {
        let read = Ok(vec![Ok(raw("fine", true)), Ok(raw(name, false))]);
        assert_eq!(list(&directory, &read).err(), Some(FsError::InvalidPath), "name {:?}", name);
    }
}

#[test]
fn entry_is_made_for_a_child_with_a_proper_name_only() {
    let directory = AbsolutePath::parse("/srv").unwrap();
    let entry = DirectoryEntry::new(&directory, &raw("www", true)).unwrap();
    assert_eq!(entry.name(), "www");
    assert_eq!(entry.abs_path(), "/srv/www");
    assert!(entry.is_directory());
    let file = DirectoryEntry::new(&directory, &raw("notes.txt", false)).unwrap();
    assert!(!file.is_directory());
    assert!(DirectoryEntry::new(&directory, &raw("..", true)).is_none());
    assert!(DirectoryEntry::new(&directory, &raw("", false)).is_none());
}

#[test]
fn app_lists_its_current_directory() {
    let mut app = App::new(AbsolutePath::parse("/home").unwrap());
    app.open_dir("user".to_string());
    let read = Ok(vec![Ok(raw("docs", true)), Ok(raw("todo.txt", false))]);
    let entries = app.get_current_dir_contents(&read).unwrap();
    assert_eq!(
        summary(&entries),
        vec![
            ("docs".to_string(), "/home/user/docs".to_string(), true),
            ("todo.txt".to_string(), "/home/user/todo.txt".to_string(), false),
        ]
    );
    assert_eq!(
        app.get_current_dir_contents(&Err(IoKind::NotFound)).err(),
        Some(FsError::Io(IoKind::NotFound))
    );
    assert_eq!(app.get_current_path(), "/home/user");
}

#[test]
fn opening_a_directory_entry_enters_it() {
    let mut app = App::new(AbsolutePath::parse("/home/user/old").unwrap());
    app.navigate_back();
    let read = Ok(vec![Ok(raw("docs", true)), Ok(raw("todo.txt", false))]);
    let entries = app.get_current_dir_contents(&read).unwrap();
    assert_eq!(app.open_entry(&entries[0]), None);
    assert_eq!(app.get_current_path(), "/home/user/docs");
    assert!(app.history().is_empty());
}

#[test]
fn opening_a_file_entry_hands_its_path_out_and_stays() {
    let mut app = App::new(AbsolutePath::parse("/home/user/old").unwrap());
    app.navigate_back();
    let read = Ok(vec![Ok(raw("docs", true)), Ok(raw("todo.txt", false))]);
    let entries = app.get_current_dir_contents(&read).unwrap();
    assert_eq!(app.open_entry(&entries[1]), Some("/home/user/todo.txt".to_string()));
    assert_eq!(app.get_current_path(), "/home/user");
    assert_eq!(app.history().len(), 1);
}
