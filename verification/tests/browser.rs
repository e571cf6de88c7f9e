use duckize::file_browser::{DirEntry, FileBrowser, FileEntry};

fn entry(dir: &str, name: &str, is_dir: bool) -> DirEntry {
    DirEntry { path: format!("{}/{}", dir, name), name: name.to_string(), is_dir }
}

fn names(b: &FileBrowser) -> Vec<String> {
    b.entries.iter().map(|e| e.name.clone()).collect()
}

#[test]
fn listing_puts_parent_then_directories_then_files_by_name() {
    let listing = vec![
        entry("/data", "zeta.csv", false),
        entry("/data", "notes.txt", false),
        entry("/data", "beta", true),
        entry("/data", "Alpha.XLSX", false),
        entry("/data", "alpha", true),
        entry("/data", "sheet.xls", false),
        entry("/data", "report.Csv", false),
    ];
    let b = FileBrowser::new("/data".to_string(), Some(listing));
    assert_eq!(names(&b), vec!["..", "alpha", "beta", "Alpha.XLSX", "report.Csv", "sheet.xls", "zeta.csv"]);
    assert_eq!(b.entries[0].path, "/");
    assert!(b.entries[0].is_dir);
    assert_eq!(b.entries[3].extension.as_deref(), Some("xlsx"));
    assert_eq!(b.entries[4].extension.as_deref(), Some("csv"));
    assert_eq!(b.entries[1].extension, None);
    assert_eq!(b.state.selected(), Some(0));
    assert_eq!(b.filter_extensions, vec!["csv".to_string(), "xlsx".to_string(), "xls".to_string()]);
}

#[test]
fn root_has_no_parent_line() {
    let b = FileBrowser::new("/".to_string(), Some(vec![entry("", "etc", true)]));
    assert_eq!(names(&b), vec!["etc"]);
}

#[test]
fn unreadable_directory_shows_only_parent() {
    let b = FileBrowser::new("/a/b".to_string(), None);
    assert_eq!(names(&b), vec![".."]);
    assert_eq!(b.entries[0].path, "/a");
}

#[test]
fn new_highlights_first_line_even_when_empty() {
    let b = FileBrowser::new("/".to_string(), None);
    assert!(b.entries.is_empty());
    assert_eq!(b.state.selected(), Some(0));
}

#[test]
fn refresh_of_empty_directory_highlights_nothing() {
    let mut b = FileBrowser::new("/".to_string(), None);
    b.refresh_entries(Some(vec![]));
    assert_eq!(b.state.selected(), None);
}

#[test]
fn equal_names_keep_listing_order() {
    let listing = vec![
        DirEntry { path: "/x/first/same.csv".to_string(), name: "same.csv".to_string(), is_dir: false },
        DirEntry { path: "/x/second/same.csv".to_string(), name: "same.csv".to_string(), is_dir: false },
    ];
    let b = FileBrowser::new("/".to_string(), Some(listing));
    assert_eq!(b.entries[0].path, "/x/first/same.csv");
    assert_eq!(b.entries[1].path, "/x/second/same.csv");
}

#[test]
fn navigation_stays_on_the_lines() {
    let mut b = FileBrowser::new("/d".to_string(), Some(vec![entry("/d", "a.csv", false)]));
    b.navigate_up();
    assert_eq!(b.state.selected(), Some(0));
    b.navigate_down();
    assert_eq!(b.state.selected(), Some(1));
    b.navigate_down();
    assert_eq!(b.state.selected(), Some(1));
    b.navigate_up();
    assert_eq!(b.state.selected(), Some(0));
}

#[test]
fn selected_file_and_entering_directories() {
    let mut b = FileBrowser::new("/d".to_string(), Some(vec![entry("/d", "sub", true), entry("/d", "a.csv", false)]));
    assert!(b.get_selected_file().is_none());
    b.navigate_down();
    assert!(b.get_selected_file().is_none());
    assert!(b.enter_directory());
    assert_eq!(b.current_dir, "/d/sub");
    b.refresh_entries(Some(vec![entry("/d/sub", "x.xls", false)]));
    assert_eq!(names(&b), vec!["..", "x.xls"]);
    b.navigate_down();
    let f = b.get_selected_file().unwrap();
    assert_eq!(f.path, "/d/sub/x.xls");
    assert!(!b.enter_directory());
    assert_eq!(b.current_dir, "/d/sub");
}

#[test]
fn labels_and_title() {
    let dir = FileEntry { path: "/a".to_string(), name: "a".to_string(), is_dir: true, extension: None };
    let csv = FileEntry { path: "/b.csv".to_string(), name: "b.csv".to_string(), is_dir: false, extension: Some("csv".to_string()) };
    let xls = FileEntry { path: "/c.xls".to_string(), name: "c.xls".to_string(), is_dir: false, extension: Some("xls".to_string()) };
    assert_eq!(dir.label(), "📁 a");
    assert_eq!(csv.label(), "📄 b.csv");
    assert_eq!(xls.label(), "📊 c.xls");
    let b = FileBrowser::new("/home/me".to_string(), None);
    assert_eq!(b.title(), "File Browser - /home/me");
    let c = csv.clone();
    assert_eq!(c.path, "/b.csv");
}
