use herman::get_new_file_path;
use herman::move_file_outcome;
use herman::HermanErrors;

#[test]
fn plan_routes_each_category_to_its_folder() {
    assert_eq!(
        get_new_file_path("root/a.jpg"),
        ("root/a.jpg".to_string(), "root/media/a.jpg".to_string())
    );
    assert_eq!(
        get_new_file_path("root/b.rs"),
        ("root/b.rs".to_string(), "root/programming/b.rs".to_string())
    );
    assert_eq!(
        get_new_file_path("root/c.docx"),
        ("root/c.docx".to_string(), "root/docs/c.docx".to_string())
    );
    assert_eq!(
        get_new_file_path("root/d"),
        ("root/d".to_string(), "root/etc/d".to_string())
    );
}

#[test]
fn plan_keeps_the_parent_directory() {
    assert_eq!(
        get_new_file_path("./test/nested/z.pdf"),
        (
            "./test/nested/z.pdf".to_string(),
            "./test/nested/docs/z.pdf".to_string()
        )
    );
}

#[test]
fn plan_is_deterministic() {
    let first = get_new_file_path("root/f.txt");
    let second = get_new_file_path("root/f.txt");
    assert_eq!(first, second);
    assert_eq!(first.1, "root/programming/f.txt");
}

#[test]
fn copy_failure_reports_file_copy_error() {
    assert_eq!(
        move_file_outcome(false, true),
        Err(HermanErrors::FileCopyError)
    );
    assert_eq!(
        move_file_outcome(false, false),
        Err(HermanErrors::FileCopyError)
    );
}

#[test]
fn delete_failure_reports_file_delete_error() {
    assert_eq!(
        move_file_outcome(true, false),
        Err(HermanErrors::FileDeleteError)
    );
}

#[test]
fn clean_move_succeeds() {
    assert_eq!(move_file_outcome(true, true), Ok(()));
}
