use herman::bootstrap::{arrange_entries, plan_initial_directories, ListingEntry};

fn file(path: &str) -> ListingEntry {
    ListingEntry {
        path: path.to_string(),
        is_dir: false,
        exists: true,
    }
}

fn live_dir(path: &str) -> ListingEntry {
    ListingEntry {
        path: path.to_string(),
        is_dir: true,
        exists: true,
    }
}

fn stale_dir(path: &str) -> ListingEntry {
    ListingEntry {
        path: path.to_string(),
        is_dir: true,
        exists: false,
    }
}

#[test]
fn entries_are_filtered_and_sorted() {
    let listing = vec![
        file("root/c.docx"),
        live_dir("root/media"),
        file("root/a.jpg"),
        live_dir("root/docs"),
        file("root/b.rs"),
    ];
    let arranged = arrange_entries(listing);
    assert_eq!(arranged, vec!["root/a.jpg", "root/b.rs", "root/c.docx"]);
}

#[test]
fn stale_entries_are_kept() {
    let listing = vec![stale_dir("root/gone"), file("root/a.txt")];
    let arranged = arrange_entries(listing);
    assert_eq!(arranged, vec!["root/a.txt", "root/gone"]);
}

#[test]
fn listing_order_does_not_matter() {
    let one = arrange_entries(vec![
        file("root/b"),
        file("root/a"),
        live_dir("root/etc"),
        file("root/c"),
    ]);
    let two = arrange_entries(vec![
        file("root/c"),
        live_dir("root/etc"),
        file("root/a"),
        file("root/b"),
    ]);
    assert_eq!(one, two);
    assert_eq!(one, vec!["root/a", "root/b", "root/c"]);
}

#[test]
fn second_pass_over_only_category_dirs_is_empty() {
    let listing = vec![
        live_dir("root/docs"),
        live_dir("root/etc"),
        live_dir("root/media"),
        live_dir("root/programming"),
    ];
    let arranged = arrange_entries(listing);
    assert!(arranged.is_empty());
}

#[test]
fn duplicate_paths_are_both_kept() {
    let arranged = arrange_entries(vec![file("root/x"), file("root/x")]);
    assert_eq!(arranged, vec!["root/x", "root/x"]);
}

#[test]
fn category_directories_are_planned_in_order() {
    let dirs = plan_initial_directories("root");
    assert_eq!(
        dirs,
        vec!["root/docs", "root/etc", "root/media", "root/programming"]
    );
}
