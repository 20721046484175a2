use herman::get_new_file_path;
use herman::watch::{dispatch_event, handle_event, WatchEventKind};

#[test]
fn single_file_creation_is_dispatched() {
    let r = dispatch_event(WatchEventKind::FileCreated, vec!["root/e.png".to_string()]);
    assert_eq!(r, Some("root/e.png".to_string()));
    let (from, to) = get_new_file_path("root/e.png");
    assert_eq!(from, "root/e.png");
    assert_eq!(to, "root/media/e.png");
}

#[test]
fn other_event_kinds_are_ignored() {
    let r = dispatch_event(WatchEventKind::Other, vec!["root/e.png".to_string()]);
    assert_eq!(r, None);
}

#[test]
fn multi_path_events_are_dropped() {
    let r = dispatch_event(
        WatchEventKind::FileCreated,
        vec!["root/a.png".to_string(), "root/b.png".to_string()],
    );
    assert_eq!(r, None);
}

#[test]
fn empty_event_is_dropped() {
    let r = dispatch_event(WatchEventKind::FileCreated, vec![]);
    assert_eq!(r, None);
}

#[test]
fn qualifying_event_yields_the_full_plan() {
    let r = handle_event(WatchEventKind::FileCreated, vec!["root/e.png".to_string()]);
    assert_eq!(
        r,
        Some(("root/e.png".to_string(), "root/media/e.png".to_string()))
    );
}

#[test]
fn degenerate_paths_yield_no_plan() {
    assert_eq!(
        handle_event(WatchEventKind::FileCreated, vec!["".to_string()]),
        None
    );
    assert_eq!(
        handle_event(WatchEventKind::FileCreated, vec!["root/dir/".to_string()]),
        None
    );
}

#[test]
fn same_name_twice_targets_the_same_destination() {
    let first = dispatch_event(WatchEventKind::FileCreated, vec!["root/f.txt".to_string()]);
    let second = dispatch_event(WatchEventKind::FileCreated, vec!["root/f.txt".to_string()]);
    assert_eq!(first, second);
    let path = first.unwrap();
    let (_, to_first) = get_new_file_path(&path);
    let (_, to_second) = get_new_file_path(&path);
    assert_eq!(to_first, to_second);
    assert_eq!(to_first, "root/programming/f.txt");
}
