use vstd::prelude::*;

use crate::helpers::{dest_path_of, get_new_file_path, source_path_of};

verus! {

/// The kind of a filesystem change notification, as the watch loop sees
/// it: only the creation of a file is acted upon; every other kind is
/// ignored.
#[derive(Clone, Copy, Debug, PartialEq, Eq, Structural)]
pub enum WatchEventKind {
    FileCreated,
    Other,
}

/// Decides which path, if any, a delivered watch event relocates.
///
/// Only a file-creation event naming exactly one path qualifies; its path
/// is returned for relocation. Events of any other kind, and events
/// reporting several paths at once, are dropped whole.
pub fn dispatch_event(kind: WatchEventKind, paths: Vec<String>) -> (r: Option<String>)
    ensures
        match r {
            Option::Some(p) => kind == WatchEventKind::FileCreated && paths@.len() == 1 && p@
                == paths@[0]@,
            Option::None => kind != WatchEventKind::FileCreated || paths@.len() != 1,
        },
{
    let mut paths = paths;
    match kind {
        WatchEventKind::FileCreated => {
            if paths.len() == 1 {
                paths.pop()
            } else {
                Option::None
            }
        },
        WatchEventKind::Other => Option::None,
    }
}

/// Turns a delivered watch event into the relocation plan it calls for,
/// if any: the source and destination paths of the one file a qualifying
/// event names. Besides the events `dispatch_event` drops, an event whose
/// path cannot name a file (empty, or ending in the separator) yields no
/// plan.
pub fn handle_event(kind: WatchEventKind, paths: Vec<String>) -> (r: Option<(String, String)>)
    ensures
        match r {
            Option::Some(plan) => kind == WatchEventKind::FileCreated && paths@.len() == 1
                && paths@[0]@.len() > 0 && paths@[0]@.last() != '/' && plan.0@ == source_path_of(
                paths@[0]@,
            ) && plan.1@ == dest_path_of(paths@[0]@),
            Option::None => kind != WatchEventKind::FileCreated || paths@.len() != 1
                || paths@[0]@.len() == 0 || paths@[0]@.last() == '/',
        },
{
    match dispatch_event(kind, paths) {
        Option::Some(path) => {
            let n = path.as_str().unicode_len();
            if n == 0 {
                Option::None
            } else if path.as_str().get_char(n - 1) == '/' {
                Option::None
            } else {
                Option::Some(get_new_file_path(path.as_str()))
            }
        },
        Option::None => Option::None,
    }
}

} // verus!
