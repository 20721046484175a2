use vstd::prelude::*;

use crate::classify::{classify, file_name_of, get_media_type};
use crate::text::{last_index_of, lemma_last_index_of_props, rlast_index};
use crate::types::{FileType, HermanErrors};

verus! {

/// The parent of a path: the text before the last `/`, or empty when it
/// has none. Paths are split textually; the library does not normalize
/// them.
pub open spec fn parent_of(p: Seq<char>) -> Seq<char> {
    if last_index_of(p, '/') >= 0 {
        p.subrange(0, last_index_of(p, '/'))
    } else {
        Seq::<char>::empty()
    }
}

/// The fixed subdirectory name each category routes to.
pub open spec fn folder_of(t: FileType) -> Seq<char> {
    match t {
        FileType::Docs => "docs"@,
        FileType::Media => "media"@,
        FileType::Programming => "programming"@,
        FileType::Others => "etc"@,
    }
}

/// The source path a relocation reads: the path's parent and file name,
/// rejoined with a `/`.
pub open spec fn source_path_of(p: Seq<char>) -> Seq<char> {
    parent_of(p) + "/"@ + file_name_of(p)
}

/// The destination path a relocation writes: the category folder of the
/// path's classification, between parent and file name.
pub open spec fn dest_path_of(p: Seq<char>) -> Seq<char> {
    parent_of(p) + "/"@ + folder_of(classify(p)) + "/"@ + file_name_of(p)
}

/// Computes the relocation plan for a file: the source path and the
/// destination path under the category folder chosen by `classify`.
///
/// The path must name a file: nonempty, and not ending in `/`.
pub fn get_new_file_path(path: &str) -> (r: (String, String))
    requires
        path@.len() > 0,
        path@.last() != '/',
    ensures
        r.0@ == source_path_of(path@),
        r.1@ == dest_path_of(path@),
{
    proof {
        lemma_last_index_of_props(path@, '/');
    }
    let n = path.unicode_len();
    let (parent, name) = match rlast_index(path, '/') {
        Option::Some(i) => (path.substring_char(0, i), path.substring_char(i + 1, n)),
        Option::None => (path.substring_char(0, 0), path),
    };
    proof {
        assert(parent@ =~= parent_of(path@));
        assert(name@ =~= file_name_of(path@));
    }
    let t = get_media_type(path);
    let mut from = String::new();
    from.append(parent);
    from.append("/");
    from.append(name);
    let mut to = String::new();
    to.append(parent);
    to.append("/");
    match t {
        FileType::Docs => to.append("docs"),
        FileType::Media => to.append("media"),
        FileType::Programming => to.append("programming"),
        FileType::Others => to.append("etc"),
    }
    to.append("/");
    to.append(name);
    proof {
        assert(from@ =~= source_path_of(path@));
        assert(to@ =~= dest_path_of(path@));
    }
    (from, to)
}

/// Maps the outcomes of a relocation's two steps to its result. A failed
/// copy is `FileCopyError`: the source was left untouched and no delete
/// was attempted. A successful copy whose delete of the source failed is
/// `FileDeleteError`: the file then exists at both source and destination.
pub fn move_file_outcome(copy_ok: bool, delete_ok: bool) -> (r: Result<(), HermanErrors>)
    ensures
        !copy_ok ==> r == Err::<(), HermanErrors>(HermanErrors::FileCopyError),
        copy_ok && !delete_ok ==> r == Err::<(), HermanErrors>(HermanErrors::FileDeleteError),
        copy_ok && delete_ok ==> r == Ok::<(), HermanErrors>(()),
{
    if !copy_ok {
        Err(HermanErrors::FileCopyError)
    } else if !delete_ok {
        Err(HermanErrors::FileDeleteError)
    } else {
        Ok(())
    }
}

} // verus!
