use vstd::prelude::*;

use crate::text::{last_index_of, lemma_last_index_of_props, rlast_index, str_eq};
use crate::types::FileType;

verus! {

/// The media extension table. Matching is by exact, case-sensitive string
/// membership, a fixed policy of the library.
pub open spec fn is_media_ext(e: Seq<char>) -> bool {
    e == "mp3"@ || e == "mp4"@ || e == "avi"@ || e == "mkv"@ || e == "mov"@ || e == "wmv"@ || e
        == "flv"@ || e == "webm"@ || e == "wav"@ || e == "ogg"@ || e == "aac"@ || e == "jpg"@ || e
        == "jpeg"@ || e == "png"@ || e == "gif"@ || e == "bmp"@ || e == "tif"@ || e == "tiff"@ || e
        == "webp"@ || e == "svg"@ || e == "ico"@
}

/// The programming extension table.
pub open spec fn is_programming_ext(e: Seq<char>) -> bool {
    e == "c"@ || e == "cpp"@ || e == "cc"@ || e == "java"@ || e == "py"@ || e == "js"@ || e
        == "php"@ || e == "rb"@ || e == "swift"@ || e == "go"@ || e == "cs"@ || e == "html"@ || e
        == "css"@ || e == "xml"@ || e == "json"@ || e == "yaml"@ || e == "yml"@ || e == "sh"@ || e
        == "bat"@ || e == "sql"@ || e == "ini"@ || e == "cfg"@ || e == "conf"@ || e == "txt"@ || e
        == "csv"@ || e == "tsv"@ || e == "rs"@
}

/// The office-document extension table.
pub open spec fn is_docs_ext(e: Seq<char>) -> bool {
    e == "pdf"@ || e == "doc"@ || e == "docx"@ || e == "xls"@ || e == "xlsx"@ || e == "ppt"@ || e
        == "pptx"@
}

/// The file name of a path: the text after the last `/`, or the whole path
/// when it has none. Paths are split textually; the library does not
/// normalize them.
pub open spec fn file_name_of(p: Seq<char>) -> Seq<char> {
    p.subrange(last_index_of(p, '/') + 1, p.len() as int)
}

/// The extension of a file name: the text after the last `.`. A name
/// without a `.`, and a name whose only `.` is its first character (a
/// hidden file), have none.
pub open spec fn extension_of(name: Seq<char>) -> Option<Seq<char>> {
    let d = last_index_of(name, '.');
    if d <= 0 {
        Option::None
    } else {
        Option::Some(name.subrange(d + 1, name.len() as int))
    }
}

/// The category of a path: the tables are consulted in the fixed order
/// media, programming, docs, and the first containing the extension wins;
/// everything else, including paths without an extension, is `Others`.
pub open spec fn classify(p: Seq<char>) -> FileType {
    match extension_of(file_name_of(p)) {
        Option::None => FileType::Others,
        Option::Some(e) => if is_media_ext(e) {
            FileType::Media
        } else if is_programming_ext(e) {
            FileType::Programming
        } else if is_docs_ext(e) {
            FileType::Docs
        } else {
            FileType::Others
        },
    }
}

/// Exact membership of `e` in the media table.
pub fn is_media_extension(e: &str) -> (b: bool)
    ensures
        b == is_media_ext(e@),
{
    str_eq(e, "mp3") || str_eq(e, "mp4") || str_eq(e, "avi") || str_eq(e, "mkv") || str_eq(
        e,
        "mov",
    ) || str_eq(e, "wmv") || str_eq(e, "flv") || str_eq(e, "webm") || str_eq(e, "wav") || str_eq(
        e,
        "ogg",
    ) || str_eq(e, "aac") || str_eq(e, "jpg") || str_eq(e, "jpeg") || str_eq(e, "png") || str_eq(
        e,
        "gif",
    ) || str_eq(e, "bmp") || str_eq(e, "tif") || str_eq(e, "tiff") || str_eq(e, "webp") || str_eq(
        e,
        "svg",
    ) || str_eq(e, "ico")
}

/// Exact membership of `e` in the programming table.
pub fn is_programming_extension(e: &str) -> (b: bool)
    ensures
        b == is_programming_ext(e@),
{
    str_eq(e, "c") || str_eq(e, "cpp") || str_eq(e, "cc") || str_eq(e, "java") || str_eq(e, "py")
        || str_eq(e, "js") || str_eq(e, "php") || str_eq(e, "rb") || str_eq(e, "swift") || str_eq(
        e,
        "go",
    ) || str_eq(e, "cs") || str_eq(e, "html") || str_eq(e, "css") || str_eq(e, "xml") || str_eq(
        e,
        "json",
    ) || str_eq(e, "yaml") || str_eq(e, "yml") || str_eq(e, "sh") || str_eq(e, "bat") || str_eq(
        e,
        "sql",
    ) || str_eq(e, "ini") || str_eq(e, "cfg") || str_eq(e, "conf") || str_eq(e, "txt") || str_eq(
        e,
        "csv",
    ) || str_eq(e, "tsv") || str_eq(e, "rs")
}

/// Exact membership of `e` in the office-document table.
pub fn is_docs_extension(e: &str) -> (b: bool)
    ensures
        b == is_docs_ext(e@),
{
    str_eq(e, "pdf") || str_eq(e, "doc") || str_eq(e, "docx") || str_eq(e, "xls") || str_eq(
        e,
        "xlsx",
    ) || str_eq(e, "ppt") || str_eq(e, "pptx")
}

/// Maps a path to its category, as `classify` states.
pub fn get_media_type(path: &str) -> (t: FileType)
    ensures
        t == classify(path@),
{
    proof {
        lemma_last_index_of_props(path@, '/');
    }
    let n = path.unicode_len();
    let name: &str = match rlast_index(path, '/') {
        Option::Some(i) => path.substring_char(i + 1, n),
        Option::None => path,
    };
    proof {
        assert(name@ =~= file_name_of(path@));
        lemma_last_index_of_props(name@, '.');
    }
    let m = name.unicode_len();
    match rlast_index(name, '.') {
        Option::None => FileType::Others,
        Option::Some(d) => {
            if d == 0 {
                FileType::Others
            } else {
                let ext = name.substring_char(d + 1, m);
                if is_media_extension(ext) {
                    FileType::Media
                } else if is_programming_extension(ext) {
                    FileType::Programming
                } else if is_docs_extension(ext) {
                    FileType::Docs
                } else {
                    FileType::Others
                }
            }
        },
    }
}

/// The tables are consulted in the order media, programming, docs, and the
/// first match decides: for an extension in several tables, the earlier
/// table's category is returned.
pub proof fn lemma_classify_order(p: Seq<char>, e: Seq<char>)
    requires
        extension_of(file_name_of(p)) == Option::Some(e),
    ensures
        is_media_ext(e) ==> classify(p) == FileType::Media,
        !is_media_ext(e) && is_programming_ext(e) ==> classify(p) == FileType::Programming,
        !is_media_ext(e) && !is_programming_ext(e) && is_docs_ext(e) ==> classify(p)
            == FileType::Docs,
        !is_media_ext(e) && !is_programming_ext(e) && !is_docs_ext(e) ==> classify(p)
            == FileType::Others,
{
}

proof fn lemma_tables_disjoint_at(e: Seq<char>)
    ensures
        is_programming_ext(e) ==> !is_media_ext(e),
        is_docs_ext(e) ==> !is_media_ext(e) && !is_programming_ext(e),
{
    reveal_strlit("mp3");
    reveal_strlit("mp4");
    reveal_strlit("avi");
    reveal_strlit("mkv");
    reveal_strlit("mov");
    reveal_strlit("wmv");
    reveal_strlit("flv");
    reveal_strlit("webm");
    reveal_strlit("wav");
    reveal_strlit("ogg");
    reveal_strlit("aac");
    reveal_strlit("jpg");
    reveal_strlit("jpeg");
    reveal_strlit("png");
    reveal_strlit("gif");
    reveal_strlit("bmp");
    reveal_strlit("tif");
    reveal_strlit("tiff");
    reveal_strlit("webp");
    reveal_strlit("svg");
    reveal_strlit("ico");
    reveal_strlit("c");
    reveal_strlit("cpp");
    reveal_strlit("cc");
    reveal_strlit("java");
    reveal_strlit("py");
    reveal_strlit("js");
    reveal_strlit("php");
    reveal_strlit("rb");
    reveal_strlit("swift");
    reveal_strlit("go");
    reveal_strlit("cs");
    reveal_strlit("html");
    reveal_strlit("css");
    reveal_strlit("xml");
    reveal_strlit("json");
    reveal_strlit("yaml");
    reveal_strlit("yml");
    reveal_strlit("sh");
    reveal_strlit("bat");
    reveal_strlit("sql");
    reveal_strlit("ini");
    reveal_strlit("cfg");
    reveal_strlit("conf");
    reveal_strlit("txt");
    reveal_strlit("csv");
    reveal_strlit("tsv");
    reveal_strlit("rs");
    reveal_strlit("pdf");
    reveal_strlit("doc");
    reveal_strlit("docx");
    reveal_strlit("xls");
    reveal_strlit("xlsx");
    reveal_strlit("ppt");
    reveal_strlit("pptx");
    assert("mp3"@ =~= seq!['m', 'p', '3']);
    assert("mp4"@ =~= seq!['m', 'p', '4']);
    assert("avi"@ =~= seq!['a', 'v', 'i']);
    assert("mkv"@ =~= seq!['m', 'k', 'v']);
    assert("mov"@ =~= seq!['m', 'o', 'v']);
    assert("wmv"@ =~= seq!['w', 'm', 'v']);
    assert("flv"@ =~= seq!['f', 'l', 'v']);
    assert("webm"@ =~= seq!['w', 'e', 'b', 'm']);
    assert("wav"@ =~= seq!['w', 'a', 'v']);
    assert("ogg"@ =~= seq!['o', 'g', 'g']);
    assert("aac"@ =~= seq!['a', 'a', 'c']);
    assert("jpg"@ =~= seq!['j', 'p', 'g']);
    assert("jpeg"@ =~= seq!['j', 'p', 'e', 'g']);
    assert("png"@ =~= seq!['p', 'n', 'g']);
    assert("gif"@ =~= seq!['g', 'i', 'f']);
    assert("bmp"@ =~= seq!['b', 'm', 'p']);
    assert("tif"@ =~= seq!['t', 'i', 'f']);
    assert("tiff"@ =~= seq!['t', 'i', 'f', 'f']);
    assert("webp"@ =~= seq!['w', 'e', 'b', 'p']);
    assert("svg"@ =~= seq!['s', 'v', 'g']);
    assert("ico"@ =~= seq!['i', 'c', 'o']);
    assert("c"@ =~= seq!['c']);
    assert("cpp"@ =~= seq!['c', 'p', 'p']);
    assert("cc"@ =~= seq!['c', 'c']);
    assert("java"@ =~= seq!['j', 'a', 'v', 'a']);
    assert("py"@ =~= seq!['p', 'y']);
    assert("js"@ =~= seq!['j', 's']);
    assert("php"@ =~= seq!['p', 'h', 'p']);
    assert("rb"@ =~= seq!['r', 'b']);
    assert("swift"@ =~= seq!['s', 'w', 'i', 'f', 't']);
    assert("go"@ =~= seq!['g', 'o']);
    assert("cs"@ =~= seq!['c', 's']);
    assert("html"@ =~= seq!['h', 't', 'm', 'l']);
    assert("css"@ =~= seq!['c', 's', 's']);
    assert("xml"@ =~= seq!['x', 'm', 'l']);
    assert("json"@ =~= seq!['j', 's', 'o', 'n']);
    assert("yaml"@ =~= seq!['y', 'a', 'm', 'l']);
    assert("yml"@ =~= seq!['y', 'm', 'l']);
    assert("sh"@ =~= seq!['s', 'h']);
    assert("bat"@ =~= seq!['b', 'a', 't']);
    assert("sql"@ =~= seq!['s', 'q', 'l']);
    assert("ini"@ =~= seq!['i', 'n', 'i']);
    assert("cfg"@ =~= seq!['c', 'f', 'g']);
    assert("conf"@ =~= seq!['c', 'o', 'n', 'f']);
    assert("txt"@ =~= seq!['t', 'x', 't']);
    assert("csv"@ =~= seq!['c', 's', 'v']);
    assert("tsv"@ =~= seq!['t', 's', 'v']);
    assert("rs"@ =~= seq!['r', 's']);
    assert("pdf"@ =~= seq!['p', 'd', 'f']);
    assert("doc"@ =~= seq!['d', 'o', 'c']);
    assert("docx"@ =~= seq!['d', 'o', 'c', 'x']);
    assert("xls"@ =~= seq!['x', 'l', 's']);
    assert("xlsx"@ =~= seq!['x', 'l', 's', 'x']);
    assert("ppt"@ =~= seq!['p', 'p', 't']);
    assert("pptx"@ =~= seq!['p', 'p', 't', 'x']);
}

/// No extension string stands in two of the three tables.
pub proof fn lemma_tables_disjoint()
    ensures
        forall|e: Seq<char>| #[trigger] is_programming_ext(e) ==> !is_media_ext(e),
        forall|e: Seq<char>| #[trigger] is_docs_ext(e) ==> !is_media_ext(e) && !is_programming_ext(
            e,
        ),
{
    assert forall|e: Seq<char>| #[trigger] is_programming_ext(e) implies !is_media_ext(e) by {
        lemma_tables_disjoint_at(e);
    }
    assert forall|e: Seq<char>| #[trigger] is_docs_ext(e) implies !is_media_ext(e)
        && !is_programming_ext(e) by {
        lemma_tables_disjoint_at(e);
    }
}

/// Membership in a table decides the category outright: the tables are
/// disjoint, so the check order never overrides a membership.
pub proof fn lemma_table_decides_category(p: Seq<char>, e: Seq<char>)
    requires
        extension_of(file_name_of(p)) == Option::Some(e),
    ensures
        is_media_ext(e) ==> classify(p) == FileType::Media,
        is_programming_ext(e) ==> classify(p) == FileType::Programming,
        is_docs_ext(e) ==> classify(p) == FileType::Docs,
        !is_media_ext(e) && !is_programming_ext(e) && !is_docs_ext(e) ==> classify(p)
            == FileType::Others,
{
    lemma_tables_disjoint();
}

/// A path without an extension is always classified `Others`.
pub proof fn lemma_no_extension_is_others(p: Seq<char>)
    requires
        extension_of(file_name_of(p)) is None,
    ensures
        classify(p) == FileType::Others,
{
}

} // verus!
