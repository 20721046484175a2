use vstd::prelude::*;
use vstd::relations::sorted_by;
use vstd::seq_lib::lemma_sorted_unique;

use crate::text::{
    lemma_lex_le_total, lemma_lex_le_trans, lemma_lex_total_ordering, lex_le, lex_leq, str_le,
};

verus! {

broadcast use vstd::seq_lib::group_to_multiset_ensures;

/// One directory entry as the caller listed it: its path, whether it is a
/// directory, and whether it currently exists on disk.
pub struct ListingEntry {
    pub path: String,
    pub is_dir: bool,
    pub exists: bool,
}

/// Whether a bootstrap pass migrates an entry. Live directories are left
/// in place — that keeps the four category folders, once created, out of
/// the migration set of every later run — while regular files and stale
/// entries are kept.
pub open spec fn keeps(e: ListingEntry) -> bool {
    !e.is_dir || !e.exists
}

/// The paths of the entries a listing keeps, in listing order.
pub open spec fn kept_paths(entries: Seq<ListingEntry>) -> Seq<Seq<char>>
    decreases entries.len(),
{
    if entries.len() == 0 {
        Seq::<Seq<char>>::empty()
    } else if keeps(entries.last()) {
        kept_paths(entries.drop_last()).push(entries.last().path@)
    } else {
        kept_paths(entries.drop_last())
    }
}

/// Sorts paths into ascending lexicographic order by selection of the
/// least remaining element.
fn sort_paths(input: Vec<String>) -> (out: Vec<String>)
    ensures
        sorted_by(out.deep_view(), lex_leq()),
        out.deep_view().to_multiset() == input.deep_view().to_multiset(),
{
    let mut rest = input;
    let ghost all = rest.deep_view();
    let mut out: Vec<String> = Vec::new();
    proof {
        assert(out.deep_view() =~= Seq::<Seq<char>>::empty());
        assert(out.deep_view().to_multiset().add(rest.deep_view().to_multiset()) =~= all
            .to_multiset());
    }
    while rest.len() > 0
        invariant
            sorted_by(out.deep_view(), lex_leq()),
            out.deep_view().to_multiset().add(rest.deep_view().to_multiset()) == all.to_multiset(),
            forall|a: int, b: int|
                0 <= a < out.len() && 0 <= b < rest.len() ==> lex_le(
                    #[trigger] out.deep_view()[a],
                    #[trigger] rest.deep_view()[b],
                ),
        decreases rest.len(),
    {
        let mut mi: usize = 0;
        let mut j: usize = 1;
        proof {
            crate::text::lemma_lex_le_refl(rest.deep_view()[0]);
        }
        while j < rest.len()
            invariant
                rest.len() > 0,
                mi < j,
                j <= rest.len(),
                forall|k: int|
                    0 <= k < j ==> lex_le(rest.deep_view()[mi as int], #[trigger] rest.deep_view()[k]),
            decreases rest.len() - j,
        {
            if str_le(&rest[j], &rest[mi]) {
                proof {
                    assert forall|k: int| 0 <= k < j + 1 implies lex_le(
                        rest.deep_view()[j as int],
                        #[trigger] rest.deep_view()[k],
                    ) by {
                        if k == j {
                            crate::text::lemma_lex_le_refl(rest.deep_view()[j as int]);
                        } else {
                            lemma_lex_le_trans(
                                rest.deep_view()[j as int],
                                rest.deep_view()[mi as int],
                                rest.deep_view()[k],
                            );
                        }
                    }
                }
                mi = j;
            } else {
                proof {
                    lemma_lex_le_total(rest.deep_view()[mi as int], rest.deep_view()[j as int]);
                }
            }
            j = j + 1;
        }
        let ghost prev_out = out.deep_view();
        let ghost prev_rest = rest.deep_view();
        let x = rest.remove(mi);
        out.push(x);
        proof {
            assert(out.deep_view() =~= prev_out.push(prev_rest[mi as int]));
            assert(rest.deep_view() =~= prev_rest.remove(mi as int));
            assert(prev_rest.to_multiset().contains(prev_rest[mi as int]));
            assert(out.deep_view().to_multiset().add(rest.deep_view().to_multiset()) =~= all
                .to_multiset());
            assert forall|a: int, b: int|
                0 <= a < out.len() && 0 <= b < rest.len() implies lex_le(
                #[trigger] out.deep_view()[a],
                #[trigger] rest.deep_view()[b],
            ) by {
                let xb = rest.deep_view()[b];
                assert(xb == prev_rest[if b < mi {
                    b
                } else {
                    b + 1
                }]);
                if a < prev_out.len() {
                    assert(lex_le(prev_out[a], xb));
                } else {
                    assert(out.deep_view()[a] == prev_rest[mi as int]);
                    assert(lex_le(prev_rest[mi as int], xb));
                }
            }
            assert(sorted_by(out.deep_view(), lex_leq()));
        }
    }
    proof {
        assert(rest.deep_view() =~= Seq::<Seq<char>>::empty());
        assert(out.deep_view().to_multiset() =~= all.to_multiset());
    }
    out
}

/// Selects the entries a bootstrap pass migrates and puts them in
/// ascending path order, the deterministic order in which they are then
/// relocated.
pub fn arrange_entries(entries: Vec<ListingEntry>) -> (out: Vec<String>)
    ensures
        sorted_by(out.deep_view(), lex_leq()),
        out.deep_view().to_multiset() == kept_paths(entries@).to_multiset(),
{
    let mut kept: Vec<String> = Vec::new();
    let mut i: usize = 0;
    proof {
        assert(kept.deep_view() =~= kept_paths(entries@.take(0)));
    }
    while i < entries.len()
        invariant
            i <= entries.len(),
            kept.deep_view() == kept_paths(entries@.take(i as int)),
        decreases entries.len() - i,
    {
        let ghost prev = kept.deep_view();
        let e = &entries[i];
        if !e.is_dir || !e.exists {
            kept.push(e.path.clone());
            proof {
                assert(kept.deep_view() =~= prev.push(entries@[i as int].path@));
            }
        }
        proof {
            assert(entries@.take(i + 1).drop_last() =~= entries@.take(i as int));
            assert(entries@.take(i + 1).last() == entries@[i as int]);
        }
        i = i + 1;
    }
    proof {
        assert(entries@.take(entries@.len() as int) =~= entries@);
    }
    sort_paths(kept)
}

/// The four category subdirectories of a root, in the fixed order in
/// which a bootstrap pass creates them.
pub open spec fn category_dir_paths(dir: Seq<char>) -> Seq<Seq<char>> {
    seq![
        dir + "/"@ + "docs"@,
        dir + "/"@ + "etc"@,
        dir + "/"@ + "media"@,
        dir + "/"@ + "programming"@,
    ]
}

/// The paths of the category subdirectories to create under `directory`.
/// Creating one that already exists is not an error to the caller: the
/// pass is idempotent, and each of the four is attempted independently.
pub fn plan_initial_directories(directory: &str) -> (v: Vec<String>)
    ensures
        v.deep_view() == category_dir_paths(directory@),
{
    let mut v: Vec<String> = Vec::new();
    let mut docs = String::new();
    docs.append(directory);
    docs.append("/");
    docs.append("docs");
    v.push(docs);
    let mut etc = String::new();
    etc.append(directory);
    etc.append("/");
    etc.append("etc");
    v.push(etc);
    let mut media = String::new();
    media.append(directory);
    media.append("/");
    media.append("media");
    v.push(media);
    let mut programming = String::new();
    programming.append(directory);
    programming.append("/");
    programming.append("programming");
    v.push(programming);
    proof {
        assert(v.deep_view() =~= category_dir_paths(directory@));
    }
    v
}

/// The migration list is determined by the set of kept paths alone: any
/// two lists that are sorted and carry the same paths are equal. With
/// `arrange_entries`'s contract this makes a bootstrap pass deterministic
/// — listing order does not matter, and a second pass over an unchanged
/// directory reproduces the same list.
pub proof fn lemma_arranged_unique(r1: Seq<Seq<char>>, r2: Seq<Seq<char>>)
    requires
        sorted_by(r1, lex_leq()),
        sorted_by(r2, lex_leq()),
        r1.to_multiset() == r2.to_multiset(),
    ensures
        r1 == r2,
{
    lemma_lex_total_ordering();
    lemma_sorted_unique(r1, r2, lex_leq());
}

/// A listing whose entries are all live directories — a freshly
/// bootstrapped root with no new files, where only the category folders
/// remain at top level — keeps nothing to migrate.
pub proof fn lemma_all_directories_keep_none(entries: Seq<ListingEntry>)
    requires
        forall|i: int|
            0 <= i < entries.len() ==> (#[trigger] entries[i]).is_dir && entries[i].exists,
    ensures
        kept_paths(entries) == Seq::<Seq<char>>::empty(),
    decreases entries.len(),
{
    if entries.len() > 0 {
        lemma_all_directories_keep_none(entries.drop_last());
    }
}

} // verus!
