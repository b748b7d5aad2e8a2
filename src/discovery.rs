use vstd::prelude::*;
use crate::text::{
    last_index_exec, last_index_of, lemma_filter_members, lemma_filter_no_duplicates, same_text, views,
};

verus! {

/// The extension of a file name: what follows its last '.', where that dot
/// is neither absent nor the name's first character.
pub open spec fn extension_of(name: Seq<char>) -> Option<Seq<char>> {
    let k = last_index_of(name, '.');
    if k <= 0 {
        None
    } else {
        Some(name.subrange(k + 1, name.len() as int))
    }
}

/// The extensions of dynamic libraries on Windows, macOS and Linux.
pub open spec fn is_library_extension(e: Seq<char>) -> bool {
    e == "dll"@ || e == "dylib"@ || e == "so"@
}

/// Whether a file name names a dynamic library.
pub open spec fn is_plugin_file_name(name: Seq<char>) -> bool {
    match extension_of(name) {
        Some(e) => is_library_extension(e),
        None => false,
    }
}

/// The plugin candidates among the names of a directory's entries, in the
/// order the entries came.
pub open spec fn plugin_names_of(entries: Seq<Seq<char>>) -> Seq<Seq<char>> {
    entries.filter(|n: Seq<char>| is_plugin_file_name(n))
}

/// The extension of `name`, if it has one.
pub fn extension(name: &str) -> (r: Option<&str>)
    ensures
        match r {
            Some(e) => extension_of(name@) == Some(e@),
            None => extension_of(name@) is None,
        },
{
    let n = name.unicode_len();
    match last_index_exec(name, '.') {
        Some(k) => {
            if k == 0 {
                None
            } else {
                Some(name.substring_char(k + 1, n))
            }
        },
        None => None,
    }
}

/// Tests whether `name` names a dynamic library, by its extension alone; the
/// file itself is not read.
pub fn is_dynamic_library(name: &str) -> (r: bool)
    ensures
        r == is_plugin_file_name(name@),
{
    match extension(name) {
        Some(e) => same_text(e, "dll") || same_text(e, "dylib") || same_text(e, "so"),
        None => false,
    }
}

/// The names among `entries` that name dynamic libraries, in their order.
/// Entries with no extension, or another one, are skipped silently.
pub fn get_plugin_names(entries: &Vec<String>) -> (r: Vec<String>)
    ensures
        views(r@) == plugin_names_of(views(entries@)),
{
    let mut libraries: Vec<String> = Vec::new();
    let mut i: usize = 0;
    while i < entries.len()
        invariant
            i <= entries@.len(),
            views(libraries@) == plugin_names_of(views(entries@).take(i as int)),
        decreases entries@.len() - i,
    {
        let name = &entries[i];
        let keep = is_dynamic_library(name.as_str());
        proof {
            let all = views(entries@);
            assert(all.take(i + 1).drop_last() =~= all.take(i as int));
            assert(all.take(i + 1).last() == name@);
            reveal(Seq::filter);
        }
        if keep {
            libraries.push(name.clone());
            assert(views(libraries@) =~= views(libraries@).drop_last().push(name@));
        }
        assert(views(libraries@) =~= plugin_names_of(views(entries@).take(i + 1)));
        i += 1;
    }
    assert(views(entries@).take(entries@.len() as int) =~= views(entries@));
    libraries
}

/// Discovery is a function of the directory's entries: two scans of the same
/// entries give the same names, and scanning what a scan returned gives it
/// back unchanged.
pub proof fn lemma_discovery_idempotent(first: Seq<Seq<char>>, second: Seq<Seq<char>>)
    requires
        first == second,
    ensures
        plugin_names_of(first) == plugin_names_of(second),
        plugin_names_of(plugin_names_of(first)) == plugin_names_of(first),
    decreases first.len(),
{
    reveal(Seq::filter);
    if first.len() > 0 {
        lemma_discovery_idempotent(first.drop_last(), first.drop_last());
        let rest = plugin_names_of(first.drop_last());
        if is_plugin_file_name(first.last()) {
            assert(rest.push(first.last()).drop_last() =~= rest);
        }
    }
}

/// A name is among those discovery returns exactly when it is one of the
/// directory's entries and has a dynamic library's extension; and where the
/// entries are distinct, so are the names returned.
pub proof fn lemma_discovery_members(entries: Seq<Seq<char>>, name: Seq<char>)
    ensures
        plugin_names_of(entries).contains(name) <==> (entries.contains(name) && is_plugin_file_name(
            name,
        )),
        entries.no_duplicates() ==> plugin_names_of(entries).no_duplicates(),
{
    let pred = |n: Seq<char>| is_plugin_file_name(n);
    lemma_filter_members(entries, pred, name);
    if entries.no_duplicates() {
        lemma_filter_no_duplicates(entries, pred);
    }
}

/// Entries that do not name a dynamic library (another extension, or none)
/// never change what discovery returns, wherever they stand among the others.
pub proof fn lemma_discovery_ignores_other_files(
    before: Seq<Seq<char>>,
    others: Seq<Seq<char>>,
    after: Seq<Seq<char>>,
)
    requires
        forall|i: int| 0 <= i < others.len() ==> !is_plugin_file_name(#[trigger] others[i]),
    ensures
        plugin_names_of(before + others + after) == plugin_names_of(before + after),
{
    let pred = |n: Seq<char>| is_plugin_file_name(n);
    Seq::filter_distributes_over_add(before + others, after, pred);
    Seq::filter_distributes_over_add(before, others, pred);
    Seq::filter_distributes_over_add(before, after, pred);
    assert(others.all(|x: Seq<char>| !pred(x)));
    others.lemma_all_neg_filter_empty(pred);
    assert(before.filter(pred) + others.filter(pred) =~= before.filter(pred));
}

} // verus!
