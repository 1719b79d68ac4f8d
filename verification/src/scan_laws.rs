//! What holds of every scan.

use vstd::prelude::*;
use crate::environment::EnvironmentModel;
use crate::paths::{interpreter_of, joined};
use crate::scanner::{
    diagnostic, found, is_marked, scan_entries, scan_entry, scan_listing, DirEntry, Listing,
};

verus! {

/// Whether `name` is the last component of `path`: `path` is some directory's
/// path with `name` adjoined.
pub open spec fn is_name_of(name: Seq<char>, path: Seq<char>) -> bool {
    exists|parent: Seq<char>| #[trigger] joined(parent, name) == path
}

/// Whether `path` is an environment root that has an interpreter.
pub open spec fn is_usable(path: Seq<char>, present: Set<Seq<char>>) -> bool {
    is_marked(path, present) && present.contains(interpreter_of(path))
}

/// The paths of all environment roots with an interpreter below `dir`, at any
/// depth, those inside another environment root included.
pub open spec fn usable_in_listing(dir: Seq<char>, listing: Listing, present: Set<Seq<char>>) -> Seq<
    Seq<char>,
>
    decreases listing,
{
    match listing {
        Listing::Unreadable(_) => Seq::empty(),
        Listing::Entries(entries) => usable_in_entries(dir, entries@, present),
    }
}

/// The environment roots with an interpreter at or below the given entries of
/// `dir`.
pub open spec fn usable_in_entries(
    dir: Seq<char>,
    entries: Seq<DirEntry>,
    present: Set<Seq<char>>,
) -> Seq<Seq<char>>
    decreases entries,
{
    if entries.len() == 0 {
        Seq::empty()
    } else {
        usable_in_entries(dir, entries.drop_last(), present) + usable_in_entry(
            dir,
            entries.last(),
            present,
        )
    }
}

/// The environment roots with an interpreter at or below one entry of `dir`.
pub open spec fn usable_in_entry(dir: Seq<char>, entry: DirEntry, present: Set<Seq<char>>) -> Seq<
    Seq<char>,
>
    decreases entry,
{
    let path = joined(dir, entry.name@);
    if !entry.is_dir {
        Seq::empty()
    } else if is_usable(path, present) {
        seq![path] + usable_in_listing(path, entry.listing, present)
    } else {
        usable_in_listing(path, entry.listing, present)
    }
}

/// Every directory that a scan of `dir` lists could be listed, and no
/// environment root that it finds holds one with an interpreter below it.
pub open spec fn listing_plain(dir: Seq<char>, listing: Listing, present: Set<Seq<char>>) -> bool
    decreases listing,
{
    match listing {
        Listing::Unreadable(_) => false,
        Listing::Entries(entries) => entries_plain(dir, entries@, present),
    }
}

/// [`listing_plain`], of the given entries of `dir`.
pub open spec fn entries_plain(
    dir: Seq<char>,
    entries: Seq<DirEntry>,
    present: Set<Seq<char>>,
) -> bool
    decreases entries,
{
    entries.len() == 0 || (entries_plain(dir, entries.drop_last(), present) && entry_plain(
        dir,
        entries.last(),
        present,
    ))
}

/// [`listing_plain`], of one entry of `dir`.
pub open spec fn entry_plain(dir: Seq<char>, entry: DirEntry, present: Set<Seq<char>>) -> bool
    decreases entry,
{
    let path = joined(dir, entry.name@);
    if !entry.is_dir {
        true
    } else if is_marked(path, present) {
        usable_in_listing(path, entry.listing, present).len() == 0
    } else {
        listing_plain(path, entry.listing, present)
    }
}

proof fn lemma_no_root_listing(dir: Seq<char>, listing: Listing, present: Set<Seq<char>>)
    requires
        listing_plain(dir, listing, present),
        usable_in_listing(dir, listing, present).len() == 0,
    ensures
        scan_listing(dir, listing, present) == Seq::<EnvironmentModel>::empty(),
    decreases listing, 0nat,
{
    match listing {
        Listing::Unreadable(_) => {},
        Listing::Entries(entries) => {
            lemma_no_root_entries(dir, entries@, present);
        },
    }
}

proof fn lemma_no_root_entries(dir: Seq<char>, entries: Seq<DirEntry>, present: Set<Seq<char>>)
    requires
        entries_plain(dir, entries, present),
        usable_in_entries(dir, entries, present).len() == 0,
    ensures
        scan_entries(dir, entries, present) == Seq::<EnvironmentModel>::empty(),
    decreases entries, 0nat,
{
    if entries.len() > 0 {
        lemma_no_root_entries(dir, entries.drop_last(), present);
        lemma_no_root_entry(dir, entries.last(), present);
        assert(scan_entries(dir, entries, present) =~= Seq::<EnvironmentModel>::empty());
    }
}

proof fn lemma_no_root_entry(dir: Seq<char>, entry: DirEntry, present: Set<Seq<char>>)
    requires
        entry_plain(dir, entry, present),
        usable_in_entry(dir, entry, present).len() == 0,
    ensures
        scan_entry(dir, entry, present) == Seq::<EnvironmentModel>::empty(),
    decreases entry, 0nat,
{
    let path = joined(dir, entry.name@);
    if entry.is_dir && !is_marked(path, present) {
        lemma_no_root_listing(path, entry.listing, present);
    }
}

proof fn lemma_one_root_listing(
    dir: Seq<char>,
    listing: Listing,
    present: Set<Seq<char>>,
    root: Seq<char>,
)
    requires
        listing_plain(dir, listing, present),
        usable_in_listing(dir, listing, present) == seq![root],
    ensures
        scan_listing(dir, listing, present).len() == 1,
        scan_listing(dir, listing, present)[0].python_path == interpreter_of(root),
        is_name_of(scan_listing(dir, listing, present)[0].name, root),
        present.contains(interpreter_of(root)),
    decreases listing, 0nat,
{
    match listing {
        Listing::Unreadable(_) => {},
        Listing::Entries(entries) => {
            lemma_one_root_entries(dir, entries@, present, root);
        },
    }
}

proof fn lemma_one_root_entries(
    dir: Seq<char>,
    entries: Seq<DirEntry>,
    present: Set<Seq<char>>,
    root: Seq<char>,
)
    requires
        entries_plain(dir, entries, present),
        usable_in_entries(dir, entries, present) == seq![root],
    ensures
        scan_entries(dir, entries, present).len() == 1,
        scan_entries(dir, entries, present)[0].python_path == interpreter_of(root),
        is_name_of(scan_entries(dir, entries, present)[0].name, root),
        present.contains(interpreter_of(root)),
    decreases entries, 0nat,
{
    assert(seq![root].len() == 1);
    if entries.len() > 0 {
        let init = usable_in_entries(dir, entries.drop_last(), present);
        let tail = usable_in_entry(dir, entries.last(), present);
        assert((init + tail).len() == 1);
        assert((init + tail)[0] == root);
        if init.len() == 0 {
            assert(tail =~= seq![root]);
            lemma_no_root_entries(dir, entries.drop_last(), present);
            lemma_one_root_entry(dir, entries.last(), present, root);
        } else {
            assert(init =~= seq![root]);
            lemma_one_root_entries(dir, entries.drop_last(), present, root);
            lemma_no_root_entry(dir, entries.last(), present);
        }
    }
}

proof fn lemma_one_root_entry(
    dir: Seq<char>,
    entry: DirEntry,
    present: Set<Seq<char>>,
    root: Seq<char>,
)
    requires
        entry_plain(dir, entry, present),
        usable_in_entry(dir, entry, present) == seq![root],
    ensures
        scan_entry(dir, entry, present).len() == 1,
        scan_entry(dir, entry, present)[0].python_path == interpreter_of(root),
        is_name_of(scan_entry(dir, entry, present)[0].name, root),
        present.contains(interpreter_of(root)),
    decreases entry, 0nat,
{
    assert(seq![root].len() == 1);
    let path = joined(dir, entry.name@);
    if entry.is_dir {
        let inner = usable_in_listing(path, entry.listing, present);
        if is_usable(path, present) {
            assert((seq![path] + inner)[0] == path);
            assert(path == root);
            assert(joined(dir, entry.name@) == root);
        } else if !is_marked(path, present) {
            lemma_one_root_listing(path, entry.listing, present, root);
        }
    }
}

/// Where a tree holds exactly one environment root with an interpreter, no
/// other environment root lies above it, and every directory that the scan
/// lists can be listed, the scan yields exactly one record: its name is the
/// root's own name, and its path is that of the interpreter, which exists.
pub proof fn lemma_single_environment(
    dir: Seq<char>,
    listing: Listing,
    present: Set<Seq<char>>,
    root: Seq<char>,
)
    requires
        listing_plain(dir, listing, present),
        usable_in_listing(dir, listing, present) == seq![root],
    ensures
        scan_listing(dir, listing, present).len() == 1,
        scan_listing(dir, listing, present)[0].python_path == interpreter_of(root),
        is_name_of(scan_listing(dir, listing, present)[0].name, root),
        present.contains(interpreter_of(root)),
{
    lemma_one_root_listing(dir, listing, present, root);
}

/// An environment root is not descended into: what it yields does not depend
/// on what it holds, and it yields nothing where it has no interpreter.
pub proof fn lemma_environment_not_descended(
    dir: Seq<char>,
    entry: DirEntry,
    other: DirEntry,
    present: Set<Seq<char>>,
)
    requires
        entry.is_dir,
        other.is_dir,
        entry.name@ == other.name@,
        is_marked(joined(dir, entry.name@), present),
    ensures
        scan_entry(dir, entry, present) == scan_entry(dir, other, present),
        !present.contains(interpreter_of(joined(dir, entry.name@))) ==> scan_entry(
            dir,
            entry,
            present,
        ) == Seq::<EnvironmentModel>::empty(),
        present.contains(interpreter_of(joined(dir, entry.name@))) ==> scan_entry(
            dir,
            entry,
            present,
        ) == seq![found(entry.name@, joined(dir, entry.name@))],
{
}

/// The entries of a directory are scanned one after the other: what a list of
/// entries yields is what its first part yields, then what the rest yields.
pub proof fn lemma_scan_entries_concat(
    dir: Seq<char>,
    first: Seq<DirEntry>,
    rest: Seq<DirEntry>,
    present: Set<Seq<char>>,
)
    ensures
        scan_entries(dir, first + rest, present) == scan_entries(dir, first, present)
            + scan_entries(dir, rest, present),
    decreases rest.len(),
{
    if rest.len() == 0 {
        assert(first + rest =~= first);
        assert(scan_entries(dir, first, present) + Seq::<EnvironmentModel>::empty() =~= scan_entries(
            dir,
            first,
            present,
        ));
    } else {
        assert((first + rest).drop_last() =~= first + rest.drop_last());
        assert((first + rest).last() == rest.last());
        lemma_scan_entries_concat(dir, first, rest.drop_last(), present);
        assert(scan_entries(dir, first + rest, present) =~= scan_entries(dir, first, present)
            + scan_entries(dir, rest, present));
    }
}

/// A directory that cannot be listed yields exactly one record, which has no
/// interpreter path, and the entries before and after it are scanned as if it
/// were not there.
pub proof fn lemma_unreadable_directory(
    dir: Seq<char>,
    before: Seq<DirEntry>,
    entry: DirEntry,
    after: Seq<DirEntry>,
    present: Set<Seq<char>>,
)
    requires
        entry.is_dir,
        !is_marked(joined(dir, entry.name@), present),
        entry.listing is Unreadable,
    ensures
        scan_entry(dir, entry, present) == seq![
            diagnostic(joined(dir, entry.name@), entry.listing->Unreadable_0@),
        ],
        scan_entry(dir, entry, present)[0].python_path.len() == 0,
        scan_entries(dir, before + seq![entry] + after, present) == scan_entries(
            dir,
            before,
            present,
        ) + scan_entry(dir, entry, present) + scan_entries(dir, after, present),
{
    lemma_scan_entries_concat(dir, before + seq![entry], after, present);
    lemma_scan_entries_concat(dir, before, seq![entry], present);
    assert(seq![entry].drop_last() =~= Seq::<DirEntry>::empty());
    assert(seq![entry].last() == entry);
    assert(scan_entries(dir, Seq::<DirEntry>::empty(), present) =~= Seq::<EnvironmentModel>::empty());
    assert(scan_entries(dir, seq![entry], present) =~= scan_entry(dir, entry, present));
}

} // verus!
