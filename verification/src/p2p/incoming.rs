//! The files that peers have sent.
use super::protocol::{IncomingFile, IncomingView};
use crate::reply::incoming_views;
use crate::sort::{
    in_order, is_sorting, law_first_different_character_decides, law_order_leaves_no_choice,
    law_sorting_keeps_the_number, law_text_comes_before_what_continues_it,
    law_text_order_is_total, sort_by_name, text_le, with_name, HasName, Named,
};
use vstd::prelude::*;

verus! {

impl HasName for IncomingFile {
    open spec fn name(&self) -> Seq<char> {
        self.filename@
    }
}

impl Named for IncomingFile {
    fn name_text(&self) -> &str {
        self.filename.as_str()
    }
}

/// What is told of a file has the name of the file.
impl HasName for IncomingView {
    open spec fn name(&self) -> Seq<char> {
        self.filename
    }
}

/// A search through the directories of the files from peers, one peer after the
/// other. Directories stand as numbers.
#[derive(Debug, PartialEq, Eq)]
pub struct IncomingScan {
    /// The peer whose directory is searched.
    pub peer: String,
    /// The directories still to be searched, the next one last.
    pub stack: Vec<usize>,
    /// The files found.
    pub files: Vec<IncomingFile>,
}

impl IncomingScan {
    /// Nothing searched, nothing found.
    pub fn new() -> (scan: Self)
        ensures
            scan.peer@ == Seq::<char>::empty(),
            scan.stack@.len() == 0,
            scan.files@.len() == 0,
    {
        IncomingScan { peer: String::new(), stack: Vec::new(), files: Vec::new() }
    }

    /// Takes in an entry beside the directories of the peers. A directory belongs
    /// to the peer it is named after and is searched next, and anything else is
    /// passed over. Tells whether the entry is searched.
    pub fn top_entry(&mut self, name: String, is_dir: bool, dir: usize) -> (searched: bool)
        ensures
            searched == is_dir,
            final(self).peer == if searched {
                name
            } else {
                old(self).peer
            },
            final(self).stack@ == if searched {
                seq![dir]
            } else {
                old(self).stack@
            },
            final(self).files@ == old(self).files@,
    {
        if !is_dir {
            return false;
        }
        self.peer = name;
        self.stack = Vec::new();
        self.stack.push(dir);
        assert(self.stack@ =~= seq![dir]);
        true
    }

    /// The directory to be searched next, if any is left.
    pub fn next_dir(&mut self) -> (dir: Option<usize>)
        ensures
            final(self).peer == old(self).peer,
            final(self).files@ == old(self).files@,
            match dir {
                Some(d) => old(self).stack@ == final(self).stack@.push(d),
                None => old(self).stack@.len() == 0 && final(self).stack@.len() == 0,
            },
    {
        let ghost before = self.stack@;
        let dir = self.stack.pop();
        assert(dir is Some ==> before =~= self.stack@.push(dir->Some_0));
        dir
    }

    /// Takes in an entry below the directory of the peer. A directory is to be
    /// searched, before those that were found earlier, and anything else is a file
    /// to be noted. Tells whether the entry is searched.
    pub fn entry_below(&mut self, is_dir: bool, dir: usize) -> (searched: bool)
        ensures
            searched == is_dir,
            final(self).peer == old(self).peer,
            final(self).stack@ == if searched {
                old(self).stack@.push(dir)
            } else {
                old(self).stack@
            },
            final(self).files@ == old(self).files@,
    {
        if is_dir {
            self.stack.push(dir);
        }
        is_dir
    }

    /// Notes a file that was found, by its path below the directory of the peer.
    pub fn add_file(&mut self, relative: String, size: u64)
        ensures
            final(self).peer == old(self).peer,
            final(self).stack@ == old(self).stack@,
            incoming_views(final(self).files@) == incoming_views(old(self).files@).push(
                IncomingView { from_peer: old(self).peer@, filename: relative@, size },
            ),
    {
        let file = IncomingFile { from_peer: self.peer.clone(), filename: relative, size };
        let ghost before = self.files@;
        let ghost noted = file@;
        self.files.push(file);
        assert(incoming_views(self.files@) =~= incoming_views(before).push(noted));
    }

    /// The files found, in the order of their paths. Files of the same path stay
    /// in the order in which they were found.
    pub fn finish(self) -> (files: Vec<IncomingFile>)
        ensures
            is_sorting(incoming_views(files@), incoming_views(self.files@)),
    {
        let ghost found = self.files@;
        let files = sort_by_name(self.files);
        proof {
            lemma_views_are_sorted(files@, found);
        }
        files
    }
}

/// Where files are put in order, so is what is told of them.
proof fn lemma_views_are_sorted(sorted: Seq<IncomingFile>, files: Seq<IncomingFile>)
    requires
        is_sorting(sorted, files),
    ensures
        is_sorting(incoming_views(sorted), incoming_views(files)),
{
    assert(forall|i: int|
        0 <= i < sorted.len() ==> #[trigger] incoming_views(sorted)[i].name()
            == sorted[i].name());
    assert forall|name: Seq<char>| #[trigger] with_name(incoming_views(sorted), name) == with_name(
        incoming_views(files),
        name,
    ) by {
        lemma_views_with_name(sorted, name);
        lemma_views_with_name(files, name);
        assert(with_name(sorted, name) == with_name(files, name));
    }
}

/// What is told of the files of a given name has that name.
proof fn lemma_views_with_name(files: Seq<IncomingFile>, name: Seq<char>)
    ensures
        with_name(incoming_views(files), name) == incoming_views(with_name(files, name)),
    decreases files.len(),
{
    reveal(Seq::filter);
    if files.len() > 0 {
        lemma_views_with_name(files.drop_last(), name);
        assert(incoming_views(files).drop_last() =~= incoming_views(files.drop_last()));
        assert(incoming_views(files).last() == files.last()@);
        if files.last().filename@ == name {
            assert(incoming_views(with_name(files, name)) =~= incoming_views(
                with_name(files.drop_last(), name),
            ).push(files.last()@));
        }
    } else {
        assert(with_name(incoming_views(files), name) =~= incoming_views(with_name(files, name)));
    }
}

/// In a sorted list of files from peers, a later path never has the lesser character
/// where it first differs from an earlier one, nor does it break off where that one
/// goes on; and no file is lost or added.
pub proof fn law_sorted_files_go_up(
    sorted: Seq<IncomingView>,
    files: Seq<IncomingView>,
    i: int,
    j: int,
    beginning: Seq<char>,
    c: char,
    d: char,
    rest: Seq<char>,
    other: Seq<char>,
)
    requires
        is_sorting(sorted, files),
        0 <= i < j < sorted.len(),
    ensures
        sorted[i].filename == beginning.push(c) + rest && sorted[j].filename == beginning.push(d)
            + other ==> c <= d,
        sorted[i].filename != sorted[j].filename + (seq![c] + rest),
        sorted.to_multiset() == files.to_multiset(),
{
    assert(text_le(sorted[i].name(), sorted[j].name()));
    if d < c {
        law_first_different_character_decides(beginning, d, c, other, rest);
    }
    law_text_comes_before_what_continues_it(sorted[j].filename, seq![c] + rest);
    law_sorting_keeps_the_number(sorted, files);
}

/// Files of the same path stay in the order in which they were found: of a list of such
/// files nothing is moved.
pub proof fn law_files_of_one_path_stay_in_order(
    sorted: Seq<IncomingView>,
    files: Seq<IncomingView>,
)
    requires
        is_sorting(sorted, files),
        forall|i: int, j: int|
            0 <= i < files.len() && 0 <= j < files.len() ==> (#[trigger] files[i]).filename == (
            #[trigger] files[j]).filename,
    ensures
        sorted == files,
{
    assert(in_order(files)) by {
        assert forall|i: int, j: int| 0 <= i < j < files.len() implies text_le(
            (#[trigger] files[i]).name(),
            (#[trigger] files[j]).name(),
        ) by {
            law_text_order_is_total(files[i].name(), files[j].name());
        }
    }
    law_order_leaves_no_choice(sorted, files);
}

/// Beside the directories of the peers, a directory is searched as that of the peer it
/// is named after, and anything else is passed over. What was found stays found.
pub proof fn law_directories_of_peers_are_searched(
    scan: &mut IncomingScan,
    name: String,
    is_dir: bool,
    dir: usize,
    searched: bool,
)
    requires
        call_ensures(IncomingScan::top_entry, (scan, name, is_dir, dir), searched),
    ensures
        searched <==> is_dir,
        is_dir ==> final(scan).peer@ == name@ && final(scan).stack@ == seq![dir],
        !is_dir ==> final(scan).peer@ == old(scan).peer@ && final(scan).stack@
            == old(scan).stack@,
        final(scan).files@ == old(scan).files@,
{
}

/// Below the directory of a peer, every directory is searched later, once, and the one
/// found last comes first: it is what the search turns to next.
pub proof fn law_directory_found_last_is_searched_next(
    scan: &mut IncomingScan,
    is_dir: bool,
    dir: usize,
    searched: bool,
    after: &mut IncomingScan,
    next: Option<usize>,
)
    requires
        call_ensures(IncomingScan::entry_below, (scan, is_dir, dir), searched),
        *after == *final(scan),
        call_ensures(IncomingScan::next_dir, (after,), next),
    ensures
        searched <==> is_dir,
        is_dir ==> next == Some(dir) && final(after).stack@ == old(scan).stack@,
        !is_dir && old(scan).stack@.len() == 0 ==> next is None,
        !is_dir && old(scan).stack@.len() > 0 ==> next == Some(old(scan).stack@.last())
            && final(after).stack@ == old(scan).stack@.drop_last(),
        final(after).peer@ == old(scan).peer@,
        final(after).files@ == old(scan).files@,
{
    if let Some(d) = next {
        assert(final(after).stack@.push(d).drop_last() =~= final(after).stack@);
        assert(final(after).stack@.push(d).last() == d);
        if is_dir {
            assert(old(scan).stack@.push(dir).drop_last() =~= old(scan).stack@);
            assert(old(scan).stack@.push(dir).last() == dir);
        }
    }
}

/// A file that was found is noted behind those found before it, with the peer whose
/// directory is searched, with its path below it, letter for letter, and its size.
pub proof fn law_file_found_is_noted(
    scan: &mut IncomingScan,
    relative: String,
    size: u64,
)
    requires
        call_ensures(IncomingScan::add_file, (scan, relative, size), ()),
    ensures
        final(scan).files@.len() == old(scan).files@.len() + 1,
        final(scan).files@.last().from_peer@ == old(scan).peer@,
        final(scan).files@.last().filename@ == relative@,
        final(scan).files@.last().size == size,
        forall|i: int|
            0 <= i < old(scan).files@.len() ==> (#[trigger] final(scan).files@[i])@
                == old(scan).files@[i]@,
        final(scan).peer@ == old(scan).peer@,
        final(scan).stack@ == old(scan).stack@,
{
    let before = incoming_views(old(scan).files@);
    let after = incoming_views(final(scan).files@);
    assert(after.len() == final(scan).files@.len());
    assert(before.len() == old(scan).files@.len());
    assert(after[before.len() as int] == final(scan).files@.last()@);
    assert forall|i: int| 0 <= i < old(scan).files@.len() implies (
    #[trigger] final(scan).files@[i])@ == old(scan).files@[i]@ by {
        assert(after[i] == before[i]);
        assert(after[i] == final(scan).files@[i]@);
        assert(before[i] == old(scan).files@[i]@);
    }
}

/// A search begins with nothing found and ends with just the files it found, each as
/// often as it was found.
pub proof fn law_search_ends_with_what_it_found(
    fresh: IncomingScan,
    scan: IncomingScan,
    files: Vec<IncomingFile>,
)
    requires
        call_ensures(IncomingScan::new, (), fresh),
        call_ensures(IncomingScan::finish, (scan,), files),
    ensures
        fresh.files@.len() == 0 && fresh.stack@.len() == 0 && fresh.peer@.len() == 0,
        incoming_views(files@).to_multiset() == incoming_views(scan.files@).to_multiset(),
        files@.len() == scan.files@.len(),
        forall|i: int, j: int|
            0 <= i < j < files@.len() ==> text_le(
                (#[trigger] files@[i]).filename@,
                (#[trigger] files@[j]).filename@,
            ),
{
    let told = incoming_views(files@);
    law_sorting_keeps_the_number(told, incoming_views(scan.files@));
    assert(told.len() == files@.len());
    assert(incoming_views(scan.files@).len() == scan.files@.len());
    assert forall|i: int, j: int| 0 <= i < j < files@.len() implies text_le(
        (#[trigger] files@[i]).filename@,
        (#[trigger] files@[j]).filename@,
    ) by {
        assert(told[i] == files@[i]@ && told[j] == files@[j]@);
        assert(text_le(told[i].name(), told[j].name()));
    }
}

} // verus!
