//! The walk over a directory tree, as a worklist of directories still to be listed.
//!
//! The caller lists a directory and says what it found; the walk decides what is queued
//! and what is done with each entry.

use vstd::prelude::*;
use vstd::string::StringExecFns;

verus! {

/// One entry of a directory, as the caller found it.
#[derive(Clone, Debug, PartialEq, Eq)]
pub enum Listed {
    /// A directory, with its path.
    Directory(String),
    /// A regular file, with its path.
    File(String),
    /// An entry that is neither a directory nor a regular file, with its path. Nothing
    /// is done with it.
    Other(String),
    /// An entry that could not be read or whose type could not be told, with the cause.
    Unreadable(String),
}

/// What listing a directory gave.
#[derive(Clone, Debug, PartialEq, Eq)]
pub enum Listing {
    /// The directory could not be listed, with the cause.
    Failed(String),
    /// Its entries, in the order in which they were listed.
    Entries(Vec<Listed>),
}

/// What the caller is to do.
#[derive(Clone, Debug, PartialEq, Eq)]
pub enum Action {
    /// Process the file at this path.
    Process(String),
    /// Report that an entry of `dir` was skipped.
    ReportEntry { dir: String, cause: String },
    /// Report that `dir` could not be listed and was left out.
    ReportListing { dir: String, cause: String },
}

/// The directories among the entries, in order.
pub open spec fn queued(entries: Seq<Listed>) -> Seq<String>
    decreases entries.len(),
{
    if entries.len() == 0 {
        Seq::empty()
    } else {
        let rest = queued(entries.drop_last());
        match entries.last() {
            Listed::Directory(path) => rest.push(path),
            _ => rest,
        }
    }
}

/// One action for each regular file and for each entry that could not be read, in order.
pub open spec fn entry_actions(dir: String, entries: Seq<Listed>) -> Seq<Action>
    decreases entries.len(),
{
    if entries.len() == 0 {
        Seq::empty()
    } else {
        let rest = entry_actions(dir, entries.drop_last());
        match entries.last() {
            Listed::Directory(_) | Listed::Other(_) => rest,
            Listed::File(path) => rest.push(Action::Process(path)),
            Listed::Unreadable(cause) => rest.push(Action::ReportEntry { dir, cause }),
        }
    }
}

/// The actions for a listing of `dir`.
pub open spec fn listing_actions(dir: String, listing: Listing) -> Seq<Action> {
    match listing {
        Listing::Failed(cause) => seq![Action::ReportListing { dir, cause }],
        Listing::Entries(entries) => entry_actions(dir, entries@),
    }
}

/// The directories that a listing adds to the worklist.
pub open spec fn listing_queued(listing: Listing) -> Seq<String> {
    match listing {
        Listing::Failed(_) => Seq::empty(),
        Listing::Entries(entries) => queued(entries@),
    }
}

/// The directories that are still to be listed; the last one is listed next.
pub struct Walk {
    pending: Vec<String>,
}

impl View for Walk {
    type V = Seq<String>;

    closed spec fn view(&self) -> Seq<String> {
        self.pending@
    }
}

impl Walk {
    /// A walk that starts at the directory `root`.
    pub fn new(root: String) -> (walk: Walk)
        ensures
            walk@ == seq![root],
    {
        let mut pending: Vec<String> = Vec::new();
        pending.push(root);
        assert(pending@ =~= seq![root]);
        Walk { pending }
    }

    /// Takes the directory to list next, or says that the walk is over.
    pub fn next(&mut self) -> (dir: Option<String>)
        ensures
            match dir {
                Some(d) => old(self)@.len() > 0 && d == old(self)@.last() && final(self)@ == old(
                    self,
                )@.drop_last(),
                None => old(self)@.len() == 0 && final(self)@ == old(self)@,
            },
    {
        self.pending.pop()
    }

    /// Takes in the listing of `dir`. Its directories are queued. A regular file is to be
    /// processed, an entry that could not be read is reported and skipped, and an entry
    /// of any other kind gives no action. A directory that could not be listed is
    /// reported and left out, and what was queued before stays queued.
    pub fn absorb(&mut self, dir: &String, listing: &Listing) -> (actions: Vec<Action>)
        ensures
            final(self)@ == old(self)@ + listing_queued(*listing),
            actions@ == listing_actions(*dir, *listing),
    {
        let mut actions: Vec<Action> = Vec::new();
        match listing {
            Listing::Failed(cause) => {
                actions.push(Action::ReportListing { dir: dir.clone(), cause: cause.clone() });
                assert(actions@ =~= listing_actions(*dir, *listing));
                assert(self@ =~= old(self)@ + listing_queued(*listing));
            },
            Listing::Entries(entries) => {
                let mut i: usize = 0;
                assert(entries@.take(0).len() == 0);
                assert(self@ =~= old(self)@ + queued(entries@.take(0)));
                while i < entries.len()
                    invariant
                        i <= entries@.len(),
                        self@ == old(self)@ + queued(entries@.take(i as int)),
                        actions@ == entry_actions(*dir, entries@.take(i as int)),
                    decreases entries@.len() - i,
                {
                    assert(entries@.take(i + 1).drop_last() =~= entries@.take(i as int));
                    assert(entries@.take(i + 1).last() == entries@[i as int]);
                    match &entries[i] {
                        Listed::Directory(path) => {
                            self.pending.push(path.clone());
                            assert(self@ =~= old(self)@ + queued(entries@.take(i + 1)));
                        },
                        Listed::File(path) => {
                            actions.push(Action::Process(path.clone()));
                        },
                        Listed::Other(_) => {},
                        Listed::Unreadable(cause) => {
                            actions.push(
                                Action::ReportEntry { dir: dir.clone(), cause: cause.clone() },
                            );
                        },
                    }
                    i += 1;
                }
                assert(entries@.take(i as int) =~= entries@);
            },
        }
        actions
    }
}

/// The line that reports an action: the program's name, `error`, what was being done, the
/// directory and the cause, with a colon and a space between them. A file that is to be
/// processed is not reported.
pub open spec fn report_of(program: Seq<char>, action: Action) -> Option<Seq<char>> {
    match action {
        Action::Process(_) => None,
        Action::ReportEntry { dir, cause } => Some(
            program + ": error: read dir entry: "@ + dir@ + ": "@ + cause@,
        ),
        Action::ReportListing { dir, cause } => Some(
            program + ": error: read dir: "@ + dir@ + ": "@ + cause@,
        ),
    }
}

fn report_text(program: &str, context: &str, dir: &String, cause: &String) -> (line: String)
    ensures
        line@ == program@ + context@ + dir@ + ": "@ + cause@,
{
    let mut line = String::new();
    line.append(program);
    line.append(context);
    line.append(dir.as_str());
    line.append(": ");
    line.append(cause.as_str());
    assert(line@ =~= program@ + context@ + dir@ + ": "@ + cause@);
    line
}

/// The line to write to the diagnostic stream for an action, if it is a report.
pub fn report_line(program: &str, action: &Action) -> (line: Option<String>)
    ensures
        match report_of(program@, *action) {
            Some(text) => line is Some && line->0@ == text,
            None => line is None,
        },
{
    match action {
        Action::Process(_) => None,
        Action::ReportEntry { dir, cause } => Some(
            report_text(program, ": error: read dir entry: ", dir, cause),
        ),
        Action::ReportListing { dir, cause } => Some(
            report_text(program, ": error: read dir: ", dir, cause),
        ),
    }
}

/// The paths of the files among the entries, in order.
pub open spec fn files(entries: Seq<Listed>) -> Seq<String>
    decreases entries.len(),
{
    if entries.len() == 0 {
        Seq::empty()
    } else {
        let rest = files(entries.drop_last());
        match entries.last() {
            Listed::File(path) => rest.push(path),
            _ => rest,
        }
    }
}

/// The paths that a sequence of actions has processed, in order.
pub open spec fn processed(actions: Seq<Action>) -> Seq<String>
    decreases actions.len(),
{
    if actions.len() == 0 {
        Seq::empty()
    } else {
        let rest = processed(actions.drop_last());
        match actions.last() {
            Action::Process(path) => rest.push(path),
            _ => rest,
        }
    }
}

/// The files that the actions for a listing process are the files of the listing, each
/// once and in the listing's order, whatever else the listing holds.
pub proof fn files_processed_once(dir: String, entries: Seq<Listed>)
    ensures
        processed(entry_actions(dir, entries)) == files(entries),
    decreases entries.len(),
{
    if entries.len() > 0 {
        files_processed_once(dir, entries.drop_last());
        let rest = entry_actions(dir, entries.drop_last());
        match entries.last() {
            Listed::Directory(_) | Listed::Other(_) => {},
            Listed::File(path) => {
                assert(rest.push(Action::Process(path)).drop_last() =~= rest);
            },
            Listed::Unreadable(cause) => {
                assert(rest.push(Action::ReportEntry { dir, cause }).drop_last() =~= rest);
            },
        }
    }
}

proof fn files_counted(entries: Seq<Listed>, path: String)
    ensures
        files(entries).to_multiset().count(path) == entries.to_multiset().count(
            Listed::File(path),
        ),
        queued(entries).to_multiset().count(path) == entries.to_multiset().count(
            Listed::Directory(path),
        ),
    decreases entries.len(),
{
    broadcast use vstd::seq_lib::group_to_multiset_ensures;

    if entries.len() == 0 {
        assert(files(entries).to_multiset().len() == 0);
        assert(queued(entries).to_multiset().len() == 0);
        assert(entries.to_multiset().len() == 0);
    } else {
        let rest = entries.drop_last();
        files_counted(rest, path);
        assert(entries =~= rest.push(entries.last()));
        assert(entries.to_multiset() =~= rest.to_multiset().insert(entries.last()));
        match entries.last() {
            Listed::File(found) => {
                assert(files(entries).to_multiset() =~= files(rest).to_multiset().insert(found));
            },
            Listed::Directory(found) => {
                assert(queued(entries).to_multiset() =~= queued(rest).to_multiset().insert(
                    found,
                ));
            },
            _ => {},
        }
    }
}

/// The order in which a directory lists its entries changes neither which files are
/// processed, nor how often, nor which directories are queued: two listings that hold
/// the same entries give the same files and the same directories, order apart.
pub proof fn listing_order_keeps_files(first: Seq<Listed>, second: Seq<Listed>)
    requires
        first.to_multiset() == second.to_multiset(),
    ensures
        files(first).to_multiset() == files(second).to_multiset(),
        queued(first).to_multiset() == queued(second).to_multiset(),
{
    assert forall|path: String|
        files(first).to_multiset().count(path) == files(second).to_multiset().count(
            path,
        ) by {
        files_counted(first, path);
        files_counted(second, path);
    }
    assert forall|path: String|
        queued(first).to_multiset().count(path) == queued(second).to_multiset().count(
            path,
        ) by {
        files_counted(first, path);
        files_counted(second, path);
    }
    assert(files(first).to_multiset() =~= files(second).to_multiset());
    assert(queued(first).to_multiset() =~= queued(second).to_multiset());
}

/// The files that the walk processes, in order, when it starts with the worklist
/// `pending`, `contents` says what listing each directory gives, and the walk takes at
/// most `rounds` directories from the worklist.
pub open spec fn walked(
    contents: spec_fn(String) -> Seq<Listed>,
    pending: Seq<String>,
    rounds: nat,
) -> Seq<String>
    decreases rounds,
{
    if rounds == 0 || pending.len() == 0 {
        Seq::empty()
    } else {
        let entries = contents(pending.last());
        files(entries) + walked(
            contents,
            pending.drop_last() + queued(entries),
            (rounds - 1) as nat,
        )
    }
}

/// No directory nests deeper than `depth` levels below the directories `dirs`, these
/// counted as the first level.
pub open spec fn nests_within(
    contents: spec_fn(String) -> Seq<Listed>,
    dirs: Seq<String>,
    depth: nat,
) -> bool
    decreases depth, dirs.len(),
{
    dirs.len() == 0 || (depth > 0 && nests_within(
        contents,
        queued(contents(dirs.last())),
        (depth - 1) as nat,
    ) && nests_within(contents, dirs.drop_last(), depth))
}

/// The files under the directories `dirs`, down to `depth` levels: for each directory,
/// the last one first, its own files and then the files under its directories.
pub open spec fn files_under(
    contents: spec_fn(String) -> Seq<Listed>,
    dirs: Seq<String>,
    depth: nat,
) -> Seq<String>
    decreases depth, dirs.len(),
{
    if depth == 0 || dirs.len() == 0 {
        Seq::empty()
    } else {
        let entries = contents(dirs.last());
        files(entries) + files_under(contents, queued(entries), (depth - 1) as nat)
            + files_under(contents, dirs.drop_last(), depth)
    }
}

/// The number of directories at and under the directories `dirs`, down to `depth` levels.
pub open spec fn dirs_under(
    contents: spec_fn(String) -> Seq<Listed>,
    dirs: Seq<String>,
    depth: nat,
) -> nat
    decreases depth, dirs.len(),
{
    if depth == 0 || dirs.len() == 0 {
        0
    } else {
        1 + dirs_under(contents, queued(contents(dirs.last())), (depth - 1) as nat)
            + dirs_under(contents, dirs.drop_last(), depth)
    }
}

proof fn one_level_more(contents: spec_fn(String) -> Seq<Listed>, dirs: Seq<String>, depth: nat)
    requires
        nests_within(contents, dirs, depth),
    ensures
        nests_within(contents, dirs, depth + 1),
        files_under(contents, dirs, depth + 1) == files_under(contents, dirs, depth),
        dirs_under(contents, dirs, depth + 1) == dirs_under(contents, dirs, depth),
    decreases depth, dirs.len(),
{
    if dirs.len() > 0 {
        one_level_more(contents, queued(contents(dirs.last())), (depth - 1) as nat);
        one_level_more(contents, dirs.drop_last(), depth);
    }
}

proof fn two_worklists(
    contents: spec_fn(String) -> Seq<Listed>,
    below: Seq<String>,
    above: Seq<String>,
    depth: nat,
)
    requires
        nests_within(contents, below, depth),
        nests_within(contents, above, depth),
    ensures
        nests_within(contents, below + above, depth),
        files_under(contents, below + above, depth) == files_under(contents, above, depth)
            + files_under(contents, below, depth),
        dirs_under(contents, below + above, depth) == dirs_under(contents, above, depth)
            + dirs_under(contents, below, depth),
    decreases above.len(),
{
    if above.len() == 0 {
        assert(below + above =~= below);
        assert(files_under(contents, above, depth) + files_under(contents, below, depth)
            =~= files_under(contents, below, depth));
    } else {
        two_worklists(contents, below, above.drop_last(), depth);
        assert((below + above).drop_last() =~= below + above.drop_last());
        assert((below + above).last() == above.last());
        let entries = contents(above.last());
        let inner = files(entries) + files_under(contents, queued(entries), (depth - 1) as nat);
        assert(inner + (files_under(contents, above.drop_last(), depth) + files_under(
            contents,
            below,
            depth,
        )) =~= (inner + files_under(contents, above.drop_last(), depth)) + files_under(
            contents,
            below,
            depth,
        ));
    }
}

/// A walk visits every file under the directories that it starts with exactly once,
/// however deep the directories nest: where the tree has a depth and the walk takes
/// as many directories from the worklist as the tree holds, the files that it processes
/// are the files under those directories.
pub proof fn walk_visits_every_file(
    contents: spec_fn(String) -> Seq<Listed>,
    pending: Seq<String>,
    depth: nat,
    rounds: nat,
)
    requires
        nests_within(contents, pending, depth),
        rounds >= dirs_under(contents, pending, depth),
    ensures
        walked(contents, pending, rounds) == files_under(contents, pending, depth),
    decreases rounds,
{
    if pending.len() > 0 {
        let entries = contents(pending.last());
        let kids = queued(entries);
        let rest = pending.drop_last();
        one_level_more(contents, kids, (depth - 1) as nat);
        two_worklists(contents, rest, kids, depth);
        walk_visits_every_file(contents, rest + kids, depth, (rounds - 1) as nat);
        assert(files(entries) + (files_under(contents, kids, depth) + files_under(
            contents,
            rest,
            depth,
        )) =~= (files(entries) + files_under(contents, kids, depth)) + files_under(
            contents,
            rest,
            depth,
        ));
    }
}

proof fn worklist_parts(
    contents: spec_fn(String) -> Seq<Listed>,
    below: Seq<String>,
    above: Seq<String>,
    depth: nat,
)
    requires
        nests_within(contents, below + above, depth),
    ensures
        nests_within(contents, below, depth),
        nests_within(contents, above, depth),
    decreases above.len(),
{
    if above.len() == 0 {
        assert(below + above =~= below);
    } else {
        assert((below + above).drop_last() =~= below + above.drop_last());
        assert((below + above).last() == above.last());
        worklist_parts(contents, below, above.drop_last(), depth);
    }
}

proof fn order_keeps_files_under(
    first: spec_fn(String) -> Seq<Listed>,
    second: spec_fn(String) -> Seq<Listed>,
    dirs: Seq<String>,
    others: Seq<String>,
    depth: nat,
)
    requires
        forall|dir: String| (#[trigger] first(dir)).to_multiset() == second(dir).to_multiset(),
        dirs.to_multiset() == others.to_multiset(),
        nests_within(first, dirs, depth),
        nests_within(second, others, depth),
    ensures
        files_under(first, dirs, depth).to_multiset() == files_under(
            second,
            others,
            depth,
        ).to_multiset(),
    decreases depth, dirs.len(),
{
    broadcast use vstd::seq_lib::group_to_multiset_ensures;
    broadcast use vstd::seq_lib::lemma_multiset_commutative;

    if dirs.len() == 0 {
        assert(others.to_multiset().len() == 0);
        assert(others.len() == 0);
    } else {
        let dir = dirs.last();
        let rest = dirs.drop_last();
        assert(dirs =~= rest.push(dir));
        assert(dirs.to_multiset().count(dir) > 0);
        assert(others.contains(dir));
        let j = choose|j: int| 0 <= j < others.len() && others[j] == dir;
        let low = others.subrange(0, j);
        let high = others.subrange(j + 1, others.len() as int);
        let one = seq![dir];
        assert(others =~= (low + one) + high);
        assert(others.remove(j) =~= low + high);
        assert(dirs.remove(dirs.len() - 1) =~= rest);
        assert(rest.to_multiset() =~= (low + high).to_multiset());
        worklist_parts(second, low + one, high, depth);
        worklist_parts(second, low, one, depth);
        two_worklists(second, low, high, depth);
        two_worklists(second, low + one, high, depth);
        two_worklists(second, low, one, depth);
        let kids = queued(first(dir));
        let other_kids = queued(second(dir));
        listing_order_keeps_files(first(dir), second(dir));
        assert(one.last() == dir);
        assert(one.drop_last() =~= Seq::<String>::empty());
        order_keeps_files_under(first, second, kids, other_kids, (depth - 1) as nat);
        order_keeps_files_under(first, second, rest, low + high, depth);
        let own = files(first(dir)).to_multiset();
        let under = files_under(first, kids, (depth - 1) as nat).to_multiset();
        let beside = files_under(first, rest, depth).to_multiset();
        assert(files_under(first, dirs, depth).to_multiset() =~= own.add(under).add(beside));
        assert(depth > 0);
        assert(files_under(second, one.drop_last(), depth) =~= Seq::<String>::empty());
        assert(files_under(second, one, depth) =~= files(second(dir)) + files_under(
            second,
            other_kids,
            (depth - 1) as nat,
        ));
        assert(files_under(second, one, depth).to_multiset() =~= own.add(under));
        assert(files_under(second, low + high, depth).to_multiset() =~= beside);
        let high_files = files_under(second, high, depth).to_multiset();
        let low_files = files_under(second, low, depth).to_multiset();
        assert(beside =~= high_files.add(low_files));
        assert(files_under(second, others, depth).to_multiset() =~= high_files.add(
            own.add(under).add(low_files),
        ));
        assert(files_under(second, others, depth).to_multiset() =~= own.add(under).add(beside));
    }
}

/// The order in which the directories list their entries does not change which files
/// a walk processes, nor how often: where two trees hold the same entries in every
/// directory, order apart, two walks from the same worklist process the same files,
/// order apart.
pub proof fn listing_order_keeps_walk(
    first: spec_fn(String) -> Seq<Listed>,
    second: spec_fn(String) -> Seq<Listed>,
    pending: Seq<String>,
    depth: nat,
    rounds: nat,
)
    requires
        forall|dir: String| (#[trigger] first(dir)).to_multiset() == second(dir).to_multiset(),
        nests_within(first, pending, depth),
        nests_within(second, pending, depth),
        rounds >= dirs_under(first, pending, depth),
        rounds >= dirs_under(second, pending, depth),
    ensures
        walked(first, pending, rounds).to_multiset() == walked(
            second,
            pending,
            rounds,
        ).to_multiset(),
{
    walk_visits_every_file(first, pending, depth, rounds);
    walk_visits_every_file(second, pending, depth, rounds);
    order_keeps_files_under(first, second, pending, pending, depth);
}

} // verus!
