//! Walking the trees below the selected paths.

use vstd::prelude::*;

use crate::content::FileDigest;
use crate::manifest::WireLimits;
use crate::paths::below;
use crate::paths::join;
use crate::sorting::ascending;
use crate::sorting::covered;
use crate::sorting::is_permutation;
use crate::sorting::name_before;
use crate::sorting::order_by_keys;
use crate::sorting::order_names;
use crate::sorting::picked;
use crate::sorting::texts;
use crate::sources::describes;
use crate::sources::source_verdict;
use crate::sources::BoundedCollection;
use crate::sources::QueuedSource;
use crate::sources::SourceCollector;
use crate::sources::SourceKind;
use crate::text::append;
use crate::transfer_error::TransferError;

verus! {

/// A path on this machine and the path that it has within the transfer.
#[derive(Clone, Debug)]
pub struct Place {
    pub absolute: String,
    pub relative: String,
}

/// The texts of a place.
pub open spec fn place_of(place: Place) -> (Seq<char>, Seq<char>) {
    (place.absolute@, place.relative@)
}

/// The place of a name below a directory.
pub open spec fn child_place(
    place: (Seq<char>, Seq<char>),
    name: Seq<char>,
    windows: bool,
) -> (Seq<char>, Seq<char>) {
    (below(place.0, name, windows), place.1.push('/') + name)
}

/// The places of names below a directory.
pub open spec fn child_places(place: (Seq<char>, Seq<char>), names: Seq<Seq<char>>, windows: bool) -> Seq<
    (Seq<char>, Seq<char>),
> {
    Seq::new(names.len(), |i: int| child_place(place, names[i], windows))
}

/// The paths of entries, each with whether it is a directory.
pub open spec fn listed(entries: Seq<QueuedSource>) -> Seq<(Seq<char>, Seq<char>, bool)> {
    Seq::new(
        entries.len(),
        |i: int| (entries[i].absolute_path@, entries[i].relative_path@, entries[i].is_dir),
    )
}

/// A walk: what it found, and the places that it has yet to look at, the next one
/// last.
#[derive(Debug)]
pub struct SourceWalk {
    pub collector: SourceCollector,
    pub pending: Vec<Place>,
    pub windows: bool,
}

/// Whether the selected paths are listed in the order of their names.
pub open spec fn in_name_order(
    order: Seq<usize>,
    names: Seq<String>,
    paths: Seq<String>,
    places: Seq<(Seq<char>, Seq<char>)>,
) -> bool {
    &&& is_permutation(order, names.len() as int)
    &&& places.len() == names.len()
    &&& forall|i: int|
        0 <= i < places.len() ==> #[trigger] places[i] == (
            paths[order[i] as int]@,
            names[order[i] as int]@,
        )
    &&& forall|i: int, j: int|
        0 <= i < j < places.len() ==> name_before(
            (#[trigger] places[i]).1,
            (#[trigger] places[j]).1,
        )
}

/// What is wrong with a directory and the names in it, if anything.
pub open spec fn directory_verdict(
    collector: SourceCollector,
    relative_path: Seq<char>,
    portable: bool,
    name_count: int,
) -> Result<(), TransferError> {
    match source_verdict(collector, relative_path, SourceKind::Directory, 0, portable) {
        Err(error) => Err(error),
        Ok(_) => if name_count > collector.max_entries - (collector.entries@.len() + 1) {
            Err(TransferError::TooManyEntries)
        } else {
            Ok(())
        },
    }
}

/// The next place was a file: it is listed, and the walk goes on behind it.
pub open spec fn file_step(before: SourceWalk, after: SourceWalk) -> bool {
    let place = before.places()[0];
    &&& before.places().len() > 0
    &&& after.windows == before.windows
    &&& after.places() == before.places().drop_first()
    &&& listed(after.collector.entries@) == listed(before.collector.entries@).push(
        (place.0, place.1, false),
    )
}

/// The next place was a directory that holds these names: it is listed, and the
/// walk goes on with what it holds, in the order of the names.
pub open spec fn directory_step(
    before: SourceWalk,
    after: SourceWalk,
    names: Seq<Seq<char>>,
) -> bool {
    let place = before.places()[0];
    &&& before.places().len() > 0
    &&& after.windows == before.windows
    &&& after.places() == child_places(place, names, before.windows)
        + before.places().drop_first()
    &&& listed(after.collector.entries@) == listed(before.collector.entries@).push(
        (place.0, place.1, true),
    )
}

impl SourceWalk {
    /// The places that the walk has yet to look at, the next one first.
    pub open spec fn places(self) -> Seq<(Seq<char>, Seq<char>)> {
        Seq::new(
            self.pending@.len(),
            |i: int| place_of(self.pending@[self.pending@.len() - 1 - i]),
        )
    }

    /// Starts with the selected paths, in the order of their names.
    pub fn start(
        names: &Vec<String>,
        paths: &Vec<String>,
        max_entries: usize,
        max_bytes: u64,
        windows: bool,
    ) -> (walk: Self)
        requires
            names.len() == paths.len(),
        ensures
            walk.windows == windows,
            walk.collector.valid(),
            walk.collector.entries@.len() == 0,
            walk.collector.max_entries == max_entries,
            walk.collector.max_bytes == max_bytes,
            exists|order: Seq<usize>| #[trigger]
                in_name_order(order, names@, paths@, walk.places()),
    {
        let order: Vec<usize> = order_names(names);
        let mut pending: Vec<Place> = Vec::new();
        let n: usize = names.len();
        let mut i: usize = 0;
        while i < n
            invariant
                i <= n,
                n == names@.len() == paths@.len() == order@.len(),
                is_permutation(order@, n as int),
                pending@.len() == i,
                forall|k: int|
                    0 <= k < i ==> place_of(#[trigger] pending@[k]) == (
                        paths@[order@[n - 1 - k] as int]@,
                        names@[order@[n - 1 - k] as int]@,
                    ),
            decreases n - i,
        {
            let at: usize = order[n - 1 - i];
            pending.push(Place { absolute: paths[at].clone(), relative: names[at].clone() });
            i += 1;
        }
        let walk = SourceWalk {
            collector: SourceCollector::new(max_entries, max_bytes),
            pending,
            windows,
        };
        proof {
            assert(in_name_order(order@, names@, paths@, walk.places()));
        }
        walk
    }

    /// The next place to look at, if there is one.
    pub fn next(&self) -> (place: Option<&Place>)
        ensures
            match place {
                Some(place) => self.places().len() > 0 && place_of(*place) == self.places()[0],
                None => self.places().len() == 0,
            },
    {
        let n: usize = self.pending.len();
        if n == 0 {
            None
        } else {
            Some(&self.pending[n - 1])
        }
    }

    /// Checks the next place before its content is read.
    pub fn check(&self, kind: SourceKind, len: u64, portable: bool) -> (r: Result<
        (),
        TransferError,
    >)
        requires
            self.places().len() > 0,
        ensures
            r == source_verdict(self.collector, self.places()[0].1, kind, len, portable),
    {
        let n: usize = self.pending.len();
        self.collector.check(&self.pending[n - 1].relative, kind, len, portable)
    }

    /// An empty listing with room for as many names as the next place may hold,
    /// where it is a directory.
    pub fn listing(&self, wire: WireLimits) -> (r: Result<BoundedCollection<String>, TransferError>)
        requires
            self.collector.valid(),
        ensures
            ({
                let room = self.collector.max_entries - (self.collector.entries@.len() + 1);
                match r {
                    Ok(names) => 0 <= room <= wire.max_manifest_entries && names.items@.len() == 0
                        && names.max_items == room && names.within_limit(),
                    Err(error) => if room < 0 {
                        error == TransferError::EntryCountOverLimit
                    } else {
                        room > wire.max_manifest_entries && error
                            == TransferError::CollectionLimitTooLarge
                    },
                }
            }),
    {
        match self.collector.remaining_entries() {
            Err(error) => Err(error),
            Ok(n) => if n == 0 {
                Err(TransferError::EntryCountOverLimit)
            } else {
                BoundedCollection::new(n - 1, wire)
            },
        }
    }

    /// Takes the next place as a file, with the digest of its content.
    pub fn on_file(&mut self, len: u64, portable: bool, digest: FileDigest) -> (r: Result<
        (),
        TransferError,
    >)
        requires
            old(self).collector.valid(),
            old(self).places().len() > 0,
        ensures
            final(self).collector.valid(),
            final(self).collector.max_entries == old(self).collector.max_entries,
            final(self).collector.max_bytes == old(self).collector.max_bytes,
            r == source_verdict(
                old(self).collector,
                old(self).places()[0].1,
                SourceKind::File,
                len,
                portable,
            ),
            r is Err ==> *final(self) == *old(self),
            r is Ok ==> {
                &&& file_step(*old(self), *final(self))
                &&& final(self).collector.entries@.drop_last() == old(self).collector.entries@
                &&& describes(
                    final(self).collector.entries@.last(),
                    old(self).places()[0].0,
                    old(self).places()[0].1,
                    len,
                    Some(digest),
                )
            },
    {
        let n: usize = self.pending.len();
        let absolute = self.pending[n - 1].absolute.clone();
        let relative = self.pending[n - 1].relative.clone();
        match self.collector.add(absolute, relative, len, portable, Some(digest)) {
            Err(error) => Err(error),
            Ok(_) => {
                let ghost entries = self.collector.entries@;
                let _ = self.pending.pop();
                proof {
                    lemma_listed_push(old(self).collector.entries@, entries);
                    assert(self.places() =~= old(self).places().drop_first());
                }
                Ok(())
            },
        }
    }

    /// Takes the next place as a directory that holds these names.
    pub fn on_directory(&mut self, portable: bool, names: &Vec<String>) -> (r: Result<
        (),
        TransferError,
    >)
        requires
            old(self).collector.valid(),
            old(self).places().len() > 0,
        ensures
            final(self).collector.valid(),
            final(self).collector.max_entries == old(self).collector.max_entries,
            final(self).collector.max_bytes == old(self).collector.max_bytes,
            r == directory_verdict(
                old(self).collector,
                old(self).places()[0].1,
                portable,
                names@.len() as int,
            ),
            r is Err ==> *final(self) == *old(self),
            r is Ok ==> {
                &&& directory_step(*old(self), *final(self), ascending(texts(names@)))
                &&& final(self).collector.entries@.drop_last() == old(self).collector.entries@
                &&& describes(
                    final(self).collector.entries@.last(),
                    old(self).places()[0].0,
                    old(self).places()[0].1,
                    0,
                    None,
                )
            },
    {
        let n: usize = self.pending.len();
        let ghost place = place_of(self.pending@[n - 1]);
        let windows: bool = self.windows;
        match self.collector.check(
            &self.pending[n - 1].relative,
            SourceKind::Directory,
            0,
            portable,
        ) {
            Err(error) => {
                return Err(error);
            },
            Ok(_) => {},
        }
        if names.len() > self.collector.max_entries - self.collector.entries.len() - 1 {
            return Err(TransferError::TooManyEntries);
        }
        let absolute = self.pending[n - 1].absolute.clone();
        let relative = self.pending[n - 1].relative.clone();
        let _ = self.collector.add(absolute, relative, 0, portable, None);
        proof {
            lemma_listed_push(old(self).collector.entries@, self.collector.entries@);
        }
        if let Some(parent) = self.pending.pop() {
            let order: Vec<usize> = order_by_keys(names);
            let ghost rest = self.pending@;
            let ghost found = self.collector;
            let m: usize = names.len();
            let mut i: usize = 0;
            while i < m
                invariant
                    i <= m,
                    m == names@.len() == order@.len(),
                    is_permutation(order@, m as int),
                    place_of(parent) == place,
                    self.collector == found,
                    self.windows == windows,
                    self.pending@.len() == rest.len() + i,
                    forall|k: int| 0 <= k < rest.len() ==> self.pending@[k] == rest[k],
                    forall|k: int|
                        0 <= k < i ==> place_of(#[trigger] self.pending@[rest.len() + k])
                            == child_place(place, names@[order@[m - 1 - k] as int]@, windows),
                decreases m - i,
            {
                let at: usize = order[m - 1 - i];
                let mut child = parent.relative.clone();
                child.push('/');
                append(&mut child, &names[at]);
                self.pending.push(Place { absolute: join(&parent.absolute, &names[at], windows), relative: child });
                i += 1;
            }
            proof {
                let sorted = picked(names@, order@);
                let after = self.places();
                let expected = child_places(place, sorted, windows) + old(self).places().drop_first();
                assert(after.len() == expected.len());
                assert forall|k: int| 0 <= k < after.len() implies after[k] == expected[k] by {
                    if k < m {
                        let j = m - 1 - k;
                        assert(self.pending@.len() - 1 - k == rest.len() + j);
                        assert(place_of(self.pending@[rest.len() + j]) == child_place(
                            place,
                            names@[order@[m - 1 - j] as int]@,
                            windows,
                        ));
                    } else {
                        assert(self.pending@[self.pending@.len() - 1 - k] == rest[rest.len() - 1 - (k
                            - m)]);
                    }
                }
                assert(after =~= expected);
            }
        }
        Ok(())
    }

    /// What was found, once nothing is left to look at.
    pub fn finish(self) -> (r: Option<SourceCollector>)
        ensures
            r == (if self.places().len() == 0 {
                Some(self.collector)
            } else {
                None
            }),
    {
        if self.pending.len() == 0 {
            Some(self.collector)
        } else {
            None
        }
    }
}

proof fn lemma_listed_push(before: Seq<QueuedSource>, after: Seq<QueuedSource>)
    requires
        after.len() == before.len() + 1,
        after.drop_last() == before,
    ensures
        listed(after) == listed(before).push(
            (after.last().absolute_path@, after.last().relative_path@, after.last().is_dir),
        ),
{
    assert forall|i: int| 0 <= i < before.len() implies after[i] == before[i] by {
        assert(after.drop_last()[i] == before[i]);
    }
    assert(listed(after) =~= listed(before).push(
        (after.last().absolute_path@, after.last().relative_path@, after.last().is_dir),
    ));
}

/// A tree of files: a file, or a directory with the names in it, in ascending
/// order, and the tree of each.
pub enum SourceTree {
    File,
    Directory { names: Seq<Seq<char>>, trees: Seq<SourceTree> },
}

/// Everything in a tree: a directory comes before what it holds, and what it holds
/// comes in the order of the names.
pub open spec fn tree_listing(place: (Seq<char>, Seq<char>), tree: SourceTree, windows: bool) -> Seq<
    (Seq<char>, Seq<char>, bool),
>
    decreases tree, 0int,
{
    match tree {
        SourceTree::File => seq![(place.0, place.1, false)],
        SourceTree::Directory { names, trees } => seq![(place.0, place.1, true)] + forest_listing(
            child_places(place, names, windows),
            trees,
            0,
            windows,
        ),
    }
}

/// Everything in the trees from an index on, one tree after the other.
pub open spec fn forest_listing(
    places: Seq<(Seq<char>, Seq<char>)>,
    trees: Seq<SourceTree>,
    i: int,
    windows: bool,
) -> Seq<(Seq<char>, Seq<char>, bool)>
    decreases trees, trees.len() - i,
{
    if 0 <= i < trees.len() {
        tree_listing(places[i], trees[i], windows) + forest_listing(places, trees, i + 1, windows)
    } else {
        Seq::empty()
    }
}

proof fn lemma_forest_suffix(
    places: Seq<(Seq<char>, Seq<char>)>,
    trees: Seq<SourceTree>,
    i: int,
    other_places: Seq<(Seq<char>, Seq<char>)>,
    other_trees: Seq<SourceTree>,
    j: int,
    windows: bool,
)
    requires
        0 <= i <= trees.len(),
        0 <= j <= other_trees.len(),
        trees.len() - i == other_trees.len() - j,
        forall|k: int|
            0 <= k < trees.len() - i ==> places[i + k] == #[trigger] other_places[j + k] && trees[i
                + k] == other_trees[j + k],
    ensures
        forest_listing(places, trees, i, windows) == forest_listing(other_places, other_trees, j, windows),
    decreases trees.len() - i,
{
    if i < trees.len() {
        assert(places[i + 0] == other_places[j + 0]);
        assert forall|k: int| 0 <= k < trees.len() - (i + 1) implies places[i + 1 + k]
            == #[trigger] other_places[j + 1 + k] && trees[i + 1 + k] == other_trees[j + 1 + k] by {
            assert(places[i + (k + 1)] == other_places[j + (k + 1)]);
        }
        lemma_forest_suffix(places, trees, i + 1, other_places, other_trees, j + 1, windows);
    }
}

proof fn lemma_forest_concat(
    first: Seq<(Seq<char>, Seq<char>)>,
    first_trees: Seq<SourceTree>,
    rest: Seq<(Seq<char>, Seq<char>)>,
    rest_trees: Seq<SourceTree>,
    i: int,
    windows: bool,
)
    requires
        first.len() == first_trees.len(),
        rest.len() == rest_trees.len(),
        0 <= i <= first.len(),
    ensures
        forest_listing(first + rest, first_trees + rest_trees, i, windows) == forest_listing(
            first,
            first_trees,
            i,
            windows,
        ) + forest_listing(rest, rest_trees, 0, windows),
    decreases first.len() - i,
{
    let places = first + rest;
    let trees = first_trees + rest_trees;
    if i < first.len() {
        lemma_forest_concat(first, first_trees, rest, rest_trees, i + 1, windows);
        assert(places[i] == first[i] && trees[i] == first_trees[i]);
        assert(forest_listing(places, trees, i, windows) =~= forest_listing(first, first_trees, i, windows)
            + forest_listing(rest, rest_trees, 0, windows));
    } else {
        assert forall|k: int| 0 <= k < trees.len() - i implies places[i + k]
            == #[trigger] rest[0 + k] && trees[i + k] == rest_trees[0 + k] by {}
        lemma_forest_suffix(places, trees, i, rest, rest_trees, 0, windows);
        assert(forest_listing(places, trees, i, windows) =~= forest_listing(first, first_trees, i, windows)
            + forest_listing(rest, rest_trees, 0, windows));
    }
}

/// Whether one step of a walk saw the tree at its next place as it is; the trees
/// are those at the places that the walk has yet to look at.
pub open spec fn walk_step(
    before: SourceWalk,
    trees: Seq<SourceTree>,
    after: SourceWalk,
    trees_after: Seq<SourceTree>,
) -> bool {
    &&& before.places().len() == trees.len() > 0
    &&& match trees[0] {
        SourceTree::File => file_step(before, after) && trees_after == trees.drop_first(),
        SourceTree::Directory { names, trees: inner } => names.len() == inner.len()
            && directory_step(before, after, names) && trees_after == inner + trees.drop_first(),
    }
}

/// What is listed, and what the trees that are left will add to it.
pub open spec fn whole_listing(walk: SourceWalk, trees: Seq<SourceTree>) -> Seq<
    (Seq<char>, Seq<char>, bool),
> {
    listed(walk.collector.entries@) + forest_listing(walk.places(), trees, 0, walk.windows)
}

/// No step of a walk leaves anything out or changes the order.
pub proof fn law_steps_keep_the_listing(
    before: SourceWalk,
    trees: Seq<SourceTree>,
    after: SourceWalk,
    trees_after: Seq<SourceTree>,
)
    requires
        walk_step(before, trees, after, trees_after),
    ensures
        whole_listing(after, trees_after) == whole_listing(before, trees),
        after.places().len() == trees_after.len(),
{
    let windows = before.windows;
    let places = before.places();
    let rest = places.drop_first();
    let rest_trees = trees.drop_first();
    assert forall|k: int| 0 <= k < trees.len() - 1 implies places[1 + k] == #[trigger] rest[0 + k]
        && trees[1 + k] == rest_trees[0 + k] by {}
    lemma_forest_suffix(places, trees, 1, rest, rest_trees, 0, windows);
    assert(forest_listing(places, trees, 0, windows) == tree_listing(places[0], trees[0], windows) + forest_listing(
        places,
        trees,
        1,
        windows,
    ));
    match trees[0] {
        SourceTree::File => {
            assert(whole_listing(after, trees_after) =~= whole_listing(before, trees));
        },
        SourceTree::Directory { names, trees: inner } => {
            let held = child_places(places[0], names, windows);
            lemma_forest_concat(held, inner, rest, rest_trees, 0, windows);
            assert(tree_listing(places[0], trees[0], windows) == seq![(places[0].0, places[0].1, true)]
                + forest_listing(held, inner, 0, windows));
            assert(whole_listing(after, trees_after) =~= whole_listing(before, trees));
        },
    }
}

/// A walk that has nothing left to look at has listed everything below the selected
/// paths, each directory before what it holds and the names of each directory in
/// ascending order.
pub proof fn law_finished_walks_list_everything(run: Seq<(SourceWalk, Seq<SourceTree>)>)
    requires
        run.len() > 0,
        run[0].0.collector.entries@.len() == 0,
        run[0].0.places().len() == run[0].1.len(),
        forall|i: int|
            0 <= i < run.len() - 1 ==> walk_step(
                (#[trigger] run[i]).0,
                run[i].1,
                run[i + 1].0,
                run[i + 1].1,
            ),
        run.last().0.places().len() == 0,
    ensures
        listed(run.last().0.collector.entries@) == forest_listing(
            run[0].0.places(),
            run[0].1,
            0,
            run[0].0.windows,
        ),
        run.last().0.collector.entries@.len() >= run[0].1.len(),
{
    let n = run.len() - 1;
    lemma_forest_is_listed(run[0].0.places(), run[0].1, 0, run[0].0.windows);
    lemma_runs_keep_the_listing(run, n);
    assert(whole_listing(run[0].0, run[0].1) =~= forest_listing(
            run[0].0.places(),
            run[0].1,
            0,
            run[0].0.windows,
        ));
    assert(whole_listing(run[n].0, run[n].1) =~= listed(run[n].0.collector.entries@));
}

proof fn lemma_forest_is_listed(
    places: Seq<(Seq<char>, Seq<char>)>,
    trees: Seq<SourceTree>,
    i: int,
    windows: bool,
)
    requires
        0 <= i <= trees.len(),
    ensures
        forest_listing(places, trees, i, windows).len() >= trees.len() - i,
    decreases trees.len() - i,
{
    if i < trees.len() {
        lemma_forest_is_listed(places, trees, i + 1, windows);
        assert(tree_listing(places[i], trees[i], windows).len() >= 1);
        assert(forest_listing(places, trees, i, windows) == tree_listing(places[i], trees[i], windows)
            + forest_listing(places, trees, i + 1, windows));
    }
}

proof fn lemma_runs_keep_the_listing(run: Seq<(SourceWalk, Seq<SourceTree>)>, n: int)
    requires
        0 <= n < run.len(),
        run[0].0.places().len() == run[0].1.len(),
        forall|i: int|
            0 <= i < run.len() - 1 ==> walk_step(
                (#[trigger] run[i]).0,
                run[i].1,
                run[i + 1].0,
                run[i + 1].1,
            ),
    ensures
        whole_listing(run[n].0, run[n].1) == whole_listing(run[0].0, run[0].1),
        run[n].0.places().len() == run[n].1.len(),
    decreases n,
{
    if n > 0 {
        lemma_runs_keep_the_listing(run, n - 1);
        assert(walk_step(run[n - 1].0, run[n - 1].1, run[n].0, run[n].1));
        law_steps_keep_the_listing(run[n - 1].0, run[n - 1].1, run[n].0, run[n].1);
    }
}

/// Whether a directory's listing starts with the directory and holds two listings,
/// one somewhere after the other.
pub open spec fn holds_in_order(
    listing: Seq<(Seq<char>, Seq<char>, bool)>,
    directory: (Seq<char>, Seq<char>, bool),
    earlier: Seq<(Seq<char>, Seq<char>, bool)>,
    later: Seq<(Seq<char>, Seq<char>, bool)>,
) -> bool {
    exists|a: int, b: int|
        1 <= a <= a + earlier.len() <= b <= b + later.len() <= listing.len() && listing[0]
            == directory && #[trigger] listing.subrange(a, a + earlier.len()) == earlier
            && #[trigger] listing.subrange(b, b + later.len()) == later
}

/// Whether a directory's listing starts with the directory and holds a listing
/// behind it.
pub open spec fn holds_behind(
    listing: Seq<(Seq<char>, Seq<char>, bool)>,
    directory: (Seq<char>, Seq<char>, bool),
    inner: Seq<(Seq<char>, Seq<char>, bool)>,
) -> bool {
    exists|a: int|
        1 <= a <= a + inner.len() <= listing.len() && listing[0] == directory
            && #[trigger] listing.subrange(a, a + inner.len()) == inner
}

proof fn lemma_forest_split(
    places: Seq<(Seq<char>, Seq<char>)>,
    trees: Seq<SourceTree>,
    i: int,
    k: int,
    windows: bool,
)
    requires
        0 <= i <= k <= trees.len(),
    ensures
        forest_listing(places, trees, k, windows).len() <= forest_listing(places, trees, i, windows).len(),
        forest_listing(places, trees, i, windows).skip(
            forest_listing(places, trees, i, windows).len() - forest_listing(places, trees, k, windows).len(),
        ) == forest_listing(places, trees, k, windows),
        i < k ==> forest_listing(places, trees, k, windows).len() + tree_listing(places[i], trees[i], windows).len()
            <= forest_listing(places, trees, i, windows).len(),
    decreases k - i,
{
    let whole = forest_listing(places, trees, i, windows);
    let tail = forest_listing(places, trees, k, windows);
    if i < k {
        lemma_forest_split(places, trees, i + 1, k, windows);
        let head = tree_listing(places[i], trees[i], windows);
        let inner = forest_listing(places, trees, i + 1, windows);
        assert(whole == head + inner);
        assert(whole.skip(whole.len() - tail.len()) =~= inner.skip(inner.len() - tail.len()));
    } else {
        assert(whole.skip(0) =~= tail);
    }
}

/// A directory is listed before everything that it holds, and what it holds is
/// listed whole, in the order of the names.
pub proof fn law_directories_come_before_what_they_hold(
    place: (Seq<char>, Seq<char>),
    names: Seq<Seq<char>>,
    trees: Seq<SourceTree>,
    j: int,
    k: int,
    windows: bool,
)
    requires
        names.len() == trees.len(),
        0 <= j < k < names.len(),
    ensures
        holds_in_order(
            tree_listing(place, SourceTree::Directory { names, trees }, windows),
            (place.0, place.1, true),
            tree_listing(child_place(place, names[j], windows), trees[j], windows),
            tree_listing(child_place(place, names[k], windows), trees[k], windows),
        ),
{
    let listing = tree_listing(place, SourceTree::Directory { names, trees }, windows);
    let places = child_places(place, names, windows);
    let rest = forest_listing(places, trees, 0, windows);
    let from_j = forest_listing(places, trees, j, windows);
    let from_k = forest_listing(places, trees, k, windows);
    let earlier = tree_listing(places[j], trees[j], windows);
    let later = tree_listing(places[k], trees[k], windows);
    lemma_forest_split(places, trees, 0, j, windows);
    lemma_forest_split(places, trees, 0, k, windows);
    lemma_forest_split(places, trees, j, k, windows);
    assert(from_k == later + forest_listing(places, trees, k + 1, windows));
    assert(from_j == earlier + forest_listing(places, trees, j + 1, windows));
    let a = listing.len() - from_j.len();
    let b = listing.len() - from_k.len();
    assert(listing.len() == 1 + rest.len());
    assert(listing.skip(a) =~= rest.skip(rest.len() - from_j.len()));
    assert(listing.skip(b) =~= rest.skip(rest.len() - from_k.len()));
    assert(listing.subrange(a, a + earlier.len()) =~= listing.skip(a).take(earlier.len() as int));
    assert(listing.subrange(b, b + later.len()) =~= listing.skip(b).take(later.len() as int));
    assert(from_j.take(earlier.len() as int) =~= earlier);
    assert(from_k.take(later.len() as int) =~= later);
}

/// Every name of a directory is listed behind it, with everything below that name.
pub proof fn law_every_name_is_listed(
    place: (Seq<char>, Seq<char>),
    names: Seq<Seq<char>>,
    trees: Seq<SourceTree>,
    k: int,
    windows: bool,
)
    requires
        names.len() == trees.len(),
        0 <= k < names.len(),
    ensures
        holds_behind(
            tree_listing(place, SourceTree::Directory { names, trees }, windows),
            (place.0, place.1, true),
            tree_listing(child_place(place, names[k], windows), trees[k], windows),
        ),
{
    let listing = tree_listing(place, SourceTree::Directory { names, trees }, windows);
    let places = child_places(place, names, windows);
    let rest = forest_listing(places, trees, 0, windows);
    let from_k = forest_listing(places, trees, k, windows);
    let inner = tree_listing(places[k], trees[k], windows);
    lemma_forest_split(places, trees, 0, k, windows);
    assert(from_k == inner + forest_listing(places, trees, k + 1, windows));
    let a = listing.len() - from_k.len();
    assert(listing.len() == 1 + rest.len());
    assert(listing.skip(a) =~= rest.skip(rest.len() - from_k.len()));
    assert(listing.subrange(a, a + inner.len()) =~= listing.skip(a).take(inner.len() as int));
    assert(from_k.take(inner.len() as int) =~= inner);
}

/// A walk starts with every selected path under its own name, and with nothing else;
/// none of them comes twice.
pub proof fn law_every_selected_path_is_walked(
    order: Seq<usize>,
    names: Seq<String>,
    paths: Seq<String>,
    places: Seq<(Seq<char>, Seq<char>)>,
    k: int,
)
    requires
        names.len() == paths.len(),
        in_name_order(order, names, paths, places),
        0 <= k < names.len(),
    ensures
        places.len() == names.len(),
        exists|i: int|
            0 <= i < places.len() && order[i] == k && #[trigger] places[i] == (
                paths[k]@,
                names[k]@,
            ),
        forall|i: int, j: int|
            0 <= i < j < places.len() ==> #[trigger] order[i] != #[trigger] order[j],
        forall|i: int|
            0 <= i < places.len() ==> order[i] < names.len() && #[trigger] places[i] == (
                paths[order[i] as int]@,
                names[order[i] as int]@,
            ),
{
    assert(covered(order, k));
    let i = choose|i: int| 0 <= i < order.len() && #[trigger] order[i] == k;
    assert(places[i] == (paths[k]@, names[k]@));
}

/// A directory is taken exactly where it could be taken as a mere entry and everything
/// in it still has room beside the entries that came before and the directory itself.
pub proof fn law_directories_pass_with_room_for_their_names(
    collector: SourceCollector,
    relative_path: Seq<char>,
    portable: bool,
    name_count: int,
)
    ensures
        directory_verdict(collector, relative_path, portable, name_count) is Ok <==> source_verdict(
            collector,
            relative_path,
            SourceKind::Directory,
            0,
            portable,
        ) is Ok && collector.entries@.len() + 1 + name_count <= collector.max_entries,
        source_verdict(collector, relative_path, SourceKind::Directory, 0, portable) is Err
            ==> directory_verdict(collector, relative_path, portable, name_count)
            == source_verdict(collector, relative_path, SourceKind::Directory, 0, portable),
        source_verdict(collector, relative_path, SourceKind::Directory, 0, portable) is Ok
            && collector.entries@.len() + 1 + name_count > collector.max_entries
            ==> directory_verdict(collector, relative_path, portable, name_count) == Err::<
            (),
            TransferError,
        >(TransferError::TooManyEntries),
{
}

/// Below a directory of the transfer a name follows the directory's path and a slash,
/// and nothing else changes; on this machine it is the path below that directory.
pub proof fn law_places_follow_their_directory(
    place: (Seq<char>, Seq<char>),
    names: Seq<Seq<char>>,
    windows: bool,
    k: int,
)
    requires
        0 <= k < names.len(),
    ensures
        child_places(place, names, windows).len() == names.len(),
        child_places(place, names, windows)[k].1 == place.1 + seq!['/'] + names[k],
        child_places(place, names, windows)[k].0 == below(place.0, names[k], windows),
{
    assert(place.1.push('/') =~= place.1 + seq!['/']);
}

/// A file in the walk is listed by itself; a directory is listed with everything in it,
/// so a listing has as many entries as there are files and directories.
pub proof fn law_every_file_and_directory_counts_once(
    place: (Seq<char>, Seq<char>),
    tree: SourceTree,
    windows: bool,
)
    ensures
        tree_listing(place, tree, windows).len() == tree_size(tree),
        tree_listing(place, tree, windows)[0] == (place.0, place.1, tree is Directory),
    decreases tree, 0int,
{
    match tree {
        SourceTree::File => {},
        SourceTree::Directory { names, trees } => {
            lemma_forest_size(child_places(place, names, windows), trees, 0, windows);
        },
    }
}

/// How many files and directories a tree holds, itself included.
pub open spec fn tree_size(tree: SourceTree) -> nat
    decreases tree, 0int,
{
    match tree {
        SourceTree::File => 1,
        SourceTree::Directory { names, trees } => 1 + forest_size(trees, 0),
    }
}

/// How many files and directories the trees from an index on hold.
pub open spec fn forest_size(trees: Seq<SourceTree>, i: int) -> nat
    decreases trees, trees.len() - i,
{
    if 0 <= i < trees.len() {
        tree_size(trees[i]) + forest_size(trees, i + 1)
    } else {
        0
    }
}

proof fn lemma_forest_size(
    places: Seq<(Seq<char>, Seq<char>)>,
    trees: Seq<SourceTree>,
    i: int,
    windows: bool,
)
    ensures
        forest_listing(places, trees, i, windows).len() == forest_size(trees, i),
    decreases trees, trees.len() - i,
{
    if 0 <= i < trees.len() {
        law_every_file_and_directory_counts_once(places[i], trees[i], windows);
        lemma_forest_size(places, trees, i + 1, windows);
    }
}

} // verus!
