//! The content fingerprint of a directory tree, the plan by which a tree is
//! copied, and the reading of a probe.

use crate::config::child_path;
use crate::config::join_child;
use crate::error::IoStep;
use crate::error::SyncError;
use crate::error::SyncErrorView;
use crate::host::Reply;
use crate::host::ReplyView;
use vstd::prelude::*;

verus! {

/// The 32-bit xxHash of `input` under `seed`.
pub uninterp spec fn xxh32_digest(input: Seq<u8>, seed: u32) -> u32;

/// Calls `xxhash_rust::xxh32::xxh32`, which reads nothing but its two
/// arguments and returns for every input: the digest is a function of the
/// bytes and the seed.
#[verifier::external_body]
fn xxh32(input: &Vec<u8>, seed: u32) -> (digest: u32)
    ensures
        digest == xxh32_digest(input@, seed),
{
    xxhash_rust::xxh32::xxh32(input.as_slice(), seed)
}

/// What the walk found at an entry.
#[derive(Clone, Copy, Debug, PartialEq, Eq)]
pub enum EntryKind {
    /// A regular file, whose bytes were read.
    File,
    /// A directory.
    Directory,
    /// Anything else, such as a symbolic link.
    Other,
    /// The walk failed here, or the file could not be opened or read.
    Unreadable,
}

/// The mathematical value of a [`WalkEntry`].
pub ghost struct WalkEntryView {
    pub kind: EntryKind,
    pub depth: int,
    pub content: Seq<u8>,
}

/// One entry of the walk of a directory tree. The walk lists the root first,
/// then what lies below it, each directory before its contents; `depth`
/// counts the directories between the root and the entry, the root being at 0.
#[derive(Debug, PartialEq, Eq)]
pub struct WalkEntry {
    pub kind: EntryKind,
    pub depth: usize,
    /// The bytes of a regular file; empty for every other kind.
    pub content: Vec<u8>,
}

impl View for WalkEntry {
    type V = WalkEntryView;

    open spec fn view(&self) -> WalkEntryView {
        WalkEntryView { kind: self.kind, depth: self.depth as int, content: self.content@ }
    }
}

/// The views of the entries of a walk, in walk order.
pub open spec fn walk_view(walk: Seq<WalkEntry>) -> Seq<WalkEntryView> {
    Seq::new(walk.len(), |i: int| walk[i]@)
}

/// The entries that are folded into the fingerprint while the directory at
/// depth `floor` is walked from entry `lo` on, in the order of folding. The
/// walk of a directory ends at the first entry that is not below it. A file
/// is folded where it is met. A directory that is met is walked by itself
/// first, and then its entries are met once more as the enclosing walk goes on.
pub open spec fn order_from(walk: Seq<WalkEntryView>, floor: int, lo: int) -> Seq<int>
    decreases walk.len() - lo,
{
    if lo < 0 || lo >= walk.len() || walk[lo].depth <= floor {
        Seq::empty()
    } else {
        let met = match walk[lo].kind {
            EntryKind::File => seq![lo],
            EntryKind::Directory => order_from(walk, walk[lo].depth, lo + 1),
            _ => Seq::empty(),
        };
        met + order_from(walk, floor, lo + 1)
    }
}

/// The entries of `walk` that are folded into its fingerprint, in the order
/// of folding: the root if it is a file, then what the walk of the root meets.
pub open spec fn hash_order(walk: Seq<WalkEntryView>) -> Seq<int> {
    if walk.len() == 0 {
        Seq::empty()
    } else {
        let root = if walk[0].kind is File {
            seq![0int]
        } else {
            Seq::empty()
        };
        root + order_from(walk, walk[0].depth, 1)
    }
}

/// The contents of the entries `order` of `walk`.
pub open spec fn contents_at(walk: Seq<WalkEntryView>, order: Seq<int>) -> Seq<Seq<u8>> {
    Seq::new(order.len(), |k: int| walk[order[k]].content)
}

/// The digest that is left when each of `contents` in turn is hashed with the
/// digest so far as its seed, starting from `seed`.
pub open spec fn fold_digest(contents: Seq<Seq<u8>>, seed: u32) -> u32
    decreases contents.len(),
{
    if contents.len() == 0 {
        seed
    } else {
        fold_digest(contents.drop_first(), xxh32_digest(contents[0], seed))
    }
}

/// The fingerprint of the tree that `walk` lists.
pub open spec fn fingerprint(walk: Seq<WalkEntryView>) -> u32 {
    fold_digest(contents_at(walk, hash_order(walk)), 0)
}

/// No entry of `walk` is unreadable.
pub open spec fn readable(walk: Seq<WalkEntryView>) -> bool {
    forall|i: int| 0 <= i < walk.len() ==> !((#[trigger] walk[i]).kind is Unreadable)
}

/// Folding `first + second` is folding `second` from where `first` ended.
pub proof fn lemma_fold_concat(first: Seq<Seq<u8>>, second: Seq<Seq<u8>>, seed: u32)
    ensures
        fold_digest(first + second, seed) == fold_digest(second, fold_digest(first, seed)),
    decreases first.len(),
{
    if first.len() > 0 {
        assert((first + second).drop_first() =~= first.drop_first() + second);
        lemma_fold_concat(first.drop_first(), second, xxh32_digest(first[0], seed));
    }
}

/// The contents of `first + second` are those of `first`, then those of `second`.
proof fn lemma_contents_concat(walk: Seq<WalkEntryView>, first: Seq<int>, second: Seq<int>)
    ensures
        contents_at(walk, first + second) =~= contents_at(walk, first) + contents_at(walk, second),
{
}

/// Folds the walk of the directory at depth `floor` from entry `start` on.
fn hash_from(walk: &Vec<WalkEntry>, floor: usize, start: usize, seed: u32) -> (digest: u32)
    ensures
        digest == fold_digest(
            contents_at(walk_view(walk@), order_from(walk_view(walk@), floor as int, start as int)),
            seed,
        ),
    decreases walk.len() - start,
{
    let ghost entries = walk_view(walk@);
    let mut digest = seed;
    let mut i = start;
    while i < walk.len() && walk[i].depth > floor
        invariant
            start <= i,
            entries == walk_view(walk@),
            fold_digest(contents_at(entries, order_from(entries, floor as int, start as int)), seed)
                == fold_digest(
                contents_at(entries, order_from(entries, floor as int, i as int)),
                digest,
            ),
        decreases walk.len() - i,
    {
        let ghost before = digest;
        let ghost rest = order_from(entries, floor as int, i + 1);
        match walk[i].kind {
            EntryKind::File => {
                digest = xxh32(&walk[i].content, digest);
                proof {
                    let met = seq![i as int];
                    lemma_contents_concat(entries, met, rest);
                    lemma_fold_concat(
                        contents_at(entries, met),
                        contents_at(entries, rest),
                        before,
                    );
                    assert(fold_digest(contents_at(entries, met), before) == digest) by {
                        reveal_with_fuel(fold_digest, 2);
                    }
                }
            },
            EntryKind::Directory => {
                digest = hash_from(walk, walk[i].depth, i + 1, digest);
                proof {
                    let met = order_from(entries, entries[i as int].depth, i + 1);
                    lemma_contents_concat(entries, met, rest);
                    lemma_fold_concat(
                        contents_at(entries, met),
                        contents_at(entries, rest),
                        before,
                    );
                }
            },
            _ => {},
        }
        i += 1;
    }
    digest
}

/// Whether no entry of `walk` is unreadable.
fn all_readable(walk: &Vec<WalkEntry>) -> (ok: bool)
    ensures
        ok == readable(walk_view(walk@)),
{
    let mut i: usize = 0;
    while i < walk.len()
        invariant
            forall|k: int|
                0 <= k < i && k < walk.len() ==> !((
                #[trigger] walk_view(walk@)[k]).kind is Unreadable),
        decreases walk.len() - i,
    {
        assert(walk_view(walk@)[i as int] == walk[i as int]@);
        match walk[i].kind {
            EntryKind::Unreadable => {
                return false;
            },
            _ => {},
        }
        i += 1;
    }
    true
}

/// The fingerprint of the tree at `path`, of which `walk` lists the entries
/// in the order in which they were met. It fails if the walk, or the reading
/// of a file, failed anywhere.
pub fn dir_hash(path: &String, walk: &Vec<WalkEntry>) -> (hash: Result<u32, SyncError>)
    ensures
        hash is Ok <==> readable(walk_view(walk@)),
        hash matches Ok(h) ==> h == fingerprint(walk_view(walk@)),
        hash matches Err(e) ==> e@ == (SyncErrorView::Io {
            step: IoStep::Fingerprint,
            path: path@,
            cause: Seq::empty(),
        }),
{
    if !all_readable(walk) {
        return Err(
            SyncError::Io { step: IoStep::Fingerprint, path: path.clone(), cause: String::new() },
        );
    }
    if walk.len() == 0 {
        return Ok(0);
    }
    let ghost entries = walk_view(walk@);
    let seed = match walk[0].kind {
        EntryKind::File => xxh32(&walk[0].content, 0),
        _ => 0,
    };
    let digest = hash_from(walk, walk[0].depth, 1, seed);
    proof {
        let root = if entries[0].kind is File {
            seq![0int]
        } else {
            Seq::empty()
        };
        let rest = order_from(entries, entries[0].depth, 1);
        lemma_contents_concat(entries, root, rest);
        lemma_fold_concat(contents_at(entries, root), contents_at(entries, rest), 0);
        if entries[0].kind is File {
            assert(fold_digest(contents_at(entries, root), 0) == seed) by {
                reveal_with_fuel(fold_digest, 2);
            }
        }
    }
    Ok(digest)
}

/// Two walks list the same entries: as many, and at each place an equal one.
pub open spec fn same_entries(first: Seq<WalkEntryView>, second: Seq<WalkEntryView>) -> bool {
    &&& first.len() == second.len()
    &&& forall|i: int| 0 <= i < first.len() ==> #[trigger] first[i] == second[i]
}

/// Two walks have the same shape: as many entries, and at each place the
/// same kind at the same depth. The contents may differ.
pub open spec fn same_shape(first: Seq<WalkEntryView>, second: Seq<WalkEntryView>) -> bool {
    &&& first.len() == second.len()
    &&& forall|i: int|
        0 <= i < first.len() ==> (#[trigger] first[i]).kind == second[i].kind && first[i].depth
            == second[i].depth
}

/// Every entry after the first lies below the first.
pub open spec fn rooted(walk: Seq<WalkEntryView>) -> bool {
    forall|i: int| 1 <= i < walk.len() ==> (#[trigger] walk[i]).depth > walk[0].depth
}

/// While `first` is folded from `seed_first` and `second` from `seed_second`,
/// no step hashes two different inputs to one digest.
pub open spec fn no_collision(
    first: Seq<Seq<u8>>,
    second: Seq<Seq<u8>>,
    seed_first: u32,
    seed_second: u32,
) -> bool
    decreases first.len(),
{
    if first.len() == 0 || second.len() == 0 {
        true
    } else {
        let next_first = xxh32_digest(first[0], seed_first);
        let next_second = xxh32_digest(second[0], seed_second);
        &&& first[0] != second[0] || seed_first != seed_second ==> next_first != next_second
        &&& no_collision(first.drop_first(), second.drop_first(), next_first, next_second)
    }
}

/// Two walks hold the same files: they have the same shape, and each file
/// of the one has the bytes of the file at its place in the other.
pub open spec fn same_files(first: Seq<WalkEntryView>, second: Seq<WalkEntryView>) -> bool {
    &&& same_shape(first, second)
    &&& forall|i: int|
        0 <= i < first.len() && (#[trigger] first[i]).kind is File ==> first[i].content
            == second[i].content
}

/// Determinism: the fingerprint is a function of the entries that the walk
/// lists. Two walks that list the same entries have the same fingerprint.
pub proof fn lemma_fingerprint_deterministic(first: Seq<WalkEntryView>, second: Seq<WalkEntryView>)
    requires
        same_entries(first, second),
    ensures
        fingerprint(first) == fingerprint(second),
{
    assert(first =~= second);
}

/// Only files are folded: every entry in the order of folding is a file of the walk.
pub proof fn lemma_order_holds_files_alone(walk: Seq<WalkEntryView>, floor: int, lo: int, at: int)
    requires
        0 <= lo,
        0 <= at < order_from(walk, floor, lo).len(),
    ensures
        lo <= order_from(walk, floor, lo)[at] < walk.len(),
        walk[order_from(walk, floor, lo)[at]].kind is File,
    decreases walk.len() - lo,
{
    let met = match walk[lo].kind {
        EntryKind::File => seq![lo],
        EntryKind::Directory => order_from(walk, walk[lo].depth, lo + 1),
        _ => Seq::empty(),
    };
    if at < met.len() {
        if walk[lo].kind is Directory {
            lemma_order_holds_files_alone(walk, walk[lo].depth, lo + 1, at);
        }
    } else {
        lemma_order_holds_files_alone(walk, floor, lo + 1, at - met.len());
    }
}

/// The fingerprint reads nothing but the shape of the walk and the bytes
/// of its files: two walks that hold the same files have the same
/// fingerprint.
pub proof fn lemma_same_files_same_fingerprint(
    first: Seq<WalkEntryView>,
    second: Seq<WalkEntryView>,
)
    requires
        same_files(first, second),
    ensures
        fingerprint(first) == fingerprint(second),
{
    if first.len() > 0 {
        lemma_order_from_shape(first, second, first[0].depth, 1);
        let order = hash_order(first);
        let rest = order_from(first, first[0].depth, 1);
        assert forall|at: int| 0 <= at < order.len() implies contents_at(first, order)[at]
            == contents_at(second, order)[at] by {
            let before = order.len() - rest.len();
            if at >= before {
                lemma_order_holds_files_alone(first, first[0].depth, 1, at - before);
            }
        }
        assert(contents_at(first, order) =~= contents_at(second, order));
    }
}

/// The order of folding depends on the shape of the walk alone.
pub proof fn lemma_order_from_shape(
    first: Seq<WalkEntryView>,
    second: Seq<WalkEntryView>,
    floor: int,
    lo: int,
)
    requires
        same_shape(first, second),
    ensures
        order_from(first, floor, lo) == order_from(second, floor, lo),
    decreases first.len() - lo,
{
    if 0 <= lo < first.len() && first[lo].depth > floor {
        lemma_order_from_shape(first, second, first[lo].depth, lo + 1);
        lemma_order_from_shape(first, second, floor, lo + 1);
    }
}

/// In the walk of a directory, every file before the end of that walk is folded.
proof fn lemma_order_from_holds_files(walk: Seq<WalkEntryView>, floor: int, lo: int, k: int)
    requires
        0 <= lo <= k < walk.len(),
        walk[k].kind is File,
        forall|i: int| lo <= i <= k ==> (#[trigger] walk[i]).depth > floor,
    ensures
        order_from(walk, floor, lo).contains(k),
    decreases k - lo,
{
    let met = match walk[lo].kind {
        EntryKind::File => seq![lo],
        EntryKind::Directory => order_from(walk, walk[lo].depth, lo + 1),
        _ => Seq::empty(),
    };
    let rest = order_from(walk, floor, lo + 1);
    if lo == k {
        assert((met + rest)[0] == k);
    } else {
        lemma_order_from_holds_files(walk, floor, lo + 1, k);
        let at = choose|at: int| 0 <= at < rest.len() && rest[at] == k;
        assert((met + rest)[met.len() + at] == k);
    }
}

/// Every file that a rooted walk lists is folded into its fingerprint.
pub proof fn lemma_files_are_folded(walk: Seq<WalkEntryView>, k: int)
    requires
        rooted(walk),
        0 <= k < walk.len(),
        walk[k].kind is File,
    ensures
        hash_order(walk).contains(k),
{
    let root = if walk[0].kind is File {
        seq![0int]
    } else {
        Seq::empty()
    };
    let rest = order_from(walk, walk[0].depth, 1);
    if k == 0 {
        assert((root + rest)[0] == 0);
    } else {
        lemma_order_from_holds_files(walk, walk[0].depth, 1, k);
        let at = choose|at: int| 0 <= at < rest.len() && rest[at] == k;
        assert((root + rest)[root.len() + at] == k);
    }
}

/// Two folds that start apart, or fold different contents, end apart unless
/// a step collides.
pub proof fn lemma_fold_diverges(
    first: Seq<Seq<u8>>,
    second: Seq<Seq<u8>>,
    seed_first: u32,
    seed_second: u32,
)
    requires
        first.len() == second.len(),
        no_collision(first, second, seed_first, seed_second),
        first != second || seed_first != seed_second,
    ensures
        fold_digest(first, seed_first) != fold_digest(second, seed_second),
    decreases first.len(),
{
    if first.len() == 0 {
        assert(first =~= second);
    } else {
        let next_first = xxh32_digest(first[0], seed_first);
        let next_second = xxh32_digest(second[0], seed_second);
        if first[0] == second[0] && seed_first == seed_second {
            if first.drop_first() == second.drop_first() {
                assert(first =~= seq![first[0]] + first.drop_first());
                assert(second =~= seq![second[0]] + second.drop_first());
            }
        }
        lemma_fold_diverges(first.drop_first(), second.drop_first(), next_first, next_second);
    }
}

/// Sensitivity: if a file of a rooted walk changes its contents, and all else
/// keeps its kind and depth, the fingerprint changes, unless a step of the
/// two folds hashes two different inputs to one digest.
pub proof fn lemma_fingerprint_sensitive(
    before: Seq<WalkEntryView>,
    after: Seq<WalkEntryView>,
    k: int,
)
    requires
        rooted(before),
        same_shape(before, after),
        0 <= k < before.len(),
        before[k].kind is File,
        before[k].content != after[k].content,
        no_collision(
            contents_at(before, hash_order(before)),
            contents_at(after, hash_order(after)),
            0,
            0,
        ),
    ensures
        fingerprint(before) != fingerprint(after),
{
    lemma_order_from_shape(before, after, before[0].depth, 1);
    lemma_files_are_folded(before, k);
    let order = hash_order(before);
    let at = choose|at: int| 0 <= at < order.len() && order[at] == k;
    assert(contents_at(before, order)[at] != contents_at(after, order)[at]);
    lemma_fold_diverges(contents_at(before, order), contents_at(after, order), 0, 0);
}

/// What a probe of `path` says: the path exists, it does not, or nothing
/// could be learned.
pub open spec fn probe_result(path: Seq<char>, probe: ReplyView) -> Result<bool, SyncErrorView> {
    match probe {
        ReplyView::Done => Ok(true),
        ReplyView::Missing => Ok(false),
        _ => Err(SyncErrorView::Io { step: IoStep::Probe, path, cause: probe.cause() }),
    }
}

/// Whether `path` exists, going by the host's answer to a probe of it. That
/// it is missing is an answer and no error; any other failure is one.
pub fn is_exists(path: &String, probe: Reply) -> (exists: Result<bool, SyncError>)
    ensures
        exists matches Ok(found) ==> probe_result(path@, probe@) == Ok::<bool, SyncErrorView>(
            found,
        ),
        exists matches Err(e) ==> probe_result(path@, probe@) == Err::<bool, SyncErrorView>(e@),
{
    match probe {
        Reply::Done => Ok(true),
        Reply::Missing => Ok(false),
        other => Err(
            SyncError::Io { step: IoStep::Probe, path: path.clone(), cause: other.into_cause() },
        ),
    }
}

/// The mathematical value of a [`TreeEntry`].
pub ghost struct TreeEntryView {
    pub relative: Seq<char>,
    pub is_dir: bool,
}

/// One entry of the walk of a tree that is to be copied: its path relative
/// to the root of the walk, empty for the root itself, and whether it is a
/// directory.
#[derive(Debug, PartialEq, Eq)]
pub struct TreeEntry {
    pub relative: String,
    pub is_dir: bool,
}

impl View for TreeEntry {
    type V = TreeEntryView;

    open spec fn view(&self) -> TreeEntryView {
        TreeEntryView { relative: self.relative@, is_dir: self.is_dir }
    }
}

/// The views of the entries of a tree, in walk order.
pub open spec fn tree_view(entries: Seq<TreeEntry>) -> Seq<TreeEntryView> {
    Seq::new(entries.len(), |i: int| entries[i]@)
}

/// The mathematical value of a [`CopyStep`].
pub ghost enum CopyStepView {
    MakeDir(Seq<char>),
    CopyFile(Seq<char>, Seq<char>),
}

/// One step of a copy.
#[derive(Debug, PartialEq, Eq)]
pub enum CopyStep {
    /// Create the directory at the path, and its parents as needed.
    MakeDir(String),
    /// Copy the bytes of the file at the first path to the second, over
    /// whatever file is there.
    CopyFile(String, String),
}

impl View for CopyStep {
    type V = CopyStepView;

    open spec fn view(&self) -> CopyStepView {
        match *self {
            CopyStep::MakeDir(path) => CopyStepView::MakeDir(path@),
            CopyStep::CopyFile(from, to) => CopyStepView::CopyFile(from@, to@),
        }
    }
}

/// The views of the steps of a plan, in order.
pub open spec fn plan_view(plan: Seq<CopyStep>) -> Seq<CopyStepView> {
    Seq::new(plan.len(), |i: int| plan[i]@)
}

/// The path of the entry at `relative` in the tree rooted at `root`: the
/// root itself where `relative` is empty.
pub open spec fn entry_path(root: Seq<char>, relative: Seq<char>) -> Seq<char> {
    if relative.len() == 0 {
        root
    } else {
        child_path(root, relative)
    }
}

/// The step that brings `entry` of the tree at `src` to the tree at `dest`.
pub open spec fn step_for(src: Seq<char>, dest: Seq<char>, entry: TreeEntryView) -> CopyStepView {
    if entry.is_dir {
        CopyStepView::MakeDir(entry_path(dest, entry.relative))
    } else {
        CopyStepView::CopyFile(entry_path(src, entry.relative), entry_path(dest, entry.relative))
    }
}

/// The steps that bring the tree at `src`, which `entries` lists, to `dest`:
/// one for each entry, in walk order.
pub open spec fn plan_for(src: Seq<char>, dest: Seq<char>, entries: Seq<TreeEntryView>) -> Seq<
    CopyStepView,
> {
    Seq::new(entries.len(), |i: int| step_for(src, dest, entries[i]))
}

/// Builds the path of the entry at `relative` in the tree rooted at `root`.
fn join_entry(root: &String, relative: &String) -> (path: String)
    ensures
        path@ == entry_path(root@, relative@),
{
    if relative.as_str().is_empty() {
        root.clone()
    } else {
        join_child(root, relative.as_str())
    }
}

/// The step that brings `entry` of the tree at `src` to the tree at `dest`.
pub fn copy_step(src: &String, dest: &String, entry: &TreeEntry) -> (step: CopyStep)
    ensures
        step@ == step_for(src@, dest@, entry@),
{
    if entry.is_dir {
        CopyStep::MakeDir(join_entry(dest, &entry.relative))
    } else {
        CopyStep::CopyFile(join_entry(src, &entry.relative), join_entry(dest, &entry.relative))
    }
}

/// The plan by which the tree at `src`, of which `entries` lists the walk,
/// is copied to `dest`: for each entry in walk order, its directory is
/// created below `dest`, or its file is copied to the same place below
/// `dest`. No step removes anything.
pub fn copy_directory(src: &String, dest: &String, entries: &Vec<TreeEntry>) -> (plan: Vec<
    CopyStep,
>)
    ensures
        plan_view(plan@) == plan_for(src@, dest@, tree_view(entries@)),
{
    let mut plan: Vec<CopyStep> = Vec::new();
    let mut i: usize = 0;
    while i < entries.len()
        invariant
            i <= entries.len(),
            plan.len() == i,
            forall|k: int|
                0 <= k < i ==> (#[trigger] plan[k])@ == step_for(src@, dest@, entries[k]@),
        decreases entries.len() - i,
    {
        plan.push(copy_step(src, dest, &entries[i]));
        i += 1;
    }
    plan
}

/// What a path of a tree holds.
pub ghost enum Node {
    Directory,
    File(Seq<u8>),
}

/// The tree after `step` was carried out on `tree`, where `source` gives
/// the bytes of the files that are read. A directory that is made, and a
/// file that is copied, take the place of what was at their path.
pub open spec fn carry_out(
    step: CopyStepView,
    source: Map<Seq<char>, Seq<u8>>,
    tree: Map<Seq<char>, Node>,
) -> Map<Seq<char>, Node> {
    match step {
        CopyStepView::MakeDir(path) => tree.insert(path, Node::Directory),
        CopyStepView::CopyFile(from, to) => tree.insert(to, Node::File(source[from])),
    }
}

/// The tree after the steps of `plan` were carried out on `tree` in order.
pub open spec fn carry_out_all(
    plan: Seq<CopyStepView>,
    source: Map<Seq<char>, Seq<u8>>,
    tree: Map<Seq<char>, Node>,
) -> Map<Seq<char>, Node>
    decreases plan.len(),
{
    if plan.len() == 0 {
        tree
    } else {
        carry_out(plan.last(), source, carry_out_all(plan.drop_last(), source, tree))
    }
}

/// The path that `step` writes.
pub open spec fn target(step: CopyStepView) -> Seq<char> {
    match step {
        CopyStepView::MakeDir(path) => path,
        CopyStepView::CopyFile(_, to) => to,
    }
}

/// Carrying out a plan on a tree overlays the tree with what the plan
/// writes on the empty tree.
pub proof fn lemma_plan_overlays(
    plan: Seq<CopyStepView>,
    source: Map<Seq<char>, Seq<u8>>,
    tree: Map<Seq<char>, Node>,
)
    ensures
        carry_out_all(plan, source, tree) == tree.union_prefer_right(
            carry_out_all(plan, source, Map::empty()),
        ),
    decreases plan.len(),
{
    if plan.len() > 0 {
        lemma_plan_overlays(plan.drop_last(), source, tree);
        let written = carry_out_all(plan.drop_last(), source, Map::empty());
        assert(carry_out(plan.last(), source, tree.union_prefer_right(written))
            =~= tree.union_prefer_right(carry_out(plan.last(), source, written)));
    }
}

/// Idempotence: copying the same unchanged tree a second time leaves the
/// destination as the first copy left it.
pub proof fn lemma_replication_idempotent(
    src: Seq<char>,
    dest: Seq<char>,
    entries: Seq<TreeEntryView>,
    source: Map<Seq<char>, Seq<u8>>,
    tree: Map<Seq<char>, Node>,
)
    ensures
        ({
            let plan = plan_for(src, dest, entries);
            let once = carry_out_all(plan, source, tree);
            carry_out_all(plan, source, once) == once
        }),
{
    let plan = plan_for(src, dest, entries);
    let once = carry_out_all(plan, source, tree);
    let written = carry_out_all(plan, source, Map::empty());
    lemma_plan_overlays(plan, source, tree);
    lemma_plan_overlays(plan, source, once);
    assert(tree.union_prefer_right(written).union_prefer_right(written)
        =~= tree.union_prefer_right(written));
}

/// A copy removes nothing: what the destination held at a path that no
/// step writes is there afterwards, and a path that held nothing and that
/// no step writes holds nothing afterwards.
pub proof fn lemma_replication_keeps_the_rest(
    plan: Seq<CopyStepView>,
    source: Map<Seq<char>, Seq<u8>>,
    tree: Map<Seq<char>, Node>,
    path: Seq<char>,
)
    requires
        forall|i: int| 0 <= i < plan.len() ==> target(#[trigger] plan[i]) != path,
    ensures
        carry_out_all(plan, source, tree).contains_key(path) == tree.contains_key(path),
        tree.contains_key(path) ==> carry_out_all(plan, source, tree)[path] == tree[path],
    decreases plan.len(),
{
    if plan.len() > 0 {
        lemma_replication_keeps_the_rest(plan.drop_last(), source, tree, path);
    }
}

} // verus!
