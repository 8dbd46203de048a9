//! The registry of managed pairs and hook paths.

use crate::error::SyncError;
use crate::error::SyncErrorView;
use vstd::prelude::*;
use vstd::string::*;

verus! {

/// The mathematical value of a [`Pair`].
pub ghost struct PairView {
    pub name: Seq<char>,
    pub place: Seq<char>,
}

/// A named binding between a live directory and its mirror in the store.
#[derive(Debug, PartialEq, Eq)]
pub struct Pair {
    /// The identifier of the pair, and the name of its mirror directory.
    pub name: String,
    /// The live directory.
    pub place: String,
}

impl View for Pair {
    type V = PairView;

    open spec fn view(&self) -> PairView {
        PairView { name: self.name@, place: self.place@ }
    }
}

impl Clone for Pair {
    fn clone(&self) -> (copy: Self)
        ensures
            copy == *self,
    {
        Pair { name: self.name.clone(), place: self.place.clone() }
    }
}

impl PairView {
    /// This pair has the name `name` or the place `place`.
    pub open spec fn clashes(self, name: Seq<char>, place: Seq<char>) -> bool {
        self.name == name || self.place == place
    }
}

/// The path of the entry `name` directly below the directory `base`.
pub open spec fn child_path(base: Seq<char>, name: Seq<char>) -> Seq<char> {
    base + seq!['/'] + name
}

/// Builds the path of the entry `name` directly below the directory `base`.
pub fn join_child(base: &String, name: &str) -> (path: String)
    ensures
        path@ == child_path(base@, name@),
{
    let mut path = base.clone();
    path.append("/");
    path.append(name);
    proof {
        reveal_strlit("/");
    }
    path
}

/// The name of the registry file below the store root.
pub open spec fn registry_file() -> Seq<char> {
    "dotman.toml"@
}

/// The path of the registry file of the store at `store_root`.
pub fn registry_path(store_root: &String) -> (path: String)
    ensures
        path@ == child_path(store_root@, registry_file()),
{
    join_child(store_root, "dotman.toml")
}

impl Pair {
    /// The directory below `store_root` that mirrors this pair's live
    /// directory. Whatever the name is, the mirror lies below the store root.
    pub fn path_in_dot(&self, store_root: &String) -> (path: String)
        ensures
            path@ == child_path(store_root@, self.name@),
    {
        join_child(store_root, self.name.as_str())
    }
}

/// The views of the pairs of a registry, in registry order.
pub open spec fn pairs_view(pairs: Seq<Pair>) -> Seq<PairView> {
    Seq::new(pairs.len(), |i: int| pairs[i]@)
}

/// The mathematical value of a [`Config`].
pub ghost struct ConfigView {
    pub pairs: Seq<PairView>,
    pub import_hook: Seq<char>,
    pub export_hook: Seq<char>,
    pub before_import_hook: Seq<char>,
    pub after_import_hook: Seq<char>,
}

impl ConfigView {
    /// The registry without pairs and without hooks.
    pub open spec fn empty() -> ConfigView {
        ConfigView {
            pairs: Seq::empty(),
            import_hook: Seq::empty(),
            export_hook: Seq::empty(),
            before_import_hook: Seq::empty(),
            after_import_hook: Seq::empty(),
        }
    }

    /// Some pair among the first `upto` has the name `name` or the place `place`.
    pub open spec fn conflicts_before(self, upto: int, name: Seq<char>, place: Seq<char>) -> bool {
        exists|i: int|
            0 <= i < upto && i < self.pairs.len() && (#[trigger] self.pairs[i]).clashes(
                name,
                place,
            )
    }

    /// Some registered pair has the name `name` or the place `place`.
    pub open spec fn conflicts(self, name: Seq<char>, place: Seq<char>) -> bool {
        self.conflicts_before(self.pairs.len() as int, name, place)
    }

    /// No two pairs share a name, and no two share a place.
    pub open spec fn valid(self) -> bool {
        forall|i: int, j: int|
            0 <= i < j < self.pairs.len() ==> (#[trigger] self.pairs[i]).name != (
            #[trigger] self.pairs[j]).name && self.pairs[i].place != self.pairs[j].place
    }

    /// The index of the first pair named `name`, or the number of pairs if there is none.
    pub open spec fn position(self, name: Seq<char>) -> int {
        self.position_from(0, name)
    }

    /// The index of the first pair at or after `from` named `name`, or the number
    /// of pairs if there is none.
    pub open spec fn position_from(self, from: int, name: Seq<char>) -> int
        decreases self.pairs.len() - from,
    {
        if from < 0 || from >= self.pairs.len() {
            self.pairs.len() as int
        } else if self.pairs[from].name == name {
            from
        } else {
            self.position_from(from + 1, name)
        }
    }

    /// This registry with one more pair at its end.
    pub open spec fn with_pair(self, name: Seq<char>, place: Seq<char>) -> ConfigView {
        ConfigView { pairs: self.pairs.push(PairView { name, place }), ..self }
    }
}

/// The persisted record: the managed pairs in insertion order, and the hooks.
/// A hook that is not set is the empty path.
#[derive(Debug, PartialEq, Eq)]
pub struct Config {
    /// The managed pairs, in the order in which they were added.
    pub pairs: Vec<Pair>,
    /// A hook for imports that is kept as it was read; no operation runs it.
    pub import_hook: String,
    /// The hook that follows an export in which a pair was applied.
    pub export_hook: String,
    /// The hook that runs before an import turns to its first pair.
    pub before_import_hook: String,
    /// The hook that follows an import in which a pair was applied.
    pub after_import_hook: String,
}

impl View for Config {
    type V = ConfigView;

    open spec fn view(&self) -> ConfigView {
        ConfigView {
            pairs: pairs_view(self.pairs@),
            import_hook: self.import_hook@,
            export_hook: self.export_hook@,
            before_import_hook: self.before_import_hook@,
            after_import_hook: self.after_import_hook@,
        }
    }
}

impl Clone for Config {
    fn clone(&self) -> (copy: Self)
        ensures
            copy@ == self@,
    {
        let mut pairs: Vec<Pair> = Vec::new();
        let mut i: usize = 0;
        while i < self.pairs.len()
            invariant
                i <= self.pairs.len(),
                pairs.len() == i,
                forall|k: int| 0 <= k < i ==> pairs[k] == self.pairs[k],
            decreases self.pairs.len() - i,
        {
            pairs.push(self.pairs[i].clone());
            i += 1;
        }
        assert(pairs_view(pairs@) =~= pairs_view(self.pairs@));
        Config {
            pairs,
            import_hook: self.import_hook.clone(),
            export_hook: self.export_hook.clone(),
            before_import_hook: self.before_import_hook.clone(),
            after_import_hook: self.after_import_hook.clone(),
        }
    }
}

impl Config {
    /// The fresh registry: no pairs, no hooks.
    pub fn init() -> (config: Config)
        ensures
            config@ == ConfigView::empty(),
            config@.valid(),
    {
        let config = Config {
            pairs: Vec::new(),
            import_hook: String::new(),
            export_hook: String::new(),
            before_import_hook: String::new(),
            after_import_hook: String::new(),
        };
        assert(config@.pairs =~= Seq::empty());
        config
    }

    /// Whether a pair of this registry already has the name `name` or the place `place`.
    pub fn conflict_check(&self, name: String, place: String) -> (conflict: bool)
        ensures
            conflict == self@.conflicts(name@, place@),
    {
        self.conflict_before(self.pairs.len(), &name, &place)
    }

    /// Whether one of the first `upto` pairs has the name `name` or the place `place`.
    fn conflict_before(&self, upto: usize, name: &String, place: &String) -> (conflict: bool)
        ensures
            conflict == self@.conflicts_before(upto as int, name@, place@),
    {
        let mut i: usize = 0;
        while i < upto && i < self.pairs.len()
            invariant
                forall|k: int|
                    0 <= k < i && k < self.pairs.len() ==> !(#[trigger] self@.pairs[k]).clashes(
                        name@,
                        place@,
                    ),
            decreases self.pairs.len() - i,
        {
            let each_pair = &self.pairs[i];
            if *name == each_pair.name || *place == each_pair.place {
                assert(self@.pairs[i as int].clashes(name@, place@));
                return true;
            }
            i += 1;
        }
        false
    }

    /// Accepts a registry as it was decoded from the registry file if no two
    /// of its pairs share a name or a place, and refuses it otherwise.
    pub fn read_config(decoded: Config) -> (loaded: Result<Config, SyncError>)
        ensures
            loaded is Ok <==> decoded@.valid(),
            loaded matches Ok(config) ==> config == decoded,
            loaded matches Err(e) ==> e@ == SyncErrorView::Serialization,
    {
        let mut i: usize = 0;
        while i < decoded.pairs.len()
            invariant
                i <= decoded.pairs.len(),
                forall|a: int, b: int|
                    0 <= a < b < i ==> (#[trigger] decoded@.pairs[a]).name != (
                    #[trigger] decoded@.pairs[b]).name && decoded@.pairs[a].place
                        != decoded@.pairs[b].place,
            decreases decoded.pairs.len() - i,
        {
            let each_pair = &decoded.pairs[i];
            assert(decoded@.pairs[i as int] == each_pair@);
            if decoded.conflict_before(i, &each_pair.name, &each_pair.place) {
                return Err(SyncError::Serialization);
            }
            i += 1;
        }
        Ok(decoded)
    }

    /// The index of the first pair named `name`, or the number of pairs if
    /// no pair has that name.
    pub fn find(&self, name: &String) -> (index: usize)
        ensures
            index == self@.position(name@),
            index <= self.pairs.len(),
    {
        let mut i: usize = 0;
        while i < self.pairs.len()
            invariant
                i <= self.pairs.len(),
                self@.position(name@) == self@.position_from(i as int, name@),
            decreases self.pairs.len() - i,
        {
            if *name == self.pairs[i].name {
                return i;
            }
            i += 1;
        }
        i
    }
}

/// A registry in which no two pairs share a name or a place stays so when a
/// pair is appended that conflicts with none of its pairs, and only then.
pub proof fn lemma_append_keeps_validity(config: ConfigView, name: Seq<char>, place: Seq<char>)
    requires
        config.valid(),
    ensures
        config.with_pair(name, place).valid() <==> !config.conflicts(name, place),
{
    let grown = config.with_pair(name, place);
    let last = config.pairs.len() as int;
    if config.conflicts(name, place) {
        let i = choose|i: int|
            0 <= i < config.pairs.len() && (#[trigger] config.pairs[i]).clashes(name, place);
        assert(grown.pairs[i] == config.pairs[i]);
        assert(grown.pairs[last] == PairView { name, place });
        assert(!grown.valid());
    } else {
        assert forall|i: int, j: int| 0 <= i < j < grown.pairs.len() implies (
        #[trigger] grown.pairs[i]).name != (#[trigger] grown.pairs[j]).name && grown.pairs[i].place
            != grown.pairs[j].place by {
            if j < last {
                assert(grown.pairs[i] == config.pairs[i]);
                assert(grown.pairs[j] == config.pairs[j]);
            } else {
                assert(grown.pairs[i] == config.pairs[i]);
                assert(!config.pairs[i].clashes(name, place));
            }
        }
    }
}

} // verus!
