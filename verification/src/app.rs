//! The sync engine: add, export and import, one request at a time.
//!
//! An operation begins with a call that names it and yields the first
//! [`Request`]. The host carries the request out and hands its [`Reply`] to
//! [`App::step`], which yields the next request, until the request is
//! [`Request::Finish`]. What the engine does is the function [`AppView::next`];
//! what holds of every run of it is stated and proved in [`crate::trace`].

use crate::cli::Actions;
use crate::config::child_path;
use crate::config::join_child;
use crate::config::registry_file;
use crate::config::registry_path;
use crate::config::Config;
use crate::config::ConfigView;
use crate::config::Pair;
use crate::config::PairView;
use crate::error::IoStep;
use crate::error::SyncError;
use crate::error::SyncErrorView;
use crate::host::Outcome;
use crate::host::Reply;
use crate::host::ReplyView;
use crate::host::Request;
use crate::host::RequestView;
use crate::util::is_exists;
use crate::util::probe_result;
use vstd::prelude::*;

verus! {

/// Which side of a pair an operation favours.
#[derive(Clone, Copy, Debug, PartialEq, Eq)]
pub enum Direction {
    /// The live directory is copied over its mirror.
    Export,
    /// The mirror is copied over the live directory.
    Import,
}

/// How the two sides of a pair stand to each other, as an operation sees it.
#[derive(Clone, Copy, Debug, PartialEq, Eq)]
pub enum PairState {
    /// Both sides have the same fingerprint.
    Unchanged,
    /// The sides differ, and an export copies the live directory over the mirror.
    LiveChanged,
    /// The sides differ, and an import copies the mirror over the live directory.
    MirrorChanged,
}

/// The state of a pair whose live directory has the fingerprint `live` and
/// whose mirror has the fingerprint `mirror`, for an operation in `direction`.
pub open spec fn pair_state(direction: Direction, live: u32, mirror: u32) -> PairState {
    if live == mirror {
        PairState::Unchanged
    } else {
        match direction {
            Direction::Export => PairState::LiveChanged,
            Direction::Import => PairState::MirrorChanged,
        }
    }
}

/// Tells whether a pair has drifted: whether its two fingerprints differ,
/// and which side the operation then takes to have changed.
pub fn drift(direction: Direction, live: u32, mirror: u32) -> (state: PairState)
    ensures
        state == pair_state(direction, live, mirror),
{
    if live == mirror {
        PairState::Unchanged
    } else {
        match direction {
            Direction::Export => PairState::LiveChanged,
            Direction::Import => PairState::MirrorChanged,
        }
    }
}

/// Where the engine stands: which answer it waits for.
#[derive(Clone, Copy, Debug, PartialEq, Eq)]
pub enum Phase {
    /// No operation is under way.
    Idle,
    /// Init: the old store root is being removed.
    InitRemove,
    /// Init: the store root is being created.
    InitCreate,
    /// Init: the empty registry is being written.
    InitPersist,
    /// Add: the place is being probed.
    AddProbe,
    /// Add: a stale mirror is being removed.
    AddRemove,
    /// Add: the place is being copied to its mirror.
    AddCopy,
    /// Add: the registry is being written.
    AddPersist,
    /// Import: the hook that runs before any pair is under way.
    BeforeHook,
    /// Import: the live directory of the pair is being probed.
    Probe,
    /// Import: the missing live directory is being created.
    Create,
    /// The live directory is being fingerprinted.
    HashLive,
    /// The mirror is being fingerprinted.
    HashMirror,
    /// The side that lost is being removed.
    Remove,
    /// Import: the live directory, which was gone at its removal, is being created.
    Recreate,
    /// The side that won is being copied over the other.
    Copy,
    /// The registry is being written.
    Persist,
    /// The hook of a named pair is under way.
    PairHook,
    /// The user is being told what became of the pair.
    Report,
    /// The hook that follows a batch is under way.
    BatchHook,
}

/// The mathematical value of an [`App`].
pub ghost struct AppView {
    /// The registry.
    pub config: ConfigView,
    /// The directory that holds the mirrors and the registry file.
    pub store_root: Seq<char>,
    pub phase: Phase,
    pub direction: Direction,
    /// The operation was asked for one pair by name.
    pub single: bool,
    /// The index of the pair that is being processed.
    pub cursor: int,
    /// One more than the index of the last pair to process.
    pub end: int,
    /// A pair of this operation was applied.
    pub changed: bool,
    /// The fingerprint of the live directory of the pair that is being processed.
    pub live_hash: u32,
    /// The name of the pair that is being added.
    pub name: Seq<char>,
    /// The place of the pair that is being added.
    pub place: Seq<char>,
}

impl AppView {
    /// The engine at rest with the registry `config` and the store at `store_root`.
    pub open spec fn fresh(config: ConfigView, store_root: Seq<char>) -> AppView {
        AppView {
            config,
            store_root,
            phase: Phase::Idle,
            direction: Direction::Export,
            single: false,
            cursor: 0,
            end: 0,
            changed: false,
            live_hash: 0,
            name: Seq::empty(),
            place: Seq::empty(),
        }
    }

    /// The path of the registry file.
    pub open spec fn registry_path(self) -> Seq<char> {
        child_path(self.store_root, registry_file())
    }

    /// The cursor stands on a pair of the registry.
    pub open spec fn on_pair(self) -> bool {
        0 <= self.cursor < self.config.pairs.len()
    }

    /// The pair that is being processed.
    pub open spec fn pair(self) -> PairView {
        self.config.pairs[self.cursor]
    }

    /// The live directory of the pair that is being processed.
    pub open spec fn live(self) -> Seq<char> {
        self.pair().place
    }

    /// The mirror of the pair that is being processed.
    pub open spec fn mirror(self) -> Seq<char> {
        child_path(self.store_root, self.pair().name)
    }

    /// The side that the operation copies from.
    pub open spec fn winner(self) -> Seq<char> {
        match self.direction {
            Direction::Export => self.live(),
            Direction::Import => self.mirror(),
        }
    }

    /// The side that the operation removes and copies to.
    pub open spec fn loser(self) -> Seq<char> {
        match self.direction {
            Direction::Export => self.mirror(),
            Direction::Import => self.live(),
        }
    }

    /// The hook that follows pairs that were applied.
    pub open spec fn hook(self) -> Seq<char> {
        match self.direction {
            Direction::Export => self.config.export_hook,
            Direction::Import => self.config.after_import_hook,
        }
    }

    /// The mirror of the pair that is being added.
    pub open spec fn new_mirror(self) -> Seq<char> {
        child_path(self.store_root, self.name)
    }

    /// The engine waits in `phase`, having asked for `request`.
    pub open spec fn ask(self, phase: Phase, request: RequestView) -> (AppView, RequestView) {
        (AppView { phase, ..self }, request)
    }

    /// The operation ends with `result`.
    pub open spec fn finish(self, result: Result<(), SyncErrorView>) -> (AppView, RequestView) {
        self.ask(Phase::Idle, RequestView::Finish(result))
    }

    /// The operation ends because `step` failed on `path` with the answer `reply`.
    pub open spec fn io_failure(self, step: IoStep, path: Seq<char>, reply: ReplyView) -> (
        AppView,
        RequestView,
    ) {
        self.finish(Err(SyncErrorView::Io { step, path, cause: reply.cause() }))
    }

    /// The engine turns to the pair at the cursor, or, where none is left,
    /// ends the operation: after a batch in which a pair was applied, with
    /// the hook.
    pub open spec fn begin_pair(self) -> (AppView, RequestView) {
        if self.cursor < self.end && self.on_pair() {
            match self.direction {
                Direction::Export => self.ask(
                    Phase::HashLive,
                    RequestView::Fingerprint(self.live()),
                ),
                Direction::Import => self.ask(Phase::Probe, RequestView::Probe(self.live())),
            }
        } else if !self.single && self.changed {
            self.ask(Phase::BatchHook, RequestView::InvokeHook(self.hook()))
        } else {
            self.finish(Ok(()))
        }
    }

    /// Where an operation in `direction` starts: with the named pair alone,
    /// with no pair if no pair has that name, or with all pairs.
    pub open spec fn select(self, direction: Direction, name: Option<Seq<char>>) -> AppView {
        match name {
            Some(wanted) => {
                let at = self.config.position(wanted);
                AppView {
                    direction,
                    single: true,
                    cursor: at,
                    end: if at < self.config.pairs.len() {
                        at + 1
                    } else {
                        at
                    },
                    changed: false,
                    ..self
                }
            },
            None => AppView {
                direction,
                single: false,
                cursor: 0,
                end: self.config.pairs.len() as int,
                changed: false,
                ..self
            },
        }
    }

    /// Init begins: the registry is emptied, and the store root is to be removed.
    pub open spec fn begin_init(self) -> (AppView, RequestView) {
        AppView { config: ConfigView::empty(), ..self }.ask(
            Phase::InitRemove,
            RequestView::RemoveTree(self.store_root),
        )
    }

    /// Add begins: the place is to be probed.
    pub open spec fn begin_add(self, name: Seq<char>, place: Seq<char>) -> (AppView, RequestView) {
        AppView { name, place, ..self }.ask(Phase::AddProbe, RequestView::Probe(place))
    }

    /// Export begins. If a name is given that no pair has, it ends at once
    /// with an error, and nothing is asked of the host.
    pub open spec fn begin_export(self, name: Option<Seq<char>>) -> (AppView, RequestView) {
        match name {
            Some(wanted) if self.config.position(wanted) >= self.config.pairs.len() => self.finish(
                Err(SyncErrorView::NotFound { what: wanted }),
            ),
            _ => self.select(Direction::Export, name).begin_pair(),
        }
    }

    /// Import begins: the hook that runs before any pair is to be invoked.
    /// A name that no pair has selects no pair.
    pub open spec fn begin_import(self, name: Option<Seq<char>>) -> (AppView, RequestView) {
        self.select(Direction::Import, name).ask(
            Phase::BeforeHook,
            RequestView::InvokeHook(self.config.before_import_hook),
        )
    }

    /// The state after the host answered `reply`, and the next request.
    pub open spec fn next(self, reply: ReplyView) -> (AppView, RequestView) {
        match self.phase {
            Phase::Idle => self.finish(Ok(())),
            Phase::InitRemove => match reply {
                ReplyView::Done | ReplyView::Missing => self.ask(
                    Phase::InitCreate,
                    RequestView::CreateDir(self.store_root),
                ),
                _ => self.io_failure(IoStep::Remove, self.store_root, reply),
            },
            Phase::InitCreate => match reply {
                ReplyView::Done => self.ask(
                    Phase::InitPersist,
                    RequestView::Persist(self.registry_path()),
                ),
                _ => self.io_failure(IoStep::Create, self.store_root, reply),
            },
            Phase::InitPersist | Phase::AddPersist => match reply {
                ReplyView::Done => self.finish(Ok(())),
                _ => self.io_failure(IoStep::Persist, self.registry_path(), reply),
            },
            Phase::AddProbe => match probe_result(self.place, reply) {
                Ok(true) => if self.config.conflicts(self.name, self.place) {
                    self.finish(
                        Err(SyncErrorView::Conflict { name: self.name, place: self.place }),
                    )
                } else {
                    self.ask(Phase::AddRemove, RequestView::RemoveTree(self.new_mirror()))
                },
                Ok(false) => self.finish(Err(SyncErrorView::NotFound { what: self.place })),
                Err(e) => self.finish(Err(e)),
            },
            Phase::AddRemove => match reply {
                ReplyView::Done | ReplyView::Missing => self.ask(
                    Phase::AddCopy,
                    RequestView::Replicate(self.place, self.new_mirror()),
                ),
                _ => self.io_failure(IoStep::Remove, self.new_mirror(), reply),
            },
            Phase::AddCopy => match reply {
                ReplyView::Done => AppView {
                    config: self.config.with_pair(self.name, self.place),
                    ..self
                }.ask(Phase::AddPersist, RequestView::Persist(self.registry_path())),
                _ => self.io_failure(IoStep::Copy, self.place, reply),
            },
            Phase::BeforeHook => match reply {
                ReplyView::Done => self.begin_pair(),
                _ => self.finish(
                    Err(SyncErrorView::HookStart { hook: self.config.before_import_hook }),
                ),
            },
            Phase::BatchHook => match reply {
                ReplyView::Done => self.finish(Ok(())),
                _ => self.finish(Err(SyncErrorView::HookStart { hook: self.hook() })),
            },
            _ => if self.on_pair() {
                self.next_on_pair(reply)
            } else {
                self.finish(Ok(()))
            },
        }
    }

    /// The state after the host answered `reply` while a pair is being
    /// processed, and the next request.
    pub open spec fn next_on_pair(self, reply: ReplyView) -> (AppView, RequestView) {
        match self.phase {
            Phase::Probe => match probe_result(self.live(), reply) {
                Ok(true) => self.ask(Phase::HashLive, RequestView::Fingerprint(self.live())),
                Ok(false) => self.ask(Phase::Create, RequestView::CreateDir(self.live())),
                Err(e) => self.finish(Err(e)),
            },
            Phase::Create => match reply {
                ReplyView::Done => self.ask(Phase::HashLive, RequestView::Fingerprint(self.live())),
                _ => self.io_failure(IoStep::Create, self.live(), reply),
            },
            Phase::HashLive => match reply {
                ReplyView::Digest(digest) => AppView { live_hash: digest, ..self }.ask(
                    Phase::HashMirror,
                    RequestView::Fingerprint(self.mirror()),
                ),
                _ => self.io_failure(IoStep::Fingerprint, self.live(), reply),
            },
            Phase::HashMirror => match reply {
                ReplyView::Digest(digest) => match pair_state(
                    self.direction,
                    self.live_hash,
                    digest,
                ) {
                    PairState::Unchanged => self.ask(
                        Phase::Report,
                        RequestView::Report(self.pair().name, Outcome::Skipped),
                    ),
                    _ => self.ask(Phase::Remove, RequestView::RemoveTree(self.loser())),
                },
                _ => self.io_failure(IoStep::Fingerprint, self.mirror(), reply),
            },
            Phase::Remove => match reply {
                ReplyView::Done => self.ask(
                    Phase::Copy,
                    RequestView::Replicate(self.winner(), self.loser()),
                ),
                ReplyView::Missing => match self.direction {
                    Direction::Export => self.ask(
                        Phase::Copy,
                        RequestView::Replicate(self.winner(), self.loser()),
                    ),
                    Direction::Import => self.ask(
                        Phase::Recreate,
                        RequestView::CreateDir(self.live()),
                    ),
                },
                _ => self.io_failure(IoStep::Remove, self.loser(), reply),
            },
            Phase::Recreate => match reply {
                ReplyView::Done => self.ask(
                    Phase::Copy,
                    RequestView::Replicate(self.winner(), self.loser()),
                ),
                _ => self.io_failure(IoStep::Create, self.live(), reply),
            },
            Phase::Copy => match reply {
                ReplyView::Done => AppView { changed: true, ..self }.ask(
                    Phase::Persist,
                    RequestView::Persist(self.registry_path()),
                ),
                _ => self.io_failure(IoStep::Copy, self.winner(), reply),
            },
            Phase::Persist => match reply {
                ReplyView::Done => if self.single {
                    self.ask(Phase::PairHook, RequestView::InvokeHook(self.hook()))
                } else {
                    self.ask(Phase::Report, RequestView::Report(self.pair().name, Outcome::Applied))
                },
                _ => self.io_failure(IoStep::Persist, self.registry_path(), reply),
            },
            Phase::PairHook => match reply {
                ReplyView::Done => self.ask(
                    Phase::Report,
                    RequestView::Report(self.pair().name, Outcome::Applied),
                ),
                _ => self.finish(Err(SyncErrorView::HookStart { hook: self.hook() })),
            },
            Phase::Report => AppView { cursor: self.cursor + 1, ..self }.begin_pair(),
            _ => self.finish(Ok(())),
        }
    }

    /// What `action` begins.
    pub open spec fn begin(self, action: ActionsView) -> (AppView, RequestView) {
        match action {
            ActionsView::Init => self.begin_init(),
            ActionsView::Add { name, place } => self.begin_add(name, place),
            ActionsView::Export { name } => self.begin_export(name),
            ActionsView::Import { name } => self.begin_import(name),
        }
    }
}

/// The mathematical value of an [`Actions`].
#[allow(inconsistent_fields)]
pub ghost enum ActionsView {
    Init,
    Add { name: Seq<char>, place: Seq<char> },
    Export { name: Option<Seq<char>> },
    Import { name: Option<Seq<char>> },
}

/// The view of a name that may be absent.
pub open spec fn name_view(name: Option<String>) -> Option<Seq<char>> {
    match name {
        Some(n) => Some(n@),
        None => None,
    }
}

/// The view of a command.
pub open spec fn actions_view(action: Actions) -> ActionsView {
    match action {
        Actions::Init => ActionsView::Init,
        Actions::Add { name, place } => ActionsView::Add { name: name@, place: place@ },
        Actions::Export { name } => ActionsView::Export { name: name_view(name) },
        Actions::Import { name } => ActionsView::Import { name: name_view(name) },
    }
}

/// The sync engine with its registry.
pub struct App {
    config: Config,
    store_root: String,
    phase: Phase,
    direction: Direction,
    single: bool,
    cursor: usize,
    end: usize,
    changed: bool,
    live_hash: u32,
    name: String,
    place: String,
}

impl View for App {
    type V = AppView;

    closed spec fn view(&self) -> AppView {
        AppView {
            config: self.config@,
            store_root: self.store_root@,
            phase: self.phase,
            direction: self.direction,
            single: self.single,
            cursor: self.cursor as int,
            end: self.end as int,
            changed: self.changed,
            live_hash: self.live_hash,
            name: self.name@,
            place: self.place@,
        }
    }
}

impl App {
    /// The engine at rest, with the registry `config` and the store at `store_root`.
    pub fn new(config: Config, store_root: String) -> (app: Self)
        ensures
            app@ == AppView::fresh(config@, store_root@),
    {
        App {
            config,
            store_root,
            phase: Phase::Idle,
            direction: Direction::Export,
            single: false,
            cursor: 0,
            end: 0,
            changed: false,
            live_hash: 0,
            name: String::new(),
            place: String::new(),
        }
    }

    /// The registry as it stands.
    pub fn config(&self) -> (config: &Config)
        ensures
            config@ == self@.config,
    {
        &self.config
    }

    /// The directory that holds the mirrors and the registry file.
    pub fn store_root(&self) -> (root: &String)
        ensures
            root@ == self@.store_root,
    {
        &self.store_root
    }

    /// Which answer the engine waits for.
    pub fn phase(&self) -> (phase: Phase)
        ensures
            phase == self@.phase,
    {
        self.phase
    }

    fn registry_path(&self) -> (path: String)
        ensures
            path@ == self@.registry_path(),
    {
        registry_path(&self.store_root)
    }

    fn live(&self) -> (path: String)
        requires
            self@.on_pair(),
        ensures
            path@ == self@.live(),
    {
        self.config.pairs[self.cursor].place.clone()
    }

    fn mirror(&self) -> (path: String)
        requires
            self@.on_pair(),
        ensures
            path@ == self@.mirror(),
    {
        self.config.pairs[self.cursor].path_in_dot(&self.store_root)
    }

    fn pair_name(&self) -> (name: String)
        requires
            self@.on_pair(),
        ensures
            name@ == self@.pair().name,
    {
        self.config.pairs[self.cursor].name.clone()
    }

    fn winner(&self) -> (path: String)
        requires
            self@.on_pair(),
        ensures
            path@ == self@.winner(),
    {
        match self.direction {
            Direction::Export => self.live(),
            Direction::Import => self.mirror(),
        }
    }

    fn loser(&self) -> (path: String)
        requires
            self@.on_pair(),
        ensures
            path@ == self@.loser(),
    {
        match self.direction {
            Direction::Export => self.mirror(),
            Direction::Import => self.live(),
        }
    }

    fn hook(&self) -> (path: String)
        ensures
            path@ == self@.hook(),
    {
        match self.direction {
            Direction::Export => self.config.export_hook.clone(),
            Direction::Import => self.config.after_import_hook.clone(),
        }
    }

    fn new_mirror(&self) -> (path: String)
        ensures
            path@ == self@.new_mirror(),
    {
        join_child(&self.store_root, self.name.as_str())
    }

    fn ask(&mut self, phase: Phase, request: Request) -> (asked: Request)
        ensures
            (final(self)@, asked@) == old(self)@.ask(phase, request@),
    {
        self.phase = phase;
        request
    }

    fn finish(&mut self, result: Result<(), SyncError>) -> (asked: Request)
        ensures
            (final(self)@, asked@) == old(self)@.finish(
                match result {
                    Ok(_) => Ok(()),
                    Err(e) => Err(e@),
                },
            ),
    {
        self.ask(Phase::Idle, Request::Finish(result))
    }

    fn io_failure(&mut self, step: IoStep, path: String, reply: Reply) -> (asked: Request)
        ensures
            (final(self)@, asked@) == old(self)@.io_failure(step, path@, reply@),
    {
        self.finish(Err(SyncError::Io { step, path, cause: reply.into_cause() }))
    }

    fn begin_pair(&mut self) -> (asked: Request)
        ensures
            (final(self)@, asked@) == old(self)@.begin_pair(),
    {
        if self.cursor < self.end && self.cursor < self.config.pairs.len() {
            let live = self.live();
            match self.direction {
                Direction::Export => self.ask(Phase::HashLive, Request::Fingerprint(live)),
                Direction::Import => self.ask(Phase::Probe, Request::Probe(live)),
            }
        } else if !self.single && self.changed {
            let hook = self.hook();
            self.ask(Phase::BatchHook, Request::InvokeHook(hook))
        } else {
            self.finish(Ok(()))
        }
    }

    fn select(&mut self, direction: Direction, name: &Option<String>)
        ensures
            final(self)@ == old(self)@.select(direction, name_view(*name)),
    {
        self.direction = direction;
        self.changed = false;
        match name {
            Some(wanted) => {
                let at = self.config.find(wanted);
                self.single = true;
                self.cursor = at;
                self.end = if at < self.config.pairs.len() {
                    at + 1
                } else {
                    at
                };
            },
            None => {
                self.single = false;
                self.cursor = 0;
                self.end = self.config.pairs.len();
            },
        }
    }

    /// Begins the making of a fresh store. What the old store held is
    /// lost: the caller asks the user first.
    pub fn init_config(&mut self) -> (first: Request)
        ensures
            (final(self)@, first@) == old(self)@.begin_init(),
    {
        self.config = Config::init();
        let root = self.store_root.clone();
        self.ask(Phase::InitRemove, Request::RemoveTree(root))
    }

    /// Begins the registration of the directory `place` under `name`.
    pub fn add_config(&mut self, name: String, place: String) -> (first: Request)
        ensures
            (final(self)@, first@) == old(self)@.begin_add(name@, place@),
    {
        let probed = place.clone();
        self.name = name;
        self.place = place;
        self.ask(Phase::AddProbe, Request::Probe(probed))
    }

    /// Begins an export of the pair named `name`, or of all pairs.
    pub fn export_config(&mut self, name: Option<String>) -> (first: Request)
        ensures
            (final(self)@, first@) == old(self)@.begin_export(name_view(name)),
    {
        match &name {
            Some(wanted) => {
                if self.config.find(wanted) >= self.config.pairs.len() {
                    return self.finish(Err(SyncError::NotFound { what: wanted.clone() }));
                }
            },
            None => {},
        }
        self.select(Direction::Export, &name);
        self.begin_pair()
    }

    /// Begins an import of the pair named `name`, or of all pairs.
    pub fn import_config(&mut self, name: Option<String>) -> (first: Request)
        ensures
            (final(self)@, first@) == old(self)@.begin_import(name_view(name)),
    {
        self.select(Direction::Import, &name);
        let hook = self.config.before_import_hook.clone();
        self.ask(Phase::BeforeHook, Request::InvokeHook(hook))
    }

    /// Begins what `action` asks for.
    pub fn begin(&mut self, action: Actions) -> (first: Request)
        ensures
            (final(self)@, first@) == old(self)@.begin(actions_view(action)),
    {
        match action {
            Actions::Init => self.init_config(),
            Actions::Add { name, place } => self.add_config(name, place),
            Actions::Export { name } => self.export_config(name),
            Actions::Import { name } => self.import_config(name),
        }
    }

    /// Takes the host's answer to the last request and yields the next one.
    pub fn step(&mut self, reply: Reply) -> (request: Request)
        ensures
            (final(self)@, request@) == old(self)@.next(reply@),
    {
        match self.phase {
            Phase::Idle => self.finish(Ok(())),
            Phase::InitRemove => match reply {
                Reply::Done | Reply::Missing => {
                    let root = self.store_root.clone();
                    self.ask(Phase::InitCreate, Request::CreateDir(root))
                },
                other => {
                    let root = self.store_root.clone();
                    self.io_failure(IoStep::Remove, root, other)
                },
            },
            Phase::InitCreate => match reply {
                Reply::Done => {
                    let path = self.registry_path();
                    self.ask(Phase::InitPersist, Request::Persist(path))
                },
                other => {
                    let root = self.store_root.clone();
                    self.io_failure(IoStep::Create, root, other)
                },
            },
            Phase::InitPersist | Phase::AddPersist => match reply {
                Reply::Done => self.finish(Ok(())),
                other => {
                    let path = self.registry_path();
                    self.io_failure(IoStep::Persist, path, other)
                },
            },
            Phase::AddProbe => self.step_add_probe(reply),
            Phase::AddRemove => match reply {
                Reply::Done | Reply::Missing => {
                    let from = self.place.clone();
                    let to = self.new_mirror();
                    self.ask(Phase::AddCopy, Request::Replicate(from, to))
                },
                other => {
                    let path = self.new_mirror();
                    self.io_failure(IoStep::Remove, path, other)
                },
            },
            Phase::AddCopy => match reply {
                Reply::Done => {
                    let ghost before = self.config@;
                    let pair = Pair { name: self.name.clone(), place: self.place.clone() };
                    self.config.pairs.push(pair);
                    proof {
                        assert(self.config@.pairs =~= before.with_pair(
                            self.name@,
                            self.place@,
                        ).pairs);
                    }
                    let path = self.registry_path();
                    self.ask(Phase::AddPersist, Request::Persist(path))
                },
                other => {
                    let path = self.place.clone();
                    self.io_failure(IoStep::Copy, path, other)
                },
            },
            Phase::BeforeHook => match reply {
                Reply::Done => self.begin_pair(),
                _ => {
                    let hook = self.config.before_import_hook.clone();
                    self.finish(Err(SyncError::HookStart { hook }))
                },
            },
            Phase::BatchHook => match reply {
                Reply::Done => self.finish(Ok(())),
                _ => {
                    let hook = self.hook();
                    self.finish(Err(SyncError::HookStart { hook }))
                },
            },
            _ => if self.cursor < self.config.pairs.len() {
                self.step_on_pair(reply)
            } else {
                self.finish(Ok(()))
            },
        }
    }

    fn step_add_probe(&mut self, reply: Reply) -> (request: Request)
        requires
            old(self)@.phase == Phase::AddProbe,
        ensures
            (final(self)@, request@) == old(self)@.next(reply@),
    {
        match is_exists(&self.place, reply) {
            Ok(true) => {
                if self.config.conflict_check(self.name.clone(), self.place.clone()) {
                    let error = SyncError::Conflict {
                        name: self.name.clone(),
                        place: self.place.clone(),
                    };
                    self.finish(Err(error))
                } else {
                    let path = self.new_mirror();
                    self.ask(Phase::AddRemove, Request::RemoveTree(path))
                }
            },
            Ok(false) => {
                let error = SyncError::NotFound { what: self.place.clone() };
                self.finish(Err(error))
            },
            Err(e) => self.finish(Err(e)),
        }
    }

    fn step_on_pair(&mut self, reply: Reply) -> (request: Request)
        requires
            old(self)@.on_pair(),
        ensures
            (final(self)@, request@) == old(self)@.next_on_pair(reply@),
    {
        match self.phase {
            Phase::Probe => {
                let live = self.live();
                match is_exists(&live, reply) {
                    Ok(true) => self.ask(Phase::HashLive, Request::Fingerprint(live)),
                    Ok(false) => self.ask(Phase::Create, Request::CreateDir(live)),
                    Err(e) => self.finish(Err(e)),
                }
            },
            Phase::Create => {
                let live = self.live();
                match reply {
                    Reply::Done => self.ask(Phase::HashLive, Request::Fingerprint(live)),
                    other => self.io_failure(IoStep::Create, live, other),
                }
            },
            Phase::HashLive => match reply {
                Reply::Digest(digest) => {
                    self.live_hash = digest;
                    let mirror = self.mirror();
                    self.ask(Phase::HashMirror, Request::Fingerprint(mirror))
                },
                other => {
                    let live = self.live();
                    self.io_failure(IoStep::Fingerprint, live, other)
                },
            },
            Phase::HashMirror => match reply {
                Reply::Digest(digest) => match drift(self.direction, self.live_hash, digest) {
                    PairState::Unchanged => {
                        let name = self.pair_name();
                        self.ask(Phase::Report, Request::Report(name, Outcome::Skipped))
                    },
                    _ => {
                        let loser = self.loser();
                        self.ask(Phase::Remove, Request::RemoveTree(loser))
                    },
                },
                other => {
                    let mirror = self.mirror();
                    self.io_failure(IoStep::Fingerprint, mirror, other)
                },
            },
            Phase::Remove => match reply {
                Reply::Done => {
                    let from = self.winner();
                    let to = self.loser();
                    self.ask(Phase::Copy, Request::Replicate(from, to))
                },
                Reply::Missing => match self.direction {
                    Direction::Export => {
                        let from = self.winner();
                        let to = self.loser();
                        self.ask(Phase::Copy, Request::Replicate(from, to))
                    },
                    Direction::Import => {
                        let live = self.live();
                        self.ask(Phase::Recreate, Request::CreateDir(live))
                    },
                },
                other => {
                    let loser = self.loser();
                    self.io_failure(IoStep::Remove, loser, other)
                },
            },
            Phase::Recreate => match reply {
                Reply::Done => {
                    let from = self.winner();
                    let to = self.loser();
                    self.ask(Phase::Copy, Request::Replicate(from, to))
                },
                other => {
                    let live = self.live();
                    self.io_failure(IoStep::Create, live, other)
                },
            },
            Phase::Copy => match reply {
                Reply::Done => {
                    self.changed = true;
                    let path = self.registry_path();
                    self.ask(Phase::Persist, Request::Persist(path))
                },
                other => {
                    let winner = self.winner();
                    self.io_failure(IoStep::Copy, winner, other)
                },
            },
            Phase::Persist => match reply {
                Reply::Done => {
                    if self.single {
                        let hook = self.hook();
                        self.ask(Phase::PairHook, Request::InvokeHook(hook))
                    } else {
                        let name = self.pair_name();
                        self.ask(Phase::Report, Request::Report(name, Outcome::Applied))
                    }
                },
                other => {
                    let path = self.registry_path();
                    self.io_failure(IoStep::Persist, path, other)
                },
            },
            Phase::PairHook => match reply {
                Reply::Done => {
                    let name = self.pair_name();
                    self.ask(Phase::Report, Request::Report(name, Outcome::Applied))
                },
                _ => {
                    let hook = self.hook();
                    self.finish(Err(SyncError::HookStart { hook }))
                },
            },
            Phase::Report => {
                assert(self.cursor < self.config.pairs.len());
                self.cursor = self.cursor + 1;
                self.begin_pair()
            },
            _ => self.finish(Ok(())),
        }
    }
}

} // verus!
