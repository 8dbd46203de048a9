//! Runs of the engine, and what holds of every run.

use crate::app::ActionsView;
use crate::app::AppView;
use crate::app::Direction;
use crate::app::Phase;
use crate::config::lemma_append_keeps_validity;
use crate::config::ConfigView;
use crate::config::PairView;
use crate::error::SyncErrorView;
use crate::host::Outcome;
use crate::host::ReplyView;
use crate::host::RequestView;
use vstd::prelude::*;

verus! {

/// The engine after it took `replies` in turn, starting from `start`, and
/// the requests with which it answered them.
pub open spec fn run(start: AppView, replies: Seq<ReplyView>) -> (AppView, Seq<RequestView>)
    decreases replies.len(),
{
    if replies.len() == 0 {
        (start, Seq::empty())
    } else {
        let before = run(start, replies.drop_last());
        let step = before.0.next(replies.last());
        (step.0, before.1.push(step.1))
    }
}

/// The names of the pairs of which `requests` report, in the order of the reports.
pub open spec fn reported_names(requests: Seq<RequestView>) -> Seq<Seq<char>>
    decreases requests.len(),
{
    if requests.len() == 0 {
        Seq::empty()
    } else {
        let earlier = reported_names(requests.drop_last());
        match requests.last() {
            RequestView::Report(name, _) => earlier.push(name),
            _ => earlier,
        }
    }
}

/// Some request among `requests` reports a pair as applied.
pub open spec fn any_applied(requests: Seq<RequestView>) -> bool
    decreases requests.len(),
{
    if requests.len() == 0 {
        false
    } else {
        requests.last() matches RequestView::Report(_, Outcome::Applied) || any_applied(
            requests.drop_last(),
        )
    }
}

/// How many requests among `requests` report a pair as applied.
pub open spec fn applied_count(requests: Seq<RequestView>) -> nat
    decreases requests.len(),
{
    if requests.len() == 0 {
        0
    } else {
        let earlier = applied_count(requests.drop_last());
        match requests.last() {
            RequestView::Report(_, Outcome::Applied) => earlier + 1,
            _ => earlier,
        }
    }
}

/// How many requests among `requests` ask for the registry to be written.
pub open spec fn persist_count(requests: Seq<RequestView>) -> nat
    decreases requests.len(),
{
    if requests.len() == 0 {
        0
    } else {
        let earlier = persist_count(requests.drop_last());
        match requests.last() {
            RequestView::Persist(_) => earlier + 1,
            _ => earlier,
        }
    }
}

/// The hooks that `requests` invoke, in order.
pub open spec fn hooks_invoked(requests: Seq<RequestView>) -> Seq<Seq<char>>
    decreases requests.len(),
{
    if requests.len() == 0 {
        Seq::empty()
    } else {
        let earlier = hooks_invoked(requests.drop_last());
        match requests.last() {
            RequestView::InvokeHook(hook) => earlier.push(hook),
            _ => earlier,
        }
    }
}

/// No request among `requests` ends the operation.
pub open spec fn unfinished(requests: Seq<RequestView>) -> bool {
    forall|i: int| 0 <= i < requests.len() ==> !((#[trigger] requests[i]) is Finish)
}

/// The names of the pairs of `config` from index `lo` up to `hi`, in registry order.
pub open spec fn names_between(config: ConfigView, lo: int, hi: int) -> Seq<Seq<char>> {
    Seq::new((hi - lo) as nat, |k: int| config.pairs[lo + k].name)
}

/// The names of the pairs that the operation selected, in registry order.
pub open spec fn selected_names(selection: AppView) -> Seq<Seq<char>> {
    names_between(selection.config, selection.cursor, selection.end)
}

/// The hooks that a complete run of the operation invokes: the one before
/// an import, and the one after pairs that were applied, if any was.
pub open spec fn expected_hooks(selection: AppView, applied: bool) -> Seq<Seq<char>> {
    let before = match selection.direction {
        Direction::Import => seq![selection.config.before_import_hook],
        Direction::Export => Seq::empty(),
    };
    if applied {
        before.push(selection.hook())
    } else {
        before
    }
}

/// `requests` are the requests of an operation that ran to its end and succeeded.
pub open spec fn succeeded(requests: Seq<RequestView>) -> bool {
    &&& requests.len() > 0
    &&& requests.last() == RequestView::Finish(Ok(()))
    &&& unfinished(requests.drop_last())
}

/// The index of the first pair with a name is never beyond the pairs.
pub proof fn lemma_position_in_range(config: ConfigView, from: int, name: Seq<char>)
    requires
        0 <= from <= config.pairs.len(),
    ensures
        from <= config.position_from(from, name) <= config.pairs.len(),
        config.position_from(from, name) < config.pairs.len() ==> config.pairs[config.position_from(
            from,
            name,
        )].name == name,
    decreases config.pairs.len() - from,
{
    if from < config.pairs.len() && config.pairs[from].name != name {
        lemma_position_in_range(config, from + 1, name);
    }
}

/// What one more request adds to the reports, the applied pairs and the hooks.
proof fn lemma_one_more(requests: Seq<RequestView>, request: RequestView)
    ensures
        reported_names(requests.push(request)) == (match request {
            RequestView::Report(name, _) => reported_names(requests).push(name),
            _ => reported_names(requests),
        }),
        any_applied(requests.push(request)) == (request matches RequestView::Report(
            _,
            Outcome::Applied,
        ) || any_applied(requests)),
        hooks_invoked(requests.push(request)) == (match request {
            RequestView::InvokeHook(hook) => hooks_invoked(requests).push(hook),
            _ => hooks_invoked(requests),
        }),
        applied_count(requests.push(request)) == (match request {
            RequestView::Report(_, Outcome::Applied) => applied_count(requests) + 1,
            _ => applied_count(requests),
        }),
        persist_count(requests.push(request)) == (match request {
            RequestView::Persist(_) => persist_count(requests) + 1,
            _ => persist_count(requests),
        }),
        unfinished(requests.push(request)) == (unfinished(requests) && !(request is Finish)),
{
    let longer = requests.push(request);
    assert(longer.drop_last() =~= requests);
    assert(longer.last() == request);
    if unfinished(requests) && !(request is Finish) {
        assert forall|i: int| 0 <= i < longer.len() implies !((#[trigger] longer[i]) is Finish) by {
            if i < requests.len() {
                assert(longer[i] == requests[i]);
            }
        }
    }
    if unfinished(longer) {
        assert(!(longer[requests.len() as int] is Finish));
        assert forall|i: int| 0 <= i < requests.len() implies !((
        #[trigger] requests[i]) is Finish) by {
            assert(longer[i] == requests[i]);
        }
    }
}

/// The operation that `selection` began is under way in `state`, having
/// issued `requests`, none of which ended it.
spec fn tracks(selection: AppView, state: AppView, requests: Seq<RequestView>) -> bool {
    let on_a_pair = state.phase != Phase::BeforeHook && state.phase != Phase::BatchHook;
    let reported = if state.phase == Phase::Report {
        state.cursor + 1
    } else {
        state.cursor
    };
    let hooked = state.phase == Phase::BatchHook || (state.single && (state.phase
        == Phase::PairHook || (state.phase == Phase::Report && any_applied(requests))));
    &&& unfinished(requests)
    &&& state.config == selection.config
    &&& state.direction == selection.direction
    &&& state.single == selection.single
    &&& state.end == selection.end
    &&& 0 <= selection.cursor <= state.cursor <= state.end <= state.config.pairs.len()
    &&& state.phase != Phase::Idle
    &&& state.phase != Phase::InitRemove
    &&& state.phase != Phase::InitCreate
    &&& state.phase != Phase::InitPersist
    &&& state.phase != Phase::AddProbe
    &&& state.phase != Phase::AddRemove
    &&& state.phase != Phase::AddCopy
    &&& state.phase != Phase::AddPersist
    &&& on_a_pair ==> state.cursor < state.end
    &&& state.phase == Phase::BeforeHook ==> state.direction == Direction::Import
        && !state.changed
    &&& state.single ==> state.end <= selection.cursor + 1
    &&& state.phase == Phase::BatchHook ==> state.cursor == state.end && !state.single
        && state.changed
    &&& state.single && state.phase != Phase::Report ==> !any_applied(requests)
    &&& reported_names(requests) == names_between(selection.config, selection.cursor, reported)
    &&& state.changed == (any_applied(requests) || state.phase == Phase::Persist || state.phase
        == Phase::PairHook)
    &&& hooks_invoked(requests) == expected_hooks(selection, hooked)
    &&& persist_count(requests) == applied_count(requests) + (if state.phase == Phase::Persist
        || state.phase == Phase::PairHook {
        1nat
    } else {
        0nat
    })
}

/// What holds of the requests of an export or import that ran to its end:
/// the selected pairs were reported in registry order, the hooks were
/// invoked as the outcome requires, and the registry was written once for
/// each pair that was applied.
pub open spec fn complete(selection: AppView, requests: Seq<RequestView>) -> bool {
    &&& reported_names(requests) == selected_names(selection)
    &&& hooks_invoked(requests) == expected_hooks(selection, any_applied(requests))
    &&& persist_count(requests) == applied_count(requests)
}

/// The names between two indices, and the next name, are the names up to the next index.
proof fn lemma_one_more_name(config: ConfigView, lo: int, hi: int)
    requires
        0 <= lo <= hi < config.pairs.len(),
    ensures
        names_between(config, lo, hi).push(config.pairs[hi].name) == names_between(
            config,
            lo,
            hi + 1,
        ),
{
    assert(names_between(config, lo, hi).push(config.pairs[hi].name) =~= names_between(
        config,
        lo,
        hi + 1,
    ));
}

/// The engine turns to the next pair, or ends the operation, as the
/// operation requires.
proof fn lemma_begin_pair_tracks(
    selection: AppView,
    state: AppView,
    requests: Seq<RequestView>,
    hooked: bool,
)
    requires
        unfinished(requests),
        state.config == selection.config,
        state.direction == selection.direction,
        state.single == selection.single,
        state.end == selection.end,
        0 <= selection.cursor <= state.cursor <= state.end <= state.config.pairs.len(),
        reported_names(requests) == names_between(
            selection.config,
            selection.cursor,
            state.cursor,
        ),
        state.changed == any_applied(requests),
        hooks_invoked(requests) == expected_hooks(selection, hooked),
        hooked == (state.single && any_applied(requests)),
        persist_count(requests) == applied_count(requests),
        state.single ==> state.end <= selection.cursor + 1,
        state.single && any_applied(requests) ==> state.cursor == state.end,
    ensures
        ({
            let (after, request) = state.begin_pair();
            let all = requests.push(request);
            if request is Finish {
                request == RequestView::Finish(Ok(())) && complete(selection, all)
            } else {
                tracks(selection, after, all)
            }
        }),
{
    let (after, request) = state.begin_pair();
    lemma_one_more(requests, request);
}

/// The step from `state` on `reply` keeps the operation under way, or ends
/// it, and with success only if the run is complete.
spec fn step_tracks(
    selection: AppView,
    state: AppView,
    requests: Seq<RequestView>,
    reply: ReplyView,
) -> bool {
    let (after, request) = state.next(reply);
    let all = requests.push(request);
    if request is Finish {
        request == RequestView::Finish(Ok(())) ==> complete(selection, all)
    } else {
        tracks(selection, after, all)
    }
}

/// One step of an operation that is under way keeps it under way, or ends
/// it; where it ends it with success, the run is complete.
proof fn lemma_step_tracks(
    selection: AppView,
    state: AppView,
    requests: Seq<RequestView>,
    reply: ReplyView,
)
    requires
        tracks(selection, state, requests),
    ensures
        step_tracks(selection, state, requests, reply),
{
    let (after, request) = state.next(reply);
    let all = requests.push(request);
    lemma_one_more(requests, request);
    match state.phase {
        Phase::BeforeHook => {
            if reply is Done {
                lemma_begin_pair_tracks(selection, state, requests, false);
            }
        },
        Phase::Report => {
            lemma_one_more_name(selection.config, selection.cursor, state.cursor);
            lemma_begin_pair_tracks(
                selection,
                AppView { cursor: state.cursor + 1, ..state },
                requests,
                state.single && any_applied(requests),
            );
        },
        Phase::HashMirror | Phase::Persist | Phase::PairHook => {
            lemma_one_more_name(selection.config, selection.cursor, state.cursor);
        },
        _ => {},
    }
}

/// The requests of an operation: the one with which it began, and those
/// with which the engine answered `replies`.
pub open spec fn requests_of(begun: (AppView, RequestView), replies: Seq<ReplyView>) -> Seq<
    RequestView,
> {
    seq![begun.1] + run(begun.0, replies).1
}

/// An operation that is under way after its first request stays under way
/// until it ends, and is complete where it ends with success.
proof fn lemma_run_tracks(
    selection: AppView,
    begun: (AppView, RequestView),
    replies: Seq<ReplyView>,
)
    requires
        tracks(selection, begun.0, seq![begun.1]),
    ensures
        unfinished(requests_of(begun, replies)) ==> tracks(
            selection,
            run(begun.0, replies).0,
            requests_of(begun, replies),
        ),
        succeeded(requests_of(begun, replies)) ==> complete(selection, requests_of(begun, replies)),
    decreases replies.len(),
{
    let all = requests_of(begun, replies);
    if replies.len() > 0 {
        let earlier = requests_of(begun, replies.drop_last());
        let before = run(begun.0, replies.drop_last());
        let step = before.0.next(replies.last());
        lemma_run_tracks(selection, begun, replies.drop_last());
        assert(all.drop_last() =~= earlier);
        lemma_one_more(earlier, step.1);
        if unfinished(earlier) {
            lemma_step_tracks(selection, before.0, earlier, replies.last());
        }
    }
}

/// An operation that ended at its first request has no further request
/// before the one that ends it.
proof fn lemma_ended_at_once(begun: (AppView, RequestView), replies: Seq<ReplyView>)
    requires
        begun.1 is Finish,
        succeeded(requests_of(begun, replies)),
    ensures
        requests_of(begun, replies) == seq![begun.1],
{
    let all = requests_of(begun, replies);
    if replies.len() > 0 {
        assert(all.drop_last()[0] == begun.1);
    }
}

/// What `direction` and `name` begin: an export or an import.
pub open spec fn begin_sync(state: AppView, direction: Direction, name: Option<Seq<char>>) -> (
    AppView,
    RequestView,
) {
    match direction {
        Direction::Export => state.begin_export(name),
        Direction::Import => state.begin_import(name),
    }
}

/// The operation that `selection` began is under way, or it is over, and
/// the pairs reported so far are the first of those selected.
spec fn follows(selection: AppView, state: AppView, requests: Seq<RequestView>) -> bool {
    ||| tracks(selection, state, requests)
    ||| state.phase == Phase::Idle && reported_names(requests).is_prefix_of(
        selected_names(selection),
    )
}

/// Whatever the host answers, the reports of an operation follow the selection.
proof fn lemma_run_follows(
    selection: AppView,
    begun: (AppView, RequestView),
    replies: Seq<ReplyView>,
)
    requires
        follows(selection, begun.0, seq![begun.1]),
    ensures
        follows(selection, run(begun.0, replies).0, requests_of(begun, replies)),
    decreases replies.len(),
{
    let all = requests_of(begun, replies);
    if replies.len() == 0 {
        assert(all =~= seq![begun.1]);
    } else {
        let earlier = requests_of(begun, replies.drop_last());
        let before = run(begun.0, replies.drop_last());
        let step = before.0.next(replies.last());
        lemma_run_follows(selection, begun, replies.drop_last());
        assert(all =~= earlier.push(step.1));
        lemma_one_more(earlier, step.1);
        if tracks(selection, before.0, earlier) {
            lemma_step_tracks(selection, before.0, earlier, replies.last());
            assert(reported_names(earlier).is_prefix_of(selected_names(selection)));
        }
    }
}

/// In every run of an export or an import, whatever the host answers and
/// wherever the run fails, the pairs that are reported are the first of
/// the pairs that were selected, each once, in registry order.
pub proof fn lemma_reports_follow_registry_order(
    state: AppView,
    direction: Direction,
    name: Option<Seq<char>>,
    replies: Seq<ReplyView>,
)
    ensures
        reported_names(requests_of(begin_sync(state, direction, name), replies)).is_prefix_of(
            selected_names(state.select(direction, name)),
        ),
{
    let begun = begin_sync(state, direction, name);
    let selection = state.select(direction, name);
    let none = Seq::<RequestView>::empty();
    if name is Some {
        lemma_position_in_range(state.config, 0, name->0);
    }
    lemma_one_more(none, begun.1);
    assert(none.push(begun.1) =~= seq![begun.1]);
    assert(names_between(selection.config, selection.cursor, selection.cursor)
        =~= reported_names(none));
    match direction {
        Direction::Export => {
            if !(name is Some && state.config.position(name->0) >= state.config.pairs.len()) {
                lemma_begin_pair_tracks(selection, selection, none, false);
            }
        },
        Direction::Import => {
            assert(hooks_invoked(none).push(selection.config.before_import_hook)
                =~= expected_hooks(selection, false));
        },
    }
    lemma_run_follows(selection, begun, replies);
}

/// Every pair that an export selects is reported once, in registry order;
/// the export hook is invoked once if a pair was applied, and not at all
/// otherwise; and the registry is written once for each pair that was
/// applied: this holds of every export that ran to its end and succeeded.
pub proof fn lemma_export_reports_in_order(
    state: AppView,
    name: Option<Seq<char>>,
    replies: Seq<ReplyView>,
)
    requires
        succeeded(requests_of(state.begin_export(name), replies)),
    ensures
        complete(
            state.select(Direction::Export, name),
            requests_of(state.begin_export(name), replies),
        ),
{
    let begun = state.begin_export(name);
    let selection = state.select(Direction::Export, name);
    let none = Seq::<RequestView>::empty();
    if name is Some {
        lemma_position_in_range(state.config, 0, name->0);
    }
    if begun.1 is Finish {
        lemma_ended_at_once(begun, replies);
    }
    if !(name is Some && state.config.position(name->0) >= state.config.pairs.len()) {
        assert(names_between(selection.config, selection.cursor, selection.cursor)
            =~= reported_names(none));
        lemma_begin_pair_tracks(selection, selection, none, false);
        if !(begun.1 is Finish) {
            lemma_run_tracks(selection, begun, replies);
        }
    }
}

/// Every pair that an import selects is reported once, in registry order;
/// the hook before the import is invoked once, before any pair, and the
/// hook after it once if a pair was applied, and not at all otherwise; and
/// the registry is written once for each pair that was applied: this holds
/// of every import that ran to its end and succeeded.
pub proof fn lemma_import_reports_in_order(
    state: AppView,
    name: Option<Seq<char>>,
    replies: Seq<ReplyView>,
)
    requires
        succeeded(requests_of(state.begin_import(name), replies)),
    ensures
        complete(
            state.select(Direction::Import, name),
            requests_of(state.begin_import(name), replies),
        ),
{
    let begun = state.begin_import(name);
    let selection = state.select(Direction::Import, name);
    let none = Seq::<RequestView>::empty();
    if name is Some {
        lemma_position_in_range(state.config, 0, name->0);
    }
    lemma_one_more(none, begun.1);
    assert(names_between(selection.config, selection.cursor, selection.cursor)
        =~= reported_names(none));
    assert(hooks_invoked(none).push(selection.config.before_import_hook) =~= expected_hooks(
        selection,
        false,
    ));
    lemma_run_tracks(selection, begun, replies);
}

/// The registry is valid, and a pair that passed the conflict check of an
/// add still conflicts with no pair of it.
pub open spec fn sound(state: AppView) -> bool {
    &&& state.config.valid()
    &&& state.phase == Phase::AddRemove || state.phase == Phase::AddCopy
        ==> !state.config.conflicts(state.name, state.place)
}

/// The engine after an add of `name` at `place` in which the place
/// exists and every step succeeds.
pub open spec fn after_add(state: AppView, name: Seq<char>, place: Seq<char>) -> (
    AppView,
    RequestView,
) {
    let probing = state.begin_add(name, place).0;
    let removing = probing.next(ReplyView::Done).0;
    let copying = removing.next(ReplyView::Done).0;
    let persisting = copying.next(ReplyView::Done).0;
    persisting.next(ReplyView::Done)
}

/// No step changes the store root, and no step changes the registry but
/// the one that follows the copy of an add, which appends the new pair.
pub proof fn lemma_registry_changes_by_add_alone(state: AppView, reply: ReplyView)
    ensures
        state.next(reply).0.store_root == state.store_root,
        state.phase == Phase::AddCopy && reply is Done ==> state.next(reply).0.config
            == state.config.with_pair(state.name, state.place),
        !(state.phase == Phase::AddCopy && reply is Done) ==> state.next(reply).0.config
            == state.config,
{
}

/// Every operation begins on a valid registry if the registry was valid.
pub proof fn lemma_begin_keeps_validity(state: AppView, action: ActionsView)
    requires
        state.config.valid(),
    ensures
        sound(state.begin(action).0),
{
}

/// Every step keeps the registry valid: no two pairs ever share a name or a place.
pub proof fn lemma_step_keeps_validity(state: AppView, reply: ReplyView)
    requires
        sound(state),
    ensures
        sound(state.next(reply).0),
{
    if state.phase == Phase::AddCopy {
        lemma_append_keeps_validity(state.config, state.name, state.place);
    }
}

/// Apart from the store root, whose removal begins an init, the engine
/// removes nothing but the side of a registered pair that the operation
/// does not favour and the stale mirror of a pair that is being added, and
/// it copies to nothing but these: no step asks for the removal of another
/// path, or for a copy to one.
pub proof fn lemma_removal_is_confined(state: AppView, reply: ReplyView)
    ensures
        state.next(reply).1 matches RequestView::RemoveTree(path) ==> (state.phase
            == Phase::AddProbe && path == state.new_mirror()) || (state.phase == Phase::HashMirror
            && state.on_pair() && path == state.loser()),
        state.next(reply).1 matches RequestView::Replicate(from, to) ==> (state.phase
            == Phase::AddRemove && from == state.place && to == state.new_mirror()) || ((
        state.phase == Phase::Remove || state.phase == Phase::Recreate) && state.on_pair() && from
            == state.winner() && to == state.loser()),
{
}

/// An add whose name or place is already registered is refused: whatever
/// the probe of the place says, the add ends at once, without success,
/// and the registry is as it was. Where the place exists, the error is
/// the conflict.
pub proof fn lemma_add_rejects_duplicates(
    state: AppView,
    name: Seq<char>,
    place: Seq<char>,
    probe: ReplyView,
)
    requires
        state.config.conflicts(name, place),
    ensures
        ({
            let (after, request) = state.begin_add(name, place).0.next(probe);
            &&& request is Finish
            &&& request != RequestView::Finish(Ok(()))
            &&& probe is Done ==> request == RequestView::Finish(
                Err(SyncErrorView::Conflict { name, place }),
            )
            &&& after.config == state.config
            &&& after.phase == Phase::Idle
        }),
{
}

/// An add of a name and a place that conflict with no pair, in which the
/// place exists and every step succeeds, ends with success and appends
/// the pair to the registry.
pub proof fn lemma_add_appends(state: AppView, name: Seq<char>, place: Seq<char>)
    requires
        !state.config.conflicts(name, place),
    ensures
        after_add(state, name, place).1 == RequestView::Finish(Ok(())),
        after_add(state, name, place).0.config == state.config.with_pair(name, place),
        after_add(state, name, place).0.phase == Phase::Idle,
{
}

/// After a pair was added, an add of the same name, or of the same place
/// under any name, is refused with the conflict, and leaves the registry
/// as the first add left it.
pub proof fn lemma_second_add_is_refused(
    state: AppView,
    name: Seq<char>,
    place: Seq<char>,
    again_name: Seq<char>,
    again_place: Seq<char>,
)
    requires
        !state.config.conflicts(name, place),
        again_name == name || again_place == place,
    ensures
        ({
            let added = after_add(state, name, place).0;
            let (after, request) = added.begin_add(again_name, again_place).0.next(
                ReplyView::Done,
            );
            &&& request == RequestView::Finish(
                Err(SyncErrorView::Conflict { name: again_name, place: again_place }),
            )
            &&& after.config == added.config
            &&& added.config == state.config.with_pair(name, place)
        }),
{
    lemma_add_appends(state, name, place);
    let grown = state.config.with_pair(name, place);
    let last = state.config.pairs.len() as int;
    assert(grown.pairs[last].clashes(again_name, again_place));
}

} // verus!
