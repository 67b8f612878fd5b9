//! What holds in every state that the adapter reaches.

use crate::adapter;
use crate::adapter::{
    AdapterView, AttachingView, EndingView, Host, NextView, PendingEvaluationView, ReasonView,
    TurnView, VariableReferenceView,
};
use crate::adapter_breakpoints;
use crate::adapter_connect;
use crate::adapter_evaluation;
use crate::adapter_events;
use crate::adapter_frames;
use crate::adapter_laws;
use crate::adapter_laws::InputView;
use crate::adapter_polls;
use crate::adapter_requests;
use crate::adapter_session;
use crate::adapter_targets;
use crate::debug_server;
use crate::debug_server::{HttpReplyView, PingOutcomeView};
use crate::debug_types::{
    CalculationPathItemView, DebugEvaluationView, DebugStackFrameView, DebugUiEventView,
    DebugUiSessionView, DebugVariableView, SourceBreakpointView, StepAction,
};
use crate::json;
use crate::json::JsonView;
use crate::metadata;
use crate::metadata::ModuleInfoView;
use crate::ordered;
use vstd::prelude::*;

verus! {

/// Thread numbers are positive, and no two targets share one.
pub open spec fn threads_are_distinct(threads: Seq<(Seq<char>, i64)>) -> bool {
    &&& forall|i: int| 0 <= i < threads.len() ==> (#[trigger] threads[i]).1 >= 1
    &&& forall|i: int, j: int|
        0 <= i < j < threads.len() ==> (#[trigger] threads[i]).1 != (#[trigger] threads[j]).1
}

/// A number is that of an attached target.
pub open spec fn is_thread(threads: Seq<(Seq<char>, i64)>, thread_id: i64) -> bool {
    exists|i: int| 0 <= i < threads.len() && (#[trigger] threads[i]).1 == thread_id
}

/// Every call stack belongs to an attached target.
pub open spec fn stacks_belong(s: AdapterView) -> bool {
    forall|i: int|
        0 <= i < s.call_stacks.len() ==> is_thread(s.threads, (#[trigger] s.call_stacks[i]).0)
}

/// A thread is stopped: its call stack is known.
pub open spec fn is_stopped(s: AdapterView, thread_id: i64) -> bool {
    ordered::has_key(s.call_stacks, thread_id)
}

/// Every reference and every waiting request belongs to a stopped thread.
pub open spec fn calculations_belong(s: AdapterView) -> bool {
    &&& forall|i: int|
        0 <= i < s.variable_references.len() ==> is_stopped(
            s,
            adapter::address_of((#[trigger] s.variable_references[i]).1).0,
        )
    &&& forall|i: int|
        0 <= i < s.pending_evaluations.len() ==> is_stopped(
            s,
            adapter::pending_thread((#[trigger] s.pending_evaluations[i]).1),
        )
}

/// Every reference is one that was given out.
pub open spec fn references_are_given(s: AdapterView) -> bool {
    forall|i: int|
        0 <= i < s.variable_references.len() ==> adapter_frames::FIRST_REFERENCE
            < (#[trigger] s.variable_references[i]).0 <= s.next_variable_reference
}

/// The maps of the adapter are in the order of their keys.
pub open spec fn maps_are_sorted(s: AdapterView) -> bool {
    &&& ordered::sorted::<String, i64>(s.threads)
    &&& ordered::sorted::<i64, Seq<DebugStackFrameView>>(s.call_stacks)
    &&& ordered::sorted::<i64, VariableReferenceView>(s.variable_references)
    &&& ordered::sorted::<String, PendingEvaluationView>(s.pending_evaluations)
    &&& ordered::sorted::<(String, String, String), Seq<SourceBreakpointView>>(
        s.module_breakpoints,
    )
}

/// A session has a server; without a session no client waits, no poll is under way, and there are
/// no modules or breakpoints.
pub open spec fn session_is_whole(s: AdapterView) -> bool {
    &&& s.debug_session is Some <==> s.debug_server is Some
    &&& s.debug_session is None ==> s.pending_debuggee is None && s.active_poll is None
        && s.module_registry is None
    &&& s.module_registry is None ==> s.module_breakpoints.len() == 0
    &&& s.active_poll is Some ==> s.active_poll->0 <= s.next_poll
    &&& s.next_poll >= 0
}

/// A state that is whole.
#[verifier::opaque]
pub open spec fn consistent(s: AdapterView) -> bool {
    &&& maps_are_sorted(s)
    &&& threads_are_distinct(s.threads)
    &&& stacks_belong(s)
    &&& calculations_belong(s)
    &&& references_are_given(s)
    &&& session_is_whole(s)
}

/// The adapter starts in a state that is whole.
pub proof fn fresh_is_consistent(host: Host)
    ensures
        consistent(adapter::fresh(host)),
{
    reveal(consistent);
}

broadcast proof fn lemma_counted(s: AdapterView, n: int)
    requires
        consistent(s),
    ensures
        #[trigger] consistent(adapter::counted(s, n)),
{
    reveal(consistent);
}

broadcast proof fn lemma_closed(s: AdapterView)
    requires
        consistent(s),
    ensures
        #[trigger] consistent(adapter_session::closed(s)),
{
    reveal(consistent);
}

broadcast proof fn lemma_unpended(s: AdapterView)
    requires
        consistent(s),
    ensures
        #[trigger] consistent((AdapterView { pending_debuggee: None, ..s })),
{
    reveal(consistent);
}

/// What is in a map after a key was set was there before, or is new.
proof fn lemma_inserted_from<K: ordered::Key, B>(entries: Seq<(K::V, B)>, key: K::V, value: B, i: int)
    requires
        ordered::sorted::<K, B>(entries),
        0 <= i < ordered::inserted::<K, B>(entries, key, value).len(),
    ensures
        ({
            let entry = ordered::inserted::<K, B>(entries, key, value)[i];
            ||| entry == (key, value)
            ||| entry.0 != key && exists|j: int|
                0 <= j < entries.len() && #[trigger] entries[j] == entry
        }),
{
    let all = ordered::inserted::<K, B>(entries, key, value);
    ordered::lemma_inserted::<K, B>(entries, key, value);
    ordered::lemma_lookup_at::<K, B>(all, i);
    let entry = all[i];
    if entry.0 != key {
        assert(ordered::lookup(all, entry.0) == ordered::lookup(entries, entry.0));
        let j = choose|j: int| 0 <= j < entries.len() && (#[trigger] entries[j]).0 == entry.0;
        assert(entries[j] == entry);
    }
}

/// What was in a map under another key is still there after a key was set.
proof fn lemma_inserted_keeps<K: ordered::Key, B>(entries: Seq<(K::V, B)>, key: K::V, value: B, j: int)
    requires
        ordered::sorted::<K, B>(entries),
        0 <= j < entries.len(),
        entries[j].0 != key,
    ensures
        ordered::inserted::<K, B>(entries, key, value).contains(entries[j]),
{
    let all = ordered::inserted::<K, B>(entries, key, value);
    let entry = entries[j];
    ordered::lemma_inserted::<K, B>(entries, key, value);
    ordered::lemma_lookup_at::<K, B>(entries, j);
    assert(ordered::lookup(all, entry.0) == Some(entry.1));
    let i = choose|i: int| 0 <= i < all.len() && (#[trigger] all[i]).0 == entry.0;
    assert(all[i] == entry);
}

broadcast proof fn lemma_stored(s: AdapterView, reference: VariableReferenceView)
    requires
        consistent(s),
        s.next_variable_reference < i64::MAX,
        is_stopped(s, adapter::address_of(reference).0),
    ensures
        #[trigger] consistent(adapter_frames::stored(s, reference)),
{
    reveal(consistent);
    let id = adapter_frames::next_reference(s) as i64;
    let next = adapter_frames::stored(s, reference);
    ordered::lemma_inserted::<i64, VariableReferenceView>(s.variable_references, id, reference);
    assert forall|i: int| 0 <= i < next.variable_references.len() implies adapter_frames::FIRST_REFERENCE
        < (#[trigger] next.variable_references[i]).0 <= next.next_variable_reference by {
        lemma_inserted_from::<i64, VariableReferenceView>(s.variable_references, id, reference, i);
    }
    assert forall|i: int| 0 <= i < next.variable_references.len() implies is_stopped(
        next,
        adapter::address_of((#[trigger] next.variable_references[i]).1).0,
    ) by {
        lemma_inserted_from::<i64, VariableReferenceView>(s.variable_references, id, reference, i);
    }
}

broadcast proof fn lemma_deferred(s: AdapterView, result_id: Seq<char>, pending: PendingEvaluationView)
    requires
        consistent(s),
        is_stopped(s, adapter::pending_thread(pending)),
    ensures
        consistent((#[trigger] adapter_evaluation::deferred(s, result_id, pending)).0),
{
    reveal(consistent);
    let next = adapter_evaluation::deferred(s, result_id, pending).0;
    ordered::lemma_inserted::<String, PendingEvaluationView>(
        s.pending_evaluations,
        result_id,
        pending,
    );
    assert forall|i: int| 0 <= i < next.pending_evaluations.len() implies is_stopped(
        next,
        adapter::pending_thread((#[trigger] next.pending_evaluations[i]).1),
    ) by {
        lemma_inserted_from::<String, PendingEvaluationView>(
            s.pending_evaluations,
            result_id,
            pending,
            i,
        );
    }
}

broadcast proof fn lemma_with_breakpoints(s: AdapterView, module: ModuleInfoView, breakpoints: Seq<SourceBreakpointView>)
    requires
        consistent(s),
        s.module_registry is Some,
    ensures
        #[trigger] consistent(adapter_breakpoints::with_breakpoints(s, module, breakpoints)),
{
    reveal(consistent);
    ordered::lemma_inserted::<(String, String, String), Seq<SourceBreakpointView>>(
        s.module_breakpoints,
        metadata::identity(module),
        breakpoints,
    );
}

broadcast proof fn lemma_established(s: AdapterView, attaching: AttachingView, session: DebugUiSessionView)
    requires
        consistent(s),
    ensures
        #[trigger] consistent(adapter_connect::established(s, attaching, session)),
{
    reveal(consistent);
}

/// Keeping some entries gives nothing new.
proof fn lemma_kept_from<A, B>(entries: Seq<(A, B)>, passes: spec_fn(B) -> bool, i: int)
    requires
        0 <= i < ordered::kept(entries, passes).len(),
    ensures
        entries.contains(ordered::kept(entries, passes)[i]),
{
    entries.lemma_filter_contains_rev(|entry: (A, B)| passes(entry.1), ordered::kept(entries, passes)[i]);
}

/// Forgetting a thread leaves nothing that belongs to it.
proof fn lemma_forgotten_elsewhere(s: AdapterView, thread_id: i64)
    ensures
        ({
            let next = adapter_frames::forgotten(s, thread_id);
            &&& forall|i: int|
                0 <= i < next.variable_references.len() ==> s.variable_references.contains(
                    #[trigger] next.variable_references[i],
                ) && adapter::address_of(next.variable_references[i].1).0 != thread_id
            &&& forall|i: int|
                0 <= i < next.pending_evaluations.len() ==> s.pending_evaluations.contains(
                    #[trigger] next.pending_evaluations[i],
                ) && adapter::pending_thread(next.pending_evaluations[i].1) != thread_id
        }),
{
    let next = adapter_frames::forgotten(s, thread_id);
    let refers = adapter_frames::refers_elsewhere(thread_id);
    let waits = adapter_frames::waits_elsewhere(thread_id);
    let p = |entry: (i64, VariableReferenceView)| refers(entry.1);
    let q = |entry: (Seq<char>, PendingEvaluationView)| waits(entry.1);
    assert forall|i: int| 0 <= i < next.variable_references.len() implies s.variable_references.contains(
        #[trigger] next.variable_references[i],
    ) && adapter::address_of(next.variable_references[i].1).0 != thread_id by {
        lemma_kept_from(s.variable_references, refers, i);
        s.variable_references.lemma_filter_pred(p, i);
    }
    assert forall|i: int| 0 <= i < next.pending_evaluations.len() implies s.pending_evaluations.contains(
        #[trigger] next.pending_evaluations[i],
    ) && adapter::pending_thread(next.pending_evaluations[i].1) != thread_id by {
        lemma_kept_from(s.pending_evaluations, waits, i);
        s.pending_evaluations.lemma_filter_pred(q, i);
    }
}

/// A state where a thread changed is whole once the thread is forgotten, if what belongs to other
/// threads was whole before.
proof fn lemma_forgotten(before: AdapterView, s: AdapterView, thread_id: i64)
    requires
        consistent(before),
        s.variable_references == before.variable_references,
        s.pending_evaluations == before.pending_evaluations,
        s.next_variable_reference == before.next_variable_reference,
        maps_are_sorted(s),
        threads_are_distinct(s.threads),
        stacks_belong(s),
        session_is_whole(s),
        forall|other: i64| other != thread_id && is_stopped(before, other) ==> #[trigger] is_stopped(s, other),
    ensures
        consistent(adapter_frames::forgotten(s, thread_id)),
{
    reveal(consistent);
    let next = adapter_frames::forgotten(s, thread_id);
    lemma_forgotten_elsewhere(s, thread_id);
    ordered::lemma_kept_sorted::<i64, VariableReferenceView>(
        s.variable_references,
        adapter_frames::refers_elsewhere(thread_id),
    );
    ordered::lemma_kept_sorted::<String, PendingEvaluationView>(
        s.pending_evaluations,
        adapter_frames::waits_elsewhere(thread_id),
    );
    assert forall|i: int| 0 <= i < next.variable_references.len() implies is_stopped(
        next,
        adapter::address_of((#[trigger] next.variable_references[i]).1).0,
    ) by {
        let j = choose|j: int|
            0 <= j < s.variable_references.len() && s.variable_references[j]
                == next.variable_references[i];
        let thread = adapter::address_of(before.variable_references[j].1).0;
        assert(is_stopped(before, thread));
        assert(is_stopped(s, thread));
    }
    assert forall|i: int| 0 <= i < next.pending_evaluations.len() implies is_stopped(
        next,
        adapter::pending_thread((#[trigger] next.pending_evaluations[i]).1),
    ) by {
        let j = choose|j: int|
            0 <= j < s.pending_evaluations.len() && s.pending_evaluations[j]
                == next.pending_evaluations[i];
        let thread = adapter::pending_thread(before.pending_evaluations[j].1);
        assert(is_stopped(before, thread));
        assert(is_stopped(s, thread));
    }
    assert forall|i: int| 0 <= i < next.variable_references.len() implies adapter_frames::FIRST_REFERENCE
        < (#[trigger] next.variable_references[i]).0 <= next.next_variable_reference by {
        let j = choose|j: int|
            0 <= j < s.variable_references.len() && s.variable_references[j]
                == next.variable_references[i];
        assert(adapter_frames::FIRST_REFERENCE < before.variable_references[j].0);
    }
}

broadcast proof fn lemma_with_thread(s: AdapterView, target_id: Seq<char>)
    requires
        consistent(s),
        adapter::ready(s),
        ordered::lookup(s.threads, target_id) is None,
    ensures
        #[trigger] consistent(adapter_targets::with_thread(s, target_id)),
{
    reveal(consistent);
    let next = adapter_targets::with_thread(s, target_id);
    let number = adapter_targets::next_thread(s);
    adapter_targets::lemma_largest(s.threads);
    ordered::lemma_inserted::<String, i64>(s.threads, target_id, number);
    assert(number >= 1);
    assert forall|i: int| 0 <= i < next.threads.len() implies (#[trigger] next.threads[i]).1 >= 1 by {
        lemma_inserted_from::<String, i64>(s.threads, target_id, number, i);
    }
    assert forall|i: int, j: int| 0 <= i < j < next.threads.len() implies (#[trigger] next.threads[i]).1
        != (#[trigger] next.threads[j]).1 by {
        lemma_inserted_from::<String, i64>(s.threads, target_id, number, i);
        lemma_inserted_from::<String, i64>(s.threads, target_id, number, j);
        assert(<String as ordered::Key>::less(next.threads[i].0, next.threads[j].0));
        <String as ordered::Key>::less_irreflexive(next.threads[i].0);
    }
    assert forall|i: int| 0 <= i < next.call_stacks.len() implies is_thread(
        next.threads,
        (#[trigger] next.call_stacks[i]).0,
    ) by {
        let thread = s.call_stacks[i].0;
        assert(is_thread(s.threads, thread));
        let j = choose|j: int| 0 <= j < s.threads.len() && (#[trigger] s.threads[j]).1 == thread;
        assert(s.threads[j].0 != target_id);
        lemma_inserted_keeps::<String, i64>(s.threads, target_id, number, j);
        let k = choose|k: int| 0 <= k < next.threads.len() && next.threads[k] == s.threads[j];
        assert(next.threads[k].1 == thread);
    }
}

/// A key that is found in a map is there.
proof fn lemma_found<A, B>(entries: Seq<(A, B)>, key: A)
    requires
        ordered::lookup(entries, key) is Some,
    ensures
        exists|i: int|
            0 <= i < entries.len() && (#[trigger] entries[i]) == (
                key,
                ordered::lookup(entries, key)->0,
            ),
{
    let i = choose|i: int| 0 <= i < entries.len() && (#[trigger] entries[i]).0 == key;
    assert(entries[i] == (key, ordered::lookup(entries, key)->0));
}

proof fn lemma_with_stack(s: AdapterView, target_id: Seq<char>, thread_id: i64, stack: Seq<DebugStackFrameView>)
    requires
        consistent(s),
        ordered::lookup(s.threads, target_id) == Some(thread_id),
    ensures
        consistent(adapter_events::with_stack(s, thread_id, stack)),
{
    reveal(consistent);
    let shown = stack.reverse();
    let middle = AdapterView {
        call_stacks: ordered::inserted::<i64, Seq<DebugStackFrameView>>(
            s.call_stacks,
            thread_id,
            shown,
        ),
        ..s
    };
    ordered::lemma_inserted::<i64, Seq<DebugStackFrameView>>(s.call_stacks, thread_id, shown);
    lemma_found(s.threads, target_id);
    assert forall|i: int| 0 <= i < middle.call_stacks.len() implies is_thread(
        middle.threads,
        (#[trigger] middle.call_stacks[i]).0,
    ) by {
        lemma_inserted_from::<i64, Seq<DebugStackFrameView>>(s.call_stacks, thread_id, shown, i);
    }
    assert forall|other: i64| other != thread_id && is_stopped(s, other) implies #[trigger] is_stopped(
        middle,
        other,
    ) by {
        let j = choose|j: int| 0 <= j < s.call_stacks.len() && (#[trigger] s.call_stacks[j]).0 == other;
        lemma_inserted_keeps::<i64, Seq<DebugStackFrameView>>(s.call_stacks, thread_id, shown, j);
        let k = choose|k: int|
            0 <= k < middle.call_stacks.len() && middle.call_stacks[k] == s.call_stacks[j];
        assert(middle.call_stacks[k].0 == other);
    }
    lemma_forgotten(s, middle, thread_id);
}

/// What is left in a map after a key was removed was there before, under another key.
proof fn lemma_without_from<A, B>(entries: Seq<(A, B)>, key: A, i: int)
    requires
        0 <= i < ordered::without(entries, key).len(),
    ensures
        entries.contains(ordered::without(entries, key)[i]),
        ordered::without(entries, key)[i].0 != key,
{
    let p = |entry: (A, B)| entry.0 != key;
    entries.lemma_filter_contains_rev(p, ordered::without(entries, key)[i]);
    entries.lemma_filter_pred(p, i);
}

/// What was in a map under another key is still there after a key was removed.
proof fn lemma_without_keeps<A, B>(entries: Seq<(A, B)>, key: A, j: int)
    requires
        0 <= j < entries.len(),
        entries[j].0 != key,
    ensures
        ordered::without(entries, key).contains(entries[j]),
{
    let p = |entry: (A, B)| entry.0 != key;
    entries.lemma_filter_contains(p, j);
}

proof fn lemma_without_target(s: AdapterView, target_id: Seq<char>, thread_id: i64)
    requires
        consistent(s),
        ordered::lookup(s.threads, target_id) == Some(thread_id),
    ensures
        consistent(adapter_events::without_target(s, target_id, thread_id)),
{
    reveal(consistent);
    let middle = AdapterView {
        threads: ordered::without(s.threads, target_id),
        call_stacks: ordered::without(s.call_stacks, thread_id),
        ..s
    };
    ordered::lemma_without::<String, i64>(s.threads, target_id);
    ordered::lemma_without::<i64, Seq<DebugStackFrameView>>(s.call_stacks, thread_id);
    lemma_found(s.threads, target_id);
    assert forall|i: int| 0 <= i < middle.threads.len() implies (#[trigger] middle.threads[i]).1 >= 1 by {
        lemma_without_from(s.threads, target_id, i);
    }
    assert forall|i: int, j: int| 0 <= i < j < middle.threads.len() implies (#[trigger] middle.threads[i]).1
        != (#[trigger] middle.threads[j]).1 by {
        lemma_without_from(s.threads, target_id, i);
        lemma_without_from(s.threads, target_id, j);
        assert(<String as ordered::Key>::less(middle.threads[i].0, middle.threads[j].0));
        <String as ordered::Key>::less_irreflexive(middle.threads[i].0);
    }
    assert forall|i: int| 0 <= i < middle.call_stacks.len() implies is_thread(
        middle.threads,
        (#[trigger] middle.call_stacks[i]).0,
    ) by {
        lemma_without_from(s.call_stacks, thread_id, i);
        let thread = middle.call_stacks[i].0;
        let k = choose|k: int|
            0 <= k < s.call_stacks.len() && s.call_stacks[k] == middle.call_stacks[i];
        assert(is_thread(s.threads, s.call_stacks[k].0));
        let j = choose|j: int| 0 <= j < s.threads.len() && (#[trigger] s.threads[j]).1 == thread;
        if s.threads[j].0 == target_id {
            ordered::lemma_lookup_at::<String, i64>(s.threads, j);
        }
        lemma_without_keeps(s.threads, target_id, j);
        let m = choose|m: int| 0 <= m < middle.threads.len() && middle.threads[m] == s.threads[j];
        assert(middle.threads[m].1 == thread);
    }
    assert forall|other: i64| other != thread_id && is_stopped(s, other) implies #[trigger] is_stopped(
        middle,
        other,
    ) by {
        let j = choose|j: int| 0 <= j < s.call_stacks.len() && (#[trigger] s.call_stacks[j]).0 == other;
        lemma_without_keeps(s.call_stacks, thread_id, j);
        let k = choose|k: int|
            0 <= k < middle.call_stacks.len() && middle.call_stacks[k] == s.call_stacks[j];
        assert(middle.call_stacks[k].0 == other);
    }
    lemma_forgotten(s, middle, thread_id);
}

proof fn lemma_listed(s: AdapterView, parent: VariableReferenceView, variables: Seq<DebugVariableView>)
    requires
        consistent(s),
        is_stopped(s, adapter::address_of(parent).0),
        adapter_frames::has_references(s, variables.len() as int),
    ensures
        consistent(adapter_frames::listed(s, parent, variables).0),
        adapter_frames::listed(s, parent, variables).0.call_stacks == s.call_stacks,
    decreases variables.len(),
{
    if variables.len() > 0 {
        broadcast use lemma_stored;

        let front = variables.drop_last();
        lemma_listed(s, parent, front);
        adapter_frames::lemma_listed_bound(s, parent, front);
    }
}

proof fn lemma_poll_begun(s: AdapterView, timeout: Option<u64>)
    requires
        consistent(s),
        s.next_poll < u64::MAX,
    ensures
        consistent(adapter_polls::poll_begun(s, timeout).0),
{
    reveal(consistent);
}

proof fn lemma_poll_ended(s: AdapterView, poll: u64, session: Seq<char>, outcome: Result<PingOutcomeView, Seq<char>>)
    requires
        consistent(s),
    ensures
        consistent(adapter_polls::poll_ended(s, poll, session, outcome).0),
{
    reveal(consistent);
}

/// An input is the outcome of what a step left to do; where nothing is left, it is a request, a
/// tick, the outcome of a poll, or the end of the requests.
pub open spec fn follows(next: NextView, input: InputView) -> bool {
    match next {
        NextView::Done => is_unprompted(input),
        NextView::Poll(_, _, _) => is_unprompted(input),
        NextView::ReadArguments(request, launch) => input matches InputView::Arguments(r, l, _)
            && r == request && l == launch,
        NextView::ReadSources(connecting) => input matches InputView::Sources(c, _) && c
            == connecting,
        NextView::InspectInfoBase(connecting, registry, _) => input matches InputView::InfoBase(
            c,
            r,
            _,
            _,
        ) && c == connecting && r == registry,
        NextView::ListPlatform(located, path) => input matches InputView::Platform(l, p, _) && l
            == located && p == path,
        NextView::CheckDebugServer(located, path) => input matches InputView::DebugServer(l, p, _)
            && l == located && p == path,
        NextView::StartDebugServer(located, _, _) => input matches InputView::Port(l, _) && l
            == located,
        NextView::LaunchClient(request) => input matches InputView::Launch(r) && r == request,
        NextView::ListClientPlatform(request, path) => input matches InputView::ClientPlatform(
            r,
            p,
            _,
        ) && r == request && p == path,
        NextView::CheckClient(request, path) => input matches InputView::Client(r, p, _) && r
            == request && p == path,
        NextView::StartClient(request, path, _) => input matches InputView::ClientStart(r, p, _)
            && r == request && p == path,
        NextView::ResolveSource(request, path) => input matches InputView::Source(r, p, _) && r
            == request && p == path,
        NextView::Send(_, reason) => input matches InputView::Reply(r, _, _) && r == reason,
        NextView::Events(events) => input matches InputView::Events(e) && e == events,
    }
}

/// An input that comes by itself.
pub open spec fn is_unprompted(input: InputView) -> bool {
    input is Request || input is Tick || input is Poll || input is InputClosed
}

/// What a step left to do fits the state: a target that is about to be attached is not attached
/// yet, and a calculation is made in a stopped thread.
pub open spec fn fits(s: AdapterView, next: NextView) -> bool {
    match next {
        NextView::Send(_, ReasonView::PrepareTarget { target_id, .. }) => ordered::lookup(
            s.threads,
            target_id,
        ) is None,
        NextView::Send(_, ReasonView::AttachTarget { target_id, .. }) => ordered::lookup(
            s.threads,
            target_id,
        ) is None,
        NextView::Send(_, ReasonView::PrepareStarted { target_id, .. }) => ordered::lookup(
            s.threads,
            target_id,
        ) is None,
        NextView::Send(_, ReasonView::AttachStarted { target_id, .. }) => ordered::lookup(
            s.threads,
            target_id,
        ) is None,
        NextView::Send(_, ReasonView::Evaluate { thread_id, .. }) => is_stopped(s, thread_id),
        NextView::Send(_, ReasonView::Variables { reference, .. }) => is_stopped(
            s,
            adapter::address_of(reference).0,
        ),
        _ => true,
    }
}

/// A state and what is left to do.
spec fn holds(step: (AdapterView, TurnView)) -> bool {
    consistent(step.0) && fits(step.0, step.1.next)
}

broadcast group group_consistent {
    lemma_counted,
    lemma_closed,
    lemma_unpended,
}

proof fn lemma_connection_holds(s: AdapterView, input: InputView)
    requires
        consistent(s),
        input is Arguments || input is Sources || input is InfoBase || input is Platform
            || input is DebugServer || input is Port || input is Launch || input is ClientPlatform
            || input is Client || input is ClientStart,
    ensures
        holds(adapter_laws::step(s, input)),
{
    broadcast use group_consistent;

}

proof fn lemma_source_holds(s: AdapterView, input: InputView)
    requires
        consistent(s),
        input is Source,
    ensures
        holds(adapter_laws::step(s, input)),
{
    broadcast use {group_consistent, lemma_with_breakpoints};

}

proof fn lemma_frame_requests_hold(s: AdapterView, request: JsonView)
    requires
        consistent(s),
        adapter::ready(s),
    ensures
        holds(adapter_frames::stack_traced(s, request)),
        holds(adapter_frames::scoped(s, request)),
{
    broadcast use {group_consistent, lemma_stored};

    let id = json::signed_of(json::argument(request, "frameId"@));
    match adapter_frames::frame_at(s.call_stacks, id) {
        Some((thread_id, _)) => {
            assert(is_stopped(s, thread_id));
        },
        None => {},
    }
}

proof fn lemma_calculation_requests_hold(s: AdapterView, request: JsonView, id: Seq<char>)
    requires
        consistent(s),
    ensures
        holds(adapter_evaluation::evaluate_asked(s, request, id)),
        holds(adapter_evaluation::variables_asked(s, request, id)),
{
    broadcast use group_consistent;

    let frame = json::signed_of(json::argument(request, "frameId"@));
    match adapter_frames::frame_at(s.call_stacks, frame) {
        Some((thread_id, _)) => {
            assert(is_stopped(s, thread_id));
        },
        None => {},
    }
    match adapter_evaluation::referred(s, request) {
        Some(reference) => {
            reveal(consistent);
            let key = json::signed_of(
                json::argument(request, "variablesReference"@),
            )->0;
            lemma_found(s.variable_references, key);
            assert(is_stopped(s, adapter::address_of(reference).0));
        },
        None => {},
    }
}

proof fn lemma_target_requests_hold(s: AdapterView, request: JsonView, action: StepAction)
    requires
        consistent(s),
    ensures
        holds(adapter_targets::step_asked(s, request, action)),
        holds(adapter_targets::pause_asked(s, request)),
        holds(adapter_targets::auto_attach_asked(s, request)),
        holds(adapter_targets::targets_asked(s, request, ReasonView::ListTargets(request))),
        holds(adapter_targets::attach_asked(s, request)),
{
    broadcast use group_consistent;

}

proof fn lemma_other_requests_hold(s: AdapterView, request: JsonView)
    requires
        consistent(s),
    ensures
        holds(adapter_breakpoints::breakpoints_asked(s, request)),
        holds(adapter_breakpoints::exception_breakpoints_asked(s, request)),
        holds(adapter_connect::connect_asked(s, request, true)),
        holds(adapter_connect::connect_asked(s, request, false)),
        holds(adapter_connect::configuration_done(s, request)),
{
    broadcast use group_consistent;

}

proof fn lemma_ending_holds(s: AdapterView, ending: EndingView, detached: Result<(), Seq<char>>)
    requires
        consistent(s),
    ensures
        holds(adapter_session::ended(s, ending, detached)),
        holds(adapter_session::ending_begun(s, ending)),
{
    broadcast use group_consistent;

}

proof fn lemma_request_holds(s: AdapterView, request: JsonView, id: Seq<char>)
    requires
        consistent(s),
        adapter::ready(s),
    ensures
        holds(adapter_requests::handled(s, request, id)),
{
    broadcast use group_consistent;

    lemma_frame_requests_hold(s, request);
    lemma_calculation_requests_hold(s, request, id);
    lemma_target_requests_hold(s, request, StepAction::Continue);
    lemma_target_requests_hold(s, request, StepAction::Next);
    lemma_target_requests_hold(s, request, StepAction::StepIn);
    lemma_target_requests_hold(s, request, StepAction::StepOut);
    lemma_other_requests_hold(s, request);
    lemma_ending_holds(s, EndingView::Requested(request), Ok(()));
}

proof fn lemma_simple_replies_hold(s: AdapterView, reason: ReasonView, reply: HttpReplyView, id: Seq<char>)
    requires
        consistent(s),
        reason is Test || reason is Register || reason is GiveUp || reason is Pause
            || reason is SetBreakpoints || reason is SetExceptionBreakpoints
            || reason is SetAutoAttachTypes || reason is ListTargets || reason is FindTarget
            || reason is ContinueAfterMessage,
    ensures
        holds(adapter_requests::replied_to(s, reason, reply, id)),
{
    broadcast use group_consistent;

}

proof fn lemma_configure_holds(s: AdapterView, attaching: AttachingView, session: DebugUiSessionView, reply: HttpReplyView)
    requires
        consistent(s),
    ensures
        holds(adapter_connect::configure_replied(s, attaching, session, reply)),
{
    broadcast use {group_consistent, lemma_established};

}

proof fn lemma_step_reply_holds(
    s: AdapterView,
    request: JsonView,
    thread_id: i64,
    target_id: Seq<char>,
    action: StepAction,
    reply: HttpReplyView,
)
    requires
        consistent(s),
        adapter::ready(s),
    ensures
        holds(adapter_targets::step_replied(s, request, thread_id, target_id, action, reply)),
{
    broadcast use group_consistent;

    lemma_poll_begun(adapter::counted(s, 1), Some(adapter_polls::STEP_POLL_TIMEOUT));
    lemma_poll_begun(adapter::counted(s, 2), Some(adapter_polls::STEP_POLL_TIMEOUT));
}

proof fn lemma_attachment_replies_hold(s: AdapterView, reason: ReasonView, reply: HttpReplyView, id: Seq<char>)
    requires
        consistent(s),
        adapter::ready(s),
        match reason {
            ReasonView::PrepareTarget { target_id, .. } => ordered::lookup(s.threads, target_id) is None,
            ReasonView::AttachTarget { target_id, .. } => ordered::lookup(s.threads, target_id) is None,
            ReasonView::PrepareStarted { target_id, .. } => ordered::lookup(s.threads, target_id) is None,
            ReasonView::AttachStarted { target_id, .. } => ordered::lookup(s.threads, target_id) is None,
            _ => false,
        },
    ensures
        holds(adapter_requests::replied_to(s, reason, reply, id)),
{
    broadcast use {group_consistent, lemma_with_thread};

}

proof fn lemma_evaluated_holds(
    s: AdapterView,
    request: JsonView,
    thread_id: i64,
    stack_level: i64,
    path: Seq<CalculationPathItemView>,
    evaluation: DebugEvaluationView,
)
    requires
        consistent(s),
        s.next_variable_reference < i64::MAX,
        is_stopped(s, thread_id),
    ensures
        holds(
            adapter_frames::evaluated(s, request, thread_id, stack_level, path, evaluation),
        ),
{
    broadcast use {group_consistent, lemma_stored};

}

proof fn lemma_variables_answer_holds(s: AdapterView, request: JsonView, reference: VariableReferenceView, variables: Seq<DebugVariableView>)
    requires
        consistent(s),
        is_stopped(s, adapter::address_of(reference).0),
    ensures
        holds(adapter_frames::variables_answer(s, request, reference, variables)),
{
    broadcast use group_consistent;

    if adapter_frames::has_references(s, variables.len() as int) {
        lemma_listed(s, reference, variables);
    }
}

proof fn lemma_calculation_replies_hold(s: AdapterView, reason: ReasonView, reply: HttpReplyView, id: Seq<char>)
    requires
        consistent(s),
        adapter::ready(s),
        match reason {
            ReasonView::Evaluate { thread_id, .. } => is_stopped(s, thread_id),
            ReasonView::Variables { reference, .. } => is_stopped(
                s,
                adapter::address_of(reference).0,
            ),
            _ => false,
        },
    ensures
        holds(adapter_requests::replied_to(s, reason, reply, id)),
{
    broadcast use {group_consistent, lemma_deferred};

    match reason {
        ReasonView::Evaluate { request, thread_id, stack_level, expression, .. } => {
            let path = seq![CalculationPathItemView::Expression(expression)];
            match debug_server::evaluation_answer(reply) {
                Ok(Some(evaluation)) => {
                    lemma_evaluated_holds(s, request, thread_id, stack_level, path, evaluation);
                },
                _ => {},
            }
        },
        ReasonView::Variables { request, reference, .. } => {
            match adapter_evaluation::variables_in(reference, reply) {
                Ok(Some(variables)) => {
                    lemma_variables_answer_holds(s, request, reference, variables);
                },
                _ => {},
            }
        },
        _ => {},
    }
}

proof fn lemma_reply_holds(s: AdapterView, reason: ReasonView, reply: HttpReplyView, id: Seq<char>, next: NextView)
    requires
        consistent(s),
        adapter::ready(s),
        fits(s, next),
        next matches NextView::Send(_, r) && r == reason,
    ensures
        holds(adapter_requests::replied_to(s, reason, reply, id)),
{
    match reason {
        ReasonView::Detach(ending) => {
            lemma_ending_holds(
                s,
                ending,
                debug_server::acknowledged("detachDebugUI"@, reply),
            );
        },
        ReasonView::Configure(attaching, session) => {
            lemma_configure_holds(s, attaching, session, reply);
        },
        ReasonView::Step { request, thread_id, target_id, action } => {
            lemma_step_reply_holds(s, request, thread_id, target_id, action, reply);
        },
        ReasonView::PrepareTarget { .. } => {
            lemma_attachment_replies_hold(s, reason, reply, id);
        },
        ReasonView::AttachTarget { .. } => {
            lemma_attachment_replies_hold(s, reason, reply, id);
        },
        ReasonView::PrepareStarted { .. } => {
            lemma_attachment_replies_hold(s, reason, reply, id);
        },
        ReasonView::AttachStarted { .. } => {
            lemma_attachment_replies_hold(s, reason, reply, id);
        },
        ReasonView::Evaluate { .. } => {
            lemma_calculation_replies_hold(s, reason, reply, id);
        },
        ReasonView::Variables { .. } => {
            lemma_calculation_replies_hold(s, reason, reply, id);
        },
        _ => {
            lemma_simple_replies_hold(s, reason, reply, id);
        },
    }
}

proof fn lemma_target_events_hold(s: AdapterView, target_id: Seq<char>, rest: Seq<DebugUiEventView>)
    requires
        consistent(s),
    ensures
        holds(adapter_events::target_started(s, target_id, rest)),
        holds(adapter_events::target_quit(s, target_id, rest)),
{
    broadcast use group_consistent;

    match ordered::lookup(s.threads, target_id) {
        Some(thread_id) => {
            lemma_without_target(s, target_id, thread_id);
        },
        None => {},
    }
}

proof fn lemma_stack_holds(s: AdapterView, target_id: Seq<char>, event: DebugUiEventView, exception: bool, rest: Seq<DebugUiEventView>)
    requires
        consistent(s),
    ensures
        holds(adapter_events::stack_formed(s, target_id, event, exception, rest)),
{
    broadcast use group_consistent;

    let said = adapter_events::event_message(s, event);
    match ordered::lookup(s.threads, target_id) {
        Some(thread_id) => {
            lemma_with_stack(
                adapter::counted(s, said.len() as int),
                target_id,
                thread_id,
                event.call_stack,
            );
        },
        None => {},
    }
}

proof fn lemma_arrival_holds(s: AdapterView, evaluation: Option<DebugEvaluationView>)
    requires
        consistent(s),
        adapter::ready(s),
    ensures
        consistent(adapter_frames::evaluation_arrived(s, evaluation).0),
{
    broadcast use group_consistent;

    if evaluation is Some {
        let evaluation = evaluation->0;
        let result_id = evaluation.result_id;
        match ordered::lookup(s.pending_evaluations, result_id) {
            Some(pending) => {
                let rest = AdapterView {
                    pending_evaluations: ordered::without(s.pending_evaluations, result_id),
                    ..s
                };
                assert(consistent(rest) && is_stopped(rest, adapter::pending_thread(pending))) by {
                    reveal(consistent);
                    lemma_found(s.pending_evaluations, result_id);
                    ordered::lemma_without::<String, PendingEvaluationView>(
                        s.pending_evaluations,
                        result_id,
                    );
                    assert forall|i: int| 0 <= i < rest.pending_evaluations.len() implies is_stopped(
                        rest,
                        adapter::pending_thread((#[trigger] rest.pending_evaluations[i]).1),
                    ) by {
                        lemma_without_from(s.pending_evaluations, result_id, i);
                    }
                }
                match pending {
                    PendingEvaluationView::Evaluate { request, thread_id, stack_level, path } => {
                        lemma_evaluated_holds(
                            rest,
                            request,
                            thread_id,
                            stack_level,
                            path,
                            evaluation,
                        );
                    },
                    PendingEvaluationView::Variables { request, reference } => {
                        lemma_variables_answer_holds(
                            rest,
                            request,
                            reference,
                            evaluation.variables,
                        );
                    },
                }
            },
            None => {},
        }
    }
}

proof fn lemma_events_hold(s: AdapterView, events: Seq<DebugUiEventView>)
    requires
        consistent(s),
        adapter::ready(s),
    ensures
        holds(adapter_events::events_taken(s, events)),
{
    broadcast use group_consistent;

    if events.len() > 0 {
        let event = events[0];
        let rest = events.skip(1);
        lemma_arrival_holds(s, event.evaluation);
        if event.target_id is Some {
            lemma_target_events_hold(s, event.target_id->0, rest);
            lemma_stack_holds(s, event.target_id->0, event, true, rest);
            lemma_stack_holds(s, event.target_id->0, event, false, rest);
        }
    }
}

/// In every state that the adapter reaches, its maps are in order, thread numbers are positive
/// and distinct, every call stack belongs to an attached target, every reference and every waiting
/// request belongs to a stopped thread, and the parts of a session are there together: each step
/// keeps this.
pub proof fn every_step_keeps_the_state_consistent(s: AdapterView, next: NextView, input: InputView)
    requires
        consistent(s),
        fits(s, next),
        follows(next, input),
        adapter::ready(s),
    ensures
        consistent(adapter_laws::step(s, input).0),
        fits(adapter_laws::step(s, input).0, adapter_laws::step(s, input).1.next),
{
    match input {
        InputView::Request(request, id) => {
            lemma_request_holds(s, request, id);
        },
        InputView::Reply(reason, reply, id) => {
            lemma_reply_holds(s, reason, reply, id, next);
        },
        InputView::Events(events) => {
            lemma_events_hold(s, events);
        },
        InputView::Poll(poll, session, outcome) => {
            lemma_poll_ended(s, poll, session, outcome);
        },
        InputView::Tick(report) => {
            lemma_poll_begun(s, None);
            if report.server_exit is Some {
                lemma_ending_holds(
                    s,
                    EndingView::ServerExit(report.server_exit->0),
                    Ok(()),
                );
            } else if report.client_exited {
                let code = match report.client_code {
                    Some(code) => code,
                    None => (-1int) as i32,
                };
                lemma_ending_holds(s, EndingView::ClientExit(code), Ok(()));
            }
        },
        InputView::InputClosed => {
            lemma_ending_holds(s, EndingView::InputClosed, Ok(()));
        },
        InputView::Source(_, _, _) => {
            lemma_source_holds(s, input);
        },
        _ => {
            lemma_connection_holds(s, input);
        },
    }
}

/// A run of the adapter: from the start, each input follows what the step before left to do, and
/// the numbers are never used up.
pub open spec fn is_run(host: Host, states: Seq<(AdapterView, NextView)>, inputs: Seq<InputView>) -> bool {
    &&& states.len() == inputs.len() + 1
    &&& states[0] == (adapter::fresh(host), NextView::Done)
    &&& forall|i: int|
        0 <= i < inputs.len() ==> {
            let (s, next) = #[trigger] states[i];
            let (after, turn) = adapter_laws::step(s, inputs[i]);
            &&& adapter::ready(s)
            &&& follows(next, inputs[i])
            &&& states[i + 1] == (after, turn.next)
        }
}

/// Every state of a run is whole.
pub proof fn every_state_of_a_run_is_consistent(host: Host, states: Seq<(AdapterView, NextView)>, inputs: Seq<InputView>, i: int)
    requires
        is_run(host, states, inputs),
        0 <= i < states.len(),
    ensures
        consistent(states[i].0),
        fits(states[i].0, states[i].1),
    decreases i,
{
    if i == 0 {
        fresh_is_consistent(host);
    } else {
        every_state_of_a_run_is_consistent(host, states, inputs, i - 1);
        let (s, next) = states[i - 1];
        every_step_keeps_the_state_consistent(s, next, inputs[i - 1]);
    }
}

/// The messages of the first `n` steps of a run, in their order.
pub open spec fn messages_of_run(states: Seq<(AdapterView, NextView)>, inputs: Seq<InputView>, n: int) -> Seq<JsonView>
    decreases n,
{
    if n <= 0 {
        Seq::empty()
    } else {
        messages_of_run(states, inputs, n - 1) + adapter_laws::messages(
            adapter_laws::step(states[n - 1].0, inputs[n - 1]).1.outputs,
        )
    }
}

/// The messages of a run carry the numbers from one on: none is left out, and none is used twice.
pub proof fn messages_of_a_run_are_numbered(host: Host, states: Seq<(AdapterView, NextView)>, inputs: Seq<InputView>, n: int)
    requires
        is_run(host, states, inputs),
        0 <= n < states.len(),
    ensures
        adapter_laws::consecutive(messages_of_run(states, inputs, n), 0),
        states[n].0.next_sequence == messages_of_run(states, inputs, n).len(),
    decreases n,
{
    if n > 0 {
        messages_of_a_run_are_numbered(host, states, inputs, n - 1);
        let before = messages_of_run(states, inputs, n - 1);
        let s = states[n - 1].0;
        adapter_laws::messages_are_numbered(s, inputs[n - 1]);
        let said = adapter_laws::messages(adapter_laws::step(s, inputs[n - 1]).1.outputs);
        assert forall|i: int| 0 <= i < (before + said).len() implies json::field(
            #[trigger] (before + said)[i],
            "seq"@,
        ) == JsonView::Integer(1 + i) by {
            if i < before.len() {
                assert((before + said)[i] == before[i]);
            } else {
                assert((before + said)[i] == said[i - before.len()]);
            }
        }
    }
}

/// A reference is new when it is given out, and leads to what it was given out for; the references
/// before it lead where they led.
pub proof fn references_are_fresh(s: AdapterView, reference: VariableReferenceView)
    requires
        consistent(s),
        s.next_variable_reference < i64::MAX,
    ensures
        ({
            let id = adapter_frames::next_reference(s) as i64;
            let next = adapter_frames::stored(s, reference);
            &&& id == adapter_frames::next_reference(s)
            &&& id > adapter_frames::FIRST_REFERENCE
            &&& ordered::lookup(s.variable_references, id) is None
            &&& ordered::lookup(next.variable_references, id) == Some(reference)
            &&& forall|other: i64|
                other != id ==> #[trigger] ordered::lookup(next.variable_references, other)
                    == ordered::lookup(s.variable_references, other)
        }),
{
    reveal(consistent);
    let id = adapter_frames::next_reference(s) as i64;
    ordered::lemma_inserted::<i64, VariableReferenceView>(s.variable_references, id, reference);
    if ordered::lookup(s.variable_references, id) is Some {
        lemma_found(s.variable_references, id);
    }
}

/// A value has a reference exactly where it has children: zero stands for none.
pub proof fn values_without_children_have_no_reference(
    s: AdapterView,
    thread_id: i64,
    stack_level: i64,
    path: Seq<CalculationPathItemView>,
    is_expandable: bool,
    is_indexed_collection: bool,
)
    ensures
        (adapter_frames::referenced(
            s,
            thread_id,
            stack_level,
            path,
            is_expandable,
            is_indexed_collection,
        ).1 == 0) == (!is_expandable && !is_indexed_collection),
{
}

/// What a variable in a list leads to.
pub open spec fn leads_to_children(s: AdapterView, parent: VariableReferenceView, variable: DebugVariableView, body: JsonView) -> bool {
    match adapter_frames::children_interface(variable.is_expandable, variable.is_indexed_collection) {
        None => body == adapter_frames::variable_body(variable, 0),
        Some(interface) => exists|id: i64|
            body == #[trigger] adapter_frames::variable_body(variable, id as int)
                && ordered::lookup(s.variable_references, id) == Some(
                VariableReferenceView::Value {
                    thread_id: adapter::address_of(parent).0,
                    stack_level: adapter::address_of(parent).1,
                    path: adapter_frames::child_path(parent, variable),
                    interface,
                },
            ),
    }
}

/// Each variable that is shown leads to its own children: its reference stands for the path of the
/// variable below its parent, whatever is shown after it.
pub proof fn shown_variables_lead_to_their_children(s: AdapterView, parent: VariableReferenceView, variables: Seq<DebugVariableView>, i: int)
    requires
        consistent(s),
        is_stopped(s, adapter::address_of(parent).0),
        adapter_frames::has_references(s, variables.len() as int),
        0 <= i < variables.len(),
    ensures
        adapter_frames::listed(s, parent, variables).1.len() == variables.len(),
        leads_to_children(
            adapter_frames::listed(s, parent, variables).0,
            parent,
            variables[i],
            adapter_frames::listed(s, parent, variables).1[i],
        ),
    decreases variables.len(),
{
    let front = variables.drop_last();
    let last = variables.last();
    let (before, bodies) = adapter_frames::listed(s, parent, front);
    let (after, all) = adapter_frames::listed(s, parent, variables);
    lemma_listed(s, parent, front);
    adapter_frames::lemma_listed_bound(s, parent, front);
    adapter_frames::lemma_listed_bound(s, parent, variables);
    match adapter_frames::children_interface(last.is_expandable, last.is_indexed_collection) {
        Some(interface) => {
            let reference = VariableReferenceView::Value {
                thread_id: adapter::address_of(parent).0,
                stack_level: adapter::address_of(parent).1,
                path: adapter_frames::child_path(parent, last),
                interface,
            };
            references_are_fresh(before, reference);
            let id = adapter_frames::next_reference(before) as i64;
            if i == variables.len() - 1 {
                assert(all[i] == adapter_frames::variable_body(last, id as int));
            } else {
                shown_variables_lead_to_their_children(s, parent, front, i);
                assert(all[i] == bodies[i]);
                assert(front[i] == variables[i]);
                let variable = variables[i];
                if adapter_frames::children_interface(
                    variable.is_expandable,
                    variable.is_indexed_collection,
                ) is Some {
                    let other = choose|other: i64|
                        bodies[i] == #[trigger] adapter_frames::variable_body(
                            variable,
                            other as int,
                        ) && ordered::lookup(before.variable_references, other) is Some;
                    assert(other != id);
                }
            }
        },
        None => {
            assert(after == before);
            if i < variables.len() - 1 {
                shown_variables_lead_to_their_children(s, parent, front, i);
                assert(all[i] == bodies[i]);
                assert(front[i] == variables[i]);
            }
        },
    }
}

/// Forgetting a thread forgets exactly its references and waiting requests.
pub proof fn forgetting_a_thread_is_exact(s: AdapterView, thread_id: i64, id: i64, result_id: Seq<char>)
    requires
        consistent(s),
    ensures
        ordered::lookup(adapter_frames::forgotten(s, thread_id).variable_references, id) == match ordered::lookup(
            s.variable_references,
            id,
        ) {
            Some(reference) if adapter::address_of(reference).0 != thread_id => Some(reference),
            _ => None,
        },
        ordered::lookup(adapter_frames::forgotten(s, thread_id).pending_evaluations, result_id)
            == match ordered::lookup(s.pending_evaluations, result_id) {
            Some(pending) if adapter::pending_thread(pending) != thread_id => Some(pending),
            _ => None,
        },
{
    reveal(consistent);
    lemma_kept_lookup::<i64, VariableReferenceView>(
        s.variable_references,
        adapter_frames::refers_elsewhere(thread_id),
        id,
    );
    lemma_kept_lookup::<String, PendingEvaluationView>(
        s.pending_evaluations,
        adapter_frames::waits_elsewhere(thread_id),
        result_id,
    );
}

proof fn lemma_kept_lookup<K: ordered::Key, B>(entries: Seq<(K::V, B)>, passes: spec_fn(B) -> bool, key: K::V)
    requires
        ordered::sorted::<K, B>(entries),
    ensures
        ordered::lookup(ordered::kept(entries, passes), key) == match ordered::lookup(entries, key) {
            Some(value) if passes(value) => Some(value),
            _ => None,
        },
{
    let left = ordered::kept(entries, passes);
    let p = |entry: (K::V, B)| passes(entry.1);
    ordered::lemma_kept_sorted::<K, B>(entries, passes);
    if ordered::lookup(left, key) is Some {
        lemma_found(left, key);
        let i = choose|i: int|
            0 <= i < left.len() && (#[trigger] left[i]) == (key, ordered::lookup(left, key)->0);
        lemma_kept_from(entries, passes, i);
        entries.lemma_filter_pred(p, i);
        let j = choose|j: int| 0 <= j < entries.len() && entries[j] == left[i];
        ordered::lemma_lookup_at::<K, B>(entries, j);
    } else if ordered::lookup(entries, key) is Some {
        lemma_found(entries, key);
        let j = choose|j: int|
            0 <= j < entries.len() && (#[trigger] entries[j]) == (
                key,
                ordered::lookup(entries, key)->0,
            );
        if passes(entries[j].1) {
            entries.lemma_filter_contains(p, j);
            let i = choose|i: int| 0 <= i < left.len() && left[i] == entries[j];
            assert(left[i].0 == key);
        }
    }
}

} // verus!
