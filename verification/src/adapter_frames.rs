//! Stack frames, scopes and variables of stopped threads.

use crate::adapter;
use crate::adapter::{
    speak, trace_result, Adapter, AdapterView, PendingEvaluation, PendingEvaluationView, Turn,
    TurnView, VariableReference, VariableReferenceView,
};
use crate::debug_types::{
    CalculationPathItem, CalculationPathItemView, DebugEvaluation, DebugEvaluationView,
    DebugStackFrame, DebugStackFrameView, DebugUiEvent, DebugVariable, DebugVariableView,
    EvaluationInterface,
};
use crate::json;
use crate::json::{
    array, find_argument, object, optional_i64, optional_u64, pair, signed, string, Json, JsonView,
};
use crate::list::{append, none, one, push};
use crate::metadata::{ModuleRegistry, ModuleRegistryView};
use crate::ordered;
use crate::text::copy;
use vstd::prelude::*;

verus! {

/// The first target that has a thread number.
pub open spec fn target_of(threads: Seq<(Seq<char>, i64)>, thread_id: i64) -> Option<Seq<char>>
    decreases threads.len(),
{
    if threads.len() == 0 {
        None
    } else if threads[0].1 == thread_id {
        Some(threads[0].0)
    } else {
        target_of(threads.skip(1), thread_id)
    }
}

/// The largest and the smallest `i64` bound a number.
pub open spec fn clamped(n: int) -> int {
    if n > i64::MAX {
        i64::MAX as int
    } else if n < i64::MIN {
        i64::MIN as int
    } else {
        n
    }
}

/// The identifier of a stack frame.
pub open spec fn frame_id(thread_id: i64, index: int) -> int {
    clamped(clamped(thread_id * 1_000_000) + index + 1)
}

/// The thread and the stack level that a frame identifier stands for, where there is such a frame.
pub open spec fn frame_at(call_stacks: Seq<(i64, Seq<DebugStackFrameView>)>, id: Option<i64>) -> Option<(i64, i64)> {
    match id {
        Some(id) if id > 1_000_000 => {
            let thread_id = (id / 1_000_000) as i64;
            let stack_level = (id % 1_000_000 - 1) as i64;
            match ordered::lookup(call_stacks, thread_id) {
                Some(stack) if 0 <= stack_level < stack.len() => Some((thread_id, stack_level)),
                _ => None,
            }
        },
        _ => None,
    }
}

pub open spec fn frame_name(frame: DebugStackFrameView) -> Seq<char> {
    if frame.presentation.len() == 0 {
        "1C module "@ + frame.object_id
    } else {
        frame.presentation
    }
}

/// Where the module of a frame is.
pub open spec fn frame_path(registry: Option<ModuleRegistryView>, frame: DebugStackFrameView) -> Option<Seq<char>> {
    match registry {
        Some(registry) => ordered::lookup(
            registry.by_identity,
            (frame.extension_name, frame.object_id, frame.property_id),
        ),
        None => None,
    }
}

pub open spec fn source_body(path: Seq<char>) -> JsonView {
    JsonView::Object(seq![("path"@, JsonView::Str(path))])
}

/// A stack frame as the protocol describes it.
pub open spec fn frame_body(registry: Option<ModuleRegistryView>, thread_id: i64, index: int, frame: DebugStackFrameView) -> JsonView {
    let members = seq![
        ("id"@, JsonView::Integer(frame_id(thread_id, index))),
        ("name"@, JsonView::Str(frame_name(frame))),
        (
            "line"@,
            JsonView::Integer(
                if frame.line < 1 {
                    1
                } else {
                    frame.line as int
                },
            ),
        ),
        ("column"@, JsonView::Integer(1)),
    ];
    JsonView::Object(
        match frame_path(registry, frame) {
            Some(path) => members.push(("source"@, source_body(path))),
            None => members,
        },
    )
}

/// The frames of a stack from `start` on, at most `levels` of them.
pub open spec fn frame_bodies(registry: Option<ModuleRegistryView>, thread_id: i64, stack: Seq<DebugStackFrameView>, start: int, levels: int) -> Seq<JsonView> {
    let left = if start < stack.len() {
        stack.len() - start
    } else {
        0
    };
    let count = if levels < left {
        levels
    } else {
        left
    };
    Seq::new(
        count as nat,
        |k: int| frame_body(registry, thread_id, start + k, stack[start + k]),
    )
}

pub open spec fn unsigned_or(value: Option<u64>, default: int) -> int {
    match value {
        Some(value) => value as int,
        None => default,
    }
}

pub open spec fn frames_body(frames: Seq<JsonView>, total: int) -> JsonView {
    JsonView::Object(
        seq![("stackFrames"@, JsonView::Array(frames)), ("totalFrames"@, JsonView::Integer(total))],
    )
}

/// `stackTrace`: the frames of a stopped thread, topmost first; none for another thread.
pub open spec fn stack_traced(s: AdapterView, request: JsonView) -> (AdapterView, TurnView) {
    match json::signed_of(json::argument(request, "threadId"@)) {
        None => adapter::refused(s, request, "stackTrace requires threadId"@),
        Some(thread_id) => match ordered::lookup(s.call_stacks, thread_id) {
            None => adapter::answered(s, request, frames_body(Seq::empty(), 0)),
            Some(stack) => {
                let start = unsigned_or(
                    json::unsigned_of(json::argument(request, "startFrame"@)),
                    0,
                );
                let levels = unsigned_or(
                    json::unsigned_of(json::argument(request, "levels"@)),
                    u64::MAX as int,
                );
                let frames = frame_bodies(s.module_registry, thread_id, stack, start, levels);
                adapter::answered(s, request, frames_body(frames, stack.len() as int))
            },
        },
    }
}

fn clamp(n: i128) -> (r: i64)
    ensures
        r == clamped(n as int),
{
    if n > i64::MAX as i128 {
        i64::MAX
    } else if n < i64::MIN as i128 {
        i64::MIN
    } else {
        n as i64
    }
}

/// The identifier of a stack frame.
pub fn stack_frame_id(thread_id: i64, index: usize) -> (r: i64)
    ensures
        r == frame_id(thread_id, index as int),
{
    let base = clamp(thread_id as i128 * 1_000_000);
    clamp(base as i128 + index as i128 + 1)
}

pub(crate) fn describe_source(path: &str) -> (r: Json)
    ensures
        r.deep_view() == source_body(path@),
{
    let members = vec![pair("path", string(path))];
    assert(members.deep_view() =~= source_body(path@)->Object_0);
    object(members)
}

fn describe_frame(registry: &Option<ModuleRegistry>, thread_id: i64, index: usize, frame: &DebugStackFrame) -> (r: Json)
    ensures
        r.deep_view() == frame_body(
            registry.deep_view(),
            thread_id,
            index as int,
            frame.deep_view(),
        ),
{
    let name = if frame.presentation.as_str().is_empty() {
        let mut name = copy("1C module ");
        name.append(frame.object_id.as_str());
        name
    } else {
        copy(frame.presentation.as_str())
    };
    let line: i64 = if frame.line < 1 {
        1
    } else {
        frame.line
    };
    let path = match registry {
        Some(registry) => registry.path_by_module(
            frame.extension_name.as_str(),
            frame.object_id.as_str(),
            frame.property_id.as_str(),
        ),
        None => None,
    };
    let mut members = vec![
        pair("id", signed(stack_frame_id(thread_id, index))),
        pair("name", string(name.as_str())),
        pair("line", signed(line)),
        pair("column", signed(1)),
    ];
    let ghost expected = frame_body(
        registry.deep_view(),
        thread_id,
        index as int,
        frame.deep_view(),
    );
    match path {
        Some(path) => {
            push(&mut members, pair("source", describe_source(path)));
        },
        None => {},
    }
    assert(members.deep_view() =~= expected->Object_0);
    object(members)
}

fn describe_frames(registry: &Option<ModuleRegistry>, thread_id: i64, stack: &Vec<DebugStackFrame>, start: u64, levels: u64) -> (r: Vec<Json>)
    ensures
        r.deep_view() == frame_bodies(
            registry.deep_view(),
            thread_id,
            stack.deep_view(),
            start as int,
            levels as int,
        ),
{
    let ghost all = frame_bodies(
        registry.deep_view(),
        thread_id,
        stack.deep_view(),
        start as int,
        levels as int,
    );
    let mut out: Vec<Json> = none();
    if start >= stack.len() as u64 {
        assert(out.deep_view() =~= all);
        return out;
    }
    let first: usize = start as usize;
    let mut i: usize = first;
    while i < stack.len() && ((i - first) as u64) < levels
        invariant
            first <= i <= stack@.len(),
            first == start,
            start < stack@.len(),
            i - first <= levels,
            all == frame_bodies(
                registry.deep_view(),
                thread_id,
                stack.deep_view(),
                start as int,
                levels as int,
            ),
            out.deep_view() == all.take(i - first),
        decreases stack@.len() - i,
    {
        let frame = describe_frame(registry, thread_id, i, &stack[i]);
        push(&mut out, frame);
        assert(stack.deep_view()[i as int] == stack@[i as int].deep_view());
        assert(out.deep_view() =~= all.take(i - first + 1));
        i = i + 1;
    }
    assert(out.deep_view() =~= all);
    out
}

impl Adapter {
    /// The target of a thread.
    pub fn target_id(&self, thread_id: i64) -> (r: Option<&str>)
        ensures
            r.deep_view() == target_of(self.deep_view().threads, thread_id),
    {
        let ghost all = self.threads.deep_view();
        assert(all.skip(0) =~= all);
        let mut i: usize = 0;
        while i < self.threads.len()
            invariant
                i <= all.len(),
                all == self.threads.deep_view(),
                target_of(all, thread_id) == target_of(all.skip(i as int), thread_id),
            decreases all.len() - i,
        {
            let entry = self.threads.at(i);
            assert(all.skip(i as int)[0] == entry.deep_view());
            assert(all.skip(i as int).skip(1) =~= all.skip(i + 1));
            if entry.1 == thread_id {
                return Some(entry.0.as_str());
            }
            i = i + 1;
        }
        assert(all.skip(i as int).len() == 0);
        None
    }

    /// The thread and the stack level that a frame identifier stands for.
    pub fn frame_address(&self, frame_id: Option<i64>) -> (r: Option<(i64, i64)>)
        ensures
            r == frame_at(self.deep_view().call_stacks, frame_id),
    {
        match frame_id {
            None => None,
            Some(id) => {
                if id <= 1_000_000 {
                    return None;
                }
                let thread_id: i64 = id / 1_000_000;
                let stack_level: i64 = id % 1_000_000 - 1;
                match self.call_stacks.get(&thread_id) {
                    Some(stack) => if 0 <= stack_level && (stack_level as u64) < stack.len() as u64 {
                        Some((thread_id, stack_level))
                    } else {
                        None
                    },
                    None => None,
                }
            },
        }
    }

    /// Handles `stackTrace`.
    pub fn stack_trace(&mut self, request: &Json) -> (r: Turn)
        requires
            adapter::ready(old(self).deep_view()),
        ensures
            (final(self).deep_view(), r.deep_view()) == stack_traced(
                old(self).deep_view(),
                request.deep_view(),
            ),
    {
        let thread_id = match optional_i64(find_argument(request, "threadId")) {
            Some(thread_id) => thread_id,
            None => {
                return self.refuse(request, "stackTrace requires threadId");
            },
        };
        let start: u64 = match optional_u64(find_argument(request, "startFrame")) {
            Some(start) => start,
            None => 0,
        };
        let levels: u64 = match optional_u64(find_argument(request, "levels")) {
            Some(levels) => levels,
            None => u64::MAX,
        };
        let (frames, total): (Vec<Json>, usize) = match self.call_stacks.get(&thread_id) {
            Some(stack) => (
                describe_frames(&self.module_registry, thread_id, stack, start, levels),
                stack.len(),
            ),
            None => (none(), 0),
        };
        let ghost listed = frames.deep_view();
        let members = vec![
            pair("stackFrames", array(frames)),
            pair("totalFrames", Json::Unsigned(total as u64)),
        ];
        assert(members.deep_view() =~= frames_body(listed, total as int)->Object_0);
        self.answer(request, object(members))
    }
}

/// The smallest `variablesReference` is larger than this.
pub const FIRST_REFERENCE: i64 = 10_000_000;

/// The next `variablesReference`.
pub open spec fn next_reference(s: AdapterView) -> int {
    if s.next_variable_reference < FIRST_REFERENCE {
        FIRST_REFERENCE + 1
    } else {
        s.next_variable_reference + 1
    }
}

/// The state after a reference was given out.
pub open spec fn stored(s: AdapterView, reference: VariableReferenceView) -> AdapterView {
    AdapterView {
        next_variable_reference: next_reference(s),
        variable_references: ordered::inserted::<i64, VariableReferenceView>(
            s.variable_references,
            next_reference(s) as i64,
            reference,
        ),
        ..s
    }
}

/// How the children of a value are asked for, where it has any.
pub open spec fn children_interface(is_expandable: bool, is_indexed_collection: bool) -> Option<EvaluationInterface> {
    if is_expandable {
        Some(EvaluationInterface::Context)
    } else if is_indexed_collection {
        Some(EvaluationInterface::Collection)
    } else {
        None
    }
}

/// The state and the `variablesReference` after a value was shown; zero stands for a value without
/// children.
pub open spec fn referenced(
    s: AdapterView,
    thread_id: i64,
    stack_level: i64,
    path: Seq<CalculationPathItemView>,
    is_expandable: bool,
    is_indexed_collection: bool,
) -> (AdapterView, int) {
    match children_interface(is_expandable, is_indexed_collection) {
        Some(interface) => (
            stored(s, VariableReferenceView::Value { thread_id, stack_level, path, interface }),
            next_reference(s),
        ),
        None => (s, 0),
    }
}

/// `scopes`: the local variables of a stack frame.
pub open spec fn scoped(s: AdapterView, request: JsonView) -> (AdapterView, TurnView) {
    match json::signed_of(json::argument(request, "frameId"@)) {
        None => adapter::refused(s, request, "scopes requires frameId"@),
        Some(frame_id) => match frame_at(s.call_stacks, Some(frame_id)) {
            None => adapter::refused(s, request, "unknown stack frame"@),
            Some((thread_id, stack_level)) => adapter::answered(
                stored(s, VariableReferenceView::Locals { thread_id, stack_level }),
                request,
                scopes_body(next_reference(s)),
            ),
        },
    }
}

pub open spec fn scopes_body(reference: int) -> JsonView {
    JsonView::Object(
        seq![
            (
                "scopes"@,
                JsonView::Array(
                    seq![
                        JsonView::Object(
                            seq![
                                ("name"@, JsonView::Str("Локальные"@)),
                                ("variablesReference"@, JsonView::Integer(reference)),
                                ("expensive"@, JsonView::Bool(false)),
                            ],
                        ),
                    ],
                ),
            ),
        ],
    )
}

fn describe_scopes(reference: i64) -> (r: Json)
    ensures
        r.deep_view() == scopes_body(reference as int),
{
    let scope = vec![
        pair("name", string("Локальные")),
        pair("variablesReference", signed(reference)),
        pair("expensive", Json::Bool(false)),
    ];
    assert(scope.deep_view() =~= seq![
        ("name"@, JsonView::Str("Локальные"@)),
        ("variablesReference"@, JsonView::Integer(reference as int)),
        ("expensive"@, JsonView::Bool(false)),
    ]);
    let members = vec![pair("scopes", array(one(object(scope))))];
    assert(members.deep_view() =~= scopes_body(reference as int)->Object_0);
    object(members)
}

pub open spec fn evaluation_body(evaluation: DebugEvaluationView, reference: int) -> JsonView {
    JsonView::Object(
        seq![
            (
                "result"@,
                JsonView::Str(
                    match evaluation.error {
                        Some(error) => error,
                        None => evaluation.value,
                    },
                ),
            ),
            ("type"@, JsonView::Str(evaluation.value_type)),
            ("variablesReference"@, JsonView::Integer(reference)),
        ],
    )
}

/// An evaluation is the answer to a request.
pub open spec fn evaluated(
    s: AdapterView,
    request: JsonView,
    thread_id: i64,
    stack_level: i64,
    path: Seq<CalculationPathItemView>,
    evaluation: DebugEvaluationView,
) -> (AdapterView, TurnView) {
    let (next, reference) = referenced(
        s,
        thread_id,
        stack_level,
        path,
        evaluation.is_expandable,
        evaluation.is_indexed_collection,
    );
    adapter::answered(next, request, evaluation_body(evaluation, reference))
}

/// The calculation path of a variable behind a reference: an item of a collection by its index, a
/// local variable as an expression, and a property by its name.
pub open spec fn child_path(parent: VariableReferenceView, variable: DebugVariableView) -> Seq<CalculationPathItemView> {
    adapter::path_of(parent).push(
        match variable.index {
            Some(index) => CalculationPathItemView::Index(index),
            None => match parent {
                VariableReferenceView::Locals { .. } => CalculationPathItemView::Expression(
                    variable.name,
                ),
                VariableReferenceView::Value { .. } => CalculationPathItemView::Property(
                    variable.name,
                ),
            },
        },
    )
}

pub open spec fn variable_body(variable: DebugVariableView, reference: int) -> JsonView {
    JsonView::Object(
        seq![
            ("name"@, JsonView::Str(variable.name)),
            ("type"@, JsonView::Str(variable.value_type)),
            ("value"@, JsonView::Str(variable.value)),
            ("variablesReference"@, JsonView::Integer(reference)),
        ],
    )
}

/// The state and the descriptions after variables were shown, one after the other.
pub open spec fn listed(s: AdapterView, parent: VariableReferenceView, variables: Seq<DebugVariableView>) -> (AdapterView, Seq<JsonView>)
    decreases variables.len(),
{
    if variables.len() == 0 {
        (s, Seq::empty())
    } else {
        let (before, bodies) = listed(s, parent, variables.drop_last());
        let variable = variables.last();
        let (after, reference) = referenced(
            before,
            adapter::address_of(parent).0,
            adapter::address_of(parent).1,
            child_path(parent, variable),
            variable.is_expandable,
            variable.is_indexed_collection,
        );
        (after, bodies.push(variable_body(variable, reference)))
    }
}

pub open spec fn variables_body(bodies: Seq<JsonView>) -> JsonView {
    JsonView::Object(seq![("variables"@, JsonView::Array(bodies))])
}

/// Variables are the answer to a request.
pub open spec fn variables_shown(s: AdapterView, request: JsonView, parent: VariableReferenceView, variables: Seq<DebugVariableView>) -> (AdapterView, TurnView) {
    let (next, bodies) = listed(s, parent, variables);
    adapter::answered(next, request, variables_body(bodies))
}

/// There are references left for as many variables.
pub open spec fn has_references(s: AdapterView, count: int) -> bool {
    next_reference(s) + count <= i64::MAX
}

pub proof fn lemma_listed_bound(s: AdapterView, parent: VariableReferenceView, variables: Seq<DebugVariableView>)
    ensures
        next_reference(listed(s, parent, variables).0) <= next_reference(s) + variables.len(),
        listed(s, parent, variables).0.next_sequence == s.next_sequence,
        listed(s, parent, variables).1.len() == variables.len(),
    decreases variables.len(),
{
    if variables.len() > 0 {
        lemma_listed_bound(s, parent, variables.drop_last());
    }
}

/// A reference belongs to another thread.
pub open spec fn refers_elsewhere(thread_id: i64) -> spec_fn(VariableReferenceView) -> bool {
    |reference: VariableReferenceView| adapter::address_of(reference).0 != thread_id
}

/// A waiting request belongs to another thread.
pub open spec fn waits_elsewhere(thread_id: i64) -> spec_fn(PendingEvaluationView) -> bool {
    |pending: PendingEvaluationView| adapter::pending_thread(pending) != thread_id
}

/// The references and the waiting requests of a thread are forgotten.
pub open spec fn forgotten(s: AdapterView, thread_id: i64) -> AdapterView {
    AdapterView {
        variable_references: ordered::kept(s.variable_references, refers_elsewhere(thread_id)),
        pending_evaluations: ordered::kept(s.pending_evaluations, waits_elsewhere(thread_id)),
        ..s
    }
}

/// The answer to a request that waited for an evaluation. Where there are no references left for
/// its variables, the request is refused.
pub open spec fn deferred_answer(s: AdapterView, pending: PendingEvaluationView, evaluation: DebugEvaluationView) -> (AdapterView, TurnView) {
    match pending {
        PendingEvaluationView::Evaluate { request, thread_id, stack_level, path } => evaluated(
            s,
            request,
            thread_id,
            stack_level,
            path,
            evaluation,
        ),
        PendingEvaluationView::Variables { request, reference } => variables_answer(
            s,
            request,
            reference,
            evaluation.variables,
        ),
    }
}

/// Variables are the answer to a request, unless there are no references left for them.
pub open spec fn variables_answer(s: AdapterView, request: JsonView, reference: VariableReferenceView, variables: Seq<DebugVariableView>) -> (AdapterView, TurnView) {
    if has_references(s, variables.len() as int) {
        variables_shown(s, request, reference, variables)
    } else {
        adapter::refused(s, request, "no variablesReference is left"@)
    }
}

/// An evaluation arrives that was deferred: the request that waits for it is answered, once.
pub open spec fn evaluation_arrived(s: AdapterView, evaluation: Option<DebugEvaluationView>) -> (AdapterView, TurnView) {
    match evaluation {
        None => (
            adapter::counted(s, 1),
            adapter::says(
                seq![
                    adapter::next_output(
                        s,
                        "stderr"@,
                        "1C sent exprEvaluated without calculation data\n"@,
                    ),
                ],
            ),
        ),
        Some(evaluation) => match ordered::lookup(s.pending_evaluations, evaluation.result_id) {
            None => (
                adapter::counted(s, 1),
                adapter::says(
                    seq![
                        adapter::next_output(
                            s,
                            "console"@,
                            "1C sent an unsolicited expression result "@ + evaluation.result_id
                                + "\n"@,
                        ),
                    ],
                ),
            ),
            Some(pending) => {
                let rest = AdapterView {
                    pending_evaluations: ordered::without(
                        s.pending_evaluations,
                        evaluation.result_id,
                    ),
                    ..s
                };
                let (next, turn) = deferred_answer(rest, pending, evaluation);
                (
                    next,
                    TurnView {
                        outputs: seq![
                            adapter::result_record("rdbg.expr.evaluated"@, evaluation.result_id),
                        ] + turn.outputs,
                        ..turn
                    },
                )
            },
        },
    }
}

fn describe_evaluation(evaluation: DebugEvaluation, reference: i64) -> (r: Json)
    ensures
        r.deep_view() == evaluation_body(evaluation.deep_view(), reference as int),
{
    let ghost expected = evaluation_body(evaluation.deep_view(), reference as int);
    let result = match evaluation.error {
        Some(error) => error,
        None => evaluation.value,
    };
    let members = vec![
        pair("result", Json::Str(result)),
        pair("type", Json::Str(evaluation.value_type)),
        pair("variablesReference", signed(reference)),
    ];
    assert(members.deep_view() =~= expected->Object_0);
    object(members)
}

fn describe_variable(variable: &DebugVariable, reference: i64) -> (r: Json)
    ensures
        r.deep_view() == variable_body(variable.deep_view(), reference as int),
{
    let members = vec![
        pair("name", string(variable.name.as_str())),
        pair("type", string(variable.value_type.as_str())),
        pair("value", string(variable.value.as_str())),
        pair("variablesReference", signed(reference)),
    ];
    assert(members.deep_view() =~= variable_body(variable.deep_view(), reference as int)->Object_0);
    object(members)
}

fn path_to(parent: &VariableReference, variable: &DebugVariable) -> (r: Vec<CalculationPathItem>)
    ensures
        r.deep_view() == child_path(parent.deep_view(), variable.deep_view()),
{
    let mut path = parent.path();
    let item = match variable.index {
        Some(index) => CalculationPathItem::Index(index),
        None => match parent {
            VariableReference::Locals { .. } => CalculationPathItem::Expression(
                copy(variable.name.as_str()),
            ),
            VariableReference::Value { .. } => CalculationPathItem::Property(
                copy(variable.name.as_str()),
            ),
        },
    };
    push(&mut path, item);
    path
}

impl Adapter {
    /// Gives out the next `variablesReference`.
    pub fn store_variable_reference(&mut self, reference: VariableReference) -> (r: i64)
        requires
            old(self).next_variable_reference < i64::MAX,
        ensures
            r == next_reference(old(self).deep_view()),
            final(self).deep_view() == stored(old(self).deep_view(), reference.deep_view()),
    {
        let last: i64 = if self.next_variable_reference < FIRST_REFERENCE {
            FIRST_REFERENCE
        } else {
            self.next_variable_reference
        };
        let identifier: i64 = last + 1;
        self.next_variable_reference = identifier;
        self.variable_references.insert(identifier, reference);
        identifier
    }

    /// The `variablesReference` of a value; zero where it has no children.
    pub fn value_reference(
        &mut self,
        thread_id: i64,
        stack_level: i64,
        path: Vec<CalculationPathItem>,
        is_expandable: bool,
        is_indexed_collection: bool,
    ) -> (r: i64)
        requires
            old(self).next_variable_reference < i64::MAX,
        ensures
            (final(self).deep_view(), r as int) == referenced(
                old(self).deep_view(),
                thread_id,
                stack_level,
                path.deep_view(),
                is_expandable,
                is_indexed_collection,
            ),
    {
        let interface = if is_expandable {
            EvaluationInterface::Context
        } else if is_indexed_collection {
            EvaluationInterface::Collection
        } else {
            return 0;
        };
        self.store_variable_reference(
            VariableReference::Value { thread_id, stack_level, path, interface },
        )
    }

    /// Handles `scopes`.
    pub fn scopes(&mut self, request: &Json) -> (r: Turn)
        requires
            adapter::ready(old(self).deep_view()),
        ensures
            (final(self).deep_view(), r.deep_view()) == scoped(
                old(self).deep_view(),
                request.deep_view(),
            ),
    {
        let frame_id = match optional_i64(find_argument(request, "frameId")) {
            Some(frame_id) => frame_id,
            None => {
                return self.refuse(request, "scopes requires frameId");
            },
        };
        match self.frame_address(Some(frame_id)) {
            None => self.refuse(request, "unknown stack frame"),
            Some((thread_id, stack_level)) => {
                let reference = self.store_variable_reference(
                    VariableReference::Locals { thread_id, stack_level },
                );
                self.answer(request, describe_scopes(reference))
            },
        }
    }

    /// Answers an `evaluate` request with a finished evaluation.
    pub fn evaluation_response(
        &mut self,
        request: &Json,
        thread_id: i64,
        stack_level: i64,
        path: Vec<CalculationPathItem>,
        evaluation: DebugEvaluation,
    ) -> (r: Turn)
        requires
            old(self).next_sequence < u64::MAX,
            old(self).next_variable_reference < i64::MAX,
        ensures
            (final(self).deep_view(), r.deep_view()) == evaluated(
                old(self).deep_view(),
                request.deep_view(),
                thread_id,
                stack_level,
                path.deep_view(),
                evaluation.deep_view(),
            ),
    {
        let reference = self.value_reference(
            thread_id,
            stack_level,
            path,
            evaluation.is_expandable,
            evaluation.is_indexed_collection,
        );
        self.answer(request, describe_evaluation(evaluation, reference))
    }

    /// Answers a `variables` request with the children of a value.
    pub fn variables_response(
        &mut self,
        request: &Json,
        parent: &VariableReference,
        variables: &Vec<DebugVariable>,
    ) -> (r: Turn)
        requires
            old(self).next_sequence < u64::MAX,
            has_references(old(self).deep_view(), variables.deep_view().len() as int),
        ensures
            (final(self).deep_view(), r.deep_view()) == variables_shown(
                old(self).deep_view(),
                request.deep_view(),
                parent.deep_view(),
                variables.deep_view(),
            ),
    {
        let ghost first = self.deep_view();
        let ghost all = variables.deep_view();
        let (thread_id, stack_level) = parent.address();
        let mut bodies: Vec<Json> = none();
        let mut i: usize = 0;
        assert(all.take(0).len() == 0);
        while i < variables.len()
            invariant
                i <= variables@.len(),
                all == variables.deep_view(),
                first == old(self).deep_view(),
                first.next_sequence < u64::MAX,
                has_references(first, all.len() as int),
                (thread_id, stack_level) == adapter::address_of(parent.deep_view()),
                (self.deep_view(), bodies.deep_view()) == listed(
                    first,
                    parent.deep_view(),
                    all.take(i as int),
                ),
            decreases variables@.len() - i,
        {
            proof {
                lemma_listed_bound(first, parent.deep_view(), all.take(i as int));
            }
            let variable = &variables[i];
            let reference = self.value_reference(
                thread_id,
                stack_level,
                path_to(parent, variable),
                variable.is_expandable,
                variable.is_indexed_collection,
            );
            push(&mut bodies, describe_variable(variable, reference));
            assert(all.take(i + 1).drop_last() =~= all.take(i as int));
            assert(all.take(i + 1).last() == variable.deep_view());
            i = i + 1;
        }
        proof {
            assert(all.take(i as int) =~= all);
            lemma_listed_bound(first, parent.deep_view(), all);
        }
        let ghost shown = bodies.deep_view();
        let members = vec![pair("variables", array(bodies))];
        assert(members.deep_view() =~= variables_body(shown)->Object_0);
        self.answer(request, object(members))
    }

    /// Answers a request with variables, unless there are no references left for them.
    pub fn answer_variables(
        &mut self,
        request: &Json,
        reference: &VariableReference,
        variables: &Vec<DebugVariable>,
    ) -> (r: Turn)
        requires
            old(self).next_sequence < u64::MAX,
        ensures
            (final(self).deep_view(), r.deep_view()) == variables_answer(
                old(self).deep_view(),
                request.deep_view(),
                reference.deep_view(),
                variables.deep_view(),
            ),
    {
        let next: i128 = if self.next_variable_reference < FIRST_REFERENCE {
            FIRST_REFERENCE as i128 + 1
        } else {
            self.next_variable_reference as i128 + 1
        };
        if next + variables.len() as i128 <= i64::MAX as i128 {
            self.variables_response(request, reference, variables)
        } else {
            self.refuse(request, "no variablesReference is left")
        }
    }

    /// Forgets the references and the waiting requests of a thread.
    pub fn clear_thread_references(&mut self, thread_id: i64)
        ensures
            final(self).deep_view() == forgotten(old(self).deep_view(), thread_id),
    {
        let keep_reference = |reference: &VariableReference| -> (r: bool)
            ensures
                r == (adapter::address_of(reference.deep_view()).0 != thread_id),
            { reference.address().0 != thread_id };
        self.variable_references.retain(
            keep_reference,
            Ghost(refers_elsewhere(thread_id)),
        );
        let keep_pending = |pending: &PendingEvaluation| -> (r: bool)
            ensures
                r == (adapter::pending_thread(pending.deep_view()) != thread_id),
            { pending.thread() != thread_id };
        self.pending_evaluations.retain(
            keep_pending,
            Ghost(waits_elsewhere(thread_id)),
        );
    }

    /// Takes over an evaluation that was deferred.
    pub fn handle_evaluation_event(&mut self, debug_event: DebugUiEvent) -> (r: Turn)
        requires
            adapter::ready(old(self).deep_view()),
        ensures
            (final(self).deep_view(), r.deep_view()) == evaluation_arrived(
                old(self).deep_view(),
                debug_event.deep_view().evaluation,
            ),
    {
        let evaluation = match debug_event.evaluation {
            Some(evaluation) => evaluation,
            None => {
                let output = self.output_event(
                    "stderr",
                    "1C sent exprEvaluated without calculation data\n",
                );
                return speak(output);
            },
        };
        match self.pending_evaluations.remove(&evaluation.result_id) {
            None => {
                proof {
                    ordered::lemma_without_absent(
                        old(self).deep_view().pending_evaluations,
                        evaluation.result_id@,
                    );
                }
                let mut message = copy("1C sent an unsolicited expression result ");
                message.append(evaluation.result_id.as_str());
                message.append("\n");
                let output = self.output_event("console", message.as_str());
                speak(output)
            },
            Some(pending) => {
                let record = trace_result("rdbg.expr.evaluated", evaluation.result_id.as_str());
                let mut turn = match pending {
                    PendingEvaluation::Evaluate { request, thread_id, stack_level, path } => self.evaluation_response(
                        &request,
                        thread_id,
                        stack_level,
                        path,
                        evaluation,
                    ),
                    PendingEvaluation::Variables { request, reference } => self.answer_variables(
                        &request,
                        &reference,
                        &evaluation.variables,
                    ),
                };
                let mut outputs = one(record);
                append(&mut outputs, turn.outputs);
                turn.outputs = outputs;
                turn
            },
        }
    }
}

/// The identifier of a stack frame leads back to its thread and its level.
pub proof fn frame_identifiers_lead_back(call_stacks: Seq<(i64, Seq<DebugStackFrameView>)>, thread_id: i64, level: int)
    requires
        1 <= thread_id,
        thread_id * 1_000_000 + level + 1 <= i64::MAX,
        0 <= level < 999_999,
        ordered::lookup(call_stacks, thread_id) is Some,
        level < ordered::lookup(call_stacks, thread_id)->0.len(),
    ensures
        frame_at(call_stacks, Some(frame_id(thread_id, level) as i64)) == Some(
            (thread_id, level as i64),
        ),
{
    let id = frame_id(thread_id, level);
    assert(id == thread_id * 1_000_000 + level + 1);
    assert(id / 1_000_000 == thread_id && id % 1_000_000 == level + 1);
}

} // verus!
