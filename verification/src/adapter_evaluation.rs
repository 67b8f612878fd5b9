//! Calculations in stopped threads: expressions, local variables, and the children of values.
//!
//! A result comes with the reply to the request that starts a calculation, or later, as an event
//! under the identifier that the request carries.

use crate::adapter;
use crate::adapter::{
    quiet, trace_result, Adapter, AdapterView, Next, NextView, Output, OutputView, PendingEvaluation,
    PendingEvaluationView, Reason, ReasonView, Turn, TurnView, VariableReference,
    VariableReferenceView,
};
use crate::adapter_frames;
use crate::adapter_session;
use crate::adapter_targets;
use crate::adapter_targets::report_unknown_thread;
use crate::debug_server;
use crate::debug_server::{
    evaluation_started, local_variables_started, DebugServer, HttpReply, HttpReplyView,
    HttpRequest, HttpRequestView,
};
use crate::debug_types::{
    CalculationPathItem, CalculationPathItemView, DebugUiSession, DebugUiSessionView,
    DebugVariable, DebugVariableView, EvaluationInterface,
};
use crate::json;
use crate::json::{find_argument, optional_i64, optional_text, Json, JsonView};
use crate::list::{append, one};
use crate::ordered;
use crate::text;
use crate::text::{copy, is_blank};
use vstd::prelude::*;

verus! {

/// A step that starts a calculation.
pub open spec fn calculation_begun(record: Seq<char>, result_id: Seq<char>, command: HttpRequestView, reason: ReasonView) -> TurnView {
    TurnView {
        outputs: seq![adapter::result_record(record, result_id)],
        stop_programs: false,
        next: NextView::Send(command, reason),
    }
}

/// A step, with the record of a reply in front of it.
pub open spec fn recorded(record: OutputView, step: (AdapterView, TurnView)) -> (AdapterView, TurnView) {
    (step.0, TurnView { outputs: seq![record] + step.1.outputs, ..step.1 })
}

/// `evaluate`: an expression is calculated in a stack frame, and its result is delivered under an
/// identifier.
pub open spec fn evaluate_asked(s: AdapterView, request: JsonView, result_id: Seq<char>) -> (AdapterView, TurnView) {
    match json::text_of(json::argument(request, "expression"@)) {
        Some(expression) if text::trim(expression).len() > 0 => match adapter_frames::frame_at(
            s.call_stacks,
            json::signed_of(json::argument(request, "frameId"@)),
        ) {
            None => adapter::refused(
                s,
                request,
                "evaluate requires a stack frame returned by stackTrace"@,
            ),
            Some((thread_id, stack_level)) => match adapter_frames::target_of(
                s.threads,
                thread_id,
            ) {
                None => adapter::refused(s, request, adapter_targets::unknown_thread(thread_id)),
                Some(target_id) => match adapter_session::attachment(s) {
                    None => adapter_session::not_attached(s, request),
                    Some((server, session)) => (
                        s,
                        calculation_begun(
                            "rdbg.evaluate.request"@,
                            result_id,
                            debug_server::evaluation_post(
                                server,
                                session,
                                target_id,
                                stack_level as int,
                                result_id,
                                seq![CalculationPathItemView::Expression(expression)],
                                EvaluationInterface::Context,
                            ),
                            ReasonView::Evaluate {
                                request,
                                thread_id,
                                stack_level,
                                expression,
                                result_id,
                            },
                        ),
                    ),
                },
            },
        },
        _ => adapter::refused(s, request, "evaluate requires a non-empty expression"@),
    }
}

/// A request waits for the result under an identifier.
pub open spec fn deferred(s: AdapterView, result_id: Seq<char>, pending: PendingEvaluationView) -> (AdapterView, TurnView) {
    (
        AdapterView {
            pending_evaluations: ordered::inserted::<String, PendingEvaluationView>(
                s.pending_evaluations,
                result_id,
                pending,
            ),
            ..s
        },
        adapter::asks(NextView::Done),
    )
}

/// The debug server replied to an `evaluate` request: the result is the answer, or the request
/// waits for it.
pub open spec fn evaluate_answered(
    s: AdapterView,
    request: JsonView,
    thread_id: i64,
    stack_level: i64,
    expression: Seq<char>,
    result_id: Seq<char>,
    reply: HttpReplyView,
) -> (AdapterView, TurnView) {
    let path = seq![CalculationPathItemView::Expression(expression)];
    match debug_server::evaluation_answer(reply) {
        Err(message) => adapter::refused(s, request, message),
        Ok(Some(evaluation)) => adapter_frames::evaluated(
            s,
            request,
            thread_id,
            stack_level,
            path,
            evaluation,
        ),
        Ok(None) => deferred(
            s,
            result_id,
            PendingEvaluationView::Evaluate { request, thread_id, stack_level, path },
        ),
    }
}

pub open spec fn evaluate_replied(
    s: AdapterView,
    request: JsonView,
    thread_id: i64,
    stack_level: i64,
    expression: Seq<char>,
    result_id: Seq<char>,
    reply: HttpReplyView,
) -> (AdapterView, TurnView) {
    recorded(
        adapter::result_record("rdbg.evaluate.response"@, result_id),
        evaluate_answered(s, request, thread_id, stack_level, expression, result_id, reply),
    )
}

/// What a `variables` request refers to.
pub open spec fn referred(s: AdapterView, request: JsonView) -> Option<VariableReferenceView> {
    match json::signed_of(json::argument(request, "variablesReference"@)) {
        Some(id) => ordered::lookup(s.variable_references, id),
        None => None,
    }
}

/// The request that calculates what a reference stands for.
pub open spec fn variables_post(
    server: Seq<char>,
    session: DebugUiSessionView,
    target_id: Seq<char>,
    reference: VariableReferenceView,
    result_id: Seq<char>,
) -> Result<HttpRequestView, Seq<char>> {
    match reference {
        VariableReferenceView::Locals { stack_level, .. } => Ok(
            debug_server::local_variables_post(
                server,
                session,
                target_id,
                stack_level as int,
                result_id,
            ),
        ),
        VariableReferenceView::Value { stack_level, path, interface, .. } => if path.len() == 0 {
            Err("calculation path must not be empty"@)
        } else {
            Ok(
                debug_server::evaluation_post(
                    server,
                    session,
                    target_id,
                    stack_level as int,
                    result_id,
                    path,
                    interface,
                ),
            )
        },
    }
}

/// `variables`: what a reference stands for is calculated, and delivered under an identifier.
pub open spec fn variables_asked(s: AdapterView, request: JsonView, result_id: Seq<char>) -> (AdapterView, TurnView) {
    match referred(s, request) {
        None => adapter::refused(
            s,
            request,
            "variablesReference does not identify a current scope or variable"@,
        ),
        Some(reference) => {
            let thread_id = adapter::address_of(reference).0;
            match adapter_frames::target_of(s.threads, thread_id) {
                None => adapter::refused(s, request, adapter_targets::unknown_thread(thread_id)),
                Some(target_id) => match adapter_session::attachment(s) {
                    None => adapter_session::not_attached(s, request),
                    Some((server, session)) => match variables_post(
                        server,
                        session,
                        target_id,
                        reference,
                        result_id,
                    ) {
                        Err(message) => adapter::refused(s, request, message),
                        Ok(command) => (
                            s,
                            calculation_begun(
                                "rdbg.variables.request"@,
                                result_id,
                                command,
                                ReasonView::Variables { request, reference, result_id },
                            ),
                        ),
                    },
                },
            }
        },
    }
}

/// The variables that a reply brings for a reference, or nothing where they are deferred.
pub open spec fn variables_in(reference: VariableReferenceView, reply: HttpReplyView) -> Result<Option<Seq<DebugVariableView>>, Seq<char>> {
    match reference {
        VariableReferenceView::Locals { .. } => debug_server::local_variables_answer(reply),
        VariableReferenceView::Value { .. } => match debug_server::evaluation_answer(reply) {
            Err(message) => Err(message),
            Ok(Some(evaluation)) => Ok(Some(evaluation.variables)),
            Ok(None) => Ok(None),
        },
    }
}

/// The debug server replied to a `variables` request.
pub open spec fn variables_answered(s: AdapterView, request: JsonView, reference: VariableReferenceView, result_id: Seq<char>, reply: HttpReplyView) -> (AdapterView, TurnView) {
    match variables_in(reference, reply) {
        Err(message) => adapter::refused(s, request, message),
        Ok(Some(variables)) => adapter_frames::variables_answer(s, request, reference, variables),
        Ok(None) => deferred(
            s,
            result_id,
            PendingEvaluationView::Variables { request, reference },
        ),
    }
}

pub open spec fn variables_replied(s: AdapterView, request: JsonView, reference: VariableReferenceView, result_id: Seq<char>, reply: HttpReplyView) -> (AdapterView, TurnView) {
    recorded(
        adapter::result_record("rdbg.variables.response"@, result_id),
        variables_answered(s, request, reference, result_id, reply),
    )
}

fn begin_calculation(record: &str, result_id: &str, command: HttpRequest, reason: Reason) -> (r: Turn)
    ensures
        r.deep_view() == calculation_begun(
            record@,
            result_id@,
            command.deep_view(),
            reason.deep_view(),
        ),
{
    Turn {
        outputs: one(trace_result(record, result_id)),
        stop_programs: false,
        next: Next::Send(command, reason),
    }
}

fn record_before(record: Output, turn: Turn) -> (r: Turn)
    ensures
        r.deep_view() == (TurnView {
            outputs: seq![record.deep_view()] + turn.deep_view().outputs,
            ..turn.deep_view()
        }),
{
    let mut outputs = one(record);
    append(&mut outputs, turn.outputs);
    Turn { outputs, stop_programs: turn.stop_programs, next: turn.next }
}

fn request_variables(
    server: &DebugServer,
    session: &DebugUiSession,
    target_id: &str,
    reference: &VariableReference,
    result_id: &str,
) -> (r: Result<HttpRequest, String>)
    ensures
        text::outcome(r) == variables_post(
            server.deep_view(),
            session.deep_view(),
            target_id@,
            reference.deep_view(),
            result_id@,
        ),
{
    match reference {
        VariableReference::Locals { stack_level, .. } => Ok(
            server.evaluate_local_variables(session, target_id, *stack_level, result_id),
        ),
        VariableReference::Value { stack_level, path, interface, .. } => if path.len() == 0 {
            Err(copy("calculation path must not be empty"))
        } else {
            Ok(
                server.evaluate_path(
                    session,
                    target_id,
                    *stack_level,
                    result_id,
                    path,
                    *interface,
                ),
            )
        },
    }
}

fn read_variables(reference: &VariableReference, result_id: &str, reply: &HttpReply) -> (r: Result<
    Option<Vec<DebugVariable>>,
    String,
>)
    ensures
        text::outcome(r) == variables_in(reference.deep_view(), reply.deep_view()),
{
    match reference {
        VariableReference::Locals { .. } => match local_variables_started(copy(result_id), reply) {
            Ok(started) => Ok(started.result),
            Err(message) => Err(message),
        },
        VariableReference::Value { .. } => match evaluation_started(copy(result_id), reply) {
            Ok(started) => match started.result {
                Some(evaluation) => Ok(Some(evaluation.variables)),
                None => Ok(None),
            },
            Err(message) => Err(message),
        },
    }
}

impl Adapter {
    /// Starts the calculation of an expression, whose result is delivered under an identifier.
    pub fn evaluate(&mut self, request: &Json, result_id: &str) -> (r: Turn)
        requires
            adapter::ready(old(self).deep_view()),
        ensures
            (final(self).deep_view(), r.deep_view()) == evaluate_asked(
                old(self).deep_view(),
                request.deep_view(),
                result_id@,
            ),
    {
        let expression = match optional_text(find_argument(request, "expression")) {
            Some(expression) => expression,
            None => {
                return self.refuse(request, "evaluate requires a non-empty expression");
            },
        };
        if is_blank(expression) {
            return self.refuse(request, "evaluate requires a non-empty expression");
        }
        let frame_id = optional_i64(find_argument(request, "frameId"));
        let (thread_id, stack_level): (i64, i64) = match self.frame_address(frame_id) {
            Some(address) => address,
            None => {
                return self.refuse(
                    request,
                    "evaluate requires a stack frame returned by stackTrace",
                );
            },
        };
        let target_id = match self.target_id(thread_id) {
            Some(target_id) => copy(target_id),
            None => {
                return self.refuse(request, report_unknown_thread(thread_id).as_str());
            },
        };
        let path = one(CalculationPathItem::Expression(copy(expression)));
        let command = match self.attached() {
            Some((server, session)) => server.evaluate_path(
                session,
                target_id.as_str(),
                stack_level,
                result_id,
                &path,
                EvaluationInterface::Context,
            ),
            None => {
                return self.refuse_unattached(request);
            },
        };
        let reason = Reason::Evaluate {
            request: request.duplicate(),
            thread_id,
            stack_level,
            expression: copy(expression),
            result_id: copy(result_id),
        };
        begin_calculation("rdbg.evaluate.request", result_id, command, reason)
    }

    fn defer(&mut self, result_id: String, pending: PendingEvaluation) -> (r: Turn)
        ensures
            (final(self).deep_view(), r.deep_view()) == deferred(
                old(self).deep_view(),
                result_id@,
                pending.deep_view(),
            ),
    {
        self.pending_evaluations.insert(result_id, pending);
        quiet(Next::Done)
    }

    /// Goes on after the reply to the calculation of an expression.
    pub fn expression_evaluated(
        &mut self,
        request: &Json,
        thread_id: i64,
        stack_level: i64,
        expression: String,
        result_id: String,
        reply: &HttpReply,
    ) -> (r: Turn)
        requires
            adapter::ready(old(self).deep_view()),
        ensures
            (final(self).deep_view(), r.deep_view()) == evaluate_replied(
                old(self).deep_view(),
                request.deep_view(),
                thread_id,
                stack_level,
                expression@,
                result_id@,
                reply.deep_view(),
            ),
    {
        let record = trace_result("rdbg.evaluate.response", result_id.as_str());
        let path = one(CalculationPathItem::Expression(expression));
        let turn = match evaluation_started(result_id, reply) {
            Err(message) => self.refuse(request, message.as_str()),
            Ok(started) => match started.result {
                Some(evaluation) => self.evaluation_response(
                    request,
                    thread_id,
                    stack_level,
                    path,
                    evaluation,
                ),
                None => self.defer(
                    started.result_id,
                    PendingEvaluation::Evaluate {
                        request: request.duplicate(),
                        thread_id,
                        stack_level,
                        path,
                    },
                ),
            },
        };
        record_before(record, turn)
    }

    /// Starts the calculation of what a reference stands for, which is delivered under an
    /// identifier.
    pub fn variables(&mut self, request: &Json, result_id: &str) -> (r: Turn)
        requires
            adapter::ready(old(self).deep_view()),
        ensures
            (final(self).deep_view(), r.deep_view()) == variables_asked(
                old(self).deep_view(),
                request.deep_view(),
                result_id@,
            ),
    {
        let found = match optional_i64(find_argument(request, "variablesReference")) {
            Some(id) => self.variable_references.get(&id),
            None => None,
        };
        let reference = match found {
            Some(reference) => reference.duplicate(),
            None => {
                return self.refuse(
                    request,
                    "variablesReference does not identify a current scope or variable",
                );
            },
        };
        let thread_id: i64 = reference.address().0;
        let target_id = match self.target_id(thread_id) {
            Some(target_id) => copy(target_id),
            None => {
                return self.refuse(request, report_unknown_thread(thread_id).as_str());
            },
        };
        let outcome = match self.attached() {
            Some((server, session)) => request_variables(
                server,
                session,
                target_id.as_str(),
                &reference,
                result_id,
            ),
            None => {
                return self.refuse_unattached(request);
            },
        };
        match outcome {
            Ok(command) => {
                let reason = Reason::Variables {
                    request: request.duplicate(),
                    reference,
                    result_id: copy(result_id),
                };
                begin_calculation("rdbg.variables.request", result_id, command, reason)
            },
            Err(message) => self.refuse(request, message.as_str()),
        }
    }

    /// Goes on after the reply to the calculation of what a reference stands for.
    pub fn variables_evaluated(&mut self, request: &Json, reference: VariableReference, result_id: String, reply: &HttpReply) -> (r: Turn)
        requires
            adapter::ready(old(self).deep_view()),
        ensures
            (final(self).deep_view(), r.deep_view()) == variables_replied(
                old(self).deep_view(),
                request.deep_view(),
                reference.deep_view(),
                result_id@,
                reply.deep_view(),
            ),
    {
        let record = trace_result("rdbg.variables.response", result_id.as_str());
        let turn = match read_variables(&reference, result_id.as_str(), reply) {
            Err(message) => self.refuse(request, message.as_str()),
            Ok(Some(variables)) => self.answer_variables(request, &reference, &variables),
            Ok(None) => self.defer(
                result_id,
                PendingEvaluation::Variables { request: request.duplicate(), reference },
            ),
        };
        record_before(record, turn)
    }
}

} // verus!
