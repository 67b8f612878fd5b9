//! How a session with a debug server begins, is kept going, and ends.

use crate::adapter;
use crate::adapter::{
    AdapterView, AttachingView, ConnectingView, EndingView, LocatedView, NextView,
    PendingDebuggeeView, ReasonView, TurnView,
};
use crate::adapter_connect;
use crate::adapter_polls;
use crate::adapter_polls::ProgramReportView;
use crate::adapter_requests;
use crate::adapter_session;
use crate::answer_laws;
use crate::debug_replies;
use crate::debug_requests;
use crate::debug_server;
use crate::debug_server::{HttpReplyView, PingOutcomeView};
use crate::debug_types::{DebugUiEventView, DebugUiSessionView};
use crate::event_laws;
use crate::info_base;
use crate::info_base::{ConnectionArgumentsView, InfoBaseTargetView};
use crate::json::JsonView;
use crate::metadata;
use crate::metadata::{ModuleRegistryView, SourcesView};
use crate::number;
use crate::platform;
use crate::platform::PlatformListingView;
use crate::reading;
use crate::request_laws;
use crate::target_laws;
use crate::text;
use vstd::prelude::*;

verus! {

/// `launch` and `attach` read their arguments, unless there is a session already.
pub proof fn connections_begin_with_their_arguments(s: AdapterView, request: JsonView, id: Seq<char>)
    ensures
        ({
            let step = adapter_requests::handled(s, request, id);
            &&& request_laws::commands(request, "launch"@) && s.debug_session is None ==> step.0
                == s && step.1.outputs.len() == 0 && step.1.next == NextView::ReadArguments(
                request,
                true,
            )
            &&& request_laws::commands(request, "attach"@) && s.debug_session is None ==> step.0
                == s && step.1.outputs.len() == 0 && step.1.next == NextView::ReadArguments(
                request,
                false,
            )
            &&& (request_laws::commands(request, "launch"@) || request_laws::commands(
                request,
                "attach"@,
            )) && s.debug_session is Some ==> answer_laws::refuses(
                step,
                request,
                "a 1C debug server is already attached"@,
            )
        }),
{
    request_laws::lemma_commands();
    answer_laws::lemma_answers(s, request, JsonView::Null, "a 1C debug server is already attached"@);
}

/// Arguments that cannot be read are refused. The sources are read where a project is given; then
/// the infobase is looked for: by its name, or by its alias where it has no name.
pub proof fn arguments_lead_to_the_sources_and_the_infobase(s: AdapterView, request: JsonView, launch: bool, arguments: ConnectionArgumentsView, sources: SourcesView)
    ensures
        answer_laws::refuses(
            adapter_connect::with_arguments(s, request, launch, None),
            request,
            "launch/attach requires debugServerHost and debugServerPort"@,
        ),
        ({
            let connecting = ConnectingView { request, launch, arguments };
            let step = adapter_connect::with_arguments(s, request, launch, Some(arguments));
            &&& arguments.root_project is Some ==> step.0 == s && step.1.next
                == NextView::ReadSources(connecting)
            &&& arguments.root_project is None ==> looks_for_info_base(s, step, connecting, None)
        }),
        ({
            let connecting = ConnectingView { request, launch, arguments };
            let step = adapter_connect::with_sources(s, connecting, sources);
            &&& metadata::loaded(sources) is Ok ==> looks_for_info_base(
                s,
                step,
                connecting,
                Some(metadata::loaded(sources)->Ok_0),
            )
            &&& metadata::loaded(sources) is Err ==> answer_laws::refuses(
                step,
                request,
                metadata::loaded(sources)->Err_0,
            )
        }),
{
    answer_laws::lemma_answers(
        s,
        request,
        JsonView::Null,
        "launch/attach requires debugServerHost and debugServerPort"@,
    );
    answer_laws::lemma_answers(
        s,
        request,
        JsonView::Null,
        "launch/attach requires infoBase or infoBaseAlias"@,
    );
    if metadata::loaded(sources) is Err {
        answer_laws::lemma_answers(s, request, JsonView::Null, metadata::loaded(sources)->Err_0);
    }
}

/// The infobase of a connection is looked for.
pub open spec fn looks_for_info_base(s: AdapterView, step: (AdapterView, TurnView), connecting: ConnectingView, registry: Option<ModuleRegistryView>) -> bool {
    let arguments = connecting.arguments;
    if arguments.info_base is Some {
        step.0 == s && step.1.next == NextView::InspectInfoBase(
            connecting,
            registry,
            info_base::file_candidate(arguments.info_base->0),
        )
    } else if arguments.info_base_alias is Some {
        step.0 == s && step.1.next == NextView::InspectInfoBase(
            connecting,
            registry,
            info_base::file_candidate(arguments.info_base_alias->0),
        )
    } else {
        answer_laws::refuses(
            step,
            connecting.request,
            "launch/attach requires infoBase or infoBaseAlias"@,
        )
    }
}

/// Of an infobase that is not launched from files, or that is only attached to, the debug server is
/// tested under the host and the port of the arguments. Before a file infobase is launched, the
/// platform is looked for.
pub proof fn file_infobases_need_the_platform(s: AdapterView, connecting: ConnectingView, registry: Option<ModuleRegistryView>, is_directory: bool, lists: Seq<Seq<char>>, info_base: InfoBaseTargetView)
    requires
        info_base::target_of(connecting.arguments, is_directory, lists) == Ok::<
            InfoBaseTargetView,
            Seq<char>,
        >(info_base),
    ensures
        ({
            let step = adapter_connect::with_info_base(
                s,
                connecting,
                registry,
                is_directory,
                lists,
            );
            let located = LocatedView { connecting, registry, info_base };
            let path = connecting.arguments.platform_path;
            &&& connecting.launch && info_base.is_file && path is Some ==> step.0 == s
                && step.1.next == NextView::ListPlatform(located, path->0)
            &&& connecting.launch && info_base.is_file && path is None ==> answer_laws::refuses(
                step,
                connecting.request,
                "launch requires platformPath for a file infobase"@,
            )
            &&& !(connecting.launch && info_base.is_file) ==> step
                == adapter_connect::attachment_begun(
                s,
                located,
                connecting.arguments.debug_server_port,
                false,
            )
        }),
{
    answer_laws::lemma_answers(
        s,
        connecting.request,
        JsonView::Null,
        "launch requires platformPath for a file infobase"@,
    );
}

/// The debug server is tested at its address, which is made of the host and the port.
pub proof fn debug_servers_are_tested_at_their_address(s: AdapterView, located: LocatedView, port: u16, spawned: bool)
    ensures
        ({
            let step = adapter_connect::attachment_begun(s, located, port, spawned);
            let host = located.connecting.arguments.debug_server_host;
            let server = "http://"@ + host + ":"@ + number::decimal(port as int) + "/e1crdbg"@;
            let request = located.connecting.request;
            &&& text::trim(host).len() > 0 && text::trim(located.info_base.alias).len() > 0 ==> {
                &&& step.0 == s
                &&& step.1.outputs.len() == 0
                &&& step.1.next is Send
                &&& step.1.next->Send_0.url == server + "/rdbgTest?cmd=test"@
                &&& step.1.next->Send_0.body is None
                &&& step.1.next->Send_1 == ReasonView::Test(
                    AttachingView { located, server, spawned },
                )
            }
            &&& text::trim(host).len() == 0 ==> answer_laws::refuses(
                step,
                request,
                "debugServerHost must not be empty"@,
            ) && !step.1.stop_programs
            &&& text::trim(host).len() > 0 && text::trim(located.info_base.alias).len() == 0
                ==> answer_laws::refuses(step, request, "infoBaseAlias must not be empty"@)
                && step.1.stop_programs == spawned
        }),
{
    let request = located.connecting.request;
    answer_laws::lemma_answers(s, request, JsonView::Null, "debugServerHost must not be empty"@);
    answer_laws::lemma_answers(s, request, JsonView::Null, "infoBaseAlias must not be empty"@);
}

/// A debug server that answers the test with success gets a new session for the alias of the
/// infobase; one that does not is told of, and is stopped if it was started for this.
pub proof fn tested_servers_get_a_session(s: AdapterView, attaching: AttachingView, reply: HttpReplyView, id: Seq<char>)
    ensures
        ({
            let step = adapter_requests::replied_to(s, ReasonView::Test(attaching), reply, id);
            let session = DebugUiSessionView {
                id,
                info_base_alias: attaching.located.info_base.alias,
            };
            let request = attaching.located.connecting.request;
            &&& reply is Answered && 200 <= reply->Answered_0 < 300 ==> {
                &&& step.0 == s
                &&& request_laws::sends(step.1, attaching.server, "attachDebugUI"@)
                &&& request_laws::sends_text(step.1, request_laws::session_text(session))
                &&& request_laws::sends_text(
                    step.1,
                    "<userName></userName><credentials></credentials><options><foregroundAbility>true</foregroundAbility></options>"@,
                )
                &&& step.1.next->Send_1 == ReasonView::Register(attaching, session)
            }
            &&& reply is Answered && !(200 <= reply->Answered_0 < 300) ==> answer_laws::refuses(
                step,
                request,
                "1C debug server returned HTTP "@ + reply->Answered_1,
            ) && step.1.stop_programs == attaching.spawned
            &&& reply is Failed || reply is TimedOut ==> answer_laws::refuses(
                step,
                request,
                "cannot reach 1C debug server at "@ + attaching.server,
            ) && step.1.stop_programs == attaching.spawned
        }),
{
    let step = adapter_requests::replied_to(s, ReasonView::Test(attaching), reply, id);
    let session = DebugUiSessionView { id, info_base_alias: attaching.located.info_base.alias };
    let request = attaching.located.connecting.request;
    if reply is Answered && 200 <= reply->Answered_0 < 300 {
        request_laws::lemma_post(
            attaching.server,
            "attachDebugUI"@,
            session,
            debug_requests::attach_content(),
            step.1,
        );
    }
    answer_laws::lemma_answers(
        s,
        request,
        JsonView::Null,
        "cannot reach 1C debug server at "@ + attaching.server,
    );
    if reply is Answered {
        answer_laws::lemma_answers(
            s,
            request,
            JsonView::Null,
            "1C debug server returned HTTP "@ + reply->Answered_1,
        );
    }
}

/// A session that is registered is told which kinds of targets are attached by themselves; one that
/// is not is refused with the reason.
pub proof fn registered_sessions_are_configured(s: AdapterView, attaching: AttachingView, session: DebugUiSessionView, reply: HttpReplyView, id: Seq<char>, kinds: Seq<Seq<char>>)
    requires
        match attaching.located.connecting.arguments.auto_attach_types {
            Some(types) => kinds == types,
            None => kinds.len() == 0,
        },
    ensures
        ({
            let step = adapter_requests::replied_to(
                s,
                ReasonView::Register(attaching, session),
                reply,
                id,
            );
            let request = attaching.located.connecting.request;
            &&& debug_server::attach_reply(reply) is Err ==> answer_laws::refuses(
                step,
                request,
                debug_server::attach_reply(reply)->Err_0,
            ) && step.1.stop_programs == attaching.spawned
            &&& debug_server::attach_reply(reply) is Ok && (forall|i: int|
                0 <= i < kinds.len() ==> debug_requests::target_type_value(#[trigger] kinds[i])
                    is Some) ==> {
                &&& step.0 == s
                &&& request_laws::sends(step.1, attaching.server, "setAutoAttachSettings"@)
                &&& request_laws::sends_text(step.1, request_laws::session_text(session))
                &&& forall|i: int|
                    0 <= i < kinds.len() ==> request_laws::sends_text(
                        step.1,
                        target_laws::kind_text(
                            debug_requests::target_type_value(#[trigger] kinds[i])->0,
                        ),
                    )
                &&& step.1.next->Send_1 == ReasonView::Configure(attaching, session)
            }
            &&& debug_server::attach_reply(reply) is Ok && !(forall|i: int|
                0 <= i < kinds.len() ==> debug_requests::target_type_value(#[trigger] kinds[i])
                    is Some) ==> gives_up(s, step, attaching, session)
        }),
{
    let step = adapter_requests::replied_to(
        s,
        ReasonView::Register(attaching, session),
        reply,
        id,
    );
    let request = attaching.located.connecting.request;
    assert(kinds =~= adapter_connect::wanted_types(attaching.located.connecting.arguments));
    target_laws::lemma_first_unsupported(kinds);
    match debug_server::attach_reply(reply) {
        Err(message) => {
            answer_laws::lemma_answers(s, request, JsonView::Null, message);
        },
        Ok(_) => {
            match debug_server::first_unsupported(kinds) {
                None => {
                    let content = debug_requests::auto_attach_content(kinds);
                    request_laws::lemma_post(
                        attaching.server,
                        "setAutoAttachSettings"@,
                        session,
                        content,
                        step.1,
                    );
                    target_laws::lemma_kinds_sent(step.1, kinds, content);
                },
                Some(_) => {
                    request_laws::lemma_post(
                        attaching.server,
                        "detachDebugUI"@,
                        session,
                        Seq::empty(),
                        step.1,
                    );
                },
            }
        },
    }
}

/// A session that cannot be configured is detached again.
pub open spec fn gives_up(s: AdapterView, step: (AdapterView, TurnView), attaching: AttachingView, session: DebugUiSessionView) -> bool {
    &&& step.0 == s
    &&& request_laws::sends(step.1, attaching.server, "detachDebugUI"@)
    &&& request_laws::sends_text(step.1, request_laws::session_text(session))
    &&& step.1.next->Send_1 is GiveUp
    &&& step.1.next->Send_1->GiveUp_0 == attaching
}

/// A session that is configured begins: the request is answered, the client is told that the
/// adapter is initialized, and the server, the session and the modules are kept. A client waits to
/// be started only where the infobase is launched.
pub proof fn configured_sessions_begin(s: AdapterView, attaching: AttachingView, session: DebugUiSessionView, reply: HttpReplyView, id: Seq<char>)
    ensures
        ({
            let step = adapter_requests::replied_to(
                s,
                ReasonView::Configure(attaching, session),
                reply,
                id,
            );
            let located = attaching.located;
            &&& reply is Answered ==> {
                &&& step.0.debug_server == Some(attaching.server)
                &&& step.0.debug_session == Some(session)
                &&& step.0.module_registry == located.registry
                &&& step.0.module_breakpoints.len() == 0
                &&& step.0.active_poll is None
                &&& !step.0.poll_failed
                &&& located.connecting.launch ==> step.0.pending_debuggee == Some(
                    PendingDebuggeeView {
                        arguments: located.connecting.arguments,
                        info_base: located.info_base,
                    },
                )
                &&& !located.connecting.launch ==> step.0.pending_debuggee is None
                &&& step.0.threads == s.threads
                &&& step.1.outputs.len() == 2
                &&& step.1.outputs[0] is Message
                &&& answer_laws::is_success(
                    step.1.outputs[0]->Message_0,
                    located.connecting.request,
                    JsonView::Object(Seq::empty()),
                )
                &&& event_laws::is_named(step.1.outputs[1], "initialized"@)
                &&& step.1.next is Done
                &&& !step.1.stop_programs
            }
            &&& reply is Failed || reply is TimedOut ==> gives_up(s, step, attaching, session)
                && step.1.next->Send_1->GiveUp_1 == "1C debug server request `"@
                + "setAutoAttachSettings"@ + "` failed"@
        }),
{
    let step = adapter_requests::replied_to(
        s,
        ReasonView::Configure(attaching, session),
        reply,
        id,
    );
    answer_laws::lemma_answers(
        s,
        attaching.located.connecting.request,
        adapter::no_body(),
        Seq::empty(),
    );
    event_laws::lemma_event(adapter::counted(s, 1), "initialized"@, adapter::no_body());
    if reply is Failed || reply is TimedOut {
        request_laws::lemma_post(
            attaching.server,
            "detachDebugUI"@,
            session,
            Seq::empty(),
            step.1,
        );
    }
}

/// Once a session is given up the request is refused with the reason, however the debug server
/// replied; a debug server that was started for it is stopped.
pub proof fn given_up_sessions_are_refused(s: AdapterView, attaching: AttachingView, message: Seq<char>, reply: HttpReplyView, id: Seq<char>)
    ensures
        ({
            let step = adapter_requests::replied_to(
                s,
                ReasonView::GiveUp(attaching, message),
                reply,
                id,
            );
            &&& answer_laws::refuses(step, attaching.located.connecting.request, message)
            &&& step.1.stop_programs == attaching.spawned
            &&& step.0 == adapter::counted(s, 1)
        }),
{
    answer_laws::lemma_answers(
        s,
        attaching.located.connecting.request,
        JsonView::Null,
        message,
    );
}

/// The programs of the platform lie in the given directory where the client is there, else in the
/// wanted version below it, and on Windows in the directory `bin` of that.
pub proof fn programs_lie_in_the_version_directory(path: Seq<char>, listing: PlatformListingView, requested: Option<Seq<char>>, windows: bool, separator: char, names: Seq<Seq<char>>, name: Seq<char>)
    ensures
        listing.has_client ==> platform::programs(path, listing, requested, windows, separator)
            == Ok::<Seq<char>, Seq<char>>(path),
        !listing.has_client && listing.directories == Some(names) && platform::version_directory(
            names,
            requested,
        ) == Ok::<Seq<char>, Seq<char>>(name) ==> platform::programs(
            path,
            listing,
            requested,
            windows,
            separator,
        ) == Ok::<Seq<char>, Seq<char>>(
            if windows {
                metadata::joined_path(
                    metadata::joined_path(path, separator, name),
                    separator,
                    "bin"@,
                )
            } else {
                metadata::joined_path(path, separator, name)
            },
        ),
        !listing.has_client && listing.directories is None ==> platform::programs(
            path,
            listing,
            requested,
            windows,
            separator,
        ) == Err::<Seq<char>, Seq<char>>("cannot read platformPath "@ + path),
{
}

/// A version that is asked for is taken where it is there; `latest`, in any case, and none ask for
/// the newest.
pub proof fn wanted_versions_are_taken(names: Seq<Seq<char>>, wanted: Seq<char>, i: int)
    ensures
        !text::same_ignoring_case(wanted, "latest"@) && 0 <= i < names.len() && names[i] == wanted
            && platform::version(wanted) is Some ==> platform::version_directory(
            names,
            Some(wanted),
        ) == Ok::<Seq<char>, Seq<char>>(wanted),
        !text::same_ignoring_case(wanted, "latest"@) && !names.contains(wanted)
            ==> platform::version_directory(names, Some(wanted)) == Err::<Seq<char>, Seq<char>>(
            "1C platform version "@ + wanted + " was not found"@,
        ),
        text::same_ignoring_case(wanted, "latest"@) ==> platform::version_directory(
            names,
            Some(wanted),
        ) == platform::version_directory(names, None),
        platform::latest(names) is Some ==> platform::version_directory(names, None) == Ok::<
            Seq<char>,
            Seq<char>,
        >(platform::latest(names)->0),
        platform::latest(names) is None ==> platform::version_directory(names, None) == Err::<
            Seq<char>,
            Seq<char>,
        >("platformPath contains no 1C version directories"@),
{
}

/// The debug server is the program `dbgs`, and the client is `1cv8c`, with `.exe` on Windows.
pub proof fn programs_have_their_names(directory: Seq<char>, name: Seq<char>, separator: char)
    ensures
        platform::program_path(directory, name, true, separator) == metadata::joined_path(
            directory,
            separator,
            name + ".exe"@,
        ),
        platform::program_path(directory, name, false, separator) == metadata::joined_path(
            directory,
            separator,
            name,
        ),
{
}

/// Before a file infobase is launched, the debug server of the platform is looked for, and started
/// for the host of the arguments; then it is tested at the port that it tells.
pub proof fn debug_servers_are_started(s: AdapterView, located: LocatedView, path: Seq<char>, listing: PlatformListingView, directory: Seq<char>, port: u16, message: Seq<char>)
    ensures
        platform::programs(
            path,
            listing,
            located.connecting.arguments.platform_version,
            s.host.windows,
            s.host.separator,
        ) == Ok::<Seq<char>, Seq<char>>(directory) ==> {
            let step = adapter_connect::with_platform(s, located, path, listing);
            step.0 == s && step.1.next == NextView::CheckDebugServer(
                located,
                metadata::joined_path(
                    directory,
                    s.host.separator,
                    if s.host.windows {
                        "dbgs"@ + ".exe"@
                    } else {
                        "dbgs"@
                    },
                ),
            )
        },
        ({
            let step = adapter_connect::with_debug_server(s, located, path, true);
            step.0 == s && step.1.next == NextView::StartDebugServer(
                located,
                path,
                located.connecting.arguments.debug_server_host,
            )
        }),
        answer_laws::refuses(
            adapter_connect::with_debug_server(s, located, path, false),
            located.connecting.request,
            "1C debug server executable was not found at "@ + path,
        ),
        adapter_connect::with_port(s, located, Ok(port)) == adapter_connect::attachment_begun(
            s,
            located,
            port,
            true,
        ),
        ({
            let step = adapter_connect::with_port(s, located, Err(message));
            answer_laws::refuses(step, located.connecting.request, message)
                && step.1.stop_programs
        }),
{
    answer_laws::lemma_answers(
        s,
        located.connecting.request,
        JsonView::Null,
        "1C debug server executable was not found at "@ + path,
    );
    answer_laws::lemma_answers(s, located.connecting.request, JsonView::Null, message);
}

/// The debug server is started for a host, in a fixed range of ports, with its owner and the file
/// that it tells its port in.
pub proof fn debug_servers_get_their_arguments(host: Seq<char>, owner: u32, notify: Seq<char>)
    ensures
        ({
            let arguments = platform::server_arguments(host, owner, notify);
            &&& arguments.len() == 4
            &&& arguments[0] == "--addr="@ + host
            &&& arguments[1] == "--portRange=1550:1559"@
            &&& arguments[2] == "--ownerPID="@ + number::decimal(owner as int)
            &&& arguments[3] == "--notify="@ + notify
        }),
{
}

/// The client is started for a file infobase by its path, and for any other by its name, always
/// with the switches of debugging and the address of the debug server.
pub proof fn clients_get_their_switches(arguments: ConnectionArgumentsView, target: InfoBaseTargetView, address: Seq<char>)
    ensures
        ({
            let endpoint = address + "/e1crdbg"@;
            let switches = platform::client_switches(arguments, target, endpoint);
            &&& target.direct_file_path is Some ==> switches is Ok && switches->Ok_0[1] == "/F"@
                && switches->Ok_0[2] == target.direct_file_path->0 && debugs(
                switches->Ok_0,
                address,
            )
            &&& target.direct_file_path is None && arguments.info_base is Some ==> switches is Ok
                && switches->Ok_0[1] == "/IBName"@ && switches->Ok_0[2] == arguments.info_base->0
                && debugs(switches->Ok_0, address)
            &&& target.direct_file_path is None && arguments.info_base is None ==> switches
                == Err::<Seq<Seq<char>>, Seq<char>>("launch requires infoBase"@)
        }),
{
    let endpoint = address + "/e1crdbg"@;
    let suffix = "/e1crdbg"@;
    assert(endpoint.skip(endpoint.len() - suffix.len()) =~= suffix);
    assert(endpoint.take(endpoint.len() - suffix.len()) =~= address);
}

/// The switches of debugging, behind the infobase.
pub open spec fn debugs(switches: Seq<Seq<char>>, address: Seq<char>) -> bool {
    &&& switches.len() == 15
    &&& switches[0] == "ENTERPRISE"@
    &&& switches[3] == "/TCOMP"@
    &&& switches[4] == "-SDC"@
    &&& switches[5] == "/DisableStartupMessages"@
    &&& switches[6] == "/DisplayPerformance"@
    &&& switches[7] == "/TechnicalSpecialistMode"@
    &&& switches[8] == "/DEBUG"@
    &&& switches[9] == "-http"@
    &&& switches[10] == "-attach"@
    &&& switches[11] == "/DEBUGGERURL"@
    &&& switches[12] == address
    &&& switches[13] == "/O"@
    &&& switches[14] == "Normal"@
}

/// `configurationDone` starts the client that waits, step by step: the platform of the arguments is
/// listed, the client is looked for, and started with its switches. Where none waits, or once it is
/// started, the request is answered.
pub proof fn waiting_clients_are_started(s: AdapterView, request: JsonView, id: Seq<char>, pending: PendingDebuggeeView, server: Seq<char>, path: Seq<char>, listing: PlatformListingView, directory: Seq<char>, switches: Seq<Seq<char>>)
    requires
        request_laws::commands(request, "configurationDone"@),
        s.pending_debuggee == Some(pending),
        s.debug_server == Some(server),
    ensures
        adapter_requests::handled(s, request, id).0 == s,
        adapter_requests::handled(s, request, id).1.next == NextView::LaunchClient(request),
        pending.arguments.platform_path is Some ==> adapter_connect::client_launched(
            s,
            request,
        ).1.next == NextView::ListClientPlatform(request, pending.arguments.platform_path->0),
        pending.arguments.platform_path is None ==> answer_laws::refuses(
            adapter_connect::client_launched(s, request),
            request,
            "launch requires platformPath"@,
        ),
        platform::programs(
            path,
            listing,
            pending.arguments.platform_version,
            s.host.windows,
            s.host.separator,
        ) == Ok::<Seq<char>, Seq<char>>(directory) ==> adapter_connect::with_client_platform(
            s,
            request,
            path,
            listing,
        ).1.next == NextView::CheckClient(
            request,
            metadata::joined_path(
                directory,
                s.host.separator,
                if s.host.windows {
                    "1cv8c"@ + ".exe"@
                } else {
                    "1cv8c"@
                },
            ),
        ),
        platform::client_switches(pending.arguments, pending.info_base, server) == Ok::<
            Seq<Seq<char>>,
            Seq<char>,
        >(switches) ==> adapter_connect::with_client(s, request, path, true).1.next
            == NextView::StartClient(request, path, switches),
        answer_laws::refuses(
            adapter_connect::with_client(s, request, path, false),
            request,
            "1C client executable was not found at "@ + path,
        ),
        answer_laws::answers(
            adapter_connect::client_start_done(s, request, path, true),
            request,
            JsonView::Object(Seq::empty()),
        ),
        adapter_connect::client_start_done(s, request, path, true).0.pending_debuggee is None,
        answer_laws::refuses(
            adapter_connect::client_start_done(s, request, path, false),
            request,
            "cannot start 1C client "@ + path,
        ),
        adapter_connect::client_start_done(s, request, path, false).0.pending_debuggee == Some(
            pending,
        ),
{
    request_laws::lemma_commands();
    answer_laws::lemma_answers(s, request, JsonView::Null, "launch requires platformPath"@);
    answer_laws::lemma_answers(
        s,
        request,
        JsonView::Null,
        "1C client executable was not found at "@ + path,
    );
    answer_laws::lemma_answers(s, request, JsonView::Null, "cannot start 1C client "@ + path);
    answer_laws::lemma_answers(
        AdapterView { pending_debuggee: None, ..s },
        request,
        adapter::no_body(),
        Seq::empty(),
    );
}

/// Where no client waits, `configurationDone` is answered at once, and so is each of its steps.
pub proof fn nothing_is_started_where_no_client_waits(s: AdapterView, request: JsonView, id: Seq<char>, path: Seq<char>, listing: PlatformListingView)
    requires
        request_laws::commands(request, "configurationDone"@),
        s.pending_debuggee is None,
    ensures
        answer_laws::answers(
            adapter_requests::handled(s, request, id),
            request,
            JsonView::Object(Seq::empty()),
        ),
        answer_laws::answers(
            adapter_connect::client_launched(s, request),
            request,
            JsonView::Object(Seq::empty()),
        ),
        answer_laws::answers(
            adapter_connect::with_client_platform(s, request, path, listing),
            request,
            JsonView::Object(Seq::empty()),
        ),
        answer_laws::answers(
            adapter_connect::with_client(s, request, path, true),
            request,
            JsonView::Object(Seq::empty()),
        ),
{
    request_laws::lemma_commands();
    answer_laws::lemma_answers(s, request, adapter::no_body(), Seq::empty());
}

/// While a session is kept, a poll without a time limit is begun whenever none is under way; a
/// program of the session that exited ends the session instead.
pub proof fn sessions_are_polled(s: AdapterView, report: ProgramReportView)
    requires
        request_laws::is_attached(s),
        0 <= s.next_poll < u64::MAX,
    ensures
        ({
            let step = adapter_polls::polled(s, report);
            &&& report.server_exit is Some ==> target_laws::sends_plain(s, step, "detachDebugUI"@)
                && step.1.next->Send_1 == ReasonView::Detach(
                EndingView::ServerExit(report.server_exit->0),
            )
            &&& report.server_exit is None && report.client_exited && report.client_code is Some
                ==> target_laws::sends_plain(s, step, "detachDebugUI"@) && step.1.next->Send_1
                == ReasonView::Detach(EndingView::ClientExit(report.client_code->0))
            &&& report.server_exit is None && report.client_exited && report.client_code is None
                ==> target_laws::sends_plain(s, step, "detachDebugUI"@) && step.1.next->Send_1
                == ReasonView::Detach(EndingView::ClientExit((-1int) as i32))
            &&& report.server_exit is None && !report.client_exited && s.active_poll is None
                ==> target_laws::begins_poll(s, step, None)
            &&& report.server_exit is None && !report.client_exited && s.active_poll is Some
                ==> step.0 == s && step.1.outputs.len() == 0 && step.1.next is Done
        }),
{
    let step = adapter_polls::polled(s, report);
    if report.server_exit is Some || report.client_exited {
        request_laws::lemma_post(
            s.debug_server->0,
            "detachDebugUI"@,
            s.debug_session->0,
            Seq::empty(),
            step.1,
        );
    }
}

/// What a poll brings counts for its own session only: its events are handled, and the poll is no
/// longer under way. A poll that failed is told of once, until one succeeds; one that ran out of
/// time is not told of.
pub proof fn polls_bring_events(s: AdapterView, poll: u64, session: DebugUiSessionView, outcome: Result<PingOutcomeView, Seq<char>>, other: Seq<char>)
    requires
        s.debug_session == Some(session),
        other != session.id,
    ensures
        adapter_polls::poll_ended(s, poll, other, outcome).0 == s,
        adapter_polls::poll_ended(s, poll, other, outcome).1.outputs.len() == 0,
        adapter_polls::poll_ended(s, poll, other, outcome).1.next is Done,
        ({
            let (next, turn) = adapter_polls::poll_ended(s, poll, session.id, outcome);
            &&& s.active_poll == Some(poll) ==> next.active_poll is None
            &&& s.active_poll != Some(poll) ==> next.active_poll == s.active_poll
            &&& (outcome matches Ok(PingOutcomeView::Events(events, _)) ==> turn.next
                == NextView::Events(events) && !next.poll_failed && next.next_sequence
                == s.next_sequence)
            &&& (outcome matches Ok(PingOutcomeView::TimedOut) ==> turn.next is Done
                && next.poll_failed == s.poll_failed && next.next_sequence == s.next_sequence)
            &&& (outcome matches Err(message) ==> turn.next is Done && if s.active_poll == Some(poll)
                && !s.poll_failed {
                next.poll_failed && turn.outputs.len() == 2 && event_laws::is_shown(
                    turn.outputs[1],
                    "stderr"@,
                    "1C debug server poll failed: "@ + message + "\n"@,
                )
            } else {
                next.poll_failed == s.poll_failed && next.next_sequence == s.next_sequence
            })
        }),
{
    if outcome is Err {
        event_laws::lemma_shown(
            s,
            "stderr"@,
            "1C debug server poll failed: "@ + outcome->Err_0 + "\n"@,
        );
    }
}

/// The end of a session is told as what ended it: a request is answered, or refused where the
/// session could not be detached; a debug server that exited is shown with its status, and a client
/// that exited with its code, each before the session terminates; the end of the input is not told.
pub proof fn ends_are_told(s: AdapterView, request: JsonView, status: Seq<char>, code: i32, message: Seq<char>)
    ensures
        ({
            let step = adapter_session::ended(s, EndingView::Requested(request), Ok(()));
            step.1.outputs.len() == 1 && step.1.outputs[0] is Message && answer_laws::is_success(
                step.1.outputs[0]->Message_0,
                request,
                JsonView::Object(Seq::empty()),
            )
        }),
        ({
            let step = adapter_session::ended(s, EndingView::Requested(request), Err(message));
            step.1.outputs.len() == 1 && step.1.outputs[0] is Message && answer_laws::is_refusal(
                step.1.outputs[0]->Message_0,
                request,
                message,
            )
        }),
        ({
            let step = adapter_session::ended(s, EndingView::ServerExit(status), Ok(()));
            &&& step.1.outputs.len() == 2
            &&& event_laws::is_shown(
                step.1.outputs[0],
                "stderr"@,
                "1C debug server exited unexpectedly: "@ + status + "\n"@,
            )
            &&& event_laws::is_named(step.1.outputs[1], "terminated"@)
        }),
        ({
            let step = adapter_session::ended(s, EndingView::ServerExit(status), Err(message));
            &&& step.1.outputs.len() == 3
            &&& event_laws::is_shown(
                step.1.outputs[0],
                "stderr"@,
                "1C debug server exited unexpectedly: "@ + status + "\n"@,
            )
            &&& event_laws::is_shown(
                step.1.outputs[1],
                "stderr"@,
                "cannot detach 1C Debug UI after debug server exit: "@ + message + "\n"@,
            )
            &&& event_laws::is_named(step.1.outputs[2], "terminated"@)
        }),
        ({
            let step = adapter_session::ended(s, EndingView::ClientExit(code), Ok(()));
            &&& step.1.outputs.len() == 2
            &&& event_laws::is_named(step.1.outputs[0], "exited"@)
            &&& event_laws::told(step.1.outputs[0], "exitCode"@) == JsonView::Integer(code as int)
            &&& event_laws::is_named(step.1.outputs[1], "terminated"@)
        }),
        ({
            let step = adapter_session::ended(s, EndingView::ClientExit(code), Err(message));
            &&& step.1.outputs.len() == 3
            &&& event_laws::is_named(step.1.outputs[0], "exited"@)
            &&& event_laws::told(step.1.outputs[0], "exitCode"@) == JsonView::Integer(code as int)
            &&& event_laws::is_shown(
                step.1.outputs[1],
                "stderr"@,
                "cannot detach 1C Debug UI after client exit: "@ + message + "\n"@,
            )
            &&& event_laws::is_named(step.1.outputs[2], "terminated"@)
        }),
        adapter_session::ended(s, EndingView::InputClosed, Ok(())).1.outputs.len() == 0,
{
    let c = adapter_session::closed(s);
    answer_laws::lemma_answers(c, request, adapter::no_body(), message);
    event_laws::lemma_shown(
        c,
        "stderr"@,
        "1C debug server exited unexpectedly: "@ + status + "\n"@,
    );
    event_laws::lemma_shown(
        adapter::counted(c, 1),
        "stderr"@,
        "cannot detach 1C Debug UI after debug server exit: "@ + message + "\n"@,
    );
    event_laws::lemma_shown(
        adapter::counted(c, 1),
        "stderr"@,
        "cannot detach 1C Debug UI after client exit: "@ + message + "\n"@,
    );
    event_laws::lemma_event(adapter::counted(c, 1), "terminated"@, adapter::no_body());
    event_laws::lemma_event(adapter::counted(c, 2), "terminated"@, adapter::no_body());
    let body = adapter_session::exited_body(code);
    event_laws::lemma_event(c, "exited"@, body);
    reading::lemma_names();
    reading::lemma_field(body->Object_0, 0);
}

/// The reply to the end of a session ends it for the reason that it was asked to end for.
pub proof fn detached_sessions_end(s: AdapterView, ending: EndingView, reply: HttpReplyView, id: Seq<char>)
    ensures
        reply is Answered ==> adapter_requests::replied_to(
            s,
            ReasonView::Detach(ending),
            reply,
            id,
        ) == adapter_session::ended(s, ending, Ok(())),
        reply is Failed || reply is TimedOut ==> adapter_requests::replied_to(
            s,
            ReasonView::Detach(ending),
            reply,
            id,
        ) == adapter_session::ended(
            s,
            ending,
            Err("1C debug server request `"@ + "detachDebugUI"@ + "` failed"@),
        ),
        reply is Unreadable ==> adapter_requests::replied_to(
            s,
            ReasonView::Detach(ending),
            reply,
            id,
        ) == adapter_session::ended(
            s,
            ending,
            Err("cannot read XML response from 1C debug server"@),
        ),
{
}

/// The reply to a poll is its events; a poll that runs out of time has none, and no error.
pub proof fn replies_to_polls_are_events(body: Seq<char>, status: u16, name: Seq<char>, events: Seq<DebugUiEventView>)
    requires
        debug_replies::ping_reply(body) == Ok::<Seq<DebugUiEventView>, Seq<char>>(events),
    ensures
        debug_server::ping_answer(HttpReplyView::Answered(status, name, body)) == Ok::<
            Option<Seq<DebugUiEventView>>,
            Seq<char>,
        >(Some(events)),
        debug_server::ping_answer(HttpReplyView::TimedOut) == Ok::<
            Option<Seq<DebugUiEventView>>,
            Seq<char>,
        >(None),
        debug_server::ping_answer(HttpReplyView::Failed) == Err::<
            Option<Seq<DebugUiEventView>>,
            Seq<char>,
        >("1C debug server request `"@ + "pingDebugUIParams"@ + "` failed"@),
{
}

/// Where the platform has no programs that can be used, the request is refused with the reason.
pub proof fn missing_platforms_are_refused(s: AdapterView, located: LocatedView, request: JsonView, pending: PendingDebuggeeView, path: Seq<char>, listing: PlatformListingView, message: Seq<char>, server: Seq<char>)
    requires
        s.pending_debuggee == Some(pending),
        s.debug_server == Some(server),
    ensures
        platform::programs(
            path,
            listing,
            located.connecting.arguments.platform_version,
            s.host.windows,
            s.host.separator,
        ) == Err::<Seq<char>, Seq<char>>(message) ==> answer_laws::refuses(
            adapter_connect::with_platform(s, located, path, listing),
            located.connecting.request,
            message,
        ),
        platform::programs(
            path,
            listing,
            pending.arguments.platform_version,
            s.host.windows,
            s.host.separator,
        ) == Err::<Seq<char>, Seq<char>>(message) ==> answer_laws::refuses(
            adapter_connect::with_client_platform(s, request, path, listing),
            request,
            message,
        ),
        platform::client_switches(pending.arguments, pending.info_base, server) == Err::<
            Seq<Seq<char>>,
            Seq<char>,
        >(message) ==> answer_laws::refuses(
            adapter_connect::with_client(s, request, path, true),
            request,
            message,
        ),
{
    answer_laws::lemma_answers(s, located.connecting.request, JsonView::Null, message);
    answer_laws::lemma_answers(s, request, JsonView::Null, message);
}

} // verus!
