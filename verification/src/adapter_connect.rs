//! The way from a `launch` or `attach` request to a session, and the start of the client.

use crate::adapter;
use crate::adapter::{
    empty_body, quiet, speak_all, Adapter, AdapterView, Attaching, AttachingView, Connecting,
    ConnectingView, Located, LocatedView, Next, NextView, PendingDebuggee, PendingDebuggeeView,
    Reason, ReasonView, Turn, TurnView,
};
use crate::debug_server;
use crate::debug_server::{acknowledgement, debug_ui_attached, DebugServer, HttpReply, HttpReplyView};
use crate::debug_types::{DebugUiSession, DebugUiSessionView};
use crate::info_base;
use crate::info_base::{
    file_infobase_candidate, info_base_name, info_base_target, ConnectionArguments,
    ConnectionArgumentsView,
};
use crate::json::{Json, JsonView};
use crate::list::none;
use crate::metadata;
use crate::metadata::{ModuleRegistry, ModuleRegistryView, Sources, SourcesView};
use crate::platform;
use crate::platform::{
    client_arguments, platform_bin, program, PlatformListing, PlatformListingView,
};
use crate::text;
use crate::text::copy;
use vstd::prelude::*;

verus! {

/// A `launch` (`true`) or `attach` request: there is at most one session.
pub open spec fn connect_asked(s: AdapterView, request: JsonView, launch: bool) -> (AdapterView, TurnView) {
    if s.debug_session is Some {
        adapter::refused(s, request, "a 1C debug server is already attached"@)
    } else {
        (s, adapter::asks(NextView::ReadArguments(request, launch)))
    }
}

/// The infobase that the arguments name is inspected.
pub open spec fn inspection(s: AdapterView, connecting: ConnectingView, registry: Option<ModuleRegistryView>) -> (AdapterView, TurnView) {
    match info_base::named_info_base(connecting.arguments) {
        Err(message) => adapter::refused(s, connecting.request, message),
        Ok(name) => (
            s,
            adapter::asks(
                NextView::InspectInfoBase(connecting, registry, info_base::file_candidate(name)),
            ),
        ),
    }
}

/// The arguments are read, or are not those of a connection.
pub open spec fn with_arguments(s: AdapterView, request: JsonView, launch: bool, arguments: Option<ConnectionArgumentsView>) -> (AdapterView, TurnView) {
    match arguments {
        None => adapter::refused(
            s,
            request,
            "launch/attach requires debugServerHost and debugServerPort"@,
        ),
        Some(arguments) => {
            let connecting = ConnectingView { request, launch, arguments };
            if arguments.root_project is Some {
                (s, adapter::asks(NextView::ReadSources(connecting)))
            } else {
                inspection(s, connecting, None)
            }
        },
    }
}

/// The configuration sources are read.
pub open spec fn with_sources(s: AdapterView, connecting: ConnectingView, sources: SourcesView) -> (AdapterView, TurnView) {
    match metadata::loaded(sources) {
        Err(message) => adapter::refused(s, connecting.request, message),
        Ok(registry) => inspection(s, connecting, Some(registry)),
    }
}

/// A connection fails; a debug server that was started for it is stopped.
pub open spec fn failed(s: AdapterView, request: JsonView, message: Seq<char>, spawned: bool) -> (AdapterView, TurnView) {
    let (next, turn) = adapter::refused(s, request, message);
    (next, TurnView { stop_programs: spawned, ..turn })
}

/// The connection to a debug server is checked. A host that is refused leaves a debug server that
/// was started alone: it ends with the process that it was told of as its owner.
pub open spec fn attachment_begun(s: AdapterView, located: LocatedView, port: u16, spawned: bool) -> (AdapterView, TurnView) {
    let request = located.connecting.request;
    match debug_server::server_at(located.connecting.arguments.debug_server_host, port) {
        Err(message) => adapter::refused(s, request, message),
        Ok(server) => match debug_server::alias_checked(server, located.info_base.alias) {
            Err(message) => failed(s, request, message, spawned),
            Ok(check) => (
                s,
                adapter::asks(
                    NextView::Send(
                        check,
                        ReasonView::Test(AttachingView { located, server, spawned }),
                    ),
                ),
            ),
        },
    }
}

/// The infobase is inspected. The launch of a file infobase needs a debug server of its own; the
/// others have one already.
pub open spec fn with_info_base(s: AdapterView, connecting: ConnectingView, registry: Option<ModuleRegistryView>, is_directory: bool, lists: Seq<Seq<char>>) -> (AdapterView, TurnView) {
    match info_base::target_of(connecting.arguments, is_directory, lists) {
        Err(message) => adapter::refused(s, connecting.request, message),
        Ok(info_base) => {
            let located = LocatedView { connecting, registry, info_base };
            if connecting.launch && info_base.is_file {
                match connecting.arguments.platform_path {
                    None => adapter::refused(
                        s,
                        connecting.request,
                        "launch requires platformPath for a file infobase"@,
                    ),
                    Some(path) => (s, adapter::asks(NextView::ListPlatform(located, path))),
                }
            } else {
                attachment_begun(s, located, connecting.arguments.debug_server_port, false)
            }
        },
    }
}

/// The platform directory is listed.
pub open spec fn with_platform(s: AdapterView, located: LocatedView, path: Seq<char>, listing: PlatformListingView) -> (AdapterView, TurnView) {
    let arguments = located.connecting.arguments;
    match platform::programs(
        path,
        listing,
        arguments.platform_version,
        s.host.windows,
        s.host.separator,
    ) {
        Err(message) => adapter::refused(s, located.connecting.request, message),
        Ok(directory) => (
            s,
            adapter::asks(
                NextView::CheckDebugServer(
                    located,
                    platform::program_path(
                        directory,
                        "dbgs"@,
                        s.host.windows,
                        s.host.separator,
                    ),
                ),
            ),
        ),
    }
}

/// It is known whether the program of the debug server is there.
pub open spec fn with_debug_server(s: AdapterView, located: LocatedView, path: Seq<char>, is_file: bool) -> (AdapterView, TurnView) {
    if is_file {
        (
            s,
            adapter::asks(
                NextView::StartDebugServer(
                    located,
                    path,
                    located.connecting.arguments.debug_server_host,
                ),
            ),
        )
    } else {
        adapter::refused(
            s,
            located.connecting.request,
            "1C debug server executable was not found at "@ + path,
        )
    }
}

/// The debug server reported its port, or could not be started.
pub open spec fn with_port(s: AdapterView, located: LocatedView, outcome: Result<u16, Seq<char>>) -> (AdapterView, TurnView) {
    match outcome {
        Err(message) => failed(s, located.connecting.request, message, true),
        Ok(port) => attachment_begun(s, located, port, true),
    }
}

/// The reply to the connectivity check: a session is registered under an identifier.
pub open spec fn test_replied(s: AdapterView, attaching: AttachingView, reply: HttpReplyView, id: Seq<char>) -> (AdapterView, TurnView) {
    match debug_server::tested(attaching.server, reply) {
        Err(message) => failed(s, attaching.located.connecting.request, message, attaching.spawned),
        Ok(_) => {
            let session = DebugUiSessionView {
                id,
                info_base_alias: attaching.located.info_base.alias,
            };
            (
                s,
                adapter::asks(
                    NextView::Send(
                        debug_server::attach_post(attaching.server, session),
                        ReasonView::Register(attaching, session),
                    ),
                ),
            )
        },
    }
}

/// A session that cannot be configured is detached again.
pub open spec fn given_up(s: AdapterView, attaching: AttachingView, session: DebugUiSessionView, message: Seq<char>) -> (AdapterView, TurnView) {
    (
        s,
        adapter::asks(
            NextView::Send(
                debug_server::base_post(attaching.server, "detachDebugUI"@, session),
                ReasonView::GiveUp(attaching, message),
            ),
        ),
    )
}

/// The kinds of targets that the arguments want attached.
pub open spec fn wanted_types(arguments: ConnectionArgumentsView) -> Seq<Seq<char>> {
    match arguments.auto_attach_types {
        Some(types) => types,
        None => Seq::empty(),
    }
}

/// The reply to a registration: the session is configured.
pub open spec fn register_replied(s: AdapterView, attaching: AttachingView, session: DebugUiSessionView, reply: HttpReplyView) -> (AdapterView, TurnView) {
    match debug_server::attach_reply(reply) {
        Err(message) => failed(s, attaching.located.connecting.request, message, attaching.spawned),
        Ok(_) => match debug_server::auto_attach_post(
            attaching.server,
            session,
            wanted_types(attaching.located.connecting.arguments),
        ) {
            Err(message) => given_up(s, attaching, session, message),
            Ok(command) => (
                s,
                adapter::asks(
                    NextView::Send(command, ReasonView::Configure(attaching, session)),
                ),
            ),
        },
    }
}

/// The state with a new session. A launched client waits until the breakpoints are set.
pub open spec fn established(s: AdapterView, attaching: AttachingView, session: DebugUiSessionView) -> AdapterView {
    let located = attaching.located;
    AdapterView {
        debug_server: Some(attaching.server),
        debug_session: Some(session),
        pending_debuggee: if located.connecting.launch {
            Some(
                PendingDebuggeeView {
                    arguments: located.connecting.arguments,
                    info_base: located.info_base,
                },
            )
        } else {
            None
        },
        poll_failed: false,
        active_poll: None,
        module_registry: located.registry,
        module_breakpoints: Seq::empty(),
        ..s
    }
}

/// The reply to the configuration of a session.
pub open spec fn configure_replied(s: AdapterView, attaching: AttachingView, session: DebugUiSessionView, reply: HttpReplyView) -> (AdapterView, TurnView) {
    match debug_server::acknowledged("setAutoAttachSettings"@, reply) {
        Err(message) => given_up(s, attaching, session, message),
        Ok(_) => (
            adapter::counted(established(s, attaching, session), 2),
            adapter::says(
                seq![
                    adapter::next_response(
                        s,
                        attaching.located.connecting.request,
                        adapter::no_body(),
                    ),
                    adapter::next_event(
                        adapter::counted(s, 1),
                        "initialized"@,
                        adapter::no_body(),
                    ),
                ],
            ),
        ),
    }
}

/// Whatever the reply to the end of a session that could not be configured, the request fails
/// with the reason.
pub open spec fn give_up_replied(s: AdapterView, attaching: AttachingView, message: Seq<char>) -> (AdapterView, TurnView) {
    failed(s, attaching.located.connecting.request, message, attaching.spawned)
}

/// `configurationDone`: the client is launched, where it waits for that.
pub open spec fn configuration_done(s: AdapterView, request: JsonView) -> (AdapterView, TurnView) {
    match s.pending_debuggee {
        None => adapter::answered(s, request, adapter::no_body()),
        Some(_) => if s.debug_server is None {
            adapter::refused(
                AdapterView { pending_debuggee: None, ..s },
                request,
                "no 1C debug server is attached"@,
            )
        } else {
            (s, adapter::asks(NextView::LaunchClient(request)))
        },
    }
}

/// The client that waits is launched: its platform directory is listed first.
pub open spec fn client_launched(s: AdapterView, request: JsonView) -> (AdapterView, TurnView) {
    match s.pending_debuggee {
        None => adapter::answered(s, request, adapter::no_body()),
        Some(pending) => match pending.arguments.platform_path {
            None => adapter::refused(s, request, "launch requires platformPath"@),
            Some(path) => (s, adapter::asks(NextView::ListClientPlatform(request, path))),
        },
    }
}

/// The platform directory is listed, for the client.
pub open spec fn with_client_platform(s: AdapterView, request: JsonView, path: Seq<char>, listing: PlatformListingView) -> (AdapterView, TurnView) {
    match s.pending_debuggee {
        None => adapter::answered(s, request, adapter::no_body()),
        Some(pending) => match platform::programs(
            path,
            listing,
            pending.arguments.platform_version,
            s.host.windows,
            s.host.separator,
        ) {
            Err(message) => adapter::refused(s, request, message),
            Ok(directory) => (
                s,
                adapter::asks(
                    NextView::CheckClient(
                        request,
                        platform::program_path(
                            directory,
                            "1cv8c"@,
                            s.host.windows,
                            s.host.separator,
                        ),
                    ),
                ),
            ),
        },
    }
}

/// It is known whether the program of the client is there.
pub open spec fn with_client(s: AdapterView, request: JsonView, path: Seq<char>, is_file: bool) -> (AdapterView, TurnView) {
    if !is_file {
        adapter::refused(s, request, "1C client executable was not found at "@ + path)
    } else {
        match (s.pending_debuggee, s.debug_server) {
            (Some(pending), Some(server)) => match platform::client_switches(
                pending.arguments,
                pending.info_base,
                server,
            ) {
                Err(message) => adapter::refused(s, request, message),
                Ok(arguments) => (
                    s,
                    adapter::asks(NextView::StartClient(request, path, arguments)),
                ),
            },
            _ => adapter::answered(s, request, adapter::no_body()),
        }
    }
}

/// The client is started, or could not be: then it waits further.
pub open spec fn client_start_done(s: AdapterView, request: JsonView, path: Seq<char>, started: bool) -> (AdapterView, TurnView) {
    if started {
        adapter::answered(
            AdapterView { pending_debuggee: None, ..s },
            request,
            adapter::no_body(),
        )
    } else {
        adapter::refused(s, request, "cannot start 1C client "@ + path)
    }
}

fn message_at(start: &str, path: &str) -> (r: String)
    ensures
        r@ == start@ + path@,
{
    let mut message = copy(start);
    message.append(path);
    message
}

impl Adapter {
    /// Begins to connect.
    pub fn connect(&mut self, request: &Json, launch: bool) -> (r: Turn)
        requires
            adapter::ready(old(self).deep_view()),
        ensures
            (final(self).deep_view(), r.deep_view()) == connect_asked(
                old(self).deep_view(),
                request.deep_view(),
                launch,
            ),
    {
        if self.debug_session.is_some() {
            return self.refuse(request, "a 1C debug server is already attached");
        }
        quiet(Next::ReadArguments(request.duplicate(), launch))
    }

    fn inspect(&mut self, connecting: Connecting, registry: Option<ModuleRegistry>) -> (r: Turn)
        requires
            adapter::ready(old(self).deep_view()),
        ensures
            (final(self).deep_view(), r.deep_view()) == inspection(
                old(self).deep_view(),
                connecting.deep_view(),
                registry.deep_view(),
            ),
    {
        match info_base_name(&connecting.arguments) {
            Ok(name) => {
                let path = file_infobase_candidate(name.as_str());
                quiet(Next::InspectInfoBase(connecting, registry, path))
            },
            Err(message) => self.refuse(&connecting.request, message.as_str()),
        }
    }

    /// Goes on with the arguments of a connection; nothing stands for arguments of another form.
    pub fn arguments_read(&mut self, request: Json, launch: bool, arguments: Option<ConnectionArguments>) -> (r: Turn)
        requires
            adapter::ready(old(self).deep_view()),
        ensures
            (final(self).deep_view(), r.deep_view()) == with_arguments(
                old(self).deep_view(),
                request.deep_view(),
                launch,
                arguments.deep_view(),
            ),
    {
        let arguments = match arguments {
            Some(arguments) => arguments,
            None => {
                return self.refuse(
                    &request,
                    "launch/attach requires debugServerHost and debugServerPort",
                );
            },
        };
        let has_sources = arguments.root_project.is_some();
        let connecting = Connecting { request, launch, arguments };
        if has_sources {
            quiet(Next::ReadSources(connecting))
        } else {
            self.inspect(connecting, None)
        }
    }

    /// Goes on with the configuration sources.
    pub fn sources_read(&mut self, connecting: Connecting, sources: &Sources) -> (r: Turn)
        requires
            adapter::ready(old(self).deep_view()),
        ensures
            (final(self).deep_view(), r.deep_view()) == with_sources(
                old(self).deep_view(),
                connecting.deep_view(),
                sources.deep_view(),
            ),
    {
        match ModuleRegistry::load(sources) {
            Ok(registry) => self.inspect(connecting, Some(registry)),
            Err(message) => self.refuse(&connecting.request, message.as_str()),
        }
    }

    fn fail(&mut self, request: &Json, message: &str, spawned: bool) -> (r: Turn)
        requires
            adapter::ready(old(self).deep_view()),
        ensures
            (final(self).deep_view(), r.deep_view()) == failed(
                old(self).deep_view(),
                request.deep_view(),
                message@,
                spawned,
            ),
    {
        let refusal = self.refuse(request, message);
        Turn { outputs: refusal.outputs, stop_programs: spawned, next: refusal.next }
    }

    fn begin_attachment(&mut self, located: Located, port: u16, spawned: bool) -> (r: Turn)
        requires
            adapter::ready(old(self).deep_view()),
        ensures
            (final(self).deep_view(), r.deep_view()) == attachment_begun(
                old(self).deep_view(),
                located.deep_view(),
                port,
                spawned,
            ),
    {
        let host = located.connecting.arguments.debug_server_host.as_str();
        let server = match DebugServer::new(host, port) {
            Ok(server) => server,
            Err(message) => {
                return self.refuse(&located.connecting.request, message.as_str());
            },
        };
        match server.attach_debug_ui(located.info_base.alias.as_str()) {
            Ok(check) => quiet(
                Next::Send(check, Reason::Test(Attaching { located, server, spawned })),
            ),
            Err(message) => self.fail(&located.connecting.request, message.as_str(), spawned),
        }
    }

    /// Goes on with what there is of the infobase: whether a directory is under the path, and the
    /// contents of the launcher's lists.
    pub fn info_base_inspected(&mut self, connecting: Connecting, registry: Option<ModuleRegistry>, is_directory: bool, lists: &Vec<String>) -> (r: Turn)
        requires
            adapter::ready(old(self).deep_view()),
        ensures
            (final(self).deep_view(), r.deep_view()) == with_info_base(
                old(self).deep_view(),
                connecting.deep_view(),
                registry.deep_view(),
                is_directory,
                lists.deep_view(),
            ),
    {
        let info_base = match info_base_target(&connecting.arguments, is_directory, lists) {
            Ok(info_base) => info_base,
            Err(message) => {
                return self.refuse(&connecting.request, message.as_str());
            },
        };
        let port = connecting.arguments.debug_server_port;
        if connecting.launch && info_base.is_file {
            let path = match &connecting.arguments.platform_path {
                Some(path) => copy(path.as_str()),
                None => {
                    return self.refuse(
                        &connecting.request,
                        "launch requires platformPath for a file infobase",
                    );
                },
            };
            return quiet(Next::ListPlatform(Located { connecting, registry, info_base }, path));
        }
        self.begin_attachment(Located { connecting, registry, info_base }, port, false)
    }

    /// Goes on with the contents of the platform directory.
    pub fn platform_listed(&mut self, located: Located, path: &str, listing: &PlatformListing) -> (r: Turn)
        requires
            adapter::ready(old(self).deep_view()),
        ensures
            (final(self).deep_view(), r.deep_view()) == with_platform(
                old(self).deep_view(),
                located.deep_view(),
                path@,
                listing.deep_view(),
            ),
    {
        let version = optional_str(&located.connecting.arguments.platform_version);
        match platform_bin(path, listing, version, self.host.windows, self.host.separator) {
            Ok(directory) => {
                let path = program(
                    directory.as_str(),
                    "dbgs",
                    self.host.windows,
                    self.host.separator,
                );
                quiet(Next::CheckDebugServer(located, path))
            },
            Err(message) => self.refuse(&located.connecting.request, message.as_str()),
        }
    }

    /// Goes on with whether the program of the debug server is there.
    pub fn debug_server_checked(&mut self, located: Located, path: &str, is_file: bool) -> (r: Turn)
        requires
            adapter::ready(old(self).deep_view()),
        ensures
            (final(self).deep_view(), r.deep_view()) == with_debug_server(
                old(self).deep_view(),
                located.deep_view(),
                path@,
                is_file,
            ),
    {
        if !is_file {
            let message = message_at("1C debug server executable was not found at ", path);
            return self.refuse(&located.connecting.request, message.as_str());
        }
        let host = copy(located.connecting.arguments.debug_server_host.as_str());
        quiet(Next::StartDebugServer(located, copy(path), host))
    }

    /// Goes on with the port of the debug server that was started, or with why there is none.
    pub fn debug_server_started(&mut self, located: Located, outcome: Result<u16, String>) -> (r: Turn)
        requires
            adapter::ready(old(self).deep_view()),
        ensures
            (final(self).deep_view(), r.deep_view()) == with_port(
                old(self).deep_view(),
                located.deep_view(),
                text::outcome(outcome),
            ),
    {
        match outcome {
            Ok(port) => self.begin_attachment(located, port, true),
            Err(message) => self.fail(&located.connecting.request, message.as_str(), true),
        }
    }

    /// Goes on after the reply to the connectivity check, with the identifier of a new session.
    pub fn connection_tested(&mut self, attaching: Attaching, reply: &HttpReply, id: &str) -> (r: Turn)
        requires
            adapter::ready(old(self).deep_view()),
        ensures
            (final(self).deep_view(), r.deep_view()) == test_replied(
                old(self).deep_view(),
                attaching.deep_view(),
                reply.deep_view(),
                id@,
            ),
    {
        match attaching.server.connection_tested(reply) {
            Ok(_) => {
                let session = DebugUiSession {
                    id: copy(id),
                    info_base_alias: copy(attaching.located.info_base.alias.as_str()),
                };
                let command = attaching.server.register_session(&session);
                quiet(Next::Send(command, Reason::Register(attaching, session)))
            },
            Err(message) => self.fail(
                &attaching.located.connecting.request,
                message.as_str(),
                attaching.spawned,
            ),
        }
    }

    fn give_up(&mut self, attaching: Attaching, session: &DebugUiSession, message: String) -> (r: Turn)
        ensures
            (final(self).deep_view(), r.deep_view()) == given_up(
                old(self).deep_view(),
                attaching.deep_view(),
                session.deep_view(),
                message@,
            ),
    {
        let command = attaching.server.detach_debug_ui(session);
        quiet(Next::Send(command, Reason::GiveUp(attaching, message)))
    }

    /// Goes on after the reply to the registration of a session.
    pub fn session_registered(&mut self, attaching: Attaching, session: DebugUiSession, reply: &HttpReply) -> (r: Turn)
        requires
            adapter::ready(old(self).deep_view()),
        ensures
            (final(self).deep_view(), r.deep_view()) == register_replied(
                old(self).deep_view(),
                attaching.deep_view(),
                session.deep_view(),
                reply.deep_view(),
            ),
    {
        match debug_ui_attached(reply) {
            Ok(_) => {},
            Err(message) => {
                return self.fail(
                    &attaching.located.connecting.request,
                    message.as_str(),
                    attaching.spawned,
                );
            },
        }
        let no_types: Vec<String> = none();
        let types = match &attaching.located.connecting.arguments.auto_attach_types {
            Some(types) => types,
            None => &no_types,
        };
        match attaching.server.set_auto_attach_types(&session, types) {
            Ok(command) => quiet(Next::Send(command, Reason::Configure(attaching, session))),
            Err(message) => self.give_up(attaching, &session, message),
        }
    }

    /// Goes on after the reply to the configuration of a session.
    pub fn session_configured(&mut self, attaching: Attaching, session: DebugUiSession, reply: &HttpReply) -> (r: Turn)
        requires
            adapter::ready(old(self).deep_view()),
        ensures
            (final(self).deep_view(), r.deep_view()) == configure_replied(
                old(self).deep_view(),
                attaching.deep_view(),
                session.deep_view(),
                reply.deep_view(),
            ),
    {
        match acknowledgement("setAutoAttachSettings", reply) {
            Ok(_) => {},
            Err(message) => {
                return self.give_up(attaching, &session, message);
            },
        }
        let Located { connecting, registry, info_base } = attaching.located;
        let Connecting { request, launch, arguments } = connecting;
        self.debug_server = Some(attaching.server);
        self.debug_session = Some(session);
        self.pending_debuggee = if launch {
            Some(PendingDebuggee { arguments, info_base })
        } else {
            None
        };
        self.poll_failed = false;
        self.active_poll = None;
        self.module_registry = registry;
        self.module_breakpoints.clear();
        let answer = self.respond(&request, empty_body());
        let event = self.notify("initialized", empty_body());
        let outputs = vec![answer, event];
        assert(outputs.deep_view() =~= seq![answer.deep_view(), event.deep_view()]);
        speak_all(outputs)
    }

    /// Goes on after the reply to the end of a session that could not be configured.
    pub fn session_given_up(&mut self, attaching: &Attaching, message: &str) -> (r: Turn)
        requires
            adapter::ready(old(self).deep_view()),
        ensures
            (final(self).deep_view(), r.deep_view()) == give_up_replied(
                old(self).deep_view(),
                attaching.deep_view(),
                message@,
            ),
    {
        self.fail(&attaching.located.connecting.request, message, attaching.spawned)
    }

    /// Launches the client, where it waits for the end of the configuration.
    pub fn launch_pending_debuggee(&mut self, request: &Json) -> (r: Turn)
        requires
            adapter::ready(old(self).deep_view()),
        ensures
            (final(self).deep_view(), r.deep_view()) == configuration_done(
                old(self).deep_view(),
                request.deep_view(),
            ),
    {
        if self.pending_debuggee.is_none() {
            return self.answer(request, empty_body());
        }
        if self.debug_server.is_none() {
            self.pending_debuggee = None;
            return self.refuse(request, "no 1C debug server is attached");
        }
        quiet(Next::LaunchClient(request.duplicate()))
    }

    /// Launches the client that waits.
    pub fn launch_debuggee(&mut self, request: Json) -> (r: Turn)
        requires
            adapter::ready(old(self).deep_view()),
        ensures
            (final(self).deep_view(), r.deep_view()) == client_launched(
                old(self).deep_view(),
                request.deep_view(),
            ),
    {
        let path = match &self.pending_debuggee {
            None => {
                return self.answer(&request, empty_body());
            },
            Some(pending) => match &pending.arguments.platform_path {
                Some(path) => copy(path.as_str()),
                None => {
                    return self.refuse(&request, "launch requires platformPath");
                },
            },
        };
        quiet(Next::ListClientPlatform(request, path))
    }

    /// Goes on with the contents of the platform directory, for the client.
    pub fn client_platform_listed(&mut self, request: Json, path: &str, listing: &PlatformListing) -> (r: Turn)
        requires
            adapter::ready(old(self).deep_view()),
        ensures
            (final(self).deep_view(), r.deep_view()) == with_client_platform(
                old(self).deep_view(),
                request.deep_view(),
                path@,
                listing.deep_view(),
            ),
    {
        let outcome = match &self.pending_debuggee {
            None => {
                return self.answer(&request, empty_body());
            },
            Some(pending) => platform_bin(
                path,
                listing,
                optional_str(&pending.arguments.platform_version),
                self.host.windows,
                self.host.separator,
            ),
        };
        match outcome {
            Ok(directory) => {
                let path = program(
                    directory.as_str(),
                    "1cv8c",
                    self.host.windows,
                    self.host.separator,
                );
                quiet(Next::CheckClient(request, path))
            },
            Err(message) => self.refuse(&request, message.as_str()),
        }
    }

    /// Goes on with whether the program of the client is there.
    pub fn client_checked(&mut self, request: Json, path: &str, is_file: bool) -> (r: Turn)
        requires
            adapter::ready(old(self).deep_view()),
        ensures
            (final(self).deep_view(), r.deep_view()) == with_client(
                old(self).deep_view(),
                request.deep_view(),
                path@,
                is_file,
            ),
    {
        if !is_file {
            let message = message_at("1C client executable was not found at ", path);
            return self.refuse(&request, message.as_str());
        }
        let outcome = match (&self.pending_debuggee, &self.debug_server) {
            (Some(pending), Some(server)) => client_arguments(
                &pending.arguments,
                &pending.info_base,
                server.endpoint(),
            ),
            _ => {
                return self.answer(&request, empty_body());
            },
        };
        match outcome {
            Ok(arguments) => quiet(Next::StartClient(request, copy(path), arguments)),
            Err(message) => self.refuse(&request, message.as_str()),
        }
    }

    /// Goes on with whether the client was started.
    pub fn client_started(&mut self, request: &Json, path: &str, started: bool) -> (r: Turn)
        requires
            adapter::ready(old(self).deep_view()),
        ensures
            (final(self).deep_view(), r.deep_view()) == client_start_done(
                old(self).deep_view(),
                request.deep_view(),
                path@,
                started,
            ),
    {
        if !started {
            return self.refuse(request, message_at("cannot start 1C client ", path).as_str());
        }
        self.pending_debuggee = None;
        self.answer(request, empty_body())
    }
}

fn optional_str(text: &Option<String>) -> (r: Option<&str>)
    ensures
        r.deep_view() == text.deep_view(),
{
    match text {
        Some(text) => Some(text.as_str()),
        None => None,
    }
}

/// A client is launched once: after its start no configuration launches it again.
pub proof fn a_client_is_launched_once(s: AdapterView, request: JsonView, path: Seq<char>, again: JsonView)
    ensures
        ({
            let after = client_start_done(s, request, path, true).0;
            &&& after.pending_debuggee is None
            &&& configuration_done(after, again) == adapter::answered(
                after,
                again,
                adapter::no_body(),
            )
        }),
{
}

/// A client that could not be launched still waits, and the next configuration launches it.
pub proof fn a_failed_launch_can_be_repeated(s: AdapterView, request: JsonView, path: Seq<char>, listing: PlatformListingView, again: JsonView)
    requires
        s.pending_debuggee is Some,
        s.debug_server is Some,
    ensures
        client_launched(s, request).0.pending_debuggee == s.pending_debuggee,
        with_client_platform(s, request, path, listing).0.pending_debuggee == s.pending_debuggee,
        with_client(s, request, path, false).0.pending_debuggee == s.pending_debuggee,
        with_client(s, request, path, true).0.pending_debuggee == s.pending_debuggee,
        client_start_done(s, request, path, false).0.pending_debuggee == s.pending_debuggee,
        configuration_done(s, again) == (s, adapter::asks(NextView::LaunchClient(again))),
{
}

/// A client does not start before the configuration is done: a launch only lets it wait.
pub proof fn a_launched_client_waits(s: AdapterView, attaching: AttachingView, session: DebugUiSessionView)
    requires
        attaching.located.connecting.launch,
    ensures
        established(s, attaching, session).pending_debuggee == Some(
            PendingDebuggeeView {
                arguments: attaching.located.connecting.arguments,
                info_base: attaching.located.info_base,
            },
        ),
{
}

} // verus!
