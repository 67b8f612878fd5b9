//! Which infobase a debug session is for.

use crate::metadata;
use crate::metadata::join_path;
use crate::text;
use crate::text::{chars_of, copy, equals_ignoring_case, split, split_once, stripped, text_between, trimmed, trimmed_start};
use vstd::prelude::*;

verus! {

/// The arguments of a `launch` or `attach` request.
#[derive(Debug, PartialEq, Eq)]
pub struct ConnectionArguments {
    pub debug_server_host: String,
    pub debug_server_port: u16,
    pub info_base: Option<String>,
    pub info_base_alias: Option<String>,
    pub root_project: Option<String>,
    pub platform_path: Option<String>,
    pub platform_version: Option<String>,
    pub extensions: Option<Vec<String>>,
    pub auto_attach_types: Option<Vec<String>>,
    /// Whether the latency of the debug server is recorded.
    pub trace: Option<bool>,
    pub trace_file: Option<String>,
}

#[verifier::ext_equal]
pub struct ConnectionArgumentsView {
    pub debug_server_host: Seq<char>,
    pub debug_server_port: u16,
    pub info_base: Option<Seq<char>>,
    pub info_base_alias: Option<Seq<char>>,
    pub root_project: Option<Seq<char>>,
    pub platform_path: Option<Seq<char>>,
    pub platform_version: Option<Seq<char>>,
    pub extensions: Option<Seq<Seq<char>>>,
    pub auto_attach_types: Option<Seq<Seq<char>>>,
    pub trace: Option<bool>,
    pub trace_file: Option<Seq<char>>,
}

impl DeepView for ConnectionArguments {
    type V = ConnectionArgumentsView;

    open spec fn deep_view(&self) -> ConnectionArgumentsView {
        ConnectionArgumentsView {
            debug_server_host: self.debug_server_host@,
            debug_server_port: self.debug_server_port,
            info_base: self.info_base.deep_view(),
            info_base_alias: self.info_base_alias.deep_view(),
            root_project: self.root_project.deep_view(),
            platform_path: self.platform_path.deep_view(),
            platform_version: self.platform_version.deep_view(),
            extensions: self.extensions.deep_view(),
            auto_attach_types: self.auto_attach_types.deep_view(),
            trace: self.trace,
            trace_file: self.trace_file.deep_view(),
        }
    }
}

/// The debug server's host where none is given.
pub fn default_debug_server_host() -> (r: String)
    ensures
        r@ == "localhost"@,
{
    copy("localhost")
}

/// The debug server's port where none is given.
pub fn default_debug_server_port() -> (r: u16)
    ensures
        r == 1550,
{
    1550
}

/// The infobase of a debug session.
#[derive(Debug, PartialEq, Eq)]
pub struct InfoBaseTarget {
    pub alias: String,
    pub is_file: bool,
    /// A direct file-base path supplied in `infoBase`. Unlike a launcher entry, this must be
    /// passed to the client with `/F` and never requires registering the base in `ibases.v8i`.
    pub direct_file_path: Option<String>,
}

#[verifier::ext_equal]
pub struct InfoBaseTargetView {
    pub alias: Seq<char>,
    pub is_file: bool,
    pub direct_file_path: Option<Seq<char>>,
}

impl DeepView for InfoBaseTarget {
    type V = InfoBaseTargetView;

    open spec fn deep_view(&self) -> InfoBaseTargetView {
        InfoBaseTargetView {
            alias: self.alias@,
            is_file: self.is_file,
            direct_file_path: self.direct_file_path.deep_view(),
        }
    }
}

/// The alias that the debug server has for every file infobase.
pub const FILE_INFOBASE_ALIAS: &'static str = "DefAlias";

/// The value of the first part `property=value`, among what remains of the parts of a connection
/// string; quotes around the value do not belong to it.
pub open spec fn property_among(parts: Seq<Seq<char>>, property: Seq<char>) -> Option<Seq<char>>
    decreases parts.len(),
{
    if parts.len() == 0 {
        None
    } else {
        match text::split_first(parts[0], '=') {
            Some((key, value)) if text::same_ignoring_case(text::trim(key), property) => Some(
                text::strip_end(text::strip_start(text::trim(value), '"'), '"'),
            ),
            _ => property_among(parts.skip(1), property),
        }
    }
}

/// A property of a connection string.
pub open spec fn connection_property(connection: Seq<char>, property: Seq<char>) -> Option<Seq<char>> {
    property_among(text::pieces(connection, ';'), property)
}

/// The value of a property of a connection string.
pub fn extract_connection_property(connection: &str, property: &str) -> (r: Option<String>)
    ensures
        r.deep_view() == connection_property(connection@, property@),
{
    let parts = split(connection, ';');
    let ghost all = parts.deep_view();
    assert(all.skip(0) =~= all);
    let mut i: usize = 0;
    while i < parts.len()
        invariant
            i <= parts@.len(),
            all == parts.deep_view(),
            all == text::pieces(connection@, ';'),
            property_among(all, property@) == property_among(all.skip(i as int), property@),
        decreases parts@.len() - i,
    {
        assert(all.skip(i as int)[0] == parts@[i as int]@);
        assert(all.skip(i as int).skip(1) =~= all.skip(i + 1));
        match split_once(parts[i].as_str(), '=') {
            Some((key, value)) => {
                let key = trimmed(key.as_str());
                if equals_ignoring_case(key.as_str(), property) {
                    let value = trimmed(value.as_str());
                    return Some(stripped(value.as_str(), '"'));
                }
            },
            None => {},
        }
        i = i + 1;
    }
    assert(all.skip(i as int).len() == 0);
    None
}

/// The name of a section, where a line begins one.
pub open spec fn section_name(line: Seq<char>) -> Option<Seq<char>> {
    if line.len() >= 2 && line[0] == '[' && line.last() == ']' {
        Some(line.subrange(1, line.len() - 1))
    } else {
        None
    }
}

fn section(line: &str) -> (r: Option<String>)
    ensures
        r.deep_view() == section_name(line@),
{
    let chars = chars_of(line);
    let n: usize = chars.len();
    if n >= 2 && chars[0] == '[' && chars[n - 1] == ']' {
        Some(text_between(&chars, 1, n - 1))
    } else {
        None
    }
}

/// Whether a connection string names a file infobase.
pub open spec fn is_file_connection(connection: Seq<char>) -> bool {
    let connection = text::trim_start(connection);
    connection.len() >= 5 && text::same_ignoring_case(connection.take(5), "file="@)
}

fn names_file(connection: &str) -> (r: bool)
    ensures
        r == is_file_connection(connection@),
{
    let connection = trimmed_start(connection);
    let chars = chars_of(connection.as_str());
    if chars.len() < 5 {
        return false;
    }
    let beginning = text_between(&chars, 0, 5);
    assert(beginning@ =~= connection@.take(5));
    equals_ignoring_case(beginning.as_str(), "file=")
}

/// The infobase that a `Connect` entry describes.
pub open spec fn connected(connection: Seq<char>) -> Option<InfoBaseTargetView> {
    if is_file_connection(connection) {
        Some(
            InfoBaseTargetView {
                alias: FILE_INFOBASE_ALIAS@,
                is_file: true,
                direct_file_path: None,
            },
        )
    } else {
        match connection_property(connection, "Ref"@) {
            Some(alias) => Some(
                InfoBaseTargetView { alias, is_file: false, direct_file_path: None },
            ),
            None => None,
        }
    }
}

/// The infobase that a connection string leads to.
pub fn connection_target(connection: &str) -> (r: Option<InfoBaseTarget>)
    ensures
        r.deep_view() == connected(connection@),
{
    if names_file(connection) {
        Some(
            InfoBaseTarget {
                alias: copy(FILE_INFOBASE_ALIAS),
                is_file: true,
                direct_file_path: None,
            },
        )
    } else {
        match extract_connection_property(connection, "Ref") {
            Some(alias) => Some(InfoBaseTarget { alias, is_file: false, direct_file_path: None }),
            None => None,
        }
    }
}

/// The infobase with a name, in what remains of the lines of a launcher list. `selected` tells
/// whether the lines belong to the section with that name. The first `Connect` entry decides.
pub open spec fn launched_among(lines: Seq<Seq<char>>, name: Seq<char>, selected: bool) -> Option<InfoBaseTargetView>
    decreases lines.len(),
{
    if lines.len() == 0 {
        None
    } else {
        let line = text::trim(lines[0]);
        match section_name(line) {
            Some(section) => launched_among(
                lines.skip(1),
                name,
                text::same_ignoring_case(section, name),
            ),
            None => match text::split_first(line, '=') {
                Some((key, connection)) if selected && text::same_ignoring_case(
                    text::trim(key),
                    "Connect"@,
                ) => connected(connection),
                _ => launched_among(lines.skip(1), name, selected),
            },
        }
    }
}

/// The infobase with a name in a launcher list.
pub open spec fn launched(ibases: Seq<char>, name: Seq<char>) -> Option<InfoBaseTargetView> {
    launched_among(text::pieces(ibases, '\n'), name, false)
}

/// The infobase with a name in the list of the launcher.
pub fn launcher_info_base(ibases: &str, info_base_name: &str) -> (r: Option<InfoBaseTarget>)
    ensures
        r.deep_view() == launched(ibases@, info_base_name@),
{
    let lines = split(ibases, '\n');
    let ghost all = lines.deep_view();
    assert(all.skip(0) =~= all);
    let mut selected = false;
    let mut i: usize = 0;
    while i < lines.len()
        invariant
            i <= lines@.len(),
            all == lines.deep_view(),
            all == text::pieces(ibases@, '\n'),
            launched_among(all, info_base_name@, false) == launched_among(
                all.skip(i as int),
                info_base_name@,
                selected,
            ),
        decreases lines@.len() - i,
    {
        assert(all.skip(i as int)[0] == lines@[i as int]@);
        assert(all.skip(i as int).skip(1) =~= all.skip(i + 1));
        let line = trimmed(lines[i].as_str());
        match section(line.as_str()) {
            Some(name) => {
                selected = equals_ignoring_case(name.as_str(), info_base_name);
            },
            None => {
                if selected {
                    match split_once(line.as_str(), '=') {
                        Some((key, connection)) => {
                            let key = trimmed(key.as_str());
                            if equals_ignoring_case(key.as_str(), "Connect") {
                                return connection_target(connection.as_str());
                            }
                        },
                        None => {},
                    }
                }
            },
        }
        i = i + 1;
    }
    assert(all.skip(i as int).len() == 0);
    None
}

/// The first launcher list that knows an infobase decides.
pub open spec fn launched_in(lists: Seq<Seq<char>>, name: Seq<char>) -> Option<InfoBaseTargetView>
    decreases lists.len(),
{
    if lists.len() == 0 {
        None
    } else {
        match launched(lists[0], name) {
            Some(target) => Some(target),
            None => launched_in(lists.skip(1), name),
        }
    }
}

fn find_launched(lists: &Vec<String>, name: &str) -> (r: Option<InfoBaseTarget>)
    ensures
        r.deep_view() == launched_in(lists.deep_view(), name@),
{
    let ghost all = lists.deep_view();
    assert(all.skip(0) =~= all);
    let mut i: usize = 0;
    while i < lists.len()
        invariant
            i <= lists@.len(),
            all == lists.deep_view(),
            launched_in(all, name@) == launched_in(all.skip(i as int), name@),
        decreases lists@.len() - i,
    {
        assert(all.skip(i as int)[0] == lists@[i as int]@);
        assert(all.skip(i as int).skip(1) =~= all.skip(i + 1));
        match launcher_info_base(lists[i].as_str(), name) {
            Some(target) => {
                return Some(target);
            },
            None => {},
        }
        i = i + 1;
    }
    assert(all.skip(i as int).len() == 0);
    None
}

/// The path that an infobase may have as a file infobase: the one in its connection string, or
/// else its whole text.
pub open spec fn file_candidate(info_base: Seq<char>) -> Seq<char> {
    match connection_property(info_base, "File"@) {
        Some(path) => path,
        None => text::trim(info_base),
    }
}

/// The path at which to look for a file infobase.
pub fn file_infobase_candidate(info_base: &str) -> (r: String)
    ensures
        r@ == file_candidate(info_base@),
{
    match extract_connection_property(info_base, "File") {
        Some(path) => path,
        None => trimmed(info_base),
    }
}

/// The path of a file infobase that is named directly: `is_directory` tells whether there is a
/// directory under the path at which to look.
pub open spec fn direct_path(info_base: Seq<char>, is_directory: bool) -> Option<Seq<char>> {
    if is_directory {
        Some(file_candidate(info_base))
    } else {
        None
    }
}

/// The directory of a file infobase that is named by its path.
pub fn direct_file_infobase_path(info_base: &str, is_directory: bool) -> (r: Option<String>)
    ensures
        r.deep_view() == direct_path(info_base@, is_directory),
{
    if is_directory {
        Some(file_infobase_candidate(info_base))
    } else {
        None
    }
}

/// The infobase that the arguments name.
pub open spec fn named_info_base(arguments: ConnectionArgumentsView) -> Result<Seq<char>, Seq<char>> {
    match arguments.info_base {
        Some(info_base) => Ok(info_base),
        None => match arguments.info_base_alias {
            Some(alias) => Ok(alias),
            None => Err("launch/attach requires infoBase or infoBaseAlias"@),
        },
    }
}

/// The name or path of the infobase that is to be debugged.
pub fn info_base_name(arguments: &ConnectionArguments) -> (r: Result<String, String>)
    ensures
        text::outcome(r) == named_info_base(arguments.deep_view()),
{
    match &arguments.info_base {
        Some(info_base) => Ok(copy(info_base.as_str())),
        None => match &arguments.info_base_alias {
            Some(alias) => Ok(copy(alias.as_str())),
            None => Err(copy("launch/attach requires infoBase or infoBaseAlias")),
        },
    }
}

/// The infobase of a session. A path in the arguments comes first, then the launcher lists. A file
/// infobase has a fixed alias; for others a non-empty alias in the arguments comes first, then the
/// launcher's, then the name itself.
pub open spec fn target_of(arguments: ConnectionArgumentsView, is_directory: bool, lists: Seq<Seq<char>>) -> Result<InfoBaseTargetView, Seq<char>> {
    match named_info_base(arguments) {
        Err(message) => Err(message),
        Ok(info_base) => {
            let direct = direct_path(info_base, is_directory);
            let launched = if direct is None {
                launched_in(lists, info_base)
            } else {
                None
            };
            let is_file = direct is Some || (launched matches Some(target) && target.is_file);
            Ok(
                InfoBaseTargetView {
                    alias: if is_file {
                        FILE_INFOBASE_ALIAS@
                    } else if arguments.info_base_alias is Some && arguments.info_base_alias->0.len()
                        > 0 {
                        arguments.info_base_alias->0
                    } else {
                        match launched {
                            Some(target) => target.alias,
                            None => info_base,
                        }
                    },
                    is_file,
                    direct_file_path: direct,
                },
            )
        },
    }
}

/// The infobase that is to be debugged, and how it is reached.
pub fn info_base_target(arguments: &ConnectionArguments, is_directory: bool, launcher_lists: &Vec<String>) -> (r: Result<
    InfoBaseTarget,
    String,
>)
    ensures
        text::outcome(r) == target_of(
            arguments.deep_view(),
            is_directory,
            launcher_lists.deep_view(),
        ),
{
    let info_base = match info_base_name(arguments) {
        Ok(info_base) => info_base,
        Err(message) => {
            return Err(message);
        },
    };
    let direct = direct_file_infobase_path(info_base.as_str(), is_directory);
    let launched = if direct.is_none() {
        find_launched(launcher_lists, info_base.as_str())
    } else {
        None
    };
    let is_file = direct.is_some() || match &launched {
        Some(target) => target.is_file,
        None => false,
    };
    let alias = if is_file {
        copy(FILE_INFOBASE_ALIAS)
    } else {
        let given = match &arguments.info_base_alias {
            Some(alias) => if alias.as_str().is_empty() {
                None
            } else {
                Some(copy(alias.as_str()))
            },
            None => None,
        };
        match given {
            Some(alias) => alias,
            None => match launched {
                Some(target) => target.alias,
                None => info_base,
            },
        }
    };
    Ok(InfoBaseTarget { alias, is_file, direct_file_path: direct })
}

/// Where the launcher keeps its lists of infobases: below `APPDATA` on Windows, below `HOME` in
/// the Linux and the macOS place elsewhere.
pub open spec fn launcher_lists(windows: bool, base: Option<Seq<char>>, separator: char) -> Seq<Seq<char>> {
    match base {
        None => Seq::empty(),
        Some(base) => if windows {
            seq![launcher_list(base, separator)]
        } else {
            seq![
                launcher_list(metadata::joined_path(base, separator, ".1cv8"@), separator),
                launcher_list(
                    metadata::joined_path(
                        metadata::joined_path(base, separator, "Library"@),
                        separator,
                        "Application Support"@,
                    ),
                    separator,
                ),
            ]
        },
    }
}

pub open spec fn launcher_list(base: Seq<char>, separator: char) -> Seq<char> {
    metadata::joined_path(
        metadata::joined_path(
            metadata::joined_path(base, separator, "1C"@),
            separator,
            "1CEStart"@,
        ),
        separator,
        "ibases.v8i"@,
    )
}

fn ibases_path(base: &str, separator: char) -> (r: String)
    ensures
        r@ == launcher_list(base@, separator),
{
    let path = join_path(base, separator, "1C");
    let path = join_path(path.as_str(), separator, "1CEStart");
    join_path(path.as_str(), separator, "ibases.v8i")
}

/// The paths of the launcher's lists; `base` is `APPDATA` on Windows and `HOME` elsewhere.
pub fn ibases_paths(windows: bool, base: Option<&str>, separator: char) -> (r: Vec<String>)
    ensures
        r.deep_view() == launcher_lists(windows, base.deep_view(), separator),
{
    let mut out: Vec<String> = Vec::new();
    match base {
        None => {},
        Some(base) => {
            if windows {
                out.push(ibases_path(base, separator));
            } else {
                let linux = join_path(base, separator, ".1cv8");
                let library = join_path(base, separator, "Library");
                let macos = join_path(library.as_str(), separator, "Application Support");
                out.push(ibases_path(linux.as_str(), separator));
                out.push(ibases_path(macos.as_str(), separator));
            }
        },
    }
    assert(out.deep_view() =~= launcher_lists(windows, base.deep_view(), separator));
    out
}

/// Where latencies are recorded: nowhere unless asked for, then in the given file, or else in a
/// file below the base configuration.
pub open spec fn trace_path(arguments: ConnectionArgumentsView, separator: char) -> Option<Seq<char>> {
    if arguments.trace != Some(true) {
        None
    } else {
        match arguments.trace_file {
            Some(path) => Some(path),
            None => match arguments.root_project {
                Some(root) => Some(
                    metadata::joined_path(
                        metadata::joined_path(root, separator, ".vscode"@),
                        separator,
                        "onec-debug-latency.jsonl"@,
                    ),
                ),
                None => None,
            },
        }
    }
}

/// Where the trace is written, if it is asked for.
pub fn trace_file_path(arguments: &ConnectionArguments, separator: char) -> (r: Option<String>)
    ensures
        r.deep_view() == trace_path(arguments.deep_view(), separator),
{
    match arguments.trace {
        Some(true) => match &arguments.trace_file {
            Some(path) => Some(copy(path.as_str())),
            None => match &arguments.root_project {
                Some(root) => {
                    let directory = join_path(root.as_str(), separator, ".vscode");
                    Some(join_path(directory.as_str(), separator, "onec-debug-latency.jsonl"))
                },
                None => None,
            },
        },
        _ => None,
    }
}

/// A file infobase has the fixed alias, whatever alias the arguments give; a path in the arguments
/// makes a file infobase, without a look at the launcher's lists.
pub proof fn file_infobase_has_the_fixed_alias(arguments: ConnectionArgumentsView, is_directory: bool, lists: Seq<Seq<char>>)
    requires
        target_of(arguments, is_directory, lists) is Ok,
    ensures
        target_of(arguments, is_directory, lists)->Ok_0.is_file ==> target_of(
            arguments,
            is_directory,
            lists,
        )->Ok_0.alias == FILE_INFOBASE_ALIAS@,
        is_directory ==> target_of(arguments, is_directory, lists)->Ok_0.is_file && target_of(
            arguments,
            is_directory,
            lists,
        ) == target_of(arguments, is_directory, Seq::empty()),
{
}

/// An alias in the arguments comes before the name, except for a file infobase.
pub proof fn given_alias_comes_first(arguments: ConnectionArgumentsView, is_directory: bool, lists: Seq<Seq<char>>)
    requires
        target_of(arguments, is_directory, lists) is Ok,
        !target_of(arguments, is_directory, lists)->Ok_0.is_file,
        arguments.info_base_alias is Some,
        arguments.info_base_alias->0.len() > 0,
    ensures
        target_of(arguments, is_directory, lists)->Ok_0.alias == arguments.info_base_alias->0,
{
}

/// Nothing is recorded unless the arguments ask for it.
pub proof fn trace_is_written_on_request_only(arguments: ConnectionArgumentsView, separator: char)
    requires
        arguments.trace != Some(true),
    ensures
        trace_path(arguments, separator) is None,
{
}

} // verus!
