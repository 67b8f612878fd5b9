//! The 1C platform: finding it, and starting its programs.

use crate::info_base::{ConnectionArguments, ConnectionArgumentsView, InfoBaseTarget, InfoBaseTargetView};
use crate::metadata;
use crate::metadata::join_path;
use crate::number;
use crate::number::{decimal_u64, parse_integer};
use crate::text;
use crate::text::{chars_of, copy, equals_ignoring_case, rsplit_once, same, split, text_between, trimmed, utf16_text, utf8_text};
use vstd::prelude::*;

verus! {

pub open spec fn port_number(port: int) -> Result<u16, Seq<char>> {
    if port == 0 {
        Err("1C debug server notification contains port 0"@)
    } else {
        Ok(port as u16)
    }
}

/// The port in a notification of the debug server: what stands behind its last colon.
pub open spec fn port_in(notification: Seq<char>) -> Result<u16, Seq<char>> {
    match text::split_last(text::trim(notification), ':') {
        None => Err("1C debug server notification does not contain a port"@),
        Some((_, port)) => match number::parsed(port, 0, u16::MAX as int) {
            None => Err("1C debug server notification contains an invalid port"@),
            Some(port) => port_number(port),
        },
    }
}

/// The port that a debug server reports in its notification.
pub fn debug_server_port_from_notification(notification: &str) -> (r: Result<u16, String>)
    ensures
        text::outcome(r) == port_in(notification@),
{
    let notification = trimmed(notification);
    match rsplit_once(notification.as_str(), ':') {
        None => Err(copy("1C debug server notification does not contain a port")),
        Some((_, port)) => match parse_integer(port.as_str(), 0, u16::MAX as u64) {
            None => Err(copy("1C debug server notification contains an invalid port")),
            Some(port) => if port == 0 {
                Err(copy("1C debug server notification contains port 0"))
            } else {
                Ok(port as u16)
            },
        },
    }
}

/// The code unit that two bytes stand for.
pub open spec fn code_unit(first: u8, second: u8, little_endian: bool) -> u16 {
    if little_endian {
        (first + second * 256) as u16
    } else {
        (first * 256 + second) as u16
    }
}

pub open spec fn code_units(bytes: Seq<u8>, little_endian: bool) -> Seq<u16> {
    Seq::new(
        bytes.len() / 2,
        |i: int| code_unit(bytes[2 * i], bytes[2 * i + 1], little_endian),
    )
}

/// The text of a notification in UTF-16.
pub open spec fn utf16_notification(bytes: Seq<u8>, little_endian: bool) -> Result<Seq<char>, Seq<char>> {
    if bytes.len() % 2 != 0 {
        Err("1C debug server notification contains incomplete UTF-16 data"@)
    } else {
        match text::utf16_decoded(code_units(bytes, little_endian)) {
            Some(decoded) => Ok(decoded),
            None => Err("1C debug server notification is not valid UTF-16"@),
        }
    }
}

/// The text of a notification in UTF-16.
pub fn decode_utf16_notification(notification: &[u8], little_endian: bool) -> (r: Result<String, String>)
    ensures
        text::outcome(r) == utf16_notification(notification@, little_endian),
{
    let n: usize = notification.len();
    if n % 2 != 0 {
        return Err(copy("1C debug server notification contains incomplete UTF-16 data"));
    }
    let ghost all = code_units(notification@, little_endian);
    let mut units: Vec<u16> = Vec::new();
    let mut i: usize = 0;
    while i < n / 2
        invariant
            i <= n / 2,
            n == notification@.len(),
            n % 2 == 0,
            all == code_units(notification@, little_endian),
            units@ == all.take(i as int),
        decreases n / 2 - i,
    {
        let first = notification[2 * i] as u16;
        let second = notification[2 * i + 1] as u16;
        let unit: u16 = if little_endian {
            first + second * 256
        } else {
            first * 256 + second
        };
        units.push(unit);
        assert(units@ =~= all.take(i + 1));
        i = i + 1;
    }
    assert(all.take(i as int) =~= all);
    match utf16_text(units.as_slice()) {
        Some(decoded) => Ok(decoded),
        None => Err(copy("1C debug server notification is not valid UTF-16")),
    }
}

/// The text of a notification: UTF-16 behind a byte order mark, UTF-8 else.
pub open spec fn notification_text(bytes: Seq<u8>) -> Result<Seq<char>, Seq<char>> {
    if bytes.len() >= 2 && bytes[0] == 0xff && bytes[1] == 0xfe {
        utf16_notification(bytes.skip(2), true)
    } else if bytes.len() >= 2 && bytes[0] == 0xfe && bytes[1] == 0xff {
        utf16_notification(bytes.skip(2), false)
    } else {
        match text::utf8_decoded(bytes) {
            Some(decoded) => Ok(decoded),
            None => Err("1C debug server notification is not valid UTF-8"@),
        }
    }
}

/// The port in the bytes of a notification.
pub open spec fn port_in_bytes(bytes: Seq<u8>) -> Result<u16, Seq<char>> {
    match notification_text(bytes) {
        Ok(notification) => port_in(notification),
        Err(message) => Err(message),
    }
}

fn behind_mark(bytes: &[u8]) -> (r: Vec<u8>)
    requires
        bytes@.len() >= 2,
    ensures
        r@ == bytes@.skip(2),
{
    let mut out: Vec<u8> = Vec::new();
    let mut i: usize = 2;
    while i < bytes.len()
        invariant
            2 <= i <= bytes@.len(),
            out@ == bytes@.subrange(2, i as int),
        decreases bytes@.len() - i,
    {
        out.push(bytes[i]);
        i = i + 1;
    }
    out
}

/// The debug server writes its notification as UTF-16 with a byte order mark on macOS, while Linux
/// builds commonly use UTF-8. Both forms are decoded before the port is taken out.
pub fn debug_server_port_from_notification_bytes(notification: &[u8]) -> (r: Result<u16, String>)
    ensures
        text::outcome(r) == port_in_bytes(notification@),
{
    let n: usize = notification.len();
    let decoded = if n >= 2 && notification[0] == 0xff && notification[1] == 0xfe {
        let rest = behind_mark(notification);
        decode_utf16_notification(rest.as_slice(), true)
    } else if n >= 2 && notification[0] == 0xfe && notification[1] == 0xff {
        let rest = behind_mark(notification);
        decode_utf16_notification(rest.as_slice(), false)
    } else {
        match utf8_text(notification) {
            Some(decoded) => Ok(decoded),
            None => Err(copy("1C debug server notification is not valid UTF-8")),
        }
    };
    match decoded {
        Ok(decoded) => debug_server_port_from_notification(decoded.as_str()),
        Err(message) => Err(message),
    }
}

/// What was found where the debug server writes its notification.
#[derive(Debug, PartialEq, Eq)]
pub enum Notification {
    /// There is no file yet.
    Missing,
    /// The bytes of the file.
    Written(Vec<u8>),
    /// The file cannot be read.
    Unreadable,
}

#[verifier::ext_equal]
pub enum NotificationView {
    Missing,
    Written(Seq<u8>),
    Unreadable,
}

impl DeepView for Notification {
    type V = NotificationView;

    open spec fn deep_view(&self) -> NotificationView {
        match self {
            Notification::Missing => NotificationView::Missing,
            Notification::Written(bytes) => NotificationView::Written(bytes@),
            Notification::Unreadable => NotificationView::Unreadable,
        }
    }
}

/// How the wait for the debug server's port goes on.
#[derive(Debug, PartialEq, Eq)]
pub enum Wait {
    /// The port is known.
    Port(u16),
    /// The wait is over without a port; the debug server has to be stopped if it still runs.
    Fail(String),
    /// Look again a little later.
    Again,
}

#[verifier::ext_equal]
pub enum WaitView {
    Port(u16),
    Fail(Seq<char>),
    Again,
}

impl DeepView for Wait {
    type V = WaitView;

    open spec fn deep_view(&self) -> WaitView {
        match self {
            Wait::Port(port) => WaitView::Port(*port),
            Wait::Fail(message) => WaitView::Fail(message@),
            Wait::Again => WaitView::Again,
        }
    }
}

/// How the wait goes on. `exited` is the state in which the debug server ended, if it has ended;
/// `overdue` tells that it has had its time. A port is taken at any time. A notification without a
/// port may still be in the making, until the time is over.
pub open spec fn waited(notification: NotificationView, exited: Option<Seq<char>>, overdue: bool) -> WaitView {
    if notification is Unreadable {
        WaitView::Fail("cannot read 1C debug server notification"@)
    } else if notification is Written && port_in_bytes(notification->Written_0) is Ok {
        WaitView::Port(port_in_bytes(notification->Written_0)->Ok_0)
    } else if notification is Written && overdue {
        WaitView::Fail(port_in_bytes(notification->Written_0)->Err_0)
    } else {
        match exited {
            Some(status) => WaitView::Fail(
                "1C debug server exited before it reported a port: "@ + status,
            ),
            None => if overdue {
                WaitView::Fail("timed out waiting for 1C debug server to report its port"@)
            } else {
                WaitView::Again
            },
        }
    }
}

/// What to do next while a started debug server has yet to report its port.
pub fn await_port(notification: &Notification, exited: Option<&str>, overdue: bool) -> (r: Wait)
    ensures
        r.deep_view() == waited(notification.deep_view(), exited.deep_view(), overdue),
{
    match notification {
        Notification::Unreadable => {
            return Wait::Fail(copy("cannot read 1C debug server notification"));
        },
        Notification::Written(bytes) => {
            match debug_server_port_from_notification_bytes(bytes.as_slice()) {
                Ok(port) => {
                    return Wait::Port(port);
                },
                Err(message) => {
                    if overdue {
                        return Wait::Fail(message);
                    }
                },
            }
        },
        Notification::Missing => {},
    }
    match exited {
        Some(status) => {
            let mut message = copy("1C debug server exited before it reported a port: ");
            message.append(status);
            Wait::Fail(message)
        },
        None => if overdue {
            Wait::Fail(copy("timed out waiting for 1C debug server to report its port"))
        } else {
            Wait::Again
        },
    }
}

/// The arguments with which a debug server is started.
pub open spec fn server_arguments(host: Seq<char>, owner: u32, notify: Seq<char>) -> Seq<Seq<char>> {
    seq![
        "--addr="@ + host,
        "--portRange=1550:1559"@,
        "--ownerPID="@ + number::decimal(owner as int),
        "--notify="@ + notify,
    ]
}

/// The arguments that start a debug server.
pub fn debug_server_arguments(host: &str, owner: u32, notify_path: &str) -> (r: Vec<String>)
    ensures
        r.deep_view() == server_arguments(host@, owner, notify_path@),
{
    let mut address = copy("--addr=");
    address.append(host);
    let process = decimal_u64(owner as u64);
    let mut owner_argument = copy("--ownerPID=");
    owner_argument.append(process.as_str());
    let mut notify = copy("--notify=");
    notify.append(notify_path);
    let out = vec![address, copy("--portRange=1550:1559"), owner_argument, notify];
    assert(out.deep_view() =~= server_arguments(host@, owner, notify_path@));
    out
}

/// The numbers of a version, where each part of the name is one.
pub open spec fn version_numbers(parts: Seq<Seq<char>>) -> Option<Seq<u32>>
    decreases parts.len(),
{
    if parts.len() == 0 {
        Some(Seq::empty())
    } else {
        match (version_numbers(parts.drop_last()), number::parsed(parts.last(), 0, u32::MAX as int)) {
            (Some(numbers), Some(n)) => Some(numbers.push(n as u32)),
            _ => None,
        }
    }
}

/// The numbers of a version like `8.3.10.1`.
pub open spec fn version(name: Seq<char>) -> Option<Seq<u32>> {
    version_numbers(text::pieces(name, '.'))
}

/// The numbers of a version directory.
pub fn version_key(name: &str) -> (r: Option<Vec<u32>>)
    ensures
        match r {
            Some(numbers) => version(name@) == Some(numbers@),
            None => version(name@) is None,
        },
{
    let parts = split(name, '.');
    let ghost all = parts.deep_view();
    let mut numbers: Vec<u32> = Vec::new();
    let mut i: usize = 0;
    assert(all.take(0).len() == 0);
    while i < parts.len()
        invariant
            i <= parts@.len(),
            all == parts.deep_view(),
            all == text::pieces(name@, '.'),
            version_numbers(all.take(i as int)) == Some(numbers@),
        decreases parts@.len() - i,
    {
        assert(all.take(i + 1).drop_last() =~= all.take(i as int));
        assert(all.take(i + 1).last() == parts@[i as int]@);
        match parse_integer(parts[i].as_str(), 0, u32::MAX as u64) {
            Some(n) => {
                numbers.push(n as u32);
            },
            None => {
                proof {
                    lemma_version_prefix(all, i + 1);
                }
                return None;
            },
        }
        i = i + 1;
    }
    assert(all.take(i as int) =~= all);
    Some(numbers)
}

proof fn lemma_version_prefix(parts: Seq<Seq<char>>, n: int)
    requires
        0 <= n <= parts.len(),
        version_numbers(parts.take(n)) is None,
    ensures
        version_numbers(parts) is None,
    decreases parts.len() - n,
{
    if n < parts.len() {
        assert(parts.take(n + 1).drop_last() =~= parts.take(n));
        lemma_version_prefix(parts, n + 1);
    } else {
        assert(parts.take(n) =~= parts);
    }
}

/// `a` and `b` agree before position `k`; there `a` ends, or has the smaller number.
pub open spec fn falls_below(a: Seq<u32>, b: Seq<u32>, k: int) -> bool {
    &&& 0 <= k <= a.len()
    &&& k < b.len()
    &&& forall|i: int| 0 <= i < k ==> a[i] == #[trigger] b[i]
    &&& k == a.len() || a[k] < b[k]
}

/// The order of versions: the first different number decides.
pub open spec fn older(a: Seq<u32>, b: Seq<u32>) -> bool {
    exists|k: int| falls_below(a, b, k)
}

fn is_older(a: &Vec<u32>, b: &Vec<u32>) -> (r: bool)
    ensures
        r == older(a@, b@),
{
    let mut i: usize = 0;
    while i < a.len() && i < b.len() && a[i] == b[i]
        invariant
            i <= a@.len(),
            i <= b@.len(),
            forall|k: int| 0 <= k < i ==> a@[k] == b@[k],
        decreases a@.len() - i,
    {
        i = i + 1;
    }
    if i < b.len() && (i == a.len() || a[i] < b[i]) {
        assert(falls_below(a@, b@, i as int));
        true
    } else {
        assert forall|k: int| !falls_below(a@, b@, k) by {
            if falls_below(a@, b@, k) {
                if k < i {
                    assert(a@[k] == b@[k]);
                } else if k > i {
                    assert(a@[i as int] == b@[i as int]);
                }
            }
        }
        false
    }
}

/// The latest of the versions among names; of equal ones the first.
pub open spec fn latest(names: Seq<Seq<char>>) -> Option<Seq<char>>
    decreases names.len(),
{
    if names.len() == 0 {
        None
    } else {
        let before = latest(names.drop_last());
        match version(names.last()) {
            None => before,
            Some(numbers) => match before {
                Some(name) if !older(version(name)->0, numbers) => Some(name),
                _ => Some(names.last()),
            },
        }
    }
}

fn find_latest(names: &Vec<String>) -> (r: Option<String>)
    ensures
        r.deep_view() == latest(names.deep_view()),
{
    let ghost all = names.deep_view();
    let mut best: Option<(String, Vec<u32>)> = None;
    let mut i: usize = 0;
    assert(all.take(0).len() == 0);
    while i < names.len()
        invariant
            i <= names@.len(),
            all == names.deep_view(),
            match best {
                Some((name, numbers)) => latest(all.take(i as int)) == Some(name@) && version(name@)
                    == Some(numbers@),
                None => latest(all.take(i as int)) is None,
            },
        decreases names@.len() - i,
    {
        assert(all.take(i + 1).drop_last() =~= all.take(i as int));
        assert(all.take(i + 1).last() == names@[i as int]@);
        match version_key(names[i].as_str()) {
            None => {},
            Some(numbers) => {
                let newer = match &best {
                    Some((_, known)) => is_older(known, &numbers),
                    None => true,
                };
                if newer {
                    best = Some((copy(names[i].as_str()), numbers));
                }
            },
        }
        i = i + 1;
    }
    assert(all.take(i as int) =~= all);
    match best {
        Some((name, _)) => Some(name),
        None => None,
    }
}

/// Whether a version is among names.
pub open spec fn has_version(names: Seq<Seq<char>>, wanted: Seq<char>) -> bool {
    version(wanted) is Some && exists|i: int| 0 <= i < names.len() && #[trigger] names[i] == wanted
}

fn is_version_among(names: &Vec<String>, wanted: &str) -> (r: bool)
    ensures
        r == has_version(names.deep_view(), wanted@),
{
    if version_key(wanted).is_none() {
        return false;
    }
    let mut i: usize = 0;
    while i < names.len()
        invariant
            i <= names@.len(),
            version(wanted@) is Some,
            forall|k: int| 0 <= k < i ==> #[trigger] names.deep_view()[k] != wanted@,
        decreases names@.len() - i,
    {
        if same(names[i].as_str(), wanted) {
            assert(names.deep_view()[i as int] == wanted@);
            return true;
        }
        i = i + 1;
    }
    false
}

/// What is in the directory that holds the 1C platform.
#[derive(Debug, PartialEq, Eq)]
pub struct PlatformListing {
    /// Whether the client program stands in the directory itself.
    pub has_client: bool,
    /// The names of the directories in it, or nothing where they cannot be listed.
    pub directories: Option<Vec<String>>,
}

#[verifier::ext_equal]
pub struct PlatformListingView {
    pub has_client: bool,
    pub directories: Option<Seq<Seq<char>>>,
}

impl DeepView for PlatformListing {
    type V = PlatformListingView;

    open spec fn deep_view(&self) -> PlatformListingView {
        PlatformListingView {
            has_client: self.has_client,
            directories: self.directories.deep_view(),
        }
    }
}

/// The version that is asked for, unless it is the latest.
pub open spec fn wanted_version(requested: Option<Seq<char>>) -> Option<Seq<char>> {
    match requested {
        Some(version) if !text::same_ignoring_case(version, "latest"@) => Some(version),
        _ => None,
    }
}

/// The name of the directory for a version: the one that is asked for, or else the latest.
pub open spec fn version_directory(names: Seq<Seq<char>>, requested: Option<Seq<char>>) -> Result<Seq<char>, Seq<char>> {
    match wanted_version(requested) {
        Some(wanted) => if has_version(names, wanted) {
            Ok(wanted)
        } else {
            Err("1C platform version "@ + wanted + " was not found"@)
        },
        None => match latest(names) {
            Some(name) => Ok(name),
            None => Err("platformPath contains no 1C version directories"@),
        },
    }
}

/// The directory with the programs of the platform.
pub open spec fn programs(path: Seq<char>, listing: PlatformListingView, requested: Option<Seq<char>>, windows: bool, separator: char) -> Result<Seq<char>, Seq<char>> {
    if listing.has_client {
        Ok(path)
    } else {
        match listing.directories {
            None => Err("cannot read platformPath "@ + path),
            Some(names) => match version_directory(names, requested) {
                Err(message) => Err(message),
                Ok(name) => {
                    let directory = metadata::joined_path(path, separator, name);
                    Ok(
                        if windows {
                            metadata::joined_path(directory, separator, "bin"@)
                        } else {
                            directory
                        },
                    )
                },
            },
        }
    }
}

/// The directory of the programs of the latest platform.
pub fn platform_bin(platform_path: &str, listing: &PlatformListing, requested_version: Option<&str>, windows: bool, separator: char) -> (r: Result<
    String,
    String,
>)
    ensures
        text::outcome(r) == programs(
            platform_path@,
            listing.deep_view(),
            requested_version.deep_view(),
            windows,
            separator,
        ),
{
    if listing.has_client {
        return Ok(copy(platform_path));
    }
    let names = match &listing.directories {
        Some(names) => names,
        None => {
            let mut message = copy("cannot read platformPath ");
            message.append(platform_path);
            return Err(message);
        },
    };
    let wanted = match requested_version {
        Some(version) => if equals_ignoring_case(version, "latest") {
            None
        } else {
            Some(version)
        },
        None => None,
    };
    let name = match wanted {
        Some(wanted) => {
            if !is_version_among(names, wanted) {
                let mut message = copy("1C platform version ");
                message.append(wanted);
                message.append(" was not found");
                return Err(message);
            }
            copy(wanted)
        },
        None => match find_latest(names) {
            Some(name) => name,
            None => {
                return Err(copy("platformPath contains no 1C version directories"));
            },
        },
    };
    let directory = join_path(platform_path, separator, name.as_str());
    if windows {
        Ok(join_path(directory.as_str(), separator, "bin"))
    } else {
        Ok(directory)
    }
}

/// The name of a program's file.
pub open spec fn program_file(name: Seq<char>, windows: bool) -> Seq<char> {
    if windows {
        name + ".exe"@
    } else {
        name
    }
}

/// The path of a program of the platform.
pub open spec fn program_path(directory: Seq<char>, name: Seq<char>, windows: bool, separator: char) -> Seq<char> {
    metadata::joined_path(directory, separator, program_file(name, windows))
}

/// The path of a program of the platform.
pub fn program(directory: &str, name: &str, windows: bool, separator: char) -> (r: String)
    ensures
        r@ == program_path(directory@, name@, windows, separator),
{
    let mut file = copy(name);
    if windows {
        file.append(".exe");
    }
    join_path(directory, separator, file.as_str())
}

/// The address of the debug server without the path of its API.
pub open spec fn debugger_address(endpoint: Seq<char>) -> Seq<char> {
    let suffix = "/e1crdbg"@;
    if suffix.len() <= endpoint.len() && endpoint.skip(endpoint.len() - suffix.len()) == suffix {
        endpoint.take(endpoint.len() - suffix.len())
    } else {
        endpoint
    }
}

/// The address that a client is given for the debugger.
pub fn debugger_url(endpoint: &str) -> (r: String)
    ensures
        r@ == debugger_address(endpoint@),
{
    let chars = chars_of(endpoint);
    let suffix = chars_of("/e1crdbg");
    if suffix.len() <= chars.len() {
        let at: usize = chars.len() - suffix.len();
        let ending = text_between(&chars, at, chars.len());
        assert(ending@ =~= endpoint@.skip(at as int));
        if same(ending.as_str(), "/e1crdbg") {
            let beginning = text_between(&chars, 0, at);
            assert(beginning@ =~= endpoint@.take(at as int));
            return beginning;
        }
    }
    copy(endpoint)
}

pub open spec fn debug_switches(address: Seq<char>) -> Seq<Seq<char>> {
    seq![
        "/TCOMP"@,
        "-SDC"@,
        "/DisableStartupMessages"@,
        "/DisplayPerformance"@,
        "/TechnicalSpecialistMode"@,
        "/DEBUG"@,
        "-http"@,
        "-attach"@,
        "/DEBUGGERURL"@,
        address,
        "/O"@,
        "Normal"@,
    ]
}

/// The arguments with which the client is started: a file infobase by its path, another one by its
/// name in the launcher.
pub open spec fn client_switches(arguments: ConnectionArgumentsView, target: InfoBaseTargetView, endpoint: Seq<char>) -> Result<Seq<Seq<char>>, Seq<char>> {
    let switches = debug_switches(debugger_address(endpoint));
    match target.direct_file_path {
        Some(path) => Ok(seq!["ENTERPRISE"@, "/F"@, path] + switches),
        None => match arguments.info_base {
            Some(info_base) => Ok(seq!["ENTERPRISE"@, "/IBName"@, info_base] + switches),
            None => Err("launch requires infoBase"@),
        },
    }
}

/// The arguments that start a client with the debugger.
pub fn client_arguments(arguments: &ConnectionArguments, target: &InfoBaseTarget, endpoint: &str) -> (r: Result<
    Vec<String>,
    String,
>)
    ensures
        text::outcome(r) == client_switches(
            arguments.deep_view(),
            target.deep_view(),
            endpoint@,
        ),
{
    let mut out: Vec<String> = Vec::new();
    out.push(copy("ENTERPRISE"));
    match &target.direct_file_path {
        Some(path) => {
            out.push(copy("/F"));
            out.push(copy(path.as_str()));
        },
        None => match &arguments.info_base {
            Some(info_base) => {
                out.push(copy("/IBName"));
                out.push(copy(info_base.as_str()));
            },
            None => {
                return Err(copy("launch requires infoBase"));
            },
        },
    }
    let address = debugger_url(endpoint);
    out.push(copy("/TCOMP"));
    out.push(copy("-SDC"));
    out.push(copy("/DisableStartupMessages"));
    out.push(copy("/DisplayPerformance"));
    out.push(copy("/TechnicalSpecialistMode"));
    out.push(copy("/DEBUG"));
    out.push(copy("-http"));
    out.push(copy("-attach"));
    out.push(copy("/DEBUGGERURL"));
    out.push(address);
    out.push(copy("/O"));
    out.push(copy("Normal"));
    let ghost expected = client_switches(arguments.deep_view(), target.deep_view(), endpoint@)->Ok_0;
    assert(out.deep_view() =~= expected);
    Ok(out)
}

/// A version is the latest only if no version among the names is later.
pub proof fn latest_is_not_older(names: Seq<Seq<char>>, i: int)
    requires
        0 <= i < names.len(),
        version(names[i]) is Some,
    ensures
        latest(names) matches Some(name) && version(name) is Some && !older(
            version(name)->0,
            version(names[i])->0,
        ),
    decreases names.len(),
{
    let front = names.drop_last();
    lemma_latest_is_version(names);
    lemma_latest_is_version(front);
    if i < front.len() {
        latest_is_not_older(front, i);
        assert(front[i] == names[i]);
        let best = latest(front)->0;
        if version(names.last()) is Some && older(version(best)->0, version(names.last())->0) {
            let a = version(best)->0;
            let b = version(names.last())->0;
            let c = version(names[i])->0;
            if older(b, c) {
                lemma_older_transitive(a, b, c);
            }
        }
    } else {
        lemma_older_irreflexive(version(names[i])->0);
    }
}

proof fn lemma_latest_is_version(names: Seq<Seq<char>>)
    ensures
        latest(names) matches Some(name) ==> version(name) is Some,
    decreases names.len(),
{
    if names.len() > 0 {
        lemma_latest_is_version(names.drop_last());
    }
}

proof fn lemma_older_irreflexive(a: Seq<u32>)
    ensures
        !older(a, a),
{
}

proof fn lemma_older_transitive(a: Seq<u32>, b: Seq<u32>, c: Seq<u32>)
    requires
        older(a, b),
        older(b, c),
    ensures
        older(a, c),
{
    let i = choose|k: int| falls_below(a, b, k);
    let j = choose|k: int| falls_below(b, c, k);
    let k = if i < j {
        i
    } else {
        j
    };
    assert(falls_below(a, c, k));
}

proof fn lemma_older_total(a: Seq<u32>, b: Seq<u32>, k: int)
    requires
        0 <= k <= a.len(),
        k <= b.len(),
        forall|i: int| 0 <= i < k ==> a[i] == #[trigger] b[i],
    ensures
        a == b || older(a, b) || older(b, a),
    decreases a.len() - k,
{
    if k == a.len() && k == b.len() {
        assert(a =~= b);
    } else if k < b.len() && (k == a.len() || a[k] < b[k]) {
        assert(falls_below(a, b, k));
    } else if k < a.len() && (k == b.len() || b[k] < a[k]) {
        assert(falls_below(b, a, k));
    } else {
        lemma_older_total(a, b, k + 1);
    }
}

/// The latest version stands behind older ones only: of names for the same version the first one is
/// taken.
pub proof fn latest_is_the_first_one(names: Seq<Seq<char>>) -> (i: int)
    requires
        latest(names) is Some,
    ensures
        0 <= i < names.len(),
        names[i] == latest(names)->0,
        version(names[i]) is Some,
        forall|j: int|
            0 <= j < i && version(#[trigger] names[j]) is Some ==> older(
                version(names[j])->0,
                version(names[i])->0,
            ),
    decreases names.len(),
{
    let front = names.drop_last();
    let before = latest(front);
    let last = names.len() - 1;
    lemma_latest_is_version(names);
    if before is Some && latest(names) == before && (version(names.last()) is None || !older(
        version(before->0)->0,
        version(names.last())->0,
    )) {
        let i = latest_is_the_first_one(front);
        assert forall|j: int| 0 <= j < i && version(#[trigger] names[j]) is Some implies older(
            version(names[j])->0,
            version(names[i])->0,
        ) by {
            assert(front[j] == names[j]);
        }
        i
    } else {
        assert forall|j: int| 0 <= j < last && version(#[trigger] names[j]) is Some implies older(
            version(names[j])->0,
            version(names[last])->0,
        ) by {
            assert(front[j] == names[j]);
            latest_is_not_older(front, j);
            let a = version(names[j])->0;
            let b = version(before->0)->0;
            lemma_older_total(a, b, 0);
            if older(a, b) {
                lemma_older_transitive(a, b, version(names[last])->0);
            }
        }
        last
    }
}

/// A port that a notification names is not zero.
pub proof fn notified_port_is_not_zero(bytes: Seq<u8>)
    requires
        port_in_bytes(bytes) is Ok,
    ensures
        port_in_bytes(bytes)->Ok_0 > 0,
{
}

} // verus!
