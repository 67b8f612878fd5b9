//! The contents of a source directory, as they were found.

use crate::list::{append, none, push};
use crate::text;
use crate::text::{copy, rsplit_once, same};
use vstd::prelude::*;

verus! {

/// What stands under a path of a source directory.
#[derive(Debug, PartialEq, Eq)]
pub enum SourceContent {
    /// A directory with its entries.
    Directory(Vec<SourceNode>),
    /// A directory whose entries cannot be listed, with the reason, and those of them that are
    /// found by their names all the same.
    Closed(String, Vec<SourceNode>),
    /// A file with its text.
    File(String),
    /// A file whose text cannot be read.
    Unreadable,
    /// An entry that cannot be inspected, with the reason.
    Broken(String),
    /// Nothing of these.
    Other,
}

/// An entry of a source directory.
#[derive(Debug, PartialEq, Eq)]
pub struct SourceNode {
    pub name: String,
    /// Whether the name is given exactly; a name that is not Unicode can only be given nearly.
    pub name_is_exact: bool,
    pub path: String,
    /// The path without links, where it can be resolved.
    pub canonical: Option<String>,
    /// Whether the entry is a link to its content.
    pub is_link: bool,
    /// Whether the directory lists the entry under this name. An entry that it does not list can be
    /// found by the name all the same: the file system may take another spelling for it, or not
    /// let the directory be listed.
    pub is_listed: bool,
    pub content: SourceContent,
}

#[verifier::ext_equal]
pub enum SourceContentView {
    Directory(Seq<SourceNodeView>),
    Closed(Seq<char>, Seq<SourceNodeView>),
    File(Seq<char>),
    Unreadable,
    Broken(Seq<char>),
    Other,
}

#[verifier::ext_equal]
pub struct SourceNodeView {
    pub name: Seq<char>,
    pub name_is_exact: bool,
    pub path: Seq<char>,
    pub canonical: Option<Seq<char>>,
    pub is_link: bool,
    pub is_listed: bool,
    pub content: SourceContentView,
}

pub open spec fn content_view(content: SourceContent) -> SourceContentView
    decreases content,
{
    match content {
        SourceContent::Directory(entries) => SourceContentView::Directory(
            Seq::new(
                entries@.len(),
                |i: int|
                    if 0 <= i < entries@.len() {
                        node_view(entries@[i])
                    } else {
                        arbitrary()
                    },
            ),
        ),
        SourceContent::Closed(message, entries) => SourceContentView::Closed(
            message@,
            Seq::new(
                entries@.len(),
                |i: int|
                    if 0 <= i < entries@.len() {
                        node_view(entries@[i])
                    } else {
                        arbitrary()
                    },
            ),
        ),
        SourceContent::File(text) => SourceContentView::File(text@),
        SourceContent::Unreadable => SourceContentView::Unreadable,
        SourceContent::Broken(message) => SourceContentView::Broken(message@),
        SourceContent::Other => SourceContentView::Other,
    }
}

pub open spec fn node_view(node: SourceNode) -> SourceNodeView
    decreases node,
{
    SourceNodeView {
        name: node.name@,
        name_is_exact: node.name_is_exact,
        path: node.path@,
        canonical: node.canonical.deep_view(),
        is_link: node.is_link,
        is_listed: node.is_listed,
        content: content_view(node.content),
    }
}

impl DeepView for SourceNode {
    type V = SourceNodeView;

    open spec fn deep_view(&self) -> SourceNodeView {
        node_view(*self)
    }
}

impl DeepView for SourceContent {
    type V = SourceContentView;

    open spec fn deep_view(&self) -> SourceContentView {
        content_view(*self)
    }
}

/// The entries of a directory, in the view of its content.
pub proof fn lemma_entries(content: SourceContent)
    requires
        content is Directory,
    ensures
        content.deep_view() == SourceContentView::Directory(content->Directory_0.deep_view()),
{
    assert(content.deep_view()->Directory_0 =~= content->Directory_0.deep_view());
}

/// The entries that are found in a directory that cannot be listed, in the view of its content.
proof fn lemma_closed_entries(content: SourceContent)
    requires
        content is Closed,
    ensures
        content.deep_view() == SourceContentView::Closed(
            content->Closed_0@,
            content->Closed_1.deep_view(),
        ),
{
    assert(content.deep_view()->Closed_1 =~= content->Closed_1.deep_view());
}

/// Whether there is a directory under the path, behind a link or not.
pub open spec fn is_dir(node: SourceNodeView) -> bool {
    node.content is Directory || node.content is Closed
}

/// Whether there is a file under the path, behind a link or not.
pub open spec fn is_file(node: SourceNodeView) -> bool {
    node.content is File || node.content is Unreadable
}

/// Whether the entry is itself a directory.
pub open spec fn is_own_dir(node: SourceNodeView) -> bool {
    is_dir(node) && !node.is_link
}

/// Whether the entry is itself a file.
pub open spec fn is_own_file(node: SourceNodeView) -> bool {
    is_file(node) && !node.is_link
}

impl SourceNode {
    pub fn is_dir(&self) -> (r: bool)
        ensures
            r == is_dir(self.deep_view()),
    {
        matches!(self.content, SourceContent::Directory(_) | SourceContent::Closed(_, _))
    }

    pub fn is_file(&self) -> (r: bool)
        ensures
            r == is_file(self.deep_view()),
    {
        matches!(self.content, SourceContent::File(_) | SourceContent::Unreadable)
    }

    /// The entry that is found in a directory under a name.
    pub fn child(&self, name: &str) -> (r: Option<&SourceNode>)
        ensures
            match r {
                Some(node) => child(self.deep_view(), name@) == Some(node.deep_view()),
                None => child(self.deep_view(), name@) is None,
            },
    {
        match &self.content {
            SourceContent::Directory(entries) => {
                proof {
                    lemma_entries(self.content);
                }
                find_named(entries, name)
            },
            SourceContent::Closed(_, entries) => {
                proof {
                    lemma_closed_entries(self.content);
                }
                find_named(entries, name)
            },
            _ => None,
        }
    }
}

/// The first entry with a name.
pub open spec fn named(entries: Seq<SourceNodeView>, name: Seq<char>) -> Option<SourceNodeView>
    decreases entries.len(),
{
    if entries.len() == 0 {
        None
    } else if entries[0].name == name {
        Some(entries[0])
    } else {
        named(entries.skip(1), name)
    }
}

/// The entry that is found in a directory under a name.
pub open spec fn child(node: SourceNodeView, name: Seq<char>) -> Option<SourceNodeView> {
    match node.content {
        SourceContentView::Directory(entries) => named(entries, name),
        SourceContentView::Closed(_, entries) => named(entries, name),
        _ => None,
    }
}

/// The first entry with a name.
pub fn find_named<'a>(entries: &'a Vec<SourceNode>, name: &str) -> (r: Option<&'a SourceNode>)
    ensures
        match r {
            Some(node) => named(entries.deep_view(), name@) == Some(node.deep_view()),
            None => named(entries.deep_view(), name@) is None,
        },
{
    let ghost all = entries.deep_view();
    assert(all.skip(0) =~= all);
    let mut i: usize = 0;
    while i < entries.len()
        invariant
            i <= entries@.len(),
            all == entries.deep_view(),
            named(all, name@) == named(all.skip(i as int), name@),
        decreases entries@.len() - i,
    {
        assert(all.skip(i as int)[0] == entries@[i as int].deep_view());
        assert(all.skip(i as int).skip(1) =~= all.skip(i + 1));
        if same(entries[i].name.as_str(), name) {
            return Some(&entries[i]);
        }
        i = i + 1;
    }
    assert(all.skip(i as int).len() == 0);
    None
}

/// What stands behind the last dot of a file name, where the dot is not its beginning.
pub open spec fn extension(name: Seq<char>) -> Option<Seq<char>> {
    match text::split_last(name, '.') {
        Some((stem, extension)) if stem.len() > 0 => Some(extension),
        _ => None,
    }
}

/// A file name without its extension.
pub open spec fn stem(name: Seq<char>) -> Seq<char> {
    match text::split_last(name, '.') {
        Some((stem, _)) if stem.len() > 0 => stem,
        _ => name,
    }
}

/// Whether a file name has an extension.
pub fn has_extension(name: &str, wanted: &str) -> (r: bool)
    ensures
        r == (extension(name@) == Some(wanted@)),
{
    match rsplit_once(name, '.') {
        Some((stem, extension)) => !stem.as_str().is_empty() && same(extension.as_str(), wanted),
        None => false,
    }
}

/// A file name without its extension.
pub fn file_stem(name: &str) -> (r: String)
    ensures
        r@ == stem(name@),
{
    match rsplit_once(name, '.') {
        Some((stem, _)) => if stem.as_str().is_empty() {
            copy(name)
        } else {
            stem
        },
        None => copy(name),
    }
}

/// The deepest place below a root of an XML file that describes an object: that of a form.
pub const XML_DEPTH: usize = 4;

/// Whether a file describes objects, so that its text is read. The root of a source is at depth 0.
pub open spec fn describes_objects(name: Seq<char>, depth: int) -> bool {
    extension(name) == Some("mdo"@) || (extension(name) == Some("xml"@) && depth <= XML_DEPTH)
}

/// Whether the text of a file with a name is read at a depth below the root of a source.
pub fn is_text_read(name: &str, depth: usize) -> (r: bool)
    ensures
        r == describes_objects(name@, depth as int),
{
    has_extension(name, "mdo") || (has_extension(name, "xml") && depth <= XML_DEPTH)
}

/// The names that are looked for in directories, whatever these list.
pub open spec fn fixed_names() -> Seq<Seq<char>> {
    seq![
        "Ext"@,
        "Forms"@,
        "DT-INF"@,
        "PROJECT.PMF"@,
        "src"@,
        "Configuration"@,
        "Module.bsl"@,
    ]
}

/// The names of the directories that belong to the listed files `*.xml`.
pub open spec fn described_names(listed: Seq<Seq<char>>) -> Seq<Seq<char>>
    decreases listed.len(),
{
    if listed.len() == 0 {
        Seq::empty()
    } else {
        let before = described_names(listed.drop_last());
        if extension(listed.last()) == Some("xml"@) {
            before.push(stem(listed.last()))
        } else {
            before
        }
    }
}

/// The names that are not listed.
pub open spec fn unlisted(names: Seq<Seq<char>>, listed: Seq<Seq<char>>) -> Seq<Seq<char>>
    decreases names.len(),
{
    if names.len() == 0 {
        Seq::empty()
    } else {
        let before = unlisted(names.drop_last(), listed);
        if listed.contains(names.last()) {
            before
        } else {
            before.push(names.last())
        }
    }
}

/// The names that a directory does not list, and for which the file system has to be asked.
pub open spec fn sought_names(listed: Seq<Seq<char>>) -> Seq<Seq<char>> {
    unlisted(fixed_names() + described_names(listed), listed)
}

fn is_among(names: &Vec<String>, name: &str) -> (r: bool)
    ensures
        r == names.deep_view().contains(name@),
{
    let ghost all = names.deep_view();
    let mut i: usize = 0;
    while i < names.len()
        invariant
            i <= names@.len(),
            all == names.deep_view(),
            forall|k: int| 0 <= k < i ==> #[trigger] all[k] != name@,
        decreases names@.len() - i,
    {
        assert(all[i as int] == names@[i as int]@);
        if same(names[i].as_str(), name) {
            return true;
        }
        i = i + 1;
    }
    false
}

fn list_fixed_names() -> (r: Vec<String>)
    ensures
        r.deep_view() == fixed_names(),
{
    let names = vec![
        copy("Ext"),
        copy("Forms"),
        copy("DT-INF"),
        copy("PROJECT.PMF"),
        copy("src"),
        copy("Configuration"),
        copy("Module.bsl"),
    ];
    assert(names.deep_view() =~= fixed_names());
    names
}

fn list_described_names(listed: &Vec<String>) -> (r: Vec<String>)
    ensures
        r.deep_view() == described_names(listed.deep_view()),
{
    let ghost all = listed.deep_view();
    let mut names: Vec<String> = none();
    let mut i: usize = 0;
    while i < listed.len()
        invariant
            i <= listed@.len(),
            all == listed.deep_view(),
            names.deep_view() == described_names(all.take(i as int)),
        decreases listed@.len() - i,
    {
        assert(all.take(i + 1).drop_last() =~= all.take(i as int));
        assert(all.take(i + 1).last() == listed@[i as int]@);
        if has_extension(listed[i].as_str(), "xml") {
            push(&mut names, file_stem(listed[i].as_str()));
        }
        i = i + 1;
    }
    assert(all.take(i as int) =~= all);
    names
}

/// The names to ask the file system for in a directory that lists other names. Where a directory
/// cannot be listed, it lists none.
pub fn names_to_find(listed: &Vec<String>) -> (r: Vec<String>)
    ensures
        r.deep_view() == sought_names(listed.deep_view()),
{
    let mut names = list_fixed_names();
    append(&mut names, list_described_names(listed));
    let ghost all = names.deep_view();
    let mut found: Vec<String> = none();
    let mut i: usize = 0;
    while i < names.len()
        invariant
            i <= names@.len(),
            all == names.deep_view(),
            found.deep_view() == unlisted(all.take(i as int), listed.deep_view()),
        decreases names@.len() - i,
    {
        assert(all.take(i + 1).drop_last() =~= all.take(i as int));
        assert(all.take(i + 1).last() == names@[i as int]@);
        if !is_among(listed, names[i].as_str()) {
            push(&mut found, copy(names[i].as_str()));
        }
        i = i + 1;
    }
    assert(all.take(i as int) =~= all);
    found
}

/// The listed files `*.bsl` below directory entries, in the order of the entries, directories in place.
pub open spec fn bsl_below(entries: Seq<SourceNodeView>) -> Result<Seq<SourceNodeView>, Seq<char>>
    decreases entries,
{
    if entries.len() == 0 {
        Ok(Seq::empty())
    } else if !entries[0].is_listed {
        bsl_below(entries.skip(1))
    } else {
        let first = entries[0];
        let here = match first.content {
            SourceContentView::Broken(message) => Err(message),
            SourceContentView::Directory(below) if !first.is_link => bsl_below(below),
            SourceContentView::Closed(message, _) if !first.is_link => Err(message),
            _ => if extension(first.name) == Some("bsl"@) {
                Ok(seq![first])
            } else {
                Ok(Seq::empty())
            },
        };
        match here {
            Err(message) => Err(message),
            Ok(files) => match bsl_below(entries.skip(1)) {
                Err(message) => Err(message),
                Ok(more) => Ok(files + more),
            },
        }
    }
}

/// The files `*.bsl` of a directory; where there is no directory, there are none.
pub open spec fn bsl_of(node: SourceNodeView) -> Result<Seq<SourceNodeView>, Seq<char>> {
    match node.content {
        SourceContentView::Directory(entries) => bsl_below(entries),
        SourceContentView::Closed(message, _) => Err(message),
        _ => Ok(Seq::empty()),
    }
}

fn bsl_entries<'a>(entries: &'a Vec<SourceNode>) -> (r: Result<Vec<&'a SourceNode>, String>)
    ensures
        match r {
            Ok(files) => bsl_below(entries.deep_view()) == Ok::<Seq<SourceNodeView>, Seq<char>>(
                files.deep_view(),
            ),
            Err(message) => bsl_below(entries.deep_view()) == Err::<Seq<SourceNodeView>, Seq<char>>(
                message@,
            ),
        },
    decreases entries,
{
    let ghost all = entries.deep_view();
    let mut files: Vec<&'a SourceNode> = Vec::new();
    let mut i: usize = 0;
    assert(all.skip(0) =~= all);
    assert(files.deep_view() =~= Seq::<SourceNodeView>::empty());
    proof {
        if let Ok(found) = bsl_below(all) {
            assert(Seq::<SourceNodeView>::empty() + found =~= found);
        }
    }
    while i < entries.len()
        invariant
            i <= entries@.len(),
            all == entries.deep_view(),
            bsl_below(all) == match bsl_below(all.skip(i as int)) {
                Ok(more) => Ok::<Seq<SourceNodeView>, Seq<char>>(files.deep_view() + more),
                Err(message) => Err(message),
            },
        decreases entries@.len() - i,
    {
        let ghost rest = all.skip(i as int);
        let ghost before = files.deep_view();
        let entry = &entries[i];
        assert(rest[0] == entry.deep_view());
        assert(rest.skip(1) =~= all.skip(i + 1));
        if !entry.is_listed {
            i = i + 1;
            continue;
        }
        match &entry.content {
            SourceContent::Broken(message) => {
                return Err(copy(message.as_str()));
            },
            SourceContent::Directory(below) => {
                proof {
                    lemma_entries(entry.content);
                }
                if !entry.is_link {
                    assert(decreases_to!(entries => entries@[i as int]));
                    match bsl_entries(below) {
                        Err(message) => {
                            return Err(message);
                        },
                        Ok(found) => {
                            append_nodes(&mut files, &found);
                            proof {
                                if let Ok(more) = bsl_below(rest.skip(1)) {
                                    assert(before + (found.deep_view() + more) =~= files.deep_view() + more);
                                }
                            }
                        },
                    }
                } else if has_extension(entry.name.as_str(), "bsl") {
                    push(&mut files, entry);
                    proof {
                        if let Ok(more) = bsl_below(rest.skip(1)) {
                            assert(before + (seq![rest[0]] + more) =~= files.deep_view() + more);
                        }
                    }
                } else {
                    proof {
                        if let Ok(more) = bsl_below(rest.skip(1)) {
                            assert(Seq::<SourceNodeView>::empty() + more =~= more);
                        }
                    }
                }
            },
            SourceContent::Closed(message, _) if !entry.is_link => {
                return Err(copy(message.as_str()));
            },
            _ => {
                if has_extension(entry.name.as_str(), "bsl") {
                    push(&mut files, entry);
                    proof {
                        if let Ok(more) = bsl_below(rest.skip(1)) {
                            assert(before + (seq![rest[0]] + more) =~= files.deep_view() + more);
                        }
                    }
                } else {
                    proof {
                        if let Ok(more) = bsl_below(rest.skip(1)) {
                            assert(Seq::<SourceNodeView>::empty() + more =~= more);
                        }
                    }
                }
            },
        }
        i = i + 1;
    }
    assert(all.skip(i as int).len() == 0);
    assert(files.deep_view() + Seq::<SourceNodeView>::empty() =~= files.deep_view());
    Ok(files)
}

fn append_nodes<'a>(files: &mut Vec<&'a SourceNode>, more: &Vec<&'a SourceNode>)
    ensures
        final(files).deep_view() == old(files).deep_view() + more.deep_view(),
{
    let ghost before = files.deep_view();
    let mut i: usize = 0;
    assert(before + more.deep_view().take(0) =~= before);
    while i < more.len()
        invariant
            i <= more@.len(),
            files.deep_view() == before + more.deep_view().take(i as int),
        decreases more@.len() - i,
    {
        push(files, more[i]);
        assert(files.deep_view() =~= before + more.deep_view().take(i + 1));
        i = i + 1;
    }
    assert(more.deep_view().take(i as int) =~= more.deep_view());
}

/// The files `*.bsl` in a directory and below it.
pub fn bsl_files<'a>(directory: &'a SourceNode) -> (r: Result<Vec<&'a SourceNode>, String>)
    ensures
        match r {
            Ok(files) => bsl_of(directory.deep_view()) == Ok::<Seq<SourceNodeView>, Seq<char>>(
                files.deep_view(),
            ),
            Err(message) => bsl_of(directory.deep_view()) == Err::<Seq<SourceNodeView>, Seq<char>>(
                message@,
            ),
        },
{
    match &directory.content {
        SourceContent::Directory(entries) => {
            proof {
                lemma_entries(directory.content);
            }
            bsl_entries(entries)
        },
        SourceContent::Closed(message, _) => Err(copy(message.as_str())),
        _ => {
            let files: Vec<&'a SourceNode> = Vec::new();
            assert(files.deep_view() =~= Seq::<SourceNodeView>::empty());
            Ok(files)
        },
    }
}

} // verus!
