//! Maps unpacked 1C configuration modules to the identifiers used by the debug server.

use crate::debug_types::duplicate_optional;
use crate::list::{append, none, one, push};
use crate::metadata_xml;
use crate::metadata_xml::{configuration_name, edt_configuration_name, edt_form_uuid, edt_uuid, metadata_uuid};
use crate::ordered;
use crate::ordered::OrderedMap;
use crate::source_tree;
use crate::source_tree::{
    bsl_files, file_stem, find_named, has_extension, SourceContent, SourceContentView, SourceNode,
    SourceNodeView,
};
use crate::text;
use crate::text::{chars_of, copy, is_blank, quoted, same};
use vstd::prelude::*;

verus! {

pub const COMMON_MODULE_PROPERTY_ID: &'static str = "d5963243-262e-4398-b4d7-fb16d06484f6";

pub const MODULE_PROPERTY_ID: &'static str = "32e087ab-1491-49b6-aba7-43571b41ac2b";

pub const COMMAND_MODULE_PROPERTY_ID: &'static str = "078a6af8-d22c-4248-9c33-7e90075a3d2c";

pub const OBJECT_MODULE_PROPERTY_ID: &'static str = "a637f77f-3840-441d-a1c3-699c8c5cb7e0";

pub const MANAGER_MODULE_PROPERTY_ID: &'static str = "d1b64a2c-8078-4982-8190-8f81aefda192";

pub const RECORD_SET_MODULE_PROPERTY_ID: &'static str = "9f36fd70-4bf4-47f6-b235-935f73aab43f";

pub const VALUE_MANAGER_MODULE_PROPERTY_ID: &'static str = "3e58c91f-9aaa-4f42-8999-4baf33907b75";

pub const MANAGED_APPLICATION_MODULE_PROPERTY_ID: &'static str = "d22e852a-cf8a-4f77-8ccb-3548e7792bea";

pub const SESSION_MODULE_PROPERTY_ID: &'static str = "9b7bbbae-9771-46f2-9e4d-2489e0ffc702";

pub const EXTERNAL_CONNECTION_MODULE_PROPERTY_ID: &'static str = "a4a9c1e2-1e54-4c7f-af06-4ca341198fac";

pub const ORDINARY_APPLICATION_MODULE_PROPERTY_ID: &'static str = "a78d9ce3-4e0c-48d5-9863-ae7342eedf94";

/// The identity of a configuration module.
#[derive(Debug, PartialEq, Eq)]
pub struct ModuleInfo {
    pub extension_name: String,
    pub object_id: String,
    pub property_id: String,
}

#[verifier::ext_equal]
pub struct ModuleInfoView {
    pub extension_name: Seq<char>,
    pub object_id: Seq<char>,
    pub property_id: Seq<char>,
}

impl DeepView for ModuleInfo {
    type V = ModuleInfoView;

    open spec fn deep_view(&self) -> ModuleInfoView {
        ModuleInfoView {
            extension_name: self.extension_name@,
            object_id: self.object_id@,
            property_id: self.property_id@,
        }
    }
}

impl ModuleInfo {
    pub fn duplicate(&self) -> (r: ModuleInfo)
        ensures
            r.deep_view() == self.deep_view(),
    {
        ModuleInfo {
            extension_name: copy(self.extension_name.as_str()),
            object_id: copy(self.object_id.as_str()),
            property_id: copy(self.property_id.as_str()),
        }
    }
}

/// The kind of module that a file name stands for in an object of a kind.
pub open spec fn property_of(metadata_type: Seq<char>, module_name: Seq<char>) -> Option<Seq<char>> {
    if metadata_type == "CommonModules"@ || metadata_type == "WebServices"@ || metadata_type
        == "HTTPServices"@ {
        Some(COMMON_MODULE_PROPERTY_ID@)
    } else if module_name == "Module"@ {
        Some(MODULE_PROPERTY_ID@)
    } else if module_name == "CommandModule"@ {
        Some(COMMAND_MODULE_PROPERTY_ID@)
    } else if module_name == "ObjectModule"@ {
        Some(OBJECT_MODULE_PROPERTY_ID@)
    } else if module_name == "ManagerModule"@ {
        Some(MANAGER_MODULE_PROPERTY_ID@)
    } else if module_name == "RecordSetModule"@ {
        Some(RECORD_SET_MODULE_PROPERTY_ID@)
    } else if module_name == "ValueManagerModule"@ {
        Some(VALUE_MANAGER_MODULE_PROPERTY_ID@)
    } else if module_name == "ManagedApplicationModule"@ {
        Some(MANAGED_APPLICATION_MODULE_PROPERTY_ID@)
    } else if module_name == "SessionModule"@ {
        Some(SESSION_MODULE_PROPERTY_ID@)
    } else if module_name == "ExternalConnectionModule"@ {
        Some(EXTERNAL_CONNECTION_MODULE_PROPERTY_ID@)
    } else if module_name == "OrdinaryApplicationModule"@ {
        Some(ORDINARY_APPLICATION_MODULE_PROPERTY_ID@)
    } else {
        None
    }
}

pub open spec fn unknown_module(metadata_type: Seq<char>, module_name: Seq<char>) -> Seq<char> {
    "unknown 1C module type "@ + metadata_type + "\\"@ + module_name
}

/// The identifier of the kind of module that a file holds.
pub fn property_id(metadata_type: &str, module_name: &str) -> (r: Result<&'static str, String>)
    ensures
        match r {
            Ok(id) => property_of(metadata_type@, module_name@) == Some(id@),
            Err(message) => property_of(metadata_type@, module_name@) is None && message@
                == unknown_module(metadata_type@, module_name@),
        },
{
    if same(metadata_type, "CommonModules") || same(metadata_type, "WebServices") || same(
        metadata_type,
        "HTTPServices",
    ) {
        Ok(COMMON_MODULE_PROPERTY_ID)
    } else if same(module_name, "Module") {
        Ok(MODULE_PROPERTY_ID)
    } else if same(module_name, "CommandModule") {
        Ok(COMMAND_MODULE_PROPERTY_ID)
    } else if same(module_name, "ObjectModule") {
        Ok(OBJECT_MODULE_PROPERTY_ID)
    } else if same(module_name, "ManagerModule") {
        Ok(MANAGER_MODULE_PROPERTY_ID)
    } else if same(module_name, "RecordSetModule") {
        Ok(RECORD_SET_MODULE_PROPERTY_ID)
    } else if same(module_name, "ValueManagerModule") {
        Ok(VALUE_MANAGER_MODULE_PROPERTY_ID)
    } else if same(module_name, "ManagedApplicationModule") {
        Ok(MANAGED_APPLICATION_MODULE_PROPERTY_ID)
    } else if same(module_name, "SessionModule") {
        Ok(SESSION_MODULE_PROPERTY_ID)
    } else if same(module_name, "ExternalConnectionModule") {
        Ok(EXTERNAL_CONNECTION_MODULE_PROPERTY_ID)
    } else if same(module_name, "OrdinaryApplicationModule") {
        Ok(ORDINARY_APPLICATION_MODULE_PROPERTY_ID)
    } else {
        let mut message = copy("unknown 1C module type ");
        message.append(metadata_type);
        message.append("\\");
        message.append(module_name);
        Err(message)
    }
}

/// A module that was found: its file, and its identity within the configuration.
#[derive(Debug, PartialEq, Eq)]
pub struct Claim {
    pub path: String,
    pub canonical: Option<String>,
    pub object_id: String,
    pub property_id: String,
}

#[verifier::ext_equal]
pub struct ClaimView {
    pub path: Seq<char>,
    pub canonical: Option<Seq<char>>,
    pub object_id: Seq<char>,
    pub property_id: Seq<char>,
}

/// What the search through a configuration comes upon: a module, or a reason to give up.
#[derive(Debug, PartialEq, Eq)]
pub enum Finding {
    Module(Claim),
    Failure(String),
}

#[verifier::ext_equal]
pub enum FindingView {
    Module(ClaimView),
    Failure(Seq<char>),
}

impl DeepView for Claim {
    type V = ClaimView;

    open spec fn deep_view(&self) -> ClaimView {
        ClaimView {
            path: self.path@,
            canonical: self.canonical.deep_view(),
            object_id: self.object_id@,
            property_id: self.property_id@,
        }
    }
}

impl DeepView for Finding {
    type V = FindingView;

    open spec fn deep_view(&self) -> FindingView {
        match self {
            Finding::Module(claim) => FindingView::Module(claim.deep_view()),
            Finding::Failure(message) => FindingView::Failure(message@),
        }
    }
}

pub open spec fn failure(message: Seq<char>) -> Seq<FindingView> {
    seq![FindingView::Failure(message)]
}

fn fail(message: String) -> (r: Vec<Finding>)
    ensures
        r.deep_view() == failure(message@),
{
    one(Finding::Failure(message))
}

/// A file as the module of an object.
pub open spec fn claim_of(file: SourceNodeView, object_id: Seq<char>, property_id: Seq<char>) -> FindingView {
    FindingView::Module(
        ClaimView { path: file.path, canonical: file.canonical, object_id, property_id },
    )
}

fn claim(file: &SourceNode, object_id: &str, property_id: &str) -> (r: Finding)
    ensures
        r.deep_view() == claim_of(file.deep_view(), object_id@, property_id@),
{
    Finding::Module(
        Claim {
            path: copy(file.path.as_str()),
            canonical: duplicate_optional(&file.canonical),
            object_id: copy(object_id),
            property_id: copy(property_id),
        },
    )
}

/// A file of an object: its name tells which module of the object it holds.
pub open spec fn module_finding(file: SourceNodeView, object_id: Seq<char>, metadata_type: Seq<char>) -> FindingView {
    if !file.name_is_exact {
        FindingView::Failure("module file has no UTF-8 stem"@)
    } else {
        let name = source_tree::stem(file.name);
        match property_of(metadata_type, name) {
            Some(property_id) => claim_of(file, object_id, property_id),
            None => FindingView::Failure(unknown_module(metadata_type, name)),
        }
    }
}

fn find_module(file: &SourceNode, object_id: &str, metadata_type: &str) -> (r: Finding)
    ensures
        r.deep_view() == module_finding(file.deep_view(), object_id@, metadata_type@),
{
    if !file.name_is_exact {
        return Finding::Failure(copy("module file has no UTF-8 stem"));
    }
    let name = file_stem(file.name.as_str());
    match property_id(metadata_type, name.as_str()) {
        Ok(property_id) => claim(file, object_id, property_id),
        Err(message) => Finding::Failure(message),
    }
}

pub open spec fn module_findings(files: Seq<SourceNodeView>, object_id: Seq<char>, metadata_type: Seq<char>) -> Seq<FindingView> {
    files.map_values(|file: SourceNodeView| module_finding(file, object_id, metadata_type))
}

fn find_modules(files: &Vec<&SourceNode>, object_id: &str, metadata_type: &str) -> (r: Vec<Finding>)
    ensures
        r.deep_view() == module_findings(files.deep_view(), object_id@, metadata_type@),
{
    let ghost all = module_findings(files.deep_view(), object_id@, metadata_type@);
    let mut out: Vec<Finding> = none();
    let mut i: usize = 0;
    assert(all.take(0) =~= Seq::<FindingView>::empty());
    while i < files.len()
        invariant
            i <= files@.len(),
            all == module_findings(files.deep_view(), object_id@, metadata_type@),
            out.deep_view() == all.take(i as int),
        decreases files@.len() - i,
    {
        let finding = find_module(files[i], object_id, metadata_type);
        push(&mut out, finding);
        assert(files.deep_view()[i as int] == files@[i as int].deep_view());
        assert(out.deep_view() =~= all.take(i + 1));
        i = i + 1;
    }
    assert(all.take(i as int) =~= all);
    out
}

/// The modules in a directory and below it.
pub open spec fn directory_findings(directory: SourceNodeView, object_id: Seq<char>, metadata_type: Seq<char>) -> Seq<FindingView> {
    match source_tree::bsl_of(directory) {
        Ok(files) => module_findings(files, object_id, metadata_type),
        Err(message) => failure(message),
    }
}

fn find_in_directory(directory: &SourceNode, object_id: &str, metadata_type: &str) -> (r: Vec<Finding>)
    ensures
        r.deep_view() == directory_findings(directory.deep_view(), object_id@, metadata_type@),
{
    match bsl_files(directory) {
        Ok(files) => find_modules(&files, object_id, metadata_type),
        Err(message) => fail(message),
    }
}

/// The identifier of the object that a metadata file describes.
pub open spec fn object_id_of(file: SourceNodeView) -> Result<Seq<char>, Seq<char>> {
    match file.content {
        SourceContentView::File(document) => metadata_xml::object_uuid(document, file.path),
        _ => Err("cannot read metadata XML "@ + file.path),
    }
}

fn object_id(file: &SourceNode) -> (r: Result<String, String>)
    ensures
        text::outcome(r) == object_id_of(file.deep_view()),
{
    match &file.content {
        SourceContent::File(document) => metadata_uuid(document.as_str(), file.path.as_str()),
        _ => {
            let mut message = copy("cannot read metadata XML ");
            message.append(file.path.as_str());
            Err(message)
        },
    }
}

/// The modules in the directory `name` of an object, where there is one.
pub open spec fn part_findings(object: SourceNodeView, name: Seq<char>, object_id: Seq<char>, metadata_type: Seq<char>) -> Seq<FindingView> {
    match source_tree::child(object, name) {
        Some(part) if source_tree::is_dir(part) => directory_findings(part, object_id, metadata_type),
        _ => Seq::empty(),
    }
}

fn find_in_part(object: &SourceNode, name: &str, object_id: &str, metadata_type: &str) -> (r: Vec<Finding>)
    ensures
        r.deep_view() == part_findings(object.deep_view(), name@, object_id@, metadata_type@),
{
    match object.child(name) {
        Some(part) => if part.is_dir() {
            find_in_directory(part, object_id, metadata_type)
        } else {
            none()
        },
        None => none(),
    }
}

/// The modules of a form: `siblings` are the entries beside the file that describes it.
pub open spec fn form_findings(file: SourceNodeView, siblings: Seq<SourceNodeView>, metadata_type: Seq<char>) -> Seq<FindingView> {
    match object_id_of(file) {
        Err(message) => failure(message),
        Ok(form_id) => match source_tree::named(siblings, source_tree::stem(file.name)) {
            Some(form) if source_tree::is_dir(form) => directory_findings(
                form,
                form_id,
                metadata_type,
            ),
            _ => Seq::empty(),
        },
    }
}

fn find_in_form(file: &SourceNode, siblings: &Vec<SourceNode>, metadata_type: &str) -> (r: Vec<Finding>)
    ensures
        r.deep_view() == form_findings(file.deep_view(), siblings.deep_view(), metadata_type@),
{
    let form_id = match object_id(file) {
        Ok(form_id) => form_id,
        Err(message) => {
            return fail(message);
        },
    };
    let name = file_stem(file.name.as_str());
    match find_named(siblings, name.as_str()) {
        Some(form) => if form.is_dir() {
            find_in_directory(form, form_id.as_str(), metadata_type)
        } else {
            none()
        },
        None => none(),
    }
}

/// The modules of the forms among what remains of a directory `siblings`.
pub open spec fn forms_findings(entries: Seq<SourceNodeView>, siblings: Seq<SourceNodeView>, metadata_type: Seq<char>) -> Seq<FindingView>
    decreases entries.len(),
{
    if entries.len() == 0 {
        Seq::empty()
    } else if !entries[0].is_listed {
        forms_findings(entries.skip(1), siblings, metadata_type)
    } else {
        let first = entries[0];
        let here = match first.content {
            SourceContentView::Broken(message) => failure(message),
            _ => if source_tree::extension(first.name) == Some("xml"@) {
                form_findings(first, siblings, metadata_type)
            } else {
                Seq::empty()
            },
        };
        here + forms_findings(entries.skip(1), siblings, metadata_type)
    }
}

fn find_in_forms(entries: &Vec<SourceNode>, metadata_type: &str) -> (r: Vec<Finding>)
    ensures
        r.deep_view() == forms_findings(entries.deep_view(), entries.deep_view(), metadata_type@),
{
    let ghost all = entries.deep_view();
    let mut out: Vec<Finding> = none();
    let mut i: usize = 0;
    assert(all.skip(0) =~= all);
    assert(out.deep_view() + forms_findings(all, all, metadata_type@) =~= forms_findings(
        all,
        all,
        metadata_type@,
    ));
    while i < entries.len()
        invariant
            i <= entries@.len(),
            all == entries.deep_view(),
            forms_findings(all, all, metadata_type@) == out.deep_view() + forms_findings(
                all.skip(i as int),
                all,
                metadata_type@,
            ),
        decreases entries@.len() - i,
    {
        let ghost rest = all.skip(i as int);
        let ghost before = out.deep_view();
        let entry = &entries[i];
        assert(rest[0] == entry.deep_view());
        assert(rest.skip(1) =~= all.skip(i + 1));
        if !entry.is_listed {
            i = i + 1;
            continue;
        }
        let here = match &entry.content {
            SourceContent::Broken(message) => fail(copy(message.as_str())),
            _ => if has_extension(entry.name.as_str(), "xml") {
                find_in_form(entry, entries, metadata_type)
            } else {
                none()
            },
        };
        let ghost found = here.deep_view();
        append(&mut out, here);
        assert(before + (found + forms_findings(rest.skip(1), all, metadata_type@))
            =~= out.deep_view() + forms_findings(rest.skip(1), all, metadata_type@));
        i = i + 1;
    }
    assert(all.skip(i as int).len() == 0);
    assert(out.deep_view() + Seq::<FindingView>::empty() =~= out.deep_view());
    out
}

/// The modules of the forms of an object.
pub open spec fn object_forms_findings(object: SourceNodeView, metadata_type: Seq<char>) -> Seq<FindingView> {
    match source_tree::child(object, "Forms"@) {
        Some(forms) => match forms.content {
            SourceContentView::Directory(entries) => forms_findings(entries, entries, metadata_type),
            SourceContentView::Closed(message, _) => failure(message),
            _ => Seq::empty(),
        },
        None => Seq::empty(),
    }
}

fn find_in_object_forms(object: &SourceNode, metadata_type: &str) -> (r: Vec<Finding>)
    ensures
        r.deep_view() == object_forms_findings(object.deep_view(), metadata_type@),
{
    match object.child("Forms") {
        Some(forms) => match &forms.content {
            SourceContent::Directory(entries) => {
                proof {
                    source_tree::lemma_entries(forms.content);
                }
                find_in_forms(entries, metadata_type)
            },
            SourceContent::Closed(message, _) => fail(copy(message.as_str())),
            _ => none(),
        },
        None => none(),
    }
}

/// The modules of an object: `file` describes it, `siblings` are the entries beside that file, and
/// the directory around them is named after the kind of the object.
pub open spec fn object_findings(file: SourceNodeView, siblings: Seq<SourceNodeView>, directory: SourceNodeView) -> Seq<FindingView> {
    match object_id_of(file) {
        Err(message) => failure(message),
        Ok(object_id) => if !directory.name_is_exact {
            failure("cannot determine metadata type"@)
        } else {
            match source_tree::named(siblings, source_tree::stem(file.name)) {
                Some(object) => part_findings(object, "Ext"@, object_id, directory.name)
                    + object_forms_findings(object, directory.name),
                None => Seq::empty(),
            }
        },
    }
}

fn find_in_object(file: &SourceNode, siblings: &Vec<SourceNode>, directory: &SourceNode) -> (r: Vec<Finding>)
    ensures
        r.deep_view() == object_findings(
            file.deep_view(),
            siblings.deep_view(),
            directory.deep_view(),
        ),
{
    let object_id = match object_id(file) {
        Ok(object_id) => object_id,
        Err(message) => {
            return fail(message);
        },
    };
    if !directory.name_is_exact {
        return fail(copy("cannot determine metadata type"));
    }
    let name = file_stem(file.name.as_str());
    let metadata_type = directory.name.as_str();
    match find_named(siblings, name.as_str()) {
        Some(object) => {
            let mut out = find_in_part(object, "Ext", object_id.as_str(), metadata_type);
            append(&mut out, find_in_object_forms(object, metadata_type));
            out
        },
        None => none(),
    }
}

/// The modules of the objects among what remains of the entries of `directory`.
pub open spec fn objects_findings(entries: Seq<SourceNodeView>, siblings: Seq<SourceNodeView>, directory: SourceNodeView) -> Seq<FindingView>
    decreases entries.len(),
{
    if entries.len() == 0 {
        Seq::empty()
    } else if !entries[0].is_listed {
        objects_findings(entries.skip(1), siblings, directory)
    } else {
        let first = entries[0];
        let here = match first.content {
            SourceContentView::Broken(message) => failure(message),
            _ => if source_tree::extension(first.name) == Some("xml"@) {
                object_findings(first, siblings, directory)
            } else {
                Seq::empty()
            },
        };
        here + objects_findings(entries.skip(1), siblings, directory)
    }
}

fn find_in_objects(entries: &Vec<SourceNode>, directory: &SourceNode) -> (r: Vec<Finding>)
    ensures
        r.deep_view() == objects_findings(
            entries.deep_view(),
            entries.deep_view(),
            directory.deep_view(),
        ),
{
    let ghost all = entries.deep_view();
    let ghost parent = directory.deep_view();
    let mut out: Vec<Finding> = none();
    let mut i: usize = 0;
    assert(all.skip(0) =~= all);
    assert(out.deep_view() + objects_findings(all, all, parent) =~= objects_findings(all, all, parent));
    while i < entries.len()
        invariant
            i <= entries@.len(),
            all == entries.deep_view(),
            parent == directory.deep_view(),
            objects_findings(all, all, parent) == out.deep_view() + objects_findings(
                all.skip(i as int),
                all,
                parent,
            ),
        decreases entries@.len() - i,
    {
        let ghost rest = all.skip(i as int);
        let ghost before = out.deep_view();
        let entry = &entries[i];
        assert(rest[0] == entry.deep_view());
        assert(rest.skip(1) =~= all.skip(i + 1));
        if !entry.is_listed {
            i = i + 1;
            continue;
        }
        let here = match &entry.content {
            SourceContent::Broken(message) => fail(copy(message.as_str())),
            _ => if has_extension(entry.name.as_str(), "xml") {
                find_in_object(entry, entries, directory)
            } else {
                none()
            },
        };
        let ghost found = here.deep_view();
        append(&mut out, here);
        assert(before + (found + objects_findings(rest.skip(1), all, parent)) =~= out.deep_view()
            + objects_findings(rest.skip(1), all, parent));
        i = i + 1;
    }
    assert(all.skip(i as int).len() == 0);
    assert(out.deep_view() + Seq::<FindingView>::empty() =~= out.deep_view());
    out
}

/// The modules below the directories for kinds of objects, among what remains of the entries of a
/// configuration.
pub open spec fn kinds_findings(entries: Seq<SourceNodeView>) -> Seq<FindingView>
    decreases entries.len(),
{
    if entries.len() == 0 {
        Seq::empty()
    } else if !entries[0].is_listed {
        kinds_findings(entries.skip(1))
    } else {
        let first = entries[0];
        let here = match first.content {
            SourceContentView::Broken(message) => failure(message),
            SourceContentView::Directory(below) if !first.is_link && first.name != "Ext"@ => objects_findings(
                below,
                below,
                first,
            ),
            SourceContentView::Closed(message, _) if !first.is_link && first.name != "Ext"@ => failure(message),
            _ => Seq::empty(),
        };
        here + kinds_findings(entries.skip(1))
    }
}

fn find_in_kinds(entries: &Vec<SourceNode>) -> (r: Vec<Finding>)
    ensures
        r.deep_view() == kinds_findings(entries.deep_view()),
{
    let ghost all = entries.deep_view();
    let mut out: Vec<Finding> = none();
    let mut i: usize = 0;
    assert(all.skip(0) =~= all);
    assert(out.deep_view() + kinds_findings(all) =~= kinds_findings(all));
    while i < entries.len()
        invariant
            i <= entries@.len(),
            all == entries.deep_view(),
            kinds_findings(all) == out.deep_view() + kinds_findings(all.skip(i as int)),
        decreases entries@.len() - i,
    {
        let ghost rest = all.skip(i as int);
        let ghost before = out.deep_view();
        let entry = &entries[i];
        assert(rest[0] == entry.deep_view());
        assert(rest.skip(1) =~= all.skip(i + 1));
        if !entry.is_listed {
            i = i + 1;
            continue;
        }
        let is_kind = !entry.is_link && !same(entry.name.as_str(), "Ext");
        let here = match &entry.content {
            SourceContent::Broken(message) => fail(copy(message.as_str())),
            SourceContent::Directory(below) => {
                proof {
                    source_tree::lemma_entries(entry.content);
                }
                if is_kind {
                    find_in_objects(below, entry)
                } else {
                    none()
                }
            },
            SourceContent::Closed(message, _) => if is_kind {
                fail(copy(message.as_str()))
            } else {
                none()
            },
            _ => none(),
        };
        let ghost found = here.deep_view();
        append(&mut out, here);
        assert(before + (found + kinds_findings(rest.skip(1))) =~= out.deep_view() + kinds_findings(
            rest.skip(1),
        ));
        i = i + 1;
    }
    assert(all.skip(i as int).len() == 0);
    assert(out.deep_view() + Seq::<FindingView>::empty() =~= out.deep_view());
    out
}

/// A Windows path that is taken literally: it begins with `\\?\`.
pub open spec fn is_verbatim(path: Seq<char>) -> bool {
    path.len() >= 4 && path[0] == '\\' && path[1] == '\\' && path[2] == '?' && path[3] == '\\'
}

/// A Windows path of a drive alone, such as `C:`.
pub open spec fn is_bare_drive(path: Seq<char>) -> bool {
    path.len() == 2 && ('a' <= path[0] <= 'z' || 'A' <= path[0] <= 'Z') && path[1] == ':'
}

/// Whether a component can follow a path without a separator between them. Windows takes both
/// slashes as separators, but not in a verbatim path, and what follows a bare drive is in the
/// current directory of that drive.
pub open spec fn is_open_ended(base: Seq<char>, separator: char) -> bool {
    ||| base.len() == 0
    ||| base.last() == separator
    ||| separator == '\\' && !is_verbatim(base) && (base.last() == '/' || is_bare_drive(base))
}

/// A name as it stands behind a path: in a verbatim path only the backslash separates.
pub open spec fn name_behind(base: Seq<char>, separator: char, name: Seq<char>) -> Seq<char> {
    if separator == '\\' && is_verbatim(base) {
        name.map_values(
            |c: char|
                if c == '/' {
                    '\\'
                } else {
                    c
                },
        )
    } else {
        name
    }
}

/// A path with one more component, or several with slashes between them.
pub open spec fn joined_path(base: Seq<char>, separator: char, name: Seq<char>) -> Seq<char> {
    if is_open_ended(base, separator) {
        base + name_behind(base, separator, name)
    } else {
        base.push(separator) + name_behind(base, separator, name)
    }
}

fn starts_verbatim(chars: &Vec<char>) -> (r: bool)
    ensures
        r == is_verbatim(chars@),
{
    chars.len() >= 4 && chars[0] == '\\' && chars[1] == '\\' && chars[2] == '?' && chars[3] == '\\'
}

fn takes_component(chars: &Vec<char>, separator: char) -> (r: bool)
    ensures
        r == is_open_ended(chars@, separator),
{
    if chars.len() == 0 {
        return true;
    }
    let last = chars[chars.len() - 1];
    if last == separator {
        return true;
    }
    if separator != '\\' || starts_verbatim(chars) {
        return false;
    }
    last == '/' || (chars.len() == 2 && (('a' <= chars[0] && chars[0] <= 'z') || ('A' <= chars[0]
        && chars[0] <= 'Z')) && chars[1] == ':')
}

/// Adds a component to a path.
pub fn join_path(base: &str, separator: char, name: &str) -> (r: String)
    ensures
        r@ == joined_path(base@, separator, name@),
{
    let chars = chars_of(base);
    let mut out = copy(base);
    if !takes_component(&chars, separator) {
        out.push(separator);
    }
    if separator != '\\' || !starts_verbatim(&chars) {
        out.append(name);
        return out;
    }
    let names = chars_of(name);
    let ghost before = out@;
    let ghost behind = name_behind(base@, separator, name@);
    let mut i: usize = 0;
    assert(before + behind.take(0) =~= before);
    while i < names.len()
        invariant
            i <= names@.len(),
            names@ == name@,
            separator == '\\' && is_verbatim(base@),
            behind == name_behind(base@, separator, name@),
            out@ == before + behind.take(i as int),
        decreases names@.len() - i,
    {
        out.push(
            if names[i] == '/' {
                '\\'
            } else {
                names[i]
            },
        );
        assert(out@ =~= before + behind.take(i + 1));
        i = i + 1;
    }
    assert(behind.take(i as int) =~= behind);
    out
}

/// Whether a directory holds an EDT project.
pub open spec fn is_edt_project(root: SourceNodeView) -> bool {
    match source_tree::child(root, "DT-INF"@) {
        Some(directory) => match source_tree::child(directory, "PROJECT.PMF"@) {
            Some(file) => source_tree::is_file(file),
            None => false,
        },
        None => false,
    }
}

fn holds_edt_project(root: &SourceNode) -> (r: bool)
    ensures
        r == is_edt_project(root.deep_view()),
{
    match root.child("DT-INF") {
        Some(directory) => match directory.child("PROJECT.PMF") {
            Some(file) => file.is_file(),
            None => false,
        },
        None => false,
    }
}

/// The file that describes an unpacked configuration.
pub const CONFIGURATION_FILE: &'static str = "Configuration.xml";

/// The file that describes an EDT configuration, below the directory `src`.
pub const EDT_CONFIGURATION_FILE: &'static str = "Configuration/Configuration.mdo";

/// The identifier of an unpacked configuration.
pub open spec fn configuration_id_of(root: SourceNodeView, document: Result<Seq<char>, Seq<char>>, separator: char) -> Result<Seq<char>, Seq<char>> {
    let path = joined_path(root.path, separator, CONFIGURATION_FILE@);
    match document {
        Ok(document) => metadata_xml::object_uuid(document, path),
        Err(_) => Err("cannot read metadata XML "@ + path),
    }
}

fn configuration_id(root: &SourceNode, document: &Result<String, String>, separator: char) -> (r: Result<String, String>)
    ensures
        text::outcome(r) == configuration_id_of(
            root.deep_view(),
            text::outcome(*document),
            separator,
        ),
{
    let path = join_path(root.path.as_str(), separator, CONFIGURATION_FILE);
    match document {
        Ok(document) => metadata_uuid(document.as_str(), path.as_str()),
        Err(_) => {
            let mut message = copy("cannot read metadata XML ");
            message.append(path.as_str());
            Err(message)
        },
    }
}

/// The modules of an unpacked configuration: those of the configuration itself, then those of its
/// objects.
pub open spec fn configuration_findings(root: SourceNodeView, document: Result<Seq<char>, Seq<char>>, separator: char) -> Seq<FindingView> {
    match configuration_id_of(root, document, separator) {
        Err(message) => failure(message),
        Ok(configuration_id) => part_findings(root, "Ext"@, configuration_id, Seq::empty())
            + match root.content {
            SourceContentView::Directory(entries) => kinds_findings(entries),
            _ => failure("cannot read configuration directory "@ + root.path),
        },
    }
}

fn find_in_configuration(root: &SourceNode, document: &Result<String, String>, separator: char) -> (r: Vec<Finding>)
    ensures
        r.deep_view() == configuration_findings(
            root.deep_view(),
            text::outcome(*document),
            separator,
        ),
{
    let configuration_id = match configuration_id(root, document, separator) {
        Ok(configuration_id) => configuration_id,
        Err(message) => {
            return fail(message);
        },
    };
    let no_type = String::new();
    let mut out = find_in_part(root, "Ext", configuration_id.as_str(), no_type.as_str());
    let objects = match &root.content {
        SourceContent::Directory(entries) => {
            proof {
                source_tree::lemma_entries(root.content);
            }
            find_in_kinds(entries)
        },
        _ => {
            let mut message = copy("cannot read configuration directory ");
            message.append(root.path.as_str());
            fail(message)
        },
    };
    append(&mut out, objects);
    out
}

/// The identifier of the object that an EDT metadata file describes.
pub open spec fn edt_id_of(file: SourceNodeView) -> Result<Seq<char>, Seq<char>> {
    match file.content {
        SourceContentView::File(document) => metadata_xml::edt_object_uuid(document, file.path),
        _ => Err("cannot read EDT metadata file "@ + file.path),
    }
}

fn edt_id(file: &SourceNode) -> (r: Result<String, String>)
    ensures
        text::outcome(r) == edt_id_of(file.deep_view()),
{
    match &file.content {
        SourceContent::File(document) => edt_uuid(document.as_str(), file.path.as_str()),
        _ => {
            let mut message = copy("cannot read EDT metadata file ");
            message.append(file.path.as_str());
            Err(message)
        },
    }
}

/// The identifier of the form with a name that an EDT metadata file describes.
pub open spec fn edt_form_id_of(file: SourceNodeView, form: SourceNodeView) -> Result<Seq<char>, Seq<char>> {
    if !form.name_is_exact {
        Err("EDT form directory name is not UTF-8"@)
    } else {
        match file.content {
            SourceContentView::File(document) => metadata_xml::form_uuid(
                document,
                file.path,
                form.name,
            ),
            _ => Err("cannot read EDT metadata file "@ + file.path),
        }
    }
}

fn edt_form_id(file: &SourceNode, form: &SourceNode) -> (r: Result<String, String>)
    ensures
        text::outcome(r) == edt_form_id_of(file.deep_view(), form.deep_view()),
{
    if !form.name_is_exact {
        return Err(copy("EDT form directory name is not UTF-8"));
    }
    match &file.content {
        SourceContent::File(document) => edt_form_uuid(
            document.as_str(),
            file.path.as_str(),
            form.name.as_str(),
        ),
        _ => {
            let mut message = copy("cannot read EDT metadata file ");
            message.append(file.path.as_str());
            Err(message)
        },
    }
}

/// The module of an EDT form.
pub open spec fn edt_form_findings(file: SourceNodeView, form: SourceNodeView) -> Seq<FindingView> {
    match edt_form_id_of(file, form) {
        Err(message) => failure(message),
        Ok(form_id) => match source_tree::child(form, "Module.bsl"@) {
            Some(module) if source_tree::is_file(module) => seq![
                claim_of(module, form_id, MODULE_PROPERTY_ID@),
            ],
            _ => Seq::empty(),
        },
    }
}

fn find_in_edt_form(file: &SourceNode, form: &SourceNode) -> (r: Vec<Finding>)
    ensures
        r.deep_view() == edt_form_findings(file.deep_view(), form.deep_view()),
{
    let form_id = match edt_form_id(file, form) {
        Ok(form_id) => form_id,
        Err(message) => {
            return fail(message);
        },
    };
    match form.child("Module.bsl") {
        Some(module) => if module.is_file() {
            one(claim(module, form_id.as_str(), MODULE_PROPERTY_ID))
        } else {
            none()
        },
        None => none(),
    }
}

/// The modules of the EDT forms among what remains of a directory.
pub open spec fn edt_forms_findings(entries: Seq<SourceNodeView>, file: SourceNodeView) -> Seq<FindingView>
    decreases entries.len(),
{
    if entries.len() == 0 {
        Seq::empty()
    } else if !entries[0].is_listed {
        edt_forms_findings(entries.skip(1), file)
    } else {
        let first = entries[0];
        let here = match first.content {
            SourceContentView::Broken(message) => failure(message),
            _ => if source_tree::is_own_dir(first) {
                edt_form_findings(file, first)
            } else {
                Seq::empty()
            },
        };
        here + edt_forms_findings(entries.skip(1), file)
    }
}

fn find_in_edt_forms(entries: &Vec<SourceNode>, file: &SourceNode) -> (r: Vec<Finding>)
    ensures
        r.deep_view() == edt_forms_findings(entries.deep_view(), file.deep_view()),
{
    let ghost all = entries.deep_view();
    let ghost described = file.deep_view();
    let mut out: Vec<Finding> = none();
    let mut i: usize = 0;
    assert(all.skip(0) =~= all);
    assert(out.deep_view() + edt_forms_findings(all, described) =~= edt_forms_findings(all, described));
    while i < entries.len()
        invariant
            i <= entries@.len(),
            all == entries.deep_view(),
            described == file.deep_view(),
            edt_forms_findings(all, described) == out.deep_view() + edt_forms_findings(
                all.skip(i as int),
                described,
            ),
        decreases entries@.len() - i,
    {
        let ghost rest = all.skip(i as int);
        let ghost before = out.deep_view();
        let entry = &entries[i];
        assert(rest[0] == entry.deep_view());
        assert(rest.skip(1) =~= all.skip(i + 1));
        if !entry.is_listed {
            i = i + 1;
            continue;
        }
        let here = match &entry.content {
            SourceContent::Broken(message) => fail(copy(message.as_str())),
            _ => if entry.is_dir() && !entry.is_link {
                find_in_edt_form(file, entry)
            } else {
                none()
            },
        };
        let ghost found = here.deep_view();
        append(&mut out, here);
        assert(before + (found + edt_forms_findings(rest.skip(1), described)) =~= out.deep_view()
            + edt_forms_findings(rest.skip(1), described));
        i = i + 1;
    }
    assert(all.skip(i as int).len() == 0);
    assert(out.deep_view() + Seq::<FindingView>::empty() =~= out.deep_view());
    out
}

/// The files `*.bsl` directly among directory entries.
pub open spec fn direct_bsl(entries: Seq<SourceNodeView>) -> Result<Seq<SourceNodeView>, Seq<char>>
    decreases entries.len(),
{
    if entries.len() == 0 {
        Ok(Seq::empty())
    } else if !entries[0].is_listed {
        direct_bsl(entries.skip(1))
    } else {
        match entries[0].content {
            SourceContentView::Broken(message) => Err(message),
            _ => match direct_bsl(entries.skip(1)) {
                Err(message) => Err(message),
                Ok(more) => if source_tree::is_own_file(entries[0]) && source_tree::extension(
                    entries[0].name,
                ) == Some("bsl"@) {
                    Ok(seq![entries[0]] + more)
                } else {
                    Ok(more)
                },
            },
        }
    }
}

fn direct_bsl_files<'a>(entries: &'a Vec<SourceNode>) -> (r: Result<Vec<&'a SourceNode>, String>)
    ensures
        match r {
            Ok(files) => direct_bsl(entries.deep_view()) == Ok::<Seq<SourceNodeView>, Seq<char>>(
                files.deep_view(),
            ),
            Err(message) => direct_bsl(entries.deep_view()) == Err::<Seq<SourceNodeView>, Seq<char>>(
                message@,
            ),
        },
{
    let ghost all = entries.deep_view();
    let mut files: Vec<&'a SourceNode> = none();
    let mut i: usize = 0;
    assert(all.skip(0) =~= all);
    proof {
        if let Ok(found) = direct_bsl(all) {
            assert(Seq::<SourceNodeView>::empty() + found =~= found);
        }
    }
    while i < entries.len()
        invariant
            i <= entries@.len(),
            all == entries.deep_view(),
            direct_bsl(all) == match direct_bsl(all.skip(i as int)) {
                Ok(more) => Ok::<Seq<SourceNodeView>, Seq<char>>(files.deep_view() + more),
                Err(message) => Err(message),
            },
        decreases entries@.len() - i,
    {
        let ghost rest = all.skip(i as int);
        let ghost before = files.deep_view();
        let entry = &entries[i];
        assert(rest[0] == entry.deep_view());
        assert(rest.skip(1) =~= all.skip(i + 1));
        if !entry.is_listed {
            i = i + 1;
            continue;
        }
        match &entry.content {
            SourceContent::Broken(message) => {
                return Err(copy(message.as_str()));
            },
            _ => {
                if entry.is_file() && !entry.is_link && has_extension(entry.name.as_str(), "bsl") {
                    push(&mut files, entry);
                    proof {
                        if let Ok(more) = direct_bsl(rest.skip(1)) {
                            assert(before + (seq![rest[0]] + more) =~= files.deep_view() + more);
                        }
                    }
                }
            },
        }
        i = i + 1;
    }
    assert(all.skip(i as int).len() == 0);
    assert(files.deep_view() + Seq::<SourceNodeView>::empty() =~= files.deep_view());
    Ok(files)
}

/// An EDT metadata file, the entries of its directory, and the name that tells the object's kind.
#[verifier::ext_equal]
pub struct EdtObjectView {
    pub file: SourceNodeView,
    pub siblings: Seq<SourceNodeView>,
    pub kind: Seq<char>,
    pub kind_is_exact: bool,
}

struct EdtObject<'a> {
    file: &'a SourceNode,
    siblings: &'a Vec<SourceNode>,
    kind: &'a SourceNode,
}

impl<'a> DeepView for EdtObject<'a> {
    type V = EdtObjectView;

    closed spec fn deep_view(&self) -> EdtObjectView {
        EdtObjectView {
            file: self.file.deep_view(),
            siblings: self.siblings.deep_view(),
            kind: self.kind.name@,
            kind_is_exact: self.kind.name_is_exact,
        }
    }
}

/// The EDT metadata files below what remains of the entries `siblings`, directories in place. The
/// first component below the source directory tells the kind; `kind` is the entry for it, where
/// the search is below one. The configuration itself is left out.
pub open spec fn edt_objects_below(entries: Seq<SourceNodeView>, siblings: Seq<SourceNodeView>, kind: Option<(Seq<char>, bool)>) -> Result<Seq<EdtObjectView>, Seq<char>>
    decreases entries,
{
    if entries.len() == 0 {
        Ok(Seq::empty())
    } else if !entries[0].is_listed {
        edt_objects_below(entries.skip(1), siblings, kind)
    } else {
        let first = entries[0];
        let own = match kind {
            Some(kind) => kind,
            None => (first.name, first.name_is_exact),
        };
        let here = match first.content {
            SourceContentView::Broken(message) => Err(message),
            SourceContentView::Directory(below) if !first.is_link => if first.name
                != "Configuration"@ {
                edt_objects_below(below, below, Some(own))
            } else {
                Ok(Seq::empty())
            },
            SourceContentView::Closed(message, _) if !first.is_link => if first.name
                != "Configuration"@ {
                Err(message)
            } else {
                Ok(Seq::empty())
            },
            _ => if source_tree::extension(first.name) == Some("mdo"@) {
                Ok(
                    seq![
                        EdtObjectView {
                            file: first,
                            siblings,
                            kind: own.0,
                            kind_is_exact: own.1,
                        },
                    ],
                )
            } else {
                Ok(Seq::empty())
            },
        };
        match here {
            Err(message) => Err(message),
            Ok(found) => match edt_objects_below(entries.skip(1), siblings, kind) {
                Err(message) => Err(message),
                Ok(more) => Ok(found + more),
            },
        }
    }
}

pub open spec fn kind_view(kind: Option<&SourceNode>) -> Option<(Seq<char>, bool)> {
    match kind {
        Some(kind) => Some((kind.name@, kind.name_is_exact)),
        None => None,
    }
}

fn collect_edt_metadata_files<'a>(entries: &'a Vec<SourceNode>, kind: Option<&'a SourceNode>) -> (r: Result<
    Vec<EdtObject<'a>>,
    String,
>)
    ensures
        text::outcome(r) == edt_objects_below(
            entries.deep_view(),
            entries.deep_view(),
            kind_view(kind),
        ),
    decreases entries,
{
    let ghost all = entries.deep_view();
    let ghost known = kind_view(kind);
    let mut out: Vec<EdtObject<'a>> = none();
    let mut i: usize = 0;
    assert(all.skip(0) =~= all);
    proof {
        if let Ok(found) = edt_objects_below(all, all, known) {
            assert(Seq::<EdtObjectView>::empty() + found =~= found);
        }
    }
    while i < entries.len()
        invariant
            i <= entries@.len(),
            all == entries.deep_view(),
            known == kind_view(kind),
            edt_objects_below(all, all, known) == match edt_objects_below(
                all.skip(i as int),
                all,
                known,
            ) {
                Ok(more) => Ok::<Seq<EdtObjectView>, Seq<char>>(out.deep_view() + more),
                Err(message) => Err(message),
            },
        decreases entries@.len() - i,
    {
        let ghost rest = all.skip(i as int);
        let ghost before = out.deep_view();
        let entry: &'a SourceNode = &entries[i];
        assert(rest[0] == entry.deep_view());
        assert(rest.skip(1) =~= all.skip(i + 1));
        if !entry.is_listed {
            i = i + 1;
            continue;
        }
        let own: &'a SourceNode = match kind {
            Some(kind) => kind,
            None => entry,
        };
        let is_configuration = same(entry.name.as_str(), "Configuration");
        let found: Vec<EdtObject<'a>> = match &entry.content {
            SourceContent::Broken(message) => {
                return Err(copy(message.as_str()));
            },
            SourceContent::Directory(below) if !entry.is_link => {
                proof {
                    source_tree::lemma_entries(entry.content);
                }
                if is_configuration {
                    none()
                } else {
                    assert(decreases_to!(entries => entries@[i as int]));
                    match collect_edt_metadata_files(below, Some(own)) {
                        Ok(found) => found,
                        Err(message) => {
                            return Err(message);
                        },
                    }
                }
            },
            SourceContent::Closed(message, _) if !entry.is_link => {
                if is_configuration {
                    none()
                } else {
                    return Err(copy(message.as_str()));
                }
            },
            _ => {
                if has_extension(entry.name.as_str(), "mdo") {
                    one(EdtObject { file: entry, siblings: entries, kind: own })
                } else {
                    none()
                }
            },
        };
        let ghost added = found.deep_view();
        append(&mut out, found);
        proof {
            if let Ok(more) = edt_objects_below(rest.skip(1), all, known) {
                assert(before + (added + more) =~= out.deep_view() + more);
            }
        }
        i = i + 1;
    }
    assert(all.skip(i as int).len() == 0);
    assert(out.deep_view() + Seq::<EdtObjectView>::empty() =~= out.deep_view());
    Ok(out)
}

/// The modules of an EDT object: those beside its metadata file, then those of its forms.
pub open spec fn edt_object_findings(object: EdtObjectView) -> Seq<FindingView> {
    match edt_id_of(object.file) {
        Err(message) => failure(message),
        Ok(object_id) => if !object.kind_is_exact {
            failure("cannot determine EDT metadata type"@)
        } else {
            let direct = match direct_bsl(object.siblings) {
                Ok(files) => module_findings(files, object_id, object.kind),
                Err(message) => failure(message),
            };
            direct + match source_tree::named(object.siblings, "Forms"@) {
                Some(forms) => match forms.content {
                    SourceContentView::Directory(entries) => edt_forms_findings(entries, object.file),
                    SourceContentView::Closed(message, _) => failure(message),
                    _ => Seq::empty(),
                },
                None => Seq::empty(),
            }
        },
    }
}

fn find_in_edt_object(object: &EdtObject<'_>) -> (r: Vec<Finding>)
    ensures
        r.deep_view() == edt_object_findings(object.deep_view()),
{
    let object_id = match edt_id(object.file) {
        Ok(object_id) => object_id,
        Err(message) => {
            return fail(message);
        },
    };
    if !object.kind.name_is_exact {
        return fail(copy("cannot determine EDT metadata type"));
    }
    let mut out = match direct_bsl_files(object.siblings) {
        Ok(files) => find_modules(&files, object_id.as_str(), object.kind.name.as_str()),
        Err(message) => fail(message),
    };
    let forms = match find_named(object.siblings, "Forms") {
        Some(forms) => match &forms.content {
            SourceContent::Directory(entries) => {
                proof {
                    source_tree::lemma_entries(forms.content);
                }
                find_in_edt_forms(entries, object.file)
            },
            SourceContent::Closed(message, _) => fail(copy(message.as_str())),
            _ => none(),
        },
        None => none(),
    };
    append(&mut out, forms);
    out
}

pub open spec fn edt_objects_findings(objects: Seq<EdtObjectView>) -> Seq<FindingView>
    decreases objects.len(),
{
    if objects.len() == 0 {
        Seq::empty()
    } else {
        edt_object_findings(objects[0]) + edt_objects_findings(objects.skip(1))
    }
}

fn find_in_edt_objects(objects: &Vec<EdtObject<'_>>) -> (r: Vec<Finding>)
    ensures
        r.deep_view() == edt_objects_findings(objects.deep_view()),
{
    let ghost all = objects.deep_view();
    let mut out: Vec<Finding> = none();
    let mut i: usize = 0;
    assert(all.skip(0) =~= all);
    assert(out.deep_view() + edt_objects_findings(all) =~= edt_objects_findings(all));
    while i < objects.len()
        invariant
            i <= objects@.len(),
            all == objects.deep_view(),
            edt_objects_findings(all) == out.deep_view() + edt_objects_findings(all.skip(i as int)),
        decreases objects@.len() - i,
    {
        let ghost rest = all.skip(i as int);
        let ghost before = out.deep_view();
        assert(rest[0] == objects@[i as int].deep_view());
        assert(rest.skip(1) =~= all.skip(i + 1));
        let here = find_in_edt_object(&objects[i]);
        let ghost found = here.deep_view();
        append(&mut out, here);
        assert(before + (found + edt_objects_findings(rest.skip(1))) =~= out.deep_view()
            + edt_objects_findings(rest.skip(1)));
        i = i + 1;
    }
    assert(all.skip(i as int).len() == 0);
    assert(out.deep_view() + Seq::<FindingView>::empty() =~= out.deep_view());
    out
}

/// The identifier of an EDT configuration.
pub open spec fn edt_configuration_id_of(root: SourceNodeView, document: Result<Seq<char>, Seq<char>>, separator: char) -> Result<Seq<char>, Seq<char>> {
    let path = joined_path(
        joined_path(root.path, separator, "src"@),
        separator,
        EDT_CONFIGURATION_FILE@,
    );
    match document {
        Ok(document) => metadata_xml::edt_object_uuid(document, path),
        Err(_) => Err("cannot read EDT metadata file "@ + path),
    }
}

fn edt_configuration_id(root: &SourceNode, document: &Result<String, String>, separator: char) -> (r: Result<String, String>)
    ensures
        text::outcome(r) == edt_configuration_id_of(
            root.deep_view(),
            text::outcome(*document),
            separator,
        ),
{
    let source = join_path(root.path.as_str(), separator, "src");
    let path = join_path(source.as_str(), separator, EDT_CONFIGURATION_FILE);
    match document {
        Ok(document) => edt_uuid(document.as_str(), path.as_str()),
        Err(_) => {
            let mut message = copy("cannot read EDT metadata file ");
            message.append(path.as_str());
            Err(message)
        },
    }
}

/// The modules of an EDT project: those of the configuration itself, then those of its objects.
pub open spec fn edt_findings(root: SourceNodeView, document: Result<Seq<char>, Seq<char>>, separator: char) -> Seq<FindingView> {
    match edt_configuration_id_of(root, document, separator) {
        Err(message) => failure(message),
        Ok(configuration_id) => match source_tree::child(root, "src"@) {
            None => Seq::empty(),
            Some(source) => part_findings(source, "Configuration"@, configuration_id, Seq::empty())
                + match source.content {
                SourceContentView::Directory(entries) => match edt_objects_below(
                    entries,
                    entries,
                    None,
                ) {
                    Ok(objects) => edt_objects_findings(objects),
                    Err(message) => failure(message),
                },
                SourceContentView::Closed(message, _) => failure(message),
                _ => Seq::empty(),
            },
        },
    }
}

fn find_in_edt(root: &SourceNode, document: &Result<String, String>, separator: char) -> (r: Vec<Finding>)
    ensures
        r.deep_view() == edt_findings(root.deep_view(), text::outcome(*document), separator),
{
    let configuration_id = match edt_configuration_id(root, document, separator) {
        Ok(configuration_id) => configuration_id,
        Err(message) => {
            return fail(message);
        },
    };
    match root.child("src") {
        None => none(),
        Some(source) => {
            let no_type = String::new();
            let mut out = find_in_part(
                source,
                "Configuration",
                configuration_id.as_str(),
                no_type.as_str(),
            );
            let objects = match &source.content {
                SourceContent::Directory(entries) => {
                    proof {
                        source_tree::lemma_entries(source.content);
                    }
                    match collect_edt_metadata_files(entries, None) {
                        Ok(objects) => find_in_edt_objects(&objects),
                        Err(message) => fail(message),
                    }
                },
                SourceContent::Closed(message, _) => fail(copy(message.as_str())),
                _ => none(),
            };
            append(&mut out, objects);
            out
        },
    }
}

/// The modules of a configuration source: `node` is what is there.
pub open spec fn root_findings(source: SourceRootView, node: SourceNodeView, separator: char) -> Seq<FindingView> {
    if is_edt_project(node) {
        edt_findings(node, source.edt_configuration, separator)
    } else {
        configuration_findings(node, source.configuration, separator)
    }
}

/// Searches a configuration source for its modules.
pub fn find_in_root(source: &SourceRoot, node: &SourceNode, separator: char) -> (r: Vec<Finding>)
    ensures
        r.deep_view() == root_findings(source.deep_view(), node.deep_view(), separator),
{
    if holds_edt_project(node) {
        find_in_edt(node, &source.edt_configuration, separator)
    } else {
        find_in_configuration(node, &source.configuration, separator)
    }
}

/// The logical name of a configuration source: `node` is what is there.
pub open spec fn root_name(source: SourceRootView, node: SourceNodeView) -> Result<Seq<char>, Seq<char>> {
    if is_edt_project(node) {
        match source.edt_configuration {
            Ok(document) => metadata_xml::name_of_edt_configuration(document),
            Err(message) => Err(message),
        }
    } else {
        match source.configuration {
            Ok(document) => metadata_xml::name_of_configuration(document),
            Err(message) => Err(message),
        }
    }
}

fn name_of_root(source: &SourceRoot, node: &SourceNode) -> (r: Result<String, String>)
    ensures
        text::outcome(r) == root_name(source.deep_view(), node.deep_view()),
{
    if holds_edt_project(node) {
        match &source.edt_configuration {
            Ok(document) => edt_configuration_name(document.as_str()),
            Err(message) => Err(copy(message.as_str())),
        }
    } else {
        match &source.configuration {
            Ok(document) => configuration_name(document.as_str()),
            Err(message) => Err(copy(message.as_str())),
        }
    }
}

/// The modules of all configurations, by path and by identity.
pub struct ModuleRegistry {
    by_path: OrderedMap<String, ModuleInfo>,
    by_identity: OrderedMap<(String, String, String), String>,
}

#[verifier::ext_equal]
pub struct ModuleRegistryView {
    pub by_path: Seq<(Seq<char>, ModuleInfoView)>,
    pub by_identity: Seq<((Seq<char>, Seq<char>, Seq<char>), Seq<char>)>,
}

impl DeepView for ModuleRegistry {
    type V = ModuleRegistryView;

    closed spec fn deep_view(&self) -> ModuleRegistryView {
        ModuleRegistryView {
            by_path: self.by_path.deep_view(),
            by_identity: self.by_identity.deep_view(),
        }
    }
}

pub open spec fn empty_registry() -> ModuleRegistryView {
    ModuleRegistryView { by_path: Seq::empty(), by_identity: Seq::empty() }
}

pub open spec fn identity(info: ModuleInfoView) -> (Seq<char>, Seq<char>, Seq<char>) {
    (info.extension_name, info.object_id, info.property_id)
}

/// Each path's module is found again by its identity.
pub open spec fn paths_are_found(registry: ModuleRegistryView) -> bool {
    forall|path: Seq<char>|
        #![trigger ordered::lookup(registry.by_path, path)]
        ordered::lookup(registry.by_path, path) matches Some(info) ==> ordered::lookup(
            registry.by_identity,
            identity(info),
        ) == Some(path)
}

pub open spec fn registry_wf(registry: ModuleRegistryView) -> bool {
    &&& ordered::sorted::<String, ModuleInfoView>(registry.by_path)
    &&& ordered::sorted::<(String, String, String), Seq<char>>(registry.by_identity)
}

pub open spec fn collision(info: ModuleInfoView, previous: Seq<char>, path: Seq<char>) -> Seq<char> {
    "module identity collision for extension "@ + text::debug_notation(info.extension_name)
        + ", object "@ + info.object_id + ", property "@ + info.property_id + ": "@ + previous
        + " and "@ + path
}

/// The registry with one more module; two modules must not have the same identity.
pub open spec fn cached(registry: ModuleRegistryView, extension_name: Seq<char>, claim: ClaimView) -> Result<ModuleRegistryView, Seq<char>> {
    let info = ModuleInfoView {
        extension_name,
        object_id: claim.object_id,
        property_id: claim.property_id,
    };
    match claim.canonical {
        None => Err("cannot resolve module path "@ + claim.path),
        Some(path) => match ordered::lookup(registry.by_identity, identity(info)) {
            Some(previous) => Err(collision(info, previous, path)),
            None => Ok(
                ModuleRegistryView {
                    by_path: ordered::inserted::<String, ModuleInfoView>(
                        registry.by_path,
                        path,
                        info,
                    ),
                    by_identity: ordered::inserted::<(String, String, String), Seq<char>>(
                        registry.by_identity,
                        identity(info),
                        path,
                    ),
                },
            ),
        },
    }
}

/// The registry with what a search came upon, up to the first reason to give up.
pub open spec fn with_findings(registry: ModuleRegistryView, extension_name: Seq<char>, findings: Seq<FindingView>) -> Result<ModuleRegistryView, Seq<char>>
    decreases findings.len(),
{
    if findings.len() == 0 {
        Ok(registry)
    } else {
        match findings[0] {
            FindingView::Failure(message) => Err(message),
            FindingView::Module(claim) => match cached(registry, extension_name, claim) {
                Err(message) => Err(message),
                Ok(next) => with_findings(next, extension_name, findings.skip(1)),
            },
        }
    }
}

/// A configuration source as it was named, and what is there; nothing where the path cannot be
/// resolved.
#[derive(Debug, PartialEq, Eq)]
pub struct SourceRoot {
    pub path: String,
    pub node: Option<SourceNode>,
    /// What reading the file of an unpacked configuration gives: its text, or what the system
    /// reports.
    pub configuration: Result<String, String>,
    /// What reading the file of an EDT configuration gives.
    pub edt_configuration: Result<String, String>,
}

#[verifier::ext_equal]
pub struct SourceRootView {
    pub path: Seq<char>,
    pub node: Option<SourceNodeView>,
    pub configuration: Result<Seq<char>, Seq<char>>,
    pub edt_configuration: Result<Seq<char>, Seq<char>>,
}

impl DeepView for SourceRoot {
    type V = SourceRootView;

    open spec fn deep_view(&self) -> SourceRootView {
        SourceRootView {
            path: self.path@,
            node: self.node.deep_view(),
            configuration: text::outcome(self.configuration),
            edt_configuration: text::outcome(self.edt_configuration),
        }
    }
}

/// The configuration sources of a debug session.
#[derive(Debug, PartialEq, Eq)]
pub struct Sources {
    pub root: SourceRoot,
    pub extensions: Vec<SourceRoot>,
    /// What stands between the components of a path.
    pub separator: char,
}

#[verifier::ext_equal]
pub struct SourcesView {
    pub root: SourceRootView,
    pub extensions: Seq<SourceRootView>,
    pub separator: char,
}

impl DeepView for Sources {
    type V = SourcesView;

    open spec fn deep_view(&self) -> SourcesView {
        SourcesView {
            root: self.root.deep_view(),
            extensions: self.extensions.deep_view(),
            separator: self.separator,
        }
    }
}

/// Where the loading stands: the registry, the extension paths so far with the paths as they were
/// named, and the extension names so far with their paths.
#[verifier::ext_equal]
pub struct LoadView {
    pub registry: ModuleRegistryView,
    pub paths: Seq<(Seq<char>, Seq<char>)>,
    pub names: Seq<(Seq<char>, Seq<char>)>,
}

/// The second part of the first pair that begins with `key`.
pub open spec fn paired(pairs: Seq<(Seq<char>, Seq<char>)>, key: Seq<char>) -> Option<Seq<char>>
    decreases pairs.len(),
{
    if pairs.len() == 0 {
        None
    } else if pairs[0].0 == key {
        Some(pairs[0].1)
    } else {
        paired(pairs.skip(1), key)
    }
}

fn find_pair<'a>(pairs: &'a Vec<(String, String)>, key: &str) -> (r: Option<&'a str>)
    ensures
        r.deep_view() == paired(pairs.deep_view(), key@),
{
    let ghost all = pairs.deep_view();
    assert(all.skip(0) =~= all);
    let mut i: usize = 0;
    while i < pairs.len()
        invariant
            i <= pairs@.len(),
            all == pairs.deep_view(),
            paired(all, key@) == paired(all.skip(i as int), key@),
        decreases pairs@.len() - i,
    {
        assert(all.skip(i as int)[0] == pairs@[i as int].deep_view());
        assert(all.skip(i as int).skip(1) =~= all.skip(i + 1));
        if same(pairs[i].0.as_str(), key) {
            return Some(pairs[i].1.as_str());
        }
        i = i + 1;
    }
    assert(all.skip(i as int).len() == 0);
    None
}

pub open spec fn same_as_base(extension: Seq<char>, root: Seq<char>) -> Seq<char> {
    "extension configuration source "@ + extension + " is the same as base configuration source "@
        + root
}

pub open spec fn duplicate_extension(extension: Seq<char>, name: Seq<char>, previous: Seq<char>) -> Seq<char> {
    "extension configuration "@ + extension + " ("@ + name
        + ") duplicates extension configuration "@ + previous + " ("@ + name + ")"@
}

pub open spec fn duplicate_name(previous: Seq<char>, path: Seq<char>, name: Seq<char>) -> Seq<char> {
    "extension configurations "@ + previous + " and "@ + path + " have the same logical name "@
        + text::debug_notation(name)
}

/// The loading after one extension. An extension must not be the base configuration, must not be
/// given twice, and must not share its name with another one unless the name is blank.
pub open spec fn with_extension(s: LoadView, root: SourceNodeView, extension: SourceRootView, separator: char) -> Result<LoadView, Seq<char>> {
    match extension.node {
        None => Err(
            "cannot resolve extension configuration source directory "@ + extension.path,
        ),
        Some(node) => match root_name(extension, node) {
            Err(message) => Err(message),
            Ok(name) => {
                let named = text::trim(name).len() > 0;
                if node.path == root.path {
                    Err(same_as_base(extension.path, root.path))
                } else if paired(s.paths, node.path) is Some {
                    Err(duplicate_extension(extension.path, name, paired(s.paths, node.path)->0))
                } else if named && paired(s.names, name) is Some {
                    Err(duplicate_name(paired(s.names, name)->0, node.path, name))
                } else {
                    match with_findings(s.registry, name, root_findings(extension, node, separator)) {
                        Err(message) => Err(message),
                        Ok(registry) => Ok(
                            LoadView {
                                registry,
                                paths: s.paths.push((node.path, extension.path)),
                                names: if named {
                                    s.names.push((name, node.path))
                                } else {
                                    s.names
                                },
                            },
                        ),
                    }
                }
            },
        },
    }
}

pub open spec fn with_extensions(s: LoadView, root: SourceNodeView, extensions: Seq<SourceRootView>, separator: char) -> Result<ModuleRegistryView, Seq<char>>
    decreases extensions.len(),
{
    if extensions.len() == 0 {
        Ok(s.registry)
    } else {
        match with_extension(s, root, extensions[0], separator) {
            Err(message) => Err(message),
            Ok(next) => with_extensions(next, root, extensions.skip(1), separator),
        }
    }
}

/// The modules of the base configuration and of its extensions.
pub open spec fn loaded(sources: SourcesView) -> Result<ModuleRegistryView, Seq<char>> {
    match sources.root.node {
        None => Err("cannot resolve base configuration source directory "@ + sources.root.path),
        Some(root) => match with_findings(
            empty_registry(),
            Seq::empty(),
            root_findings(sources.root, root, sources.separator),
        ) {
            Err(message) => Err(message),
            Ok(registry) => with_extensions(
                LoadView { registry, paths: Seq::empty(), names: Seq::empty() },
                root,
                sources.extensions,
                sources.separator,
            ),
        },
    }
}

pub open spec fn unresolved_source(path: Seq<char>) -> Seq<char> {
    "cannot resolve source path "@ + path
}

pub open spec fn unknown_source(path: Seq<char>) -> Seq<char> {
    "the BSL file "@ + path + " is not a known configuration module"@
}

/// The module under a path, which was resolved to `canonical`.
pub open spec fn module_at(registry: ModuleRegistryView, path: Seq<char>, canonical: Option<Seq<char>>) -> Result<ModuleInfoView, Seq<char>> {
    match canonical {
        None => Err(unresolved_source(path)),
        Some(canonical) => match ordered::lookup(registry.by_path, canonical) {
            Some(info) => Ok(info),
            None => Err(unknown_source(path)),
        },
    }
}

impl ModuleRegistry {
    pub fn new() -> (r: ModuleRegistry)
        ensures
            r.deep_view() == empty_registry(),
    {
        ModuleRegistry { by_path: OrderedMap::new(), by_identity: OrderedMap::new() }
    }

    /// Loads the modules of the base configuration and of its extensions.
    pub fn load(sources: &Sources) -> (r: Result<ModuleRegistry, String>)
        ensures
            text::outcome(r) == loaded(sources.deep_view()),
    {
        let root = match &sources.root.node {
            Some(root) => root,
            None => {
                let mut message = copy("cannot resolve base configuration source directory ");
                message.append(sources.root.path.as_str());
                return Err(message);
            },
        };
        let mut registry = ModuleRegistry::new();
        let no_extension = String::new();
        let findings = find_in_root(&sources.root, root, sources.separator);
        match registry.cache(no_extension.as_str(), findings) {
            Ok(()) => {},
            Err(message) => {
                return Err(message);
            },
        }
        let mut paths: Vec<(String, String)> = none();
        let mut names: Vec<(String, String)> = none();
        let ghost all = sources.deep_view().extensions;
        let ghost base = root.deep_view();
        let ghost separator = sources.separator;
        assert(all.skip(0) =~= all);
        let mut i: usize = 0;
        while i < sources.extensions.len()
            invariant
                i <= sources.extensions@.len(),
                all == sources.extensions.deep_view(),
                base == root.deep_view(),
                separator == sources.separator,
                loaded(sources.deep_view()) == with_extensions(
                    LoadView {
                        registry: registry.deep_view(),
                        paths: paths.deep_view(),
                        names: names.deep_view(),
                    },
                    base,
                    all.skip(i as int),
                    separator,
                ),
            decreases sources.extensions@.len() - i,
        {
            let extension = &sources.extensions[i];
            assert(all.skip(i as int)[0] == extension.deep_view());
            assert(all.skip(i as int).skip(1) =~= all.skip(i + 1));
            let node = match &extension.node {
                Some(node) => node,
                None => {
                    let mut message = copy("cannot resolve extension configuration source directory ");
                    message.append(extension.path.as_str());
                    return Err(message);
                },
            };
            let name = match name_of_root(extension, node) {
                Ok(name) => name,
                Err(message) => {
                    return Err(message);
                },
            };
            if same(node.path.as_str(), root.path.as_str()) {
                let mut message = copy("extension configuration source ");
                message.append(extension.path.as_str());
                message.append(" is the same as base configuration source ");
                message.append(root.path.as_str());
                return Err(message);
            }
            if let Some(previous) = find_pair(&paths, node.path.as_str()) {
                let mut message = copy("extension configuration ");
                message.append(extension.path.as_str());
                message.append(" (");
                message.append(name.as_str());
                message.append(") duplicates extension configuration ");
                message.append(previous);
                message.append(" (");
                message.append(name.as_str());
                message.append(")");
                return Err(message);
            }
            let named = !is_blank(name.as_str());
            if named {
                if let Some(previous) = find_pair(&names, name.as_str()) {
                    let notation = quoted(name.as_str());
                    let mut message = copy("extension configurations ");
                    message.append(previous);
                    message.append(" and ");
                    message.append(node.path.as_str());
                    message.append(" have the same logical name ");
                    message.append(notation.as_str());
                    return Err(message);
                }
            }
            let findings = find_in_root(extension, node, sources.separator);
            match registry.cache(name.as_str(), findings) {
                Ok(()) => {},
                Err(message) => {
                    return Err(message);
                },
            }
            push(&mut paths, (copy(node.path.as_str()), copy(extension.path.as_str())));
            if named {
                push(&mut names, (name, copy(node.path.as_str())));
            }
            i = i + 1;
        }
        assert(all.skip(i as int).len() == 0);
        Ok(registry)
    }

    fn cache(&mut self, extension_name: &str, findings: Vec<Finding>) -> (r: Result<(), String>)
        ensures
            match with_findings(old(self).deep_view(), extension_name@, findings.deep_view()) {
                Ok(registry) => r is Ok && final(self).deep_view() == registry,
                Err(message) => r matches Err(e) && e@ == message,
            },
    {
        let ghost all = findings.deep_view();
        let ghost first = self.deep_view();
        assert(all.skip(0) =~= all);
        let mut i: usize = 0;
        while i < findings.len()
            invariant
                i <= findings@.len(),
                all == findings.deep_view(),
                first == old(self).deep_view(),
                with_findings(first, extension_name@, all) == with_findings(
                    self.deep_view(),
                    extension_name@,
                    all.skip(i as int),
                ),
            decreases findings@.len() - i,
        {
            assert(all.skip(i as int)[0] == findings@[i as int].deep_view());
            assert(all.skip(i as int).skip(1) =~= all.skip(i + 1));
            match &findings[i] {
                Finding::Failure(message) => {
                    return Err(copy(message.as_str()));
                },
                Finding::Module(claim) => {
                    match self.cache_module(extension_name, claim) {
                        Ok(()) => {},
                        Err(message) => {
                            return Err(message);
                        },
                    }
                },
            }
            i = i + 1;
        }
        assert(all.skip(i as int).len() == 0);
        Ok(())
    }

    fn cache_module(&mut self, extension_name: &str, claim: &Claim) -> (r: Result<(), String>)
        ensures
            match cached(old(self).deep_view(), extension_name@, claim.deep_view()) {
                Ok(registry) => r is Ok && final(self).deep_view() == registry,
                Err(message) => r matches Err(e) && e@ == message,
            },
    {
        let path = match &claim.canonical {
            Some(path) => path,
            None => {
                let mut message = copy("cannot resolve module path ");
                message.append(claim.path.as_str());
                return Err(message);
            },
        };
        let info = ModuleInfo {
            extension_name: copy(extension_name),
            object_id: copy(claim.object_id.as_str()),
            property_id: copy(claim.property_id.as_str()),
        };
        let key = (
            copy(extension_name),
            copy(claim.object_id.as_str()),
            copy(claim.property_id.as_str()),
        );
        assert(key.deep_view() == identity(info.deep_view()));
        if let Some(previous) = self.by_identity.get(&key) {
            let notation = quoted(extension_name);
            let mut message = copy("module identity collision for extension ");
            message.append(notation.as_str());
            message.append(", object ");
            message.append(info.object_id.as_str());
            message.append(", property ");
            message.append(info.property_id.as_str());
            message.append(": ");
            message.append(previous.as_str());
            message.append(" and ");
            message.append(path.as_str());
            return Err(message);
        }
        self.by_identity.insert(key, copy(path.as_str()));
        self.by_path.insert(copy(path.as_str()), info);
        Ok(())
    }

    /// The module under a path. `canonical` is the path without links, where it can be resolved.
    pub fn module_by_path(&self, path: &str, canonical: Option<&str>) -> (r: Result<&ModuleInfo, String>)
        ensures
            match r {
                Ok(info) => module_at(self.deep_view(), path@, canonical.deep_view()) == Ok::<
                    ModuleInfoView,
                    Seq<char>,
                >(info.deep_view()),
                Err(message) => module_at(self.deep_view(), path@, canonical.deep_view()) == Err::<
                    ModuleInfoView,
                    Seq<char>,
                >(message@),
            },
    {
        let canonical = match canonical {
            Some(canonical) => copy(canonical),
            None => {
                let mut message = copy("cannot resolve source path ");
                message.append(path);
                return Err(message);
            },
        };
        match self.by_path.get(&canonical) {
            Some(info) => Ok(info),
            None => {
                let mut message = copy("the BSL file ");
                message.append(path);
                message.append(" is not a known configuration module");
                Err(message)
            },
        }
    }

    /// The path of the module with an identity.
    pub fn path_by_module(&self, extension_name: &str, object_id: &str, property_id: &str) -> (r: Option<&str>)
        ensures
            r.deep_view() == ordered::lookup(
                self.deep_view().by_identity,
                (extension_name@, object_id@, property_id@),
            ),
    {
        let key = (copy(extension_name), copy(object_id), copy(property_id));
        match self.by_identity.get(&key) {
            Some(path) => Some(path.as_str()),
            None => None,
        }
    }
}

proof fn lemma_cached(registry: ModuleRegistryView, extension_name: Seq<char>, claim: ClaimView)
    requires
        registry_wf(registry),
        paths_are_found(registry),
    ensures
        cached(registry, extension_name, claim) matches Ok(next) ==> registry_wf(next)
            && paths_are_found(next),
{
    if let Ok(next) = cached(registry, extension_name, claim) {
        let info = ModuleInfoView {
            extension_name,
            object_id: claim.object_id,
            property_id: claim.property_id,
        };
        let path = claim.canonical->0;
        ordered::lemma_inserted::<String, ModuleInfoView>(registry.by_path, path, info);
        ordered::lemma_inserted::<(String, String, String), Seq<char>>(
            registry.by_identity,
            identity(info),
            path,
        );
        assert forall|other: Seq<char>|
            #![trigger ordered::lookup(next.by_path, other)]
            ordered::lookup(next.by_path, other) matches Some(found) implies ordered::lookup(
            next.by_identity,
            identity(ordered::lookup(next.by_path, other)->0),
        ) == Some(other) by {
            if other != path {
                let found = ordered::lookup(registry.by_path, other)->0;
                assert(ordered::lookup(registry.by_identity, identity(found)) == Some(other));
                assert(identity(found) != identity(info));
            }
        }
    }
}

proof fn lemma_with_findings(registry: ModuleRegistryView, extension_name: Seq<char>, findings: Seq<FindingView>)
    requires
        registry_wf(registry),
        paths_are_found(registry),
    ensures
        with_findings(registry, extension_name, findings) matches Ok(next) ==> registry_wf(next)
            && paths_are_found(next),
    decreases findings.len(),
{
    if findings.len() > 0 {
        if let FindingView::Module(claim) = findings[0] {
            lemma_cached(registry, extension_name, claim);
            if let Ok(next) = cached(registry, extension_name, claim) {
                lemma_with_findings(next, extension_name, findings.skip(1));
            }
        }
    }
}

proof fn lemma_with_extensions(s: LoadView, root: SourceNodeView, extensions: Seq<SourceRootView>, separator: char)
    requires
        registry_wf(s.registry),
        paths_are_found(s.registry),
    ensures
        with_extensions(s, root, extensions, separator) matches Ok(registry)
            ==> registry_wf(registry) && paths_are_found(registry),
    decreases extensions.len(),
{
    if extensions.len() > 0 {
        if let Some(node) = extensions[0].node {
            if let Ok(name) = root_name(extensions[0], node) {
                lemma_with_findings(
                    s.registry,
                    name,
                    root_findings(extensions[0], node, separator),
                );
            }
        }
        if let Ok(next) = with_extension(s, root, extensions[0], separator) {
            lemma_with_extensions(next, root, extensions.skip(1), separator);
        }
    }
}

/// In a loaded registry, the identity that a path leads to leads back to the path.
pub proof fn path_and_identity_agree(sources: SourcesView, path: Seq<char>)
    ensures
        loaded(sources) matches Ok(registry) ==> (ordered::lookup(registry.by_path, path) matches Some(
            info,
        ) ==> ordered::lookup(registry.by_identity, identity(info)) == Some(path)),
{
    if let Some(root) = sources.root.node {
        let findings = root_findings(sources.root, root, sources.separator);
        assert(registry_wf(empty_registry()));
        lemma_with_findings(empty_registry(), Seq::empty(), findings);
        if let Ok(registry) = with_findings(empty_registry(), Seq::empty(), findings) {
            let s = LoadView { registry, paths: Seq::empty(), names: Seq::empty() };
            lemma_with_extensions(s, root, sources.extensions, sources.separator);
        }
    }
}

} // verus!
