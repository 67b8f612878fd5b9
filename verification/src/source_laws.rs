//! Which modules the sources of a configuration hold, and what identifies them.

use crate::metadata;
use crate::metadata::{
    ClaimView, EdtObjectView, FindingView, LoadView, ModuleInfoView, ModuleRegistryView,
    SourceRootView, SourcesView,
};
use crate::metadata_xml;
use crate::ordered;
use crate::source_tree;
use crate::source_tree::{SourceContentView, SourceNodeView};
use crate::text;
use crate::xml;
use crate::xml::{XmlAttributeView, XmlEventView};
use vstd::prelude::*;

verus! {

/// Each kind of module has the identifier that the debug server knows it by: the module of a common
/// module or a service has one of its own, whatever its file is called, and any other module is
/// told by the name of its file. Other files hold no module.
pub proof fn module_files_have_their_identifiers(kind: Seq<char>, name: Seq<char>)
    ensures
        metadata::property_of("CommonModules"@, name) == Some(
            "d5963243-262e-4398-b4d7-fb16d06484f6"@,
        ),
        metadata::property_of("WebServices"@, name) == Some(
            "d5963243-262e-4398-b4d7-fb16d06484f6"@,
        ),
        metadata::property_of("HTTPServices"@, name) == Some(
            "d5963243-262e-4398-b4d7-fb16d06484f6"@,
        ),
        kind != "CommonModules"@ && kind != "WebServices"@ && kind != "HTTPServices"@ ==> {
            &&& metadata::property_of(kind, "Module"@) == Some(
                "32e087ab-1491-49b6-aba7-43571b41ac2b"@,
            )
            &&& metadata::property_of(kind, "CommandModule"@) == Some(
                "078a6af8-d22c-4248-9c33-7e90075a3d2c"@,
            )
            &&& metadata::property_of(kind, "ObjectModule"@) == Some(
                "a637f77f-3840-441d-a1c3-699c8c5cb7e0"@,
            )
            &&& metadata::property_of(kind, "ManagerModule"@) == Some(
                "d1b64a2c-8078-4982-8190-8f81aefda192"@,
            )
            &&& metadata::property_of(kind, "RecordSetModule"@) == Some(
                "9f36fd70-4bf4-47f6-b235-935f73aab43f"@,
            )
            &&& metadata::property_of(kind, "ValueManagerModule"@) == Some(
                "3e58c91f-9aaa-4f42-8999-4baf33907b75"@,
            )
            &&& metadata::property_of(kind, "ManagedApplicationModule"@) == Some(
                "d22e852a-cf8a-4f77-8ccb-3548e7792bea"@,
            )
            &&& metadata::property_of(kind, "SessionModule"@) == Some(
                "9b7bbbae-9771-46f2-9e4d-2489e0ffc702"@,
            )
            &&& metadata::property_of(kind, "ExternalConnectionModule"@) == Some(
                "a4a9c1e2-1e54-4c7f-af06-4ca341198fac"@,
            )
            &&& metadata::property_of(kind, "OrdinaryApplicationModule"@) == Some(
                "a78d9ce3-4e0c-48d5-9863-ae7342eedf94"@,
            )
            &&& name != "Module"@ && name != "CommandModule"@ && name != "ObjectModule"@ && name
                != "ManagerModule"@ && name != "RecordSetModule"@ && name != "ValueManagerModule"@
                && name != "ManagedApplicationModule"@ && name != "SessionModule"@ && name
                != "ExternalConnectionModule"@ && name != "OrdinaryApplicationModule"@
                ==> metadata::property_of(kind, name) is None
        },
{
    reveal_strlit("Module");
    reveal_strlit("CommandModule");
    reveal_strlit("ObjectModule");
    reveal_strlit("ManagerModule");
    reveal_strlit("RecordSetModule");
    reveal_strlit("ValueManagerModule");
    reveal_strlit("ManagedApplicationModule");
    reveal_strlit("SessionModule");
    reveal_strlit("ExternalConnectionModule");
    reveal_strlit("OrdinaryApplicationModule");
    assert("Module"@.len() == 6);
    assert("CommandModule"@.len() == 13 && "CommandModule"@[0] == 'C');
    assert("ObjectModule"@.len() == 12);
    assert("ManagerModule"@.len() == 13 && "ManagerModule"@[0] == 'M');
    assert("RecordSetModule"@.len() == 15);
    assert("ValueManagerModule"@.len() == 18);
    assert("ManagedApplicationModule"@.len() == 24 && "ManagedApplicationModule"@[0] == 'M');
    assert("SessionModule"@.len() == 13 && "SessionModule"@[0] == 'S');
    assert("ExternalConnectionModule"@.len() == 24 && "ExternalConnectionModule"@[0] == 'E');
    assert("OrdinaryApplicationModule"@.len() == 25);
}

/// What is registered stays registered while more is found.
proof fn lemma_registered_stays(registry: ModuleRegistryView, extension_name: Seq<char>, findings: Seq<FindingView>, key: (Seq<char>, Seq<char>, Seq<char>))
    requires
        metadata::registry_wf(registry),
        ordered::lookup(registry.by_identity, key) is Some,
    ensures
        metadata::with_findings(registry, extension_name, findings) matches Ok(next)
            ==> metadata::registry_wf(next) && ordered::lookup(next.by_identity, key)
            == ordered::lookup(registry.by_identity, key),
    decreases findings.len(),
{
    if findings.len() > 0 {
        if let FindingView::Module(claim) = findings[0] {
            if let Ok(next) = metadata::cached(registry, extension_name, claim) {
                lemma_cached_keys(registry, extension_name, claim);
                lemma_registered_stays(next, extension_name, findings.skip(1), key);
            }
        }
    }
}

proof fn lemma_cached_keys(registry: ModuleRegistryView, extension_name: Seq<char>, claim: ClaimView)
    requires
        metadata::registry_wf(registry),
    ensures
        metadata::cached(registry, extension_name, claim) matches Ok(next) ==> {
            let key = (extension_name, claim.object_id, claim.property_id);
            &&& metadata::registry_wf(next)
            &&& claim.canonical is Some
            &&& ordered::lookup(next.by_identity, key) == claim.canonical
            &&& ordered::lookup(registry.by_identity, key) is None
            &&& forall|other: (Seq<char>, Seq<char>, Seq<char>)|
                other != key ==> #[trigger] ordered::lookup(next.by_identity, other)
                    == ordered::lookup(registry.by_identity, other)
            &&& ordered::lookup(next.by_path, claim.canonical->0) == Some(
                ModuleInfoView {
                    extension_name,
                    object_id: claim.object_id,
                    property_id: claim.property_id,
                },
            )
            &&& forall|other: Seq<char>|
                other != claim.canonical->0 ==> #[trigger] ordered::lookup(next.by_path, other)
                    == ordered::lookup(registry.by_path, other)
        },
{
    if let Ok(next) = metadata::cached(registry, extension_name, claim) {
        let info = ModuleInfoView {
            extension_name,
            object_id: claim.object_id,
            property_id: claim.property_id,
        };
        let path = claim.canonical->0;
        ordered::lemma_inserted::<String, ModuleInfoView>(registry.by_path, path, info);
        ordered::lemma_inserted::<(String, String, String), Seq<char>>(
            registry.by_identity,
            metadata::identity(info),
            path,
        );
    }
}

proof fn lemma_path_stays(registry: ModuleRegistryView, extension_name: Seq<char>, findings: Seq<FindingView>, path: Seq<char>)
    requires
        metadata::registry_wf(registry),
        forall|i: int|
            0 <= i < findings.len() && (#[trigger] findings[i]) is Module
                ==> findings[i]->Module_0.canonical != Some(path),
    ensures
        metadata::with_findings(registry, extension_name, findings) matches Ok(next)
            ==> ordered::lookup(next.by_path, path) == ordered::lookup(registry.by_path, path),
    decreases findings.len(),
{
    if findings.len() > 0 {
        if let FindingView::Module(claim) = findings[0] {
            assert(findings[0] is Module);
            if let Ok(next) = metadata::cached(registry, extension_name, claim) {
                lemma_cached_keys(registry, extension_name, claim);
                let rest = findings.skip(1);
                assert forall|i: int|
                    0 <= i < rest.len() && (#[trigger] rest[i]) is Module implies rest[i]->Module_0.canonical
                    != Some(path) by {
                    assert(rest[i] == findings[i + 1]);
                }
                lemma_path_stays(next, extension_name, rest, path);
            }
        }
    }
}

/// Every module that is found is registered: its identity, with the name of the extension that it is
/// found in, leads to its file, and its file leads to its identity, unless the same file is found
/// again later.
pub proof fn every_found_module_is_registered(registry: ModuleRegistryView, extension_name: Seq<char>, findings: Seq<FindingView>, i: int)
    requires
        metadata::registry_wf(registry),
        0 <= i < findings.len(),
        findings[i] is Module,
        metadata::with_findings(registry, extension_name, findings) is Ok,
    ensures
        ({
            let claim = findings[i]->Module_0;
            let next = metadata::with_findings(registry, extension_name, findings)->Ok_0;
            &&& claim.canonical is Some
            &&& ordered::lookup(
                next.by_identity,
                (extension_name, claim.object_id, claim.property_id),
            ) == claim.canonical
            &&& (forall|j: int|
                i < j < findings.len() && (#[trigger] findings[j]) is Module
                    ==> findings[j]->Module_0.canonical != claim.canonical) ==> ordered::lookup(
                next.by_path,
                claim.canonical->0,
            ) == Some(
                ModuleInfoView {
                    extension_name,
                    object_id: claim.object_id,
                    property_id: claim.property_id,
                },
            )
        }),
    decreases findings.len(),
{
    let rest = findings.skip(1);
    match findings[0] {
        FindingView::Module(first) => {
            lemma_cached_keys(registry, extension_name, first);
            let after = metadata::cached(registry, extension_name, first)->Ok_0;
            if i == 0 {
                lemma_registered_stays(
                    after,
                    extension_name,
                    rest,
                    (extension_name, first.object_id, first.property_id),
                );
                if forall|j: int|
                    0 < j < findings.len() && (#[trigger] findings[j]) is Module
                        ==> findings[j]->Module_0.canonical != first.canonical {
                    assert forall|j: int|
                        0 <= j < rest.len() && (#[trigger] rest[j]) is Module implies rest[j]->Module_0.canonical
                        != Some(first.canonical->0) by {
                        assert(rest[j] == findings[j + 1]);
                    }
                    lemma_path_stays(after, extension_name, rest, first.canonical->0);
                }
            } else {
                assert(rest[i - 1] == findings[i]);
                every_found_module_is_registered(after, extension_name, rest, i - 1);
                if forall|j: int|
                    i < j < findings.len() && (#[trigger] findings[j]) is Module
                        ==> findings[j]->Module_0.canonical != findings[i]->Module_0.canonical {
                    assert forall|j: int|
                        i - 1 < j < rest.len() && (#[trigger] rest[j]) is Module implies rest[j]->Module_0.canonical
                        != rest[i - 1]->Module_0.canonical by {
                        assert(rest[j] == findings[j + 1]);
                    }
                }
            }
        },
        FindingView::Failure(_) => {},
    }
}

/// A failure that is found ends the loading with its reason, unless something before it does.
pub proof fn failures_end_the_loading(registry: ModuleRegistryView, extension_name: Seq<char>, findings: Seq<FindingView>, i: int)
    requires
        0 <= i < findings.len(),
        findings[i] is Failure,
    ensures
        metadata::with_findings(registry, extension_name, findings) is Err,
    decreases findings.len(),
{
    if i > 0 {
        if let FindingView::Module(claim) = findings[0] {
            if let Ok(next) = metadata::cached(registry, extension_name, claim) {
                assert(findings.skip(1)[i - 1] == findings[i]);
                failures_end_the_loading(next, extension_name, findings.skip(1), i - 1);
            }
        }
    }
}

/// A listed file `*.bsl`.
pub open spec fn is_module_file(node: SourceNodeView) -> bool {
    &&& node.is_listed
    &&& node.content is File
    &&& source_tree::extension(node.name) == Some("bsl"@)
}

proof fn lemma_bsl_below(entries: Seq<SourceNodeView>, i: int, file: SourceNodeView)
    requires
        0 <= i < entries.len(),
        source_tree::bsl_below(entries) is Ok,
        (entries[i] == file && is_module_file(file)) || (entries[i].is_listed && !entries[i].is_link
            && entries[i].content is Directory && source_tree::bsl_below(
            entries[i].content->Directory_0,
        ) is Ok && source_tree::bsl_below(entries[i].content->Directory_0)->Ok_0.contains(file)),
    ensures
        source_tree::bsl_below(entries)->Ok_0.contains(file),
    decreases entries.len(),
{
    let rest = entries.skip(1);
    let all = source_tree::bsl_below(entries)->Ok_0;
    if i == 0 {
        let more = source_tree::bsl_below(rest)->Ok_0;
        if entries[0].content is Directory {
            let found = source_tree::bsl_below(entries[0].content->Directory_0)->Ok_0;
            let k = choose|k: int| 0 <= k < found.len() && found[k] == file;
            assert(all == found + more);
            assert(all[k] == file);
        } else {
            assert(all == seq![file] + more);
            assert(all[0] == file);
        }
    } else {
        assert(rest[i - 1] == entries[i]);
        lemma_bsl_below(rest, i - 1, file);
        let more = source_tree::bsl_below(rest)->Ok_0;
        let k = choose|k: int| 0 <= k < more.len() && more[k] == file;
        assert(all.len() >= more.len());
        let n = all.len() - more.len();
        assert(all[n + k] == file);
    }
}

/// The files `*.bsl` of a directory are found, and those of the directories in it.
pub proof fn files_of_a_directory_are_found(entries: Seq<SourceNodeView>, i: int, file: SourceNodeView)
    requires
        0 <= i < entries.len(),
        source_tree::bsl_below(entries) is Ok,
    ensures
        entries[i] == file && is_module_file(file) ==> source_tree::bsl_below(entries)->Ok_0.contains(
            file,
        ),
        entries[i].is_listed && !entries[i].is_link && entries[i].content is Directory ==> {
            let below = source_tree::bsl_below(entries[i].content->Directory_0);
            below is Ok && (below->Ok_0.contains(file) ==> source_tree::bsl_below(
                entries,
            )->Ok_0.contains(file))
        },
{
    if entries[i].is_listed && !entries[i].is_link && entries[i].content is Directory {
        lemma_below_ok(entries, i);
        if source_tree::bsl_below(entries[i].content->Directory_0)->Ok_0.contains(file) {
            lemma_bsl_below(entries, i, file);
        }
    }
    if entries[i] == file && is_module_file(file) {
        lemma_bsl_below(entries, i, file);
    }
}

proof fn lemma_below_ok(entries: Seq<SourceNodeView>, i: int)
    requires
        0 <= i < entries.len(),
        source_tree::bsl_below(entries) is Ok,
        entries[i].is_listed && !entries[i].is_link && entries[i].content is Directory,
    ensures
        source_tree::bsl_below(entries[i].content->Directory_0) is Ok,
    decreases entries.len(),
{
    if i > 0 {
        assert(entries.skip(1)[i - 1] == entries[i]);
        lemma_below_ok(entries.skip(1), i - 1);
    }
}

/// The claim of a module file for an object of a kind.
pub open spec fn module_claim(file: SourceNodeView, object_id: Seq<char>, property_id: Seq<char>) -> FindingView {
    FindingView::Module(
        ClaimView { path: file.path, canonical: file.canonical, object_id, property_id },
    )
}

/// A module file of a directory is claimed for the object, as the kind of module that its name and
/// the kind of the object stand for.
proof fn lemma_directory_claims(directory: SourceNodeView, object_id: Seq<char>, kind: Seq<char>, file: SourceNodeView, property_id: Seq<char>)
    requires
        source_tree::bsl_of(directory) is Ok,
        source_tree::bsl_of(directory)->Ok_0.contains(file),
        file.name_is_exact,
        metadata::property_of(kind, source_tree::stem(file.name)) == Some(property_id),
    ensures
        metadata::directory_findings(directory, object_id, kind).contains(
            module_claim(file, object_id, property_id),
        ),
{
    let files = source_tree::bsl_of(directory)->Ok_0;
    let k = choose|k: int| 0 <= k < files.len() && files[k] == file;
    let found = metadata::directory_findings(directory, object_id, kind);
    assert(found[k] == module_claim(file, object_id, property_id));
}

proof fn lemma_contains_left<T>(a: Seq<T>, b: Seq<T>, x: T)
    requires
        a.contains(x) || b.contains(x),
    ensures
        (a + b).contains(x),
{
    if a.contains(x) {
        let k = choose|k: int| 0 <= k < a.len() && a[k] == x;
        assert((a + b)[k] == x);
    } else {
        let k = choose|k: int| 0 <= k < b.len() && b[k] == x;
        assert((a + b)[a.len() + k] == x);
    }
}

/// A directory holds a module file, in itself or below.
pub open spec fn holds_module(directory: SourceNodeView, file: SourceNodeView) -> bool {
    &&& directory.content is Directory
    &&& source_tree::bsl_below(directory.content->Directory_0) is Ok
    &&& source_tree::bsl_below(directory.content->Directory_0)->Ok_0.contains(file)
    &&& file.name_is_exact
}

/// The modules in the directory `Ext` of an object are claimed for the object, and those of its
/// forms for the form, each as what its name stands for in an object of that kind.
pub proof fn modules_of_an_object_are_claimed(
    file: SourceNodeView,
    siblings: Seq<SourceNodeView>,
    directory: SourceNodeView,
    object: SourceNodeView,
    part: SourceNodeView,
    module: SourceNodeView,
    object_id: Seq<char>,
    property_id: Seq<char>,
)
    requires
        directory.name_is_exact,
        file.content is File,
        metadata_xml::object_uuid(file.content->File_0, file.path) == Ok::<Seq<char>, Seq<char>>(
            object_id,
        ),
        source_tree::named(siblings, source_tree::stem(file.name)) == Some(object),
        source_tree::child(object, "Ext"@) == Some(part),
        holds_module(part, module),
        metadata::property_of(directory.name, source_tree::stem(module.name)) == Some(property_id),
    ensures
        metadata::object_findings(file, siblings, directory).contains(
            module_claim(module, object_id, property_id),
        ),
{
    lemma_directory_claims(part, object_id, directory.name, module, property_id);
    lemma_contains_left(
        metadata::part_findings(object, "Ext"@, object_id, directory.name),
        metadata::object_forms_findings(object, directory.name),
        module_claim(module, object_id, property_id),
    );
}

proof fn lemma_forms(entries: Seq<SourceNodeView>, siblings: Seq<SourceNodeView>, kind: Seq<char>, i: int, claim: FindingView)
    requires
        0 <= i < entries.len(),
        entries[i].is_listed,
        !(entries[i].content is Broken),
        source_tree::extension(entries[i].name) == Some("xml"@),
        metadata::form_findings(entries[i], siblings, kind).contains(claim),
    ensures
        metadata::forms_findings(entries, siblings, kind).contains(claim),
    decreases entries.len(),
{
    let rest = entries.skip(1);
    if i == 0 {
        lemma_contains_left(
            metadata::form_findings(entries[0], siblings, kind),
            metadata::forms_findings(rest, siblings, kind),
            claim,
        );
    } else {
        assert(rest[i - 1] == entries[i]);
        lemma_forms(rest, siblings, kind, i - 1, claim);
        if entries[0].is_listed {
            let here = match entries[0].content {
                SourceContentView::Broken(message) => metadata::failure(message),
                _ => if source_tree::extension(entries[0].name) == Some("xml"@) {
                    metadata::form_findings(entries[0], siblings, kind)
                } else {
                    Seq::empty()
                },
            };
            lemma_contains_left(here, metadata::forms_findings(rest, siblings, kind), claim);
        }
    }
}

/// The modules of a form are claimed for the form, which has an identifier of its own.
pub proof fn modules_of_a_form_are_claimed(
    object: SourceNodeView,
    forms: SourceNodeView,
    i: int,
    form: SourceNodeView,
    module: SourceNodeView,
    kind: Seq<char>,
    form_id: Seq<char>,
    property_id: Seq<char>,
)
    requires
        source_tree::child(object, "Forms"@) == Some(forms),
        forms.content is Directory,
        0 <= i < forms.content->Directory_0.len(),
        ({
            let file = forms.content->Directory_0[i];
            &&& file.is_listed
            &&& file.content is File
            &&& source_tree::extension(file.name) == Some("xml"@)
            &&& metadata_xml::object_uuid(file.content->File_0, file.path) == Ok::<
                Seq<char>,
                Seq<char>,
            >(form_id)
            &&& source_tree::named(forms.content->Directory_0, source_tree::stem(file.name))
                == Some(form)
        }),
        holds_module(form, module),
        metadata::property_of(kind, source_tree::stem(module.name)) == Some(property_id),
    ensures
        metadata::object_forms_findings(object, kind).contains(
            module_claim(module, form_id, property_id),
        ),
{
    let entries = forms.content->Directory_0;
    lemma_directory_claims(form, form_id, kind, module, property_id);
    lemma_forms(entries, entries, kind, i, module_claim(module, form_id, property_id));
}

proof fn lemma_objects(entries: Seq<SourceNodeView>, siblings: Seq<SourceNodeView>, directory: SourceNodeView, i: int, claim: FindingView)
    requires
        0 <= i < entries.len(),
        entries[i].is_listed,
        !(entries[i].content is Broken),
        source_tree::extension(entries[i].name) == Some("xml"@),
        metadata::object_findings(entries[i], siblings, directory).contains(claim),
    ensures
        metadata::objects_findings(entries, siblings, directory).contains(claim),
    decreases entries.len(),
{
    let rest = entries.skip(1);
    if i == 0 {
        lemma_contains_left(
            metadata::object_findings(entries[0], siblings, directory),
            metadata::objects_findings(rest, siblings, directory),
            claim,
        );
    } else {
        assert(rest[i - 1] == entries[i]);
        lemma_objects(rest, siblings, directory, i - 1, claim);
        if entries[0].is_listed {
            let here = match entries[0].content {
                SourceContentView::Broken(message) => metadata::failure(message),
                _ => if source_tree::extension(entries[0].name) == Some("xml"@) {
                    metadata::object_findings(entries[0], siblings, directory)
                } else {
                    Seq::empty()
                },
            };
            lemma_contains_left(here, metadata::objects_findings(rest, siblings, directory), claim);
        }
    }
}

proof fn lemma_kinds(entries: Seq<SourceNodeView>, i: int, claim: FindingView)
    requires
        0 <= i < entries.len(),
        entries[i].is_listed,
        !entries[i].is_link,
        entries[i].name != "Ext"@,
        entries[i].content is Directory,
        metadata::objects_findings(
            entries[i].content->Directory_0,
            entries[i].content->Directory_0,
            entries[i],
        ).contains(claim),
    ensures
        metadata::kinds_findings(entries).contains(claim),
    decreases entries.len(),
{
    let rest = entries.skip(1);
    if i > 0 {
        assert(rest[i - 1] == entries[i]);
        lemma_kinds(rest, i - 1, claim);
    }
    if entries[0].is_listed {
        let first = entries[0];
        let here = match first.content {
            SourceContentView::Broken(message) => metadata::failure(message),
            SourceContentView::Directory(below) if !first.is_link && first.name != "Ext"@ => metadata::objects_findings(
                below,
                below,
                first,
            ),
            SourceContentView::Closed(message, _) if !first.is_link && first.name
                != "Ext"@ => metadata::failure(message),
            _ => Seq::empty(),
        };
        lemma_contains_left(here, metadata::kinds_findings(rest), claim);
    }
}

/// A module of an object of an unpacked configuration is registered: where the configuration is
/// loaded, the identifier of the object that its file tells, together with what the name of the
/// module stands for in an object of its kind, leads to the file of the module.
pub proof fn modules_of_objects_are_registered(
    source: SourceRootView,
    root: SourceNodeView,
    separator: char,
    extension_name: Seq<char>,
    registry: ModuleRegistryView,
    i: int,
    j: int,
    object: SourceNodeView,
    part: SourceNodeView,
    module: SourceNodeView,
    object_id: Seq<char>,
    property_id: Seq<char>,
)
    requires
        metadata::registry_wf(registry),
        !metadata::is_edt_project(root),
        root.content is Directory,
        0 <= i < root.content->Directory_0.len(),
        ({
            let kind = root.content->Directory_0[i];
            &&& kind.is_listed && !kind.is_link && kind.name_is_exact && kind.name != "Ext"@
            &&& kind.content is Directory
            &&& 0 <= j < kind.content->Directory_0.len()
            &&& ({
                let file = kind.content->Directory_0[j];
                &&& file.is_listed
                &&& file.content is File
                &&& source_tree::extension(file.name) == Some("xml"@)
                &&& metadata_xml::object_uuid(file.content->File_0, file.path) == Ok::<
                    Seq<char>,
                    Seq<char>,
                >(object_id)
                &&& source_tree::named(kind.content->Directory_0, source_tree::stem(file.name))
                    == Some(object)
            })
            &&& metadata::property_of(kind.name, source_tree::stem(module.name)) == Some(
                property_id,
            )
        }),
        source_tree::child(object, "Ext"@) == Some(part),
        holds_module(part, module),
        metadata::with_findings(
            registry,
            extension_name,
            metadata::root_findings(source, root, separator),
        ) is Ok,
    ensures
        module.canonical is Some,
        ordered::lookup(
            metadata::with_findings(
                registry,
                extension_name,
                metadata::root_findings(source, root, separator),
            )->Ok_0.by_identity,
            (extension_name, object_id, property_id),
        ) == module.canonical,
{
    let entries = root.content->Directory_0;
    let kind = entries[i];
    let siblings = kind.content->Directory_0;
    let claim = module_claim(module, object_id, property_id);
    modules_of_an_object_are_claimed(
        siblings[j],
        siblings,
        kind,
        object,
        part,
        module,
        object_id,
        property_id,
    );
    lemma_objects(siblings, siblings, kind, j, claim);
    lemma_kinds(entries, i, claim);
    let findings = metadata::root_findings(source, root, separator);
    match metadata::configuration_id_of(root, source.configuration, separator) {
        Ok(configuration_id) => {
            lemma_contains_left(
                metadata::part_findings(root, "Ext"@, configuration_id, Seq::empty()),
                metadata::kinds_findings(entries),
                claim,
            );
            let n = choose|n: int| 0 <= n < findings.len() && findings[n] == claim;
            every_found_module_is_registered(registry, extension_name, findings, n);
        },
        Err(message) => {
            assert(findings[0] is Failure);
            failures_end_the_loading(registry, extension_name, findings, 0);
        },
    }
}

/// A module of an unpacked configuration itself is registered under the identifier that
/// `Configuration.xml` tells.
pub proof fn modules_of_the_configuration_are_registered(
    source: SourceRootView,
    root: SourceNodeView,
    separator: char,
    extension_name: Seq<char>,
    registry: ModuleRegistryView,
    part: SourceNodeView,
    module: SourceNodeView,
    document: Seq<char>,
    configuration_id: Seq<char>,
    property_id: Seq<char>,
)
    requires
        metadata::registry_wf(registry),
        !metadata::is_edt_project(root),
        source.configuration == Ok::<Seq<char>, Seq<char>>(document),
        metadata_xml::object_uuid(
            document,
            metadata::joined_path(root.path, separator, "Configuration.xml"@),
        ) == Ok::<Seq<char>, Seq<char>>(configuration_id),
        source_tree::child(root, "Ext"@) == Some(part),
        holds_module(part, module),
        metadata::property_of(Seq::empty(), source_tree::stem(module.name)) == Some(property_id),
        metadata::with_findings(
            registry,
            extension_name,
            metadata::root_findings(source, root, separator),
        ) is Ok,
    ensures
        module.canonical is Some,
        ordered::lookup(
            metadata::with_findings(
                registry,
                extension_name,
                metadata::root_findings(source, root, separator),
            )->Ok_0.by_identity,
            (extension_name, configuration_id, property_id),
        ) == module.canonical,
{
    let claim = module_claim(module, configuration_id, property_id);
    lemma_directory_claims(part, configuration_id, Seq::empty(), module, property_id);
    let own = metadata::part_findings(root, "Ext"@, configuration_id, Seq::empty());
    let findings = metadata::root_findings(source, root, separator);
    let more = match root.content {
        SourceContentView::Directory(entries) => metadata::kinds_findings(entries),
        _ => metadata::failure("cannot read configuration directory "@ + root.path),
    };
    lemma_contains_left(own, more, claim);
    let n = choose|n: int| 0 <= n < findings.len() && findings[n] == claim;
    every_found_module_is_registered(registry, extension_name, findings, n);
}

/// A project of EDT is told by the file `DT-INF/PROJECT.PMF`.
pub proof fn projects_are_told_by_their_file(root: SourceNodeView, directory: SourceNodeView, file: SourceNodeView)
    ensures
        source_tree::child(root, "DT-INF"@) == Some(directory) && source_tree::child(
            directory,
            "PROJECT.PMF"@,
        ) == Some(file) && (file.content is File || file.content is Unreadable)
            ==> metadata::is_edt_project(root),
        source_tree::child(root, "DT-INF"@) is None ==> !metadata::is_edt_project(root),
        source_tree::child(root, "DT-INF"@) == Some(directory) && source_tree::child(
            directory,
            "PROJECT.PMF"@,
        ) is None ==> !metadata::is_edt_project(root),
{
}

proof fn lemma_direct(entries: Seq<SourceNodeView>, file: SourceNodeView)
    requires
        metadata::direct_bsl(entries) is Ok,
        entries.contains(file),
        is_module_file(file),
        !file.is_link,
    ensures
        metadata::direct_bsl(entries)->Ok_0.contains(file),
    decreases entries.len(),
{
    let rest = entries.skip(1);
    let all = metadata::direct_bsl(entries)->Ok_0;
    let i = choose|i: int| 0 <= i < entries.len() && entries[i] == file;
    if i == 0 {
        assert(all[0] == file);
    } else {
        assert(rest[i - 1] == file);
        lemma_direct(rest, file);
        let more = metadata::direct_bsl(rest)->Ok_0;
        let k = choose|k: int| 0 <= k < more.len() && more[k] == file;
        let n = all.len() - more.len();
        assert(all[n + k] == file);
    }
}

/// In a project of EDT the modules beside the description of an object are claimed for the object,
/// as what their names stand for in an object of its kind.
pub proof fn modules_of_edt_objects_are_claimed(object: EdtObjectView, module: SourceNodeView, object_id: Seq<char>, property_id: Seq<char>)
    requires
        object.file.content is File,
        metadata_xml::edt_object_uuid(object.file.content->File_0, object.file.path) == Ok::<
            Seq<char>,
            Seq<char>,
        >(object_id),
        object.kind_is_exact,
        metadata::direct_bsl(object.siblings) is Ok,
        object.siblings.contains(module),
        is_module_file(module),
        !module.is_link,
        module.name_is_exact,
        metadata::property_of(object.kind, source_tree::stem(module.name)) == Some(property_id),
    ensures
        metadata::edt_object_findings(object).contains(
            module_claim(module, object_id, property_id),
        ),
{
    lemma_direct(object.siblings, module);
    let files = metadata::direct_bsl(object.siblings)->Ok_0;
    let k = choose|k: int| 0 <= k < files.len() && files[k] == module;
    let direct = metadata::module_findings(files, object_id, object.kind);
    let claim = module_claim(module, object_id, property_id);
    assert(direct[k] == claim);
    let forms = match source_tree::named(object.siblings, "Forms"@) {
        Some(forms) => match forms.content {
            SourceContentView::Directory(entries) => metadata::edt_forms_findings(
                entries,
                object.file,
            ),
            SourceContentView::Closed(message, _) => metadata::failure(message),
            _ => Seq::empty(),
        },
        None => Seq::empty(),
    };
    lemma_contains_left(direct, forms, claim);
}

proof fn lemma_edt_forms(entries: Seq<SourceNodeView>, file: SourceNodeView, form: SourceNodeView, claim: FindingView)
    requires
        entries.contains(form),
        form.is_listed,
        form.content is Directory,
        !form.is_link,
        metadata::edt_form_findings(file, form).contains(claim),
    ensures
        metadata::edt_forms_findings(entries, file).contains(claim),
    decreases entries.len(),
{
    let rest = entries.skip(1);
    let i = choose|i: int| 0 <= i < entries.len() && entries[i] == form;
    if i > 0 {
        assert(rest[i - 1] == form);
        lemma_edt_forms(rest, file, form, claim);
    }
    if entries[0].is_listed {
        let first = entries[0];
        let here = match first.content {
            SourceContentView::Broken(message) => metadata::failure(message),
            _ => if source_tree::is_own_dir(first) {
                metadata::edt_form_findings(file, first)
            } else {
                Seq::empty()
            },
        };
        lemma_contains_left(here, metadata::edt_forms_findings(rest, file), claim);
    }
}

/// In a project of EDT the module of a form is the file `Module.bsl` of its directory, and is
/// claimed for the identifier that the description of the object gives to the form of that name, as
/// the module of a form.
pub proof fn modules_of_edt_forms_are_claimed(object: EdtObjectView, forms: SourceNodeView, form: SourceNodeView, module: SourceNodeView, object_id: Seq<char>, form_id: Seq<char>)
    requires
        object.file.content is File,
        metadata_xml::edt_object_uuid(object.file.content->File_0, object.file.path) == Ok::<
            Seq<char>,
            Seq<char>,
        >(object_id),
        object.kind_is_exact,
        source_tree::named(object.siblings, "Forms"@) == Some(forms),
        forms.content is Directory,
        forms.content->Directory_0.contains(form),
        form.is_listed && !form.is_link && form.name_is_exact,
        form.content is Directory,
        metadata_xml::form_uuid(object.file.content->File_0, object.file.path, form.name) == Ok::<
            Seq<char>,
            Seq<char>,
        >(form_id),
        source_tree::child(form, "Module.bsl"@) == Some(module),
        module.content is File,
    ensures
        metadata::edt_object_findings(object).contains(
            module_claim(module, form_id, "32e087ab-1491-49b6-aba7-43571b41ac2b"@),
        ),
{
    let claim = module_claim(module, form_id, "32e087ab-1491-49b6-aba7-43571b41ac2b"@);
    let found = metadata::edt_form_findings(object.file, form);
    assert(found[0] == claim);
    lemma_edt_forms(forms.content->Directory_0, object.file, form, claim);
    let direct = match metadata::direct_bsl(object.siblings) {
        Ok(files) => metadata::module_findings(files, object_id, object.kind),
        Err(message) => metadata::failure(message),
    };
    lemma_contains_left(
        direct,
        metadata::edt_forms_findings(forms.content->Directory_0, object.file),
        claim,
    );
}

proof fn lemma_edt_objects(objects: Seq<EdtObjectView>, object: EdtObjectView, claim: FindingView)
    requires
        objects.contains(object),
        metadata::edt_object_findings(object).contains(claim),
    ensures
        metadata::edt_objects_findings(objects).contains(claim),
    decreases objects.len(),
{
    let rest = objects.skip(1);
    let i = choose|i: int| 0 <= i < objects.len() && objects[i] == object;
    if i > 0 {
        assert(rest[i - 1] == object);
        lemma_edt_objects(rest, object, claim);
    }
    lemma_contains_left(
        metadata::edt_object_findings(objects[0]),
        metadata::edt_objects_findings(rest),
        claim,
    );
}

/// An object of EDT is described by a file `*.mdo`; its kind is the directory of `src` that it lies
/// in, however deep, and `Configuration` is no kind.
pub proof fn edt_objects_are_found(entries: Seq<SourceNodeView>, siblings: Seq<SourceNodeView>, kind: (Seq<char>, bool), i: int)
    requires
        0 <= i < entries.len(),
        entries[i].is_listed,
    ensures
        ({
            let found = metadata::edt_objects_below(entries, siblings, Some(kind));
            found is Ok && entries[i].content is File && source_tree::extension(entries[i].name)
                == Some("mdo"@) ==> found->Ok_0.contains(
                EdtObjectView {
                    file: entries[i],
                    siblings,
                    kind: kind.0,
                    kind_is_exact: kind.1,
                },
            )
        }),
        ({
            let found = metadata::edt_objects_below(entries, siblings, Some(kind));
            let below = entries[i].content->Directory_0;
            let inner = metadata::edt_objects_below(below, below, Some(kind));
            found is Ok && entries[i].content is Directory && !entries[i].is_link
                && entries[i].name != "Configuration"@ ==> inner is Ok && forall|object: EdtObjectView|
                inner->Ok_0.contains(object) ==> #[trigger] found->Ok_0.contains(object)
        }),
        ({
            let found = metadata::edt_objects_below(entries, siblings, None);
            let below = entries[i].content->Directory_0;
            let inner = metadata::edt_objects_below(
                below,
                below,
                Some((entries[i].name, entries[i].name_is_exact)),
            );
            found is Ok && entries[i].content is Directory && !entries[i].is_link
                && entries[i].name != "Configuration"@ ==> inner is Ok && forall|object: EdtObjectView|
                inner->Ok_0.contains(object) ==> #[trigger] found->Ok_0.contains(object)
        }),
{
    lemma_edt_below(entries, siblings, Some(kind), i);
    lemma_edt_below(entries, siblings, None, i);
}

proof fn lemma_edt_below(entries: Seq<SourceNodeView>, siblings: Seq<SourceNodeView>, kind: Option<(Seq<char>, bool)>, i: int)
    requires
        0 <= i < entries.len(),
        entries[i].is_listed,
    ensures
        ({
            let found = metadata::edt_objects_below(entries, siblings, kind);
            let own = if kind is Some {
                kind->0
            } else {
                (entries[i].name, entries[i].name_is_exact)
            };
            let below = entries[i].content->Directory_0;
            let inner = metadata::edt_objects_below(below, below, Some(own));
            &&& found is Ok && entries[i].content is File && source_tree::extension(
                entries[i].name,
            ) == Some("mdo"@) ==> found->Ok_0.contains(
                EdtObjectView { file: entries[i], siblings, kind: own.0, kind_is_exact: own.1 },
            )
            &&& found is Ok && entries[i].content is Directory && !entries[i].is_link
                && entries[i].name != "Configuration"@ ==> inner is Ok && forall|object: EdtObjectView|
                inner->Ok_0.contains(object) ==> #[trigger] found->Ok_0.contains(object)
        }),
    decreases entries.len(),
{
    let found = metadata::edt_objects_below(entries, siblings, kind);
    let rest = entries.skip(1);
    if found is Ok {
        let more = metadata::edt_objects_below(rest, siblings, kind)->Ok_0;
        let n = found->Ok_0.len() - more.len();
        let own = if kind is Some {
            kind->0
        } else {
            (entries[i].name, entries[i].name_is_exact)
        };
        let below = entries[i].content->Directory_0;
        let inner = metadata::edt_objects_below(below, below, Some(own));
        if i > 0 {
            assert(rest[i - 1] == entries[i]);
            lemma_edt_below(rest, siblings, kind, i - 1);
            assert forall|object: EdtObjectView| more.contains(object) implies #[trigger] found->Ok_0.contains(
                object,
            ) by {
                let k = choose|k: int| 0 <= k < more.len() && more[k] == object;
                assert(found->Ok_0[n + k] == object);
            }
            if entries[i].content is Directory && !entries[i].is_link && entries[i].name
                != "Configuration"@ {
                assert forall|object: EdtObjectView| inner->Ok_0.contains(object) implies #[trigger] found->Ok_0.contains(
                    object,
                ) by {
                    assert(more.contains(object));
                }
            }
        } else if entries[0].content is Directory && !entries[0].is_link && entries[0].name
            != "Configuration"@ {
            assert(found->Ok_0 == inner->Ok_0 + more);
            assert forall|object: EdtObjectView| inner->Ok_0.contains(object) implies #[trigger] found->Ok_0.contains(
                object,
            ) by {
                let k = choose|k: int| 0 <= k < inner->Ok_0.len() && inner->Ok_0[k] == object;
                assert(found->Ok_0[k] == object);
            }
        } else if entries[0].content is File && source_tree::extension(entries[0].name) == Some(
            "mdo"@,
        ) {
            assert(found->Ok_0[0] == (EdtObjectView {
                file: entries[0],
                siblings,
                kind: own.0,
                kind_is_exact: own.1,
            }));
        }
    }
}

/// What an object of EDT claims, and what the configuration of the project claims, is found in the
/// project.
pub proof fn claims_of_edt_objects_are_found(
    root: SourceNodeView,
    document: Result<Seq<char>, Seq<char>>,
    separator: char,
    source: SourceNodeView,
    objects: Seq<EdtObjectView>,
    object: EdtObjectView,
    claim: FindingView,
)
    requires
        metadata::edt_configuration_id_of(root, document, separator) is Ok,
        source_tree::child(root, "src"@) == Some(source),
        source.content is Directory,
        metadata::edt_objects_below(
            source.content->Directory_0,
            source.content->Directory_0,
            None,
        ) == Ok::<Seq<EdtObjectView>, Seq<char>>(objects),
        objects.contains(object),
        metadata::edt_object_findings(object).contains(claim),
    ensures
        metadata::edt_findings(root, document, separator).contains(claim),
{
    let configuration_id = metadata::edt_configuration_id_of(root, document, separator)->Ok_0;
    lemma_edt_objects(objects, object, claim);
    lemma_contains_left(
        metadata::part_findings(source, "Configuration"@, configuration_id, Seq::empty()),
        metadata::edt_objects_findings(objects),
        claim,
    );
}

/// The modules of the configuration of an EDT project lie in `src/Configuration`, and belong to the
/// identifier that `Configuration.mdo` tells.
pub proof fn modules_of_the_edt_configuration_are_claimed(
    root: SourceNodeView,
    document: Seq<char>,
    separator: char,
    source: SourceNodeView,
    part: SourceNodeView,
    module: SourceNodeView,
    configuration_id: Seq<char>,
    property_id: Seq<char>,
)
    requires
        metadata_xml::edt_object_uuid(
            document,
            metadata::joined_path(
                metadata::joined_path(root.path, separator, "src"@),
                separator,
                "Configuration/Configuration.mdo"@,
            ),
        ) == Ok::<Seq<char>, Seq<char>>(configuration_id),
        source_tree::child(root, "src"@) == Some(source),
        source_tree::child(source, "Configuration"@) == Some(part),
        holds_module(part, module),
        metadata::property_of(Seq::empty(), source_tree::stem(module.name)) == Some(property_id),
    ensures
        metadata::edt_findings(root, Ok(document), separator).contains(
            module_claim(module, configuration_id, property_id),
        ),
{
    let claim = module_claim(module, configuration_id, property_id);
    lemma_directory_claims(part, configuration_id, Seq::empty(), module, property_id);
    let own = metadata::part_findings(source, "Configuration"@, configuration_id, Seq::empty());
    let more = match source.content {
        SourceContentView::Directory(entries) => match metadata::edt_objects_below(
            entries,
            entries,
            None,
        ) {
            Ok(objects) => metadata::edt_objects_findings(objects),
            Err(message) => metadata::failure(message),
        },
        SourceContentView::Closed(message, _) => metadata::failure(message),
        _ => Seq::empty(),
    };
    lemma_contains_left(own, more, claim);
}

/// A root is searched as what it is: a project of EDT, or an unpacked configuration.
pub proof fn roots_are_searched_as_what_they_are(source: SourceRootView, node: SourceNodeView, separator: char)
    ensures
        metadata::is_edt_project(node) ==> metadata::root_findings(source, node, separator)
            == metadata::edt_findings(node, source.edt_configuration, separator),
        !metadata::is_edt_project(node) ==> metadata::root_findings(source, node, separator)
            == metadata::configuration_findings(node, source.configuration, separator),
        metadata::is_edt_project(node) && source.edt_configuration is Ok ==> metadata::root_name(
            source,
            node,
        ) == metadata_xml::name_of_edt_configuration(source.edt_configuration->Ok_0),
        !metadata::is_edt_project(node) && source.configuration is Ok ==> metadata::root_name(
            source,
            node,
        ) == metadata_xml::name_of_configuration(source.configuration->Ok_0),
{
}

proof fn lemma_extensions_keep(s: LoadView, root: SourceNodeView, extensions: Seq<SourceRootView>, separator: char, key: (Seq<char>, Seq<char>, Seq<char>))
    requires
        metadata::registry_wf(s.registry),
        ordered::lookup(s.registry.by_identity, key) is Some,
        metadata::with_extensions(s, root, extensions, separator) is Ok,
    ensures
        ordered::lookup(
            metadata::with_extensions(s, root, extensions, separator)->Ok_0.by_identity,
            key,
        ) == ordered::lookup(s.registry.by_identity, key),
    decreases extensions.len(),
{
    if extensions.len() > 0 {
        let next = metadata::with_extension(s, root, extensions[0], separator)->Ok_0;
        let node = extensions[0].node->0;
        let name = metadata::root_name(extensions[0], node)->Ok_0;
        lemma_registered_stays(
            s.registry,
            name,
            metadata::root_findings(extensions[0], node, separator),
            key,
        );
        lemma_extensions_keep(next, root, extensions.skip(1), separator, key);
    }
}

proof fn lemma_extension_registers(s: LoadView, root: SourceNodeView, extensions: Seq<SourceRootView>, separator: char, j: int, claim: ClaimView)
    requires
        metadata::registry_wf(s.registry),
        metadata::with_extensions(s, root, extensions, separator) is Ok,
        0 <= j < extensions.len(),
        extensions[j].node is Some,
        metadata::root_findings(extensions[j], extensions[j].node->0, separator).contains(
            FindingView::Module(claim),
        ),
    ensures
        metadata::root_name(extensions[j], extensions[j].node->0) is Ok,
        claim.canonical is Some,
        ordered::lookup(
            metadata::with_extensions(s, root, extensions, separator)->Ok_0.by_identity,
            (
                metadata::root_name(extensions[j], extensions[j].node->0)->Ok_0,
                claim.object_id,
                claim.property_id,
            ),
        ) == claim.canonical,
    decreases extensions.len(),
{
    let rest = extensions.skip(1);
    let next = metadata::with_extension(s, root, extensions[0], separator)->Ok_0;
    let node = extensions[0].node->0;
    let name = metadata::root_name(extensions[0], node)->Ok_0;
    let findings = metadata::root_findings(extensions[0], node, separator);
    lemma_findings_keep_order(s.registry, name, findings);
    if j == 0 {
        let n = choose|n: int| 0 <= n < findings.len() && findings[n] == FindingView::Module(claim);
        every_found_module_is_registered(s.registry, name, findings, n);
        lemma_extensions_keep(
            next,
            root,
            rest,
            separator,
            (name, claim.object_id, claim.property_id),
        );
    } else {
        assert(rest[j - 1] == extensions[j]);
        lemma_extension_registers(next, root, rest, separator, j - 1, claim);
    }
}

proof fn lemma_findings_keep_order(registry: ModuleRegistryView, extension_name: Seq<char>, findings: Seq<FindingView>)
    requires
        metadata::registry_wf(registry),
    ensures
        metadata::with_findings(registry, extension_name, findings) matches Ok(next)
            ==> metadata::registry_wf(next),
    decreases findings.len(),
{
    if findings.len() > 0 {
        if let FindingView::Module(claim) = findings[0] {
            if let Ok(next) = metadata::cached(registry, extension_name, claim) {
                lemma_cached_keys(registry, extension_name, claim);
                lemma_findings_keep_order(next, extension_name, findings.skip(1));
            }
        }
    }
}

/// Once sources are loaded, every module that was found is known by its identity: those of the base
/// configuration without an extension, and those of an extension under its name. Whatever is loaded
/// later, they stay known.
pub proof fn loaded_modules_are_known(sources: SourcesView, root: SourceNodeView, registry: ModuleRegistryView, claim: ClaimView, j: int)
    requires
        sources.root.node == Some(root),
        metadata::loaded(sources) == Ok::<ModuleRegistryView, Seq<char>>(registry),
    ensures
        metadata::root_findings(sources.root, root, sources.separator).contains(
            FindingView::Module(claim),
        ) ==> claim.canonical is Some && ordered::lookup(
            registry.by_identity,
            (Seq::empty(), claim.object_id, claim.property_id),
        ) == claim.canonical,
        0 <= j < sources.extensions.len() && sources.extensions[j].node is Some
            && metadata::root_findings(
            sources.extensions[j],
            sources.extensions[j].node->0,
            sources.separator,
        ).contains(FindingView::Module(claim)) ==> metadata::root_name(
            sources.extensions[j],
            sources.extensions[j].node->0,
        ) is Ok && claim.canonical is Some && ordered::lookup(
            registry.by_identity,
            (
                metadata::root_name(
                    sources.extensions[j],
                    sources.extensions[j].node->0,
                )->Ok_0,
                claim.object_id,
                claim.property_id,
            ),
        ) == claim.canonical,
{
    let findings = metadata::root_findings(sources.root, root, sources.separator);
    let base = metadata::with_findings(metadata::empty_registry(), Seq::empty(), findings)->Ok_0;
    let s = LoadView { registry: base, paths: Seq::empty(), names: Seq::empty() };
    lemma_findings_keep_order(metadata::empty_registry(), Seq::empty(), findings);
    if findings.contains(FindingView::Module(claim)) {
        let n = choose|n: int| 0 <= n < findings.len() && findings[n] == FindingView::Module(claim);
        every_found_module_is_registered(metadata::empty_registry(), Seq::empty(), findings, n);
        lemma_extensions_keep(
            s,
            root,
            sources.extensions,
            sources.separator,
            (Seq::empty(), claim.object_id, claim.property_id),
        );
    }
    if 0 <= j < sources.extensions.len() && sources.extensions[j].node is Some
        && metadata::root_findings(
        sources.extensions[j],
        sources.extensions[j].node->0,
        sources.separator,
    ).contains(FindingView::Module(claim)) {
        lemma_extension_registers(s, root, sources.extensions, sources.separator, j, claim);
    }
}

/// An extension is refused where its directory cannot be resolved, or is the base configuration, or
/// is an extension before it; so is one with the name of an extension before it, unless the name is
/// blank.
pub proof fn extensions_are_told_apart(s: LoadView, root: SourceNodeView, extension: SourceRootView, separator: char, name: Seq<char>)
    ensures
        extension.node is None ==> metadata::with_extension(s, root, extension, separator) == Err::<
            LoadView,
            Seq<char>,
        >("cannot resolve extension configuration source directory "@ + extension.path),
        extension.node is Some && metadata::root_name(extension, extension.node->0) == Ok::<
            Seq<char>,
            Seq<char>,
        >(name) ==> {
            let path = extension.node->0.path;
            let outcome = metadata::with_extension(s, root, extension, separator);
            &&& path == root.path ==> outcome == Err::<LoadView, Seq<char>>(
                "extension configuration source "@ + extension.path
                    + " is the same as base configuration source "@ + root.path,
            )
            &&& path != root.path && metadata::paired(s.paths, path) is Some ==> outcome is Err
            &&& path != root.path && text::trim(name).len() > 0 && metadata::paired(s.names, name)
                is Some ==> outcome is Err
            &&& outcome is Ok ==> metadata::paired(outcome->Ok_0.paths, path) == Some(
                extension.path,
            ) && (text::trim(name).len() > 0 ==> metadata::paired(outcome->Ok_0.names, name)
                == Some(path))
        },
{
    if let Ok(next) = metadata::with_extension(s, root, extension, separator) {
        let path = extension.node->0.path;
        lemma_paired(s.paths, path, extension.path);
        let own = metadata::root_name(extension, extension.node->0)->Ok_0;
        if text::trim(own).len() > 0 {
            lemma_paired(s.names, own, path);
        }
    }
}

proof fn lemma_paired(pairs: Seq<(Seq<char>, Seq<char>)>, key: Seq<char>, value: Seq<char>)
    requires
        metadata::paired(pairs, key) is None,
    ensures
        metadata::paired(pairs.push((key, value)), key) == Some(value),
    decreases pairs.len(),
{
    let more = pairs.push((key, value));
    if pairs.len() > 0 {
        assert(more.skip(1) =~= pairs.skip(1).push((key, value)));
        lemma_paired(pairs.skip(1), key, value);
    }
}

/// The identifier of a tag is its attribute `uuid`, with whatever prefix; those before it are passed
/// over.
pub proof fn identifiers_are_attributes(name: Seq<char>, raw: Seq<char>, value: Seq<char>, rest: Seq<XmlAttributeView>)
    ensures
        xml::local(name) == "uuid"@ && xml::xml_unescaped_value(raw) == Some(value)
            ==> metadata_xml::uuid_among(seq![XmlAttributeView::Pair(name, raw)] + rest) == Ok::<
            Option<Seq<char>>,
            Seq<char>,
        >(Some(value)),
        xml::local(name) != "uuid"@ ==> metadata_xml::uuid_among(
            seq![XmlAttributeView::Pair(name, raw)] + rest,
        ) == metadata_xml::uuid_among(rest),
        metadata_xml::uuid_among(Seq::empty()) == Ok::<Option<Seq<char>>, Seq<char>>(None),
{
    assert((seq![XmlAttributeView::Pair(name, raw)] + rest).skip(1) =~= rest);
}

/// In a description of an unpacked configuration, the identifier of the object is the first one
/// within `MetaDataObject`.
pub proof fn objects_are_identified_within_their_description(name: Seq<char>, tag: Seq<char>, uuid: Seq<char>, rest: Seq<XmlEventView>, path: Seq<char>, inside: bool)
    ensures
        ({
            let begun = seq![XmlEventView::Start(name, tag)] + rest;
            let whole = seq![XmlEventView::Empty(name, tag)] + rest;
            let own = xml::local(name) == "MetaDataObject"@;
            let identified = metadata_xml::uuid_among(xml::xml_attributes(tag, name)) == Ok::<
                Option<Seq<char>>,
                Seq<char>,
            >(Some(uuid));
            let nameless = metadata_xml::uuid_among(xml::xml_attributes(tag, name)) == Ok::<
                Option<Seq<char>>,
                Seq<char>,
            >(None);
            &&& own ==> metadata_xml::object_uuid_in(begun, inside, path)
                == metadata_xml::object_uuid_in(rest, true, path)
            &&& !own && identified ==> metadata_xml::object_uuid_in(begun, true, path) == Ok::<
                Seq<char>,
                Seq<char>,
            >(uuid)
            &&& identified ==> metadata_xml::object_uuid_in(whole, true, path) == Ok::<
                Seq<char>,
                Seq<char>,
            >(uuid)
            &&& !own && nameless ==> metadata_xml::object_uuid_in(begun, inside, path)
                == metadata_xml::object_uuid_in(rest, inside, path)
            &&& !own ==> metadata_xml::object_uuid_in(begun, false, path)
                == metadata_xml::object_uuid_in(rest, false, path)
        }),
        metadata_xml::object_uuid_in(seq![XmlEventView::Eof] + rest, inside, path) == Err::<
            Seq<char>,
            Seq<char>,
        >("metadata XML "@ + path + " has no object UUID"@),
{
    assert((seq![XmlEventView::Start(name, tag)] + rest).drop_first() =~= rest);
    assert((seq![XmlEventView::Empty(name, tag)] + rest).drop_first() =~= rest);
}

/// In a description of EDT, the identifier of the object is the first one at all.
pub proof fn edt_objects_are_identified_first(name: Seq<char>, tag: Seq<char>, uuid: Seq<char>, rest: Seq<XmlEventView>, path: Seq<char>)
    ensures
        metadata_xml::uuid_among(xml::xml_attributes(tag, name)) == Ok::<
            Option<Seq<char>>,
            Seq<char>,
        >(Some(uuid)) ==> metadata_xml::edt_uuid_in(
            seq![XmlEventView::Start(name, tag)] + rest,
            path,
        ) == Ok::<Seq<char>, Seq<char>>(uuid) && metadata_xml::edt_uuid_in(
            seq![XmlEventView::Empty(name, tag)] + rest,
            path,
        ) == Ok::<Seq<char>, Seq<char>>(uuid),
        metadata_xml::uuid_among(xml::xml_attributes(tag, name)) == Ok::<
            Option<Seq<char>>,
            Seq<char>,
        >(None) ==> metadata_xml::edt_uuid_in(seq![XmlEventView::Start(name, tag)] + rest, path)
            == metadata_xml::edt_uuid_in(rest, path),
        metadata_xml::edt_uuid_in(seq![XmlEventView::Eof] + rest, path) == Err::<
            Seq<char>,
            Seq<char>,
        >("EDT metadata file "@ + path + " has no object UUID"@),
{
    assert((seq![XmlEventView::Start(name, tag)] + rest).drop_first() =~= rest);
}

/// The name of an unpacked configuration is the text of the first `Name` within `Properties`; that
/// of a project of EDT is the text of the first `name`.
pub proof fn configurations_are_named(document: Seq<char>, name: Seq<char>, tag: Seq<char>, content: Seq<char>, rest: Seq<XmlEventView>, inside: bool)
    ensures
        ({
            let begun = seq![XmlEventView::Start(name, tag)] + rest;
            let told = xml::xml_inner_text(document, false, rest.len(), name) == Ok::<
                Seq<char>,
                Seq<char>,
            >(content);
            &&& xml::local(name) == "Properties"@ ==> metadata_xml::name_in(
                document,
                begun,
                inside,
            ) == metadata_xml::name_in(document, rest, true)
            &&& xml::local(name) == "Name"@ && told ==> metadata_xml::name_in(
                document,
                begun,
                true,
            ) == Ok::<Seq<char>, Seq<char>>(content)
            &&& xml::local(name) != "Properties"@ ==> metadata_xml::name_in(document, begun, false)
                == metadata_xml::name_in(document, rest, false)
            &&& xml::local(name) != "Properties"@ && xml::local(name) != "Name"@
                ==> metadata_xml::name_in(document, begun, true) == metadata_xml::name_in(
                document,
                rest,
                true,
            )
            &&& xml::local(name) == "name"@ && told ==> metadata_xml::edt_name_in(document, begun)
                == Ok::<Seq<char>, Seq<char>>(content)
            &&& xml::local(name) != "name"@ ==> metadata_xml::edt_name_in(document, begun)
                == metadata_xml::edt_name_in(document, rest)
        }),
{
    reveal_strlit("Properties");
    reveal_strlit("Name");
    assert("Properties"@.len() == 10 && "Name"@.len() == 4);
    let begun = seq![XmlEventView::Start(name, tag)] + rest;
    assert(begun.drop_first() =~= rest);
    assert(begun.len() - 1 == rest.len());
}

/// The identifier of a form of an EDT object is that of the element `forms` whose `name` is the name
/// of the form.
pub proof fn edt_forms_are_identified_by_their_name(
    document: Seq<char>,
    name: Seq<char>,
    tag: Seq<char>,
    uuid: Option<Seq<char>>,
    content: Seq<char>,
    rest: Seq<XmlEventView>,
    path: Seq<char>,
    form: Seq<char>,
    candidate: Option<Seq<char>>,
    in_form: bool,
)
    ensures
        ({
            let begun = seq![XmlEventView::Start(name, tag)] + rest;
            let ended = seq![XmlEventView::End(name)] + rest;
            let told = xml::xml_inner_text(document, false, rest.len(), name) == Ok::<
                Seq<char>,
                Seq<char>,
            >(content);
            &&& xml::local(name) == "forms"@ && metadata_xml::uuid_among(
                xml::xml_attributes(tag, name),
            ) == Ok::<Option<Seq<char>>, Seq<char>>(uuid) ==> metadata_xml::form_uuid_in(
                document,
                begun,
                candidate,
                in_form,
                path,
                form,
            ) == metadata_xml::form_uuid_in(document, rest, uuid, true, path, form)
            &&& xml::local(name) == "name"@ && told && content == form && candidate is Some
                ==> metadata_xml::form_uuid_in(document, begun, candidate, true, path, form)
                == Ok::<Seq<char>, Seq<char>>(candidate->0)
            &&& xml::local(name) == "forms"@ ==> metadata_xml::form_uuid_in(
                document,
                ended,
                candidate,
                in_form,
                path,
                form,
            ) == metadata_xml::form_uuid_in(document, rest, None, false, path, form)
            &&& xml::local(name) != "forms"@ ==> metadata_xml::form_uuid_in(
                document,
                begun,
                candidate,
                false,
                path,
                form,
            ) == metadata_xml::form_uuid_in(document, rest, candidate, false, path, form)
        }),
        metadata_xml::form_uuid_in(
            document,
            seq![XmlEventView::Eof] + rest,
            candidate,
            in_form,
            path,
            form,
        ) == Err::<Seq<char>, Seq<char>>(
            "EDT metadata file "@ + path + " has no form named "@ + form,
        ),
{
    reveal_strlit("forms");
    reveal_strlit("name");
    assert("forms"@.len() == 5 && "name"@.len() == 4);
    let begun = seq![XmlEventView::Start(name, tag)] + rest;
    let ended = seq![XmlEventView::End(name)] + rest;
    assert(begun.drop_first() =~= rest);
    assert(ended.drop_first() =~= rest);
}

/// A module that is not of a known kind is told of, with its kind and its name.
pub proof fn unknown_modules_are_told_of(file: SourceNodeView, object_id: Seq<char>, kind: Seq<char>)
    requires
        file.name_is_exact,
        metadata::property_of(kind, source_tree::stem(file.name)) is None,
    ensures
        metadata::module_finding(file, object_id, kind) == FindingView::Failure(
            "unknown 1C module type "@ + kind + "\\"@ + source_tree::stem(file.name),
        ),
{
}

/// A module that is found for an identity that is known already is refused, and so is one whose path
/// cannot be resolved.
pub proof fn identities_are_not_shared(registry: ModuleRegistryView, extension_name: Seq<char>, claim: ClaimView, previous: Seq<char>, path: Seq<char>)
    ensures
        claim.canonical is None ==> metadata::cached(registry, extension_name, claim) == Err::<
            ModuleRegistryView,
            Seq<char>,
        >("cannot resolve module path "@ + claim.path),
        claim.canonical == Some(path) && ordered::lookup(
            registry.by_identity,
            (extension_name, claim.object_id, claim.property_id),
        ) == Some(previous) ==> metadata::cached(registry, extension_name, claim) == Err::<
            ModuleRegistryView,
            Seq<char>,
        >(
            "module identity collision for extension "@ + text::debug_notation(extension_name)
                + ", object "@ + claim.object_id + ", property "@ + claim.property_id + ": "@
                + previous + " and "@ + path,
        ),
        claim.canonical is Some && ordered::lookup(
            registry.by_identity,
            (extension_name, claim.object_id, claim.property_id),
        ) is None ==> metadata::cached(registry, extension_name, claim) is Ok,
{
}

/// An entry that could not be read ends the loading wherever modules are searched, with its own
/// message; a directory that could not be opened does so too, where it would be searched.
pub proof fn unreadable_entries_are_failures(entries: Seq<SourceNodeView>, siblings: Seq<SourceNodeView>, directory: SourceNodeView, kind: Seq<char>, message: Seq<char>, i: int)
    requires
        0 <= i < entries.len(),
        entries[i].is_listed,
        entries[i].content == SourceContentView::Broken(message),
    ensures
        metadata::kinds_findings(entries).contains(FindingView::Failure(message)),
        metadata::objects_findings(entries, siblings, directory).contains(
            FindingView::Failure(message),
        ),
        metadata::forms_findings(entries, siblings, kind).contains(FindingView::Failure(message)),
        source_tree::bsl_below(entries) is Err,
        metadata::direct_bsl(entries) is Err,
        metadata::edt_objects_below(entries, siblings, None) is Err,
    decreases entries.len(),
{
    let failure = FindingView::Failure(message);
    let rest = entries.skip(1);
    if i > 0 {
        assert(rest[i - 1] == entries[i]);
        unreadable_entries_are_failures(rest, siblings, directory, kind, message, i - 1);
    } else {
        assert(metadata::failure(message)[0] == failure);
    }
    let kinds = metadata::kinds_findings(entries);
    let more_kinds = metadata::kinds_findings(rest);
    assert(kinds.skip(kinds.len() - more_kinds.len()) =~= more_kinds);
    lemma_suffix(kinds, more_kinds, failure, i);
    let objects = metadata::objects_findings(entries, siblings, directory);
    let more_objects = metadata::objects_findings(rest, siblings, directory);
    assert(objects.skip(objects.len() - more_objects.len()) =~= more_objects);
    lemma_suffix(objects, more_objects, failure, i);
    let forms = metadata::forms_findings(entries, siblings, kind);
    let more_forms = metadata::forms_findings(rest, siblings, kind);
    assert(forms.skip(forms.len() - more_forms.len()) =~= more_forms);
    lemma_suffix(forms, more_forms, failure, i);
}

proof fn lemma_suffix(all: Seq<FindingView>, more: Seq<FindingView>, failure: FindingView, i: int)
    requires
        0 <= i,
        all.len() >= more.len(),
        all.skip(all.len() - more.len()) == more,
        i == 0 ==> all.len() > 0 && all[0] == failure,
        i > 0 ==> more.contains(failure),
    ensures
        all.contains(failure),
{
    if i > 0 {
        let k = choose|k: int| 0 <= k < more.len() && more[k] == failure;
        assert(all[all.len() - more.len() + k] == all.skip(all.len() - more.len())[k]);
    }
}

/// The text of a file is read where the file describes objects: every `*.mdo`, and an `*.xml` no
/// deeper than four levels below the root.
pub proof fn descriptions_are_read(name: Seq<char>, depth: int)
    ensures
        source_tree::extension(name) == Some("mdo"@) ==> source_tree::describes_objects(
            name,
            depth,
        ),
        source_tree::extension(name) == Some("xml"@) && depth <= 4
            ==> source_tree::describes_objects(name, depth),
        source_tree::extension(name) == Some("xml"@) && depth > 4
            ==> !source_tree::describes_objects(name, depth),
        source_tree::extension(name) == Some("bsl"@) ==> !source_tree::describes_objects(
            name,
            depth,
        ),
        source_tree::extension(name) is None ==> !source_tree::describes_objects(name, depth),
{
    reveal_strlit("mdo");
    reveal_strlit("xml");
    reveal_strlit("bsl");
    assert("mdo"@[0] == 'm' && "xml"@[0] == 'x' && "bsl"@[0] == 'b');
}

proof fn lemma_unlisted(names: Seq<Seq<char>>, listed: Seq<Seq<char>>, name: Seq<char>)
    ensures
        source_tree::unlisted(names, listed).contains(name) == (names.contains(name)
            && !listed.contains(name)),
    decreases names.len(),
{
    if names.len() > 0 {
        let front = names.drop_last();
        lemma_unlisted(front, listed, name);
        let before = source_tree::unlisted(front, listed);
        if names.contains(name) {
            let k = choose|k: int| 0 <= k < names.len() && names[k] == name;
            if k < front.len() {
                assert(front[k] == name);
            }
        }
        if front.contains(name) {
            let k = choose|k: int| 0 <= k < front.len() && front[k] == name;
            assert(names[k] == name);
        }
        assert(names[names.len() - 1] == names.last());
        let all = before.push(names.last());
        if before.contains(name) {
            let k = choose|k: int| 0 <= k < before.len() && before[k] == name;
            assert(all[k] == name);
        }
        if all.contains(name) {
            let k = choose|k: int| 0 <= k < all.len() && all[k] == name;
            if k < before.len() {
                assert(before[k] == name);
            }
        }
        assert(all[before.len() as int] == names.last());
    }
}

proof fn lemma_described(listed: Seq<Seq<char>>, i: int)
    requires
        0 <= i < listed.len(),
        source_tree::extension(listed[i]) == Some("xml"@),
    ensures
        source_tree::described_names(listed).contains(source_tree::stem(listed[i])),
    decreases listed.len(),
{
    let front = listed.drop_last();
    let before = source_tree::described_names(front);
    let all = source_tree::described_names(listed);
    if i < front.len() {
        lemma_described(front, i);
        assert(front[i] == listed[i]);
        let k = choose|k: int| 0 <= k < before.len() && before[k] == source_tree::stem(listed[i]);
        assert(all[k] == before[k]);
    } else {
        assert(all[before.len() as int] == source_tree::stem(listed[i]));
    }
}

/// In a directory the names that modules are searched under are looked for, and the name of each
/// described object, unless the directory lists them.
pub proof fn names_are_looked_for_where_they_are_not_listed(listed: Seq<Seq<char>>, i: int)
    ensures
        !listed.contains("Ext"@) ==> source_tree::sought_names(listed).contains("Ext"@),
        !listed.contains("Forms"@) ==> source_tree::sought_names(listed).contains("Forms"@),
        !listed.contains("DT-INF"@) ==> source_tree::sought_names(listed).contains("DT-INF"@),
        !listed.contains("PROJECT.PMF"@) ==> source_tree::sought_names(listed).contains(
            "PROJECT.PMF"@,
        ),
        !listed.contains("src"@) ==> source_tree::sought_names(listed).contains("src"@),
        !listed.contains("Configuration"@) ==> source_tree::sought_names(listed).contains(
            "Configuration"@,
        ),
        !listed.contains("Module.bsl"@) ==> source_tree::sought_names(listed).contains(
            "Module.bsl"@,
        ),
        0 <= i < listed.len() && source_tree::extension(listed[i]) == Some("xml"@)
            && !listed.contains(source_tree::stem(listed[i])) ==> source_tree::sought_names(
            listed,
        ).contains(source_tree::stem(listed[i])),
        0 <= i < listed.len() ==> !source_tree::sought_names(listed).contains(listed[i]),
{
    let fixed = source_tree::fixed_names();
    let described = source_tree::described_names(listed);
    let names = fixed + described;
    assert(names[0] == "Ext"@ && names[1] == "Forms"@ && names[2] == "DT-INF"@);
    assert(names[3] == "PROJECT.PMF"@ && names[4] == "src"@ && names[5] == "Configuration"@);
    assert(names[6] == "Module.bsl"@);
    lemma_unlisted(names, listed, "Ext"@);
    lemma_unlisted(names, listed, "Forms"@);
    lemma_unlisted(names, listed, "DT-INF"@);
    lemma_unlisted(names, listed, "PROJECT.PMF"@);
    lemma_unlisted(names, listed, "src"@);
    lemma_unlisted(names, listed, "Configuration"@);
    lemma_unlisted(names, listed, "Module.bsl"@);
    if 0 <= i < listed.len() {
        lemma_unlisted(names, listed, listed[i]);
        if source_tree::extension(listed[i]) == Some("xml"@) {
            lemma_described(listed, i);
            let stem = source_tree::stem(listed[i]);
            let k = choose|k: int| 0 <= k < described.len() && described[k] == stem;
            assert(names[fixed.len() + k] == stem);
            lemma_unlisted(names, listed, stem);
        }
    }
}

/// A name is found in a directory by the first entry that has it.
pub proof fn entries_are_found_by_their_name(first: SourceNodeView, rest: Seq<SourceNodeView>, name: Seq<char>)
    ensures
        first.name == name ==> source_tree::named(seq![first] + rest, name) == Some(first),
        first.name != name ==> source_tree::named(seq![first] + rest, name) == source_tree::named(
            rest,
            name,
        ),
        source_tree::named(Seq::empty(), name) is None,
{
    assert((seq![first] + rest).skip(1) =~= rest);
}

/// Descriptions that cannot be read, and names that are no text, end the loading in words.
pub proof fn unreadable_descriptions_are_told_of(
    file: SourceNodeView,
    siblings: Seq<SourceNodeView>,
    directory: SourceNodeView,
    object: EdtObjectView,
    form: SourceNodeView,
    root: SourceNodeView,
    separator: char,
    message: Seq<char>,
    sources: SourcesView,
)
    ensures
        !file.name_is_exact ==> metadata::module_finding(file, siblings[0].name, directory.name)
            == FindingView::Failure("module file has no UTF-8 stem"@),
        !(file.content is File) ==> metadata::object_findings(file, siblings, directory)
            == metadata::failure("cannot read metadata XML "@ + file.path),
        metadata::object_id_of(file) is Ok && !directory.name_is_exact ==> metadata::object_findings(
            file,
            siblings,
            directory,
        ) == metadata::failure("cannot determine metadata type"@),
        metadata::configuration_id_of(root, Err(message), separator) == Err::<Seq<char>, Seq<char>>(
            "cannot read metadata XML "@ + metadata::joined_path(
                root.path,
                separator,
                "Configuration.xml"@,
            ),
        ),
        !(object.file.content is File) ==> metadata::edt_object_findings(object)
            == metadata::failure("cannot read EDT metadata file "@ + object.file.path),
        metadata::edt_id_of(object.file) is Ok && !object.kind_is_exact
            ==> metadata::edt_object_findings(object) == metadata::failure(
            "cannot determine EDT metadata type"@,
        ),
        !form.name_is_exact ==> metadata::edt_form_findings(file, form) == metadata::failure(
            "EDT form directory name is not UTF-8"@,
        ),
        form.name_is_exact && !(file.content is File) ==> metadata::edt_form_findings(file, form)
            == metadata::failure("cannot read EDT metadata file "@ + file.path),
        metadata::edt_configuration_id_of(root, Err(message), separator) == Err::<
            Seq<char>,
            Seq<char>,
        >(
            "cannot read EDT metadata file "@ + metadata::joined_path(
                metadata::joined_path(root.path, separator, "src"@),
                separator,
                "Configuration/Configuration.mdo"@,
            ),
        ),
        sources.root.node is None ==> metadata::loaded(sources) == Err::<
            ModuleRegistryView,
            Seq<char>,
        >("cannot resolve base configuration source directory "@ + sources.root.path),
{
}

/// Extensions that cannot be told apart are told of, with both places.
pub proof fn extensions_that_are_the_same_are_told_of(s: LoadView, root: SourceNodeView, extension: SourceRootView, separator: char, name: Seq<char>, previous: Seq<char>)
    requires
        extension.node is Some,
        extension.node->0.path != root.path,
        metadata::root_name(extension, extension.node->0) == Ok::<Seq<char>, Seq<char>>(name),
    ensures
        metadata::paired(s.paths, extension.node->0.path) == Some(previous)
            ==> metadata::with_extension(s, root, extension, separator) == Err::<
            LoadView,
            Seq<char>,
        >(
            "extension configuration "@ + extension.path + " ("@ + name
                + ") duplicates extension configuration "@ + previous + " ("@ + name + ")"@,
        ),
        metadata::paired(s.paths, extension.node->0.path) is None && text::trim(name).len() > 0
            && metadata::paired(s.names, name) == Some(previous) ==> metadata::with_extension(
            s,
            root,
            extension,
            separator,
        ) == Err::<LoadView, Seq<char>>(
            "extension configurations "@ + previous + " and "@ + extension.node->0.path
                + " have the same logical name "@ + text::debug_notation(name),
        ),
{
}

/// Names and identifiers that cannot be read are told of.
pub proof fn unreadable_names_are_told_of(document: Seq<char>, name: Seq<char>, raw: Seq<char>, tag: Seq<char>, attributes: Seq<XmlAttributeView>, rest: Seq<XmlEventView>, inside: bool, path: Seq<char>, form: Seq<char>)
    ensures
        xml::local(name) == "uuid"@ && xml::xml_unescaped_value(raw) is None
            ==> metadata_xml::uuid_among(seq![XmlAttributeView::Pair(name, raw)] + attributes)
            == Err::<Option<Seq<char>>, Seq<char>>("cannot decode metadata UUID"@),
        metadata_xml::name_in(document, seq![XmlEventView::Eof] + rest, inside) == Err::<
            Seq<char>,
            Seq<char>,
        >("extension configuration has no name"@),
        metadata_xml::edt_name_in(document, seq![XmlEventView::Eof] + rest) == Err::<
            Seq<char>,
            Seq<char>,
        >("EDT configuration has no name"@),
        xml::local(name) == "Name"@ && xml::xml_inner_text(document, false, rest.len(), name) is Err
            ==> metadata_xml::name_in(document, seq![XmlEventView::Start(name, tag)] + rest, true)
            == Err::<Seq<char>, Seq<char>>("cannot read extension configuration name"@),
        xml::local(name) == "name"@ && xml::xml_inner_text(document, false, rest.len(), name) is Err
            ==> metadata_xml::edt_name_in(document, seq![XmlEventView::Start(name, tag)] + rest)
            == Err::<Seq<char>, Seq<char>>("cannot read EDT configuration name"@),
        xml::local(name) == "name"@ && xml::xml_inner_text(document, false, rest.len(), name)
            == Ok::<Seq<char>, Seq<char>>(form) ==> metadata_xml::form_uuid_in(
            document,
            seq![XmlEventView::Start(name, tag)] + rest,
            None,
            true,
            path,
            form,
        ) == Err::<Seq<char>, Seq<char>>("EDT form has no UUID"@),
{
    reveal_strlit("Properties");
    reveal_strlit("Name");
    reveal_strlit("forms");
    reveal_strlit("name");
    assert("Properties"@.len() == 10 && "Name"@.len() == 4);
    assert("forms"@.len() == 5 && "name"@.len() == 4);
    let begun = seq![XmlEventView::Start(name, tag)] + rest;
    assert(begun.drop_first() =~= rest);
    assert(begun.len() - 1 == rest.len());
}

/// Modules are loaded where their paths are resolved and their identities are new and differ.
pub proof fn modules_that_differ_are_loaded(registry: ModuleRegistryView, extension_name: Seq<char>, claims: Seq<ClaimView>)
    requires
        metadata::registry_wf(registry),
        forall|i: int| 0 <= i < claims.len() ==> (#[trigger] claims[i]).canonical is Some,
        forall|i: int|
            0 <= i < claims.len() ==> ordered::lookup(
                registry.by_identity,
                (extension_name, (#[trigger] claims[i]).object_id, claims[i].property_id),
            ) is None,
        forall|i: int, j: int|
            0 <= i < j < claims.len() ==> (#[trigger] claims[i]).object_id != (
            #[trigger] claims[j]).object_id || claims[i].property_id != claims[j].property_id,
    ensures
        metadata::with_findings(
            registry,
            extension_name,
            claims.map_values(|claim: ClaimView| FindingView::Module(claim)),
        ) is Ok,
    decreases claims.len(),
{
    let f = |claim: ClaimView| FindingView::Module(claim);
    let findings = claims.map_values(f);
    if claims.len() > 0 {
        let first = claims[0];
        let rest = claims.skip(1);
        assert(first.canonical is Some);
        assert(findings[0] == FindingView::Module(first));
        assert(findings.skip(1) =~= rest.map_values(f));
        lemma_cached_keys(registry, extension_name, first);
        let next = metadata::cached(registry, extension_name, first)->Ok_0;
        assert forall|i: int| 0 <= i < rest.len() implies (#[trigger] rest[i]).canonical is Some by {
            assert(rest[i] == claims[i + 1]);
        }
        assert forall|i: int| 0 <= i < rest.len() implies ordered::lookup(
            next.by_identity,
            (extension_name, (#[trigger] rest[i]).object_id, rest[i].property_id),
        ) is None by {
            assert(rest[i] == claims[i + 1]);
            assert(claims[0].object_id != claims[i + 1].object_id || claims[0].property_id
                != claims[i + 1].property_id);
        }
        assert forall|i: int, j: int| 0 <= i < j < rest.len() implies (
        #[trigger] rest[i]).object_id != (#[trigger] rest[j]).object_id || rest[i].property_id
            != rest[j].property_id by {
            assert(rest[i] == claims[i + 1] && rest[j] == claims[j + 1]);
        }
        modules_that_differ_are_loaded(next, extension_name, rest);
    }
}

/// The modules of the base configuration are loaded without an extension, and nothing else is where
/// there are no extensions.
pub proof fn the_base_configuration_is_loaded_first(sources: SourcesView, root: SourceNodeView)
    requires
        sources.root.node == Some(root),
        sources.extensions.len() == 0,
    ensures
        metadata::loaded(sources) == metadata::with_findings(
            ModuleRegistryView { by_path: Seq::empty(), by_identity: Seq::empty() },
            Seq::empty(),
            metadata::root_findings(sources.root, root, sources.separator),
        ),
{
}

/// Entries are searched one after the other: a listed directory that is no link is searched below,
/// a listed file `*.bsl` is found, and what a directory does not list is passed over.
pub proof fn directories_are_searched_entry_by_entry(first: SourceNodeView, rest: Seq<SourceNodeView>, below: Seq<SourceNodeView>)
    ensures
        ({
            let entries = seq![first] + rest;
            let found = source_tree::bsl_below(entries);
            let direct = metadata::direct_bsl(entries);
            let later = source_tree::bsl_below(rest);
            let beside = metadata::direct_bsl(rest);
            let is_bsl = source_tree::extension(first.name) == Some("bsl"@);
            &&& !first.is_listed ==> found == later && direct == beside
            &&& first.is_listed && first.content is File && !is_bsl ==> found == later
            &&& first.is_listed && first.content is File && is_bsl && later is Ok ==> found == Ok::<
                Seq<SourceNodeView>,
                Seq<char>,
            >(seq![first] + later->Ok_0)
            &&& first.is_listed && first.is_link && first.content is Directory && !is_bsl ==> found
                == later
            &&& first.is_listed && !first.is_link && first.content
                == SourceContentView::Directory(below) && source_tree::bsl_below(below) is Ok
                && later is Ok ==> found == Ok::<Seq<SourceNodeView>, Seq<char>>(
                source_tree::bsl_below(below)->Ok_0 + later->Ok_0,
            )
            &&& first.is_listed && first.content is File && !first.is_link && is_bsl && beside is Ok
                ==> direct == Ok::<Seq<SourceNodeView>, Seq<char>>(seq![first] + beside->Ok_0)
            &&& first.is_listed && (first.content is Directory || first.is_link || !is_bsl)
                && !(first.content is Broken) && beside is Ok ==> direct == beside
        }),
        source_tree::bsl_below(Seq::empty()) == Ok::<Seq<SourceNodeView>, Seq<char>>(Seq::empty()),
        metadata::direct_bsl(Seq::empty()) == Ok::<Seq<SourceNodeView>, Seq<char>>(Seq::empty()),
{
    let entries = seq![first] + rest;
    assert(entries.skip(1) =~= rest);
    assert(entries[0] == first);
    if let Ok(later) = source_tree::bsl_below(rest) {
        assert(Seq::<SourceNodeView>::empty() + later =~= later);
    }
}

/// What is no description of an object, and what a directory does not list, claims nothing; neither
/// does the directory `Ext` of a configuration, or a link, as a kind of objects.
pub proof fn other_entries_claim_nothing(first: SourceNodeView, rest: Seq<SourceNodeView>, siblings: Seq<SourceNodeView>, directory: SourceNodeView, kind: Seq<char>, file: SourceNodeView)
    ensures
        ({
            let entries = seq![first] + rest;
            let is_description = source_tree::extension(first.name) == Some("xml"@);
            &&& !first.is_listed ==> {
                &&& metadata::kinds_findings(entries) == metadata::kinds_findings(rest)
                &&& metadata::objects_findings(entries, siblings, directory)
                    == metadata::objects_findings(rest, siblings, directory)
                &&& metadata::forms_findings(entries, siblings, kind) == metadata::forms_findings(
                    rest,
                    siblings,
                    kind,
                )
                &&& metadata::edt_forms_findings(entries, file) == metadata::edt_forms_findings(
                    rest,
                    file,
                )
            }
            &&& !is_description && !(first.content is Broken) ==> {
                &&& metadata::objects_findings(entries, siblings, directory)
                    == metadata::objects_findings(rest, siblings, directory)
                &&& metadata::forms_findings(entries, siblings, kind) == metadata::forms_findings(
                    rest,
                    siblings,
                    kind,
                )
            }
            &&& first.content is Directory && (first.is_link || first.name == "Ext"@)
                ==> metadata::kinds_findings(entries) == metadata::kinds_findings(rest)
            &&& first.content is File ==> metadata::kinds_findings(entries)
                == metadata::kinds_findings(rest) && metadata::edt_forms_findings(entries, file)
                == metadata::edt_forms_findings(rest, file)
            &&& first.content is Directory && first.is_link ==> metadata::edt_forms_findings(
                entries,
                file,
            ) == metadata::edt_forms_findings(rest, file)
            &&& first.is_listed && first.content is File && is_description ==> {
                &&& metadata::objects_findings(entries, siblings, directory)
                    == metadata::object_findings(first, siblings, directory)
                    + metadata::objects_findings(rest, siblings, directory)
                &&& metadata::forms_findings(entries, siblings, kind) == metadata::form_findings(
                    first,
                    siblings,
                    kind,
                ) + metadata::forms_findings(rest, siblings, kind)
            }
        }),
{
    let entries = seq![first] + rest;
    assert(entries.skip(1) =~= rest);
    assert(entries[0] == first);
    let a = metadata::kinds_findings(rest);
    assert(Seq::<FindingView>::empty() + a =~= a);
    let b = metadata::objects_findings(rest, siblings, directory);
    assert(Seq::<FindingView>::empty() + b =~= b);
    let c = metadata::forms_findings(rest, siblings, kind);
    assert(Seq::<FindingView>::empty() + c =~= c);
    let d = metadata::edt_forms_findings(rest, file);
    assert(Seq::<FindingView>::empty() + d =~= d);
}

/// What describes a configuration is read from its beginning, with the spaces between its
/// elements, and outside of every element that is looked for.
pub proof fn descriptions_are_read_from_their_beginning(document: Seq<char>, path: Seq<char>, form: Seq<char>, events: Seq<XmlEventView>)
    requires
        events == xml::xml_events(document, false),
    ensures
        metadata_xml::object_uuid(document, path) == metadata_xml::object_uuid_in(
            events,
            false,
            path,
        ),
        metadata_xml::edt_object_uuid(document, path) == metadata_xml::edt_uuid_in(events, path),
        metadata_xml::name_of_configuration(document) == metadata_xml::name_in(
            document,
            events,
            false,
        ),
        metadata_xml::name_of_edt_configuration(document) == metadata_xml::edt_name_in(
            document,
            events,
        ),
        metadata_xml::form_uuid(document, path, form) == metadata_xml::form_uuid_in(
            document,
            events,
            None,
            false,
            path,
            form,
        ),
{
}

} // verus!
