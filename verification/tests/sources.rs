use onec_debug_adapter::metadata::{
    join_path, property_id, ModuleRegistry, SourceRoot, Sources, COMMAND_MODULE_PROPERTY_ID,
    COMMON_MODULE_PROPERTY_ID, MANAGED_APPLICATION_MODULE_PROPERTY_ID, MODULE_PROPERTY_ID,
    OBJECT_MODULE_PROPERTY_ID,
};
use onec_debug_adapter::source_tree::{is_text_read, names_to_find, SourceContent, SourceNode};

/// The files of a source directory, with their texts.
struct Tree {
    root: String,
    files: Vec<(String, String)>,
}

impl Tree {
    fn new(root: &str) -> Tree {
        Tree {
            root: root.to_owned(),
            files: Vec::new(),
        }
    }

    fn write(&mut self, path: &str, contents: &str) {
        self.files.push((path.to_owned(), contents.to_owned()));
    }

    fn write_configuration(&mut self, name: &str, uuid: &str) {
        self.write(
            "Configuration.xml",
            &format!(
                "<MetaDataObject><Configuration uuid=\"{uuid}\"><Properties><Name>{name}</Name></Properties></Configuration></MetaDataObject>"
            ),
        );
    }

    fn write_edt_configuration(&mut self, name: &str, uuid: &str) {
        self.write(
            "DT-INF/PROJECT.PMF",
            "Manifest-Version: 1.0\nRuntime-Version: 8.3.27\n",
        );
        self.write(
            "src/Configuration/Configuration.mdo",
            &format!(
                "<mdclass:Configuration uuid=\"{uuid}\"><name>{name}</name></mdclass:Configuration>"
            ),
        );
    }

    fn node(&self) -> SourceNode {
        let mut node = directory(&self.root, "root");
        for (path, text) in &self.files {
            insert(&mut node, path, text);
        }
        node
    }

    fn text(&self, path: &str) -> Result<String, String> {
        let file = self.files.iter().find(|(name, _)| name == path);
        file.map(|(_, text)| text.clone())
            .ok_or("No such file or directory (os error 2)".to_owned())
    }

    fn root(&self) -> SourceRoot {
        named_root(&self.root, self)
    }

    fn path(&self, name: &str) -> String {
        format!("{}/{name}", self.root)
    }
}

fn named_root(path: &str, tree: &Tree) -> SourceRoot {
    SourceRoot {
        path: path.to_owned(),
        node: Some(tree.node()),
        configuration: tree.text("Configuration.xml"),
        edt_configuration: tree.text("src/Configuration/Configuration.mdo"),
    }
}

fn directory(path: &str, name: &str) -> SourceNode {
    SourceNode {
        name: name.to_owned(),
        name_is_exact: true,
        path: path.to_owned(),
        canonical: Some(path.to_owned()),
        is_link: false,
        is_listed: true,
        content: SourceContent::Directory(Vec::new()),
    }
}

fn insert(node: &mut SourceNode, path: &str, text: &str) {
    let parent = node.path.clone();
    let SourceContent::Directory(entries) = &mut node.content else {
        panic!("{parent} is no directory");
    };
    match path.split_once('/') {
        Some((first, rest)) => {
            let below = format!("{parent}/{first}");
            if !entries.iter().any(|entry| entry.name == first) {
                entries.push(directory(&below, first));
            }
            let entry = entries.iter_mut().find(|entry| entry.name == first).unwrap();
            insert(entry, rest, text);
        }
        None => {
            let mut file = directory(&format!("{parent}/{path}"), path);
            file.content = SourceContent::File(text.to_owned());
            entries.push(file);
        }
    }
}

fn load(root: &Tree, extensions: Vec<SourceRoot>) -> Result<ModuleRegistry, String> {
    ModuleRegistry::load(&Sources {
        root: root.root(),
        extensions,
        separator: '/',
    })
}

fn refusal(root: &Tree, extensions: Vec<SourceRoot>) -> String {
    match load(root, extensions) {
        Ok(_) => panic!("the sources are accepted"),
        Err(message) => message,
    }
}

#[test]
fn maps_root_and_common_modules() {
    let mut root = Tree::new("/work/demo");
    root.write_configuration("Demo", "config-uuid");
    root.write("Ext/ManagedApplicationModule.bsl", "");
    root.write(
        "CommonModules/Tools.xml",
        "<MetaDataObject><CommonModule uuid=\"tools-uuid\" /></MetaDataObject>",
    );
    root.write("CommonModules/Tools/Ext/Module.bsl", "");

    let registry = load(&root, vec![]).unwrap();
    let module = root.path("Ext/ManagedApplicationModule.bsl");
    let root_module = registry.module_by_path(&module, Some(&module)).unwrap();
    assert_eq!(root_module.object_id, "config-uuid");
    assert_eq!(
        root_module.property_id,
        MANAGED_APPLICATION_MODULE_PROPERTY_ID
    );

    let module = root.path("CommonModules/Tools/Ext/Module.bsl");
    let common_module = registry.module_by_path(&module, Some(&module)).unwrap();
    assert_eq!(common_module.object_id, "tools-uuid");
    assert_eq!(common_module.property_id, COMMON_MODULE_PROPERTY_ID);
    assert_eq!(
        registry
            .path_by_module("", "tools-uuid", COMMON_MODULE_PROPERTY_ID)
            .unwrap(),
        root.path("CommonModules/Tools/Ext/Module.bsl")
    );
}

#[test]
fn maps_edt_configuration_object_and_form_modules() {
    let mut root = Tree::new("/work/edt");
    root.write_edt_configuration("Demo", "configuration-uuid");
    root.write("src/Configuration/ManagedApplicationModule.bsl", "");
    root.write(
        "src/CommonModules/Tools/Tools.mdo",
        "<mdclass:CommonModule uuid=\"common-uuid\"><name>Tools</name></mdclass:CommonModule>",
    );
    root.write("src/CommonModules/Tools/Module.bsl", "");
    root.write(
        "src/Catalogs/Items/Items.mdo",
        "<mdclass:Catalog uuid=\"catalog-uuid\"><name>Items</name><forms uuid=\"form-uuid\"><name>List</name></forms></mdclass:Catalog>",
    );
    root.write("src/Catalogs/Items/ObjectModule.bsl", "");
    root.write(
        "src/Catalogs/Items/Commands/Refresh/Refresh.mdo",
        "<mdclass:Command uuid=\"command-uuid\"><name>Refresh</name></mdclass:Command>",
    );
    root.write("src/Catalogs/Items/Commands/Refresh/CommandModule.bsl", "");
    root.write("src/Catalogs/Items/Forms/List/Form.form", "<form:Form/>");
    root.write("src/Catalogs/Items/Forms/List/Module.bsl", "");

    let registry = load(&root, vec![]).unwrap();
    let path = root.path("src/Configuration/ManagedApplicationModule.bsl");
    assert_eq!(
        registry.module_by_path(&path, Some(&path)).unwrap().object_id,
        "configuration-uuid"
    );
    let path = root.path("src/CommonModules/Tools/Module.bsl");
    let common = registry.module_by_path(&path, Some(&path)).unwrap();
    assert_eq!(common.object_id, "common-uuid");
    assert_eq!(common.property_id, COMMON_MODULE_PROPERTY_ID);
    let path = root.path("src/Catalogs/Items/ObjectModule.bsl");
    let object = registry.module_by_path(&path, Some(&path)).unwrap();
    assert_eq!(object.object_id, "catalog-uuid");
    assert_eq!(object.property_id, OBJECT_MODULE_PROPERTY_ID);
    let path = root.path("src/Catalogs/Items/Commands/Refresh/CommandModule.bsl");
    let command = registry.module_by_path(&path, Some(&path)).unwrap();
    assert_eq!(command.object_id, "command-uuid");
    assert_eq!(command.property_id, COMMAND_MODULE_PROPERTY_ID);
    let path = root.path("src/Catalogs/Items/Forms/List/Module.bsl");
    let form = registry.module_by_path(&path, Some(&path)).unwrap();
    assert_eq!(form.object_id, "form-uuid");
    assert_eq!(form.property_id, MODULE_PROPERTY_ID);
}

#[test]
fn rejects_extension_equal_to_base_configuration() {
    let mut root = Tree::new("/work/demo");
    root.write_configuration("Demo", "config-uuid");

    let error = refusal(&root, vec![root.root()]);

    assert!(error.contains("same as base configuration source"));
    assert!(error.contains("/work/demo"));
}

#[test]
fn rejects_duplicate_extension_canonical_path() {
    let mut root = Tree::new("/work/demo");
    let mut extension = Tree::new("/work/demo/Extension");
    root.write_configuration("Demo", "config-uuid");
    extension.write_configuration("Extension", "extension-uuid");
    let duplicate_spelling = "/work/demo/Extension/.";

    let error = refusal(
        &root,
        vec![extension.root(), named_root(duplicate_spelling, &extension)],
    );

    assert!(error.contains("duplicates extension configuration"));
    assert!(error.contains("/work/demo/Extension"));
    assert!(error.contains(duplicate_spelling));
}

#[test]
fn rejects_extensions_with_duplicate_logical_name() {
    let mut root = Tree::new("/work/demo");
    let mut first_extension = Tree::new("/work/demo/FirstExtension");
    let mut second_extension = Tree::new("/work/demo/SecondExtension");
    root.write_configuration("Demo", "config-uuid");
    first_extension.write_configuration("SharedExtension", "extension-one-uuid");
    second_extension.write_configuration("SharedExtension", "extension-two-uuid");

    let error = refusal(&root, vec![first_extension.root(), second_extension.root()]);

    assert!(error.contains("same logical name \"SharedExtension\""));
    assert!(error.contains("/work/demo/FirstExtension"));
    assert!(error.contains("/work/demo/SecondExtension"));
}

#[test]
fn rejects_module_identity_collision() {
    let mut root = Tree::new("/work/demo");
    root.write_configuration("Demo", "config-uuid");
    root.write(
        "CommonModules/First.xml",
        "<MetaDataObject><CommonModule uuid=\"shared-uuid\" /></MetaDataObject>",
    );
    root.write("CommonModules/First/Ext/Module.bsl", "");
    root.write(
        "CommonModules/Second.xml",
        "<MetaDataObject><CommonModule uuid=\"shared-uuid\" /></MetaDataObject>",
    );
    root.write("CommonModules/Second/Ext/Module.bsl", "");

    let error = refusal(&root, vec![]);

    assert!(error.contains("module identity collision"));
    assert!(error.contains("extension \"\""));
    assert!(error.contains("First/Ext/Module.bsl"));
    assert!(error.contains("Second/Ext/Module.bsl"));
}

#[test]
fn supports_multiple_distinct_extensions() {
    let mut root = Tree::new("/work/demo");
    let mut first_extension = Tree::new("/work/demo/FirstExtension");
    let mut second_extension = Tree::new("/work/demo/SecondExtension");
    root.write_configuration("Demo", "config-uuid");
    first_extension.write_configuration("First", "extension-one-uuid");
    second_extension.write_configuration("Second", "extension-two-uuid");
    first_extension.write("Ext/ManagedApplicationModule.bsl", "");
    second_extension.write("Ext/ManagedApplicationModule.bsl", "");

    let registry = load(&root, vec![first_extension.root(), second_extension.root()]).unwrap();

    assert_eq!(
        registry
            .path_by_module(
                "First",
                "extension-one-uuid",
                MANAGED_APPLICATION_MODULE_PROPERTY_ID
            )
            .unwrap(),
        first_extension.path("Ext/ManagedApplicationModule.bsl")
    );
    assert_eq!(
        registry
            .path_by_module(
                "Second",
                "extension-two-uuid",
                MANAGED_APPLICATION_MODULE_PROPERTY_ID
            )
            .unwrap(),
        second_extension.path("Ext/ManagedApplicationModule.bsl")
    );
}

#[test]
fn each_module_is_found_again_by_its_identity() {
    let mut root = Tree::new("/work/demo");
    root.write_configuration("Demo", "config-uuid");
    root.write("Ext/ManagedApplicationModule.bsl", "");
    root.write("Ext/SessionModule.bsl", "");

    let registry = load(&root, vec![]).unwrap();
    for name in ["Ext/ManagedApplicationModule.bsl", "Ext/SessionModule.bsl"] {
        let path = root.path(name);
        let module = registry.module_by_path(&path, Some(&path)).unwrap();
        assert_eq!(
            registry.path_by_module(&module.extension_name, &module.object_id, &module.property_id),
            Some(path.as_str())
        );
    }
    assert_eq!(registry.path_by_module("", "config-uuid", "other"), None);
}

#[test]
fn sources_that_are_not_known_are_refused() {
    let mut root = Tree::new("/work/demo");
    root.write_configuration("Demo", "config-uuid");
    let registry = load(&root, vec![]).unwrap();

    assert_eq!(
        registry.module_by_path("gone.bsl", None).unwrap_err(),
        "cannot resolve source path gone.bsl"
    );
    assert_eq!(
        registry.module_by_path("other.bsl", Some("/other.bsl")).unwrap_err(),
        "the BSL file other.bsl is not a known configuration module"
    );
    let nothing = ModuleRegistry::load(&Sources {
        root: SourceRoot {
            path: "/nowhere".to_owned(),
            node: None,
            configuration: Err(String::new()),
            edt_configuration: Err(String::new()),
        },
        extensions: vec![],
        separator: '/',
    });
    assert!(matches!(
        nothing,
        Err(message) if message == "cannot resolve base configuration source directory /nowhere"
    ));
}

#[test]
fn attribute_values_are_unescaped() {
    let mut root = Tree::new("/work/demo");
    root.write_configuration("Demo", "a&amp;b");
    root.write("Ext/ManagedApplicationModule.bsl", "");

    let registry = load(&root, vec![]).unwrap();
    let path = root.path("Ext/ManagedApplicationModule.bsl");
    assert_eq!(registry.module_by_path(&path, Some(&path)).unwrap().object_id, "a&b");
}

#[test]
fn modules_of_an_unknown_kind_are_refused() {
    assert_eq!(
        property_id("CommonModules", "Module").unwrap(),
        COMMON_MODULE_PROPERTY_ID
    );
    assert_eq!(
        property_id("Catalogs", "Nothing").unwrap_err(),
        "unknown 1C module type Catalogs\\Nothing"
    );
}

/// Lets a directory list an entry under another spelling than the one it is found by.
fn respell(node: &mut SourceNode, name: &str, listed: &str) {
    let SourceContent::Directory(entries) = &mut node.content else {
        panic!("{} is no directory", node.path);
    };
    let entry = entries.iter_mut().find(|entry| entry.name == name).unwrap();
    entry.is_listed = false;
    let mut other = directory(&format!("{}/{listed}", node.path), listed);
    other.content = match &entry.content {
        SourceContent::File(text) => SourceContent::File(text.clone()),
        _ => SourceContent::Directory(Vec::new()),
    };
    entries.push(other);
}

#[test]
fn entries_are_found_by_other_spellings_than_the_listed_ones() {
    let mut tree = Tree::new("/base");
    tree.write_configuration("Demo", "config-uuid");
    tree.write("Ext/ManagedApplicationModule.bsl", "");
    tree.write(
        "Catalogs/Goods.xml",
        "<MetaDataObject><Catalog uuid=\"goods-uuid\" /></MetaDataObject>",
    );
    tree.write("Catalogs/Goods/Ext/ObjectModule.bsl", "");
    let mut node = tree.node();
    respell(&mut node, "Ext", "ext");
    let sources = |node| Sources {
        root: SourceRoot { node: Some(node), ..tree.root() },
        extensions: Vec::new(),
        separator: '/',
    };
    let registry = ModuleRegistry::load(&sources(node)).unwrap();
    assert_eq!(
        registry.path_by_module("", "config-uuid", MANAGED_APPLICATION_MODULE_PROPERTY_ID),
        Some("/base/Ext/ManagedApplicationModule.bsl")
    );
    assert_eq!(
        registry.path_by_module("", "goods-uuid", OBJECT_MODULE_PROPERTY_ID),
        Some("/base/Catalogs/Goods/Ext/ObjectModule.bsl")
    );

    // A directory of a kind is only searched under the name that it is listed by.
    let mut node = tree.node();
    let SourceContent::Directory(entries) = &mut node.content else {
        panic!("no directory");
    };
    entries.iter_mut().find(|entry| entry.name == "Catalogs").unwrap().is_listed = false;
    let registry = ModuleRegistry::load(&sources(node)).unwrap();
    assert_eq!(registry.path_by_module("", "goods-uuid", OBJECT_MODULE_PROPERTY_ID), None);

    // What cannot be listed is still found by its name, but not searched.
    let mut node = tree.node();
    let SourceContent::Directory(entries) = node.content else {
        panic!("no directory");
    };
    node.content = SourceContent::Closed("denied".to_owned(), entries);
    assert_eq!(
        ModuleRegistry::load(&sources(node)).err().unwrap(),
        "cannot read configuration directory /base"
    );
}

#[test]
fn names_that_are_not_listed_are_asked_for() {
    let listed = ["Goods.xml", "Ext", "Forms", "src", "Module.bsl"].map(str::to_owned).to_vec();
    assert_eq!(
        names_to_find(&listed),
        ["DT-INF", "PROJECT.PMF", "Configuration", "Goods"]
    );
    assert_eq!(names_to_find(&Vec::new()).len(), 7);
}

#[test]
fn only_files_that_describe_objects_are_read() {
    assert!(is_text_read("Configuration.xml", 1));
    assert!(is_text_read("ItemForm.xml", 4));
    assert!(!is_text_read("Form.xml", 5));
    assert!(is_text_read("Goods.mdo", 9));
    assert!(!is_text_read("ObjectModule.bsl", 2));
    assert!(!is_text_read(".xml", 1));
}

#[test]
fn the_system_tells_why_the_name_of_an_extension_cannot_be_read() {
    let mut base = Tree::new("/base");
    base.write_configuration("Demo", "config-uuid");
    let mut extension = Tree::new("/extension");
    assert_eq!(
        refusal(&base, vec![extension.root()]),
        "No such file or directory (os error 2)"
    );
    extension.write("Configuration.xml/Module.bsl", "");
    let directory = SourceRoot {
        configuration: Err("Is a directory (os error 21)".to_owned()),
        ..extension.root()
    };
    assert_eq!(refusal(&base, vec![directory]), "Is a directory (os error 21)");

    let unread = SourceRoot {
        configuration: Err("Is a directory (os error 21)".to_owned()),
        ..base.root()
    };
    let sources = Sources { root: unread, extensions: vec![], separator: '/' };
    assert_eq!(
        ModuleRegistry::load(&sources).err().unwrap(),
        "cannot read metadata XML /base/Configuration.xml"
    );
    let mut edt = Tree::new("/edt");
    edt.write("DT-INF/PROJECT.PMF", "");
    assert_eq!(
        refusal(&edt, vec![]),
        "cannot read EDT metadata file /edt/src/Configuration/Configuration.mdo"
    );
}

#[test]
fn components_are_joined_as_the_system_does() {
    assert_eq!(join_path("/opt/1c", '/', "8.3"), "/opt/1c/8.3");
    assert_eq!(join_path("/opt/1c/", '/', "8.3"), "/opt/1c/8.3");
    assert_eq!(join_path("C:", '/', "8.3"), "C:/8.3");
    assert_eq!(join_path("", '/', "8.3"), "8.3");
    assert_eq!(join_path(r"C:\1c", '\\', "8.3"), r"C:\1c\8.3");
    assert_eq!(join_path(r"C:\1c\", '\\', "8.3"), r"C:\1c\8.3");
    assert_eq!(join_path("C:/1c/", '\\', "8.3"), "C:/1c/8.3");
    assert_eq!(join_path("C:", '\\', "8.3"), "C:8.3");
    assert_eq!(join_path("1:", '\\', "8.3"), r"1:\8.3");
    assert_eq!(join_path(r"C:\1c", '\\', "a/b"), r"C:\1c\a/b");
    assert_eq!(join_path(r"\\?\C:\1c", '\\', "a/b"), r"\\?\C:\1c\a\b");
    assert_eq!(join_path(r"\\?\C:\", '\\', "a"), r"\\?\C:\a");
}
