use import_glob_array::ast::AggregationGroup;
use import_glob_array::ast::Binding;
use import_glob_array::ast::Elem;
use import_glob_array::ast::ImportPaths;
use import_glob_array::ident::u64_to_dec;
use import_glob_array::paths::join;
use import_glob_array::paths::parent;
use import_glob_array::paths::strip_prefix;
use import_glob_array::paths::with_file_name;
use import_glob_array::plugin::ImportGlobArrayPlugin;
use import_glob_array::utils::get_import_map_expr;
use import_glob_array::utils::get_local_specifier_name;
use import_glob_array::utils::is_specifier_import_meta_decl;
use import_glob_array::utils::to_var_decls;
use import_glob_array::utils::upsert_map;

#[test]
fn decimal_rendering() {
    assert_eq!(u64_to_dec(0), "0");
    assert_eq!(u64_to_dec(7), "7");
    assert_eq!(u64_to_dec(10), "10");
    assert_eq!(u64_to_dec(1234567890), "1234567890");
    assert_eq!(u64_to_dec(u64::MAX), "18446744073709551615");
}

#[test]
fn next_id_counts_from_one() {
    let mut plugin = ImportGlobArrayPlugin::new("/cwd".to_string(), "src/a.js".to_string());
    assert_eq!(plugin.next_id("_globImport"), "_globImport1");
    assert_eq!(plugin.next_id("_globImport"), "_globImport2");
    assert_eq!(plugin.next_id("other"), "other3");
}

#[test]
fn path_parent() {
    assert_eq!(parent("src/index.js"), Some("src".to_string()));
    assert_eq!(parent("/project/src/index.js"), Some("/project/src".to_string()));
    assert_eq!(parent("/a"), Some("/".to_string()));
    assert_eq!(parent("a"), Some("".to_string()));
    assert_eq!(parent("/"), None);
    assert_eq!(parent(""), None);
}

#[test]
fn path_join() {
    assert_eq!(join("/project", "src"), "/project/src");
    assert_eq!(join("/project/", "src"), "/project/src");
    assert_eq!(join("", "src"), "src");
    assert_eq!(join("/project", "/abs"), "/abs");
}

#[test]
fn path_with_file_name() {
    assert_eq!(with_file_name("/cwd/src/index.js", "*.json"), "/cwd/src/*.json");
    assert_eq!(with_file_name("a/b.js", "c.js"), "a/c.js");
}

#[test]
fn path_strip_prefix() {
    assert_eq!(
        strip_prefix("/project/src/data/a.json", "/project/src"),
        Some("data/a.json".to_string())
    );
    assert_eq!(strip_prefix("/project/src", "/project/src"), Some("".to_string()));
    assert_eq!(strip_prefix("/elsewhere/a.json", "/project/src"), None);
    assert_eq!(strip_prefix("/project/srcother/a.json", "/project/src"), None);
}

#[test]
fn as_glob_path_replaces_file_name() {
    let plugin = ImportGlobArrayPlugin::new("/project".to_string(), "src/index.js".to_string());
    assert_eq!(plugin.as_glob_path("./data/*.json"), "/project/src/./data/*.json");
    assert_eq!(plugin.as_glob_path("*.json"), "/project/src/*.json");
}

#[test]
fn get_paths_resolves_relative() {
    let plugin = ImportGlobArrayPlugin::new("/project".to_string(), "src/index.js".to_string());
    let got = plugin.get_paths(&"/project/src/data/a.json".to_string());
    match got {
        Some(p) => {
            assert_eq!(p.absolute_path, "/project/src/data/a.json");
            assert_eq!(p.imported_path, "./data/a.json");
        }
        None => panic!("expected a resolution"),
    }
    assert!(plugin.get_paths(&"/elsewhere/a.json".to_string()).is_none());
}

#[test]
fn local_specifier_names() {
    let d = Binding::DefaultImport { local: "a".to_string() };
    let n = Binding::NamespaceImport { local: "ns".to_string() };
    let r = Binding::NamedImport { imported: "x".to_string(), local: "y".to_string() };
    assert_eq!(get_local_specifier_name(&d), "a");
    assert_eq!(get_local_specifier_name(&n), "ns");
    assert_eq!(get_local_specifier_name(&r), "y");
}

#[test]
fn meta_specifier_detection() {
    let meta = Binding::NamedImport {
        imported: "_importMeta".to_string(),
        local: "m".to_string(),
    };
    let named = Binding::NamedImport { imported: "x".to_string(), local: "x".to_string() };
    let def = Binding::DefaultImport { local: "a".to_string() };
    assert_eq!(is_specifier_import_meta_decl(&meta), Some(true));
    assert_eq!(is_specifier_import_meta_decl(&named), Some(false));
    assert_eq!(is_specifier_import_meta_decl(&def), None);
}

#[test]
fn import_map_expr_copies_both_paths() {
    let paths = ImportPaths {
        absolute_path: "/p/a.json".to_string(),
        imported_path: "./a.json".to_string(),
    };
    match get_import_map_expr(&paths) {
        Elem::Meta { paths: p } => {
            assert_eq!(p.absolute_path, "/p/a.json");
            assert_eq!(p.imported_path, "./a.json");
        }
        _ => panic!("expected a metadata element"),
    }
}

#[test]
fn upsert_groups_by_key_in_first_seen_order() {
    let mut groups: Vec<AggregationGroup> = Vec::new();
    upsert_map(&mut groups, &"files".to_string(), Elem::Ref { ident: "i1".to_string() });
    upsert_map(&mut groups, &"meta".to_string(), Elem::Ref { ident: "i2".to_string() });
    upsert_map(&mut groups, &"files".to_string(), Elem::Ref { ident: "i3".to_string() });
    assert_eq!(groups.len(), 2);
    assert_eq!(groups[0].name, "files");
    assert_eq!(groups[0].elems.len(), 2);
    assert_eq!(groups[1].name, "meta");
    assert_eq!(groups[1].elems.len(), 1);

    let decls = to_var_decls(groups);
    assert_eq!(decls.len(), 2);
    assert_eq!(decls[0].name, "files");
    assert_eq!(decls[0].elems.len(), 2);
    assert_eq!(decls[1].name, "meta");
}
