use import_glob_array::ast::Binding;
use import_glob_array::ast::Elem;
use import_glob_array::ast::ImportStmt;
use import_glob_array::ast::Module;
use import_glob_array::ast::ModuleItem;
use import_glob_array::ast::OutItem;
use import_glob_array::ast::ValueKind;
use import_glob_array::plugin::ImportGlobArrayPlugin;

fn import_item(src: &str, specifiers: Vec<Binding>) -> ModuleItem {
    ModuleItem::Import {
        stmt: ImportStmt {
            src: src.to_string(),
            specifiers,
        },
    }
}

fn default_bind(local: &str) -> Binding {
    Binding::DefaultImport {
        local: local.to_string(),
    }
}

fn meta_bind(local: &str) -> Binding {
    Binding::NamedImport {
        imported: "_importMeta".to_string(),
        local: local.to_string(),
    }
}

#[test]
fn scenario_default_and_meta_two_files() {
    // A file at /project/src/index.js holding
    //   import files, { _importMeta as meta } from './data/*.json';
    // with ./data/ holding a.json and b.json, in that order.
    let module = Module {
        body: vec![import_item(
            "./data/*.json",
            vec![default_bind("files"), meta_bind("meta")],
        )],
    };
    let mut plugin = ImportGlobArrayPlugin::new(
        "/project".to_string(),
        "src/index.js".to_string(),
    );
    let matches = vec![vec![
        "/project/src/data/a.json".to_string(),
        "/project/src/data/b.json".to_string(),
    ]];
    let out = plugin.fold_module(&module, &matches);

    assert_eq!(out.len(), 4);
    let locals: Vec<String> = out[..2]
        .iter()
        .map(|item| match item {
            OutItem::Import { import } => {
                assert!(matches!(import.kind, ValueKind::DefaultValue));
                import.local.clone()
            }
            _ => panic!("expected a generated import"),
        })
        .collect();
    match &out[0] {
        OutItem::Import { import } => assert_eq!(import.src, "./data/a.json"),
        _ => panic!("expected a generated import"),
    }
    match &out[1] {
        OutItem::Import { import } => assert_eq!(import.src, "./data/b.json"),
        _ => panic!("expected a generated import"),
    }
    assert_ne!(locals[0], locals[1]);

    match &out[2] {
        OutItem::Decl { decl } => {
            assert_eq!(decl.name, "files");
            assert_eq!(decl.elems.len(), 2);
            for (k, elem) in decl.elems.iter().enumerate() {
                match elem {
                    Elem::Ref { ident } => assert_eq!(*ident, locals[k]),
                    _ => panic!("expected a reference element"),
                }
            }
        }
        _ => panic!("expected a constant declaration"),
    }
    match &out[3] {
        OutItem::Decl { decl } => {
            assert_eq!(decl.name, "meta");
            assert_eq!(decl.elems.len(), 2);
            match &decl.elems[0] {
                Elem::Meta { paths } => {
                    assert_eq!(paths.absolute_path, "/project/src/data/a.json");
                    assert_eq!(paths.imported_path, "./data/a.json");
                }
                _ => panic!("expected a metadata element"),
            }
            match &decl.elems[1] {
                Elem::Meta { paths } => {
                    assert_eq!(paths.absolute_path, "/project/src/data/b.json");
                    assert_eq!(paths.imported_path, "./data/b.json");
                }
                _ => panic!("expected a metadata element"),
            }
        }
        _ => panic!("expected a constant declaration"),
    }
}

#[test]
fn scenario_zero_matches_removes_statement() {
    // The chosen zero-match policy: the qualifying statement is removed and
    // replaced by an empty span; no bindings are emitted.
    let module = Module {
        body: vec![
            ModuleItem::Other,
            import_item("./data/*.json", vec![default_bind("files")]),
            ModuleItem::Other,
        ],
    };
    let mut plugin = ImportGlobArrayPlugin::new(
        "/project".to_string(),
        "src/index.js".to_string(),
    );
    let matches = vec![vec![]];
    let out = plugin.fold_module(&module, &matches);
    assert_eq!(out.len(), 2);
    assert!(matches!(out[0], OutItem::Keep { idx: 0 }));
    assert!(matches!(out[1], OutItem::Keep { idx: 2 }));
}

#[test]
fn pass_through_non_glob_import() {
    // A plain relative import has no glob syntax and is kept unchanged;
    // the same source with a star qualifies. This distinguishes the real
    // glob-syntax predicate from any constant answer.
    let module = Module {
        body: vec![
            import_item("./data/a.json", vec![default_bind("a")]),
            import_item("./data/*.json", vec![default_bind("files")]),
        ],
    };
    let mut plugin = ImportGlobArrayPlugin::new(
        "/project".to_string(),
        "src/index.js".to_string(),
    );
    let matches = vec![vec!["/project/src/data/a.json".to_string()]];
    let out = plugin.fold_module(&module, &matches);
    assert_eq!(out.len(), 3);
    assert!(matches!(out[0], OutItem::Keep { idx: 0 }));
    assert!(matches!(out[1], OutItem::Import { .. }));
    assert!(matches!(out[2], OutItem::Decl { .. }));
}

#[test]
fn pass_through_bare_module_name() {
    // A glob-looking source that does not start with `.` or `/` does not
    // qualify.
    let module = Module {
        body: vec![import_item("data/*.json", vec![default_bind("files")])],
    };
    let mut plugin = ImportGlobArrayPlugin::new(
        "/project".to_string(),
        "src/index.js".to_string(),
    );
    let out = plugin.fold_module(&module, &vec![]);
    assert_eq!(out.len(), 1);
    assert!(matches!(out[0], OutItem::Keep { idx: 0 }));
}

#[test]
fn identifiers_unique_across_statements() {
    // The counter carries across statements of one pass: expansions of two
    // glob imports never share a local identifier.
    let module = Module {
        body: vec![
            import_item("./a/*.js", vec![default_bind("xs")]),
            import_item("./b/*.js", vec![default_bind("ys")]),
        ],
    };
    let mut plugin = ImportGlobArrayPlugin::new(
        "/project".to_string(),
        "src/index.js".to_string(),
    );
    let matches = vec![
        vec![
            "/project/src/a/one.js".to_string(),
            "/project/src/a/two.js".to_string(),
        ],
        vec!["/project/src/b/three.js".to_string()],
    ];
    let out = plugin.fold_module(&module, &matches);
    let mut locals: Vec<String> = Vec::new();
    for item in &out {
        if let OutItem::Import { import } = item {
            locals.push(import.local.clone());
        }
    }
    assert_eq!(locals.len(), 3);
    for i in 0..locals.len() {
        for j in (i + 1)..locals.len() {
            assert_ne!(locals[i], locals[j]);
        }
    }
    assert_eq!(locals, vec!["_globImport1", "_globImport2", "_globImport3"]);
}

#[test]
fn meta_only_statement_still_imports() {
    // A statement with only the metadata pseudo-binding still produces one
    // import per matched file, under throwaway default bindings.
    let module = Module {
        body: vec![import_item("./data/*.json", vec![meta_bind("meta")])],
    };
    let mut plugin = ImportGlobArrayPlugin::new(
        "/project".to_string(),
        "src/index.js".to_string(),
    );
    let matches = vec![vec!["/project/src/data/a.json".to_string()]];
    let out = plugin.fold_module(&module, &matches);
    assert_eq!(out.len(), 2);
    assert!(matches!(out[0], OutItem::Import { .. }));
    match &out[1] {
        OutItem::Decl { decl } => {
            assert_eq!(decl.name, "meta");
            assert_eq!(decl.elems.len(), 1);
            assert!(matches!(decl.elems[0], Elem::Meta { .. }));
        }
        _ => panic!("expected a constant declaration"),
    }
}

#[test]
fn renamed_named_import_groups_under_alias() {
    // `{ x as y }` groups under `y`, and the generated imports mirror the
    // named binding of `x`.
    let module = Module {
        body: vec![import_item(
            "./parts/*.js",
            vec![Binding::NamedImport {
                imported: "x".to_string(),
                local: "y".to_string(),
            }],
        )],
    };
    let mut plugin = ImportGlobArrayPlugin::new(
        "/project".to_string(),
        "src/index.js".to_string(),
    );
    let matches = vec![vec!["/project/src/parts/p.js".to_string()]];
    let out = plugin.fold_module(&module, &matches);
    assert_eq!(out.len(), 2);
    match &out[0] {
        OutItem::Import { import } => match &import.kind {
            ValueKind::NamedValue { imported } => assert_eq!(*imported, "x"),
            _ => panic!("expected a named binding kind"),
        },
        _ => panic!("expected a generated import"),
    }
    match &out[1] {
        OutItem::Decl { decl } => assert_eq!(decl.name, "y"),
        _ => panic!("expected a constant declaration"),
    }
}

#[test]
fn unresolvable_match_is_silently_skipped() {
    // A matched path that cannot be expressed relative to the current
    // file's directory drops out of the expansion; the rest proceeds.
    let module = Module {
        body: vec![import_item("./data/*.json", vec![default_bind("files")])],
    };
    let mut plugin = ImportGlobArrayPlugin::new(
        "/project".to_string(),
        "src/index.js".to_string(),
    );
    let matches = vec![vec![
        "/elsewhere/data/a.json".to_string(),
        "/project/src/data/b.json".to_string(),
    ]];
    let out = plugin.fold_module(&module, &matches);
    assert_eq!(out.len(), 2);
    match &out[0] {
        OutItem::Import { import } => assert_eq!(import.src, "./data/b.json"),
        _ => panic!("expected a generated import"),
    }
    match &out[1] {
        OutItem::Decl { decl } => assert_eq!(decl.elems.len(), 1),
        _ => panic!("expected a constant declaration"),
    }
}

#[test]
fn rerun_yields_identical_output() {
    let module = Module {
        body: vec![
            ModuleItem::Other,
            import_item("./data/*.json", vec![default_bind("files"), meta_bind("m")]),
        ],
    };
    let matches = vec![vec![
        "/project/src/data/a.json".to_string(),
        "/project/src/data/b.json".to_string(),
    ]];
    let mut p1 = ImportGlobArrayPlugin::new("/project".to_string(), "src/index.js".to_string());
    let mut p2 = ImportGlobArrayPlugin::new("/project".to_string(), "src/index.js".to_string());
    let out1 = p1.fold_module(&module, &matches);
    let out2 = p2.fold_module(&module, &matches);
    assert_eq!(out1.len(), out2.len());
    for (a, b) in out1.iter().zip(out2.iter()) {
        match (a, b) {
            (OutItem::Keep { idx: i }, OutItem::Keep { idx: j }) => assert_eq!(i, j),
            (OutItem::Import { import: x }, OutItem::Import { import: y }) => {
                assert_eq!(x.local, y.local);
                assert_eq!(x.src, y.src);
            }
            (OutItem::Decl { decl: x }, OutItem::Decl { decl: y }) => {
                assert_eq!(x.name, y.name);
                assert_eq!(x.elems.len(), y.elems.len());
            }
            _ => panic!("outputs differ in shape"),
        }
    }
}

#[test]
fn namespace_binding_is_mirrored() {
    let module = Module {
        body: vec![import_item(
            "./mods/*.js",
            vec![Binding::NamespaceImport { local: "mods".to_string() }],
        )],
    };
    let mut plugin = ImportGlobArrayPlugin::new(
        "/project".to_string(),
        "src/index.js".to_string(),
    );
    let matches = vec![vec!["/project/src/mods/m.js".to_string()]];
    let out = plugin.fold_module(&module, &matches);
    assert_eq!(out.len(), 2);
    match &out[0] {
        OutItem::Import { import } => {
            assert!(matches!(import.kind, ValueKind::NamespaceValue))
        }
        _ => panic!("expected a generated import"),
    }
    match &out[1] {
        OutItem::Decl { decl } => assert_eq!(decl.name, "mods"),
        _ => panic!("expected a constant declaration"),
    }
}

#[test]
fn unrenamed_meta_specifier_requests_metadata() {
    // `{ _importMeta }` imports exactly the sentinel name, so it is a
    // metadata request grouped under the sentinel itself.
    let module = Module {
        body: vec![import_item(
            "./data/*.json",
            vec![Binding::NamedImport {
                imported: "_importMeta".to_string(),
                local: "_importMeta".to_string(),
            }],
        )],
    };
    let mut plugin = ImportGlobArrayPlugin::new(
        "/project".to_string(),
        "src/index.js".to_string(),
    );
    let matches = vec![vec!["/project/src/data/a.json".to_string()]];
    let out = plugin.fold_module(&module, &matches);
    assert_eq!(out.len(), 2);
    match &out[1] {
        OutItem::Decl { decl } => {
            assert_eq!(decl.name, "_importMeta");
            assert!(matches!(decl.elems[0], Elem::Meta { .. }));
        }
        _ => panic!("expected a constant declaration"),
    }
}

#[test]
fn glob_patterns_lists_qualifying_statements() {
    let module = Module {
        body: vec![
            import_item("./data/*.json", vec![default_bind("files")]),
            import_item("./plain.js", vec![default_bind("p")]),
            import_item("./more/**/*.js", vec![default_bind("more")]),
        ],
    };
    let plugin = ImportGlobArrayPlugin::new("/project".to_string(), "src/index.js".to_string());
    let pats = plugin.glob_patterns(&module);
    assert_eq!(pats.len(), 2);
    assert_eq!(pats[0], "/project/src/./data/*.json");
    assert_eq!(pats[1], "/project/src/./more/**/*.js");
}
