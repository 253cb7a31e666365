use visor::module_loader::{
    maybe_transpile_source, try_transpile_source, ModuleKind, ModuleLoadError, ModulePlan, TsModuleLoader,
};

#[test]
fn plans_by_media_type() {
    let js = ModulePlan { module_type: ModuleKind::JavaScript, transpile: false };
    let ts = ModulePlan { module_type: ModuleKind::JavaScript, transpile: true };
    let json = ModulePlan { module_type: ModuleKind::Json, transpile: false };
    assert_eq!(TsModuleLoader::plan("/s/main.js").ok(), Some(js));
    assert_eq!(TsModuleLoader::plan("/s/main.mjs").ok(), Some(js));
    assert_eq!(TsModuleLoader::plan("/s/main.cjs").ok(), Some(js));
    assert_eq!(TsModuleLoader::plan("/s/main.ts").ok(), Some(ts));
    assert_eq!(TsModuleLoader::plan("/s/view.tsx").ok(), Some(ts));
    assert_eq!(TsModuleLoader::plan("/s/view.jsx").ok(), Some(ts));
    assert_eq!(TsModuleLoader::plan("/s/types.d.ts").ok(), Some(ts));
    assert_eq!(TsModuleLoader::plan("/s/data.json").ok(), Some(json));
}

#[test]
fn refused_files() {
    match TsModuleLoader::plan("/s/pic.png") {
        Err(e @ ModuleLoadError::UnknownExtension { .. }) => {
            assert_eq!(e.message(), "Unknown file extension \".png\" for import \"/s/pic.png\"")
        }
        _ => panic!("expected an unknown extension"),
    }
    match TsModuleLoader::plan("/s/Makefile") {
        Err(e @ ModuleLoadError::MissingExtension { .. }) => {
            assert_eq!(e.message(), "Missing file extension for import \"/s/Makefile\"")
        }
        _ => panic!("expected a missing extension"),
    }
}

#[test]
fn module_error_messages() {
    assert_eq!(
        ModuleLoadError::UnresolvedPath { specifier: "https://x/a.ts".to_string() }.message(),
        "Could not resolve file path for import \"https://x/a.ts\""
    );
    assert_eq!(
        ModuleLoadError::NotFound { path: "/a.ts".to_string() }.message(),
        "No such file found for import \"/a.ts\""
    );
    assert_eq!(ModuleLoadError::Transpile("boom".to_string()).message(), "boom");
}

#[test]
fn typescript_is_transpiled_and_javascript_kept() {
    let plan = TsModuleLoader::plan("/s/main.ts").ok().unwrap();
    let code = TsModuleLoader::finish("file:///s/main.ts", "/s/main.ts", plan, "const x: number = 1;\n".to_string())
        .ok()
        .unwrap();
    assert!(code.contains("const x = 1;"));
    assert!(!code.contains("number"));
    let plan = TsModuleLoader::plan("/s/main.js").ok().unwrap();
    let code = TsModuleLoader::finish("file:///s/main.js", "/s/main.js", plan, "let y: = ;".to_string()).ok().unwrap();
    assert_eq!(code, "let y: = ;");
}

#[test]
fn broken_typescript_is_a_transpile_error() {
    let plan = TsModuleLoader::plan("/s/main.ts").ok().unwrap();
    match TsModuleLoader::finish("file:///s/main.ts", "/s/main.ts", plan, "const = ;".to_string()) {
        Err(ModuleLoadError::Transpile(m)) => assert!(!m.is_empty()),
        _ => panic!("expected a transpile error"),
    }
}

#[test]
fn snapshot_sources() {
    let (code, map) = maybe_transpile_source("ext:visor/main.ts", "let n: number = 2;".to_string()).ok().unwrap();
    assert!(code.contains("let n = 2;"));
    assert!(map.is_none());
    assert!(code.contains("sourceMappingURL=data:application/json;base64,"));
    let (code, map) = maybe_transpile_source("ext:visor/main.js", "let n = 2;".to_string()).ok().unwrap();
    assert_eq!((code.as_str(), map), ("let n = 2;", None));
    assert!(try_transpile_source("ext:visor/data.json", "{}".to_string()).is_none());
    assert!(try_transpile_source("not a url.ts", "".to_string()).is_none());
    let (code, map) = try_transpile_source("main.js", "let n = 3;".to_string()).unwrap().ok().unwrap();
    assert_eq!((code.as_str(), map), ("let n = 3;", None));
    let (code, _) = maybe_transpile_source("lib.mjs", "export const a = 1;".to_string()).ok().unwrap();
    assert_eq!(code, "export const a = 1;");
    assert!(try_transpile_source("ext:visor/main.mjs", "export {}".to_string()).is_some());
}

#[test]
fn module_urls_resolve_to_files() {
    let (path, plan) = TsModuleLoader::resolve("file:///sketches/main.ts").ok().unwrap();
    assert_eq!(path, "/sketches/main.ts");
    assert_eq!(plan, ModulePlan { module_type: ModuleKind::JavaScript, transpile: true });
    let (path, _) = TsModuleLoader::resolve("file:///sketches/my%20sketch.js").ok().unwrap();
    assert_eq!(path, "/sketches/my sketch.js");
    match TsModuleLoader::resolve("https://example.com/a.ts") {
        Err(e @ ModuleLoadError::UnresolvedPath { .. }) => {
            assert_eq!(e.message(), "Could not resolve file path for import \"https://example.com/a.ts\"")
        }
        _ => panic!("expected an unresolved path"),
    }
    match TsModuleLoader::resolve("file:///sketches/pic.png") {
        Err(ModuleLoadError::UnknownExtension { extension, path }) => {
            assert_eq!((extension.as_str(), path.as_str()), ("png", "/sketches/pic.png"))
        }
        _ => panic!("expected an unknown extension"),
    }
}
