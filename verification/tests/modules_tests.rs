use fool_engine::modules::{LuaZipModule, MemoryModule, ZipScriptError};
use std::io::Write;

fn zip_bytes(files: &[(&str, &[u8])]) -> Vec<u8> {
    let mut w = zip::ZipWriter::new(std::io::Cursor::new(Vec::new()));
    for (name, content) in files {
        w.start_file(*name, zip::write::SimpleFileOptions::default()).unwrap();
        w.write_all(content).unwrap();
    }
    w.finish().unwrap().into_inner()
}

fn pairs(v: &[(&str, &str)]) -> Vec<(String, String)> {
    v.iter().map(|(a, b)| (a.to_string(), b.to_string())).collect()
}

#[test]
fn memory_modules_are_named_by_path() {
    let mut m = MemoryModule::new();
    m.load_lua_modules(pairs(&[
        ("scripts/ui/menu.lua", "return 1"),
        ("main.lua", "return 2"),
        ("lib/init.lua", "return 3"),
        ("images/logo.png", "png"),
        ("notes.txt", "text"),
        (".lua", "hidden"),
    ]));
    assert_eq!(m.find_module("scripts.ui.menu"), Some("return 1".to_string()));
    assert_eq!(m.find_module("main"), Some("return 2".to_string()));
    assert_eq!(m.find_module("lib.init"), Some("return 3".to_string()));
    assert_eq!(m.find_module("images.logo"), None);
    assert_eq!(m.find_module("notes"), None);
    assert_eq!(m.find_module(""), None);
}

#[test]
fn memory_modules_later_one_wins() {
    let mut m = MemoryModule::new();
    m.load_lua_modules(pairs(&[("a.lua", "first"), ("a.lua", "second")]));
    assert_eq!(m.find_module("a"), Some("second".to_string()));
}

#[test]
fn lua_resource_names() {
    assert!(MemoryModule::is_lua_resource("a/b.lua"));
    assert!(MemoryModule::is_lua_resource("x/init.lua"));
    assert!(!MemoryModule::is_lua_resource("a/b.luac"));
    assert!(!MemoryModule::is_lua_resource("lua"));
    assert!(!MemoryModule::is_lua_resource(".lua"));
    assert!(MemoryModule::is_lua_resource("..lua"));
    // the file name is the last component, whatever separators follow it
    assert!(MemoryModule::is_lua_resource("x.lua/"));
    assert!(!MemoryModule::is_lua_resource("x.lua/readme"));
}

#[test]
fn zip_scripts_are_named_after_the_zip() {
    let bytes = zip_bytes(&[
        ("pkg/init.lua", b"return 'pkg'"),
        ("pkg/util.lua", b"return 'util'"),
        ("readme.txt", b"hello"),
    ]);
    let mods = LuaZipModule::load_lua_scripts(&bytes, "mods").unwrap();
    let mut names: Vec<String> = mods.iter().map(|(n, _)| n.clone()).collect();
    names.sort();
    assert_eq!(names, vec!["mods.pkg", "mods.pkg.init", "mods.pkg.util"]);
    let init = mods.iter().find(|(n, _)| n == "mods.pkg").unwrap();
    assert_eq!(init.1, "return 'pkg'");
}

#[test]
fn zip_top_level_init() {
    let bytes = zip_bytes(&[("init.lua", b"x")]);
    let mods = LuaZipModule::load_lua_scripts(&bytes, "z").unwrap();
    assert_eq!(mods, vec![("z.".to_string(), "x".to_string()), ("z.init".to_string(), "x".to_string())]);
}

#[test]
fn zip_errors() {
    assert_eq!(LuaZipModule::load_lua_scripts(b"not a zip", "z"), Err(ZipScriptError::NotAnArchive));
    let bytes = zip_bytes(&[("a.lua", b"ok"), ("b.bin", &[0xff, 0xfe, 0x00])]);
    assert_eq!(LuaZipModule::load_lua_scripts(&bytes, "z"), Err(ZipScriptError::BadEntry));
}

#[test]
fn add_zip_modules() {
    let good = zip_bytes(&[("a.lua", b"A"), ("sub/b.lua", b"B")]);
    let mut m = LuaZipModule::new();
    let failures = m.add_zip_module(vec![
        ("/games/mods/core.zip".to_string(), Some(good)),
        ("/games/mods/broken.zip".to_string(), Some(b"junk".to_vec())),
        ("/games/mods/gone.zip".to_string(), None),
        ("/".to_string(), None),
    ]);
    assert_eq!(m.find_module("core.a"), Some("A".to_string()));
    assert_eq!(m.find_module("core.sub.b"), Some("B".to_string()));
    assert_eq!(m.find_module("broken.a"), None);
    assert_eq!(
        failures,
        vec![
            ("/games/mods/broken.zip".to_string(), ZipScriptError::NotAnArchive),
            ("/games/mods/gone.zip".to_string(), ZipScriptError::Unreadable),
        ]
    );
}

#[test]
fn later_zip_replaces_module() {
    let one = zip_bytes(&[("a.lua", b"1")]);
    let two = zip_bytes(&[("a.lua", b"2")]);
    let mut m = LuaZipModule::new();
    m.add_zip_module(vec![("x/pack.zip".to_string(), Some(one))]);
    m.add_zip_module(vec![("y/pack.zip".to_string(), Some(two))]);
    assert_eq!(m.find_module("pack.a"), Some("2".to_string()));
}

#[test]
fn loading_the_same_resources_twice_changes_nothing() {
    let res = pairs(&[("a.lua", "1"), ("b/c.lua", "2"), ("a.lua", "3")]);
    let mut once = MemoryModule::new();
    once.load_lua_modules(res.clone());
    let mut twice = MemoryModule::new();
    twice.load_lua_modules(res.clone());
    twice.load_lua_modules(res);
    for name in ["a", "b.c", "x"] {
        assert_eq!(once.find_module(name), twice.find_module(name));
    }
    assert_eq!(twice.find_module("a"), Some("3".to_string()));
}
