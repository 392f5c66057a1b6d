use std::path::PathBuf;
use zenoh_wasm::lib_loader::LibLoader;
use zenoh_wasm::plugin::{DynamicPlugin, DynamicPluginSource, PluginReport, PluginReportLevel, PluginState};

type Plugin = DynamicPlugin<(), ()>;

#[test]
fn loading_a_required_plugin_fails_and_is_reported() {
    let mut p: Plugin = DynamicPlugin::new(
        "storage".to_string(),
        "storage_manager".to_string(),
        DynamicPluginSource::ByName((LibLoader::empty(), "zenoh_plugin_storage".to_string())),
        true,
    );
    assert_eq!(p.name(), "storage");
    assert_eq!(p.id(), "storage_manager");
    assert_eq!(p.source_name(), "zenoh_plugin_storage");
    let expected = "Dynamic plugin loading is not available on wasm32-unknown-unknown: zenoh_plugin_storage";
    assert_eq!(p.load(), Err(expected.to_string()));
    let report = p.report();
    assert_eq!(report.get_level(), PluginReportLevel::Error);
    assert_eq!(report.len(), 1);
    assert_eq!(report.message(0), expected);
    assert_eq!(p.state(), PluginState::Declared);
    assert!(!p.loaded());
}

#[test]
fn loading_an_optional_plugin_gives_nothing() {
    let mut p: Plugin = DynamicPlugin::new(
        "rest".to_string(),
        "rest".to_string(),
        DynamicPluginSource::ByPaths(vec!["/lib/a.so".to_string(), "/lib/b.so".to_string()]),
        false,
    );
    assert_eq!(p.load(), Ok(()));
    assert_eq!(p.report().message(0), "Dynamic plugin loading is not available on wasm32-unknown-unknown: /lib/a.so");
    assert_eq!(p.version(), None);
    assert_eq!(p.long_version(), None);
    assert_eq!(p.path(), "__dynamic_loading_unsupported__");
}

#[test]
fn a_plugin_with_no_path_names_nothing() {
    let p: Plugin = DynamicPlugin::new("x".to_string(), "x".to_string(), DynamicPluginSource::ByPaths(vec![]), false);
    assert_eq!(p.source_name(), "");
}

#[test]
fn a_report_keeps_its_highest_level() {
    let mut r = PluginReport::new();
    assert_eq!(r.get_level(), PluginReportLevel::Info);
    r.add_warning("w".to_string());
    assert_eq!(r.get_level(), PluginReportLevel::Warning);
    r.add_info("i".to_string());
    assert_eq!(r.get_level(), PluginReportLevel::Warning);
    r.add_error("e".to_string());
    r.add_warning("w2".to_string());
    assert_eq!(r.get_level(), PluginReportLevel::Error);
    assert_eq!(r.len(), 4);
    assert_eq!(r.message(2), "e");
    r.clear();
    assert_eq!(r.len(), 0);
    assert_eq!(r.get_level(), PluginReportLevel::Info);
}

#[test]
fn a_loader_keeps_the_resolved_directories() {
    let l = LibLoader::empty();
    assert!(l.search_paths().is_none());
    let l = LibLoader::new(vec![
        Ok(PathBuf::from("/a")),
        Err("no ZENOH_HOME".to_string()),
        Ok(PathBuf::from("/b")),
    ]);
    assert_eq!(l.search_paths().unwrap(), &[PathBuf::from("/a"), PathBuf::from("/b")][..]);
    let copy = l.clone();
    assert_eq!(copy.search_paths(), l.search_paths());
    assert_eq!(LibLoader::plugin_name(&"/a/libzenoh_plugin_x.so"), None);
    assert_eq!(LibLoader::_plugin_name(&PathBuf::from("/a")), None);
}
