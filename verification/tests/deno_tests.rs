//! Tests for the JavaScript/TypeScript source classifier.

use tosic_plugin::deno::DenoRuntime;
use tosic_plugin::source::PluginSource;

#[test]
fn supported_extensions() {
    assert!(DenoRuntime::matches_supported_extension("plugin.js"));
    assert!(DenoRuntime::matches_supported_extension("plugin.ts"));
    assert!(DenoRuntime::matches_supported_extension("dir/sub/plugin.js"));
    assert!(DenoRuntime::matches_supported_extension("a.b.ts"));
    assert!(!DenoRuntime::matches_supported_extension("plugin.mjs"));
    assert!(!DenoRuntime::matches_supported_extension("plugin.rs"));
    assert!(!DenoRuntime::matches_supported_extension("plugin"));
    assert!(!DenoRuntime::matches_supported_extension(".js"));
    assert!(!DenoRuntime::matches_supported_extension("dir.js/plugin"));
    assert!(!DenoRuntime::matches_supported_extension(""));
    assert!(!DenoRuntime::matches_supported_extension("plugin."));
}

#[test]
fn source_support() {
    let rt = DenoRuntime::new();
    assert!(rt.supports_plugin(&PluginSource::Code("let x = 1;".to_string())));
    // Raw bytes are inline code read as text; the engine judges them at load.
    assert!(rt.supports_plugin(&PluginSource::Bytes(vec![108, 101, 116])));
    assert!(rt.supports_plugin(&PluginSource::FilePath("mod.ts".to_string())));
    assert!(!rt.supports_plugin(&PluginSource::FilePath("mod.wasm".to_string())));
}

#[test]
fn glob_patterns() {
    assert_eq!(DenoRuntime::build_glob_pattern("plugins"), "plugins/*.{ts,js}");
    assert_eq!(DenoRuntime::build_glob_pattern("plugins/"), "plugins/*.{ts,js}");
    assert_eq!(DenoRuntime::build_glob_pattern(""), "*.{ts,js}");
    assert_eq!(DenoRuntime::build_glob_pattern("a/b"), "a/b/*.{ts,js}");
}

#[test]
fn entry_selection_prefers_index() {
    let files = vec!["a.js".to_string(), "lib/index.ts".to_string(), "b.js".to_string()];
    assert_eq!(DenoRuntime::select_entry(&files), Some(1));

    let no_index = vec!["a.js".to_string(), "b.ts".to_string()];
    assert_eq!(DenoRuntime::select_entry(&no_index), Some(0));

    let tricky = vec!["indexes.js".to_string(), "index.js".to_string()];
    assert_eq!(DenoRuntime::select_entry(&tricky), Some(1));

    let bare = vec!["index".to_string()];
    assert_eq!(DenoRuntime::select_entry(&bare), Some(0));

    let empty: Vec<String> = vec![];
    assert_eq!(DenoRuntime::select_entry(&empty), None);
}

#[test]
fn runtime_is_named() {
    assert_eq!(DenoRuntime::new().runtime_name(), "deno");
}
