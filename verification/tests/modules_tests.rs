use obfusku::bytecode::{Chunk, Value};
use obfusku::modules::{Module, ModuleError, ModuleLoader};

#[test]
fn test_module_exports() {
    let mut module = Module::new("test".to_string(), Chunk::new("test"));
    module.export("foo".to_string());
    module.set_export_value("foo".to_string(), Value::Integer(42));

    assert!(module.is_exported("foo"));
    assert!(!module.is_exported("bar"));
    assert_eq!(module.get_export("foo"), Some(&Value::Integer(42)));
}

#[test]
fn test_circular_detection() {
    let mut loader = ModuleLoader::new();

    loader.begin_load("a").unwrap();
    loader.begin_load("b").unwrap();

    let result = loader.begin_load("a");
    assert!(matches!(result, Err(ModuleError::CircularDependency { .. })));
}

#[test]
fn a_cycle_lists_its_chain() {
    let mut loader = ModuleLoader::new();
    loader.begin_load("a").unwrap();
    loader.begin_load("b").unwrap();
    match loader.begin_load("a") {
        Err(ModuleError::CircularDependency { chain }) => assert_eq!(chain, "a → b → a"),
        other => panic!("no cycle reported: {:?}", other),
    }
}

#[test]
fn a_value_that_is_not_exported_is_not_handed_out() {
    let mut module = Module::new("m".to_string(), Chunk::new("m"));
    module.set_export_value("hidden".to_string(), Value::Integer(1));
    assert_eq!(module.get_export("hidden"), None);
    module.export("hidden".to_string());
    module.export("hidden".to_string());
    assert_eq!(module.exports.len(), 1);
    assert_eq!(module.get_export("hidden"), Some(&Value::Integer(1)));
}

#[test]
fn loading_completes_and_cancels() {
    let mut loader = ModuleLoader::new();
    loader.begin_load("a").unwrap();
    loader.begin_load("b").unwrap();
    loader.cancel_load("b");
    loader.begin_load("b").unwrap();
    let index = loader.complete_load("b", Module::new("b".to_string(), Chunk::new("b")));
    assert_eq!(index, 0);
    assert!(loader.is_loaded("b"));
    assert!(!loader.is_loaded("a"));
    assert_eq!(loader.get_module_index("b"), Some(0));
    assert_eq!(loader.get_module(0).unwrap().name, "b");
    assert!(loader.get_module(1).is_none());
    loader.get_module_mut(0).unwrap().export("f".to_string());
    assert!(loader.get_module(0).unwrap().is_exported("f"));
    assert_eq!(loader.loaded_modules(), vec!["b".to_string()]);
    // "a" is still being loaded.
    assert!(loader.begin_load("a").is_err());
}

#[test]
fn candidates_follow_the_search_order() {
    let mut loader = ModuleLoader::new();
    loader.add_search_path("lib");
    let found = loader.candidates("tools");
    let shown: Vec<(Option<&str>, &str)> =
        found.iter().map(|c| (c.directory.as_deref(), c.file.as_str())).collect();
    assert_eq!(
        shown,
        vec![
            (None, "tools"),
            (Some("."), "tools.obk"),
            (Some("."), "tools.obx"),
            (Some("lib"), "tools.obk"),
            (Some("lib"), "tools.obx"),
        ]
    );
    let found = loader.candidates("tools.obk");
    assert_eq!(found[1].file, "tools.obk");
    assert_eq!(found[2].file, "tools.obx");
}
