use dotman::config::join_child;
use dotman::config::registry_path;
use dotman::config::Config;
use dotman::config::Pair;
use dotman::error::IoStep;
use dotman::error::SyncError;

fn pair(name: &str, place: &str) -> Pair {
    Pair { name: name.to_string(), place: place.to_string() }
}

fn registry(pairs: Vec<Pair>) -> Config {
    Config {
        pairs,
        import_hook: String::new(),
        export_hook: String::new(),
        before_import_hook: String::new(),
        after_import_hook: String::new(),
    }
}

#[test]
fn init_gives_the_empty_registry() {
    let config = Config::init();
    assert_eq!(config.pairs.len(), 0);
    assert_eq!(config.import_hook, "");
    assert_eq!(config.export_hook, "");
    assert_eq!(config.before_import_hook, "");
    assert_eq!(config.after_import_hook, "");
}

#[test]
fn mirror_lies_below_the_store_root_under_the_name() {
    let shell = pair("shell", "/home/u/.config/shell");
    assert_eq!(shell.path_in_dot(&"/home/u/dotfiles".to_string()), "/home/u/dotfiles/shell");
}

#[test]
fn mirror_of_a_name_with_a_separator_stays_below_the_store_root() {
    let odd = pair("/etc", "/home/u/x");
    assert_eq!(odd.path_in_dot(&"/store".to_string()), "/store//etc");
}

#[test]
fn join_child_puts_one_separator_between() {
    assert_eq!(join_child(&"/a/b".to_string(), "c"), "/a/b/c");
    assert_eq!(join_child(&"".to_string(), "c"), "/c");
    assert_eq!(join_child(&"/a".to_string(), ""), "/a/");
}

#[test]
fn conflict_check_finds_a_name_that_is_taken() {
    let config = registry(vec![pair("x", "/p"), pair("y", "/q")]);
    assert!(config.conflict_check("y".to_string(), "/other".to_string()));
}

#[test]
fn conflict_check_finds_a_place_that_is_taken() {
    let config = registry(vec![pair("x", "/p"), pair("y", "/q")]);
    assert!(config.conflict_check("z".to_string(), "/p".to_string()));
}

#[test]
fn conflict_check_passes_a_new_name_and_place() {
    let config = registry(vec![pair("x", "/p"), pair("y", "/q")]);
    assert!(!config.conflict_check("z".to_string(), "/r".to_string()));
    assert!(!registry(vec![]).conflict_check("x".to_string(), "/p".to_string()));
}

#[test]
fn conflict_check_compares_whole_strings() {
    let config = registry(vec![pair("x", "/p")]);
    assert!(!config.conflict_check("X".to_string(), "/p/".to_string()));
}

#[test]
fn find_gives_the_first_index_or_the_length() {
    let config = registry(vec![pair("x", "/p"), pair("y", "/q"), pair("y", "/r")]);
    assert_eq!(config.find(&"x".to_string()), 0);
    assert_eq!(config.find(&"y".to_string()), 1);
    assert_eq!(config.find(&"z".to_string()), 3);
    assert_eq!(registry(vec![]).find(&"x".to_string()), 0);
}

#[test]
fn read_config_accepts_a_valid_registry_unchanged() {
    let mut decoded = registry(vec![pair("x", "/p"), pair("y", "/q")]);
    decoded.export_hook = "/hooks/export".to_string();
    let loaded = Config::read_config(decoded.clone());
    assert_eq!(loaded, Ok(decoded));
}

#[test]
fn read_config_accepts_the_empty_registry() {
    assert_eq!(Config::read_config(Config::init()), Ok(Config::init()));
}

#[test]
fn read_config_refuses_a_name_that_occurs_twice() {
    let decoded = registry(vec![pair("x", "/p"), pair("y", "/q"), pair("x", "/r")]);
    assert_eq!(Config::read_config(decoded), Err(SyncError::Serialization));
}

#[test]
fn read_config_refuses_a_place_that_occurs_twice() {
    let decoded = registry(vec![pair("x", "/p"), pair("y", "/p")]);
    assert_eq!(Config::read_config(decoded), Err(SyncError::Serialization));
}

#[test]
fn clone_keeps_pairs_in_order_and_hooks() {
    let mut config = registry(vec![pair("b", "/2"), pair("a", "/1")]);
    config.import_hook = "i".to_string();
    config.export_hook = "e".to_string();
    config.before_import_hook = "b".to_string();
    config.after_import_hook = "a".to_string();
    let copy = config.clone();
    assert_eq!(copy, config);
    assert_eq!(copy.pairs[0].name, "b");
    assert_eq!(copy.pairs[1].name, "a");
}

#[test]
fn error_clone_is_equal() {
    let errors = vec![
        SyncError::NotFound { what: "x".to_string() },
        SyncError::Conflict { name: "x".to_string(), place: "/p".to_string() },
        SyncError::Io {
            step: IoStep::Copy,
            path: "/p".to_string(),
            cause: "disk full".to_string(),
        },
        SyncError::Serialization,
        SyncError::HookStart { hook: "/h".to_string() },
    ];
    for e in errors {
        assert_eq!(e.clone(), e);
    }
}

#[test]
fn message_names_what_was_not_found() {
    assert_eq!(SyncError::NotFound { what: "missing".to_string() }.message(), "missing not found");
}

#[test]
fn message_names_both_sides_of_a_conflict() {
    let error = SyncError::Conflict { name: "x".to_string(), place: "/p".to_string() };
    assert_eq!(error.message(), "name x or path /p is already registered");
}

#[test]
fn message_names_the_step_the_path_and_the_cause() {
    let error = SyncError::Io {
        step: IoStep::Remove,
        path: "/store/x".to_string(),
        cause: "permission denied".to_string(),
    };
    assert_eq!(error.message(), "failed to remove directory /store/x: permission denied");
}

#[test]
fn message_of_each_step_differs() {
    assert_eq!(IoStep::Probe.text(), "failed to check if path exists");
    assert_eq!(IoStep::Fingerprint.text(), "failed to calculate dir hash");
    assert_eq!(IoStep::Remove.text(), "failed to remove directory");
    assert_eq!(IoStep::Create.text(), "failed to create directory");
    assert_eq!(IoStep::Copy.text(), "failed to copy directory");
    assert_eq!(IoStep::Persist.text(), "failed to write config file");
}

#[test]
fn message_of_an_invalid_registry_and_of_a_hook() {
    assert_eq!(SyncError::Serialization.message(), "config holds a name or a path twice");
    assert_eq!(
        SyncError::HookStart { hook: "/h".to_string() }.message(),
        "hook script /h failed to start"
    );
}

#[test]
fn registry_file_lies_directly_below_the_store_root() {
    assert_eq!(registry_path(&"/home/u/dotfiles".to_string()), "/home/u/dotfiles/dotman.toml");
}
