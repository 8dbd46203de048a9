use dotman::config::Config;
use dotman::config::Pair;
use toml::Table;
use toml::Value;

fn text_of(table: &Table, key: &str) -> String {
    match table.get(key) {
        Some(Value::String(text)) => text.clone(),
        _ => String::new(),
    }
}

/// Writes a registry as the table that the registry file holds.
fn to_table(config: &Config) -> Table {
    let mut table = Table::new();
    table.insert("import_hook".to_string(), Value::String(config.import_hook.clone()));
    table.insert("export_hook".to_string(), Value::String(config.export_hook.clone()));
    table.insert(
        "before_import_hook".to_string(),
        Value::String(config.before_import_hook.clone()),
    );
    table.insert("after_import_hook".to_string(), Value::String(config.after_import_hook.clone()));
    let mut pairs = vec![];
    for pair in &config.pairs {
        let mut entry = Table::new();
        entry.insert("name".to_string(), Value::String(pair.name.clone()));
        entry.insert("place".to_string(), Value::String(pair.place.clone()));
        pairs.push(Value::Table(entry));
    }
    table.insert("pairs".to_string(), Value::Array(pairs));
    table
}

/// Reads a registry from the table that the registry file holds.
fn from_table(table: &Table) -> Config {
    let mut config = Config::init();
    config.import_hook = text_of(table, "import_hook");
    config.export_hook = text_of(table, "export_hook");
    config.before_import_hook = text_of(table, "before_import_hook");
    config.after_import_hook = text_of(table, "after_import_hook");
    if let Some(Value::Array(pairs)) = table.get("pairs") {
        for entry in pairs {
            if let Value::Table(entry) = entry {
                config
                    .pairs
                    .push(Pair { name: text_of(entry, "name"), place: text_of(entry, "place") });
            }
        }
    }
    config
}

fn persist(config: &Config) -> String {
    toml::to_string(&to_table(config)).unwrap()
}

fn load(text: &str) -> Config {
    Config::read_config(from_table(&text.parse::<Table>().unwrap())).unwrap()
}

fn sample() -> Config {
    let mut config = Config::init();
    config.pairs = vec![
        Pair { name: "zsh".to_string(), place: "/home/u/.config/zsh".to_string() },
        Pair { name: "alacritty".to_string(), place: "/home/u/.config/alacritty".to_string() },
        Pair { name: "nvim".to_string(), place: "/home/u/.config/nvim".to_string() },
    ];
    config.export_hook = "/home/u/hooks/push.sh".to_string();
    config.after_import_hook = "echo \"done\"".to_string();
    config
}

#[test]
fn registry_comes_back_from_its_file_as_it_went() {
    let config = sample();
    assert_eq!(load(&persist(&config)), config);
}

#[test]
fn registry_file_is_the_same_after_a_round_trip() {
    let first = persist(&sample());
    let second = persist(&load(&first));
    assert_eq!(second, first);
}

#[test]
fn registry_file_keeps_the_pairs_in_insertion_order() {
    let loaded = load(&persist(&sample()));
    let names: Vec<&str> = loaded.pairs.iter().map(|p| p.name.as_str()).collect();
    assert_eq!(names, vec!["zsh", "alacritty", "nvim"]);
}

#[test]
fn empty_registry_comes_back_empty() {
    let text = persist(&Config::init());
    assert_eq!(load(&text), Config::init());
    assert_eq!(persist(&load(&text)), text);
}

#[test]
fn registry_file_with_a_name_twice_is_refused() {
    let mut config = sample();
    config.pairs.push(Pair { name: "zsh".to_string(), place: "/elsewhere".to_string() });
    let text = persist(&config);
    let decoded = from_table(&text.parse::<Table>().unwrap());
    assert_eq!(Config::read_config(decoded), Err(dotman::error::SyncError::Serialization));
}
