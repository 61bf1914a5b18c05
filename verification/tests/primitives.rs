use dotgk::cache::generators::{CacheGenerator, CacheGeneratorRegistry, ShellCacheGenerator};
use dotgk::cache::sync::SyncReport;
use dotgk::cache::{get_all_gatekeepers, Cache, CacheEntry, UpdateType};
use dotgk::context::EvaluationContext;
use dotgk::error::{Error, HostLookupFailure};
use dotgk::names::NameMap;
use dotgk::primitives::{
    all_of, any_of, combinator, file_exists, hostname_equals, hostname_matches, none_of,
    os_equals, Combinator, HostnameLookup, Platform,
};
use dotgk::report::{
    listing_line, parse_bool_word, removal_message, set_message, sync_message,
};

fn create_test_cache() -> Cache {
    let mut cache = Cache::new(1000);
    cache.cache.insert(
        "test-gk".to_string(),
        CacheEntry { value: true, ts: 1000, update_type: UpdateType::Sync, expires_at: None },
    );
    cache.cache.insert(
        "another_gk".to_string(),
        CacheEntry { value: false, ts: 1000, update_type: UpdateType::Sync, expires_at: None },
    );
    cache
}

#[test]
fn test_shell_generator() {
    let generator = ShellCacheGenerator;
    let cache = create_test_cache();

    let content = generator.generate_content(&cache).unwrap();

    assert!(content.contains("#!/bin/bash"));
    assert!(content.contains("# Auto-generated by dotgk sync"));
    assert!(content.contains("declare -A _DOTGK_VALUES=("));
    assert!(content.contains("[\"another_gk\"]=\"false\""));
    assert!(content.contains("[\"test-gk\"]=\"true\""));
    assert!(content.contains("dotgk_check() {"));
    assert_eq!(
        content,
        "#!/bin/bash\n# Auto-generated by dotgk sync\n# Do not edit manually\n# Source this file to get gatekeeper functions\n\n# Gatekeeper values stored in associative array\ndeclare -A _DOTGK_VALUES=(\n  [\"another_gk\"]=\"false\"\n  [\"test-gk\"]=\"true\"\n)\n\n# Helper function to check gatekeeper values\ndotgk_check() {\n  local name=\"$1\"\n  local value=\"${_DOTGK_VALUES[$name]:-false}\"\n  [[ \"$value\" == \"true\" ]]\n}\n"
    );
    assert_eq!(generator.name(), "shell");
    assert_eq!(generator.file_extension(), "sh");
}

#[test]
fn the_registry_knows_the_shell_format() {
    let registry = CacheGeneratorRegistry::new();

    assert!(registry.get("shell").is_some());
    assert!(registry.get("nonexistent").is_none());
    assert_eq!(registry.get("shell").unwrap().file_extension(), "sh");

    let available = registry.available_generators();
    assert_eq!(available, vec!["shell"]);
}

#[test]
fn a_generator_can_be_registered() {
    let mut registry = CacheGeneratorRegistry::empty();
    assert!(registry.available_generators().is_empty());
    assert!(registry.get("shell").is_none());
    registry.register(ShellCacheGenerator);
    registry.register(ShellCacheGenerator);
    assert_eq!(registry.available_generators(), vec!["shell"]);
    let cache = create_test_cache();
    let formats = vec!["shell".to_string(), "lua".to_string(), "shell".to_string()];
    let generated = registry.generate_caches(&cache, &formats);
    assert_eq!(generated.len(), 2);
    assert_eq!(generated[1].format, "shell");
}

#[test]
fn generate_caches_passes_over_unknown_formats() {
    let registry = CacheGeneratorRegistry::new();
    let cache = create_test_cache();
    let formats = vec!["nonexistent".to_string(), "shell".to_string(), "Shell".to_string()];
    let generated = registry.generate_caches(&cache, &formats);
    assert_eq!(generated.len(), 1);
    assert_eq!(generated[0].format, "shell");
    assert_eq!(generated[0].extension, "sh");
    assert_eq!(generated[0].content, ShellCacheGenerator.generate_content(&cache).unwrap());
    assert!(registry.generate_caches(&cache, &Vec::new()).is_empty());
}

#[test]
fn the_cached_values_are_listed_in_order() {
    let cache = create_test_cache();
    assert_eq!(
        get_all_gatekeepers(&cache),
        vec![("another_gk".to_string(), false), ("test-gk".to_string(), true)]
    );
    assert!(get_all_gatekeepers(&Cache::new(0)).is_empty());
    assert_eq!(listing_line("test-gk", true), "test-gk: true");
}

#[test]
fn the_combinators() {
    assert_eq!(any_of(&vec![]), false);
    assert_eq!(all_of(&vec![]), true);
    assert_eq!(none_of(&vec![]), true);
    assert_eq!(any_of(&vec![false, true]), true);
    assert_eq!(all_of(&vec![false, true]), false);
    assert_eq!(none_of(&vec![false, true]), false);
    assert_eq!(any_of(&vec![false, false]), false);
    assert_eq!(none_of(&vec![false, false]), true);
    assert_eq!(all_of(&vec![true, true]), true);
    assert_eq!(combinator(Combinator::Any, &vec![false, true]), true);
    assert_eq!(combinator(Combinator::All, &vec![false, true]), false);
    assert_eq!(combinator(Combinator::NoneOf, &vec![false, true]), false);
    assert_eq!(combinator(Combinator::NoneOf, &vec![]), true);
}

#[test]
fn the_printer_is_only_on_the_corp_laptop() {
    let here = HostnameLookup::Name("corp-laptop".to_string());
    assert_eq!(hostname_matches(&here, "corp-laptop").unwrap(), true);
    for other in ["corp-laptop2", "Corp-Laptop", "corp-lapto", "", "home"] {
        let elsewhere = HostnameLookup::Name(other.to_string());
        assert_eq!(hostname_matches(&elsewhere, "corp-laptop").unwrap(), false);
    }
    for failure in [HostLookupFailure::Unavailable, HostLookupFailure::NotText] {
        let error = hostname_matches(&HostnameLookup::Failed(failure), "corp-laptop").unwrap_err();
        assert!(matches!(error, Error::HostLookup { failure: f } if f == failure));
    }
    assert_eq!(hostname_equals("hopefullynotarealhostname").unwrap(), false);
}

#[test]
fn the_operating_system_identifiers() {
    let on = |os: &str, unix: bool| Platform {
        os: os.to_string(),
        unix,
        hostname: HostnameLookup::Name("box".to_string()),
    };
    let linux = on("linux", true);
    let mac = on("macos", true);
    let windows = on("windows", false);
    assert_eq!(os_equals("linux", &linux).unwrap(), true);
    assert_eq!(os_equals("linux", &mac).unwrap(), false);
    assert_eq!(os_equals("macos", &mac).unwrap(), true);
    assert_eq!(os_equals("darwin", &mac).unwrap(), true);
    assert_eq!(os_equals("darwin", &linux).unwrap(), false);
    assert_eq!(os_equals("windows", &windows).unwrap(), true);
    assert_eq!(os_equals("unix", &windows).unwrap(), false);
    assert_eq!(os_equals("unix", &linux).unwrap(), true);
    match os_equals("Linux", &linux) {
        Err(Error::UnknownOsIdentifier { name }) => assert_eq!(name, "Linux"),
        other => panic!("unexpected: {:?}", other),
    }
}

#[test]
fn file_exists_never_fails() {
    assert_eq!(file_exists("/"), true);
    assert_eq!(file_exists("/nonexistent/path/12345"), false);
    assert_eq!(file_exists(""), false);
}

#[test]
fn the_context_enters_and_leaves() {
    let mut context = EvaluationContext::new();
    assert_eq!(context.depth(), 0);
    context.visit("a").unwrap();
    context.visit("b").unwrap();
    assert!(context.contains("a"));
    assert_eq!(context.chain(), vec!["a".to_string(), "b".to_string()]);
    match context.visit("a") {
        Err(Error::CircularDependency { name, chain }) => {
            assert_eq!(name, "a");
            assert_eq!(chain, vec!["a".to_string(), "b".to_string()]);
        },
        other => panic!("unexpected: {:?}", other),
    }
    assert_eq!(context.depth(), 2);
    context.leave("a");
    assert_eq!(context.chain(), vec!["b".to_string()]);
    context.leave("missing");
    assert_eq!(context.depth(), 1);
    context.visit("a").unwrap();
    assert_eq!(context.extended().chain(), vec!["b".to_string(), "a".to_string()]);
}

#[test]
fn name_maps_keep_one_value_for_each_name() {
    let mut map: NameMap<u32> = NameMap::new();
    assert!(map.is_empty());
    map.insert("a".to_string(), 1);
    map.insert("b".to_string(), 2);
    map.insert("a".to_string(), 3);
    assert_eq!(map.len(), 2);
    assert_eq!(map.get("a"), Some(&3));
    assert_eq!(map.names(), vec!["a".to_string(), "b".to_string()]);
    assert_eq!(map.position("b"), Some(1));
    assert_eq!(map.name_at(1), "b");
    assert_eq!(map.value_at(1), &2);
    assert_eq!(map.remove("a"), Some(3));
    assert_eq!(map.remove("a"), None);
    assert_eq!(map.names(), vec!["b".to_string()]);
    assert!(!map.contains_key("a"));
}

#[test]
fn words_for_booleans() {
    for word in ["true", "1", "yes", "on", "TRUE", "Yes", "oN"] {
        assert_eq!(parse_bool_word(word), Some(true), "for {:?}", word);
    }
    for word in ["false", "0", "no", "off", "FALSE", "No", "OFF"] {
        assert_eq!(parse_bool_word(word), Some(false), "for {:?}", word);
    }
    for word in ["", "2", "y", "tru", " true", "ja", "truE "] {
        assert_eq!(parse_bool_word(word), None, "for {:?}", word);
    }
}

#[test]
fn what_the_commands_answer() {
    assert_eq!(set_message("x", true, Some(60)), "Set 'x' = true (expires in 60 seconds)");
    assert_eq!(set_message("x", false, None), "Set 'x' = false (no expiration)");
    assert_eq!(removal_message("g", true, true, true), "Removed gatekeeper 'g' from cache and deleted file");
    assert_eq!(removal_message("g", true, false, true), "Removed gatekeeper 'g' from cache (file did not exist)");
    assert_eq!(removal_message("g", true, false, false), "Removed gatekeeper 'g' from cache");
    assert_eq!(removal_message("g", true, true, false), "Removed gatekeeper 'g' from cache");
    assert_eq!(removal_message("g", false, true, true), "Deleted gatekeeper file for 'g' (no cache entry existed)");
    assert_eq!(removal_message("g", false, false, true), "Gatekeeper 'g' not found in cache or filesystem");
    assert_eq!(removal_message("g", false, false, false), "Gatekeeper 'g' not found in cache");
    let report = SyncReport { updated: 3, skipped: 12, preserved: 1, removed: 0 };
    assert_eq!(
        sync_message(&report, false),
        "Synced 3 gatekeepers, skipped 12 non-expired, preserved 1 non-gatekeeper entries"
    );
    assert_eq!(sync_message(&report, true), "Force synced 3 gatekeepers, preserved 1 non-gatekeeper entries");
    let report = SyncReport { updated: 0, skipped: 0, preserved: 0, removed: 2 };
    assert_eq!(
        sync_message(&report, false),
        "Synced 0 gatekeepers, skipped 0 non-expired, preserved 0 non-gatekeeper entries, removed 2 orphaned entries"
    );
    assert_eq!(
        sync_message(&report, true),
        "Force synced 0 gatekeepers, preserved 0 non-gatekeeper entries, removed 2 orphaned entries"
    );
}
