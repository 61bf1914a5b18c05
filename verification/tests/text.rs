use dotgk::error::{Error, HostLookupFailure};
use dotgk::paths::{
    config_dir_from, get_cache_path, get_config_dir, get_entrypoint_path, get_gatekeeper_path,
    get_generated_path, get_settings_path, join_path, resolve_path, source_path,
};
use dotgk::resolver::{
    candidate_names, file_gatekeeper_name, file_script_key, merged_names, module_to_name,
};
use dotgk::text::lines::lines;
use dotgk::text::numbers::{decimal_text, parse_u64};
use dotgk::text::order::{comes_before, sorted_names};
use dotgk::text::trim::{is_whitespace, trim};
use dotgk::text::{contains_char, join_names, str_eq};

fn strings(all: &[&str]) -> Vec<String> {
    all.iter().map(|s| s.to_string()).collect()
}

#[test]
fn str_eq_compares_the_characters() {
    assert!(str_eq("", ""));
    assert!(str_eq("héllo", "héllo"));
    assert!(!str_eq("hello", "hellO"));
    assert!(!str_eq("hello", "hell"));
    assert!(contains_char("a/b", '/'));
    assert!(!contains_char("a.b", '/'));
}

#[test]
fn join_names_puts_the_separator_between() {
    assert_eq!(join_names(&strings(&[]), ", "), "");
    assert_eq!(join_names(&strings(&["a"]), ", "), "a");
    assert_eq!(join_names(&strings(&["a", "", "c"]), " → "), "a →  → c");
}

#[test]
fn lines_are_split_as_the_standard_library_splits_them() {
    for text in ["", "a", "a\n", "a\nb", "a\r\nb\r\n", "a\rb", "\n", "\n\n", "a\n\nb", "a\r", "\r\n", "x\r\r\ny"] {
        let expected: Vec<String> = text.lines().map(|l| l.to_string()).collect();
        assert_eq!(lines(text), expected, "for {:?}", text);
    }
}

#[test]
fn trim_takes_white_space_from_both_ends() {
    for text in ["", " ", "a", "  a b \t\r\n", "\u{2003}x\u{00a0}", "\u{200b}x", "\u{3000}\u{1680}y z\u{2028}\u{2029}\u{85}"] {
        assert_eq!(trim(text), text.trim(), "for {:?}", text);
    }
    for code in 0u32..0x3100 {
        if let Some(c) = char::from_u32(code) {
            assert_eq!(is_whitespace(c), c.is_whitespace(), "for {:?}", c);
        }
    }
}

#[test]
fn parse_u64_reads_what_the_standard_library_reads() {
    for text in ["0", "7", "007", "+5", "3600", "18446744073709551615", "18446744073709551616", "99999999999999999999999", "", "+", "-1", "1 ", " 1", "1_000", "0x10", "١", "++1", "1+"] {
        assert_eq!(parse_u64(text), text.parse::<u64>().ok(), "for {:?}", text);
    }
    assert_eq!(parse_u64("3600"), Some(3600));
}

#[test]
fn decimal_text_writes_the_number() {
    for n in [0u64, 1, 9, 10, 11, 99, 100, 3600, 1_000_000, u64::MAX] {
        assert_eq!(decimal_text(n), n.to_string());
    }
}

#[test]
fn names_are_ordered_as_strings_are() {
    let names = ["", "a", "ab", "b", "B", "a/b", "a-b", "é", "z", "aé"];
    for a in names {
        for b in names {
            assert_eq!(comes_before(a, b), a < b, "for {:?} and {:?}", a, b);
        }
    }
    let mut expected = strings(&names);
    expected.sort();
    assert_eq!(sorted_names(&strings(&names)), expected);
    assert_eq!(sorted_names(&strings(&[])), strings(&[]));
}

#[test]
fn paths_are_joined_as_path_components() {
    assert_eq!(join_path("/home/u", ".config"), "/home/u/.config");
    assert_eq!(join_path("/home/u/", ".config"), "/home/u/.config");
    assert_eq!(join_path("", "x"), "x");
    assert_eq!(join_path("a", ""), "a/");
    assert_eq!(join_path("a", "/etc/x"), "/etc/x");
    for (base, part) in [("/home/u", ".config"), ("/home/u/", "x"), ("", "x"), ("a", "/etc/x"), ("a", ""), ("/", "b"), ("a/b", "c/d")] {
        let mut expected = std::path::PathBuf::from(base);
        expected.push(part);
        assert_eq!(join_path(base, part), expected.to_str().unwrap(), "for {:?} and {:?}", base, part);
    }
}

#[test]
fn the_configuration_directory() {
    assert_eq!(config_dir_from(Some("/x".to_string()), Some("/home/u".to_string())).unwrap(), "/x");
    assert_eq!(config_dir_from(Some("/x".to_string()), None).unwrap(), "/x");
    assert_eq!(config_dir_from(None, Some("/home/u".to_string())).unwrap(), "/home/u/.config/dotgk");
    let error = config_dir_from(None, None).unwrap_err();
    assert!(matches!(error, Error::IoError { .. }));
    assert_eq!(error.message(), "Failed to get home directory");
    assert_eq!(get_config_dir(Some("examples/dotgk".to_string())).unwrap(), "examples/dotgk");
    if let Ok(dir) = get_config_dir(None) {
        assert!(dir.ends_with("/.config/dotgk"));
    }
}

#[test]
fn the_files_of_an_installation() {
    assert_eq!(get_gatekeeper_path("/c", "meta/devserver", "json"), "/c/gatekeepers/meta/devserver.json");
    assert_eq!(get_gatekeeper_path("/c", "laptop", "lua"), "/c/gatekeepers/laptop.lua");
    assert_eq!(get_entrypoint_path("/c", "meta", "lua"), "/c/gatekeepers/meta/init.lua");
    assert_eq!(get_cache_path(None, "/c"), "/c/cache/cache.json");
    assert_eq!(get_cache_path(Some("/tmp/x.json".to_string()), "/c"), "/tmp/x.json");
    assert_eq!(get_settings_path("/c"), "/c/settings.json");
    assert_eq!(get_generated_path(None, "/c", "sh"), "/c/caches/dotgk.sh");
    assert_eq!(get_generated_path(Some("/o".to_string()), "/c", "sh"), "/o");
}

#[test]
fn resolve_path_prefers_the_direct_file() {
    let direct = "/c/gatekeepers/meta.lua";
    let entry = "/c/gatekeepers/meta/init.lua";
    assert_eq!(resolve_path("/c", "meta", "lua", true, true), direct);
    assert_eq!(resolve_path("/c", "meta", "lua", true, false), direct);
    assert_eq!(resolve_path("/c", "meta", "lua", false, true), entry);
    assert_eq!(resolve_path("/c", "meta", "lua", false, false), direct);
    for (d, e) in [(true, true), (true, false), (false, true), (false, false)] {
        assert_eq!(resolve_path("/c", "meta/x", "lua", d, e), "/c/gatekeepers/meta/x.lua");
    }
}

#[test]
fn a_gatekeeper_is_kept_in_its_script_or_else_its_declaration() {
    let script = "/c/gatekeepers/meta.lua";
    let entry = "/c/gatekeepers/meta/init.lua";
    let declared = "/c/gatekeepers/meta.json";
    assert_eq!(source_path("/c", "meta", "lua", "json", true, true, true), script);
    assert_eq!(source_path("/c", "meta", "lua", "json", false, true, true), entry);
    assert_eq!(source_path("/c", "meta", "lua", "json", false, false, true), declared);
    assert_eq!(source_path("/c", "meta", "lua", "json", false, false, false), script);
}

#[test]
fn merged_names_lists_each_name_once() {
    assert_eq!(
        merged_names(&strings(&["a", "b"]), &strings(&["b", "c", "c", "a", "d"])),
        strings(&["a", "b", "c", "d"])
    );
    assert_eq!(merged_names(&strings(&[]), &strings(&[])), strings(&[]));
}

#[test]
fn names_of_files_and_modules() {
    assert_eq!(file_gatekeeper_name("a.lua", "lua"), Some("a".to_string()));
    assert_eq!(file_gatekeeper_name("a.b.lua", "lua"), Some("a.b".to_string()));
    assert_eq!(file_gatekeeper_name("m/init.lua", "lua"), Some("m".to_string()));
    assert_eq!(file_gatekeeper_name("m/n/init.lua", "lua"), Some("m/n".to_string()));
    assert_eq!(file_gatekeeper_name("m/reinit.lua", "lua"), Some("m/reinit".to_string()));
    assert_eq!(file_gatekeeper_name("init.lua", "lua"), None);
    assert_eq!(file_gatekeeper_name("/init.lua", "lua"), None);
    assert_eq!(file_gatekeeper_name("a.json", "lua"), None);
    assert_eq!(file_gatekeeper_name("alua", "lua"), None);
    assert_eq!(file_gatekeeper_name(".lua", "lua"), None);
    assert_eq!(file_gatekeeper_name("m/.lua", "lua"), None);
    assert_eq!(file_script_key("m/init.lua", "lua"), Some("m/init".to_string()));
    assert_eq!(file_script_key("init.lua", "lua"), Some("init".to_string()));
    assert_eq!(file_script_key("m/.lua", "lua"), None);
    assert_eq!(file_script_key("a.txt", "lua"), None);
    assert_eq!(module_to_name("meta.devserver"), "meta/devserver");
    assert_eq!(module_to_name("meta/dev.server"), "meta/dev/server");
    assert_eq!(module_to_name("plain"), "plain");
    assert_eq!(candidate_names("meta"), vec!["meta".to_string(), "meta/init".to_string()]);
    assert_eq!(candidate_names("meta/x"), vec!["meta/x".to_string()]);
}

#[test]
fn each_error_describes_itself() {
    let chain = strings(&["a", "b"]);
    let cases = [
        (Error::NotFound { name: "x".to_string(), tried: vec![] }, "Gatekeeper 'x' not found"),
        (
            Error::NotFound { name: "x".to_string(), tried: strings(&["/c/gatekeepers/x.lua"]) },
            "Gatekeeper 'x' not found (tried: /c/gatekeepers/x.lua)",
        ),
        (
            Error::NotFound { name: "m".to_string(), tried: strings(&["m", "m/init"]) },
            "Gatekeeper 'm' not found (tried: m, m/init)",
        ),
        (Error::ParseError { message: "bad".to_string() }, "bad"),
        (
            Error::CircularDependency { name: "a".to_string(), chain },
            "Circular dependency detected: gatekeeper 'a' references itself\nCall chain: a → b → a",
        ),
        (
            Error::UnknownOsIdentifier { name: "beos".to_string() },
            "Unknown OS 'beos'. Valid options: linux, macos, windows, unix",
        ),
        (Error::HostLookup { failure: HostLookupFailure::Unavailable }, "Failed to get hostname"),
        (
            Error::HostLookup { failure: HostLookupFailure::NotText },
            "Failed to convert hostname to string",
        ),
        (Error::IoError { message: "disk".to_string() }, "disk"),
    ];
    for (error, text) in cases {
        assert_eq!(error.message(), text);
        assert_eq!(error.duplicate().message(), text);
    }
    assert_eq!(Error::not_found("x").message(), "Gatekeeper 'x' not found");
    assert_eq!(
        dotgk::error::not_found_message("x", &strings(&["a", "b"])),
        "Gatekeeper 'x' not found (tried: a, b)"
    );
}
