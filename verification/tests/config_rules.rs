use transcribe_server::config::{bare_path_spec, file_stem_of, at_least_one, merge_api_keys, model_specs, parse_usize, toggle};

#[test]
fn toggles_accept_on_off_spellings_and_reject_the_rest() {
    for (text, expected) in [
        ("on", true),
        ("ON", true),
        ("true", true),
        ("1", true),
        ("yes", true),
        ("off", false),
        ("false", false),
        ("0", false),
        ("no", false),
    ] {
        assert_eq!(toggle(text), Ok(expected), "{text}");
    }
    assert!(toggle("maybe").is_err());
    assert!(toggle("").is_err());
}

#[test]
fn toggle_error_names_the_folded_value() {
    assert_eq!(toggle("  MayBe ").unwrap_err(), "expected on or off, got: maybe");
    assert_eq!(toggle(" Yes\t"), Ok(true));
}

#[test]
fn counts_parse_like_std_and_must_be_positive() {
    for s in ["0", "1", "+7", "007", "18446744073709551615", "18446744073709551616", "", "+", "-1", " 1", "1x"] {
        assert_eq!(parse_usize(s), s.parse::<usize>().ok(), "{s:?}");
    }
    assert_eq!(at_least_one("2"), Ok(2));
    assert_eq!(at_least_one("0").unwrap_err(), "must be at least 1");
    assert_eq!(at_least_one("two").unwrap_err(), "invalid number: two");
}

#[test]
fn model_specs_alias_and_stem() {
    let specs = model_specs(&vec!["ru=/x/g.gguf".to_string(), "/y/whisper.gguf".to_string()]);
    let aliases: Vec<&str> = specs.iter().map(|s| s.alias.as_str()).collect();
    assert_eq!(aliases, ["ru", "whisper"]);
    assert_eq!(specs[0].path, "/x/g.gguf");
    assert_eq!(specs[1].path, "/y/whisper.gguf");
}

#[test]
fn a_value_without_a_file_name_is_its_own_alias() {
    let specs = model_specs(&vec!["/".to_string(), "a=b=c".to_string()]);
    assert_eq!(specs[0].alias, "/");
    assert_eq!(specs[0].path, "/");
    assert_eq!(specs[1].alias, "a");
    assert_eq!(specs[1].path, "b=c");
}

#[test]
fn all_api_keys_merges_flags_and_file() {
    let lines = vec!["k2".to_string(), "  k3  ".to_string(), String::new()];
    let keys = merge_api_keys(&vec!["k1".to_string()], &lines);
    assert_eq!(keys, ["k1", "k2", "k3"]);
}

#[test]
fn all_api_keys_without_file() {
    assert_eq!(merge_api_keys(&vec!["k1".to_string()], &Vec::new()), ["k1"]);
}

#[test]
fn a_bare_path_takes_its_stem_as_alias() {
    let spec = bare_path_spec("/m/ru.gguf", Some("ru.gguf".to_string()));
    assert_eq!((spec.alias.as_str(), spec.path.as_str()), ("ru", "/m/ru.gguf"));
    let spec = bare_path_spec("/", None);
    assert_eq!((spec.alias.as_str(), spec.path.as_str()), ("/", "/"));
}

#[test]
fn a_stem_drops_only_the_final_extension() {
    assert_eq!(file_stem_of("a.tar.gz"), "a.tar");
    assert_eq!(file_stem_of("model.gguf"), "model");
    assert_eq!(file_stem_of("noext"), "noext");
    assert_eq!(file_stem_of(".bashrc"), ".bashrc");
    assert_eq!(file_stem_of("a."), "a");
    assert_eq!(file_stem_of(".."), "..");
    assert_eq!(file_stem_of("..."), "..");
}

/// The stem rule agrees with std's `Path::file_stem` on file names.
#[test]
fn the_stem_rule_matches_std() {
    for name in ["a.tar.gz", "model.gguf", "noext", ".bashrc", "a.", "...", ".a.b", "x.y."] {
        let expected = std::path::Path::new(name).file_stem().unwrap().to_str().unwrap();
        assert_eq!(file_stem_of(name), expected, "{name}");
    }
}
