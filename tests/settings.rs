use topology_traits::generate::{expand, generate_checked, TypeDecl};
use topology_traits::settings::{read_attribute, Settings, SettingsError};

fn read(payload: &str) -> Result<Settings, SettingsError> {
    read_attribute(Settings::new(), payload)
}

fn mapping_of(payload: &str) -> Option<String> {
    match read(payload) {
        Ok(s) => s.mapping,
        Err(_) => panic!("refused: {}", payload),
    }
}

#[test]
fn unrecognized_option_fails_generation() {
    match read("hello = \"world\"") {
        Err(SettingsError::UnrecognizedOption(n)) => assert_eq!(n, "hello"),
        _ => panic!("an unknown option must be refused"),
    }
    let d = TypeDecl {
        name: "P".to_string(),
        type_args: String::new(),
        where_predicates: String::new(),
    };
    let r = expand(&d, &vec!["linear_map = \"mix\"".to_string(), "scaler".to_string()]);
    assert!(matches!(r, Err((Some(1), SettingsError::UnrecognizedOption(ref n))) if n == "scaler"));
}

#[test]
fn linear_map_forms() {
    assert_eq!(mapping_of("linear_map = \"mix\""), Some("mix".to_string()));
    assert_eq!(mapping_of("  linear_map=\"mix_2\" ,"), Some("mix_2".to_string()));
    assert_eq!(mapping_of("linear_map(\"mix\" : R)"), Some("mix".to_string()));
    assert_eq!(mapping_of("linear_map(\"mix\")"), Some("mix".to_string()));
    assert_eq!(mapping_of(""), None);
    assert_eq!(mapping_of("linear_map = \"a\", linear_map = \"b\""), Some("b".to_string()));
}

#[test]
fn scalars_is_accepted_and_ignored() {
    let s = read("scalars = \"f64, f32\"").ok().unwrap();
    assert!(s.scalars);
    assert!(s.mapping.is_none());
    let s = read("scalars, linear_map = \"mix\"").ok().unwrap();
    assert!(s.scalars);
    assert_eq!(s.mapping, Some("mix".to_string()));
    assert!(!Settings::new().scalars);
}

#[test]
fn each_error_variant() {
    assert!(matches!(read("linear_map"), Err(SettingsError::MappingNotString)));
    assert!(matches!(read("linear_map = mix"), Err(SettingsError::MappingNotString)));
    assert!(matches!(read("linear_map = \"mix"), Err(SettingsError::Malformed)));
    assert!(matches!(read("linear_map(\"mix\" : R"), Err(SettingsError::Malformed)));
    assert!(matches!(read("scalars = f32"), Err(SettingsError::Malformed)));
    assert!(matches!(read("linear_map = \"mix\" scalars"), Err(SettingsError::Malformed)));
    assert!(matches!(read(", linear_map = \"mix\""), Err(SettingsError::Malformed)));
    match expand_with("linear_map = \"1mix\"") {
        Err((None, SettingsError::InvalidMethodName(n))) => assert_eq!(n, "1mix"),
        _ => panic!("not an identifier"),
    }
    let e = read("linear_map = mix").err().unwrap();
    assert_eq!(e.message(), "linear_map had no ident!");
}

fn expand_with(payload: &str) -> Result<String, (Option<usize>, SettingsError)> {
    let d = TypeDecl {
        name: "P".to_string(),
        type_args: String::new(),
        where_predicates: String::new(),
    };
    expand(&d, &vec![payload.to_string()])
}

#[test]
fn method_names_are_rust_identifiers() {
    for good in ["größe", "r#mix", "_mix9", "mix"] {
        let text = match expand_with(&format!("linear_map = \"{}\"", good)) {
            Ok(t) => t,
            Err(_) => panic!("refused {}", good),
        };
        assert!(text.contains(&format!("self[0].{}(self[1], factor)", good)));
    }
    for bad in ["_", "fn", "self", "9a", "a-b", "a b", "mix // c", " mix", ""] {
        match expand_with(&format!("linear_map = \"{}\"", bad)) {
            Err((None, SettingsError::InvalidMethodName(n))) => assert_eq!(n, bad),
            _ => panic!("accepted {:?}", bad),
        }
    }
}

#[test]
fn raw_string_method_name() {
    assert_eq!(mapping_of("linear_map = r\"mix\""), Some("mix".to_string()));
    assert_eq!(mapping_of("linear_map(r\"mix\" : R)"), Some("mix".to_string()));
    assert!(expand_with("linear_map = r\"mix\"").is_ok());
}

#[test]
fn error_messages_name_the_offender() {
    let e = read("hello").err().unwrap();
    assert_eq!(e.message(), "unrecognized topology_traits option `hello`");
    let e = expand_with("linear_map = \"9\"").err().unwrap().1;
    assert_eq!(e.message(), "linear_map names `9`, which is not an identifier");
    assert_eq!(
        SettingsError::MappingNotString.message(),
        "linear_map had no ident!"
    );
    assert_eq!(
        SettingsError::Malformed.message(),
        "expected a comma separated list of topology_traits options"
    );
}

#[test]
fn generate_checked_follows_the_check() {
    let d = TypeDecl {
        name: "P".to_string(),
        type_args: String::new(),
        where_predicates: String::new(),
    };
    let named = read("linear_map = \"mix\"").ok().unwrap();
    assert!(generate_checked(&d, &named, true).ok().unwrap().contains("self[0].mix(self[1], factor)"));
    match generate_checked(&d, &named, false) {
        Err(SettingsError::InvalidMethodName(n)) => assert_eq!(n, "mix"),
        _ => panic!("a refused check must refuse the method"),
    }
    let spaced = read("linear_map = \"mi x\"").ok().unwrap();
    assert!(matches!(generate_checked(&d, &spaced, true), Err(SettingsError::InvalidMethodName(_))));
    let plain = Settings::new();
    assert!(generate_checked(&d, &plain, false).ok().unwrap().contains("R::one() - factor"));
}
