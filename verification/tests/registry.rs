use ves::http_server::validate_event;
use ves::registry::{
    read_schemas, RegistryError, RegistryErrorKind, SchemaRegistry, SchemaSource,
};
use ves::schema::{CompiledSchema, SchemaError};
use ves::SemVer;

fn source(version: &str, schema: &str) -> SchemaSource {
    SchemaSource { version: version.to_string(), schema: schema.to_string() }
}

fn version(text: &str) -> SemVer {
    text.parse().unwrap()
}

#[test]
fn a_new_registry_is_empty() {
    let registry = SchemaRegistry::new();
    assert_eq!(registry.len(), 0);
    assert!(!registry.contains(&SemVer::new()));
    assert!(registry.get(&SemVer::new()).is_none());
    assert_eq!(registry.latest_patch(0, 0), None);
}

#[test]
fn inserting_registers_and_replaces() {
    let mut registry = SchemaRegistry::new();
    registry.insert(version("7.2.1"), CompiledSchema::compile(r#"{"required": ["a"]}"#).unwrap());
    registry.insert(version("7.2.0"), CompiledSchema::compile(r#"{"required": ["b"]}"#).unwrap());
    assert_eq!(registry.len(), 2);
    assert!(registry.contains(&version("7.2.1")));
    assert!(registry.contains(&version("7.2.0")));
    assert!(!registry.contains(&version("7.2.2")));
    let with_a = br#"{"event": 1, "a": 1}"#.to_vec();
    let with_c = br#"{"event": 1, "c": 1}"#.to_vec();
    assert!(validate_event(&with_a, registry.get(&version("7.2.1")).unwrap(), "event"));
    assert!(!validate_event(&with_c, registry.get(&version("7.2.1")).unwrap(), "event"));
    assert!(!validate_event(&with_a, registry.get(&version("7.2.0")).unwrap(), "event"));

    registry.insert(version("7.2.1"), CompiledSchema::compile(r#"{"required": ["c"]}"#).unwrap());
    assert_eq!(registry.len(), 2);
    assert!(!validate_event(&with_a, registry.get(&version("7.2.1")).unwrap(), "event"));
    assert!(validate_event(&with_c, registry.get(&version("7.2.1")).unwrap(), "event"));
    assert!(!validate_event(&with_a, registry.get(&version("7.2.0")).unwrap(), "event"));
}

#[test]
fn the_latest_patch_is_the_greatest_of_its_line() {
    let mut registry = SchemaRegistry::new();
    for text in ["7.1.0", "7.1.1", "7.2.0", "8.1.9", "7.1.65535", "6.1.3"] {
        registry.insert(version(text), CompiledSchema::compile("{}").unwrap());
    }
    assert_eq!(registry.latest_patch(7, 1), Some(65535));
    assert_eq!(registry.latest_patch(7, 2), Some(0));
    assert_eq!(registry.latest_patch(8, 1), Some(9));
    assert_eq!(registry.latest_patch(7, 0), None);
    assert_eq!(registry.latest_patch(1, 7), None);
}

#[test]
fn schemas_are_compiled_from_their_text() {
    assert!(CompiledSchema::compile(r#"{"type": "object"}"#).is_ok());
    assert_eq!(CompiledSchema::compile("{").err(), Some(SchemaError::InvalidJson));
    assert_eq!(CompiledSchema::compile("").err(), Some(SchemaError::InvalidJson));
    assert_eq!(CompiledSchema::compile(r#"{"type": 7}"#).err(), Some(SchemaError::InvalidSchema));
    assert_eq!(CompiledSchema::compile(r#"{"type": "no type"}"#).err(), Some(SchemaError::InvalidSchema));
}

#[test]
fn the_configured_schemas_become_the_registry() {
    let sources = vec![
        source("7.2.1", r#"{"type": "object"}"#),
        source("7.1.1", "{}"),
        source("7.1.0", "{}"),
        source("07.1.1", r#"{"type": "object"}"#),
    ];
    let registry = read_schemas(&sources).unwrap();
    assert_eq!(registry.len(), 3);
    assert_eq!(registry.latest_patch(7, 1), Some(1));
    assert_eq!(registry.latest_patch(7, 2), Some(1));
    assert_eq!(read_schemas(&Vec::new()).unwrap().len(), 0);
}

#[test]
fn the_first_invalid_schema_is_the_error() {
    let sources = vec![
        source("7.2.1", "{}"),
        source("7.2", "{}"),
        source("7.1.1", "{"),
    ];
    assert_eq!(
        read_schemas(&sources).err(),
        Some(RegistryError { index: 1, kind: RegistryErrorKind::InvalidVersion })
    );
    let sources = vec![source("7.2.1", "{}"), source("7.1.1", "{"), source("x", "{}")];
    assert_eq!(
        read_schemas(&sources).err(),
        Some(RegistryError { index: 1, kind: RegistryErrorKind::InvalidJson })
    );
    let sources = vec![source("7.2.1", r#"{"type": 7}"#)];
    assert_eq!(
        read_schemas(&sources).err(),
        Some(RegistryError { index: 0, kind: RegistryErrorKind::InvalidSchema })
    );
}

#[test]
fn registry_errors_have_messages() {
    let invalid_version = RegistryError { index: 0, kind: RegistryErrorKind::InvalidVersion };
    assert_eq!(
        invalid_version.message(),
        "Invalid SemVer, most likely an incorrect configuration file!"
    );
    let invalid_json = RegistryError { index: 0, kind: RegistryErrorKind::InvalidJson };
    assert_eq!(invalid_json.message(), "Invalid Json schema");
    let invalid_schema = RegistryError { index: 0, kind: RegistryErrorKind::InvalidSchema };
    assert_eq!(invalid_schema.message(), "Invalid Json schema");
}
