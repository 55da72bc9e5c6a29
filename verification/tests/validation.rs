use ves::http_server::{check_request, validate_event, validate_request};
use ves::resolver::{resolve, Resolution, VersionError, VersionHeaders};
use ves::registry::SchemaRegistry;
use ves::schema::CompiledSchema;
use ves::ves::{failed_schema_validation, invalid_api_version};
use ves::SemVer;

const HEADER_MINOR_VERSION: &str = "X-MinorVersion";
const HEADER_PATCH_VERSION: &str = "X-PatchVersion";

/// The common event format, cut down to the header and the registration
/// fields of a physical network function.
const COMMON_EVENT_FORMAT: &str = r##"{
    "$schema": "http://json-schema.org/draft-04/schema#",
    "title": "VES Event Listener Common Event Format",
    "type": "object",
    "properties": {
        "event": { "$ref": "#/definitions/event" },
        "eventList": { "$ref": "#/definitions/eventList" }
    },
    "definitions": {
        "hashMap": {
            "type": "object",
            "additionalProperties": { "type": "string" }
        },
        "commonEventHeader": {
            "type": "object",
            "properties": {
                "domain": {
                    "type": "string",
                    "enum": [
                        "fault", "heartbeat", "measurement", "notification", "other",
                        "pnfRegistration", "stateChange", "syslog", "thresholdCrossingAlert"
                    ]
                },
                "eventId": { "type": "string" },
                "eventName": { "type": "string" },
                "eventType": { "type": "string" },
                "lastEpochMicrosec": { "type": "number" },
                "nfNamingCode": { "type": "string" },
                "nfVendorName": { "type": "string" },
                "priority": { "type": "string", "enum": ["High", "Medium", "Normal", "Low"] },
                "reportingEntityId": { "type": "string" },
                "reportingEntityName": { "type": "string" },
                "sequence": { "type": "integer" },
                "sourceId": { "type": "string" },
                "sourceName": { "type": "string" },
                "startEpochMicrosec": { "type": "number" },
                "timeZoneOffset": { "type": "string" },
                "version": { "type": "string", "enum": ["4.0", "4.0.1", "4.1"] },
                "vesEventListenerVersion": {
                    "type": "string",
                    "enum": ["7.0", "7.0.1", "7.1", "7.1.1", "7.2", "7.2.1"]
                }
            },
            "additionalProperties": false,
            "required": [
                "domain", "eventId", "eventName", "lastEpochMicrosec", "priority",
                "reportingEntityName", "sequence", "sourceName", "startEpochMicrosec",
                "version", "vesEventListenerVersion"
            ]
        },
        "pnfRegistrationFields": {
            "type": "object",
            "properties": {
                "additionalFields": { "$ref": "#/definitions/hashMap" },
                "lastServiceDate": { "type": "string" },
                "macAddress": { "type": "string" },
                "manufactureDate": { "type": "string" },
                "modelNumber": { "type": "string" },
                "oamV4IpAddress": { "type": "string" },
                "oamV6IpAddress": { "type": "string" },
                "pnfRegistrationFieldsVersion": { "type": "string", "enum": ["2.0", "2.1"] },
                "serialNumber": { "type": "string" },
                "softwareVersion": { "type": "string" },
                "unitFamily": { "type": "string" },
                "unitType": { "type": "string" },
                "vendorName": { "type": "string" }
            },
            "additionalProperties": false,
            "required": ["pnfRegistrationFieldsVersion"]
        },
        "event": {
            "type": "object",
            "properties": {
                "commonEventHeader": { "$ref": "#/definitions/commonEventHeader" },
                "pnfRegistrationFields": { "$ref": "#/definitions/pnfRegistrationFields" }
            },
            "additionalProperties": false,
            "required": ["commonEventHeader"]
        },
        "eventList": {
            "type": "array",
            "items": { "$ref": "#/definitions/event" }
        }
    }
}"##;

/// The registration of a physical network function, as an event of the
/// version 7.2.1.
const PNF_REGISTRATION: &str = r##"{
    "event": {
        "commonEventHeader": {
            "domain": "pnfRegistration",
            "eventId": "ORAN-DEV_ONAP Controller for Radio",
            "eventName": "pnfRegistration_EventType5G",
            "eventType": "EventType5G",
            "sequence": 0,
            "priority": "Low",
            "reportingEntityId": "",
            "reportingEntityName": "ORAN-DEV",
            "sourceId": "",
            "sourceName": "ORAN-DEV",
            "startEpochMicrosec": 1639985329569087,
            "lastEpochMicrosec": 1639985329569087,
            "nfNamingCode": "SDNR",
            "nfVendorName": "ONAP",
            "timeZoneOffset": "+00:00",
            "version": "4.1",
            "vesEventListenerVersion": "7.2.1"
        },
        "pnfRegistrationFields": {
            "pnfRegistrationFieldsVersion": "2.1",
            "lastServiceDate": "2021-03-26",
            "macAddress": "02:42:f7:d4:62:ce",
            "manufactureDate": "2021-01-16",
            "modelNumber": "ONAP Controller for Radio",
            "oamV4IpAddress": "127.0.0.1",
            "oamV6IpAddress": "0:0:0:0:0:ffff:a0a:0.1",
            "serialNumber": "ONAP-SDNR-127.0.0.1-ONAP Controller for Radio",
            "softwareVersion": "2.3.5",
            "unitFamily": "ONAP-SDNR",
            "unitType": "SDNR",
            "vendorName": "ONAP",
            "additionalFields": {
                "oamPort": "830",
                "protocol": "SSH",
                "username": "netconf",
                "reconnectOnChangedSchema": "false",
                "sleep-factor": "1.5",
                "tcpOnly": "false",
                "connectionTimeout": "20000",
                "maxConnectionAttempts": "100",
                "betweenAttemptsTimeout": "2000",
                "keepaliveDelay": "120"
            }
        }
    }
}"##;

fn schema() -> CompiledSchema {
    CompiledSchema::compile(COMMON_EVENT_FORMAT).expect("Invalid JSON schema")
}

fn schema_map() -> SchemaRegistry {
    let mut schemas = SchemaRegistry::new();
    schemas.insert("7.2.1".parse().unwrap(), schema());
    schemas
}

fn any_schema() -> CompiledSchema {
    CompiledSchema::compile("{}").unwrap()
}

fn registry_of(versions: &[&str]) -> SchemaRegistry {
    let mut schemas = SchemaRegistry::new();
    for version in versions {
        schemas.insert(version.parse().unwrap(), any_schema());
    }
    schemas
}

fn headers(pairs: &[(&str, &str)]) -> VersionHeaders {
    let mut headers = VersionHeaders::new();
    for (name, value) in pairs {
        if name.eq_ignore_ascii_case(HEADER_MINOR_VERSION) {
            headers.minor_version = Some(value.as_bytes().to_vec());
        } else if name.eq_ignore_ascii_case(HEADER_PATCH_VERSION) {
            headers.patch_version = Some(value.as_bytes().to_vec());
        }
    }
    headers
}

#[test]
fn test_validate_invalid_utf8() {
    let input = vec![0x01, 0xFF];
    assert!(!validate_event(&input, &schema(), "event"));
}

#[test]
fn test_validate_invalid_json() {
    let input = "{".into();
    assert!(!validate_event(&input, &schema(), "event"));
}

#[test]
fn test_validate_invalid_event_ves_schema() {
    let input = r#"{"event": 1}"#.into();
    assert!(!validate_event(&input, &schema(), "event"));
}

#[test]
fn test_validate_invalid_event_root_key_check() {
    let input = r#"{"bla": 1}"#.into();
    assert!(!validate_event(&input, &schema(), "event"));
}

#[test]
fn test_validate_valid_event() {
    let input = PNF_REGISTRATION.into();
    assert!(validate_event(&input, &schema(), "event"));
}

#[test]
fn test_valid_request() {
    let headers = headers(&[("Content-Type", "application/json"), (HEADER_MINOR_VERSION, "2")]);

    let data = PNF_REGISTRATION.to_string().into_bytes();

    assert!(validate_request("v7", &headers, &data, "event", &schema_map()).is_ok());
}

#[test]
fn test_invalid_request_version() {
    let headers = VersionHeaders::new();
    let data = Vec::new();
    assert!(validate_request("7", &headers, &data, "event", &schema_map()).is_err());
}

#[test]
fn the_root_key_has_to_be_there_whatever_the_schema() {
    let any = any_schema();
    assert!(validate_event(&br#"{"event": 1}"#.to_vec(), &any, "event"));
    assert!(!validate_event(&br#"{"event": null}"#.to_vec(), &any, "event"));
    assert!(!validate_event(&br#"{"bla": 1}"#.to_vec(), &any, "event"));
    assert!(!validate_event(&br#"{"bla": 1}"#.to_vec(), &any, "eventList"));
    assert!(!validate_event(&br#"{"event": 1}"#.to_vec(), &any, "eventList"));
    assert!(validate_event(&br#"{"eventList": []}"#.to_vec(), &any, "eventList"));
    assert!(!validate_event(&br#"[1, 2]"#.to_vec(), &any, "event"));
    assert!(!validate_event(&br#""event""#.to_vec(), &any, "event"));
    assert!(!validate_event(&vec![0x01, 0xFF], &any, "event"));
    assert!(!validate_event(&vec![0x01, 0xFF], &any, "eventList"));
    assert!(!validate_event(&Vec::new(), &any, "event"));
}

#[test]
fn the_schema_decides_about_a_document_with_the_root_key() {
    let strict = CompiledSchema::compile(
        r#"{"type": "object", "properties": {"event": {"type": "object", "required": ["a"]}}}"#,
    )
    .unwrap();
    assert!(validate_event(&br#"{"event": {"a": 1}}"#.to_vec(), &strict, "event"));
    assert!(!validate_event(&br#"{"event": {"b": 1}}"#.to_vec(), &strict, "event"));
    assert!(!validate_event(&br#"{"event": "a"}"#.to_vec(), &strict, "event"));
}

#[test]
fn a_batch_is_validated_under_its_own_key() {
    let batch = format!("{{\"eventList\": [{0}, {0}]}}", &PNF_REGISTRATION[PNF_REGISTRATION
        .find("\"event\":")
        .unwrap()
        + 8..PNF_REGISTRATION.len() - 1]);
    assert!(validate_event(&batch.clone().into_bytes(), &schema(), "eventList"));
    assert!(!validate_event(&batch.into_bytes(), &schema(), "event"));
    assert!(!validate_event(&br#"{"eventList": [1]}"#.to_vec(), &schema(), "eventList"));
}

#[test]
fn the_latest_patch_of_the_line_is_selected() {
    let registry = registry_of(&["7.1.0", "7.1.1", "7.2.0"]);
    let request = headers(&[(HEADER_MINOR_VERSION, "1")]);
    assert_eq!(
        resolve("v7", &request, &registry),
        Ok(Resolution::Latest(SemVer { major: 7, minor: 1, patch: 1 }))
    );
    let other_order = registry_of(&["7.1.1", "7.2.0", "7.1.0"]);
    assert_eq!(
        resolve("v7", &request, &other_order),
        Ok(Resolution::Latest(SemVer { major: 7, minor: 1, patch: 1 }))
    );
    let explicit = headers(&[(HEADER_MINOR_VERSION, "1"), (HEADER_PATCH_VERSION, "0")]);
    assert_eq!(
        resolve("v7", &explicit, &registry),
        Ok(Resolution::Latest(SemVer { major: 7, minor: 1, patch: 1 }))
    );
    let minor_two = headers(&[(HEADER_MINOR_VERSION, "2"), (HEADER_PATCH_VERSION, "1")]);
    assert_eq!(
        resolve("v7", &minor_two, &registry),
        Ok(Resolution::Latest(SemVer { major: 7, minor: 2, patch: 0 }))
    );
}

#[test]
fn a_line_without_schemas_is_an_invalid_version() {
    let registry = schema_map();
    let no_headers = VersionHeaders::new();
    assert_eq!(resolve("v7", &no_headers, &registry), Err(VersionError::InvalidApiVersion));
    let data = PNF_REGISTRATION.to_string().into_bytes();
    assert_eq!(
        validate_request("v7", &no_headers, &data, "event", &registry),
        Err(invalid_api_version())
    );
    assert_eq!(
        validate_request("v8", &headers(&[(HEADER_MINOR_VERSION, "2")]), &data, "event", &registry),
        Err(invalid_api_version())
    );
}

#[test]
fn an_explicit_patch_has_to_be_registered_exactly() {
    let registry = schema_map();
    let data = PNF_REGISTRATION.to_string().into_bytes();
    let patch_two = headers(&[(HEADER_MINOR_VERSION, "2"), (HEADER_PATCH_VERSION, "2")]);
    assert_eq!(resolve("v7", &patch_two, &registry), Err(VersionError::InvalidApiVersion));
    assert_eq!(
        validate_request("v7", &patch_two, &data, "event", &registry),
        Err(invalid_api_version())
    );
    let with_two = registry_of(&["7.2.1", "7.2.2"]);
    assert_eq!(
        resolve("v7", &patch_two, &with_two),
        Ok(Resolution::Exact(SemVer { major: 7, minor: 2, patch: 2 }))
    );
    let patch_three = headers(&[(HEADER_MINOR_VERSION, "2"), (HEADER_PATCH_VERSION, "3")]);
    assert_eq!(resolve("v7", &patch_three, &with_two), Err(VersionError::InvalidApiVersion));
}

#[test]
fn an_explicit_patch_passes_without_validation() {
    let mut registry = schema_map();
    registry.insert("7.2.2".parse().unwrap(), schema());
    let patch_two = headers(&[(HEADER_MINOR_VERSION, "2"), (HEADER_PATCH_VERSION, "2")]);
    let invalid = br#"{"event": 1}"#.to_vec();
    assert!(validate_request("v7", &patch_two, &invalid, "event", &registry).is_ok());
    assert!(validate_request("v7", &patch_two, &vec![0x01, 0xFF], "event", &registry).is_ok());
    let default_patch = headers(&[(HEADER_MINOR_VERSION, "2")]);
    assert_eq!(
        validate_request("v7", &default_patch, &invalid, "event", &registry),
        Err(failed_schema_validation())
    );
    assert_eq!(
        check_request("v7", &default_patch, &invalid, "event", &registry),
        Err(VersionError::SchemaValidationFailed)
    );
    assert_eq!(
        check_request("v7", &patch_two, &invalid, "event", &registry),
        Ok(Resolution::Exact(SemVer { major: 7, minor: 2, patch: 2 }))
    );
}

#[test]
fn a_body_that_the_schema_turns_down_fails_validation() {
    let registry = schema_map();
    let request = headers(&[(HEADER_MINOR_VERSION, "2")]);
    for body in [&br#"{"event": 1}"#[..], &br#"{"bla": 1}"#[..], &b"{"[..], &[0x01, 0xFF][..]] {
        assert_eq!(
            validate_request("v7", &request, &body.to_vec(), "event", &registry),
            Err(failed_schema_validation())
        );
    }
}

#[test]
fn the_path_has_to_name_a_major_version() {
    let registry = registry_of(&["7.0.1", "0.0.1"]);
    let none = VersionHeaders::new();
    let seven = Ok(Resolution::Latest(SemVer { major: 7, minor: 0, patch: 1 }));
    assert_eq!(resolve("v7", &none, &registry), seven);
    assert_eq!(resolve("v07", &none, &registry), seven);
    assert_eq!(resolve("v+7", &none, &registry), seven);
    assert_eq!(
        resolve("v0", &none, &registry),
        Ok(Resolution::Latest(SemVer { major: 0, minor: 0, patch: 1 }))
    );
    for path in ["", "v", "7", "V7", "v7 ", " v7", "v-7", "v7.0", "vv7", "v65536", "version7", "v٧"]
    {
        assert_eq!(resolve(path, &none, &registry), Err(VersionError::InvalidApiVersion));
    }
}

#[test]
fn the_headers_have_to_be_numbers() {
    let registry = registry_of(&["7.0.1", "7.2.5"]);
    for value in ["", "a", "-1", "1.0", " 1", "65536", "0x1", "\u{e9}"] {
        assert_eq!(
            resolve("v7", &headers(&[(HEADER_MINOR_VERSION, value)]), &registry),
            Err(VersionError::InvalidApiVersion)
        );
        assert_eq!(
            resolve("v7", &headers(&[(HEADER_PATCH_VERSION, value)]), &registry),
            Err(VersionError::InvalidApiVersion)
        );
    }
    let raw = VersionHeaders { minor_version: Some(vec![0xff, 0x31]), patch_version: None };
    assert_eq!(resolve("v7", &raw, &registry), Err(VersionError::InvalidApiVersion));
    assert_eq!(
        resolve("v7", &headers(&[(HEADER_MINOR_VERSION, "02")]), &registry),
        Ok(Resolution::Latest(SemVer { major: 7, minor: 2, patch: 5 }))
    );
    assert_eq!(
        resolve("v7", &headers(&[(HEADER_MINOR_VERSION, "2"), (HEADER_PATCH_VERSION, "5")]), &registry),
        Ok(Resolution::Exact(SemVer { major: 7, minor: 2, patch: 5 }))
    );
}

#[test]
fn rejections_are_reported_as_service_exceptions() {
    assert_eq!(VersionError::InvalidApiVersion.to_ves_error(), invalid_api_version());
    assert_eq!(VersionError::SchemaValidationFailed.to_ves_error(), failed_schema_validation());
}
