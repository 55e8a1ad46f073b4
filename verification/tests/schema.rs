use bundle_info::doc::DocValue;
use bundle_info::kit_version::KitVersion;
use bundle_info::schema::BundleInformationSchema;
use bundle_info::schema::BundleVersionSection;
use bundle_info::schema::KitInformationSection;
use bundle_info::schema::LoadError;
use bundle_info::schema::SchemaError;
use bundle_info::schema::SchemaErrorKind;
use bundle_info::schema::WiFiInformationSection;

const GOOD: &str = "[bundle]\n\
                    version = \"2.0.0\"\n\
                    [kit]\n\
                    name = \"Student Robotics\"\n\
                    version = \"2022.1.4.0\"\n\
                    [wifi]\n\
                    ssid = \"robot-ABC\"\n\
                    psk = \"beeeeees\"\n\
                    enabled = true\n\
                    region = \"GB\"\n";

fn schema_err(r: Result<BundleInformationSchema, LoadError>) -> SchemaError {
    match r.unwrap_err() {
        LoadError::Schema(e) => e,
        LoadError::DocumentSyntax(m) => panic!("expected a schema violation, got syntax: {m}"),
    }
}

#[test]
fn load_bundle_info_document() {
    let info = BundleInformationSchema::from_toml_str(GOOD).unwrap();
    assert_eq!(info.bundle.version, "2.0.0");
    assert_eq!(info.kit.name, "Student Robotics");
    assert_eq!(info.kit.version.epoch, 2022);
    assert_eq!(info.kit.version.major, 1);
    assert_eq!(info.kit.version.minor, 4);
    assert_eq!(info.kit.version.patch, 0);
    assert!(!info.kit.version.dev);
    assert_eq!(info.wifi.ssid, "robot-ABC");
    assert_eq!(info.wifi.psk, "beeeeees");
    assert_eq!(info.wifi.region, "GB");
    assert!(info.wifi.enabled);
}

#[test]
fn serialize_then_reload_yields_equal_value() {
    let info = BundleInformationSchema::from_toml_str(GOOD).unwrap();
    let text = info.to_string();
    let again = BundleInformationSchema::from_toml_str(&text).unwrap();
    assert_eq!(info, again);
}

#[test]
fn serialize_constructed_value_roundtrips() {
    let info = BundleInformationSchema {
        bundle: BundleVersionSection { version: "9.9.9".to_owned() },
        kit: KitInformationSection {
            name: "A Kit".to_owned(),
            version: KitVersion::try_from("1.2.3.4dev:abcde@main").unwrap(),
        },
        wifi: WiFiInformationSection {
            ssid: "net".to_owned(),
            psk: "secret".to_owned(),
            enabled: false,
            region: "DE".to_owned(),
        },
    };
    let text = info.to_string();
    let again = BundleInformationSchema::from_toml_str(&text).unwrap();
    assert_eq!(info, again);
    assert_eq!(again.kit.version.to_string(), "1.2.3.4dev:abcde@main");
}

#[test]
fn serialized_text_holds_the_fields() {
    let info = BundleInformationSchema::from_toml_str(GOOD).unwrap();
    let text = info.to_string();
    assert!(text.contains("[bundle]"));
    assert!(text.contains("[kit]"));
    assert!(text.contains("[wifi]"));
    assert!(text.contains("version = \"2.0.0\""));
    assert!(text.contains("version = \"2022.1.4.0\""));
    assert!(text.contains("enabled = true"));
}

#[test]
fn reject_duplicate_key_as_document_syntax() {
    let text = GOOD.replace("enabled = true\n", "enabled = true\nenabled = false\n");
    let r = BundleInformationSchema::from_toml_str(&text);
    assert!(matches!(r.unwrap_err(), LoadError::DocumentSyntax(_)));
}

#[test]
fn reject_unknown_top_level_section() {
    let text = format!("{GOOD}[extra]\nvalue = 1\n");
    let e = schema_err(BundleInformationSchema::from_toml_str(&text));
    assert_eq!(e.kind, SchemaErrorKind::UnknownField);
    assert_eq!(e.path, "extra");
}

#[test]
fn reject_unknown_nested_field() {
    let text = GOOD.replace("region = \"GB\"\n", "region = \"GB\"\nchannel = 6\n");
    let e = schema_err(BundleInformationSchema::from_toml_str(&text));
    assert_eq!(e.kind, SchemaErrorKind::UnknownField);
    assert_eq!(e.path, "wifi.channel");
}

#[test]
fn reject_unknown_field_in_bundle() {
    let text = GOOD.replace(
        "version = \"2.0.0\"\n",
        "version = \"2.0.0\"\nflavour = \"blue\"\n",
    );
    let e = schema_err(BundleInformationSchema::from_toml_str(&text));
    assert_eq!(e.kind, SchemaErrorKind::UnknownField);
    assert_eq!(e.path, "bundle.flavour");
}

#[test]
fn reject_missing_field() {
    let text = GOOD.replace("psk = \"beeeeees\"\n", "");
    let e = schema_err(BundleInformationSchema::from_toml_str(&text));
    assert_eq!(e.kind, SchemaErrorKind::MissingField);
    assert_eq!(e.path, "wifi.psk");
}

#[test]
fn reject_missing_section() {
    let text = GOOD.replace(
        "[wifi]\nssid = \"robot-ABC\"\npsk = \"beeeeees\"\nenabled = true\nregion = \"GB\"\n",
        "",
    );
    let e = schema_err(BundleInformationSchema::from_toml_str(&text));
    assert_eq!(e.kind, SchemaErrorKind::MissingField);
    assert_eq!(e.path, "wifi");
}

#[test]
fn reject_wrongly_typed_field() {
    let text = GOOD.replace("enabled = true", "enabled = \"yes\"");
    let e = schema_err(BundleInformationSchema::from_toml_str(&text));
    assert_eq!(e.kind, SchemaErrorKind::TypeMismatch);
    assert_eq!(e.path, "wifi.enabled");
}

#[test]
fn reject_bad_embedded_version() {
    let text = GOOD.replace("version = \"2022.1.4.0\"", "version = \"oops\"");
    let e = schema_err(BundleInformationSchema::from_toml_str(&text));
    assert_eq!(e.kind, SchemaErrorKind::TypeMismatch);
    assert_eq!(e.path, "kit.version");

    let text = GOOD.replace("version = \"2022.1.4.0\"", "version = \"99999.1.4.0\"");
    let e = schema_err(BundleInformationSchema::from_toml_str(&text));
    assert_eq!(e.kind, SchemaErrorKind::TypeMismatch);
    assert_eq!(e.path, "kit.version");

    let text = GOOD.replace("version = \"2022.1.4.0\"", "version = 5");
    let e = schema_err(BundleInformationSchema::from_toml_str(&text));
    assert_eq!(e.kind, SchemaErrorKind::TypeMismatch);
    assert_eq!(e.path, "kit.version");
}

#[test]
fn reject_malformed_document_text() {
    let r = BundleInformationSchema::from_toml_str("not = = toml");
    assert!(matches!(r.unwrap_err(), LoadError::DocumentSyntax(_)));
}

#[test]
fn validate_in_memory_document() {
    let doc = DocValue::Table(vec![
        (
            "bundle".to_owned(),
            DocValue::Table(vec![("version".to_owned(), DocValue::Str("1.0".to_owned()))]),
        ),
        (
            "kit".to_owned(),
            DocValue::Table(vec![
                ("name".to_owned(), DocValue::Str("k".to_owned())),
                ("version".to_owned(), DocValue::Str("1.2.3.4".to_owned())),
            ]),
        ),
        (
            "wifi".to_owned(),
            DocValue::Table(vec![
                ("ssid".to_owned(), DocValue::Str("s".to_owned())),
                ("psk".to_owned(), DocValue::Str("p".to_owned())),
                ("enabled".to_owned(), DocValue::Bool(true)),
                ("region".to_owned(), DocValue::Str("GB".to_owned())),
            ]),
        ),
    ]);
    let info = BundleInformationSchema::from_doc(&doc).unwrap();
    assert_eq!(info.kit.version.patch, 4);

    let not_a_table = DocValue::Bool(true);
    let e = BundleInformationSchema::from_doc(&not_a_table).unwrap_err();
    assert_eq!(e.kind, SchemaErrorKind::TypeMismatch);
    assert_eq!(e.path, "");
}
