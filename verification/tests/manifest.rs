//! Tests of manifest parsing, registry identifiers, versioning, and the
//! small shared helpers.

use hippofactory::build_condition::BuildConditionOptions;
use hippofactory::build_condition::BuildConditionValue;
use hippofactory::errors::ManifestError;
use hippofactory::expander::collections::flatten_or_fail;
use hippofactory::expander::collections::lookup_by_key;
use hippofactory::expander::collections::map_of;
use hippofactory::expander::collections::merge_lists;
use hippofactory::expander::collections::vector_of;
use hippofactory::expander::expansion_context::dev_version_text;
use hippofactory::expander::externals::annotate_handler_id;
use hippofactory::expander::invoice_versioning::InvoiceVersioning;
use hippofactory::hippofacts::Export;
use hippofactory::hippofacts::HandlerModule;
use hippofactory::hippofacts::HippoFacts;
use hippofactory::hippofacts::ParcelReference;
use hippofactory::hippofacts::RawHandler;
use hippofactory::hippofacts::RawHippoFacts;
use hippofactory::hippofacts::BindleSpec;
use hippofactory::registry_id::is_valid_registry_id;

fn value_str(v: &toml::Value) -> String {
    v.as_str().expect("expected a string").to_string()
}

fn raw_handler_from(table: &toml::Value) -> RawHandler {
    let t = table.as_table().expect("expected a handler table");
    RawHandler {
        name: t.get("name").map(value_str),
        external: t.get("external").map(value_str),
        route: t.get("route").map(value_str).expect("route is required"),
        files: t.get("files").map(|v| {
            v.as_array()
                .expect("files must be a list")
                .iter()
                .map(value_str)
                .collect()
        }),
    }
}

fn read_hippofacts_from_string(text: &str) -> Result<HippoFacts, ManifestError> {
    let table: toml::Table = toml::from_str(text).expect("error parsing test TOML");
    let bindle = table
        .get("bindle")
        .and_then(|v| v.as_table())
        .expect("bindle table is required");
    let raw = RawHippoFacts {
        bindle: BindleSpec {
            name: bindle.get("name").map(value_str).expect("name is required"),
            version: bindle
                .get("version")
                .map(value_str)
                .expect("version is required"),
            description: bindle.get("description").map(value_str),
            authors: bindle.get("authors").map(|v| {
                v.as_array()
                    .expect("authors must be a list")
                    .iter()
                    .map(value_str)
                    .collect()
            }),
        },
        annotations: table.get("annotations").map(|v| {
            v.as_table()
                .expect("annotations must be a table")
                .iter()
                .map(|(k, val)| (k.clone(), value_str(val)))
                .collect()
        }),
        handler: table.get("handler").map(|v| {
            v.as_array()
                .expect("handler must be a list of tables")
                .iter()
                .map(raw_handler_from)
                .collect()
        }),
    };
    HippoFacts::parse(raw)
}

#[test]
fn test_can_read_hippo_facts() {
    let facts = read_hippofacts_from_string(
        r#"
        # HIPPO FACT: the North American house hippo is found across Canada and the Eastern US
        [bindle]
        name = "birds"
        version = "1.2.4"

        [[handler]]
        name = "penguin.wasm"
        route = "/birds/flightless"
        files = ["adelie.png", "rockhopper.png", "*.jpg"]

        [[handler]]
        external = "foo/bar/1.0.0:cassowary.wasm"
        route = "/birds/savage/rending"
        "#,
    )
    .expect("error parsing test TOML");

    assert_eq!("birds", &facts.bindle.name);
    assert_eq!(&None, &facts.annotations);

    let handlers = &facts.handler;

    assert_eq!(2, handlers.len());

    assert_eq!(
        &HandlerModule::File("penguin.wasm".to_owned()),
        &handlers[0].handler_module
    );
    assert_eq!("/birds/flightless", &handlers[0].route);
    let files0 = handlers[0].files.as_ref().expect("Expected files");
    assert_eq!(3, files0.len());

    let expected_ref = ParcelReference {
        bindle_id: "foo/bar/1.0.0".to_owned(),
        name: "cassowary.wasm".to_owned(),
    };
    assert_eq!(
        &HandlerModule::External(expected_ref),
        &handlers[1].handler_module
    );
    assert_eq!("/birds/savage/rending", &handlers[1].route);
    assert_eq!(None, handlers[1].files);
}

fn bindle_spec() -> BindleSpec {
    BindleSpec {
        name: "app".to_owned(),
        version: "1.0.0".to_owned(),
        description: None,
        authors: None,
    }
}

#[test]
fn test_no_handlers_is_rejected() {
    let raw = RawHippoFacts {
        bindle: bindle_spec(),
        annotations: None,
        handler: None,
    };
    assert_eq!(Err(ManifestError::NoHandlers), HippoFacts::parse(raw).map(|_| ()));
    let raw = RawHippoFacts {
        bindle: bindle_spec(),
        annotations: None,
        handler: Some(vec![]),
    };
    assert_eq!(Err(ManifestError::NoHandlers), HippoFacts::parse(raw).map(|_| ()));
}

#[test]
fn test_missing_module_is_rejected() {
    let raw = RawHandler {
        name: None,
        external: None,
        route: "/r".to_owned(),
        files: None,
    };
    assert_eq!(
        Err(ManifestError::MissingModule { route: "/r".to_owned() }),
        raw.handler_module()
    );
}

#[test]
fn test_ambiguous_module_is_rejected() {
    let raw = RawHandler {
        name: Some("a.wasm".to_owned()),
        external: Some("pkg/1.0.0:b.wasm".to_owned()),
        route: "/r".to_owned(),
        files: None,
    };
    assert_eq!(
        Err(ManifestError::AmbiguousModule { route: "/r".to_owned() }),
        raw.handler_module()
    );
}

#[test]
fn test_malformed_external_ref_is_rejected() {
    assert_eq!(
        Err(ManifestError::MalformedExternalRef { text: "nocolon".to_owned() }),
        ParcelReference::parse("nocolon")
    );
    assert_eq!(
        Err(ManifestError::MalformedExternalRef { text: "a:b:c".to_owned() }),
        ParcelReference::parse("a:b:c")
    );
}

#[test]
fn test_invalid_registry_id_in_external_ref_is_rejected() {
    assert_eq!(
        Err(ManifestError::InvalidRegistryId { text: "pkg/notaversion".to_owned() }),
        ParcelReference::parse("pkg/notaversion:mod.wasm")
    );
}

#[test]
fn test_parcel_reference_parses_both_parts() {
    let p = ParcelReference::parse("foo/bar/1.0.0:cassowary.wasm").expect("should parse");
    assert_eq!("foo/bar/1.0.0", &p.bindle_id);
    assert_eq!("cassowary.wasm", &p.name);
}

#[test]
fn test_registry_id_validation() {
    assert!(is_valid_registry_id("foo/1.2.3"));
    assert!(is_valid_registry_id("example.com/a/longer/path/foo/1.10.0-rc.1"));
    assert!(!is_valid_registry_id("foo"));
    assert!(!is_valid_registry_id("/1.2.3"));
    assert!(!is_valid_registry_id("foo/"));
    assert!(!is_valid_registry_id("foo/notaversion"));
}

#[test]
fn test_invoice_versioning_parse() {
    assert_eq!(
        InvoiceVersioning::Production,
        InvoiceVersioning::parse("production")
    );
    assert_eq!(InvoiceVersioning::Dev, InvoiceVersioning::parse("dev"));
    assert_eq!(InvoiceVersioning::Dev, InvoiceVersioning::parse("anything-else"));
}

#[test]
fn test_dev_version_mangling() {
    assert_eq!(
        "1.2.3-alice-2021.01.02.03.04.05.006",
        &dev_version_text("1.2.3", Some("alice"), "2021.01.02.03.04.05.006")
    );
    assert_eq!(
        "1.2.3-2021.01.02.03.04.05.006",
        &dev_version_text("1.2.3", None, "2021.01.02.03.04.05.006")
    );
}

#[test]
fn test_build_condition_lookup() {
    let opts = BuildConditionOptions::from_pairs(vec![
        ("color".to_owned(), "green".to_owned()),
        ("shape".to_owned(), "round".to_owned()),
    ]);
    assert_eq!(Some("green".to_owned()), opts.lookup("color"));
    assert_eq!(None, opts.lookup("size"));
    assert_eq!(None, BuildConditionOptions::none().lookup("color"));
}

#[test]
fn test_build_condition_eval() {
    let opts = BuildConditionOptions::from_pairs(vec![(
        "color".to_owned(),
        "green".to_owned(),
    )]);
    assert_eq!(
        Some("lit".to_owned()),
        BuildConditionValue::Literal("lit".to_owned()).eval(&opts)
    );
    assert_eq!(
        Some("green".to_owned()),
        BuildConditionValue::OptionRef("color".to_owned()).eval(&opts)
    );
    assert_eq!(
        None,
        BuildConditionValue::OptionRef("size".to_owned()).eval(&opts)
    );
}

#[test]
fn test_merge_lists() {
    assert_eq!(None, merge_lists(None, None));
    assert_eq!(
        Some(vec!["a".to_owned()]),
        merge_lists(Some(vec!["a".to_owned()]), None)
    );
    assert_eq!(
        Some(vec!["b".to_owned()]),
        merge_lists(None, Some(vec!["b".to_owned()]))
    );
    assert_eq!(
        Some(vec!["a".to_owned(), "b".to_owned()]),
        merge_lists(Some(vec!["a".to_owned()]), Some(vec!["b".to_owned()]))
    );
}

#[test]
fn test_vector_of() {
    assert_eq!(None, vector_of(None));
    assert_eq!(Some(vec!["g".to_owned()]), vector_of(Some("g")));
}

#[test]
fn test_map_of() {
    let m = map_of(vec![("k1", "v1"), ("k2", "v2")]);
    assert_eq!(
        vec![
            ("k1".to_owned(), "v1".to_owned()),
            ("k2".to_owned(), "v2".to_owned())
        ],
        m
    );
}

#[test]
fn test_flatten_or_fail() {
    let ok: Result<Vec<u32>, String> =
        flatten_or_fail(vec![Ok(vec![1, 2]), Ok(vec![]), Ok(vec![3])]);
    assert_eq!(Ok(vec![1, 2, 3]), ok);
    let err: Result<Vec<u32>, String> = flatten_or_fail(vec![
        Ok(vec![1]),
        Err("first".to_owned()),
        Err("second".to_owned()),
    ]);
    assert_eq!(Err("first".to_owned()), err);
}

#[test]
fn test_lookup_by_key_finds_first() {
    let pairs = vec![
        ("k".to_owned(), "v1".to_owned()),
        ("k".to_owned(), "v2".to_owned()),
    ];
    assert_eq!(Some(&"v1".to_owned()), lookup_by_key(&pairs, "k"));
    assert_eq!(None, lookup_by_key(&pairs, "missing"));
}

#[test]
fn test_annotate_handler_id() {
    let e = Export { id: "serve".to_owned() };
    assert_eq!(vec![("wagi_handler_id", "serve")], annotate_handler_id(&e));
}
