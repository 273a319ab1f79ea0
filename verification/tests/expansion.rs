//! End-to-end tests of the expansion: groups, handler and asset parcels,
//! external resolution, merging, and invoice assembly.

use hippofactory::errors::ExpansionError;
use hippofactory::errors::PathError;
use hippofactory::errors::ResolutionError;
use hippofactory::expander::assemble_invoice;
use hippofactory::expander::digest_of_bytes;
use hippofactory::expander::expand_matches_to_parcels;
use hippofactory::expander::expand_files_to_parcels;
use hippofactory::expander::expand_plan_with_matches;
use hippofactory::expander::expand_id;
use hippofactory::expander::expand_to_group;
use hippofactory::expander::expansion_context::ExpansionContext;
use hippofactory::expander::externals::find_handler_parcel;
use hippofactory::expander::invoice_versioning::InvoiceVersioning;
use hippofactory::expander::merge::merge_memberships;
use hippofactory::expander::ExpansionPlan;
use hippofactory::expander::FileDigest;
use hippofactory::expander::PendingParcel;
use hippofactory::hippofacts::BindleSpec;
use hippofactory::hippofacts::ExternalRef;
use hippofactory::hippofacts::Handler;
use hippofactory::hippofacts::HandlerModule;
use hippofactory::hippofacts::HippoFacts;
use hippofactory::hippofacts::ParcelReference;
use hippofactory::invoice::Condition;
use hippofactory::invoice::Invoice;
use hippofactory::invoice::Label;
use hippofactory::invoice::Parcel;

const BASE: &str = "/app";

fn local_handler(name: &str, route: &str, files: Option<Vec<&str>>) -> Handler {
    Handler {
        handler_module: HandlerModule::File(name.to_owned()),
        route: route.to_owned(),
        files: files.map(|fs| fs.into_iter().map(|f| f.to_owned()).collect()),
    }
}

fn external_handler(reference: &str, route: &str) -> Handler {
    Handler {
        handler_module: HandlerModule::External(
            ParcelReference::parse(reference).expect("bad external reference"),
        ),
        route: route.to_owned(),
        files: None,
    }
}

fn facts_of(name: &str, version: &str, handlers: Vec<Handler>) -> HippoFacts {
    HippoFacts {
        bindle: BindleSpec {
            name: name.to_owned(),
            version: version.to_owned(),
            description: None,
            authors: None,
        },
        annotations: None,
        handler: handlers,
    }
}

fn production_context() -> ExpansionContext {
    ExpansionContext::new(
        BASE.to_owned(),
        InvoiceVersioning::Production,
        None,
        None,
    )
}

fn abs(path: &str) -> String {
    format!("{}/{}", BASE, path)
}

/// Digests derived from the absolute path, so that the same file always
/// hashes the same way, as a real content digest would.
fn digests_for(plan: &ExpansionPlan) -> Vec<FileDigest> {
    plan.parcels
        .iter()
        .filter_map(|p| match p {
            PendingParcel::AwaitingFile(f) => Some(FileDigest {
                sha256: format!("digest-of-{}", f.abs_path),
                size: f.abs_path.len() as u64,
            }),
            PendingParcel::Ready(_) => None,
        })
        .collect()
}

fn expand(facts: &HippoFacts, ctx: &ExpansionContext, matches: Vec<Vec<Vec<&str>>>) -> Invoice {
    let matches: Vec<Vec<Vec<String>>> = matches
        .into_iter()
        .map(|h| {
            h.into_iter()
                .map(|p| p.into_iter().map(|s| s.to_owned()).collect())
                .collect()
        })
        .collect();
    let plan = expand_plan_with_matches(facts, ctx, &matches).expect("error expanding");
    let digests = digests_for(&plan);
    assemble_invoice(plan, digests)
}

fn app1_invoice() -> Invoice {
    let facts = facts_of(
        "weather",
        "1.2.3",
        vec![
            local_handler("out/fake.wasm", "/fake", Some(vec!["scripts/*.js"])),
            local_handler("out/lies.wasm", "/lies", Some(vec!["scripts/*"])),
        ],
    );
    let ctx = production_context();
    let real = abs("scripts/real.js");
    let ignore = abs("scripts/ignore.json");
    expand(
        &facts,
        &ctx,
        vec![
            vec![vec![&real]],
            vec![vec![&ignore, &real]],
        ],
    )
}

fn parcel_named<'a>(invoice: &'a Invoice, parcel_name: &str) -> &'a Parcel {
    invoice
        .parcel
        .as_ref()
        .unwrap()
        .iter()
        .find(|p| p.label.name == parcel_name)
        .unwrap()
}

fn parcel_feature_value(label: &Label, feature_name: &str, item_name: &str) -> String {
    let feature = label.feature.as_ref().unwrap();
    let (_, items) = feature
        .iter()
        .find(|(ns, _)| ns == feature_name)
        .unwrap();
    let (_, value) = items.iter().find(|(k, _)| k == item_name).unwrap();
    value.clone()
}

fn parcel_conditions<'a>(invoice: &'a Invoice, parcel_name: &str) -> &'a Condition {
    parcel_named(invoice, parcel_name).conditions.as_ref().unwrap()
}

#[test]
fn test_name_is_kept() {
    let invoice = app1_invoice();
    assert_eq!("weather/1.2.3", &invoice.bindle.id);
}

#[test]
fn test_route_is_mapped() {
    let invoice = app1_invoice();
    assert_eq!(
        "/fake",
        &parcel_feature_value(&parcel_named(&invoice, "out/fake.wasm").label, "wagi", "route")
    );
}

#[test]
fn test_handler_parcel_is_not_asset() {
    let invoice = app1_invoice();
    assert_eq!(
        "false",
        &parcel_feature_value(&parcel_named(&invoice, "out/fake.wasm").label, "wagi", "file")
    );
}

#[test]
fn test_group_is_created_per_handler() {
    let invoice = app1_invoice();
    let groups = invoice.group.as_ref().unwrap();
    assert_eq!(2, groups.len());
    assert_eq!("out/fake.wasm-files", &groups[0].name);
    assert_eq!("out/lies.wasm-files", &groups[1].name);
}

#[test]
fn test_files_are_members_of_correct_groups() {
    let invoice = app1_invoice();
    assert_eq!(
        1,
        parcel_conditions(&invoice, "scripts/ignore.json")
            .member_of
            .as_ref()
            .unwrap()
            .len()
    );
    assert_eq!(
        2,
        parcel_conditions(&invoice, "scripts/real.js")
            .member_of
            .as_ref()
            .unwrap()
            .len()
    );
}

#[test]
fn test_assets_parcels_are_marked_as_assets() {
    let invoice = app1_invoice();
    assert_eq!(
        "true",
        &parcel_feature_value(&parcel_named(&invoice, "scripts/real.js").label, "wagi", "file")
    );
}

#[test]
fn test_handler_parcels_are_not_members_of_groups() {
    let invoice = app1_invoice();
    assert_eq!(None, parcel_conditions(&invoice, "out/lies.wasm").member_of);
}

#[test]
fn test_handlers_require_correct_groups() {
    let invoice = app1_invoice();
    let requirements = parcel_conditions(&invoice, "out/lies.wasm")
        .requirements
        .as_ref()
        .unwrap();
    assert_eq!(1, requirements.len());
    assert_eq!("out/lies.wasm-files", &requirements[0]);
}

fn app2_invoice() -> Invoice {
    let facts = facts_of(
        "app2",
        "0.1.0",
        vec![
            local_handler("wasm/no-assets.wasm", "/none", None),
            local_handler("wasm/empty-assets.wasm", "/empty", Some(vec![])),
            local_handler("wasm/no-match.wasm", "/nomatch", Some(vec!["scripts/*.js"])),
            local_handler(
                "wasm/no-directory.wasm",
                "/nodir",
                Some(vec!["nodir/**/*"]),
            ),
            local_handler(
                "wasm/specific-file-missing.wasm",
                "/missing",
                Some(vec!["missing.txt"]),
            ),
        ],
    );
    let ctx = production_context();
    expand(
        &facts,
        &ctx,
        vec![vec![], vec![], vec![vec![]], vec![vec![]], vec![vec![]]],
    )
}

fn count_members_of(invoice: &Invoice, group: &str) -> usize {
    invoice
        .parcel
        .as_ref()
        .unwrap()
        .iter()
        .filter(|p| p.member_of(group))
        .count()
}

#[test]
fn test_if_no_files_key_then_no_asset_parcels() {
    let invoice = app2_invoice();
    assert_eq!(0, count_members_of(&invoice, "wasm/no-assets.wasm-files"));
}

#[test]
fn test_if_empty_files_key_then_no_asset_parcels() {
    let invoice = app2_invoice();
    assert_eq!(0, count_members_of(&invoice, "wasm/empty-assets.wasm-files"));
}

#[test]
fn test_if_no_files_match_then_no_asset_parcels() {
    let invoice = app2_invoice();
    assert_eq!(0, count_members_of(&invoice, "wasm/no-match.wasm-files"));
}

#[test]
fn test_if_nonexistent_directory_then_no_asset_parcels() {
    let invoice = app2_invoice();
    assert_eq!(0, count_members_of(&invoice, "wasm/no-directory.wasm-files"));
}

#[test]
fn test_if_file_does_not_exist_then_no_asset_parcels() {
    let invoice = app2_invoice();
    assert_eq!(
        0,
        count_members_of(&invoice, "wasm/specific-file-missing.wasm-files")
    );
}

#[test]
fn test_single_handler_without_files() {
    let facts = facts_of(
        "weather",
        "1.2.3",
        vec![local_handler("out/fake.wasm", "/fake", None)],
    );
    let ctx = production_context();
    let invoice = expand(&facts, &ctx, vec![vec![]]);

    let groups = invoice.group.as_ref().unwrap();
    assert_eq!(1, groups.len());
    assert_eq!("out/fake.wasm-files", &groups[0].name);

    let parcels = invoice.parcel.as_ref().unwrap();
    assert_eq!(1, parcels.len());
    assert_eq!("out/fake.wasm", &parcels[0].label.name);
    assert_eq!("/fake", &parcel_feature_value(&parcels[0].label, "wagi", "route"));
    assert_eq!("false", &parcel_feature_value(&parcels[0].label, "wagi", "file"));
    assert_eq!(None, parcels[0].conditions.as_ref().unwrap().requirements);
    assert_eq!(None, parcels[0].conditions.as_ref().unwrap().member_of);
}

#[test]
fn test_single_handler_with_matching_asset() {
    let facts = facts_of(
        "weather",
        "1.2.3",
        vec![local_handler("out/fake.wasm", "/fake", Some(vec!["assets/*.js"]))],
    );
    let ctx = production_context();
    let a_js = abs("assets/a.js");
    let invoice = expand(&facts, &ctx, vec![vec![vec![&a_js]]]);

    let parcels = invoice.parcel.as_ref().unwrap();
    assert_eq!(2, parcels.len());

    let asset = parcel_named(&invoice, "assets/a.js");
    assert_eq!("true", &parcel_feature_value(&asset.label, "wagi", "file"));
    assert_eq!("text/javascript", &asset.label.media_type);
    assert_eq!(
        Some(vec!["out/fake.wasm-files".to_owned()]),
        asset.conditions.as_ref().unwrap().member_of
    );

    let module = parcel_named(&invoice, "out/fake.wasm");
    assert_eq!("application/wasm", &module.label.media_type);
    assert_eq!(
        Some(vec!["out/fake.wasm-files".to_owned()]),
        module.conditions.as_ref().unwrap().requirements
    );
}

#[test]
fn test_external_without_registry_fails() {
    let facts = facts_of(
        "weather",
        "1.2.3",
        vec![external_handler("pkg/1.0.0:mod.wasm", "/ext")],
    );
    let ctx = production_context();
    let matches: Vec<Vec<Vec<String>>> = vec![vec![]];
    let err = expand_plan_with_matches(&facts, &ctx, &matches).unwrap_err();
    assert_eq!(
        ExpansionError::Resolution(ResolutionError::NoRegistry {
            bindle_id: "pkg/1.0.0".to_owned(),
            name: "mod.wasm".to_owned(),
        }),
        err
    );
}

#[test]
fn test_shared_module_and_asset_merge_into_one_parcel() {
    let facts = facts_of(
        "weather",
        "1.2.3",
        vec![
            local_handler("wasm/mod.wasm", "/one", Some(vec!["assets/*.css"])),
            local_handler("wasm/other.wasm", "/two", Some(vec!["wasm/*.wasm"])),
        ],
    );
    let ctx = production_context();
    let css = abs("assets/site.css");
    let modpath = abs("wasm/mod.wasm");
    let invoice = expand(
        &facts,
        &ctx,
        vec![vec![vec![&css]], vec![vec![&modpath]]],
    );

    let parcels = invoice.parcel.as_ref().unwrap();
    let occurrences: Vec<&Parcel> = parcels
        .iter()
        .filter(|p| p.label.name == "wasm/mod.wasm")
        .collect();
    assert_eq!(1, occurrences.len());
    let conditions = occurrences[0].conditions.as_ref().unwrap();
    assert_eq!(
        Some(vec!["wasm/other.wasm-files".to_owned()]),
        conditions.member_of
    );
    assert_eq!(
        Some(vec!["wasm/mod.wasm-files".to_owned()]),
        conditions.requirements
    );
}

fn parcel_with(name: &str, digest: &str, member_of: Option<Vec<&str>>, requirements: Option<Vec<&str>>) -> Parcel {
    Parcel {
        label: Label {
            name: name.to_owned(),
            sha256: digest.to_owned(),
            media_type: "application/octet-stream".to_owned(),
            size: 1,
            feature: None,
            annotations: None,
        },
        conditions: Some(Condition {
            member_of: member_of.map(|v| v.into_iter().map(|s| s.to_owned()).collect()),
            requirements: requirements.map(|v| v.into_iter().map(|s| s.to_owned()).collect()),
        }),
    }
}

#[test]
fn test_merge_is_idempotent() {
    let parcels = vec![
        parcel_with("a", "d1", Some(vec!["g1"]), Some(vec!["r1"])),
        parcel_with("a", "d1", Some(vec!["g2"]), Some(vec!["r2"])),
        parcel_with("b", "d1", Some(vec!["g3"]), None),
        parcel_with("a", "d2", None, None),
    ];
    let once = merge_memberships(parcels);
    let twice = merge_memberships(once.clone());
    assert_eq!(once, twice);
    assert_eq!(3, once.len());
}

#[test]
fn test_merge_two_parcels_same_identity() {
    let parcels = vec![
        parcel_with("a", "d1", Some(vec!["g1"]), Some(vec!["r1"])),
        parcel_with("a", "d1", Some(vec!["g2", "g3"]), Some(vec!["r2"])),
    ];
    let merged = merge_memberships(parcels);
    assert_eq!(1, merged.len());
    let conditions = merged[0].conditions.as_ref().unwrap();
    assert_eq!(
        Some(vec!["g1".to_owned(), "g2".to_owned(), "g3".to_owned()]),
        conditions.member_of
    );
    assert_eq!(Some(vec!["r1".to_owned()]), conditions.requirements);
}

#[test]
fn test_empty_matches_yield_no_parcels() {
    let ctx = production_context();
    let matches: Vec<String> = vec![];
    let refs = expand_matches_to_parcels(&matches, &ctx, "g-files").expect("should succeed");
    assert_eq!(0, refs.len());
}

#[test]
fn test_absent_files_yield_no_parcels() {
    let ctx = production_context();
    let handler = local_handler("m.wasm", "/m", None);
    assert_eq!(0, expand_files_to_parcels(&handler, &ctx).unwrap().len());
    let handler = local_handler("m.wasm", "/m", Some(vec![]));
    assert_eq!(0, expand_files_to_parcels(&handler, &ctx).unwrap().len());
}

#[test]
fn test_sha256_of_known_bytes() {
    let empty = digest_of_bytes(&[]);
    assert_eq!(
        "e3b0c44298fc1c149afbf4c8996fb92427ae41e4649b934ca495991b7852b855",
        &empty.sha256
    );
    assert_eq!(0, empty.size);
    let abc = digest_of_bytes("abc".as_bytes());
    assert_eq!(
        "ba7816bf8f01cfea414140de5dae2223b00361a396177a9cb410ff61f20015ad",
        &abc.sha256
    );
    assert_eq!(3, abc.size);
}

#[test]
fn test_to_absolute_joins_base() {
    let ctx = production_context();
    assert_eq!("/app/b/c", &ctx.to_absolute("b/c"));
    assert_eq!("/elsewhere/x", &ctx.to_absolute("/elsewhere/x"));
}

#[test]
fn test_to_relative_strips_base_and_normalizes() {
    let ctx = production_context();
    assert_eq!("b/c", &ctx.to_relative("/app/b/c").unwrap());
    assert_eq!("b/c", &ctx.to_relative("/app/b\\c").unwrap());
    assert_eq!(
        Err(PathError::OutsideBase { path: "/other/b".to_owned() }),
        ctx.to_relative("/other/b")
    );
    assert_eq!(
        Err(PathError::OutsideBase { path: "/application/x".to_owned() }),
        ctx.to_relative("/application/x")
    );
}

#[test]
fn test_outside_base_asset_fails() {
    let ctx = production_context();
    let matches = vec!["/elsewhere/a.js".to_owned()];
    assert_eq!(
        Err(ExpansionError::Path(PathError::OutsideBase {
            path: "/elsewhere/a.js".to_owned()
        })),
        expand_matches_to_parcels(&matches, &ctx, "g-files").map(|_| ())
    );
}

#[test]
fn test_group_name_follows_module() {
    let g = expand_to_group(&local_handler("out/fake.wasm", "/fake", None));
    assert_eq!("out/fake.wasm-files", &g.name);
    let g = expand_to_group(&external_handler("pkg/1.0.0:mod.wasm", "/ext"));
    assert_eq!("mod.wasm-files", &g.name);
    assert_eq!(None, g.required);
    assert_eq!(None, g.satisfied_by);
}

fn registry_with(parcels: Vec<Parcel>) -> Option<Vec<(String, Invoice)>> {
    Some(vec![(
        "pkg/1.0.0".to_owned(),
        Invoice {
            bindle_version: "1.0.0".to_owned(),
            bindle: hippofactory::invoice::BindleSpec {
                id: "pkg/1.0.0".to_owned(),
                description: None,
                authors: None,
            },
            annotations: None,
            parcel: Some(parcels),
            group: None,
        },
    )])
}

fn context_with_registry(parcels: Vec<Parcel>) -> ExpansionContext {
    ExpansionContext::new(
        BASE.to_owned(),
        InvoiceVersioning::Production,
        None,
        registry_with(parcels),
    )
}

fn source_parcel(name: &str, digest: &str) -> Parcel {
    Parcel {
        label: Label {
            name: name.to_owned(),
            sha256: digest.to_owned(),
            media_type: "application/wasm".to_owned(),
            size: 42,
            feature: None,
            annotations: None,
        },
        conditions: None,
    }
}

#[test]
fn test_external_reference_resolves_to_source_parcel() {
    let facts = facts_of(
        "weather",
        "1.2.3",
        vec![external_handler("pkg/1.0.0:mod.wasm", "/ext")],
    );
    let ctx = context_with_registry(vec![
        source_parcel("other.wasm", "d0"),
        source_parcel("mod.wasm", "d1"),
    ]);
    let invoice = expand(&facts, &ctx, vec![vec![]]);
    let parcels = invoice.parcel.as_ref().unwrap();
    assert_eq!(1, parcels.len());
    assert_eq!("mod.wasm", &parcels[0].label.name);
    assert_eq!("d1", &parcels[0].label.sha256);
    assert_eq!("application/wasm", &parcels[0].label.media_type);
    assert_eq!(42, parcels[0].label.size);
    assert_eq!("/ext", &parcel_feature_value(&parcels[0].label, "wagi", "route"));
    assert_eq!(None, parcels[0].conditions.as_ref().unwrap().requirements);
}

#[test]
fn test_external_invoice_not_found() {
    let facts = facts_of(
        "weather",
        "1.2.3",
        vec![external_handler("otherpkg/2.0.0:mod.wasm", "/ext")],
    );
    let ctx = context_with_registry(vec![source_parcel("mod.wasm", "d1")]);
    let matches: Vec<Vec<Vec<String>>> = vec![vec![]];
    assert_eq!(
        Err(ExpansionError::Resolution(ResolutionError::InvoiceNotFound {
            bindle_id: "otherpkg/2.0.0".to_owned()
        })),
        expand_plan_with_matches(&facts, &ctx, &matches).map(|_| ())
    );
}

#[test]
fn test_external_parcel_not_found() {
    let facts = facts_of(
        "weather",
        "1.2.3",
        vec![external_handler("pkg/1.0.0:mod.wasm", "/ext")],
    );
    let ctx = context_with_registry(vec![source_parcel("other.wasm", "d0")]);
    let matches: Vec<Vec<Vec<String>>> = vec![vec![]];
    assert_eq!(
        Err(ExpansionError::Resolution(ResolutionError::ParcelNotFound {
            bindle_id: "pkg/1.0.0".to_owned(),
            name: "mod.wasm".to_owned(),
        })),
        expand_plan_with_matches(&facts, &ctx, &matches).map(|_| ())
    );
}

#[test]
fn test_external_parcel_ambiguous() {
    let facts = facts_of(
        "weather",
        "1.2.3",
        vec![external_handler("pkg/1.0.0:mod.wasm", "/ext")],
    );
    let ctx = context_with_registry(vec![
        source_parcel("mod.wasm", "d1"),
        source_parcel("mod.wasm", "d2"),
    ]);
    let matches: Vec<Vec<Vec<String>>> = vec![vec![]];
    assert_eq!(
        Err(ExpansionError::Resolution(ResolutionError::AmbiguousParcel {
            bindle_id: "pkg/1.0.0".to_owned(),
            name: "mod.wasm".to_owned(),
        })),
        expand_plan_with_matches(&facts, &ctx, &matches).map(|_| ())
    );
}

#[test]
fn test_invalid_invoice_id() {
    let facts = facts_of(
        "weather",
        "notaversion",
        vec![local_handler("m.wasm", "/m", None)],
    );
    let ctx = production_context();
    assert_eq!(
        Err(ExpansionError::InvalidInvoiceId {
            id: "weather/notaversion".to_owned()
        }),
        expand_id(&facts.bindle, &ctx).map(|_| ())
    );
}

#[test]
fn test_mangle_version_production_is_unchanged() {
    let ctx = production_context();
    assert_eq!("1.2.3", &ctx.mangle_version("1.2.3"));
}

#[test]
fn test_expand_plan_with_unmatched_patterns() {
    let facts = facts_of(
        "weather",
        "1.2.3",
        vec![local_handler(
            "out/fake.wasm",
            "/fake",
            Some(vec!["no-such-directory-anywhere/*.js"]),
        )],
    );
    let ctx = production_context();
    let plan = hippofactory::expander::expand_plan(&facts, &ctx).expect("error expanding");
    assert_eq!(1, plan.parcels.len());
    let invoice = assemble_invoice(plan, vec![FileDigest {
        sha256: "d1".to_owned(),
        size: 7,
    }]);
    let parcels = invoice.parcel.as_ref().unwrap();
    assert_eq!(1, parcels.len());
    assert_eq!(None, parcels[0].conditions.as_ref().unwrap().requirements);
}

#[test]
fn test_expand_plan_without_patterns_succeeds() {
    let facts = facts_of(
        "weather",
        "1.2.3",
        vec![local_handler("out/fake.wasm", "/fake", None)],
    );
    let ctx = production_context();
    let plan = hippofactory::expander::expand_plan(&facts, &ctx).expect("error expanding");
    assert_eq!(1, plan.parcels.len());
    assert_eq!(1, plan.groups.len());
    assert_eq!("weather/1.2.3", &plan.id);
}

#[test]
fn test_bad_glob_pattern_fails() {
    let facts = facts_of(
        "weather",
        "1.2.3",
        vec![local_handler("out/fake.wasm", "/fake", Some(vec!["[half-open"]))],
    );
    let ctx = production_context();
    let err = hippofactory::expander::expand_plan(&facts, &ctx).unwrap_err();
    assert_eq!(
        ExpansionError::Io(hippofactory::errors::IoError::BadPattern {
            pattern: "/app/[half-open".to_owned()
        }),
        err
    );
}

#[test]
fn test_dev_mangle_appends_user_and_timestamp() {
    let ctx = ExpansionContext::new(
        BASE.to_owned(),
        InvoiceVersioning::Dev,
        Some("alice".to_owned()),
        None,
    );
    let mangled = ctx.mangle_version("1.2.3");
    assert!(mangled.starts_with("1.2.3-alice-"));
    assert!(mangled.len() > "1.2.3-alice-".len());
}

#[test]
fn test_parcel_member_of() {
    let p = parcel_with("a", "d1", Some(vec!["g1", "g2"]), None);
    assert!(p.member_of("g1"));
    assert!(p.member_of("g2"));
    assert!(!p.member_of("g3"));
    let q = parcel_with("a", "d1", None, Some(vec!["g1"]));
    assert!(!q.member_of("g1"));
}

#[test]
fn test_find_handler_parcel_by_annotation() {
    let mut annotated = source_parcel("mod.wasm", "d1");
    annotated.label.annotations = Some(vec![(
        "wagi_handler_id".to_owned(),
        "serve".to_owned(),
    )]);
    let plain = source_parcel("other.wasm", "d0");
    let registry = registry_with(vec![plain, annotated]);
    let ctx = ExpansionContext::new(
        BASE.to_owned(),
        InvoiceVersioning::Production,
        None,
        registry,
    );
    let external_ref = ExternalRef {
        bindle_id: "pkg/1.0.0".to_owned(),
        handler_id: "serve".to_owned(),
    };
    let (invoice, parcel) = ctx.find_handler_parcel(&external_ref).expect("should resolve");
    assert_eq!("pkg/1.0.0", &invoice.bindle.id);
    assert_eq!("mod.wasm", &parcel.label.name);
    let inv = invoice.clone();
    assert!(find_handler_parcel(&inv, "nobody").is_none());
    assert_eq!(
        Err(ResolutionError::ParcelNotFound {
            bindle_id: "pkg/1.0.0".to_owned(),
            name: "nobody".to_owned(),
        }),
        ctx.find_handler_parcel(&ExternalRef {
            bindle_id: "pkg/1.0.0".to_owned(),
            handler_id: "nobody".to_owned(),
        })
        .map(|_| ())
    );
}
