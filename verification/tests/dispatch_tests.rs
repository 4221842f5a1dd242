use vql::dispatch::{
    extract_rating_from_text, load_principles_from_lines, process_command, Outcome,
};
use vql::config::VqlConfig;
use vql::errors::{ItemKind, VqlError};
use vql::rating::Rating;
use vql::store::JsonStorage;

const NOW: &str = "2024-01-01T00:00:00Z";
const LATER: &str = "2024-01-02T00:00:00Z";

fn base_registry() -> JsonStorage {
    let mut st = JsonStorage::new(NOW);
    process_command(&mut st, "-er -add u User", NOW).unwrap();
    process_command(&mut st, "-at -add c Controller", NOW).unwrap();
    process_command(&mut st, ":ar.add(uc, u, c, \"/tmp/x.js\")", NOW).unwrap();
    process_command(&mut st, ":pr.add(a, Architecture, \"Keep layers apart\")", NOW).unwrap();
    st
}

#[test]
fn test_process_add_chain() {
    let st = base_registry();
    assert_eq!(st.entities.len(), 1);
    assert_eq!(st.asset_types.len(), 1);
    assert_eq!(st.asset_references.len(), 1);
    assert_eq!(st.principles.len(), 1);
    assert_eq!(st.principles[0].guidance, Some(String::from("Keep layers apart")));
}

// Grammar equivalence, end to end: the functional and the flag store
// leave two equal registries behind.
#[test]
fn test_grammar_equivalence_registries() {
    let mut r1 = base_registry();
    let mut r2 = base_registry();
    process_command(&mut r1, ":uc.st(a,\"Looks good\")", LATER).unwrap();
    process_command(&mut r2, "-st uc a \"Looks good\"", LATER).unwrap();
    assert_eq!(r1, r2);
    let rv = r1.get_asset_review("uc", "a").unwrap().unwrap();
    assert_eq!(rv.analysis, Some(String::from("Looks good")));
}

#[test]
fn test_store_review_extracts_rating() {
    let mut st = base_registry();
    let out = process_command(&mut st, ":uc.st(a, High compliance with the layering rules)", LATER)
        .unwrap();
    assert_eq!(
        out,
        Outcome::ReviewStored {
            asset: String::from("uc"),
            principle: String::from("a"),
            rating: Some(String::from("H")),
        }
    );
    let rv = st.get_asset_review("uc", "a").unwrap().unwrap();
    assert_eq!(rv.rating, Some(String::from("H")));
}

#[test]
fn test_extract_rating_from_text() {
    assert_eq!(extract_rating_from_text("HIGH COMPLIANCE overall"), Some(String::from("H")));
    assert_eq!(extract_rating_from_text("compliance: medium here"), Some(String::from("M")));
    assert_eq!(extract_rating_from_text("rated as low, sadly"), Some(String::from("L")));
    assert_eq!(extract_rating_from_text("highway to heaven"), None);
    assert_eq!(extract_rating_from_text("it is high. yes"), Some(String::from("H")));
    assert_eq!(extract_rating_from_text("nothing to report"), None);
}

#[test]
fn test_exemplar_flags() {
    let mut st = base_registry();
    let out = process_command(&mut st, ":uc.se(Yes)", LATER).unwrap();
    assert_eq!(out, Outcome::ExemplarMarked { asset: String::from("uc"), value: true });
    assert!(st.asset_references[0].exemplar);
    process_command(&mut st, "-se uc F", LATER).unwrap();
    assert!(!st.asset_references[0].exemplar);
    let r = process_command(&mut st, "-se uc maybe", LATER);
    assert_eq!(r, Err(VqlError::InvalidExemplarFlag { value: String::from("maybe") }));
}

#[test]
fn test_compliance_normalises_case() {
    let mut st = base_registry();
    let out = process_command(&mut st, ":uc.sc(a, h)", LATER).unwrap();
    assert_eq!(
        out,
        Outcome::ComplianceSet {
            asset: String::from("uc"),
            principle: String::from("a"),
            rating: String::from("H"),
        }
    );
    let rv = st.get_asset_review("uc", "a").unwrap().unwrap();
    assert_eq!(rv.rating, Some(String::from("H")));
    assert_eq!(rv.analysis, Some(String::from("")));
    let r = process_command(&mut st, "-sc uc a X", LATER);
    assert_eq!(r, Err(VqlError::InvalidRating { rating: String::from("X") }));
}

#[test]
fn test_generic_rename_resolves_kind() {
    let mut st = base_registry();
    process_command(&mut st, ":uc.st(a, fine)", NOW).unwrap();
    let out = process_command(&mut st, ":rn(a, q)", LATER).unwrap();
    assert_eq!(
        out,
        Outcome::Renamed {
            kind: ItemKind::Principle,
            old_name: String::from("a"),
            new_name: String::from("q"),
            affected: vec![String::from("uc")],
        }
    );
    assert!(st.get_asset_review("uc", "q").unwrap().is_some());
    let r = process_command(&mut st, ":rn(zz, yy)", LATER);
    assert_eq!(r, Err(VqlError::UnknownItem { name: String::from("zz") }));
}

#[test]
fn test_generic_delete_resolves_kind() {
    let mut st = base_registry();
    let out = process_command(&mut st, ":dl(uc)", LATER).unwrap();
    assert_eq!(
        out,
        Outcome::AssetDeleted { name: String::from("uc"), removed_reviews: 0 }
    );
    // With the asset gone the entity delete goes through.
    let out = process_command(&mut st, ":dl(u)", LATER).unwrap();
    assert_eq!(out, Outcome::EntityDeleted { name: String::from("u") });
}

#[test]
fn test_delete_blocked_via_command() {
    let mut st = base_registry();
    let r = process_command(&mut st, "-er -dl u", LATER);
    assert_eq!(
        r,
        Err(VqlError::InUse {
            kind: ItemKind::Entity,
            name: String::from("u"),
            blocking_assets: vec![String::from("uc")],
        })
    );
}

#[test]
fn test_show_asset() {
    let mut st = base_registry();
    process_command(&mut st, ":uc.st(a, fine)", NOW).unwrap();
    let out = process_command(&mut st, ":uc ?", NOW).unwrap();
    match out {
        Outcome::AssetInfo { asset, selected } => {
            assert_eq!(asset.short_name, "uc");
            assert_eq!(asset.principle_reviews.len(), 1);
            assert!(selected.is_none());
        },
        other => panic!("unexpected outcome: {:?}", other),
    }
    let out = process_command(&mut st, "uc ? (a, s)", NOW).unwrap();
    match out {
        Outcome::AssetInfo { selected, .. } => {
            assert_eq!(selected, Some(vec![String::from("a"), String::from("s")]));
        },
        other => panic!("unexpected outcome: {:?}", other),
    }
}

#[test]
fn test_listings() {
    let mut st = base_registry();
    let out = process_command(&mut st, ":pr", NOW).unwrap();
    match out {
        Outcome::Principles { principles } => {
            assert_eq!(principles.len(), 1);
            assert_eq!(principles[0].short_name, "a");
        },
        other => panic!("unexpected outcome: {:?}", other),
    }
    let out = process_command(&mut st, ":ls", NOW).unwrap();
    match out {
        Outcome::Everything { principles, entities, asset_types, assets } => {
            assert_eq!(principles.len(), 1);
            assert_eq!(entities.len(), 1);
            assert_eq!(asset_types.len(), 1);
            assert_eq!(assets.len(), 1);
        },
        other => panic!("unexpected outcome: {:?}", other),
    }
}

#[test]
fn test_review_instructions() {
    let mut st = base_registry();
    let out = process_command(&mut st, ":uc.rv(*)", NOW).unwrap();
    match out {
        Outcome::Instructions { refactor, asset, principles, references, .. } => {
            assert!(!refactor);
            assert_eq!(asset.unwrap().short_name, "uc");
            assert_eq!(principles.len(), 1);
            assert_eq!(principles[0].long_name, "Architecture");
            assert!(references.is_empty());
        },
        other => panic!("unexpected outcome: {:?}", other),
    }
    let r = process_command(&mut st, ":zz.rv(*)", NOW);
    assert!(matches!(r, Err(VqlError::UnknownAsset { .. })));
    let r = process_command(&mut st, ":uc.rv(z)", NOW);
    assert!(matches!(r, Err(VqlError::UnknownPrinciple { .. })));
}

#[test]
fn test_refactor_with_reference_asset() {
    let mut st = base_registry();
    process_command(&mut st, ":ar.add(lc, u, c, \"/tmp/y.js\")", NOW).unwrap();
    process_command(&mut st, ":lc.st(a, exemplary)", NOW).unwrap();
    // A lone asset name means: refactor after that asset's reviewed principles.
    let out = process_command(&mut st, ":uc.rf(lc)", LATER).unwrap();
    match out {
        Outcome::Instructions { refactor, asset, principles, references, .. } => {
            assert!(refactor);
            assert_eq!(asset.unwrap().short_name, "uc");
            assert_eq!(references, vec![String::from("lc")]);
            assert_eq!(principles.len(), 1);
            assert_eq!(principles[0].short_name, "a");
        },
        other => panic!("unexpected outcome: {:?}", other),
    }
    // Principles first, then reference assets, comma-separated.
    let out = process_command(&mut st, ":uc.rf(a, lc)", LATER).unwrap();
    match out {
        Outcome::Instructions { principles, references, .. } => {
            assert_eq!(principles.len(), 1);
            assert_eq!(references, vec![String::from("lc")]);
        },
        other => panic!("unexpected outcome: {:?}", other),
    }
}

#[test]
fn test_global_review() {
    let mut st = base_registry();
    let out = process_command(&mut st, ":-rv(*)", NOW).unwrap();
    match out {
        Outcome::Instructions { refactor, asset, assets, principles, .. } => {
            assert!(!refactor);
            assert!(asset.is_none());
            assert_eq!(assets.len(), 1);
            assert_eq!(principles.len(), 1);
        },
        other => panic!("unexpected outcome: {:?}", other),
    }
    let mut empty = JsonStorage::new(NOW);
    empty.add_principle("a", "Architecture", None, NOW).unwrap();
    let r = process_command(&mut empty, ":-rv(*)", NOW);
    assert_eq!(r, Err(VqlError::NoAssets));
}

#[test]
fn test_setup_and_load_requests() {
    let mut st = base_registry();
    let before = st.clone();
    let out = process_command(&mut st, ":-su(\"~/proj\")", LATER).unwrap();
    assert_eq!(out, Outcome::SetupRequested { path: Some(String::from("~/proj")) });
    let out = process_command(&mut st, ":-pr.get(\"~/principles.md\")", LATER).unwrap();
    assert_eq!(out, Outcome::PrinciplesLoadRequested { path: String::from("~/principles.md") });
    // Neither request touches the registry.
    assert_eq!(st, before);
}

#[test]
fn test_load_principles_from_lines() {
    let mut st = JsonStorage::new(NOW);
    let lines: Vec<String> = vec![
        String::from("ignored preamble"),
        String::from("# Architecture Principles (a)"),
        String::from("keep layers apart"),
        String::from("no cycles"),
        String::from("# Security Principles (s)"),
        String::from("validate inputs"),
    ];
    let n = load_principles_from_lines(&mut st, &lines, LATER).unwrap();
    assert_eq!(n, 2);
    assert_eq!(st.principles.len(), 2);
    assert_eq!(st.principles[0].short_name, "a");
    assert_eq!(st.principles[0].long_name, "Architecture Principles");
    assert_eq!(
        st.principles[0].guidance,
        Some(String::from("keep layers apart\nno cycles"))
    );
    assert_eq!(st.principles[1].short_name, "s");
    assert_eq!(st.principles[1].guidance, Some(String::from("validate inputs")));
}

#[test]
fn test_load_principles_collision_aborts() {
    let mut st = JsonStorage::new(NOW);
    st.add_entity("a", "Apples", NOW).unwrap();
    let lines: Vec<String> = vec![String::from("# Architecture (a)")];
    let r = load_principles_from_lines(&mut st, &lines, LATER);
    assert_eq!(
        r,
        Err(VqlError::NameCollision { name: String::from("a"), existing_kind: ItemKind::Entity })
    );
}

#[test]
fn test_load_principles_duplicate_section() {
    let mut st = JsonStorage::new(NOW);
    let lines: Vec<String> = vec![
        String::from("# Architecture (a)"),
        String::from("guide"),
        String::from("# Adaptability (a)"),
    ];
    let r = load_principles_from_lines(&mut st, &lines, LATER);
    // The second section reuses the first one's short name.
    assert_eq!(
        r,
        Err(VqlError::NameCollision {
            name: String::from("a"),
            existing_kind: ItemKind::Principle,
        })
    );
    // The clean earlier section was applied in memory; a caller discards
    // the registry on error, so nothing reaches the persisted document.
    assert_eq!(st.principles.len(), 1);
    assert_eq!(st.principles[0].long_name, "Architecture");
}

#[test]
fn test_mode_commands() {
    let mut st = base_registry();
    assert_eq!(process_command(&mut st, ":-vql on", NOW).unwrap(), Outcome::ModeSet { on: true });
    assert_eq!(
        process_command(&mut st, ":mcp", NOW).unwrap(),
        Outcome::InterfaceSet { mcp: true }
    );
}

#[test]
fn test_rating_type() {
    assert_eq!(Rating::from_string("H"), Rating::High);
    assert_eq!(Rating::from_string("M"), Rating::Medium);
    assert_eq!(Rating::from_string("L"), Rating::Low);
    assert_eq!(Rating::from_string("x"), Rating::Unknown);
    assert_eq!(Rating::High.to_string(), "H");
    assert_eq!(Rating::Unknown.to_string(), "?");
}

#[test]
fn test_config_defaults() {
    let c = VqlConfig::default();
    assert_eq!(c.asset_paths.models, "./server/models");
    assert_eq!(c.ignore_patterns, vec![
        String::from("**/node_modules/**"),
        String::from("**/dist/**"),
    ]);
    assert_eq!(c.llm_integration.token_budget, 2000);
    assert!(c.llm_integration.enable_command_interception);
}
