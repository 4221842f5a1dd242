use vql::errors::{ItemKind, VqlError};
use vql::store::JsonStorage;

const NOW: &str = "2024-01-01T00:00:00Z";
const LATER: &str = "2024-01-02T00:00:00Z";

fn base_registry() -> JsonStorage {
    let mut st = JsonStorage::new(NOW);
    st.add_entity("u", "User", NOW).unwrap();
    st.add_asset_type("c", "Controller", NOW).unwrap();
    st.add_asset_reference("uc", "u", "c", "/tmp/x.js", NOW).unwrap();
    st
}

#[test]
fn test_new_registry_is_empty() {
    let st = JsonStorage::new(NOW);
    assert_eq!(st.version, "1.0.0");
    assert_eq!(st.created, NOW);
    assert_eq!(st.last_modified, NOW);
    assert!(st.principles.is_empty());
    assert!(st.entities.is_empty());
    assert!(st.asset_types.is_empty());
    assert!(st.asset_references.is_empty());
    assert!(st.commands.is_empty());
}

// Scenario: an empty registry filled with one entity, one asset type and
// one asset reference.
#[test]
fn test_end_to_end_add_chain() {
    let st = base_registry();
    assert_eq!(st.asset_references.len(), 1);
    let a = &st.asset_references[0];
    assert_eq!(a.short_name, "uc");
    assert_eq!(a.entity, "u");
    assert_eq!(a.asset_type, "c");
    assert_eq!(a.path, "/tmp/x.js");
    assert_eq!(a.exemplar, false);
    assert!(a.principle_reviews.is_empty());
}

// Scenario: a stored review is read back exactly as stored.
#[test]
fn test_store_then_get_review() {
    let mut st = base_registry();
    st.add_principle("a", "Architecture", None, NOW).unwrap();
    st.store_asset_review("uc", "a", Some("H"), "Looks good", LATER).unwrap();
    let rv = st.get_asset_review("uc", "a").unwrap().unwrap();
    assert_eq!(rv.rating, Some(String::from("H")));
    assert_eq!(rv.analysis, Some(String::from("Looks good")));
    assert_eq!(rv.last_modified, LATER);
}

// Scenario: renaming an entity retargets the assets that referenced it.
#[test]
fn test_rename_entity_cascade() {
    let mut st = base_registry();
    st.rename_entity("u", "usr", LATER).unwrap();
    assert!(st.entities.iter().all(|e| e.short_name != "u"));
    assert!(st.entities.iter().any(|e| e.short_name == "usr"));
    assert_eq!(st.asset_references[0].entity, "usr");
}

// Namespace uniqueness: a name taken by an entity cannot become a
// principle, and the registry is unchanged by the refused add.
#[test]
fn test_cross_kind_collision() {
    let mut st = JsonStorage::new(NOW);
    st.add_entity("a", "Apples", NOW).unwrap();
    let before = st.clone();
    let r = st.add_principle("a", "Architecture", None, LATER);
    assert_eq!(
        r,
        Err(VqlError::NameCollision { name: String::from("a"), existing_kind: ItemKind::Entity })
    );
    assert_eq!(st, before);
    assert!(st.principles.is_empty());
}

#[test]
fn test_same_kind_collision() {
    let mut st = JsonStorage::new(NOW);
    st.add_principle("a", "Architecture", None, NOW).unwrap();
    let r = st.add_principle("a", "Adaptability", None, LATER);
    assert!(matches!(r, Err(VqlError::NameCollision { .. })));
}

#[test]
fn test_short_name_length_rules() {
    let mut st = JsonStorage::new(NOW);
    let r = st.add_principle("ab", "Architecture", None, NOW);
    assert_eq!(
        r,
        Err(VqlError::InvalidShortName { kind: ItemKind::Principle, name: String::from("ab") })
    );
    let r = st.add_asset_type("xy", "Controller", NOW);
    assert!(matches!(r, Err(VqlError::InvalidShortName { .. })));
    // Entities have no length rule.
    assert!(st.add_entity("user", "User", NOW).is_ok());
}

// Rename cascade completeness: the review moves under the new key
// unchanged, and nothing stays under the old one.
#[test]
fn test_rename_principle_cascade() {
    let mut st = base_registry();
    st.add_principle("a", "Architecture", None, NOW).unwrap();
    st.store_asset_review("uc", "a", Some("M"), "fine", NOW).unwrap();
    st.rename_principle("a", "q", LATER).unwrap();
    assert!(st.get_asset_review("uc", "a").unwrap().is_none());
    let rv = st.get_asset_review("uc", "q").unwrap().unwrap();
    assert_eq!(rv.rating, Some(String::from("M")));
    assert_eq!(rv.analysis, Some(String::from("fine")));
    assert!(st.principles.iter().any(|p| p.short_name == "q"));
    assert!(st.principles.iter().all(|p| p.short_name != "a"));
}

// Delete-blocks-on-use: the delete fails with the blocking asset listed
// and the registry is unchanged.
#[test]
fn test_delete_entity_blocked() {
    let mut st = base_registry();
    let before = st.clone();
    let r = st.delete_entity("u", LATER);
    assert_eq!(
        r,
        Err(VqlError::InUse {
            kind: ItemKind::Entity,
            name: String::from("u"),
            blocking_assets: vec![String::from("uc")],
        })
    );
    assert_eq!(st, before);
    assert!(st.entities.iter().any(|e| e.short_name == "u"));
    assert_eq!(st.asset_references[0].entity, "u");
}

#[test]
fn test_delete_asset_type_blocked() {
    let mut st = base_registry();
    let r = st.delete_asset_type("c", LATER);
    assert!(matches!(r, Err(VqlError::InUse { .. })));
}

#[test]
fn test_delete_entity_after_asset_removed() {
    let mut st = base_registry();
    st.delete_asset_reference("uc", LATER).unwrap();
    st.delete_entity("u", LATER).unwrap();
    assert!(st.entities.is_empty());
}

// Delete cascade for principles: the key disappears from every review
// map and a later lookup reports absence, not a stale value.
#[test]
fn test_delete_principle_cascade() {
    let mut st = base_registry();
    st.add_principle("a", "Architecture", None, NOW).unwrap();
    st.store_asset_review("uc", "a", Some("H"), "ok", NOW).unwrap();
    st.delete_principle("a", LATER).unwrap();
    assert!(st.principles.is_empty());
    assert!(st.asset_references[0].principle_reviews.is_empty());
    assert!(st.get_asset_review("uc", "a").unwrap().is_none());
}

#[test]
fn test_delete_not_found() {
    let mut st = JsonStorage::new(NOW);
    assert!(matches!(
        st.delete_principle("z", NOW),
        Err(VqlError::NotFound { kind: ItemKind::Principle, .. })
    ));
    assert!(matches!(
        st.delete_entity("z", NOW),
        Err(VqlError::NotFound { kind: ItemKind::Entity, .. })
    ));
    assert!(matches!(
        st.delete_asset_reference("z", NOW),
        Err(VqlError::NotFound { kind: ItemKind::Asset, .. })
    ));
}

#[test]
fn test_rename_to_taken_name_refused() {
    let mut st = base_registry();
    let r = st.rename_entity("u", "uc", LATER);
    assert!(matches!(r, Err(VqlError::NameCollision { .. })));
    // Renaming onto its own name is a collision too.
    let r = st.rename_entity("u", "u", LATER);
    assert!(matches!(r, Err(VqlError::NameCollision { .. })));
}

#[test]
fn test_set_asset_exemplar() {
    let mut st = base_registry();
    st.set_asset_exemplar("uc", true, LATER).unwrap();
    assert!(st.asset_references[0].exemplar);
    assert_eq!(st.asset_references[0].last_modified, LATER);
    let r = st.set_asset_exemplar("zz", true, LATER);
    assert!(matches!(r, Err(VqlError::NotFound { .. })));
}

#[test]
fn test_store_review_validation() {
    let mut st = base_registry();
    let r = st.store_asset_review("zz", "a", None, "text", NOW);
    assert!(matches!(r, Err(VqlError::NotFound { .. })));
    let r = st.store_asset_review("uc", "a", None, "text", NOW);
    assert!(matches!(r, Err(VqlError::UnknownPrinciple { .. })));
    st.add_principle("a", "Architecture", None, NOW).unwrap();
    let r = st.store_asset_review("uc", "a", Some("X"), "text", NOW);
    assert_eq!(r, Err(VqlError::InvalidRating { rating: String::from("X") }));
    // Overwrite keeps one entry per principle.
    st.store_asset_review("uc", "a", Some("H"), "first", NOW).unwrap();
    st.store_asset_review("uc", "a", Some("L"), "second", LATER).unwrap();
    assert_eq!(st.asset_references[0].principle_reviews.len(), 1);
    let rv = st.get_asset_review("uc", "a").unwrap().unwrap();
    assert_eq!(rv.rating, Some(String::from("L")));
    assert_eq!(rv.analysis, Some(String::from("second")));
}

#[test]
fn test_add_asset_reference_validation() {
    let mut st = JsonStorage::new(NOW);
    st.add_entity("u", "User", NOW).unwrap();
    let r = st.add_asset_reference("uc", "u", "c", "/tmp/x.js", NOW);
    assert_eq!(r, Err(VqlError::UnknownAssetType { name: String::from("c") }));
    let r = st.add_asset_reference("uc", "v", "c", "/tmp/x.js", NOW);
    assert_eq!(r, Err(VqlError::UnknownEntity { name: String::from("v") }));
}

#[test]
fn test_find_item_type_priority() {
    let mut st = base_registry();
    st.add_principle("a", "Architecture", None, NOW).unwrap();
    assert_eq!(st.find_item_type("a"), Some(ItemKind::Principle));
    assert_eq!(st.find_item_type("u"), Some(ItemKind::Entity));
    assert_eq!(st.find_item_type("c"), Some(ItemKind::AssetType));
    assert_eq!(st.find_item_type("uc"), Some(ItemKind::Asset));
    assert_eq!(st.find_item_type("zz"), None);
}

#[test]
fn test_check_name_availability() {
    let st = base_registry();
    assert!(st.check_name_availability("fresh").is_ok());
    assert!(st.check_name_availability("uc").is_err());
}

#[test]
fn test_commands_namespace() {
    let mut st = JsonStorage::new(NOW);
    st.add_command(":verify", "runs checks", NOW).unwrap();
    assert!(st.command_exists("verify"));
    assert!(st.command_exists(":verify"));
    let c = st.get_command(":verify").unwrap();
    assert_eq!(c.name, "verify");
    assert!(!c.built_in);
    let r = st.add_command("verify", "again", NOW);
    assert_eq!(r, Err(VqlError::CommandExists { name: String::from("verify") }));
    st.rename_command("verify", "check", LATER).unwrap();
    assert!(!st.command_exists("verify"));
    assert!(st.command_exists("check"));
    // A user-defined command records no original name.
    assert_eq!(st.get_command("check").unwrap().original_name, None);
}

#[test]
fn test_rename_asset_reference_keeps_reviews() {
    let mut st = base_registry();
    st.add_principle("a", "Architecture", None, NOW).unwrap();
    st.store_asset_review("uc", "a", Some("H"), "ok", NOW).unwrap();
    st.rename_asset_reference("uc", "userctl", LATER).unwrap();
    assert!(st.get_asset_review("userctl", "a").unwrap().is_some());
    assert!(st.get_asset_review("uc", "a").is_err());
}

// Rebuilding a registry from its own parts yields an equal registry;
// this is the in-memory half of the persistence round trip.
#[test]
fn test_round_trip_parts() {
    let mut st = base_registry();
    st.add_principle("a", "Architecture", Some("keep layers apart"), NOW).unwrap();
    st.store_asset_review("uc", "a", Some("H"), "Looks good", LATER).unwrap();
    let rebuilt = JsonStorage {
        version: st.version.clone(),
        created: st.created.clone(),
        last_modified: st.last_modified.clone(),
        commands: st.commands.clone(),
        asset_types: st.asset_types.clone(),
        entities: st.entities.clone(),
        principles: st.principles.clone(),
        asset_references: st.asset_references.clone(),
    };
    assert_eq!(rebuilt, st);
}
