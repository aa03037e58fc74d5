use moose::presentation::catalog::model_catalog;
use moose::presentation::models_view::{matching_families, model_family_matches_query, model_is_installed};

#[test]
fn catalog_lists_every_family_in_order() {
    let catalog = model_catalog();
    assert_eq!(catalog.len(), 45);
    assert_eq!(catalog[0].id, "llama3.1");
    assert_eq!(catalog[0].title, "Llama 3.1");
    assert_eq!(catalog[0].variants.len(), 3);
    assert_eq!(catalog[0].variants[0].name, "llama3.1:8b");
    assert_eq!(catalog[0].variants[0].tags, vec!["recommended", "chat", "tools"]);
    assert_eq!(catalog[44].id, "smollm2");
    assert_eq!(catalog[44].variants[2].name, "smollm2:1.7b");
}

#[test]
fn catalog_offers_the_starter_model() {
    let catalog = model_catalog();
    let names: Vec<&str> = catalog
        .iter()
        .flat_map(|family| family.variants.iter().map(|variant| variant.name.as_str()))
        .collect();
    assert_eq!(names.len(), 134);
    assert!(model_is_installed("llama3.2:1b", &names));
}

#[test]
fn catalog_search_finds_families_by_any_text() {
    let catalog = model_catalog();
    let embedding = matching_families(&catalog, "  SmolLM2 ");
    assert_eq!(embedding.len(), 1);
    assert_eq!(catalog[embedding[0]].id, "smollm2");
    assert_eq!(matching_families(&catalog, "").len(), 45);
    assert!(matching_families(&catalog, "no such model anywhere").is_empty());
    let lfm = catalog.iter().find(|family| family.id == "lfm2").unwrap();
    assert!(model_family_matches_query(lfm, "24b q4"));
}
