use sushi_api::add_regions_table;
use sushi_api::http::{conflict_message, error_status, health, not_found_message, STATUS_OK};
use sushi_api::migrate::{DbState, MigrationId, Migrator};
use sushi_api::region::{CreateRegion, FilterQuery, Region, RegionError, UpdateRegion};
use sushi_api::seed_regions_data;
use sushi_api::store::{merge_update, RegionTable};
use sushi_api::text::{contains_substr, str_eq};

fn migrated_db() -> DbState {
    let mut db = DbState::new();
    Migrator::up(&mut db).expect("migrations must succeed on a fresh database");
    db
}

fn new_region(table: &mut RegionTable, slug: &str, katakana: &str, english: &str) -> Region {
    table
        .create(CreateRegion {
            slug: slug.to_string(),
            katakana: katakana.to_string(),
            english: english.to_string(),
        })
        .expect("create must succeed on a fresh slug")
}

fn slugs_of(regions: &[Region]) -> Vec<String> {
    regions.iter().map(|r| r.slug.clone()).collect()
}

#[test]
fn test_create_then_get_returns_created_region() {
    let mut table = RegionTable::new();
    let created = new_region(&mut table, "kyoto", "キョウト", "Kyoto");

    let fetched = table.get_by_slug("kyoto").expect("created region must be found");
    assert_eq!(fetched.id, created.id);
    assert_eq!(fetched.slug, "kyoto");
    assert_eq!(fetched.katakana, "キョウト");
    assert_eq!(fetched.english, "Kyoto");
    assert_eq!(created.id, 1, "the first assigned id is 1");
}

#[test]
fn test_create_conflict_inserts_no_second_row() {
    let mut table = RegionTable::new();
    new_region(&mut table, "kyoto", "キョウト", "Kyoto");

    let second = table.create(CreateRegion {
        slug: "kyoto".to_string(),
        katakana: "キョウト".to_string(),
        english: "Kyoto Again".to_string(),
    });
    assert!(matches!(second, Err(RegionError::Conflict)));

    let regions = table.list(&FilterQuery { filter: None });
    assert_eq!(regions.len(), 1, "the conflicting create inserted nothing");
    assert_eq!(regions[0].english, "Kyoto");

    // The next create is not charged for the failed one: ids stay contiguous.
    let nara = new_region(&mut table, "nara", "ナラ", "Nara");
    assert_eq!(nara.id, 2);
}

#[test]
fn test_update_with_only_katakana_changes_only_katakana() {
    let mut table = RegionTable::new();
    let created = new_region(&mut table, "kobe", "コベ", "Kobe");

    let updated = table
        .update("kobe", UpdateRegion { katakana: Some("コウベ".to_string()), english: None })
        .expect("update of a present slug must succeed");

    assert_eq!(updated.id, created.id);
    assert_eq!(updated.slug, "kobe");
    assert_eq!(updated.katakana, "コウベ");
    assert_eq!(updated.english, "Kobe", "english keeps its value");
}

#[test]
fn test_update_absent_slug_is_not_found_and_noop() {
    let mut table = RegionTable::new();
    new_region(&mut table, "kobe", "コウベ", "Kobe");

    let result = table.update(
        "osaka",
        UpdateRegion { katakana: Some("オオサカ".to_string()), english: None },
    );
    assert!(matches!(result, Err(RegionError::NotFound)));

    let regions = table.list(&FilterQuery { filter: None });
    assert_eq!(regions.len(), 1);
    assert_eq!(regions[0].katakana, "コウベ");
}

#[test]
fn test_delete_present_then_get_is_none() {
    let mut table = RegionTable::new();
    new_region(&mut table, "kyoto", "キョウト", "Kyoto");

    assert!(table.delete("kyoto").is_ok());
    assert!(table.get_by_slug("kyoto").is_none());
}

#[test]
fn test_delete_absent_slug_is_not_found_and_noop() {
    let mut table = RegionTable::new();
    new_region(&mut table, "kyoto", "キョウト", "Kyoto");

    let result = table.delete("osaka");
    assert!(matches!(result, Err(RegionError::NotFound)));
    assert_eq!(table.list(&FilterQuery { filter: None }).len(), 1);
}

#[test]
fn test_filter_n_returns_the_matching_seeded_regions() {
    let db = migrated_db();
    let table = db.table.expect("table exists after migrations");

    let filtered = table.list(&FilterQuery { filter: Some("n".to_string()) });
    let slugs = slugs_of(&filtered);

    assert!(slugs.contains(&"nashville".to_string()));
    assert!(slugs.contains(&"new-york".to_string()));
    assert!(slugs.contains(&"san-diego".to_string()));
    assert!(slugs.contains(&"los-angeles".to_string()));
    // "Boston" also matches through its english name; the two remaining
    // seeded regions hold no "n" in any field.
    assert!(!slugs.contains(&"chicago".to_string()));
    assert!(!slugs.contains(&"columbus".to_string()));
    assert_eq!(filtered.len(), 5);
}

#[test]
fn test_end_to_end_lifecycle_on_fresh_database() {
    let mut db = DbState::new();
    Migrator::up(&mut db).expect("migrations must succeed on a fresh database");
    let mut table = db.table.expect("table exists after migrations");

    let all = table.list(&FilterQuery { filter: None });
    assert_eq!(all.len(), 7);
    let chicago = all.iter().find(|r| r.slug == "chicago").expect("chicago is seeded");
    assert_eq!(chicago.katakana, "シカゴ");
    assert_eq!(chicago.english, "Chicago");

    let fetched = table.get_by_slug("chicago").expect("chicago can be fetched");
    assert_eq!(fetched.id, chicago.id);
    assert_eq!(fetched.katakana, chicago.katakana);
    assert_eq!(fetched.english, chicago.english);

    let updated = table
        .update(
            "chicago",
            UpdateRegion { katakana: None, english: Some("Chicago Metro".to_string()) },
        )
        .expect("update of a seeded slug must succeed");
    assert_eq!(updated.english, "Chicago Metro");
    assert_eq!(updated.katakana, "シカゴ", "katakana keeps its value");
    assert_eq!(updated.slug, "chicago");
    assert_eq!(updated.id, chicago.id);

    table.delete("chicago").expect("delete of a present slug must succeed");
    assert!(table.get_by_slug("chicago").is_none());
    assert_eq!(table.list(&FilterQuery { filter: None }).len(), 6);
}

#[test]
fn test_migrator_reruns_are_noops() {
    let mut db = migrated_db();
    assert_eq!(db.applied.len(), 2);

    Migrator::up(&mut db).expect("a second run must succeed");
    assert_eq!(db.applied.len(), 2, "nothing is recorded twice");
    let table = db.table.expect("table still exists");
    assert_eq!(table.list(&FilterQuery { filter: None }).len(), 7, "nothing is seeded twice");
}

#[test]
fn test_migration_names_and_order() {
    let ids = Migrator::migrations();
    assert_eq!(ids.len(), 2);
    assert!(matches!(ids[0], MigrationId::AddRegionsTable));
    assert!(matches!(ids[1], MigrationId::SeedRegionsData));
    assert_eq!(ids[0].name(), "m20250426_024738_add_regions_table");
    assert_eq!(ids[1].name(), "m20250508_022912_seed_regions_data");

    let db = migrated_db();
    assert_eq!(db.applied[0], ids[0].name(), "applied in order");
    assert_eq!(db.applied[1], ids[1].name(), "applied in order");
}

#[test]
fn test_seeding_without_table_is_a_data_access_failure() {
    let mut db = DbState::new();
    let result = (seed_regions_data::Migration).up(&mut db);
    match result {
        Err(RegionError::DataAccess(m)) => assert_eq!(m, "no such table: region"),
        _ => panic!("seeding an absent table must fail as a data-access error"),
    }
    assert!(db.table.is_none());
}

#[test]
fn test_add_table_down_drops_the_table() {
    let mut db = migrated_db();
    (add_regions_table::Migration).down(&mut db).expect("dropping a present table succeeds");
    assert!(db.table.is_none());

    let result = (add_regions_table::Migration).down(&mut db);
    assert!(matches!(result, Err(RegionError::DataAccess(_))));
}

#[test]
fn test_seed_down_clears_rows_but_not_the_id_counter() {
    let mut db = migrated_db();
    (seed_regions_data::Migration).down(&mut db).expect("the blunt rollback succeeds");
    let mut table = db.table.expect("the table itself stays");
    assert_eq!(table.list(&FilterQuery { filter: None }).len(), 0);

    // Ids are never reassigned: the next insert continues after the seeds.
    let region = new_region(&mut table, "tokyo", "トウキョウ", "Tokyo");
    assert_eq!(region.id, 8);
}

#[test]
fn test_duplicate_slugs_from_unchecked_inserts() {
    // Only `create` checks slugs; the seeding path inserts the way raw SQL
    // does. Running it twice is the single-threaded stand-in for the
    // check-then-insert race between two concurrent creates: duplicates
    // appear, lookups return the first row, and a delete removes only it.
    let mut db = migrated_db();
    (seed_regions_data::Migration).up(&mut db).expect("unchecked seeding succeeds");
    let mut table = db.table.expect("table exists");

    let all = table.list(&FilterQuery { filter: None });
    assert_eq!(all.len(), 14);

    let first = table.get_by_slug("chicago").expect("a duplicated slug still resolves");
    assert_eq!(first.id, 1, "the first inserted row wins the lookup");

    table.delete("chicago").expect("delete removes the first duplicate");
    let second = table.get_by_slug("chicago").expect("the second duplicate remains");
    assert_eq!(second.id, 8);
}

#[test]
fn test_error_statuses_match_the_translation_table() {
    assert_eq!(STATUS_OK, 200);
    assert_eq!(error_status(&RegionError::NotFound), 404);
    assert_eq!(error_status(&RegionError::Conflict), 400);
    assert_eq!(error_status(&RegionError::DataAccess("oops".to_string())), 500);
}

#[test]
fn test_error_messages() {
    assert_eq!(not_found_message(), "Region not found");
    assert_eq!(
        conflict_message("seattle"),
        "Region with slug 'seattle' already exists"
    );
}

#[test]
fn test_health_body() {
    assert_eq!(health(), "OK");
}

#[test]
fn test_substring_matching() {
    assert!(contains_substr("nashville", "n"));
    assert!(contains_substr("nashville", ""));
    assert!(contains_substr("nashville", "nashville"));
    assert!(!contains_substr("", "n"));
    assert!(!contains_substr("nashville", "nashvilles"));
    assert!(!contains_substr("Nashville", "n"), "case-sensitive: the capital N does not match");
    assert!(contains_substr("Nashville", "N"));
    assert!(contains_substr("ナッシュビル", "シュ"));
    assert!(!contains_substr("ナッシュビル", "シカ"));
    assert!(str_eq("ボストン", "ボストン"));
    assert!(!str_eq("ボストン", "ボスト"));
}

#[test]
fn test_empty_filter_matches_every_region() {
    let db = migrated_db();
    let table = db.table.expect("table exists");
    let filtered = table.list(&FilterQuery { filter: Some(String::new()) });
    assert_eq!(filtered.len(), 7, "the empty filter is a substring of everything");
}

#[test]
fn test_merge_update_keeps_absent_fields() {
    let region = Region {
        id: 3,
        slug: "boston".to_string(),
        katakana: "ボストン".to_string(),
        english: "Boston".to_string(),
    };
    let merged = merge_update(&region, UpdateRegion { katakana: None, english: None });
    assert_eq!(merged.id, 3);
    assert_eq!(merged.slug, "boston");
    assert_eq!(merged.katakana, "ボストン");
    assert_eq!(merged.english, "Boston");

    let merged = merge_update(
        &region,
        UpdateRegion { katakana: Some("ボストンシ".to_string()), english: None },
    );
    assert_eq!(merged.katakana, "ボストンシ");
    assert_eq!(merged.english, "Boston");
}
