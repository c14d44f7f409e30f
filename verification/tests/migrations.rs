use openwiki::migrations::{
    migration_probe, migration_sql, migration_step, probe_failure_tolerated, MigrationAction,
    MigrationSql, MigrationStage,
};

/// Runs the migration stages against answers given by `count` and returns the actions applied.
fn run(count: impl Fn(&str) -> i64) -> Vec<MigrationAction> {
    let mut stage = MigrationStage::Initial;
    let mut applied = Vec::new();
    let mut steps = 0;
    while stage != MigrationStage::Done {
        let c = match migration_probe(stage) {
            Some(q) => count(&q),
            None => 0,
        };
        let (action, next) = migration_step(stage, c);
        if let Some(a) = action {
            applied.push(a);
        }
        stage = next;
        steps += 1;
        assert!(steps <= 20);
    }
    applied
}

#[test]
fn migrations_rerun_on_migrated_database_only_runs_initial_script() {
    let applied = run(|q| if q.contains("typeof(byte_size)") { 0 } else { 1 });
    assert_eq!(applied, vec![MigrationAction::InitialSchema]);
}

#[test]
fn migrations_on_fresh_database_apply_every_missing_change() {
    // Nothing found: every change is applied; no table exists for the locale stages to touch.
    let applied = run(|_| 0);
    assert_eq!(
        applied,
        vec![
            MigrationAction::InitialSchema,
            MigrationAction::UserNote,
            MigrationAction::ChatMessages,
            MigrationAction::DigestFields,
            MigrationAction::AttentionInsights,
            MigrationAction::SummaryColumn,
            MigrationAction::TagsColumn,
            MigrationAction::DigestColumn,
            MigrationAction::WikiTables,
            MigrationAction::WikiHashColumns,
            MigrationAction::ChatSessions,
            MigrationAction::SourceMessageId,
            MigrationAction::CleanContentColumn,
            MigrationAction::ContentLocale,
            MigrationAction::AttentionBatchCache,
            MigrationAction::ContentConceptCandidates,
        ]
    );
}

#[test]
fn migrations_add_locales_to_existing_tables_and_repair_sizes() {
    let applied = run(|q| {
        if q.contains("name='locale'") {
            0
        } else if q.contains("weekly_reports") {
            0
        } else if q.contains("typeof(byte_size)") {
            3
        } else {
            1
        }
    });
    assert_eq!(
        applied,
        vec![
            MigrationAction::InitialSchema,
            MigrationAction::ContentLocale,
            MigrationAction::InsightsLocale,
            MigrationAction::WikiLocale,
            MigrationAction::ByteSizeRepair,
        ]
    );
}

#[test]
fn migration_probe_and_sql_texts() {
    assert_eq!(migration_probe(MigrationStage::Initial), None);
    assert_eq!(migration_probe(MigrationStage::Done), None);
    assert_eq!(
        migration_probe(MigrationStage::SummaryColumn).unwrap(),
        "SELECT COUNT(*) FROM pragma_table_info('captured_content') WHERE name='summary'"
    );
    match migration_sql(MigrationAction::InitialSchema) {
        MigrationSql::ScriptFile(f) => assert_eq!(f, "001_initial.sql"),
        MigrationSql::Statements(_) => panic!("expected a script"),
    }
    match migration_sql(MigrationAction::TagsColumn) {
        MigrationSql::Statements(s) => {
            assert_eq!(s, "ALTER TABLE captured_content ADD COLUMN tags TEXT;")
        }
        MigrationSql::ScriptFile(_) => panic!("expected statements"),
    }
    // A negative count (never returned by COUNT(*)) counts as nothing found.
    assert_eq!(
        migration_step(MigrationStage::UserNote, -1),
        (Some(MigrationAction::UserNote), MigrationStage::ChatMessages)
    );
    assert_eq!(
        migration_step(MigrationStage::ContentLocale, 1),
        (None, MigrationStage::AttentionBatchCache)
    );
}

#[test]
fn only_optional_table_probes_may_fail() {
    assert!(probe_failure_tolerated(MigrationStage::ReportsLocale));
    assert!(probe_failure_tolerated(MigrationStage::WikiLocale));
    assert!(!probe_failure_tolerated(MigrationStage::UserNote));
    assert!(!probe_failure_tolerated(MigrationStage::ByteSizeRepair));
}
