//! Bringing the database schema up to date at startup. The initial schema script always runs;
//! after it, each later change is applied only when a probe of the schema shows that it is
//! missing, so running the migrations again on an up-to-date database applies nothing after
//! the initial script. The last stage repairs byte sizes that were stored as text.
//!
//! The library decides, stage by stage, which count query to run and what to apply for its
//! answer; the caller runs the queries and statements against the connection.

use vstd::prelude::*;
use crate::text::opt_string;

verus! {

/// A stage of the migration run, in the order in which they are taken.
#[derive(Clone, Copy, Debug, PartialEq, Eq, Structural)]
pub enum MigrationStage {
    Initial,
    UserNote,
    ChatMessages,
    DigestFields,
    AttentionInsights,
    SummaryColumn,
    TagsColumn,
    DigestColumn,
    WikiTables,
    WikiHashColumns,
    ChatSessions,
    SourceMessageId,
    CleanContentColumn,
    ContentLocale,
    ReportsLocale,
    InsightsLocale,
    WikiLocale,
    AttentionBatchCache,
    ContentConceptCandidates,
    ByteSizeRepair,
    Done,
}

/// A change applied to the schema or its rows.
#[derive(Clone, Copy, Debug, PartialEq, Eq, Structural)]
pub enum MigrationAction {
    InitialSchema,
    UserNote,
    ChatMessages,
    DigestFields,
    AttentionInsights,
    SummaryColumn,
    TagsColumn,
    DigestColumn,
    WikiTables,
    WikiHashColumns,
    ChatSessions,
    SourceMessageId,
    CleanContentColumn,
    ContentLocale,
    ReportsLocale,
    InsightsLocale,
    WikiLocale,
    AttentionBatchCache,
    ContentConceptCandidates,
    ByteSizeRepair,
}

/// How an action is carried out: by running a script file shipped with the application, or by
/// executing the statements given.
pub enum MigrationSql {
    ScriptFile(String),
    Statements(String),
}

/// The count query asked at a stage; the stage and the final stage ask none.
pub open spec fn probe_sql(s: MigrationStage) -> Option<Seq<char>> {
    match s {
        MigrationStage::Initial => None,
        MigrationStage::UserNote => Some(
            "SELECT COUNT(*) FROM pragma_table_info('captured_content') WHERE name = 'user_note'"@,
        ),
        MigrationStage::ChatMessages => Some(
            "SELECT COUNT(*) FROM sqlite_master WHERE type='table' AND name='chat_messages'"@,
        ),
        MigrationStage::DigestFields => Some(
            "SELECT COUNT(*) FROM pragma_table_info('captured_content') WHERE name = 'digested_at'"@,
        ),
        MigrationStage::AttentionInsights => Some(
            "SELECT COUNT(*) FROM sqlite_master WHERE type='table' AND name='attention_insights'"@,
        ),
        MigrationStage::SummaryColumn => Some(
            "SELECT COUNT(*) FROM pragma_table_info('captured_content') WHERE name='summary'"@,
        ),
        MigrationStage::TagsColumn => Some(
            "SELECT COUNT(*) FROM pragma_table_info('captured_content') WHERE name='tags'"@,
        ),
        MigrationStage::DigestColumn => Some(
            "SELECT COUNT(*) FROM pragma_table_info('captured_content') WHERE name='digest'"@,
        ),
        MigrationStage::WikiTables => Some(
            "SELECT COUNT(*) FROM sqlite_master WHERE type='table' AND name='wiki_pages'"@,
        ),
        MigrationStage::WikiHashColumns => Some(
            "SELECT COUNT(*) FROM pragma_table_info('captured_content') WHERE name='wiki_compile_hash'"@,
        ),
        MigrationStage::ChatSessions => Some(
            "SELECT COUNT(*) FROM sqlite_master WHERE type='table' AND name='wiki_chat_sessions'"@,
        ),
        MigrationStage::SourceMessageId => Some(
            "SELECT COUNT(*) FROM pragma_table_info('wiki_pages') WHERE name='source_message_id'"@,
        ),
        MigrationStage::CleanContentColumn => Some(
            "SELECT COUNT(*) FROM pragma_table_info('captured_content') WHERE name='clean_content'"@,
        ),
        MigrationStage::ContentLocale => Some(
            "SELECT COUNT(*) FROM pragma_table_info('captured_content') WHERE name='locale'"@,
        ),
        MigrationStage::ReportsLocale => Some(
            "SELECT COUNT(*) FROM sqlite_master WHERE type='table' AND name='weekly_reports'"@,
        ),
        MigrationStage::InsightsLocale => Some(
            "SELECT COUNT(*) FROM sqlite_master WHERE type='table' AND name='attention_insights'"@,
        ),
        MigrationStage::WikiLocale => Some(
            "SELECT COUNT(*) FROM sqlite_master WHERE type='table' AND name='wiki_pages'"@,
        ),
        MigrationStage::AttentionBatchCache => Some(
            "SELECT COUNT(*) FROM sqlite_master WHERE type='table' AND name='attention_batch_cache'"@,
        ),
        MigrationStage::ContentConceptCandidates => Some(
            "SELECT COUNT(*) FROM sqlite_master WHERE type='table' AND name='content_concept_candidates'"@,
        ),
        MigrationStage::ByteSizeRepair => Some(
            "SELECT COUNT(*) FROM captured_content WHERE typeof(byte_size) = 'text'"@,
        ),
        MigrationStage::Done => None,
    }
}

/// What a stage applies and where the run goes next, given whether its count query found
/// anything. A change is applied when the object it adds is missing; the locale of a table is
/// added when the table exists; the byte sizes are repaired when malformed ones were found.
/// When the content locale is present, the stages that add the other locales are skipped.
pub open spec fn stage_step(s: MigrationStage, found: bool) -> (
    Option<MigrationAction>,
    MigrationStage,
) {
    let missing = |a: MigrationAction|
        if found {
            None
        } else {
            Some(a)
        };
    let present = |a: MigrationAction|
        if found {
            Some(a)
        } else {
            None
        };
    match s {
        MigrationStage::Initial => (Some(MigrationAction::InitialSchema), MigrationStage::UserNote),
        MigrationStage::UserNote => (missing(MigrationAction::UserNote), MigrationStage::ChatMessages),
        MigrationStage::ChatMessages => (
            missing(MigrationAction::ChatMessages),
            MigrationStage::DigestFields,
        ),
        MigrationStage::DigestFields => (
            missing(MigrationAction::DigestFields),
            MigrationStage::AttentionInsights,
        ),
        MigrationStage::AttentionInsights => (
            missing(MigrationAction::AttentionInsights),
            MigrationStage::SummaryColumn,
        ),
        MigrationStage::SummaryColumn => (
            missing(MigrationAction::SummaryColumn),
            MigrationStage::TagsColumn,
        ),
        MigrationStage::TagsColumn => (
            missing(MigrationAction::TagsColumn),
            MigrationStage::DigestColumn,
        ),
        MigrationStage::DigestColumn => (
            missing(MigrationAction::DigestColumn),
            MigrationStage::WikiTables,
        ),
        MigrationStage::WikiTables => (
            missing(MigrationAction::WikiTables),
            MigrationStage::WikiHashColumns,
        ),
        MigrationStage::WikiHashColumns => (
            missing(MigrationAction::WikiHashColumns),
            MigrationStage::ChatSessions,
        ),
        MigrationStage::ChatSessions => (
            missing(MigrationAction::ChatSessions),
            MigrationStage::SourceMessageId,
        ),
        MigrationStage::SourceMessageId => (
            missing(MigrationAction::SourceMessageId),
            MigrationStage::CleanContentColumn,
        ),
        MigrationStage::CleanContentColumn => (
            missing(MigrationAction::CleanContentColumn),
            MigrationStage::ContentLocale,
        ),
        MigrationStage::ContentLocale => if found {
            (None, MigrationStage::AttentionBatchCache)
        } else {
            (Some(MigrationAction::ContentLocale), MigrationStage::ReportsLocale)
        },
        MigrationStage::ReportsLocale => (
            present(MigrationAction::ReportsLocale),
            MigrationStage::InsightsLocale,
        ),
        MigrationStage::InsightsLocale => (
            present(MigrationAction::InsightsLocale),
            MigrationStage::WikiLocale,
        ),
        MigrationStage::WikiLocale => (
            present(MigrationAction::WikiLocale),
            MigrationStage::AttentionBatchCache,
        ),
        MigrationStage::AttentionBatchCache => (
            missing(MigrationAction::AttentionBatchCache),
            MigrationStage::ContentConceptCandidates,
        ),
        MigrationStage::ContentConceptCandidates => (
            missing(MigrationAction::ContentConceptCandidates),
            MigrationStage::ByteSizeRepair,
        ),
        MigrationStage::ByteSizeRepair => (
            present(MigrationAction::ByteSizeRepair),
            MigrationStage::Done,
        ),
        MigrationStage::Done => (None, MigrationStage::Done),
    }
}

/// How an action is carried out: `(true, file name)` for a script, `(false, statements)`
/// otherwise.
pub open spec fn action_sql(a: MigrationAction) -> (bool, Seq<char>) {
    match a {
        MigrationAction::InitialSchema => (true, "001_initial.sql"@),
        MigrationAction::UserNote => (true, "002_add_user_note.sql"@),
        MigrationAction::ChatMessages => (true, "003_add_chat_messages.sql"@),
        MigrationAction::DigestFields => (true, "004_add_digest_fields.sql"@),
        MigrationAction::AttentionInsights => (true, "005_add_attention_insights.sql"@),
        MigrationAction::SummaryColumn => (
            false,
            "ALTER TABLE captured_content ADD COLUMN summary TEXT;"@,
        ),
        MigrationAction::TagsColumn => (false, "ALTER TABLE captured_content ADD COLUMN tags TEXT;"@),
        MigrationAction::DigestColumn => (
            false,
            "ALTER TABLE captured_content ADD COLUMN digest TEXT;"@,
        ),
        MigrationAction::WikiTables => (true, "008_add_wiki.sql"@),
        MigrationAction::WikiHashColumns => (
            false,
            "ALTER TABLE captured_content ADD COLUMN wiki_compile_hash TEXT;\nALTER TABLE captured_content ADD COLUMN wiki_assessed_hash TEXT;"@,
        ),
        MigrationAction::ChatSessions => (true, "010_add_chat_tables.sql"@),
        MigrationAction::SourceMessageId => (true, "011_add_source_message_id.sql"@),
        MigrationAction::CleanContentColumn => (
            false,
            "ALTER TABLE captured_content ADD COLUMN clean_content TEXT;"@,
        ),
        MigrationAction::ContentLocale => (
            false,
            "ALTER TABLE captured_content ADD COLUMN locale TEXT NOT NULL DEFAULT 'zh-CN';"@,
        ),
        MigrationAction::ReportsLocale => (
            false,
            "ALTER TABLE weekly_reports ADD COLUMN locale TEXT NOT NULL DEFAULT 'zh-CN';"@,
        ),
        MigrationAction::InsightsLocale => (
            false,
            "ALTER TABLE attention_insights ADD COLUMN locale TEXT NOT NULL DEFAULT 'zh-CN';"@,
        ),
        MigrationAction::WikiLocale => (
            false,
            "ALTER TABLE wiki_pages ADD COLUMN locale TEXT NOT NULL DEFAULT 'zh-CN';"@,
        ),
        MigrationAction::AttentionBatchCache => (true, "014_add_attention_batch_cache.sql"@),
        MigrationAction::ContentConceptCandidates => (
            true,
            "015_add_content_concept_candidates.sql"@,
        ),
        MigrationAction::ByteSizeRepair => (
            false,
            "UPDATE captured_content SET byte_size = LENGTH(COALESCE(raw_text, '')) WHERE typeof(byte_size) = 'text'"@,
        ),
    }
}

pub open spec fn sql_view(m: MigrationSql) -> (bool, Seq<char>) {
    match m {
        MigrationSql::ScriptFile(f) => (true, f@),
        MigrationSql::Statements(s) => (false, s@),
    }
}

/// The count query to run before deciding at `stage`, if it asks one.
pub fn migration_probe(stage: MigrationStage) -> (r: Option<String>)
    ensures
        opt_string(r) == probe_sql(stage),
{
    let q: &str = match stage {
        MigrationStage::Initial => {
            return None;
        },
        MigrationStage::UserNote => "SELECT COUNT(*) FROM pragma_table_info('captured_content') WHERE name = 'user_note'",
        MigrationStage::ChatMessages => "SELECT COUNT(*) FROM sqlite_master WHERE type='table' AND name='chat_messages'",
        MigrationStage::DigestFields => "SELECT COUNT(*) FROM pragma_table_info('captured_content') WHERE name = 'digested_at'",
        MigrationStage::AttentionInsights => "SELECT COUNT(*) FROM sqlite_master WHERE type='table' AND name='attention_insights'",
        MigrationStage::SummaryColumn => "SELECT COUNT(*) FROM pragma_table_info('captured_content') WHERE name='summary'",
        MigrationStage::TagsColumn => "SELECT COUNT(*) FROM pragma_table_info('captured_content') WHERE name='tags'",
        MigrationStage::DigestColumn => "SELECT COUNT(*) FROM pragma_table_info('captured_content') WHERE name='digest'",
        MigrationStage::WikiTables => "SELECT COUNT(*) FROM sqlite_master WHERE type='table' AND name='wiki_pages'",
        MigrationStage::WikiHashColumns => "SELECT COUNT(*) FROM pragma_table_info('captured_content') WHERE name='wiki_compile_hash'",
        MigrationStage::ChatSessions => "SELECT COUNT(*) FROM sqlite_master WHERE type='table' AND name='wiki_chat_sessions'",
        MigrationStage::SourceMessageId => "SELECT COUNT(*) FROM pragma_table_info('wiki_pages') WHERE name='source_message_id'",
        MigrationStage::CleanContentColumn => "SELECT COUNT(*) FROM pragma_table_info('captured_content') WHERE name='clean_content'",
        MigrationStage::ContentLocale => "SELECT COUNT(*) FROM pragma_table_info('captured_content') WHERE name='locale'",
        MigrationStage::ReportsLocale => "SELECT COUNT(*) FROM sqlite_master WHERE type='table' AND name='weekly_reports'",
        MigrationStage::InsightsLocale => "SELECT COUNT(*) FROM sqlite_master WHERE type='table' AND name='attention_insights'",
        MigrationStage::WikiLocale => "SELECT COUNT(*) FROM sqlite_master WHERE type='table' AND name='wiki_pages'",
        MigrationStage::AttentionBatchCache => "SELECT COUNT(*) FROM sqlite_master WHERE type='table' AND name='attention_batch_cache'",
        MigrationStage::ContentConceptCandidates => "SELECT COUNT(*) FROM sqlite_master WHERE type='table' AND name='content_concept_candidates'",
        MigrationStage::ByteSizeRepair => "SELECT COUNT(*) FROM captured_content WHERE typeof(byte_size) = 'text'",
        MigrationStage::Done => {
            return None;
        },
    };
    Some(q.to_owned())
}

/// Whether the run goes on, as if nothing was found, when a stage's count query cannot even be
/// prepared: only for the tables whose locale column is added. At the other stages that stops
/// the run with the error.
pub fn probe_failure_tolerated(stage: MigrationStage) -> (r: bool)
    ensures
        r == (stage is ReportsLocale || stage is InsightsLocale || stage is WikiLocale),
{
    match stage {
        MigrationStage::ReportsLocale | MigrationStage::InsightsLocale | MigrationStage::WikiLocale => true,
        _ => false,
    }
}

/// Decides a stage from the count its query returned (zero when the query failed): what to
/// apply, if anything, and the next stage.
pub fn migration_step(stage: MigrationStage, count: i64) -> (r: (
    Option<MigrationAction>,
    MigrationStage,
))
    ensures
        r == stage_step(stage, count > 0),
{
    let found = count > 0;
    let missing = |a: MigrationAction| -> (o: Option<MigrationAction>)
        ensures
            o == (if found {
                None
            } else {
                Some(a)
            }),
        {
            if found {
                None
            } else {
                Some(a)
            }
        };
    let present = |a: MigrationAction| -> (o: Option<MigrationAction>)
        ensures
            o == (if found {
                Some(a)
            } else {
                None
            }),
        {
            if found {
                Some(a)
            } else {
                None
            }
        };
    match stage {
        MigrationStage::Initial => (Some(MigrationAction::InitialSchema), MigrationStage::UserNote),
        MigrationStage::UserNote => (missing(MigrationAction::UserNote), MigrationStage::ChatMessages),
        MigrationStage::ChatMessages => (
            missing(MigrationAction::ChatMessages),
            MigrationStage::DigestFields,
        ),
        MigrationStage::DigestFields => (
            missing(MigrationAction::DigestFields),
            MigrationStage::AttentionInsights,
        ),
        MigrationStage::AttentionInsights => (
            missing(MigrationAction::AttentionInsights),
            MigrationStage::SummaryColumn,
        ),
        MigrationStage::SummaryColumn => (
            missing(MigrationAction::SummaryColumn),
            MigrationStage::TagsColumn,
        ),
        MigrationStage::TagsColumn => (
            missing(MigrationAction::TagsColumn),
            MigrationStage::DigestColumn,
        ),
        MigrationStage::DigestColumn => (
            missing(MigrationAction::DigestColumn),
            MigrationStage::WikiTables,
        ),
        MigrationStage::WikiTables => (
            missing(MigrationAction::WikiTables),
            MigrationStage::WikiHashColumns,
        ),
        MigrationStage::WikiHashColumns => (
            missing(MigrationAction::WikiHashColumns),
            MigrationStage::ChatSessions,
        ),
        MigrationStage::ChatSessions => (
            missing(MigrationAction::ChatSessions),
            MigrationStage::SourceMessageId,
        ),
        MigrationStage::SourceMessageId => (
            missing(MigrationAction::SourceMessageId),
            MigrationStage::CleanContentColumn,
        ),
        MigrationStage::CleanContentColumn => (
            missing(MigrationAction::CleanContentColumn),
            MigrationStage::ContentLocale,
        ),
        MigrationStage::ContentLocale => if found {
            (None, MigrationStage::AttentionBatchCache)
        } else {
            (Some(MigrationAction::ContentLocale), MigrationStage::ReportsLocale)
        },
        MigrationStage::ReportsLocale => (
            present(MigrationAction::ReportsLocale),
            MigrationStage::InsightsLocale,
        ),
        MigrationStage::InsightsLocale => (
            present(MigrationAction::InsightsLocale),
            MigrationStage::WikiLocale,
        ),
        MigrationStage::WikiLocale => (
            present(MigrationAction::WikiLocale),
            MigrationStage::AttentionBatchCache,
        ),
        MigrationStage::AttentionBatchCache => (
            missing(MigrationAction::AttentionBatchCache),
            MigrationStage::ContentConceptCandidates,
        ),
        MigrationStage::ContentConceptCandidates => (
            missing(MigrationAction::ContentConceptCandidates),
            MigrationStage::ByteSizeRepair,
        ),
        MigrationStage::ByteSizeRepair => (
            present(MigrationAction::ByteSizeRepair),
            MigrationStage::Done,
        ),
        MigrationStage::Done => (None, MigrationStage::Done),
    }
}

/// The script file to run, or the statements to execute, for an action.
pub fn migration_sql(action: MigrationAction) -> (r: MigrationSql)
    ensures
        sql_view(r) == action_sql(action),
{
    match action {
        MigrationAction::InitialSchema => MigrationSql::ScriptFile("001_initial.sql".to_owned()),
        MigrationAction::UserNote => MigrationSql::ScriptFile("002_add_user_note.sql".to_owned()),
        MigrationAction::ChatMessages => MigrationSql::ScriptFile(
            "003_add_chat_messages.sql".to_owned(),
        ),
        MigrationAction::DigestFields => MigrationSql::ScriptFile(
            "004_add_digest_fields.sql".to_owned(),
        ),
        MigrationAction::AttentionInsights => MigrationSql::ScriptFile(
            "005_add_attention_insights.sql".to_owned(),
        ),
        MigrationAction::SummaryColumn => MigrationSql::Statements(
            "ALTER TABLE captured_content ADD COLUMN summary TEXT;".to_owned(),
        ),
        MigrationAction::TagsColumn => MigrationSql::Statements(
            "ALTER TABLE captured_content ADD COLUMN tags TEXT;".to_owned(),
        ),
        MigrationAction::DigestColumn => MigrationSql::Statements(
            "ALTER TABLE captured_content ADD COLUMN digest TEXT;".to_owned(),
        ),
        MigrationAction::WikiTables => MigrationSql::ScriptFile("008_add_wiki.sql".to_owned()),
        MigrationAction::WikiHashColumns => MigrationSql::Statements(
            "ALTER TABLE captured_content ADD COLUMN wiki_compile_hash TEXT;\nALTER TABLE captured_content ADD COLUMN wiki_assessed_hash TEXT;".to_owned(),
        ),
        MigrationAction::ChatSessions => MigrationSql::ScriptFile(
            "010_add_chat_tables.sql".to_owned(),
        ),
        MigrationAction::SourceMessageId => MigrationSql::ScriptFile(
            "011_add_source_message_id.sql".to_owned(),
        ),
        MigrationAction::CleanContentColumn => MigrationSql::Statements(
            "ALTER TABLE captured_content ADD COLUMN clean_content TEXT;".to_owned(),
        ),
        MigrationAction::ContentLocale => MigrationSql::Statements(
            "ALTER TABLE captured_content ADD COLUMN locale TEXT NOT NULL DEFAULT 'zh-CN';".to_owned(),
        ),
        MigrationAction::ReportsLocale => MigrationSql::Statements(
            "ALTER TABLE weekly_reports ADD COLUMN locale TEXT NOT NULL DEFAULT 'zh-CN';".to_owned(),
        ),
        MigrationAction::InsightsLocale => MigrationSql::Statements(
            "ALTER TABLE attention_insights ADD COLUMN locale TEXT NOT NULL DEFAULT 'zh-CN';".to_owned(),
        ),
        MigrationAction::WikiLocale => MigrationSql::Statements(
            "ALTER TABLE wiki_pages ADD COLUMN locale TEXT NOT NULL DEFAULT 'zh-CN';".to_owned(),
        ),
        MigrationAction::AttentionBatchCache => MigrationSql::ScriptFile(
            "014_add_attention_batch_cache.sql".to_owned(),
        ),
        MigrationAction::ContentConceptCandidates => MigrationSql::ScriptFile(
            "015_add_content_concept_candidates.sql".to_owned(),
        ),
        MigrationAction::ByteSizeRepair => MigrationSql::Statements(
            "UPDATE captured_content SET byte_size = LENGTH(COALESCE(raw_text, '')) WHERE typeof(byte_size) = 'text'".to_owned(),
        ),
    }
}

/// How many stages are left before the run is done.
pub open spec fn stages_left(s: MigrationStage) -> nat {
    match s {
        MigrationStage::Initial => 20,
        MigrationStage::UserNote => 19,
        MigrationStage::ChatMessages => 18,
        MigrationStage::DigestFields => 17,
        MigrationStage::AttentionInsights => 16,
        MigrationStage::SummaryColumn => 15,
        MigrationStage::TagsColumn => 14,
        MigrationStage::DigestColumn => 13,
        MigrationStage::WikiTables => 12,
        MigrationStage::WikiHashColumns => 11,
        MigrationStage::ChatSessions => 10,
        MigrationStage::SourceMessageId => 9,
        MigrationStage::CleanContentColumn => 8,
        MigrationStage::ContentLocale => 7,
        MigrationStage::ReportsLocale => 6,
        MigrationStage::InsightsLocale => 5,
        MigrationStage::WikiLocale => 4,
        MigrationStage::AttentionBatchCache => 3,
        MigrationStage::ContentConceptCandidates => 2,
        MigrationStage::ByteSizeRepair => 1,
        MigrationStage::Done => 0,
    }
}

/// The actions a run from stage `s` applies when every probe answers as `found` says.
pub open spec fn run_actions(s: MigrationStage, found: spec_fn(MigrationStage) -> bool) -> Seq<
    MigrationAction,
>
    decreases stages_left(s),
{
    if s is Done {
        Seq::empty()
    } else {
        let (a, next) = stage_step(s, found(s));
        if stages_left(next) < stages_left(s) {
            let rest = run_actions(next, found);
            match a {
                Some(x) => seq![x] + rest,
                None => rest,
            }
        } else {
            Seq::empty()
        }
    }
}

/// A database on which every migration has been applied: each object that a probe looks for
/// is there, and no byte size is stored as text.
pub open spec fn migrated_schema(s: MigrationStage) -> bool {
    !(s is ByteSizeRepair)
}

/// Every stage moves the run forward, so a run reaches `Done` after at most twenty steps.
pub proof fn law_migrations_progress(s: MigrationStage, found: bool)
    requires
        !(s is Done),
    ensures
        stages_left(stage_step(s, found).1) < stages_left(s),
{
}

proof fn lemma_migrated_run_is_empty(s: MigrationStage)
    requires
        !(s is Initial),
        !(s is ReportsLocale),
        !(s is InsightsLocale),
        !(s is WikiLocale),
    ensures
        run_actions(s, |t: MigrationStage| migrated_schema(t)) == Seq::<MigrationAction>::empty(),
    decreases stages_left(s),
{
    let f = |t: MigrationStage| migrated_schema(t);
    if !(s is Done) {
        let next = stage_step(s, f(s)).1;
        lemma_migrated_run_is_empty(next);
    }
}

/// Running the migrations again on a database that has them all applies nothing but the
/// initial script, which every run starts with: every later probe finds what it looks for.
pub proof fn law_migrations_rerun_changes_nothing()
    ensures
        run_actions(MigrationStage::Initial, |t: MigrationStage| migrated_schema(t)) == seq![
            MigrationAction::InitialSchema,
        ],
{
    lemma_migrated_run_is_empty(MigrationStage::UserNote);
    let f = |t: MigrationStage| migrated_schema(t);
    assert(run_actions(MigrationStage::Initial, f) == seq![MigrationAction::InitialSchema]
        + run_actions(MigrationStage::UserNote, f));
}

} // verus!
