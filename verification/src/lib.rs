//! Verified core of the OpenWiki capture and knowledge-base logic: text extraction from
//! fetched pages, capture de-duplication, tag and slug handling, wiki-link resolution,
//! attention-radar sampling and the Markdown written into the user's workspace.

#![allow(unused_imports)]

pub mod text;
pub mod order;
pub mod fragments;
pub mod reader;
pub mod models;
pub mod wiki_engine;
pub mod local_wiki;
pub mod attention;
pub mod detector;
pub mod whats_new;
pub mod workspace;
pub mod preferences;
pub mod local_sync;
pub mod patterns;
pub mod youtube;
pub mod metadata;
pub mod query_terms;
pub mod html_text;
pub mod page_reads;
pub mod migrations;
pub mod bubble;
pub mod qa;
pub mod compile_steps;
pub mod wiki_batch;
pub mod page_ranking;
pub mod translation;
pub mod api_replies;
