//! Build-module logic for multi-platform projects: source scanning, hardware
//! abstraction layer (HAL) contracts, coverage, documentation, migration,
//! scaffolding and the decisions of the modify loops.

pub mod audit;
pub mod command;
pub mod contract;
pub mod coverage;
pub mod cpp;
pub mod docs;
pub mod generate;
pub mod go;
pub mod graph;
pub mod hash;
pub mod json;
pub mod laws;
pub mod laws_build;
pub mod laws_contract;
pub mod laws_coverage;
pub mod laws_generated;
pub mod laws_graph;
pub mod laws_hal;
pub mod laws_layout;
pub mod laws_lists;
pub mod laws_meson;
pub mod laws_migration;
pub mod laws_modify;
pub mod laws_rollback;
pub mod laws_scaffold;
pub mod laws_scope;
pub mod laws_sources;
pub mod laws_table;
pub mod laws_text;
pub mod laws_verdict;
pub mod make;
pub mod meson;
pub mod meson_hal;
pub mod meson_module;
pub mod meson_tools;
pub mod migration;
pub mod modify;
pub mod modify_code;
pub mod modify_contract;
pub mod node;
pub mod project;
pub mod python;
pub mod regexes;
pub mod report;
pub mod rp2040;
pub mod ruby;
pub mod rust_contract;
pub mod source;
pub mod spire_app_scaffold;
pub mod state;
pub mod syntax;
pub mod table;
pub mod text;
pub mod types;
