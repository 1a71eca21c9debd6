//! A linter for changelogs: parses a changelog into releases, change types
//! and entries, checks every line against a configured house style and
//! renders the corrected document.

pub mod add;
pub mod change_type;
pub mod change_type_laws;
pub mod changelog;
pub mod check_diff;
pub mod cli;
pub mod cli_config;
pub mod common;
pub mod config;
pub mod create_pr;
pub mod diff_prompt;
pub mod entry;
pub mod entry_laws;
pub mod errors;
pub mod escapes;
pub mod fix_laws;
pub mod get;
pub mod git;
pub mod github;
pub mod init;
pub mod inputs;
pub mod lint;
pub mod multi_file;
pub mod pattern;
pub mod release;
pub mod release_cli;
pub mod release_laws;
pub mod render_laws;
pub mod scan_laws;
pub mod settle_laws;
pub mod text;
pub mod text_laws;
pub mod version;
