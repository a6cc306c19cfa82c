//! Release automation core: versions, changelogs, release order and git host links.
#![allow(unused_imports)]

pub mod backend;
pub mod cargo;
pub mod changelog_header;
pub mod clone;
pub mod command;
pub mod changelog;
pub mod changelog_filler;
pub mod changelog_parser;
pub mod contributors;
pub mod diff;
pub mod download;
pub mod git;
pub mod lock_compare;
pub mod github_client;
pub mod next_ver;
pub mod order;
pub mod overrides;
pub mod package_compare;
pub mod package;
pub mod package_path;
pub mod pr;
pub mod pr_parser;
pub mod project;
pub mod published_packages;
pub mod regex_text;
pub mod release;
pub mod release_order;
pub mod semver_check;
pub mod repo_url;
pub mod repo_versions;
pub mod text;
pub mod update_request;
pub mod url_text;
pub mod version;

use vstd::prelude::*;

verus! {

} // verus!
