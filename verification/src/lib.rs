//! The bitplane machine contract: plane ids, members, the two state files,
//! the error envelope and the decisions every verb makes about them.

pub mod text;
pub mod exit;
pub mod plane_id;
pub mod member;
pub mod error;
pub mod git;
pub mod outcome;
pub mod refusal;
pub mod wire;
pub mod toml;
pub mod plane_file;
pub mod scripts;
pub mod source;
pub mod project_file;
pub mod head;
pub mod health;
pub mod directories;
pub mod teardown;
pub mod plan;
pub mod plane_dir;
pub mod project_dir;
pub mod project_fetch;
pub mod interrupt;
pub mod render;
pub mod read;
pub mod project_add;
pub mod add;
pub mod order;
pub mod project_list;
pub mod create;
pub mod cli;
pub mod porcelain;
pub mod time;
