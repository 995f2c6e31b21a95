//! The logic of a tiny cloud-init.
use vstd::prelude::*;

pub mod account_laws;
pub mod accounts;
pub mod apply;
pub mod apply_laws;
pub mod boot;
pub mod bytes;
pub mod bytes_laws;
pub mod cli;
pub mod config;
pub mod config_laws;
pub mod datasource;
pub mod datasource_laws;
pub mod disk_laws;
pub mod ec2;
pub mod ec2_laws;
pub mod effect;
pub mod file_laws;
pub mod gpt;
pub mod growpart;
pub mod growth_laws;
pub mod http;
pub mod http_laws;
pub mod image;
pub mod mbr;
pub mod number;
pub mod number_laws;
pub mod run_laws;
pub mod setup_laws;
pub mod ssh_keys;
pub mod steps;
pub mod target;
pub mod target_laws;
pub mod text;
pub mod text_laws;
pub mod user_laws;
pub mod view_laws;

verus! {

/// How to go about configuring an instance.
#[derive(Debug)]
pub struct Ctx {
    /// Whether to show what would be done instead of doing it.
    pub dry_run: bool,
    /// Where state is kept between boots.
    pub state_dir: String,
}

} // verus!
