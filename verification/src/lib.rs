//! Verified core of the GFlick mouse tools: parsing, formatting, preference
//! storage and the decisions of the agent, the command-line client, the probe,
//! the benchmark recorder and the settings application.
use vstd::prelude::*;

pub mod text;
pub mod int_parse;
pub mod protocol;
pub mod cli;
pub mod selector;
pub mod store;
pub mod keyed;
pub mod agent;
pub mod startup;
pub mod services;
pub mod probe;
pub mod bench;
pub mod live;
pub mod settings_form;
pub mod form_specs;
pub mod output;
pub mod restore;
pub mod apply;
pub mod ipc;
pub mod labels;
pub mod hid_listing;
pub mod tick;
pub mod snapshot;
pub mod cli_run;
pub mod transport;
pub mod sidebar;

verus! {

} // verus!
