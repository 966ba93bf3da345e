//! Verified core of the CPU affinity tool: launch rules, rule identities,
//! instance forwarding protocol, diagnostics parsing and monitor bookkeeping.

pub mod process;
pub mod process_tree;
pub mod text;
pub mod winpath;
pub mod ids;
pub mod models;
pub mod rules;
pub mod service;
pub mod catalog;
pub mod discovery;
pub mod preferences;
pub mod json;
pub mod powershell_json;
pub mod forwarding;
pub mod event_log;
pub mod ipc;
pub mod diagnostics;
pub mod monitor;
pub mod scheduling;
pub mod reconcile;
pub mod shell;
pub mod shortcut;
pub mod shortcut_file;
pub mod shortcut_flow;
pub mod launch;
pub mod correction;
pub mod event_scan;
pub mod rendered;
pub mod cmdline;
pub mod monitor_pass;
pub mod catalog_merge;
pub mod desktop_entry;
pub mod url_file;
pub mod build_contract;
pub mod linux_proc;
pub mod topology;
