//! Codex Shuttle: run a local desktop client against a remote host. The
//! library holds every decision that the programs make; what reads, writes
//! and waits stands around it.

pub mod archive;
pub mod archive_laws;
pub mod argument_laws;
pub mod arguments;
pub mod bridge;
pub mod bridge_laws;
pub mod digest;
pub mod doctor;
pub mod doctor_laws;
pub mod entries;
pub mod failure;
pub mod handshake;
pub mod install;
pub mod install_laws;
pub mod json;
pub mod json_laws;
pub mod jsonl;
pub mod jsonl_laws;
pub mod lifecycle;
pub mod mux;
pub mod option_laws;
pub mod path_probe;
pub mod probe;
pub mod profile;
pub mod profile_laws;
pub mod project_laws;
pub mod refusal_laws;
pub mod relay;
pub mod relay_laws;
pub mod relay_model;
pub mod relay_runs;
pub mod relay_safety;
pub mod rewriting_laws;
pub mod routing;
pub mod routing_laws;
pub mod runtime;
pub mod script_laws;
pub mod scripts;
pub mod session_laws;
pub mod sessions;
pub mod shell;
pub mod shim;
pub mod snapshot_laws;
pub mod ssh;
pub mod ssh_laws;
pub mod stream_laws;
pub mod text;
pub mod text_laws;
pub mod turn_laws;
pub mod waiting;
