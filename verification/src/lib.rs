//! Verified core of a hardware test orchestration engine: phases of a test
//! procedure become jobs, jobs are scheduled onto workers, and each finished
//! job is turned into an outcome and a next action.

pub mod ids;
pub mod job;
pub mod worker_state;
pub mod schema;
pub mod string_map;
pub mod id_map;
pub mod text;
pub mod pattern;
pub mod unit;
pub mod ui;
pub mod measurements;
pub mod completion;
pub mod state;
pub mod ui_conversion;
pub mod planning;
pub mod statistics;
pub mod unit_merge;
pub mod phase_run;
pub mod run_setup;
pub mod cli_text;
pub mod report;
pub mod protocol;
pub mod constants;
pub mod run_loop;
pub mod shutdown;
pub mod scheduling;
pub mod procedure_check;
pub mod shell;
pub mod plugs;
pub mod attempts;
