//! The logic of dat0's desktop interface: what its views compute, decide and
//! say, kept apart from the windowing that draws them.

pub mod text;
pub mod i18n;
pub mod paths;
pub mod a11y;
pub mod chrome;
pub mod import_wizard;
pub mod connections;
pub mod ai;
pub mod charts;
pub mod tsv;
pub mod clipboard;
pub mod scroll;
pub mod export_dialog;
pub mod name_prompt;
pub mod import_progress;
pub mod query_library;
pub mod live_refresh;
pub mod inspector;
pub mod banner;
pub mod filter_popover;
pub mod empty_state;
pub mod context_menu;
pub mod command_palette;
pub mod settings_ui;
pub mod shell;
pub mod ai_flow;
pub mod crash_report;
pub mod onboarding;
pub mod pipeline_bar;
pub mod cell_editor;
pub mod refresh;
pub mod about;
pub mod modals;
pub mod recovery;
pub mod dock;
pub mod edits;
pub mod perf_hud;
pub mod grid;
