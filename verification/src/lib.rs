//! Core of a keyboard launcher for Windows: the application registry and its
//! scan merge, fuzzy and pinyin search with exact ranking, the built-in result
//! sources (calculator front end, system commands, web search), the result
//! list and its selection, the dynamic island's state machine, the search-box
//! text editor, hotkey and command-line parsing, environment synchronisation
//! and the configuration model.
//!
//! Everything here is verified; the windowing, drawing, operating-system
//! calls, file I/O and floating-point work live in the application around it.

pub mod text;
pub mod util;
pub mod fuzzy;
pub mod rank;
pub mod apps;
pub mod scanner;
pub mod search;
pub mod item;
pub mod provider;
pub mod listing;
pub mod calc;
pub mod config;
pub mod platform;
pub mod env;
pub mod hotkey;
pub mod launch;
pub mod cli;
pub mod edit;
pub mod island;
pub mod settings;
pub mod settings_data;
pub mod pages;
pub mod svg;
pub mod civil;
pub mod palette;
pub mod edits;
