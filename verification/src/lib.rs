//! Interface state of the r105 terminal client.

pub mod approvals;
pub mod areas;
pub mod blocks;
pub mod cards;
pub mod caret;
pub mod catalog;
pub mod choices;
pub mod commands;
pub mod composer;
pub mod decisions;
pub mod desk;
pub mod dispatch;
pub mod effects;
pub mod events;
pub mod files;
pub mod filters;
pub mod focus;
pub mod frames;
pub mod ghost;
pub mod idmap;
pub mod inbox;
pub mod input;
pub mod json;
pub mod keys;
pub mod laws_commands;
pub mod laws_desk;
pub mod laws_details;
pub mod laws_drafts;
pub mod laws_reports;
pub mod laws_rounds;
pub mod laws_screen;
pub mod laws_sessions;
pub mod laws_drawing;
pub mod laws_prompts;
pub mod laws_text;
pub mod laws_window;
pub mod layout;
pub mod listing;
pub mod live;
pub mod menus;
pub mod model;
pub mod mouse;
pub mod numbers;
pub mod outcomes;
pub mod outside;
pub mod overlays;
pub mod paint;
pub mod palette;
pub mod pane;
pub mod panels;
pub mod paths;
pub mod pattern;
pub mod pointer;
pub mod render;
pub mod replies;
pub mod reports;
pub mod requests;
pub mod run;
pub mod scan;
pub mod search;
pub mod sessions;
pub mod settings;
pub mod shell;
pub mod sidebar;
pub mod skills;
pub mod syntax;
pub mod tabbing;
pub mod tabs;
pub mod text;
pub mod transcript;
pub mod window;
pub mod words;
