//! The logic of a desktop database client: its sidebar tree, its tabs, its
//! sessions, its settings and the decisions its window makes.
pub mod absorbing;
pub mod answer_laws;
pub mod assets;
pub mod badge;
pub mod binary64;
pub mod browse_laws;
pub mod browsing;
pub mod button;
pub mod casing;
pub mod catalog;
pub mod catalog_laws;
pub mod choice_laws;
pub mod chrome;
pub mod clock;
pub mod closing_laws;
pub mod command_laws;
pub mod commands;
pub mod commit_laws;
pub mod connecting;
pub mod connecting_laws;
pub mod design_laws;
pub mod designing;
pub mod dragging;
pub mod drawing_laws;
pub mod driving;
pub mod elide;
pub mod event_laws;
pub mod events;
pub mod filter_laws;
pub mod flags;
pub mod folding;
pub mod following;
pub mod following_laws;
pub mod frame;
pub mod frame_laws;
pub mod fronting;
pub mod history;
pub mod icon;
pub mod id_laws;
pub mod ignored;
pub mod key_laws;
pub mod keys;
pub mod label;
pub mod launch;
pub mod list;
pub mod lists;
pub mod menu;
pub mod menu_laws;
pub mod menus;
pub mod naming;
pub mod naming_laws;
pub mod opening;
pub mod opening_laws;
pub mod operation_laws;
pub mod order;
pub mod outcome;
pub mod palette;
pub mod pane;
pub mod pane_laws;
pub mod picking_laws;
pub mod pinning_laws;
pub mod preferences;
pub mod reading_laws;
pub mod record;
pub mod refilter_laws;
pub mod reporting;
pub mod responding;
pub mod running;
pub mod running_laws;
pub mod saving;
pub mod saving_laws;
pub mod select;
pub mod session;
pub mod session_laws;
pub mod settings;
pub mod settings_pages;
pub mod settings_window;
pub mod sheet;
pub mod showing;
pub mod sidebar;
pub mod sidebar_face;
pub mod sidebar_laws;
pub mod sizes;
pub mod spinner;
pub mod starting_laws;
pub mod strip_laws;
pub mod structure;
pub mod structure_face;
pub mod structure_laws;
pub mod styled_ext;
pub mod tab;
pub mod tabbing;
pub mod tabs;
pub mod telling_laws;
pub mod text;
pub mod text_laws;
pub mod tint;
pub mod titlebar;
pub mod tree;
pub mod tree_laws;
pub mod typing_laws;
pub mod window;
pub mod window_laws;
pub mod wording;
pub mod wording_laws;
