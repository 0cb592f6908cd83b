//! Verified core of a terminal RSS reader: text wrapping, row layout, configuration parsing
//! and the small decision procedures of the user interface.

pub mod style;

pub mod unicode;
pub mod text_wrap;
pub mod wrap_laws;
pub mod wrap_fit_laws;
pub mod wrap_style_laws;
pub mod content_layout;
pub mod layout_laws;
pub mod lex_ordering;
pub mod config;
pub mod key_bindings;
pub mod config_defaults;
pub mod feed_order;
pub mod behaviour_laws;
pub mod dimension;
pub mod base16_theme;
pub mod mouse;
pub mod filter_state;
pub mod utils;
pub mod article_table;
pub mod article_cells;
pub mod app_logic;
pub mod notify;
pub mod content_images;
pub mod content_image_laws;
pub mod article_content_logic;
pub mod image_url;
pub mod extraction;
pub mod lex_laws;
pub mod markdown_hooks;
pub mod ui_logic;
pub mod content_view;
pub mod markdown;
pub mod service;
pub mod app_laws;
pub mod collapse_laws;
