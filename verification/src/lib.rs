//! Core logic of the Glass browser, runtime and service hub, verified with Verus.

pub mod text;
pub mod string_map;
pub mod service_hub;
pub mod sorting;
pub mod paths;
pub mod app_runtime;
pub mod search;
pub mod history;
pub mod url_input;
pub mod text_input;
pub mod bookmarks;
pub mod services_page;
pub mod tab_strip;
pub mod omnibox;
pub mod display;
pub mod audio;
pub mod runtime_selection;
pub mod trimming;
pub mod new_tab_search;
pub mod asc_login;
pub mod downloads;
pub mod css_color;
pub mod asc_workspace;
pub mod laws;
