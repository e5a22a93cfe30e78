//! Verified core logic of the riiman image-vault browser: keyboard list
//! navigation, search-word completion, thumbnail selection and caching, tag
//! trees and tag finding, tag and item editing, the main window's reaction
//! to finished tasks, dialog state and form validation. The laws that relate
//! several operations are in `laws`.

pub mod delete_def;
pub mod download;
pub mod edit_tag;
pub mod find_tag;
pub mod fmt;
pub mod image_form;
pub mod forms;
pub mod input;
pub mod item_cache;
pub mod item_panel;
pub mod laws;
pub mod link_vault;
pub mod list_edit;
pub mod main_window;
pub mod message;
pub mod query;
pub mod search;
pub mod shortcuts;
pub mod tag;
pub mod tag_tree;
pub mod thumb_cache;
pub mod thumb_grid;
pub mod transform;
pub mod transform_results;
pub mod value_edit;
pub mod vaults;
pub mod text;
pub mod text_edit;
