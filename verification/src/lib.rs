//! Navigation engine for browsing a hierarchical keyed tree: a cursor over
//! the current node, its children and the values of the selected child, with
//! per-node selection memory held in bounded recency caches.

pub mod app;
pub mod cache;
pub mod cursor;
pub mod focus;
pub mod inspect;
pub mod key_selector;
pub mod layout;
pub mod handler;
pub mod navigation;
pub mod node;
pub mod order;
pub mod selection;
pub mod sort;
pub mod text;
pub mod theorems;
