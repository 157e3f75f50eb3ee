//! The core of a small item-management form: field validation, identifier
//! generation, and the state machines of the edit dialog and the item list.

pub mod input;
pub mod item;
pub mod list;
pub mod modal;
pub mod model;
pub mod number;
pub mod text;
