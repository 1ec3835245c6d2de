//! A terminal chat client's text grid, scroll state and widgets, with their
//! behaviour stated in contracts and proved.

pub mod binary64;
pub mod canvas;
pub mod clock;
pub mod components;
pub mod data;
pub mod frame;
pub mod keyed;
pub mod models;
pub mod order;
pub mod records;
pub mod style;
pub mod text;
pub mod util;
pub mod widgets;
