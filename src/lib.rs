//! A retained-mode widget toolkit for targets without a heap-backed
//! standard library: widgets live in a fixed-capacity arena, composite
//! widgets refer to their children by id, and a closed set of widget kinds
//! is dispatched by an exhaustive match.

pub mod geometry;
pub mod flex;
pub mod argvalue;
pub mod context;
pub mod label;
pub mod event;
pub mod button;
pub mod padding;
pub mod align;
pub mod widgetbox;
pub mod layout;
pub mod dispatch;
pub mod paint;
pub mod shell;
pub mod window;
pub mod windowbox;
pub mod win_handler;
pub mod app;
