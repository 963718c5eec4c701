//! A small terminal user interface toolkit: screen geometry, styling escape
//! codes, a text framebuffer and a handful of stateful widgets.
use vstd::prelude::*;

pub mod layout;
pub mod chars;
pub mod extensions;
pub mod style;
pub mod scroll;
pub mod text;
pub mod term;
pub mod block;
pub mod input;
pub mod list;
pub mod prompt;
pub mod editor;
pub mod tag_list;
pub mod image;
pub mod pages;

verus! {
}
