//! The view and coordinate model of a binary-blob visualizer.
//!
//! A buffer is drawn as columns of pixels. This crate holds what such a
//! visualizer computes: where a byte is drawn and which byte a pixel shows,
//! how the buffer folds into texture rows, what keys and the pointer do to
//! the view and the selection, and which spans of the buffer hold C strings.
//! It opens no window and draws nothing, and it holds no floating point:
//! zoom and pan stay with the caller, who hands in logical pixels.

pub mod annotation;
pub mod cstring;
pub mod drag;
pub mod mapper;
pub mod overlay;
pub mod tiling;
pub mod view;
pub mod viz;
