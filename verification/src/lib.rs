//! Race-free, attack-resistant path resolution rooted at a directory.
//!
//! The library decides; a thin driver performs. Every operation is a small
//! state machine: it hands out the next directory-handle-relative system
//! call as a [`sys::Syscall`], is given the kernel's answer as a
//! [`sys::Reply`], and finishes with its result. Nothing in this crate
//! touches the kernel itself, so every decision of the resolver is verified
//! for every answer that a kernel, or an adversary racing it, can give.
//!
//! The operations:
//! - [`root`]: roots, and what can be done below them;
//! - [`resolver`], [`walk`], [`kernel`], [`symlink_stack`]: resolution;
//! - [`lookup`], [`entry`], [`mkdir_all`], [`remove_all`]: resolve, then
//!   act on a single name;
//! - [`handle`], [`flags`], [`path`], [`error`], [`step`], [`sys`]: what
//!   they are made of.
//!
//! What is proved of them beyond their contracts:
//! - [`handles`]: no handle is lost, and none is released twice;
//! - [`names`]: every call on a directory handle names a single component;
//! - [`measure`]: the symlink stack keeps step with the path;
//! - [`model`]: a model of the kernel, to say what the operations achieve;
//! - [`contained`]: what a resolution reaches lies within the root, and is
//!   a function of the tree;
//! - [`prefix`], [`effects`], [`idempotent`]: what was removed is gone, what
//!   was created is there, what was renamed has moved, and what `mkdir_all`
//!   has made it does not make again.

pub mod error;
pub mod sys;
pub mod flags;
pub mod path;
pub mod symlink_stack;
pub mod step;
pub mod handle;
pub mod walk;
pub mod kernel;
pub mod resolver;
pub mod root;
pub mod lookup;
pub mod entry;
pub mod mkdir_all;
pub mod remove_all;
pub mod model;
pub mod contained;
pub mod prefix;
pub mod effects;
pub mod idempotent;
pub mod measure;
pub mod handles;
pub mod names;
