//! Verified core of a typst compilation worker: templates and preludes, the
//! NDJSON request/response protocol, diagnostics and page limits, stitching
//! of rendered pages, bilingual messages, and the decisions of the worker,
//! interactive and pipe modes.
//!
//! Modules (lower layers first):
//! - [`text`] — character-sequence vocabulary and helpers
//! - [`i18n`], [`strings`] — language selection and localized text
//! - [`template`] — prelude / template wrapping
//! - [`render`] — errors, diagnostics, limits, stitching
//! - [`protocol`] — NDJSON worker wire format
//! - [`session`] — per-mode decisions
//! - [`packages`] — package path rules
pub mod text;
pub mod i18n;
pub mod strings;
pub mod template;
pub mod render;
pub mod protocol;
pub mod session;
pub mod packages;
