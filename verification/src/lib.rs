//! Verified core of the maomi web framework: CSS token streams and their
//! writer, the style sheet language and its rules, DOM class lists and
//! attributes, prerendered HTML and its attaching to the DOM, the composing
//! of virtual nodes, tap recognition, templates and the code of their nodes,
//! components, the crate configuration and translations.
use vstd::prelude::*;

pub mod apply;
pub mod class_list;
pub mod component;
pub mod composing;
pub mod config;
pub mod css_token;
pub mod custom_attr;
pub mod element;
pub mod event;
pub mod i18n;
pub mod i18n_args;
pub mod i18n_format;
pub mod prerender;
pub mod style_items;
pub mod style_parse;
pub mod style_rules;
pub mod style_sheet;
pub mod template;
pub mod template_code;
pub mod template_node;
pub mod text;
pub mod token_parse;
pub mod values;
pub mod write_css;
