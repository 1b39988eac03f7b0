//! Compiler and matcher for the CSS value definition syntax: grammar strings
//! such as `auto | <length> | [ left | right ] <percentage>?` are compiled
//! into a component tree, and flat sequences of CSS value tokens are matched
//! against that tree.  A small property-definition registry compiles and
//! caches one grammar per CSS property.  A few supporting HTML document
//! structures (node arena, element classes, parse-error log) live beside it.

pub mod arena;
pub mod colors;
pub mod compiler;
pub mod definitions;
pub mod dom;
pub mod element_class;
pub mod errors;
pub mod error_logger;
pub mod grammar_spec;
pub mod location;
pub mod match_spec;
pub mod matcher;
pub mod strings;
pub mod syntax;
pub mod values;
