//! NeXt markup: a small line-oriented plain-text markup language, and the
//! HTML that a document written in it stands for.

pub mod block;
pub mod emphasis;
pub mod emphasis_lemmas;
pub mod inline;
pub mod math;
pub mod math_lemmas;
pub mod page;
pub mod parser;
pub mod text;

pub use block::extract;
pub use inline::fmt;
pub use page::{compile_next_to_html, generate_template, template};
pub use parser::parse_next;
