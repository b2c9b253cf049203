//! Small, independent building blocks: integer helpers and validated guesses,
//! line search over text, a restaurant's house modules, statistics and word
//! games over lists, a department roster, and a blog post's review workflow.
//! Every executable function carries a contract that Verus proves.

pub mod adder;
pub mod blog;
pub mod minigrep;
pub mod pig_latin;
pub mod restaurant;
pub mod roster;
pub mod statistics;
pub mod text;
