//! A library for building command-line argument parsers by composing small,
//! reusable token-consuming nodes into a tree. A tree of consumers is driven
//! over a flat stream of tokens and produces a structured output value
//! (flags, positional values, lists and named sub-results).
//!
//! Every consumer follows a commit-or-restore discipline: it either reports
//! no match without having removed any token for good, or commits to exactly
//! the tokens its result represents.

pub mod api;
pub mod consumer;
pub mod error;
pub mod help;
pub mod output;
pub mod semantics;
pub mod token;

pub use api::FlagName;
pub use api::Hinge;
pub use api::HingeBuilder;
pub use consumer::AlwaysTrueNode;
pub use consumer::ClassificationNode;
pub use consumer::HelpAction;
pub use consumer::HelpNode;
pub use consumer::HingeConsumer;
pub use consumer::HingeNode;
pub use consumer::KeyWrapNode;
pub use consumer::ListNode;
pub use consumer::MandatoryItemsNode;
pub use consumer::NamedNode;
pub use consumer::OneTokenNode;
pub use consumer::OptionalTokenNode;
pub use consumer::OrNode;
pub use error::HingeError;
pub use help::HingeHelp;
pub use output::Atom;
pub use output::HingeCollectionBuilder;
pub use output::HingeOutput;
pub use output::OutputView;
pub use token::Token;
pub use token::TokenStream;
