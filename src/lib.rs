//! A pull-request linting library.
//!
//! - `value`, `parser`, `eval`: a small postfix rule language over JSON-like
//!   values, with its parser and evaluator.
//! - `pull_request`, `commit`: the records of a pull request, commit messages
//!   taken apart, and the dictionary that rules are evaluated in.
//! - `driver`, `config`: policies of rules, exemptions granted in comments,
//!   and the list of failures.
//! - `worker`, `provider`, `codec`: the job queue, the statuses posted after a
//!   validation, the reading of provider responses, and the status-link token.
pub mod text;
pub mod value;
pub mod parser;
pub mod eval;
pub mod commit;
pub mod pull_request;
pub mod config;
pub mod driver;
pub mod codec;
pub mod worker;
pub mod provider;
