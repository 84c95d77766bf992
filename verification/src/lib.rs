//! Phonotactic pattern validation.
//!
//! A descriptor file names pattern classes, lists ordered shape rules
//! (required or forbidden shapes) and declares example words with an
//! expected verdict.  This crate parses such a descriptor into a [`Draft`],
//! runs the declared tests into an [`Outcome`], and renders a compact
//! class-inlined form of the rule set.

mod canon;
mod chars;
mod draft;
mod error;
mod minify;
mod outcome;
mod parse;
mod replace;
mod rx;
mod statements;
mod types;

pub use canon::{inlined_rules, lemma_minify_fixed_point, plain_pattern, plain_tests, plain_word};
pub use chars::{is_space_char, lemma_strip_spaces_blank_free, strip_spaces, trim_spec};
pub use draft::{Draft, DraftV};
pub use error::{Error, ErrorV, ParseErrorKind, ParseErrorKindV};
pub use minify::{join, mode_str, spec_minify, spec_minify_rules, spec_minify_tests};
pub use outcome::{
    first_violation, lemma_run_preserves_messages, lemma_validate_first_violation, spec_fail_count,
    spec_run_messages, spec_run_test, spec_status, spec_validate, validate_test, violates,
    DisplayLevel, FailKind, FailKindV, Outcome, OutcomeV, PassStatus, PassStatusV, TestOutcome,
    TestOutcomeV, Validity, ValidityV,
};
pub use parse::{
    count_tests, init_state, parse_class_stmt, parse_mode_stmt, parse_note_stmt, parse_spec,
    parse_stmt, parse_stmts, parse_test_stmt, spec_parse_rules, test_msgs, ws_tokens_rec, ParseStV,
};
pub use replace::{class_lookup, expand_spec, spec_replace};
pub use rx::{regex_match, regex_ok, regex_source, word_chars};
pub use types::{
    classes_view, msgs_view, raws_view, rules_view, ClassDef, ClassV, Message, MessageV, Mode,
    Note, RawRule, RawRuleV, Rule, RuleV, TestDraft, TestDraftV,
};
