//! Identification of payment-card networks from (possibly partial) digit
//! strings, against a catalog of prefix and range rules.
//!
//! A [`CreditCardPool`] maps network ids to their definitions.  Each
//! [`CreditCardType`] carries an ordered list of [`PatternRule`]s: an exact
//! prefix, or a numeric range of prefixes.  Identification collects every
//! network one of whose rules is consistent with the digits typed so far,
//! and, once the input is long enough to qualify every remaining candidate,
//! collapses them to the most specific match.
//!
//! Every function's behaviour is pinned by its contract against the spec
//! functions of [`card_types`], [`utils`] and [`digits`]; the library-wide
//! properties (determinism, the empty-input rule, monotonic disambiguation,
//! upsert idempotence, id uniqueness) are stated and proved in [`laws`].

pub mod card_types;
pub mod digits;
pub mod errors;
pub mod laws;
pub mod utils;

pub use card_types::Code;
pub use card_types::CreditCardPool;
pub use card_types::CreditCardType;
pub use card_types::PatternRule;
pub use errors::CardTypeError;
pub use utils::add_best_match_to_results;
pub use utils::find_best_match;
