//! The pattern matcher: whether one rule accepts a (possibly partial) card
//! number, and the helpers the resolver builds on.

use crate::card_types::CardTypeView;
use crate::card_types::CreditCardType;
use crate::card_types::PatternRule;
use crate::card_types::RuleView;
use crate::card_types::with_strength;
use crate::digits::all_digits;
use crate::digits::digits_val;
use crate::digits::str_all_digits;
use crate::digits::le_digits_prefix;
use crate::digits::prefix_all_digits;
use crate::digits::prefix_chars_eq;
use crate::errors::CardTypeError;
use vstd::prelude::*;

verus! {

/// An exact rule accepts a card number that is consistent with its prefix:
/// the two agree on the first `min(len(card), len(prefix))` characters.
pub open spec fn exact_matches(card: Seq<char>, prefix: Seq<char>) -> bool {
    let w = if prefix.len() <= card.len() {
        prefix.len() as int
    } else {
        card.len() as int
    };
    card.subrange(0, w) == prefix.subrange(0, w)
}

/// The width a range rule is evaluated at: the width of its bounds, or the
/// card number's own length when that is shorter.
pub open spec fn range_width(card: Seq<char>, high: Seq<char>) -> int {
    if high.len() <= card.len() {
        high.len() as int
    } else {
        card.len() as int
    }
}

/// Whether the part of the card number that a rule reads is all digits.
pub open spec fn rule_input_ok(card: Seq<char>, rule: RuleView) -> bool {
    match rule {
        RuleView::Exact(_) => true,
        RuleView::Range(_, high) => all_digits(card.subrange(0, range_width(card, high))),
    }
}

/// Whether a rule's bounds can be read as numbers at the width the rule is
/// evaluated at.
pub open spec fn rule_bounds_ok(card: Seq<char>, rule: RuleView) -> bool {
    match rule {
        RuleView::Exact(_) => true,
        RuleView::Range(low, high) => {
            let w = range_width(card, high);
            &&& low.len() >= w
            &&& all_digits(low.subrange(0, w))
            &&& all_digits(high.subrange(0, w))
        },
    }
}

/// Whether a rule accepts a card number.  Meaningful when `rule_input_ok`
/// and `rule_bounds_ok` hold.
pub open spec fn rule_matches(card: Seq<char>, rule: RuleView) -> bool {
    match rule {
        RuleView::Exact(prefix) => exact_matches(card, prefix),
        RuleView::Range(low, high) => {
            let w = range_width(card, high);
            &&& digits_val(low.subrange(0, w)) <= digits_val(card.subrange(0, w))
            &&& digits_val(card.subrange(0, w)) <= digits_val(high.subrange(0, w))
        },
    }
}

/// What evaluating one rule against a card number returns: a match verdict,
/// or the error that aborts the resolution.
pub open spec fn rule_result(card: Seq<char>, rule: RuleView) -> Result<bool, CardTypeError> {
    if !rule_input_ok(card, rule) {
        Err(CardTypeError::InvalidInput)
    } else if !rule_bounds_ok(card, rule) {
        Err(CardTypeError::InvalidRuleBounds)
    } else {
        Ok(rule_matches(card, rule))
    }
}

/// The width that decides a rule's match strength: the length of its prefix,
/// or of its lower bound.
pub open spec fn rule_width(rule: RuleView) -> nat {
    match rule {
        RuleView::Exact(prefix) => prefix.len(),
        RuleView::Range(low, _) => low.len(),
    }
}

/// The strength a matching rule confers: its width when the card number is
/// long enough to qualify on that width, and zero otherwise.
pub open spec fn rule_strength(card: Seq<char>, rule: RuleView) -> nat {
    if card.len() >= rule_width(rule) {
        rule_width(rule)
    } else {
        0
    }
}

/// Evaluating a definition's rules in order: the strength of the first rule
/// that matches (`Some`), no match (`None`), or the first rule's error.
pub open spec fn scan_rules(card: Seq<char>, rules: Seq<RuleView>) -> Result<
    Option<nat>,
    CardTypeError,
>
    decreases rules.len(),
{
    if rules.len() == 0 {
        Ok(None)
    } else {
        match rule_result(card, rules[0]) {
            Err(e) => Err(e),
            Ok(m) => if m {
                Ok(Some(rule_strength(card, rules[0])))
            } else {
                scan_rules(card, rules.drop_first())
            },
        }
    }
}

/// A well-formed rule: a range rule's bounds are digit strings of one
/// shared width.  The catalog-authoring obligation under which rule
/// evaluation never fails.
pub open spec fn rule_wf(rule: RuleView) -> bool {
    match rule {
        RuleView::Exact(_) => true,
        RuleView::Range(low, high) => {
            &&& low.len() == high.len()
            &&& all_digits(low)
            &&& all_digits(high)
        },
    }
}

/// Every rule of the sequence is well formed.
pub open spec fn rules_wf(rules: Seq<RuleView>) -> bool {
    forall|i: int| 0 <= i < rules.len() ==> rule_wf(#[trigger] rules[i])
}

/// Whether every candidate carries a positive match strength.
pub open spec fn all_strong(cands: Seq<CardTypeView>) -> bool {
    forall|i: int| 0 <= i < cands.len() ==> (#[trigger] cands[i]).match_strength >= 1
}

/// How many candidates carry a positive match strength.
pub open spec fn count_strong(cands: Seq<CardTypeView>) -> int
    decreases cands.len(),
{
    if cands.len() == 0 {
        0
    } else {
        count_strong(cands.drop_last()) + (if cands.last().match_strength >= 1 {
            1int
        } else {
            0int
        })
    }
}

/// The index of the candidate with the highest match strength, earliest
/// first on ties.
pub open spec fn best_index(cands: Seq<CardTypeView>) -> int
    decreases cands.len(),
{
    if cands.len() <= 1 {
        0
    } else {
        let b = best_index(cands.drop_last());
        if cands.last().match_strength > cands[b].match_strength {
            cands.len() - 1
        } else {
            b
        }
    }
}

pub proof fn lemma_count_strong_bounds(cands: Seq<CardTypeView>)
    ensures
        0 <= count_strong(cands) <= cands.len(),
        count_strong(cands) == cands.len() <==> all_strong(cands),
    decreases cands.len(),
{
    if cands.len() == 0 {
    } else {
        let t = cands.drop_last();
        lemma_count_strong_bounds(t);
        if count_strong(cands) == cands.len() {
            assert(all_strong(t));
            assert(cands.last().match_strength >= 1);
            assert(forall|i: int|
                0 <= i < cands.len() - 1 ==> #[trigger] cands[i] == t[i]);
        }
        if all_strong(cands) {
            assert(forall|i: int| 0 <= i < t.len() ==> #[trigger] t[i] == cands[i]);
        }
    }
}

pub proof fn lemma_best_index_props(cands: Seq<CardTypeView>)
    requires
        cands.len() >= 1,
    ensures
        0 <= best_index(cands) < cands.len(),
        forall|i: int|
            0 <= i < cands.len() ==> (#[trigger] cands[i]).match_strength
                <= cands[best_index(cands)].match_strength,
        forall|i: int|
            0 <= i < best_index(cands) ==> (#[trigger] cands[i]).match_strength
                < cands[best_index(cands)].match_strength,
    decreases cands.len(),
{
    if cands.len() == 1 {
    } else {
        let t = cands.drop_last();
        lemma_best_index_props(t);
        assert(forall|i: int| 0 <= i < t.len() ==> #[trigger] t[i] == cands[i]);
        let b = best_index(t);
        let n = cands.len() as int;
        if cands.last().match_strength > cands[b].match_strength {
            assert(best_index(cands) == n - 1);
            assert forall|i: int| 0 <= i < n - 1 implies (#[trigger] cands[i]).match_strength
                < cands[n - 1].match_strength by {
                assert(t[i].match_strength <= t[b].match_strength);
                assert(cands[i] == t[i]);
            }
        } else {
            assert(best_index(cands) == b);
            assert forall|i: int| 0 <= i < n implies (#[trigger] cands[i]).match_strength
                <= cands[b].match_strength by {
                if i < n - 1 {
                    assert(t[i].match_strength <= t[b].match_strength);
                    assert(cands[i] == t[i]);
                }
            }
            assert forall|i: int| 0 <= i < b implies (#[trigger] cands[i]).match_strength
                < cands[b].match_strength by {
                assert(t[i].match_strength < t[b].match_strength);
                assert(cands[i] == t[i]);
            }
        }
    }
}

/// The disambiguation test: more than one candidate, and every one of them
/// achieved a real, length-qualifying match.
fn can_determine_best_match(results: &Vec<CreditCardType>) -> (r: bool)
    ensures
        r == (results.deep_view().len() > 1 && all_strong(results.deep_view())),
{
    let ghost dv = results.deep_view();
    let mut count: usize = 0;
    let mut i: usize = 0;
    while i < results.len()
        invariant
            i <= results.len(),
            dv == results.deep_view(),
            dv.len() == results.len(),
            count <= i,
            count == count_strong(dv.subrange(0, i as int)),
        decreases results.len() - i,
    {
        proof {
            assert(dv.subrange(0, i as int + 1).drop_last() =~= dv.subrange(0, i as int));
            assert(dv.subrange(0, i as int + 1).last() == dv[i as int]);
            assert(dv[i as int] == results[i as int]@);
        }
        if results[i].match_strength >= 1 {
            count += 1;
        }
        i += 1;
    }
    proof {
        assert(dv.subrange(0, dv.len() as int) =~= dv);
        lemma_count_strong_bounds(dv);
    }
    count > 1 && count == results.len()
}

/// When disambiguation applies (more than one candidate, all of positive
/// strength), returns the candidate with the highest strength, earliest
/// first on ties; otherwise `None`.
pub fn find_best_match(results: &Vec<CreditCardType>) -> (r: Option<&CreditCardType>)
    ensures
        (match r {
            Some(best) => {
                &&& results.deep_view().len() > 1
                &&& all_strong(results.deep_view())
                &&& best@ == results.deep_view()[best_index(results.deep_view())]
                &&& forall|i: int|
                    0 <= i < results.deep_view().len()
                        ==> (#[trigger] results.deep_view()[i]).match_strength
                        <= best@.match_strength
            },
            None => !(results.deep_view().len() > 1 && all_strong(results.deep_view())),
        }),
{
    if !can_determine_best_match(results) {
        return None;
    }
    let ghost dv = results.deep_view();
    let mut best: usize = 0;
    let mut i: usize = 1;
    while i < results.len()
        invariant
            1 <= i <= results.len(),
            dv == results.deep_view(),
            dv.len() == results.len(),
            best < i,
            best == best_index(dv.subrange(0, i as int)),
        decreases results.len() - i,
    {
        proof {
            assert(dv.subrange(0, i as int + 1).drop_last() =~= dv.subrange(0, i as int));
            assert(dv.subrange(0, i as int + 1).last() == dv[i as int]);
            assert(dv[i as int] == results[i as int]@);
            assert(dv.subrange(0, i as int)[best as int] == dv[best as int]);
            assert(dv[best as int] == results[best as int]@);
        }
        if results[i].match_strength > results[best].match_strength {
            best = i;
        }
        i += 1;
    }
    proof {
        assert(dv.subrange(0, dv.len() as int) =~= dv);
        lemma_best_index_props(dv);
    }
    Some(&results[best])
}

/// Whether one rule is well formed: a range rule's bounds must be digit
/// strings of one shared width.  Rules that pass this check never make a
/// resolution fail.
pub fn rule_is_wf(rule: &PatternRule) -> (r: bool)
    ensures
        r == rule_wf(rule@),
{
    match rule {
        PatternRule::Exact(_) => true,
        PatternRule::Range(low, high) => {
            low.as_str().unicode_len() == high.as_str().unicode_len() && str_all_digits(
                low.as_str(),
            ) && str_all_digits(high.as_str())
        },
    }
}

/// Whether one rule accepts the given card number.
///
/// An `Exact` rule never fails.  A `Range` rule fails with `InvalidInput`
/// when the part of the card number it reads holds a non-digit, and with
/// `InvalidRuleBounds` when its bounds cannot be read as numbers at the
/// width the comparison is made at.
pub fn matches(card_number: &str, pattern: &PatternRule) -> (r: Result<bool, CardTypeError>)
    ensures
        r == rule_result(card_number@, pattern@),
{
    match pattern {
        PatternRule::Exact(prefix) => Ok(matches_pattern(card_number, prefix.as_str())),
        PatternRule::Range(low, high) => match_range(
            card_number,
            low.as_str(),
            high.as_str(),
        ),
    }
}

/// Exact-prefix comparison over the shorter of the two strings.
fn matches_pattern(card_number: &str, pattern: &str) -> (r: bool)
    ensures
        r == exact_matches(card_number@, pattern@),
{
    let cn = card_number.unicode_len();
    let pn = pattern.unicode_len();
    let w = if pn <= cn {
        pn
    } else {
        cn
    };
    prefix_chars_eq(card_number, pattern, w)
}

/// Range comparison at the shared truncation width.
fn match_range(card_number: &str, low: &str, high: &str) -> (r: Result<bool, CardTypeError>)
    ensures
        r == rule_result(card_number@, RuleView::Range(low@, high@)),
{
    let card_len = card_number.unicode_len();
    let high_len = high.unicode_len();
    let w = if high_len <= card_len {
        high_len
    } else {
        card_len
    };
    if !prefix_all_digits(card_number, w) {
        return Err(CardTypeError::InvalidInput);
    }
    if low.unicode_len() < w {
        return Err(CardTypeError::InvalidRuleBounds);
    }
    if !prefix_all_digits(low, w) {
        return Err(CardTypeError::InvalidRuleBounds);
    }
    if !prefix_all_digits(high, w) {
        return Err(CardTypeError::InvalidRuleBounds);
    }
    let ge_low = le_digits_prefix(low, card_number, w);
    let le_high = le_digits_prefix(card_number, high, w);
    Ok(ge_low && le_high)
}

/// Evaluates a definition's rules in order against the card number; on the
/// first match, pushes a copy of the definition onto `results`, annotated
/// with the strength of that rule.  A rule error aborts, leaving `results`
/// unchanged.
pub fn add_best_match_to_results(
    card_number: &str,
    card_type: &CreditCardType,
    results: &mut Vec<CreditCardType>,
) -> (r: Result<(), CardTypeError>)
    ensures
        (match scan_rules(card_number@, card_type@.patterns) {
            Ok(opt) => match opt {
                None => r is Ok && final(results).deep_view() == old(results).deep_view(),
                Some(s) => r is Ok && final(results).deep_view() == old(
                    results,
                ).deep_view().push(with_strength(card_type@, s)),
            },
            Err(e) => r == Err::<(), CardTypeError>(e) && final(results).deep_view() == old(
                results,
            ).deep_view(),
        }),
{
    let n = card_type.patterns.len();
    let card_len = card_number.unicode_len();
    let ghost rules = card_type@.patterns;
    proof {
        assert(rules.skip(0) =~= rules);
    }
    let mut i: usize = 0;
    while i < n
        invariant
            i <= n,
            n == card_type.patterns.len(),
            rules == card_type@.patterns,
            rules.len() == n,
            card_len == card_number@.len(),
            scan_rules(card_number@, rules) == scan_rules(card_number@, rules.skip(i as int)),
            *results == *old(results),
        decreases n - i,
    {
        proof {
            assert(card_type@.patterns[i as int] == card_type.patterns[i as int]@);
            assert(rules.skip(i as int)[0] == rules[i as int]);
            assert(rules.skip(i as int).drop_first() =~= rules.skip(i as int + 1));
        }
        match matches(card_number, &card_type.patterns[i]) {
            Err(e) => {
                return Err(e);
            },
            Ok(matched) => {
                if matched {
                    let pw = match &card_type.patterns[i] {
                        PatternRule::Exact(prefix) => prefix.unicode_len(),
                        PatternRule::Range(low, _) => low.unicode_len(),
                    };
                    let strength = if card_len >= pw {
                        pw
                    } else {
                        0
                    };
                    proof {
                        assert(pw as nat == rule_width(rules[i as int]));
                        assert(strength as nat == rule_strength(card_number@, rules[i as int]));
                    }
                    let mut annotated = card_type.clone();
                    annotated.match_strength = strength;
                    proof {
                        assert(annotated@ =~= with_strength(
                            card_type@,
                            rule_strength(card_number@, rules[i as int]),
                        ));
                    }
                    results.push(annotated);
                    proof {
                        assert(results.deep_view() =~= old(results).deep_view().push(annotated@));
                    }
                    return Ok(());
                }
            },
        }
        i += 1;
    }
    proof {
        assert(rules.skip(n as int) =~= Seq::<RuleView>::empty());
    }
    Ok(())
}

} // verus!
