//! The library's general properties, stated and proved once and for all.

use crate::card_types::CardTypeView;
use crate::card_types::RuleView;
use crate::card_types::catalog_wf;
use crate::card_types::disambiguate;
use crate::card_types::find_id;
use crate::card_types::identify_spec;
use crate::card_types::ids_unique;
use crate::card_types::lemma_find_id_first;
use crate::card_types::lemma_find_id_props;
use crate::card_types::remove_spec;
use crate::card_types::resolve_all;
use crate::card_types::same_definition;
use crate::card_types::upsert_spec;
use crate::card_types::with_strength;
use crate::digits::all_digits;
use crate::digits::lemma_all_digits_subrange;
use crate::digits::lemma_truncate_monotone;
use crate::errors::CardTypeError;
use crate::utils::all_strong;
use crate::utils::best_index;
use crate::utils::lemma_best_index_props;
use crate::utils::rule_matches;
use crate::utils::rule_result;
use crate::utils::rule_strength;
use crate::utils::rule_wf;
use crate::utils::rule_width;
use crate::utils::rules_wf;
use crate::utils::scan_rules;
use vstd::prelude::*;

verus! {

/// On all-digit input, a well-formed rule always evaluates to a verdict.
proof fn lemma_rule_result_ok(card: Seq<char>, rule: RuleView)
    requires
        all_digits(card),
        rule_wf(rule),
    ensures
        rule_result(card, rule) == Ok::<bool, CardTypeError>(rule_matches(card, rule)),
{
    match rule {
        RuleView::Exact(_) => {},
        RuleView::Range(low, high) => {
            let w = if high.len() <= card.len() {
                high.len() as int
            } else {
                card.len() as int
            };
            lemma_all_digits_subrange(card, 0, w);
            lemma_all_digits_subrange(low, 0, w);
            lemma_all_digits_subrange(high, 0, w);
        },
    }
}

/// On all-digit input, scanning well-formed rules never fails.
proof fn lemma_scan_rules_ok(card: Seq<char>, rules: Seq<RuleView>)
    requires
        all_digits(card),
        rules_wf(rules),
    ensures
        scan_rules(card, rules) is Ok,
    decreases rules.len(),
{
    if rules.len() > 0 {
        lemma_rule_result_ok(card, rules[0]);
        if !rule_matches(card, rules[0]) {
            let t = rules.drop_first();
            assert(forall|i: int| 0 <= i < t.len() ==> #[trigger] t[i] == rules[i + 1]);
            lemma_scan_rules_ok(card, t);
        }
    }
}

/// A rule that accepts a card number accepts every leading part of it:
/// matching is closed under truncation of the input.
proof fn lemma_rule_matches_prefix(s: Seq<char>, s2: Seq<char>, rule: RuleView)
    requires
        rule_wf(rule),
        all_digits(s2),
        s.len() <= s2.len(),
        s == s2.subrange(0, s.len() as int),
        rule_matches(s2, rule),
    ensures
        rule_matches(s, rule),
{
    match rule {
        RuleView::Exact(p) => {
            let w2 = if p.len() <= s2.len() {
                p.len() as int
            } else {
                s2.len() as int
            };
            let w = if p.len() <= s.len() {
                p.len() as int
            } else {
                s.len() as int
            };
            assert(w <= w2);
            assert(s.subrange(0, w) =~= s2.subrange(0, w2).subrange(0, w));
            assert(p.subrange(0, w) =~= p.subrange(0, w2).subrange(0, w));
        },
        RuleView::Range(low, high) => {
            let w2 = if high.len() <= s2.len() {
                high.len() as int
            } else {
                s2.len() as int
            };
            let w = if high.len() <= s.len() {
                high.len() as int
            } else {
                s.len() as int
            };
            assert(w <= w2);
            lemma_all_digits_subrange(s2, 0, w2);
            lemma_all_digits_subrange(low, 0, w2);
            lemma_all_digits_subrange(high, 0, w2);
            lemma_truncate_monotone(low.subrange(0, w2), s2.subrange(0, w2), w);
            lemma_truncate_monotone(s2.subrange(0, w2), high.subrange(0, w2), w);
            assert(low.subrange(0, w2).subrange(0, w) =~= low.subrange(0, w));
            assert(high.subrange(0, w2).subrange(0, w) =~= high.subrange(0, w));
            assert(s2.subrange(0, w2).subrange(0, w) =~= s.subrange(0, w));
        },
    }
}

/// A rule that accepts a card number on its full width keeps accepting
/// every extension of that card number, with the same strength.
proof fn lemma_rule_matches_extend(s: Seq<char>, s2: Seq<char>, rule: RuleView)
    requires
        rule_wf(rule),
        s.len() <= s2.len(),
        s == s2.subrange(0, s.len() as int),
        rule_matches(s, rule),
        rule_width(rule) <= s.len(),
    ensures
        rule_matches(s2, rule),
        rule_strength(s2, rule) == rule_strength(s, rule),
{
    match rule {
        RuleView::Exact(p) => {
            let w = p.len() as int;
            assert(s.subrange(0, w) =~= s2.subrange(0, w));
        },
        RuleView::Range(low, high) => {
            let w = high.len() as int;
            assert(s.subrange(0, w) =~= s2.subrange(0, w));
        },
    }
}

/// Scanning a definition's rules against an extension of a card number:
/// a hit on the longer input implies a hit on the shorter one, and a hit
/// of positive strength on the shorter input persists unchanged.
proof fn lemma_scan_rules_prefix(s: Seq<char>, s2: Seq<char>, rules: Seq<RuleView>)
    requires
        rules_wf(rules),
        all_digits(s2),
        s.len() <= s2.len(),
        s == s2.subrange(0, s.len() as int),
    ensures
        scan_rules(s, rules) is Ok,
        scan_rules(s2, rules) is Ok,
        scan_rules(s2, rules)->Ok_0 is Some ==> scan_rules(s, rules)->Ok_0 is Some,
        (match scan_rules(s, rules)->Ok_0 {
            Some(st) => st >= 1 ==> scan_rules(s2, rules)->Ok_0 == Some(st),
            None => true,
        }),
    decreases rules.len(),
{
    assert(all_digits(s)) by {
        lemma_all_digits_subrange(s2, 0, s.len() as int);
    }
    lemma_scan_rules_ok(s, rules);
    lemma_scan_rules_ok(s2, rules);
    if rules.len() > 0 {
        let r0 = rules[0];
        lemma_rule_result_ok(s, r0);
        lemma_rule_result_ok(s2, r0);
        let t = rules.drop_first();
        assert(forall|i: int| 0 <= i < t.len() ==> #[trigger] t[i] == rules[i + 1]);
        if rule_matches(s2, r0) {
            lemma_rule_matches_prefix(s, s2, r0);
            assert(scan_rules(s, rules) == Ok::<Option<nat>, CardTypeError>(
                Some(rule_strength(s, r0)),
            ));
            if rule_strength(s, r0) >= 1 {
                lemma_rule_matches_extend(s, s2, r0);
            }
        } else if rule_matches(s, r0) {
            if rule_strength(s, r0) >= 1 {
                lemma_rule_matches_extend(s, s2, r0);
                assert(false);
            }
            lemma_scan_rules_prefix(s, s2, t);
        } else {
            lemma_scan_rules_prefix(s, s2, t);
        }
    }
}

/// Every member of `a` is, up to its strength annotation, a member of `b`.
/// On all-digit input, resolving a well-formed catalog never fails.
proof fn lemma_resolve_all_ok(card: Seq<char>, defs: Seq<CardTypeView>)
    requires
        all_digits(card),
        catalog_wf(defs),
    ensures
        resolve_all(card, defs) is Ok,
    decreases defs.len(),
{
    if defs.len() > 0 {
        let t = defs.drop_first();
        assert(forall|i: int| 0 <= i < t.len() ==> #[trigger] t[i] == defs[i + 1]);
        lemma_scan_rules_ok(card, defs[0].patterns);
        lemma_resolve_all_ok(card, t);
    }
}

/// A candidate collected for an extension of a card number is (up to its
/// strength annotation) also among the candidates collected for the card
/// number itself.
proof fn lemma_resolve_prefix_member(s: Seq<char>, s2: Seq<char>, defs: Seq<CardTypeView>, k: int)
    requires
        catalog_wf(defs),
        all_digits(s2),
        s.len() <= s2.len(),
        s == s2.subrange(0, s.len() as int),
        resolve_all(s2, defs) is Ok,
        resolve_all(s, defs) is Ok,
        0 <= k < resolve_all(s2, defs)->Ok_0.len(),
    ensures
        exists|j: int|
            0 <= j < resolve_all(s, defs)->Ok_0.len() && same_definition(
                resolve_all(s2, defs)->Ok_0[k],
                resolve_all(s, defs)->Ok_0[j],
            ),
    decreases defs.len(),
{
    let d0 = defs[0];
    let t = defs.drop_first();
    assert(forall|i: int| 0 <= i < t.len() ==> #[trigger] t[i] == defs[i + 1]);
    lemma_scan_rules_prefix(s, s2, d0.patterns);
    let r1 = resolve_all(s, defs)->Ok_0;
    let r2 = resolve_all(s2, defs)->Ok_0;
    let p1 = resolve_all(s, t)->Ok_0;
    let p2 = resolve_all(s2, t)->Ok_0;
    match scan_rules(s2, d0.patterns)->Ok_0 {
        Some(st2) => {
            let st1 = scan_rules(s, d0.patterns)->Ok_0->0;
            assert(r2 == seq![with_strength(d0, st2)] + p2);
            assert(r1 == seq![with_strength(d0, st1)] + p1);
            if k == 0 {
                assert(r2[0] == with_strength(d0, st2));
                assert(r1[0] == with_strength(d0, st1));
                assert(same_definition(r2[k], r1[0]));
            } else {
                lemma_resolve_prefix_member(s, s2, t, k - 1);
                let j = choose|j: int|
                    0 <= j < resolve_all(s, t)->Ok_0.len() && same_definition(
                        resolve_all(s2, t)->Ok_0[k - 1],
                        resolve_all(s, t)->Ok_0[j],
                    );
                assert(r2[k] == p2[k - 1]);
                assert(r1[j + 1] == p1[j]);
                assert(same_definition(r2[k], r1[j + 1]));
            }
        },
        None => {
            assert(r2 == p2);
            lemma_resolve_prefix_member(s, s2, t, k);
            let j = choose|j: int|
                0 <= j < resolve_all(s, t)->Ok_0.len() && same_definition(
                    resolve_all(s2, t)->Ok_0[k],
                    resolve_all(s, t)->Ok_0[j],
                );
            match scan_rules(s, d0.patterns)->Ok_0 {
                Some(st1) => {
                    assert(r1 == seq![with_strength(d0, st1)] + p1);
                    assert(r1[j + 1] == p1[j]);
                    assert(same_definition(r2[k], r1[j + 1]));
                },
                None => {
                    assert(r1 == p1);
                    assert(r1[j] == p1[j]);
                    assert(same_definition(r2[k], r1[j]));
                },
            }
        },
    }
}

/// When every candidate for a card number carries a positive strength, an
/// extension of that card number collects exactly the same candidates, with
/// the same strengths.
proof fn lemma_resolve_strong_stable(s: Seq<char>, s2: Seq<char>, defs: Seq<CardTypeView>)
    requires
        catalog_wf(defs),
        all_digits(s2),
        s.len() <= s2.len(),
        s == s2.subrange(0, s.len() as int),
        all_strong(resolve_all(s, defs)->Ok_0),
    ensures
        resolve_all(s2, defs) == resolve_all(s, defs),
    decreases defs.len(),
{
    if defs.len() > 0 {
        let d0 = defs[0];
        let t = defs.drop_first();
        assert(forall|i: int| 0 <= i < t.len() ==> #[trigger] t[i] == defs[i + 1]);
        lemma_scan_rules_prefix(s, s2, d0.patterns);
        assert(all_digits(s)) by {
            lemma_all_digits_subrange(s2, 0, s.len() as int);
        }
        lemma_resolve_all_ok(s, t);
        lemma_resolve_all_ok(s2, t);
        let r1 = resolve_all(s, defs)->Ok_0;
        let p1 = resolve_all(s, t)->Ok_0;
        match scan_rules(s, d0.patterns)->Ok_0 {
            Some(st1) => {
                assert(r1 == seq![with_strength(d0, st1)] + p1);
                assert(r1[0] == with_strength(d0, st1));
                assert(r1[0].match_strength >= 1);
                assert(st1 >= 1);
                assert(scan_rules(s2, d0.patterns)->Ok_0 == Some(st1));
                assert forall|i: int| 0 <= i < p1.len() implies (#[trigger] p1[i]).match_strength
                    >= 1 by {
                    assert(p1[i] == r1[i + 1]);
                    assert(r1[i + 1].match_strength >= 1);
                }
                assert(all_strong(p1));
                lemma_resolve_strong_stable(s, s2, t);
            },
            None => {
                if scan_rules(s2, d0.patterns)->Ok_0 is Some {
                    assert(false);
                }
                assert(r1 == p1);
                lemma_resolve_strong_stable(s, s2, t);
            },
        }
    }
}

/// Monotonic disambiguation: when identification of a card number settles
/// on a single definition, identifying any all-digit extension of that card
/// number returns either no candidates at all, or a list that still carries
/// that definition (up to its strength annotation).
pub proof fn lemma_monotonic_disambiguation(
    defs: Seq<CardTypeView>,
    s: Seq<char>,
    s2: Seq<char>,
    d: CardTypeView,
)
    requires
        catalog_wf(defs),
        all_digits(s2),
        s.len() < s2.len(),
        s == s2.subrange(0, s.len() as int),
        identify_spec(defs, s) == Ok::<Seq<CardTypeView>, CardTypeError>(seq![d]),
    ensures
        identify_spec(defs, s2) is Ok,
        identify_spec(defs, s2)->Ok_0.len() == 0 || exists|k: int|
            0 <= k < identify_spec(defs, s2)->Ok_0.len() && same_definition(
                #[trigger] identify_spec(defs, s2)->Ok_0[k],
                d,
            ),
{
    assert(all_digits(s)) by {
        lemma_all_digits_subrange(s2, 0, s.len() as int);
    }
    lemma_resolve_all_ok(s2, defs);
    lemma_resolve_all_ok(s, defs);
    let r2 = resolve_all(s2, defs)->Ok_0;
    assert(identify_spec(defs, s2) == Ok::<Seq<CardTypeView>, CardTypeError>(disambiguate(r2)));
    if s.len() == 0 {
        // The whole catalog was returned as a singleton: it has one entry.
        assert(defs == seq![d]);
        assert(seq![d][0] == d);
        assert(defs[0] == d);
        lemma_resolve_single(s, defs);
        assert forall|k: int| 0 <= k < r2.len() implies same_definition(#[trigger] r2[k], d) by {
            assert(resolve_all(s2, defs)->Ok_0[k] == r2[k]);
            lemma_resolve_prefix_member(s, s2, defs, k);
            let j = choose|j: int|
                0 <= j < resolve_all(s, defs)->Ok_0.len() && same_definition(
                    resolve_all(s2, defs)->Ok_0[k],
                    resolve_all(s, defs)->Ok_0[j],
                );
            assert(same_definition(resolve_all(s, defs)->Ok_0[j], defs[0]));
        }
        lemma_disambiguate_members(r2, d);
    } else {
        let r1 = resolve_all(s, defs)->Ok_0;
        assert(identify_spec(defs, s) == Ok::<Seq<CardTypeView>, CardTypeError>(disambiguate(r1)));
        assert(disambiguate(r1) == seq![d]);
        if r1.len() > 1 && all_strong(r1) {
            lemma_best_index_props(r1);
            assert(disambiguate(r1) == seq![r1[best_index(r1)]]);
            assert(seq![r1[best_index(r1)]][0] == r1[best_index(r1)]);
            assert(seq![d][0] == d);
            assert(d == r1[best_index(r1)]);
            lemma_resolve_strong_stable(s, s2, defs);
            assert(r2 == r1);
            assert(identify_spec(defs, s2) == identify_spec(defs, s));
            assert(same_definition(seq![d][0], d));
        } else {
            assert(r1 == seq![d]);
            assert(seq![d][0] == d);
            assert forall|k: int| 0 <= k < r2.len() implies same_definition(
                #[trigger] r2[k],
                d,
            ) by {
                assert(resolve_all(s2, defs)->Ok_0[k] == r2[k]);
                lemma_resolve_prefix_member(s, s2, defs, k);
                let j = choose|j: int|
                    0 <= j < resolve_all(s, defs)->Ok_0.len() && same_definition(
                        resolve_all(s2, defs)->Ok_0[k],
                        resolve_all(s, defs)->Ok_0[j],
                    );
                assert(r1[j] == d);
            }
            lemma_disambiguate_members(r2, d);
        }
    }
}

/// A one-entry catalog resolves to candidates that all are that entry, up
/// to the strength annotation.
proof fn lemma_resolve_single(card: Seq<char>, defs: Seq<CardTypeView>)
    requires
        defs.len() == 1,
        resolve_all(card, defs) is Ok,
    ensures
        forall|j: int|
            0 <= j < resolve_all(card, defs)->Ok_0.len() ==> same_definition(
                #[trigger] resolve_all(card, defs)->Ok_0[j],
                defs[0],
            ),
{
    let t = defs.drop_first();
    assert(t.len() == 0);
    assert(resolve_all(card, t) == Ok::<Seq<CardTypeView>, CardTypeError>(
        Seq::<CardTypeView>::empty(),
    ));
    match scan_rules(card, defs[0].patterns) {
        Err(e) => {},
        Ok(opt) => match opt {
            None => {
                assert(resolve_all(card, defs)->Ok_0.len() == 0);
            },
            Some(st) => {
                assert(resolve_all(card, defs)->Ok_0 == seq![with_strength(defs[0], st)]
                    + Seq::<CardTypeView>::empty());
                assert(resolve_all(card, defs)->Ok_0.len() == 1);
                assert(resolve_all(card, defs)->Ok_0[0] == with_strength(defs[0], st));
                assert(same_definition(with_strength(defs[0], st), defs[0]));
            },
        },
    }
}

/// When every member of a candidate list is one definition up to strength,
/// disambiguation returns nothing or that definition, up to strength.
proof fn lemma_disambiguate_members(cands: Seq<CardTypeView>, d: CardTypeView)
    requires
        forall|k: int| 0 <= k < cands.len() ==> same_definition(#[trigger] cands[k], d),
    ensures
        disambiguate(cands).len() == 0 || exists|k: int|
            0 <= k < disambiguate(cands).len() && same_definition(
                #[trigger] disambiguate(cands)[k],
                d,
            ),
{
    if cands.len() > 1 && all_strong(cands) {
        lemma_best_index_props(cands);
        assert(same_definition(disambiguate(cands)[0], d));
    } else {
        if cands.len() > 0 {
            assert(same_definition(disambiguate(cands)[0], d));
        }
    }
}

/// Identification is deterministic: what it returns is a function of the
/// catalog and the card number alone, so two calls on equal arguments return
/// equal results.
pub proof fn lemma_identify_deterministic(
    defs: Seq<CardTypeView>,
    card: Seq<char>,
    r1: Result<Seq<CardTypeView>, CardTypeError>,
    r2: Result<Seq<CardTypeView>, CardTypeError>,
)
    requires
        r1 == identify_spec(defs, card),
        r2 == identify_spec(defs, card),
    ensures
        r1 == r2,
{
}

/// Identifying the empty card number returns the whole catalog, in catalog
/// order.
pub proof fn lemma_identify_empty(defs: Seq<CardTypeView>, card: Seq<char>)
    requires
        card.len() == 0,
    ensures
        identify_spec(defs, card) == Ok::<Seq<CardTypeView>, CardTypeError>(defs),
{
}

/// Inserting the same definition twice yields the same catalog as inserting
/// it once.
pub proof fn lemma_upsert_idempotent(defs: Seq<CardTypeView>, d: CardTypeView)
    ensures
        upsert_spec(upsert_spec(defs, d), d) == upsert_spec(defs, d),
{
    let id = d.type_;
    let k = find_id(defs, id);
    lemma_find_id_props(defs, id);
    let s1 = upsert_spec(defs, d);
    if k == -1 {
        assert(s1 == defs.push(d));
        assert(s1[defs.len() as int] == d);
        assert(forall|j: int| 0 <= j < defs.len() ==> #[trigger] s1[j] == defs[j]);
        lemma_find_id_first(s1, id, defs.len() as int);
        assert(s1.update(defs.len() as int, d) =~= s1);
    } else {
        assert(s1 == defs.update(k, d));
        assert(s1[k] == d);
        assert(forall|j: int| 0 <= j < k ==> #[trigger] s1[j] == defs[j]);
        lemma_find_id_first(s1, id, k);
        assert(s1.update(k, d) =~= s1);
    }
}

/// Insertion keeps catalog ids unique.
pub proof fn lemma_upsert_preserves_unique(defs: Seq<CardTypeView>, d: CardTypeView)
    requires
        ids_unique(defs),
    ensures
        ids_unique(upsert_spec(defs, d)),
{
    let id = d.type_;
    let k = find_id(defs, id);
    lemma_find_id_props(defs, id);
    let s1 = upsert_spec(defs, d);
    if k == -1 {
        assert forall|i: int, j: int| 0 <= i < j < s1.len() implies (#[trigger] s1[i]).type_ != (
        #[trigger] s1[j]).type_ by {
            if j < defs.len() {
                assert(s1[i] == defs[i] && s1[j] == defs[j]);
            } else {
                assert(s1[i] == defs[i] && s1[j] == d);
            }
        }
    } else {
        assert forall|i: int, j: int| 0 <= i < j < s1.len() implies (#[trigger] s1[i]).type_ != (
        #[trigger] s1[j]).type_ by {
            assert(s1[i].type_ == defs[i].type_);
            assert(s1[j].type_ == defs[j].type_);
        }
    }
}

/// Removal keeps catalog ids unique.
pub proof fn lemma_remove_preserves_unique(defs: Seq<CardTypeView>, id: Seq<char>)
    requires
        ids_unique(defs),
    ensures
        ids_unique(remove_spec(defs, id)),
{
    let k = find_id(defs, id);
    lemma_find_id_props(defs, id);
    if k != -1 {
        let s1 = defs.remove(k);
        assert forall|i: int, j: int| 0 <= i < j < s1.len() implies (#[trigger] s1[i]).type_ != (
        #[trigger] s1[j]).type_ by {
            let i0 = if i < k {
                i
            } else {
                i + 1
            };
            let j0 = if j < k {
                j
            } else {
                j + 1
            };
            assert(s1[i] == defs[i0]);
            assert(s1[j] == defs[j0]);
        }
    }
}

} // verus!
