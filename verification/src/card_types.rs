//! The card-type catalog and the candidate resolver.

use crate::digits::all_digits;
use crate::digits::is_digit_char;
use crate::digits::str_all_digits;
use crate::digits::str_eq;
use crate::errors::CardTypeError;
use crate::utils::add_best_match_to_results;
use crate::utils::all_strong;
use crate::utils::best_index;
use crate::utils::find_best_match;
use crate::utils::rule_is_wf;
use crate::utils::rule_wf;
use crate::utils::rules_wf;
use crate::utils::scan_rules;
use vstd::prelude::*;

verus! {

/// One matching rule of a network definition.
///
/// `Exact(prefix)` matches a card number that is consistent with `prefix`:
/// the shorter of the two must equal the other's truncation to its length.
/// `Range(low, high)` matches when the card number, truncated to the width of
/// `high` (or to its own length, whichever is shorter), falls numerically
/// between the bounds truncated to that same width.
#[derive(Debug, PartialEq, Eq, PartialOrd, Ord)]
pub enum PatternRule {
    Exact(String),
    Range(String, String),
}

/// The mathematical shape of a `PatternRule`.
#[verifier::ext_equal]
pub enum RuleView {
    Exact(Seq<char>),
    Range(Seq<char>, Seq<char>),
}

/// The verification-code convention of a network (name and digit count).
#[derive(Debug, PartialEq, Eq, PartialOrd, Ord)]
pub struct Code {
    pub name: String,
    pub size: u32,
}

/// The mathematical shape of a `Code`.
#[verifier::ext_equal]
pub struct CodeView {
    pub name: Seq<char>,
    pub size: u32,
}

/// One network definition of the catalog.
///
/// `match_strength` is a per-resolution annotation: the width of the rule
/// that matched, when the input was long enough to qualify on that width.
/// The resolver writes it on the copies it returns; the catalog's own entries
/// are never mutated by a resolution.
#[derive(Debug, PartialEq, Eq, PartialOrd, Ord)]
pub struct CreditCardType {
    pub nice_type: String,
    pub type_: String,
    pub patterns: Vec<PatternRule>,
    pub gaps: Vec<u32>,
    pub lengths: Vec<u32>,
    pub code: Code,
    pub match_strength: usize,
}

/// The mathematical shape of a `CreditCardType`.
#[verifier::ext_equal]
pub struct CardTypeView {
    pub nice_type: Seq<char>,
    pub type_: Seq<char>,
    pub patterns: Seq<RuleView>,
    pub gaps: Seq<u32>,
    pub lengths: Seq<u32>,
    pub code: CodeView,
    pub match_strength: nat,
}

impl View for PatternRule {
    type V = RuleView;

    open spec fn view(&self) -> RuleView {
        match self {
            PatternRule::Exact(p) => RuleView::Exact(p@),
            PatternRule::Range(low, high) => RuleView::Range(low@, high@),
        }
    }
}

impl DeepView for PatternRule {
    type V = RuleView;

    open spec fn deep_view(&self) -> RuleView {
        self.view()
    }
}

impl View for Code {
    type V = CodeView;

    open spec fn view(&self) -> CodeView {
        CodeView { name: self.name@, size: self.size }
    }
}

impl DeepView for Code {
    type V = CodeView;

    open spec fn deep_view(&self) -> CodeView {
        self.view()
    }
}

impl View for CreditCardType {
    type V = CardTypeView;

    open spec fn view(&self) -> CardTypeView {
        CardTypeView {
            nice_type: self.nice_type@,
            type_: self.type_@,
            patterns: self.patterns.deep_view(),
            gaps: self.gaps@,
            lengths: self.lengths@,
            code: self.code@,
            match_strength: self.match_strength as nat,
        }
    }
}

impl DeepView for CreditCardType {
    type V = CardTypeView;

    open spec fn deep_view(&self) -> CardTypeView {
        self.view()
    }
}

/// `d` with its `match_strength` annotation replaced.
pub open spec fn with_strength(d: CardTypeView, s: nat) -> CardTypeView {
    CardTypeView { match_strength: s, ..d }
}

/// Whether `a` and `b` are the same definition, disregarding the ephemeral
/// `match_strength` annotation.
pub open spec fn same_definition(a: CardTypeView, b: CardTypeView) -> bool {
    with_strength(a, 0) == with_strength(b, 0)
}

/// Evaluating every definition in order: the candidates that match, each
/// annotated with the strength of its first matching rule, or the first
/// rule error met.
pub open spec fn resolve_all(card: Seq<char>, defs: Seq<CardTypeView>) -> Result<
    Seq<CardTypeView>,
    CardTypeError,
>
    decreases defs.len(),
{
    if defs.len() == 0 {
        Ok(Seq::empty())
    } else {
        match scan_rules(card, defs[0].patterns) {
            Err(e) => Err(e),
            Ok(opt) => match resolve_all(card, defs.drop_first()) {
                Err(e2) => Err(e2),
                Ok(rest) => match opt {
                    None => Ok(rest),
                    Some(s) => Ok(seq![with_strength(defs[0], s)] + rest),
                },
            },
        }
    }
}

/// The disambiguation policy: when more than one candidate remains and every
/// one achieved a real, length-qualifying match, only the most specific one
/// (highest strength, earliest on ties) is kept; otherwise the candidate
/// list stands as collected.
pub open spec fn disambiguate(cands: Seq<CardTypeView>) -> Seq<CardTypeView> {
    if cands.len() > 1 && all_strong(cands) {
        seq![cands[best_index(cands)]]
    } else {
        cands
    }
}

/// What identification returns, as a function of the catalog and the card
/// number.  An empty card number returns the whole catalog; a card number
/// with a non-digit character is rejected before any rule is evaluated;
/// otherwise the candidates are collected and disambiguated, and the first
/// rule error aborts the whole call.
pub open spec fn identify_spec(defs: Seq<CardTypeView>, card: Seq<char>) -> Result<
    Seq<CardTypeView>,
    CardTypeError,
> {
    if card.len() == 0 {
        Ok(defs)
    } else if !all_digits(card) {
        Err(CardTypeError::InvalidInput)
    } else {
        match resolve_all(card, defs) {
            Err(e) => Err(e),
            Ok(cands) => Ok(disambiguate(cands)),
        }
    }
}

/// A well-formed catalog: every rule of every definition is well formed.
/// Under this obligation, and on all-digit input, identification never
/// fails.
pub open spec fn catalog_wf(defs: Seq<CardTypeView>) -> bool {
    forall|i: int| 0 <= i < defs.len() ==> rules_wf((#[trigger] defs[i]).patterns)
}

/// The index of the first definition carrying `id`, or `-1`.
pub open spec fn find_id(defs: Seq<CardTypeView>, id: Seq<char>) -> int
    decreases defs.len(),
{
    if defs.len() == 0 {
        -1
    } else if defs[0].type_ == id {
        0
    } else {
        let r = find_id(defs.drop_first(), id);
        if r == -1 {
            -1
        } else {
            r + 1
        }
    }
}

/// What inserting a definition yields: the first definition with the same
/// id is replaced in place, and a new id is appended.
pub open spec fn upsert_spec(defs: Seq<CardTypeView>, d: CardTypeView) -> Seq<CardTypeView> {
    let i = find_id(defs, d.type_);
    if i == -1 {
        defs.push(d)
    } else {
        defs.update(i, d)
    }
}

/// What removing an id yields: the first definition with that id leaves,
/// and an absent id leaves the catalog unchanged.
pub open spec fn remove_spec(defs: Seq<CardTypeView>, id: Seq<char>) -> Seq<CardTypeView> {
    let i = find_id(defs, id);
    if i == -1 {
        defs
    } else {
        defs.remove(i)
    }
}

/// If the first `k` definitions do not carry `id` and the one at `k` does,
/// then `k` is where `find_id` points.
pub proof fn lemma_find_id_first(defs: Seq<CardTypeView>, id: Seq<char>, k: int)
    requires
        0 <= k < defs.len(),
        defs[k].type_ == id,
        forall|j: int| 0 <= j < k ==> (#[trigger] defs[j]).type_ != id,
    ensures
        find_id(defs, id) == k,
    decreases defs.len(),
{
    if k == 0 {
    } else {
        let t = defs.drop_first();
        assert(forall|j: int| 0 <= j < t.len() ==> #[trigger] t[j] == defs[j + 1]);
        lemma_find_id_first(t, id, k - 1);
    }
}

/// If no definition carries `id`, `find_id` reports so.
pub proof fn lemma_find_id_none(defs: Seq<CardTypeView>, id: Seq<char>)
    requires
        forall|j: int| 0 <= j < defs.len() ==> (#[trigger] defs[j]).type_ != id,
    ensures
        find_id(defs, id) == -1,
    decreases defs.len(),
{
    if defs.len() > 0 {
        let t = defs.drop_first();
        assert(forall|j: int| 0 <= j < t.len() ==> #[trigger] t[j] == defs[j + 1]);
        lemma_find_id_none(t, id);
    }
}

/// Where `find_id` points and what stands before it.
pub proof fn lemma_find_id_props(defs: Seq<CardTypeView>, id: Seq<char>)
    ensures
        find_id(defs, id) == -1 ==> forall|j: int|
            0 <= j < defs.len() ==> (#[trigger] defs[j]).type_ != id,
        find_id(defs, id) != -1 ==> {
            &&& 0 <= find_id(defs, id) < defs.len()
            &&& defs[find_id(defs, id)].type_ == id
            &&& forall|j: int|
                0 <= j < find_id(defs, id) ==> (#[trigger] defs[j]).type_ != id
        },
    decreases defs.len(),
{
    if defs.len() > 0 && defs[0].type_ != id {
        let t = defs.drop_first();
        assert(forall|j: int| 0 <= j < t.len() ==> #[trigger] t[j] == defs[j + 1]);
        lemma_find_id_props(t, id);
        if find_id(defs, id) == -1 {
            assert forall|j: int| 0 <= j < defs.len() implies (#[trigger] defs[j]).type_ != id by {
                if j > 0 {
                    assert(t[j - 1] == defs[j]);
                }
            }
        } else {
            let k = find_id(defs, id);
            assert(k == find_id(t, id) + 1);
            assert(defs[k] == t[k - 1]);
            assert forall|j: int| 0 <= j < k implies (#[trigger] defs[j]).type_ != id by {
                if j > 0 {
                    assert(t[j - 1] == defs[j]);
                }
            }
        }
    }
}

/// Evaluating one more definition after `defs` extends the collected
/// candidates at the end, and keeps the first error.
pub proof fn lemma_resolve_all_snoc(card: Seq<char>, defs: Seq<CardTypeView>, d: CardTypeView)
    ensures
        resolve_all(card, defs.push(d)) == (match resolve_all(card, defs) {
            Err(e) => Err::<Seq<CardTypeView>, CardTypeError>(e),
            Ok(cands) => match scan_rules(card, d.patterns) {
                Err(e) => Err(e),
                Ok(opt) => match opt {
                    None => Ok(cands),
                    Some(s) => Ok(cands.push(with_strength(d, s))),
                },
            },
        }),
    decreases defs.len(),
{
    if defs.len() == 0 {
        assert(defs.push(d)[0] == d);
        assert(defs.push(d).drop_first() =~= Seq::<CardTypeView>::empty());
        match scan_rules(card, d.patterns) {
            Err(e) => {},
            Ok(opt) => match opt {
                None => {},
                Some(s) => {
                    assert(seq![with_strength(d, s)] + Seq::<CardTypeView>::empty()
                        =~= Seq::<CardTypeView>::empty().push(with_strength(d, s)));
                },
            },
        }
    } else {
        assert(defs.push(d)[0] == defs[0]);
        assert(defs.push(d).drop_first() =~= defs.drop_first().push(d));
        assert(resolve_all(card, defs.push(d).drop_first()) == resolve_all(
            card,
            defs.drop_first().push(d),
        ));
        lemma_resolve_all_snoc(card, defs.drop_first(), d);
        match scan_rules(card, defs[0].patterns) {
            Err(e) => {},
            Ok(opt) => {
                match resolve_all(card, defs.drop_first()) {
                    Err(e2) => {},
                    Ok(rest) => {
                        match scan_rules(card, d.patterns) {
                            Err(e3) => {},
                            Ok(opt2) => {
                                if opt2 is Some {
                                    let s2 = opt2->0;
                                    if opt is Some {
                                        let s = opt->0;
                                        assert(seq![with_strength(defs[0], s)] + rest.push(
                                            with_strength(d, s2),
                                        ) =~= (seq![with_strength(defs[0], s)] + rest).push(
                                            with_strength(d, s2),
                                        ));
                                    }
                                }
                            },
                        }
                    },
                }
            },
        }
    }
    match resolve_all(card, defs) {
        Err(e) => {
            assert(resolve_all(card, defs.push(d)) == Err::<Seq<CardTypeView>, CardTypeError>(e));
        },
        Ok(cands) => {
            match scan_rules(card, d.patterns) {
                Err(e) => {
                    assert(resolve_all(card, defs.push(d)) == Err::<
                        Seq<CardTypeView>,
                        CardTypeError,
                    >(e));
                },
                Ok(opt) => {
                    match opt {
                        None => {
                            assert(resolve_all(card, defs.push(d)) == Ok::<
                                Seq<CardTypeView>,
                                CardTypeError,
                            >(cands));
                        },
                        Some(s) => {
                            assert(resolve_all(card, defs.push(d)) == Ok::<
                                Seq<CardTypeView>,
                                CardTypeError,
                            >(cands.push(with_strength(d, s))));
                        },
                    }
                },
            }
        },
    }
}

/// A rule error in a leading part of the catalog is the error of the whole
/// evaluation.
pub proof fn lemma_resolve_all_prefix_err(card: Seq<char>, defs: Seq<CardTypeView>, k: int)
    requires
        0 <= k <= defs.len(),
        resolve_all(card, defs.subrange(0, k)) is Err,
    ensures
        resolve_all(card, defs) == resolve_all(card, defs.subrange(0, k)),
    decreases defs.len(),
{
    let pre = defs.subrange(0, k);
    if k == 0 {
        assert(pre =~= Seq::<CardTypeView>::empty());
    } else {
        assert(pre[0] == defs[0]);
        match scan_rules(card, defs[0].patterns) {
            Err(e) => {},
            Ok(opt) => {
                let t = defs.drop_first();
                assert(pre.drop_first() =~= t.subrange(0, k - 1));
                lemma_resolve_all_prefix_err(card, t, k - 1);
            },
        }
    }
}

/// The catalog: the registered network definitions, in catalog order.
///
/// Ids are unique within a catalog built through `new`, `new_empty`,
/// `insert_card_type` and `remove_card_type`; see `ids_unique`.
#[derive(Debug, PartialEq, Eq, PartialOrd, Ord)]
pub struct CreditCardPool {
    entries: Vec<CreditCardType>,
}

impl View for CreditCardPool {
    type V = Seq<CardTypeView>;

    closed spec fn view(&self) -> Seq<CardTypeView> {
        self.entries.deep_view()
    }
}

/// No two definitions of the catalog carry the same id.
pub open spec fn ids_unique(defs: Seq<CardTypeView>) -> bool {
    forall|i: int, j: int|
        0 <= i < j < defs.len() ==> (#[trigger] defs[i]).type_ != (#[trigger] defs[j]).type_
}

impl CreditCardPool {
    /// Create a new empty catalog.
    pub fn new_empty() -> (r: CreditCardPool)
        ensures
            r@ == Seq::<CardTypeView>::empty(),
    {
        let r = CreditCardPool { entries: Vec::new() };
        proof {
            assert(r@ =~= Seq::<CardTypeView>::empty());
        }
        r
    }

    /// Inserts a card type into the catalog: the first definition with the
    /// same id is replaced in place, and a new id is appended at the end.
    pub fn insert_card_type(&mut self, card_type: CreditCardType)
        ensures
            final(self)@ == upsert_spec(old(self)@, card_type@),
    {
        let ghost dv = self@;
        let ghost ctv = card_type@;
        let n = self.entries.len();
        let mut i: usize = 0;
        while i < n
            invariant
                i <= n,
                n == self.entries.len(),
                dv == self@,
                ctv == card_type@,
                *self == *old(self),
                forall|j: int| 0 <= j < i ==> (#[trigger] dv[j]).type_ != ctv.type_,
            decreases n - i,
        {
            proof {
                assert(dv[i as int] == self.entries[i as int]@);
            }
            if str_eq(self.entries[i].type_.as_str(), card_type.type_.as_str()) {
                proof {
                    lemma_find_id_first(dv, ctv.type_, i as int);
                }
                self.entries[i] = card_type;
                proof {
                    assert(self@ =~= dv.update(i as int, ctv));
                }
                return ;
            }
            i += 1;
        }
        proof {
            lemma_find_id_none(dv, ctv.type_);
        }
        self.entries.push(card_type);
        proof {
            assert(self@ =~= dv.push(ctv));
        }
    }

    /// Removes the card type carrying the given id, if one is registered.
    pub fn remove_card_type(&mut self, type_: &str)
        ensures
            final(self)@ == remove_spec(old(self)@, type_@),
    {
        let ghost dv = self@;
        let n = self.entries.len();
        let mut i: usize = 0;
        while i < n
            invariant
                i <= n,
                n == self.entries.len(),
                dv == self@,
                *self == *old(self),
                forall|j: int| 0 <= j < i ==> (#[trigger] dv[j]).type_ != type_@,
            decreases n - i,
        {
            proof {
                assert(dv[i as int] == self.entries[i as int]@);
            }
            if str_eq(self.entries[i].type_.as_str(), type_) {
                proof {
                    lemma_find_id_first(dv, type_@, i as int);
                }
                self.entries.remove(i);
                proof {
                    assert(self@ =~= dv.remove(i as int));
                }
                return ;
            }
            i += 1;
        }
        proof {
            lemma_find_id_none(dv, type_@);
        }
    }

    /// Whether every rule of every definition of the catalog is well
    /// formed.  On a catalog that passes this check, identifying an
    /// all-digit card number never fails.
    pub fn is_well_formed(&self) -> (r: bool)
        ensures
            r == catalog_wf(self@),
    {
        let ghost dv = self@;
        let n = self.entries.len();
        let mut i: usize = 0;
        while i < n
            invariant
                i <= n,
                n == self.entries.len(),
                dv == self@,
                forall|j: int| 0 <= j < i ==> rules_wf((#[trigger] dv[j]).patterns),
            decreases n - i,
        {
            proof {
                assert(dv[i as int] == self.entries[i as int]@);
            }
            let def = &self.entries[i];
            let m = def.patterns.len();
            let mut k: usize = 0;
            while k < m
                invariant
                    k <= m,
                    m == def.patterns.len(),
                    dv == self@,
                    def@ == dv[i as int],
                    0 <= i < dv.len(),
                    forall|t: int| 0 <= t < k ==> rule_wf(#[trigger] def@.patterns[t]),
                decreases m - k,
            {
                proof {
                    assert(def@.patterns[k as int] == def.patterns[k as int]@);
                }
                if !rule_is_wf(&def.patterns[k]) {
                    proof {
                        assert(!rules_wf(dv[i as int].patterns));
                    }
                    return false;
                }
                k += 1;
            }
            proof {
                assert(rules_wf(dv[i as int].patterns));
            }
            i += 1;
        }
        true
    }

    /// Returns a copy of every card type of the catalog, in catalog order.
    pub fn get_all_card_types(&self) -> (r: Vec<CreditCardType>)
        ensures
            r.deep_view() == self@,
    {
        let ghost dv = self@;
        let n = self.entries.len();
        let mut r: Vec<CreditCardType> = Vec::new();
        let mut i: usize = 0;
        while i < n
            invariant
                i <= n,
                n == self.entries.len(),
                dv == self@,
                r.deep_view() == dv.subrange(0, i as int),
            decreases n - i,
        {
            proof {
                assert(dv[i as int] == self.entries[i as int]@);
            }
            let c = self.entries[i].clone();
            let ghost prev = r.deep_view();
            r.push(c);
            proof {
                assert(r.deep_view() =~= prev.push(c@)) by {
                    assert(forall|j: int|
                        0 <= j < prev.len() ==> #[trigger] r.deep_view()[j] == prev[j]);
                }
                assert(prev.push(dv[i as int]) =~= dv.subrange(0, i as int + 1));
            }
            i += 1;
        }
        proof {
            assert(dv.subrange(0, n as int) =~= dv);
        }
        r
    }

    /// Returns the card types that match the given card number.
    ///
    /// An empty card number returns the whole catalog.  A card number with
    /// a non-digit character is rejected with `InvalidInput` before any rule
    /// is evaluated.  Otherwise every definition is evaluated in catalog
    /// order, the matching ones are collected with their match strengths,
    /// and when more than one candidate remains and all carry a positive
    /// strength, only the most specific one is returned.  A `Range` rule
    /// whose bounds cannot be read as numbers aborts the whole call with
    /// `InvalidRuleBounds`.
    pub fn get_credit_card_type(&self, card_number: &str) -> (r: Result<
        Vec<CreditCardType>,
        CardTypeError,
    >)
        ensures
            (match r {
                Ok(v) => identify_spec(self@, card_number@) == Ok::<
                    Seq<CardTypeView>,
                    CardTypeError,
                >(v.deep_view()),
                Err(e) => identify_spec(self@, card_number@) == Err::<
                    Seq<CardTypeView>,
                    CardTypeError,
                >(e),
            }),
    {
        let ghost dv = self@;
        if card_number.unicode_len() == 0 {
            return Ok(self.get_all_card_types());
        }
        if !str_all_digits(card_number) {
            return Err(CardTypeError::InvalidInput);
        }
        let n = self.entries.len();
        let mut results: Vec<CreditCardType> = Vec::new();
        let mut i: usize = 0;
        proof {
            assert(dv.subrange(0, 0) =~= Seq::<CardTypeView>::empty());
            assert(results.deep_view() =~= Seq::<CardTypeView>::empty());
        }
        while i < n
            invariant
                i <= n,
                n == self.entries.len(),
                dv == self@,
                card_number@.len() > 0,
                all_digits(card_number@),
                resolve_all(card_number@, dv.subrange(0, i as int)) == Ok::<
                    Seq<CardTypeView>,
                    CardTypeError,
                >(results.deep_view()),
            decreases n - i,
        {
            proof {
                assert(dv[i as int] == self.entries[i as int]@);
                lemma_resolve_all_snoc(card_number@, dv.subrange(0, i as int), dv[i as int]);
                assert(dv.subrange(0, i as int).push(dv[i as int]) =~= dv.subrange(
                    0,
                    i as int + 1,
                ));
            }
            match add_best_match_to_results(card_number, &self.entries[i], &mut results) {
                Ok(_) => {},
                Err(e) => {
                    proof {
                        lemma_resolve_all_prefix_err(card_number@, dv, i as int + 1);
                    }
                    return Err(e);
                },
            }
            i += 1;
        }
        proof {
            assert(dv.subrange(0, n as int) =~= dv);
        }
        match find_best_match(&results) {
            Some(best) => {
                let one = best.clone();
                let mut v: Vec<CreditCardType> = Vec::new();
                v.push(one);
                proof {
                    let cands = results.deep_view();
                    assert(v.deep_view() =~= seq![cands[best_index(cands)]]);
                }
                Ok(v)
            },
            None => Ok(results),
        }
    }
}

/// An exact-prefix rule.
fn exact(prefix: &str) -> (r: PatternRule)
    ensures
        r@ == RuleView::Exact(prefix@),
{
    PatternRule::Exact(prefix.to_owned())
}

/// A numeric-range rule.
fn range(low: &str, high: &str) -> (r: PatternRule)
    ensures
        r@ == RuleView::Range(low@, high@),
{
    PatternRule::Range(low.to_owned(), high.to_owned())
}

/// A catalog entry with a zero match strength.
fn card(
    nice_type: &str,
    type_: &str,
    patterns: Vec<PatternRule>,
    gaps: Vec<u32>,
    lengths: Vec<u32>,
    code_name: &str,
    code_size: u32,
) -> (r: CreditCardType)
    ensures
        r@ == (CardTypeView {
            nice_type: nice_type@,
            type_: type_@,
            patterns: patterns.deep_view(),
            gaps: gaps@,
            lengths: lengths@,
            code: CodeView { name: code_name@, size: code_size },
            match_strength: 0,
        }),
{
    CreditCardType {
        nice_type: nice_type.to_owned(),
        type_: type_.to_owned(),
        patterns,
        gaps,
        lengths,
        code: Code { name: code_name.to_owned(), size: code_size },
        match_strength: 0,
    }
}

/// What `CreditCardPool::new` promises of the pre-seeded catalog: the twelve
/// well-known networks, in catalog order, each id registered once.
pub open spec fn default_catalog_ids(defs: Seq<CardTypeView>) -> bool {
    &&& defs.len() == 12
    &&& ids_unique(defs)
    &&& defs[0].type_ == "american-express"@
    &&& defs[1].type_ == "diners-club"@
    &&& defs[2].type_ == "discover"@
    &&& defs[3].type_ == "elo"@
    &&& defs[4].type_ == "hiper"@
    &&& defs[5].type_ == "hipercard"@
    &&& defs[6].type_ == "jcb"@
    &&& defs[7].type_ == "maestro"@
    &&& defs[8].type_ == "mastercard"@
    &&& defs[9].type_ == "mir"@
    &&& defs[10].type_ == "unionpay"@
    &&& defs[11].type_ == "visa"@
}

/// What `CreditCardPool::new` seeds, definition by definition: the full
/// content of each of the twelve entries, in catalog order.
pub open spec fn default_catalog_defs(defs: Seq<CardTypeView>) -> bool {
    &&& defs.len() == 12
    &&& defs[0] == (CardTypeView {
        nice_type: "American Express"@,
        type_: "american-express"@,
        patterns: seq![
                RuleView::Exact("34"@),
                RuleView::Exact("37"@),
            ],
        gaps: seq![4u32, 10u32],
        lengths: seq![15u32],
        code: CodeView { name: "CID"@, size: 4 },
        match_strength: 0,
    })
    &&& defs[1] == (CardTypeView {
        nice_type: "Diners Club"@,
        type_: "diners-club"@,
        patterns: seq![
                RuleView::Range("300"@, "305"@),
                RuleView::Exact("36"@),
                RuleView::Exact("38"@),
                RuleView::Exact("39"@),
            ],
        gaps: seq![4u32, 10u32],
        lengths: seq![14u32, 16u32, 19u32],
        code: CodeView { name: "CVV"@, size: 3 },
        match_strength: 0,
    })
    &&& defs[2] == (CardTypeView {
        nice_type: "Discover"@,
        type_: "discover"@,
        patterns: seq![
                RuleView::Exact("6011"@),
                RuleView::Range("644"@, "649"@),
                RuleView::Exact("65"@),
            ],
        gaps: seq![4u32, 8u32, 12u32],
        lengths: seq![16u32, 19u32],
        code: CodeView { name: "CID"@, size: 3 },
        match_strength: 0,
    })
    &&& defs[3] == (CardTypeView {
        nice_type: "Elo"@,
        type_: "elo"@,
        patterns: seq![
                RuleView::Exact("401178"@),
                RuleView::Exact("401179"@),
                RuleView::Exact("438935"@),
                RuleView::Exact("457631"@),
                RuleView::Exact("457632"@),
                RuleView::Exact("431274"@),
                RuleView::Exact("451416"@),
                RuleView::Exact("457393"@),
                RuleView::Exact("504175"@),
                RuleView::Range("506699"@, "506778"@),
                RuleView::Range("509000"@, "509999"@),
                RuleView::Exact("627780"@),
                RuleView::Exact("636297"@),
                RuleView::Exact("636368"@),
                RuleView::Range("650031"@, "650033"@),
                RuleView::Range("650035"@, "650051"@),
                RuleView::Range("650405"@, "650439"@),
                RuleView::Range("650485"@, "650538"@),
                RuleView::Range("650541"@, "650598"@),
                RuleView::Range("650700"@, "650718"@),
                RuleView::Range("650720"@, "650727"@),
                RuleView::Range("650901"@, "650978"@),
                RuleView::Range("651652"@, "651679"@),
                RuleView::Range("655000"@, "655019"@),
                RuleView::Range("655021"@, "655058"@),
            ],
        gaps: seq![4u32, 8u32, 12u32],
        lengths: seq![16u32],
        code: CodeView { name: "CVE"@, size: 3 },
        match_strength: 0,
    })
    &&& defs[4] == (CardTypeView {
        nice_type: "Hiper"@,
        type_: "hiper"@,
        patterns: seq![
                RuleView::Exact("637095"@),
                RuleView::Exact("63737423"@),
                RuleView::Exact("63743358"@),
                RuleView::Exact("637568"@),
                RuleView::Exact("637599"@),
                RuleView::Exact("637609"@),
                RuleView::Exact("637612"@),
            ],
        gaps: seq![4u32, 8u32, 12u32],
        lengths: seq![16u32],
        code: CodeView { name: "CVC"@, size: 3 },
        match_strength: 0,
    })
    &&& defs[5] == (CardTypeView {
        nice_type: "Hipercard"@,
        type_: "hipercard"@,
        patterns: seq![
                RuleView::Exact("606282"@),
            ],
        gaps: seq![4u32, 8u32, 12u32],
        lengths: seq![16u32],
        code: CodeView { name: "CVC"@, size: 3 },
        match_strength: 0,
    })
    &&& defs[6] == (CardTypeView {
        nice_type: "JCB"@,
        type_: "jcb"@,
        patterns: seq![
                RuleView::Exact("2131"@),
                RuleView::Exact("1800"@),
                RuleView::Range("3528"@, "3589"@),
            ],
        gaps: seq![4u32, 8u32, 12u32],
        lengths: seq![16u32, 17u32, 18u32, 19u32],
        code: CodeView { name: "CVV"@, size: 3 },
        match_strength: 0,
    })
    &&& defs[7] == (CardTypeView {
        nice_type: "Maestro"@,
        type_: "maestro"@,
        patterns: seq![
                RuleView::Exact("493698"@),
                RuleView::Range("500000"@, "504174"@),
                RuleView::Range("504176"@, "506698"@),
                RuleView::Range("506779"@, "508999"@),
                RuleView::Range("56"@, "59"@),
                RuleView::Exact("63"@),
                RuleView::Exact("67"@),
                RuleView::Exact("6"@),
            ],
        gaps: seq![4u32, 8u32, 12u32],
        lengths: seq![12u32, 13u32, 14u32, 15u32, 16u32, 17u32, 18u32, 19u32],
        code: CodeView { name: "CVC"@, size: 3 },
        match_strength: 0,
    })
    &&& defs[8] == (CardTypeView {
        nice_type: "Mastercard"@,
        type_: "mastercard"@,
        patterns: seq![
                RuleView::Range("51"@, "55"@),
                RuleView::Range("2221"@, "2229"@),
                RuleView::Range("223"@, "229"@),
                RuleView::Range("23"@, "26"@),
                RuleView::Range("270"@, "271"@),
                RuleView::Exact("2720"@),
            ],
        gaps: seq![4u32, 8u32, 12u32],
        lengths: seq![16u32],
        code: CodeView { name: "CVC"@, size: 3 },
        match_strength: 0,
    })
    &&& defs[9] == (CardTypeView {
        nice_type: "Mir"@,
        type_: "mir"@,
        patterns: seq![
                RuleView::Range("2200"@, "2204"@),
            ],
        gaps: seq![4u32, 8u32, 12u32],
        lengths: seq![16u32, 17u32, 18u32, 19u32],
        code: CodeView { name: "CVP2"@, size: 3 },
        match_strength: 0,
    })
    &&& defs[10] == (CardTypeView {
        nice_type: "UnionPay"@,
        type_: "unionpay"@,
        patterns: seq![
                RuleView::Exact("620"@),
                RuleView::Range("62100"@, "62182"@),
                RuleView::Range("62184"@, "62187"@),
                RuleView::Range("62185"@, "62197"@),
                RuleView::Range("62200"@, "62205"@),
                RuleView::Range("622010"@, "622999"@),
                RuleView::Exact("622018"@),
                RuleView::Range("62207"@, "62209"@),
                RuleView::Range("623"@, "626"@),
                RuleView::Exact("6270"@),
                RuleView::Exact("6272"@),
                RuleView::Exact("6276"@),
                RuleView::Range("627700"@, "627779"@),
                RuleView::Range("627781"@, "627799"@),
                RuleView::Range("6282"@, "6289"@),
                RuleView::Exact("6291"@),
                RuleView::Exact("6292"@),
                RuleView::Exact("810"@),
                RuleView::Range("8110"@, "8131"@),
                RuleView::Range("8132"@, "8151"@),
                RuleView::Range("8152"@, "8163"@),
                RuleView::Range("8164"@, "8171"@),
            ],
        gaps: seq![4u32, 8u32, 12u32],
        lengths: seq![14u32, 15u32, 16u32, 17u32, 18u32, 19u32],
        code: CodeView { name: "CVN"@, size: 3 },
        match_strength: 0,
    })
    &&& defs[11] == (CardTypeView {
        nice_type: "Visa"@,
        type_: "visa"@,
        patterns: seq![
                RuleView::Exact("4"@),
            ],
        gaps: seq![4u32, 8u32, 12u32],
        lengths: seq![16u32, 18u32, 19u32],
        code: CodeView { name: "CVV"@, size: 3 },
        match_strength: 0,
    })
}

impl CreditCardPool {
    /// Create a new catalog pre-seeded with the well-known networks.
    ///
    /// The contract pins the full content of every seeded definition
    /// (`default_catalog_defs`), beside the id summary and the
    /// well-formedness of every rule.
    pub fn new() -> (r: CreditCardPool)
        ensures
            default_catalog_ids(r@),
            default_catalog_defs(r@),
            catalog_wf(r@),
    {
        CreditCardPool::default()
    }
}

impl Default for CreditCardPool {
    /// The catalog of the twelve well-known networks.
    fn default() -> (r: Self)
        ensures
            default_catalog_ids(r@),
            default_catalog_defs(r@),
            catalog_wf(r@),
    {
        let mut entries: Vec<CreditCardType> = Vec::new();
        entries.push(
            card(
                "American Express",
                "american-express",
                vec![exact("34"), exact("37")],
                vec![4, 10],
                vec![15],
                "CID",
                4,
            ),
        );
        entries.push(
            card(
                "Diners Club",
                "diners-club",
                vec![range("300", "305"), exact("36"), exact("38"), exact("39")],
                vec![4, 10],
                vec![14, 16, 19],
                "CVV",
                3,
            ),
        );
        entries.push(
            card(
                "Discover",
                "discover",
                vec![exact("6011"), range("644", "649"), exact("65")],
                vec![4, 8, 12],
                vec![16, 19],
                "CID",
                3,
            ),
        );
        entries.push(
            card(
                "Elo",
                "elo",
                vec![
                    exact("401178"),
                    exact("401179"),
                    exact("438935"),
                    exact("457631"),
                    exact("457632"),
                    exact("431274"),
                    exact("451416"),
                    exact("457393"),
                    exact("504175"),
                    range("506699", "506778"),
                    range("509000", "509999"),
                    exact("627780"),
                    exact("636297"),
                    exact("636368"),
                    range("650031", "650033"),
                    range("650035", "650051"),
                    range("650405", "650439"),
                    range("650485", "650538"),
                    range("650541", "650598"),
                    range("650700", "650718"),
                    range("650720", "650727"),
                    range("650901", "650978"),
                    range("651652", "651679"),
                    range("655000", "655019"),
                    range("655021", "655058"),
                ],
                vec![4, 8, 12],
                vec![16],
                "CVE",
                3,
            ),
        );
        entries.push(
            card(
                "Hiper",
                "hiper",
                vec![
                    exact("637095"),
                    exact("63737423"),
                    exact("63743358"),
                    exact("637568"),
                    exact("637599"),
                    exact("637609"),
                    exact("637612"),
                ],
                vec![4, 8, 12],
                vec![16],
                "CVC",
                3,
            ),
        );
        entries.push(
            card(
                "Hipercard",
                "hipercard",
                vec![exact("606282")],
                vec![4, 8, 12],
                vec![16],
                "CVC",
                3,
            ),
        );
        entries.push(
            card(
                "JCB",
                "jcb",
                vec![exact("2131"), exact("1800"), range("3528", "3589")],
                vec![4, 8, 12],
                vec![16, 17, 18, 19],
                "CVV",
                3,
            ),
        );
        entries.push(
            card(
                "Maestro",
                "maestro",
                vec![
                    exact("493698"),
                    range("500000", "504174"),
                    range("504176", "506698"),
                    range("506779", "508999"),
                    range("56", "59"),
                    exact("63"),
                    exact("67"),
                    exact("6"),
                ],
                vec![4, 8, 12],
                vec![12, 13, 14, 15, 16, 17, 18, 19],
                "CVC",
                3,
            ),
        );
        entries.push(
            card(
                "Mastercard",
                "mastercard",
                vec![
                    range("51", "55"),
                    range("2221", "2229"),
                    range("223", "229"),
                    range("23", "26"),
                    range("270", "271"),
                    exact("2720"),
                ],
                vec![4, 8, 12],
                vec![16],
                "CVC",
                3,
            ),
        );
        entries.push(
            card(
                "Mir",
                "mir",
                vec![range("2200", "2204")],
                vec![4, 8, 12],
                vec![16, 17, 18, 19],
                "CVP2",
                3,
            ),
        );
        entries.push(
            card(
                "UnionPay",
                "unionpay",
                vec![
                    exact("620"),
                    range("62100", "62182"),
                    range("62184", "62187"),
                    range("62185", "62197"),
                    range("62200", "62205"),
                    range("622010", "622999"),
                    exact("622018"),
                    range("62207", "62209"),
                    range("623", "626"),
                    exact("6270"),
                    exact("6272"),
                    exact("6276"),
                    range("627700", "627779"),
                    range("627781", "627799"),
                    range("6282", "6289"),
                    exact("6291"),
                    exact("6292"),
                    exact("810"),
                    range("8110", "8131"),
                    range("8132", "8151"),
                    range("8152", "8163"),
                    range("8164", "8171"),
                ],
                vec![4, 8, 12],
                vec![14, 15, 16, 17, 18, 19],
                "CVN",
                3,
            ),
        );
        entries.push(
            card(
                "Visa",
                "visa",
                vec![exact("4")],
                vec![4, 8, 12],
                vec![16, 18, 19],
                "CVV",
                3,
            ),
        );
        let r = CreditCardPool { entries };
        proof {
            reveal_strlit("american-express");
            reveal_strlit("diners-club");
            reveal_strlit("discover");
            reveal_strlit("elo");
            reveal_strlit("hiper");
            reveal_strlit("hipercard");
            reveal_strlit("jcb");
            reveal_strlit("maestro");
            reveal_strlit("mastercard");
            reveal_strlit("mir");
            reveal_strlit("unionpay");
            reveal_strlit("visa");
            assert(r@.len() == 12);
            assert(r@[0].type_ == "american-express"@);
            assert(r@[1].type_ == "diners-club"@);
            assert(r@[2].type_ == "discover"@);
            assert(r@[3].type_ == "elo"@);
            assert(r@[4].type_ == "hiper"@);
            assert(r@[5].type_ == "hipercard"@);
            assert(r@[6].type_ == "jcb"@);
            assert(r@[7].type_ == "maestro"@);
            assert(r@[8].type_ == "mastercard"@);
            assert(r@[9].type_ == "mir"@);
            assert(r@[10].type_ == "unionpay"@);
            assert(r@[11].type_ == "visa"@);
            assert("elo"@[0] == 'e' && "jcb"@[0] == 'j' && "mir"@[0] == 'm');
            assert("discover"@[0] == 'd' && "unionpay"@[0] == 'u');
            assert(ids_unique(r@));
            // The table is well formed: every range bound is a digit string,
            // and the two bounds of a rule share one width.
            reveal_strlit("300");
            reveal_strlit("305");
            reveal_strlit("644");
            reveal_strlit("649");
            reveal_strlit("506699");
            reveal_strlit("506778");
            reveal_strlit("509000");
            reveal_strlit("509999");
            reveal_strlit("650031");
            reveal_strlit("650033");
            reveal_strlit("650035");
            reveal_strlit("650051");
            reveal_strlit("650405");
            reveal_strlit("650439");
            reveal_strlit("650485");
            reveal_strlit("650538");
            reveal_strlit("650541");
            reveal_strlit("650598");
            reveal_strlit("650700");
            reveal_strlit("650718");
            reveal_strlit("650720");
            reveal_strlit("650727");
            reveal_strlit("650901");
            reveal_strlit("650978");
            reveal_strlit("651652");
            reveal_strlit("651679");
            reveal_strlit("655000");
            reveal_strlit("655019");
            reveal_strlit("655021");
            reveal_strlit("655058");
            reveal_strlit("3528");
            reveal_strlit("3589");
            reveal_strlit("500000");
            reveal_strlit("504174");
            reveal_strlit("504176");
            reveal_strlit("506698");
            reveal_strlit("506779");
            reveal_strlit("508999");
            reveal_strlit("56");
            reveal_strlit("59");
            reveal_strlit("51");
            reveal_strlit("55");
            reveal_strlit("2221");
            reveal_strlit("2229");
            reveal_strlit("223");
            reveal_strlit("229");
            reveal_strlit("23");
            reveal_strlit("26");
            reveal_strlit("270");
            reveal_strlit("271");
            reveal_strlit("2200");
            reveal_strlit("2204");
            reveal_strlit("62100");
            reveal_strlit("62182");
            reveal_strlit("62184");
            reveal_strlit("62187");
            reveal_strlit("62185");
            reveal_strlit("62197");
            reveal_strlit("62200");
            reveal_strlit("62205");
            reveal_strlit("622010");
            reveal_strlit("622999");
            reveal_strlit("62207");
            reveal_strlit("62209");
            reveal_strlit("623");
            reveal_strlit("626");
            reveal_strlit("627700");
            reveal_strlit("627779");
            reveal_strlit("627781");
            reveal_strlit("627799");
            reveal_strlit("6282");
            reveal_strlit("6289");
            reveal_strlit("8110");
            reveal_strlit("8131");
            reveal_strlit("8132");
            reveal_strlit("8151");
            reveal_strlit("8152");
            reveal_strlit("8163");
            reveal_strlit("8164");
            reveal_strlit("8171");
            assert(is_digit_char("300"@[0]) && is_digit_char("300"@[1]) && is_digit_char("300"@[2]));
            assert(all_digits("300"@));
            assert(is_digit_char("305"@[0]) && is_digit_char("305"@[1]) && is_digit_char("305"@[2]));
            assert(all_digits("305"@));
            assert(is_digit_char("644"@[0]) && is_digit_char("644"@[1]) && is_digit_char("644"@[2]));
            assert(all_digits("644"@));
            assert(is_digit_char("649"@[0]) && is_digit_char("649"@[1]) && is_digit_char("649"@[2]));
            assert(all_digits("649"@));
            assert(is_digit_char("506699"@[0]) && is_digit_char("506699"@[1]) && is_digit_char("506699"@[2]) && is_digit_char("506699"@[3]) && is_digit_char("506699"@[4]) && is_digit_char("506699"@[5]));
            assert(all_digits("506699"@));
            assert(is_digit_char("506778"@[0]) && is_digit_char("506778"@[1]) && is_digit_char("506778"@[2]) && is_digit_char("506778"@[3]) && is_digit_char("506778"@[4]) && is_digit_char("506778"@[5]));
            assert(all_digits("506778"@));
            assert(is_digit_char("509000"@[0]) && is_digit_char("509000"@[1]) && is_digit_char("509000"@[2]) && is_digit_char("509000"@[3]) && is_digit_char("509000"@[4]) && is_digit_char("509000"@[5]));
            assert(all_digits("509000"@));
            assert(is_digit_char("509999"@[0]) && is_digit_char("509999"@[1]) && is_digit_char("509999"@[2]) && is_digit_char("509999"@[3]) && is_digit_char("509999"@[4]) && is_digit_char("509999"@[5]));
            assert(all_digits("509999"@));
            assert(is_digit_char("650031"@[0]) && is_digit_char("650031"@[1]) && is_digit_char("650031"@[2]) && is_digit_char("650031"@[3]) && is_digit_char("650031"@[4]) && is_digit_char("650031"@[5]));
            assert(all_digits("650031"@));
            assert(is_digit_char("650033"@[0]) && is_digit_char("650033"@[1]) && is_digit_char("650033"@[2]) && is_digit_char("650033"@[3]) && is_digit_char("650033"@[4]) && is_digit_char("650033"@[5]));
            assert(all_digits("650033"@));
            assert(is_digit_char("650035"@[0]) && is_digit_char("650035"@[1]) && is_digit_char("650035"@[2]) && is_digit_char("650035"@[3]) && is_digit_char("650035"@[4]) && is_digit_char("650035"@[5]));
            assert(all_digits("650035"@));
            assert(is_digit_char("650051"@[0]) && is_digit_char("650051"@[1]) && is_digit_char("650051"@[2]) && is_digit_char("650051"@[3]) && is_digit_char("650051"@[4]) && is_digit_char("650051"@[5]));
            assert(all_digits("650051"@));
            assert(is_digit_char("650405"@[0]) && is_digit_char("650405"@[1]) && is_digit_char("650405"@[2]) && is_digit_char("650405"@[3]) && is_digit_char("650405"@[4]) && is_digit_char("650405"@[5]));
            assert(all_digits("650405"@));
            assert(is_digit_char("650439"@[0]) && is_digit_char("650439"@[1]) && is_digit_char("650439"@[2]) && is_digit_char("650439"@[3]) && is_digit_char("650439"@[4]) && is_digit_char("650439"@[5]));
            assert(all_digits("650439"@));
            assert(is_digit_char("650485"@[0]) && is_digit_char("650485"@[1]) && is_digit_char("650485"@[2]) && is_digit_char("650485"@[3]) && is_digit_char("650485"@[4]) && is_digit_char("650485"@[5]));
            assert(all_digits("650485"@));
            assert(is_digit_char("650538"@[0]) && is_digit_char("650538"@[1]) && is_digit_char("650538"@[2]) && is_digit_char("650538"@[3]) && is_digit_char("650538"@[4]) && is_digit_char("650538"@[5]));
            assert(all_digits("650538"@));
            assert(is_digit_char("650541"@[0]) && is_digit_char("650541"@[1]) && is_digit_char("650541"@[2]) && is_digit_char("650541"@[3]) && is_digit_char("650541"@[4]) && is_digit_char("650541"@[5]));
            assert(all_digits("650541"@));
            assert(is_digit_char("650598"@[0]) && is_digit_char("650598"@[1]) && is_digit_char("650598"@[2]) && is_digit_char("650598"@[3]) && is_digit_char("650598"@[4]) && is_digit_char("650598"@[5]));
            assert(all_digits("650598"@));
            assert(is_digit_char("650700"@[0]) && is_digit_char("650700"@[1]) && is_digit_char("650700"@[2]) && is_digit_char("650700"@[3]) && is_digit_char("650700"@[4]) && is_digit_char("650700"@[5]));
            assert(all_digits("650700"@));
            assert(is_digit_char("650718"@[0]) && is_digit_char("650718"@[1]) && is_digit_char("650718"@[2]) && is_digit_char("650718"@[3]) && is_digit_char("650718"@[4]) && is_digit_char("650718"@[5]));
            assert(all_digits("650718"@));
            assert(is_digit_char("650720"@[0]) && is_digit_char("650720"@[1]) && is_digit_char("650720"@[2]) && is_digit_char("650720"@[3]) && is_digit_char("650720"@[4]) && is_digit_char("650720"@[5]));
            assert(all_digits("650720"@));
            assert(is_digit_char("650727"@[0]) && is_digit_char("650727"@[1]) && is_digit_char("650727"@[2]) && is_digit_char("650727"@[3]) && is_digit_char("650727"@[4]) && is_digit_char("650727"@[5]));
            assert(all_digits("650727"@));
            assert(is_digit_char("650901"@[0]) && is_digit_char("650901"@[1]) && is_digit_char("650901"@[2]) && is_digit_char("650901"@[3]) && is_digit_char("650901"@[4]) && is_digit_char("650901"@[5]));
            assert(all_digits("650901"@));
            assert(is_digit_char("650978"@[0]) && is_digit_char("650978"@[1]) && is_digit_char("650978"@[2]) && is_digit_char("650978"@[3]) && is_digit_char("650978"@[4]) && is_digit_char("650978"@[5]));
            assert(all_digits("650978"@));
            assert(is_digit_char("651652"@[0]) && is_digit_char("651652"@[1]) && is_digit_char("651652"@[2]) && is_digit_char("651652"@[3]) && is_digit_char("651652"@[4]) && is_digit_char("651652"@[5]));
            assert(all_digits("651652"@));
            assert(is_digit_char("651679"@[0]) && is_digit_char("651679"@[1]) && is_digit_char("651679"@[2]) && is_digit_char("651679"@[3]) && is_digit_char("651679"@[4]) && is_digit_char("651679"@[5]));
            assert(all_digits("651679"@));
            assert(is_digit_char("655000"@[0]) && is_digit_char("655000"@[1]) && is_digit_char("655000"@[2]) && is_digit_char("655000"@[3]) && is_digit_char("655000"@[4]) && is_digit_char("655000"@[5]));
            assert(all_digits("655000"@));
            assert(is_digit_char("655019"@[0]) && is_digit_char("655019"@[1]) && is_digit_char("655019"@[2]) && is_digit_char("655019"@[3]) && is_digit_char("655019"@[4]) && is_digit_char("655019"@[5]));
            assert(all_digits("655019"@));
            assert(is_digit_char("655021"@[0]) && is_digit_char("655021"@[1]) && is_digit_char("655021"@[2]) && is_digit_char("655021"@[3]) && is_digit_char("655021"@[4]) && is_digit_char("655021"@[5]));
            assert(all_digits("655021"@));
            assert(is_digit_char("655058"@[0]) && is_digit_char("655058"@[1]) && is_digit_char("655058"@[2]) && is_digit_char("655058"@[3]) && is_digit_char("655058"@[4]) && is_digit_char("655058"@[5]));
            assert(all_digits("655058"@));
            assert(is_digit_char("3528"@[0]) && is_digit_char("3528"@[1]) && is_digit_char("3528"@[2]) && is_digit_char("3528"@[3]));
            assert(all_digits("3528"@));
            assert(is_digit_char("3589"@[0]) && is_digit_char("3589"@[1]) && is_digit_char("3589"@[2]) && is_digit_char("3589"@[3]));
            assert(all_digits("3589"@));
            assert(is_digit_char("500000"@[0]) && is_digit_char("500000"@[1]) && is_digit_char("500000"@[2]) && is_digit_char("500000"@[3]) && is_digit_char("500000"@[4]) && is_digit_char("500000"@[5]));
            assert(all_digits("500000"@));
            assert(is_digit_char("504174"@[0]) && is_digit_char("504174"@[1]) && is_digit_char("504174"@[2]) && is_digit_char("504174"@[3]) && is_digit_char("504174"@[4]) && is_digit_char("504174"@[5]));
            assert(all_digits("504174"@));
            assert(is_digit_char("504176"@[0]) && is_digit_char("504176"@[1]) && is_digit_char("504176"@[2]) && is_digit_char("504176"@[3]) && is_digit_char("504176"@[4]) && is_digit_char("504176"@[5]));
            assert(all_digits("504176"@));
            assert(is_digit_char("506698"@[0]) && is_digit_char("506698"@[1]) && is_digit_char("506698"@[2]) && is_digit_char("506698"@[3]) && is_digit_char("506698"@[4]) && is_digit_char("506698"@[5]));
            assert(all_digits("506698"@));
            assert(is_digit_char("506779"@[0]) && is_digit_char("506779"@[1]) && is_digit_char("506779"@[2]) && is_digit_char("506779"@[3]) && is_digit_char("506779"@[4]) && is_digit_char("506779"@[5]));
            assert(all_digits("506779"@));
            assert(is_digit_char("508999"@[0]) && is_digit_char("508999"@[1]) && is_digit_char("508999"@[2]) && is_digit_char("508999"@[3]) && is_digit_char("508999"@[4]) && is_digit_char("508999"@[5]));
            assert(all_digits("508999"@));
            assert(is_digit_char("56"@[0]) && is_digit_char("56"@[1]));
            assert(all_digits("56"@));
            assert(is_digit_char("59"@[0]) && is_digit_char("59"@[1]));
            assert(all_digits("59"@));
            assert(is_digit_char("51"@[0]) && is_digit_char("51"@[1]));
            assert(all_digits("51"@));
            assert(is_digit_char("55"@[0]) && is_digit_char("55"@[1]));
            assert(all_digits("55"@));
            assert(is_digit_char("2221"@[0]) && is_digit_char("2221"@[1]) && is_digit_char("2221"@[2]) && is_digit_char("2221"@[3]));
            assert(all_digits("2221"@));
            assert(is_digit_char("2229"@[0]) && is_digit_char("2229"@[1]) && is_digit_char("2229"@[2]) && is_digit_char("2229"@[3]));
            assert(all_digits("2229"@));
            assert(is_digit_char("223"@[0]) && is_digit_char("223"@[1]) && is_digit_char("223"@[2]));
            assert(all_digits("223"@));
            assert(is_digit_char("229"@[0]) && is_digit_char("229"@[1]) && is_digit_char("229"@[2]));
            assert(all_digits("229"@));
            assert(is_digit_char("23"@[0]) && is_digit_char("23"@[1]));
            assert(all_digits("23"@));
            assert(is_digit_char("26"@[0]) && is_digit_char("26"@[1]));
            assert(all_digits("26"@));
            assert(is_digit_char("270"@[0]) && is_digit_char("270"@[1]) && is_digit_char("270"@[2]));
            assert(all_digits("270"@));
            assert(is_digit_char("271"@[0]) && is_digit_char("271"@[1]) && is_digit_char("271"@[2]));
            assert(all_digits("271"@));
            assert(is_digit_char("2200"@[0]) && is_digit_char("2200"@[1]) && is_digit_char("2200"@[2]) && is_digit_char("2200"@[3]));
            assert(all_digits("2200"@));
            assert(is_digit_char("2204"@[0]) && is_digit_char("2204"@[1]) && is_digit_char("2204"@[2]) && is_digit_char("2204"@[3]));
            assert(all_digits("2204"@));
            assert(is_digit_char("62100"@[0]) && is_digit_char("62100"@[1]) && is_digit_char("62100"@[2]) && is_digit_char("62100"@[3]) && is_digit_char("62100"@[4]));
            assert(all_digits("62100"@));
            assert(is_digit_char("62182"@[0]) && is_digit_char("62182"@[1]) && is_digit_char("62182"@[2]) && is_digit_char("62182"@[3]) && is_digit_char("62182"@[4]));
            assert(all_digits("62182"@));
            assert(is_digit_char("62184"@[0]) && is_digit_char("62184"@[1]) && is_digit_char("62184"@[2]) && is_digit_char("62184"@[3]) && is_digit_char("62184"@[4]));
            assert(all_digits("62184"@));
            assert(is_digit_char("62187"@[0]) && is_digit_char("62187"@[1]) && is_digit_char("62187"@[2]) && is_digit_char("62187"@[3]) && is_digit_char("62187"@[4]));
            assert(all_digits("62187"@));
            assert(is_digit_char("62185"@[0]) && is_digit_char("62185"@[1]) && is_digit_char("62185"@[2]) && is_digit_char("62185"@[3]) && is_digit_char("62185"@[4]));
            assert(all_digits("62185"@));
            assert(is_digit_char("62197"@[0]) && is_digit_char("62197"@[1]) && is_digit_char("62197"@[2]) && is_digit_char("62197"@[3]) && is_digit_char("62197"@[4]));
            assert(all_digits("62197"@));
            assert(is_digit_char("62200"@[0]) && is_digit_char("62200"@[1]) && is_digit_char("62200"@[2]) && is_digit_char("62200"@[3]) && is_digit_char("62200"@[4]));
            assert(all_digits("62200"@));
            assert(is_digit_char("62205"@[0]) && is_digit_char("62205"@[1]) && is_digit_char("62205"@[2]) && is_digit_char("62205"@[3]) && is_digit_char("62205"@[4]));
            assert(all_digits("62205"@));
            assert(is_digit_char("622010"@[0]) && is_digit_char("622010"@[1]) && is_digit_char("622010"@[2]) && is_digit_char("622010"@[3]) && is_digit_char("622010"@[4]) && is_digit_char("622010"@[5]));
            assert(all_digits("622010"@));
            assert(is_digit_char("622999"@[0]) && is_digit_char("622999"@[1]) && is_digit_char("622999"@[2]) && is_digit_char("622999"@[3]) && is_digit_char("622999"@[4]) && is_digit_char("622999"@[5]));
            assert(all_digits("622999"@));
            assert(is_digit_char("62207"@[0]) && is_digit_char("62207"@[1]) && is_digit_char("62207"@[2]) && is_digit_char("62207"@[3]) && is_digit_char("62207"@[4]));
            assert(all_digits("62207"@));
            assert(is_digit_char("62209"@[0]) && is_digit_char("62209"@[1]) && is_digit_char("62209"@[2]) && is_digit_char("62209"@[3]) && is_digit_char("62209"@[4]));
            assert(all_digits("62209"@));
            assert(is_digit_char("623"@[0]) && is_digit_char("623"@[1]) && is_digit_char("623"@[2]));
            assert(all_digits("623"@));
            assert(is_digit_char("626"@[0]) && is_digit_char("626"@[1]) && is_digit_char("626"@[2]));
            assert(all_digits("626"@));
            assert(is_digit_char("627700"@[0]) && is_digit_char("627700"@[1]) && is_digit_char("627700"@[2]) && is_digit_char("627700"@[3]) && is_digit_char("627700"@[4]) && is_digit_char("627700"@[5]));
            assert(all_digits("627700"@));
            assert(is_digit_char("627779"@[0]) && is_digit_char("627779"@[1]) && is_digit_char("627779"@[2]) && is_digit_char("627779"@[3]) && is_digit_char("627779"@[4]) && is_digit_char("627779"@[5]));
            assert(all_digits("627779"@));
            assert(is_digit_char("627781"@[0]) && is_digit_char("627781"@[1]) && is_digit_char("627781"@[2]) && is_digit_char("627781"@[3]) && is_digit_char("627781"@[4]) && is_digit_char("627781"@[5]));
            assert(all_digits("627781"@));
            assert(is_digit_char("627799"@[0]) && is_digit_char("627799"@[1]) && is_digit_char("627799"@[2]) && is_digit_char("627799"@[3]) && is_digit_char("627799"@[4]) && is_digit_char("627799"@[5]));
            assert(all_digits("627799"@));
            assert(is_digit_char("6282"@[0]) && is_digit_char("6282"@[1]) && is_digit_char("6282"@[2]) && is_digit_char("6282"@[3]));
            assert(all_digits("6282"@));
            assert(is_digit_char("6289"@[0]) && is_digit_char("6289"@[1]) && is_digit_char("6289"@[2]) && is_digit_char("6289"@[3]));
            assert(all_digits("6289"@));
            assert(is_digit_char("8110"@[0]) && is_digit_char("8110"@[1]) && is_digit_char("8110"@[2]) && is_digit_char("8110"@[3]));
            assert(all_digits("8110"@));
            assert(is_digit_char("8131"@[0]) && is_digit_char("8131"@[1]) && is_digit_char("8131"@[2]) && is_digit_char("8131"@[3]));
            assert(all_digits("8131"@));
            assert(is_digit_char("8132"@[0]) && is_digit_char("8132"@[1]) && is_digit_char("8132"@[2]) && is_digit_char("8132"@[3]));
            assert(all_digits("8132"@));
            assert(is_digit_char("8151"@[0]) && is_digit_char("8151"@[1]) && is_digit_char("8151"@[2]) && is_digit_char("8151"@[3]));
            assert(all_digits("8151"@));
            assert(is_digit_char("8152"@[0]) && is_digit_char("8152"@[1]) && is_digit_char("8152"@[2]) && is_digit_char("8152"@[3]));
            assert(all_digits("8152"@));
            assert(is_digit_char("8163"@[0]) && is_digit_char("8163"@[1]) && is_digit_char("8163"@[2]) && is_digit_char("8163"@[3]));
            assert(all_digits("8163"@));
            assert(is_digit_char("8164"@[0]) && is_digit_char("8164"@[1]) && is_digit_char("8164"@[2]) && is_digit_char("8164"@[3]));
            assert(all_digits("8164"@));
            assert(is_digit_char("8171"@[0]) && is_digit_char("8171"@[1]) && is_digit_char("8171"@[2]) && is_digit_char("8171"@[3]));
            assert(all_digits("8171"@));
            assert forall|t: int| 0 <= t < r@[0].patterns.len() implies rule_wf(
                #[trigger] r@[0].patterns[t],
            ) by {
                assert(rule_wf(r@[0].patterns[0]));
                assert(rule_wf(r@[0].patterns[1]));
            }
            assert(rules_wf(r@[0].patterns));
            assert forall|t: int| 0 <= t < r@[1].patterns.len() implies rule_wf(
                #[trigger] r@[1].patterns[t],
            ) by {
                assert(rule_wf(r@[1].patterns[0]));
                assert(rule_wf(r@[1].patterns[1]));
                assert(rule_wf(r@[1].patterns[2]));
                assert(rule_wf(r@[1].patterns[3]));
            }
            assert(rules_wf(r@[1].patterns));
            assert forall|t: int| 0 <= t < r@[2].patterns.len() implies rule_wf(
                #[trigger] r@[2].patterns[t],
            ) by {
                assert(rule_wf(r@[2].patterns[0]));
                assert(rule_wf(r@[2].patterns[1]));
                assert(rule_wf(r@[2].patterns[2]));
            }
            assert(rules_wf(r@[2].patterns));
            assert forall|t: int| 0 <= t < r@[3].patterns.len() implies rule_wf(
                #[trigger] r@[3].patterns[t],
            ) by {
                assert(rule_wf(r@[3].patterns[0]));
                assert(rule_wf(r@[3].patterns[1]));
                assert(rule_wf(r@[3].patterns[2]));
                assert(rule_wf(r@[3].patterns[3]));
                assert(rule_wf(r@[3].patterns[4]));
                assert(rule_wf(r@[3].patterns[5]));
                assert(rule_wf(r@[3].patterns[6]));
                assert(rule_wf(r@[3].patterns[7]));
                assert(rule_wf(r@[3].patterns[8]));
                assert(rule_wf(r@[3].patterns[9]));
                assert(rule_wf(r@[3].patterns[10]));
                assert(rule_wf(r@[3].patterns[11]));
                assert(rule_wf(r@[3].patterns[12]));
                assert(rule_wf(r@[3].patterns[13]));
                assert(rule_wf(r@[3].patterns[14]));
                assert(rule_wf(r@[3].patterns[15]));
                assert(rule_wf(r@[3].patterns[16]));
                assert(rule_wf(r@[3].patterns[17]));
                assert(rule_wf(r@[3].patterns[18]));
                assert(rule_wf(r@[3].patterns[19]));
                assert(rule_wf(r@[3].patterns[20]));
                assert(rule_wf(r@[3].patterns[21]));
                assert(rule_wf(r@[3].patterns[22]));
                assert(rule_wf(r@[3].patterns[23]));
                assert(rule_wf(r@[3].patterns[24]));
            }
            assert(rules_wf(r@[3].patterns));
            assert forall|t: int| 0 <= t < r@[4].patterns.len() implies rule_wf(
                #[trigger] r@[4].patterns[t],
            ) by {
                assert(rule_wf(r@[4].patterns[0]));
                assert(rule_wf(r@[4].patterns[1]));
                assert(rule_wf(r@[4].patterns[2]));
                assert(rule_wf(r@[4].patterns[3]));
                assert(rule_wf(r@[4].patterns[4]));
                assert(rule_wf(r@[4].patterns[5]));
                assert(rule_wf(r@[4].patterns[6]));
            }
            assert(rules_wf(r@[4].patterns));
            assert forall|t: int| 0 <= t < r@[5].patterns.len() implies rule_wf(
                #[trigger] r@[5].patterns[t],
            ) by {
                assert(rule_wf(r@[5].patterns[0]));
            }
            assert(rules_wf(r@[5].patterns));
            assert forall|t: int| 0 <= t < r@[6].patterns.len() implies rule_wf(
                #[trigger] r@[6].patterns[t],
            ) by {
                assert(rule_wf(r@[6].patterns[0]));
                assert(rule_wf(r@[6].patterns[1]));
                assert(rule_wf(r@[6].patterns[2]));
            }
            assert(rules_wf(r@[6].patterns));
            assert forall|t: int| 0 <= t < r@[7].patterns.len() implies rule_wf(
                #[trigger] r@[7].patterns[t],
            ) by {
                assert(rule_wf(r@[7].patterns[0]));
                assert(rule_wf(r@[7].patterns[1]));
                assert(rule_wf(r@[7].patterns[2]));
                assert(rule_wf(r@[7].patterns[3]));
                assert(rule_wf(r@[7].patterns[4]));
                assert(rule_wf(r@[7].patterns[5]));
                assert(rule_wf(r@[7].patterns[6]));
                assert(rule_wf(r@[7].patterns[7]));
            }
            assert(rules_wf(r@[7].patterns));
            assert forall|t: int| 0 <= t < r@[8].patterns.len() implies rule_wf(
                #[trigger] r@[8].patterns[t],
            ) by {
                assert(rule_wf(r@[8].patterns[0]));
                assert(rule_wf(r@[8].patterns[1]));
                assert(rule_wf(r@[8].patterns[2]));
                assert(rule_wf(r@[8].patterns[3]));
                assert(rule_wf(r@[8].patterns[4]));
                assert(rule_wf(r@[8].patterns[5]));
            }
            assert(rules_wf(r@[8].patterns));
            assert forall|t: int| 0 <= t < r@[9].patterns.len() implies rule_wf(
                #[trigger] r@[9].patterns[t],
            ) by {
                assert(rule_wf(r@[9].patterns[0]));
            }
            assert(rules_wf(r@[9].patterns));
            assert forall|t: int| 0 <= t < r@[10].patterns.len() implies rule_wf(
                #[trigger] r@[10].patterns[t],
            ) by {
                assert(rule_wf(r@[10].patterns[0]));
                assert(rule_wf(r@[10].patterns[1]));
                assert(rule_wf(r@[10].patterns[2]));
                assert(rule_wf(r@[10].patterns[3]));
                assert(rule_wf(r@[10].patterns[4]));
                assert(rule_wf(r@[10].patterns[5]));
                assert(rule_wf(r@[10].patterns[6]));
                assert(rule_wf(r@[10].patterns[7]));
                assert(rule_wf(r@[10].patterns[8]));
                assert(rule_wf(r@[10].patterns[9]));
                assert(rule_wf(r@[10].patterns[10]));
                assert(rule_wf(r@[10].patterns[11]));
                assert(rule_wf(r@[10].patterns[12]));
                assert(rule_wf(r@[10].patterns[13]));
                assert(rule_wf(r@[10].patterns[14]));
                assert(rule_wf(r@[10].patterns[15]));
                assert(rule_wf(r@[10].patterns[16]));
                assert(rule_wf(r@[10].patterns[17]));
                assert(rule_wf(r@[10].patterns[18]));
                assert(rule_wf(r@[10].patterns[19]));
                assert(rule_wf(r@[10].patterns[20]));
                assert(rule_wf(r@[10].patterns[21]));
            }
            assert(rules_wf(r@[10].patterns));
            assert forall|t: int| 0 <= t < r@[11].patterns.len() implies rule_wf(
                #[trigger] r@[11].patterns[t],
            ) by {
                assert(rule_wf(r@[11].patterns[0]));
            }
            assert(rules_wf(r@[11].patterns));
            // Each seeded definition is exactly what the contract states.
            assert(r@[0].patterns =~= seq![
                RuleView::Exact("34"@),
                RuleView::Exact("37"@),
            ]);
            assert(r@[0].gaps =~= seq![4u32, 10u32]);
            assert(r@[0].lengths =~= seq![15u32]);
            assert(r@[0] =~= (CardTypeView {
                nice_type: "American Express"@,
                type_: "american-express"@,
                patterns: seq![
                        RuleView::Exact("34"@),
                        RuleView::Exact("37"@),
                    ],
                gaps: seq![4u32, 10u32],
                lengths: seq![15u32],
                code: CodeView { name: "CID"@, size: 4 },
                match_strength: 0,
            }));
            assert(r@[1].patterns =~= seq![
                RuleView::Range("300"@, "305"@),
                RuleView::Exact("36"@),
                RuleView::Exact("38"@),
                RuleView::Exact("39"@),
            ]);
            assert(r@[1].gaps =~= seq![4u32, 10u32]);
            assert(r@[1].lengths =~= seq![14u32, 16u32, 19u32]);
            assert(r@[1] =~= (CardTypeView {
                nice_type: "Diners Club"@,
                type_: "diners-club"@,
                patterns: seq![
                        RuleView::Range("300"@, "305"@),
                        RuleView::Exact("36"@),
                        RuleView::Exact("38"@),
                        RuleView::Exact("39"@),
                    ],
                gaps: seq![4u32, 10u32],
                lengths: seq![14u32, 16u32, 19u32],
                code: CodeView { name: "CVV"@, size: 3 },
                match_strength: 0,
            }));
            assert(r@[2].patterns =~= seq![
                RuleView::Exact("6011"@),
                RuleView::Range("644"@, "649"@),
                RuleView::Exact("65"@),
            ]);
            assert(r@[2].gaps =~= seq![4u32, 8u32, 12u32]);
            assert(r@[2].lengths =~= seq![16u32, 19u32]);
            assert(r@[2] =~= (CardTypeView {
                nice_type: "Discover"@,
                type_: "discover"@,
                patterns: seq![
                        RuleView::Exact("6011"@),
                        RuleView::Range("644"@, "649"@),
                        RuleView::Exact("65"@),
                    ],
                gaps: seq![4u32, 8u32, 12u32],
                lengths: seq![16u32, 19u32],
                code: CodeView { name: "CID"@, size: 3 },
                match_strength: 0,
            }));
            assert(r@[3].patterns =~= seq![
                RuleView::Exact("401178"@),
                RuleView::Exact("401179"@),
                RuleView::Exact("438935"@),
                RuleView::Exact("457631"@),
                RuleView::Exact("457632"@),
                RuleView::Exact("431274"@),
                RuleView::Exact("451416"@),
                RuleView::Exact("457393"@),
                RuleView::Exact("504175"@),
                RuleView::Range("506699"@, "506778"@),
                RuleView::Range("509000"@, "509999"@),
                RuleView::Exact("627780"@),
                RuleView::Exact("636297"@),
                RuleView::Exact("636368"@),
                RuleView::Range("650031"@, "650033"@),
                RuleView::Range("650035"@, "650051"@),
                RuleView::Range("650405"@, "650439"@),
                RuleView::Range("650485"@, "650538"@),
                RuleView::Range("650541"@, "650598"@),
                RuleView::Range("650700"@, "650718"@),
                RuleView::Range("650720"@, "650727"@),
                RuleView::Range("650901"@, "650978"@),
                RuleView::Range("651652"@, "651679"@),
                RuleView::Range("655000"@, "655019"@),
                RuleView::Range("655021"@, "655058"@),
            ]);
            assert(r@[3].gaps =~= seq![4u32, 8u32, 12u32]);
            assert(r@[3].lengths =~= seq![16u32]);
            assert(r@[3] =~= (CardTypeView {
                nice_type: "Elo"@,
                type_: "elo"@,
                patterns: seq![
                        RuleView::Exact("401178"@),
                        RuleView::Exact("401179"@),
                        RuleView::Exact("438935"@),
                        RuleView::Exact("457631"@),
                        RuleView::Exact("457632"@),
                        RuleView::Exact("431274"@),
                        RuleView::Exact("451416"@),
                        RuleView::Exact("457393"@),
                        RuleView::Exact("504175"@),
                        RuleView::Range("506699"@, "506778"@),
                        RuleView::Range("509000"@, "509999"@),
                        RuleView::Exact("627780"@),
                        RuleView::Exact("636297"@),
                        RuleView::Exact("636368"@),
                        RuleView::Range("650031"@, "650033"@),
                        RuleView::Range("650035"@, "650051"@),
                        RuleView::Range("650405"@, "650439"@),
                        RuleView::Range("650485"@, "650538"@),
                        RuleView::Range("650541"@, "650598"@),
                        RuleView::Range("650700"@, "650718"@),
                        RuleView::Range("650720"@, "650727"@),
                        RuleView::Range("650901"@, "650978"@),
                        RuleView::Range("651652"@, "651679"@),
                        RuleView::Range("655000"@, "655019"@),
                        RuleView::Range("655021"@, "655058"@),
                    ],
                gaps: seq![4u32, 8u32, 12u32],
                lengths: seq![16u32],
                code: CodeView { name: "CVE"@, size: 3 },
                match_strength: 0,
            }));
            assert(r@[4].patterns =~= seq![
                RuleView::Exact("637095"@),
                RuleView::Exact("63737423"@),
                RuleView::Exact("63743358"@),
                RuleView::Exact("637568"@),
                RuleView::Exact("637599"@),
                RuleView::Exact("637609"@),
                RuleView::Exact("637612"@),
            ]);
            assert(r@[4].gaps =~= seq![4u32, 8u32, 12u32]);
            assert(r@[4].lengths =~= seq![16u32]);
            assert(r@[4] =~= (CardTypeView {
                nice_type: "Hiper"@,
                type_: "hiper"@,
                patterns: seq![
                        RuleView::Exact("637095"@),
                        RuleView::Exact("63737423"@),
                        RuleView::Exact("63743358"@),
                        RuleView::Exact("637568"@),
                        RuleView::Exact("637599"@),
                        RuleView::Exact("637609"@),
                        RuleView::Exact("637612"@),
                    ],
                gaps: seq![4u32, 8u32, 12u32],
                lengths: seq![16u32],
                code: CodeView { name: "CVC"@, size: 3 },
                match_strength: 0,
            }));
            assert(r@[5].patterns =~= seq![
                RuleView::Exact("606282"@),
            ]);
            assert(r@[5].gaps =~= seq![4u32, 8u32, 12u32]);
            assert(r@[5].lengths =~= seq![16u32]);
            assert(r@[5] =~= (CardTypeView {
                nice_type: "Hipercard"@,
                type_: "hipercard"@,
                patterns: seq![
                        RuleView::Exact("606282"@),
                    ],
                gaps: seq![4u32, 8u32, 12u32],
                lengths: seq![16u32],
                code: CodeView { name: "CVC"@, size: 3 },
                match_strength: 0,
            }));
            assert(r@[6].patterns =~= seq![
                RuleView::Exact("2131"@),
                RuleView::Exact("1800"@),
                RuleView::Range("3528"@, "3589"@),
            ]);
            assert(r@[6].gaps =~= seq![4u32, 8u32, 12u32]);
            assert(r@[6].lengths =~= seq![16u32, 17u32, 18u32, 19u32]);
            assert(r@[6] =~= (CardTypeView {
                nice_type: "JCB"@,
                type_: "jcb"@,
                patterns: seq![
                        RuleView::Exact("2131"@),
                        RuleView::Exact("1800"@),
                        RuleView::Range("3528"@, "3589"@),
                    ],
                gaps: seq![4u32, 8u32, 12u32],
                lengths: seq![16u32, 17u32, 18u32, 19u32],
                code: CodeView { name: "CVV"@, size: 3 },
                match_strength: 0,
            }));
            assert(r@[7].patterns =~= seq![
                RuleView::Exact("493698"@),
                RuleView::Range("500000"@, "504174"@),
                RuleView::Range("504176"@, "506698"@),
                RuleView::Range("506779"@, "508999"@),
                RuleView::Range("56"@, "59"@),
                RuleView::Exact("63"@),
                RuleView::Exact("67"@),
                RuleView::Exact("6"@),
            ]);
            assert(r@[7].gaps =~= seq![4u32, 8u32, 12u32]);
            assert(r@[7].lengths =~= seq![12u32, 13u32, 14u32, 15u32, 16u32, 17u32, 18u32, 19u32]);
            assert(r@[7] =~= (CardTypeView {
                nice_type: "Maestro"@,
                type_: "maestro"@,
                patterns: seq![
                        RuleView::Exact("493698"@),
                        RuleView::Range("500000"@, "504174"@),
                        RuleView::Range("504176"@, "506698"@),
                        RuleView::Range("506779"@, "508999"@),
                        RuleView::Range("56"@, "59"@),
                        RuleView::Exact("63"@),
                        RuleView::Exact("67"@),
                        RuleView::Exact("6"@),
                    ],
                gaps: seq![4u32, 8u32, 12u32],
                lengths: seq![12u32, 13u32, 14u32, 15u32, 16u32, 17u32, 18u32, 19u32],
                code: CodeView { name: "CVC"@, size: 3 },
                match_strength: 0,
            }));
            assert(r@[8].patterns =~= seq![
                RuleView::Range("51"@, "55"@),
                RuleView::Range("2221"@, "2229"@),
                RuleView::Range("223"@, "229"@),
                RuleView::Range("23"@, "26"@),
                RuleView::Range("270"@, "271"@),
                RuleView::Exact("2720"@),
            ]);
            assert(r@[8].gaps =~= seq![4u32, 8u32, 12u32]);
            assert(r@[8].lengths =~= seq![16u32]);
            assert(r@[8] =~= (CardTypeView {
                nice_type: "Mastercard"@,
                type_: "mastercard"@,
                patterns: seq![
                        RuleView::Range("51"@, "55"@),
                        RuleView::Range("2221"@, "2229"@),
                        RuleView::Range("223"@, "229"@),
                        RuleView::Range("23"@, "26"@),
                        RuleView::Range("270"@, "271"@),
                        RuleView::Exact("2720"@),
                    ],
                gaps: seq![4u32, 8u32, 12u32],
                lengths: seq![16u32],
                code: CodeView { name: "CVC"@, size: 3 },
                match_strength: 0,
            }));
            assert(r@[9].patterns =~= seq![
                RuleView::Range("2200"@, "2204"@),
            ]);
            assert(r@[9].gaps =~= seq![4u32, 8u32, 12u32]);
            assert(r@[9].lengths =~= seq![16u32, 17u32, 18u32, 19u32]);
            assert(r@[9] =~= (CardTypeView {
                nice_type: "Mir"@,
                type_: "mir"@,
                patterns: seq![
                        RuleView::Range("2200"@, "2204"@),
                    ],
                gaps: seq![4u32, 8u32, 12u32],
                lengths: seq![16u32, 17u32, 18u32, 19u32],
                code: CodeView { name: "CVP2"@, size: 3 },
                match_strength: 0,
            }));
            assert(r@[10].patterns =~= seq![
                RuleView::Exact("620"@),
                RuleView::Range("62100"@, "62182"@),
                RuleView::Range("62184"@, "62187"@),
                RuleView::Range("62185"@, "62197"@),
                RuleView::Range("62200"@, "62205"@),
                RuleView::Range("622010"@, "622999"@),
                RuleView::Exact("622018"@),
                RuleView::Range("62207"@, "62209"@),
                RuleView::Range("623"@, "626"@),
                RuleView::Exact("6270"@),
                RuleView::Exact("6272"@),
                RuleView::Exact("6276"@),
                RuleView::Range("627700"@, "627779"@),
                RuleView::Range("627781"@, "627799"@),
                RuleView::Range("6282"@, "6289"@),
                RuleView::Exact("6291"@),
                RuleView::Exact("6292"@),
                RuleView::Exact("810"@),
                RuleView::Range("8110"@, "8131"@),
                RuleView::Range("8132"@, "8151"@),
                RuleView::Range("8152"@, "8163"@),
                RuleView::Range("8164"@, "8171"@),
            ]);
            assert(r@[10].gaps =~= seq![4u32, 8u32, 12u32]);
            assert(r@[10].lengths =~= seq![14u32, 15u32, 16u32, 17u32, 18u32, 19u32]);
            assert(r@[10] =~= (CardTypeView {
                nice_type: "UnionPay"@,
                type_: "unionpay"@,
                patterns: seq![
                        RuleView::Exact("620"@),
                        RuleView::Range("62100"@, "62182"@),
                        RuleView::Range("62184"@, "62187"@),
                        RuleView::Range("62185"@, "62197"@),
                        RuleView::Range("62200"@, "62205"@),
                        RuleView::Range("622010"@, "622999"@),
                        RuleView::Exact("622018"@),
                        RuleView::Range("62207"@, "62209"@),
                        RuleView::Range("623"@, "626"@),
                        RuleView::Exact("6270"@),
                        RuleView::Exact("6272"@),
                        RuleView::Exact("6276"@),
                        RuleView::Range("627700"@, "627779"@),
                        RuleView::Range("627781"@, "627799"@),
                        RuleView::Range("6282"@, "6289"@),
                        RuleView::Exact("6291"@),
                        RuleView::Exact("6292"@),
                        RuleView::Exact("810"@),
                        RuleView::Range("8110"@, "8131"@),
                        RuleView::Range("8132"@, "8151"@),
                        RuleView::Range("8152"@, "8163"@),
                        RuleView::Range("8164"@, "8171"@),
                    ],
                gaps: seq![4u32, 8u32, 12u32],
                lengths: seq![14u32, 15u32, 16u32, 17u32, 18u32, 19u32],
                code: CodeView { name: "CVN"@, size: 3 },
                match_strength: 0,
            }));
            assert(r@[11].patterns =~= seq![
                RuleView::Exact("4"@),
            ]);
            assert(r@[11].gaps =~= seq![4u32, 8u32, 12u32]);
            assert(r@[11].lengths =~= seq![16u32, 18u32, 19u32]);
            assert(r@[11] =~= (CardTypeView {
                nice_type: "Visa"@,
                type_: "visa"@,
                patterns: seq![
                        RuleView::Exact("4"@),
                    ],
                gaps: seq![4u32, 8u32, 12u32],
                lengths: seq![16u32, 18u32, 19u32],
                code: CodeView { name: "CVV"@, size: 3 },
                match_strength: 0,
            }));
            assert(default_catalog_defs(r@));
            assert(catalog_wf(r@));
        }
        r
    }
}

impl Default for CreditCardType {
    /// A placeholder definition, useful as a starting point for a custom
    /// catalog entry.
    fn default() -> (r: Self)
        ensures
            r@ == (CardTypeView {
                nice_type: "Default"@,
                type_: "default"@,
                patterns: seq![RuleView::Exact("123456789"@)],
                gaps: seq![4u32],
                lengths: seq![16u32],
                code: CodeView { name: "CVV"@, size: 3 },
                match_strength: 0,
            }),
    {
        let r = card(
            "Default",
            "default",
            vec![exact("123456789")],
            vec![4],
            vec![16],
            "CVV",
            3,
        );
        proof {
            assert(r@.patterns =~= seq![RuleView::Exact("123456789"@)]);
            assert(r@.gaps =~= seq![4u32]);
            assert(r@.lengths =~= seq![16u32]);
            assert(r@ =~= (CardTypeView {
                nice_type: "Default"@,
                type_: "default"@,
                patterns: seq![RuleView::Exact("123456789"@)],
                gaps: seq![4u32],
                lengths: seq![16u32],
                code: CodeView { name: "CVV"@, size: 3 },
                match_strength: 0,
            }));
        }
        r
    }
}

impl Clone for CreditCardPool {
    fn clone(&self) -> (r: Self)
        ensures
            r@ == self@,
    {
        let entries = self.entries.clone();
        proof {
            assert(entries.deep_view() =~= self.entries.deep_view());
        }
        CreditCardPool { entries }
    }
}

impl Clone for PatternRule {
    fn clone(&self) -> (r: Self)
        ensures
            r == *self,
    {
        match self {
            PatternRule::Exact(p) => PatternRule::Exact(p.clone()),
            PatternRule::Range(low, high) => PatternRule::Range(low.clone(), high.clone()),
        }
    }
}

impl Clone for Code {
    fn clone(&self) -> (r: Self)
        ensures
            r == *self,
    {
        Code { name: self.name.clone(), size: self.size }
    }
}

impl Clone for CreditCardType {
    fn clone(&self) -> (r: Self)
        ensures
            r@ == self@,
    {
        let patterns = self.patterns.clone();
        let gaps = self.gaps.clone();
        let lengths = self.lengths.clone();
        let r = CreditCardType {
            nice_type: self.nice_type.clone(),
            type_: self.type_.clone(),
            patterns,
            gaps,
            lengths,
            code: self.code.clone(),
            match_strength: self.match_strength,
        };
        proof {
            assert(r.patterns.deep_view() =~= self.patterns.deep_view());
            assert(r.gaps@ =~= self.gaps@);
            assert(r.lengths@ =~= self.lengths@);
            assert(r@ =~= self@);
        }
        r
    }
}

} // verus!
