//! The rule store: per-symbol ordered lists of weighted production rules.
//!
//! A symbol with no registered rule is terminal.  A registered symbol is
//! looked up by trying its rules in insertion order, each accepted
//! independently when a fresh draw lies below the rule's weight; when no
//! rule accepts, the symbol maps to itself.

use vstd::prelude::*;
use vstd::string::StrSliceExecFns;
use crate::rng::RandomSource;

verus! {

/// Denominator of every trigger weight: a rule with weight `w` fires on a
/// draw `d` (taken below `PROB_SCALE`) exactly when `d < w`.  A weight of
/// `PROB_SCALE` or more always fires; a weight of zero never fires.  Out of
/// range weights are deliberately not rejected.
pub const PROB_SCALE: u64 = 1_000_000;

/// One production rule: a replacement sequence and its trigger weight.
pub struct Rule {
    pub replacement: Vec<char>,
    pub weight: u64,
}

/// The (replacement, weight) pairs of a rule list, at the spec level.
pub open spec fn rule_entries(rules: Seq<Rule>) -> Seq<(Seq<char>, u64)> {
    rules.map(|i: int, r: Rule| (r.replacement@, r.weight))
}

/// Which outputs a lookup of `sym` against the entries `rules` can yield:
/// the replacement of a rule whose weight is positive and which no earlier
/// always-firing rule shadows, or the identity sequence when no rule
/// always fires.
pub open spec fn valid_selection(rules: Seq<(Seq<char>, u64)>, sym: char, out: Seq<char>) -> bool {
    ||| exists|i: int|
            0 <= i < rules.len() && out == (#[trigger] rules[i]).0 && rules[i].1 > 0
            && (forall|j: int| 0 <= j < i ==> (#[trigger] rules[j]).1 < PROB_SCALE)
    ||| (out == seq![sym] && (forall|j: int|
            0 <= j < rules.len() ==> (#[trigger] rules[j]).1 < PROB_SCALE))
}

/// The replacement selected for `sym` when rule `i` is tried with draw
/// `draws[i]`: the replacement of the first rule whose draw lies below its
/// weight, or the identity sequence when every rule fails.
pub open spec fn spec_select(rules: Seq<(Seq<char>, u64)>, draws: Seq<u64>, sym: char) -> Seq<char>
    decreases rules.len(),
{
    if rules.len() == 0 {
        seq![sym]
    } else if draws[0] < rules[0].1 {
        rules[0].0
    } else {
        spec_select(rules.drop_first(), draws.drop_first(), sym)
    }
}

/// A rule that always fires is never shadowed: when the first rule's weight
/// reaches `PROB_SCALE`, every valid selection is that rule's replacement.
pub proof fn lemma_certain_first_rule(rules: Seq<(Seq<char>, u64)>, sym: char, out: Seq<char>)
    requires
        valid_selection(rules, sym, out),
        rules.len() > 0,
        rules[0].1 >= PROB_SCALE,
    ensures
        out == rules[0].0,
{
    assert(!(rules[0].1 < PROB_SCALE));
}

/// Whatever the draws, the selected replacement is a valid selection, as
/// long as each draw lies below `PROB_SCALE`.
pub proof fn lemma_select_valid(rules: Seq<(Seq<char>, u64)>, draws: Seq<u64>, sym: char)
    requires
        draws.len() == rules.len(),
        forall|k: int| 0 <= k < draws.len() ==> #[trigger] draws[k] < PROB_SCALE,
    ensures
        valid_selection(rules, sym, spec_select(rules, draws, sym)),
    decreases rules.len(),
{
    let out = spec_select(rules, draws, sym);
    if rules.len() == 0 {
        assert(out == seq![sym]);
    } else if draws[0] < rules[0].1 {
        assert(0 <= 0 < rules.len() && out == rules[0].0 && rules[0].1 > 0);
    } else {
        let rest = rules.drop_first();
        let drest = draws.drop_first();
        assert(forall|k: int| 0 <= k < drest.len() ==> #[trigger] drest[k] < PROB_SCALE);
        lemma_select_valid(rest, drest, sym);
        let rout = spec_select(rest, drest, sym);
        assert(rules[0].1 < PROB_SCALE);
        if exists|i: int|
            0 <= i < rest.len() && rout == (#[trigger] rest[i]).0 && rest[i].1 > 0
            && (forall|j: int| 0 <= j < i ==> (#[trigger] rest[j]).1 < PROB_SCALE) {
            let i = choose|i: int|
                0 <= i < rest.len() && rout == (#[trigger] rest[i]).0 && rest[i].1 > 0
                && (forall|j: int| 0 <= j < i ==> (#[trigger] rest[j]).1 < PROB_SCALE);
            assert(rules[i + 1] == rest[i]);
            assert(forall|j: int| 0 <= j < i + 1 ==> (#[trigger] rules[j]).1 < PROB_SCALE) by {
                assert(forall|j: int| 1 <= j < i + 1 ==> rules[j] == rest[j - 1]);
            }
            assert(0 <= i + 1 < rules.len() && out == rules[i + 1].0 && rules[i + 1].1 > 0);
        } else {
            assert(rout == seq![sym]);
            assert(forall|j: int| 0 <= j < rules.len() ==> (#[trigger] rules[j]).1 < PROB_SCALE) by {
                assert(forall|j: int| 1 <= j < rules.len() ==> rules[j] == rest[j - 1]);
            }
        }
    }
}

/// Copies a character vector; the copy has the same view.
pub fn clone_chars(v: &Vec<char>) -> (r: Vec<char>)
    ensures
        r@ == v@,
{
    let mut out: Vec<char> = Vec::new();
    let mut i: usize = 0;
    while i < v.len()
        invariant
            i <= v@.len(),
            out@ == v@.take(i as int),
        decreases v@.len() - i,
    {
        out.push(v[i]);
        proof {
            assert(out@ =~= v@.take(i + 1 as int));
        }
        i += 1;
    }
    proof {
        assert(v@.take(v@.len() as int) =~= v@);
    }
    out
}

/// Deterministic core of rule selection: with the draw for each rule given
/// as an argument, the selected replacement is a function of the inputs
/// alone, so equal draws always yield equal replacements.
pub fn select_with_draws(rules: &Vec<Rule>, draws: &Vec<u64>, sym: char) -> (out: Vec<char>)
    requires
        draws@.len() == rules@.len(),
    ensures
        out@ == spec_select(rule_entries(rules@), draws@, sym),
{
    let ghost entries = rule_entries(rules@);
    proof {
        assert(entries.skip(0) =~= entries);
        assert(draws@.skip(0) =~= draws@);
    }
    let mut j: usize = 0;
    while j < rules.len()
        invariant
            j <= rules@.len(),
            draws@.len() == rules@.len(),
            entries == rule_entries(rules@),
            spec_select(entries, draws@, sym)
                == spec_select(entries.skip(j as int), draws@.skip(j as int), sym),
        decreases rules@.len() - j,
    {
        proof {
            assert(entries.skip(j as int)[0] == entries[j as int]);
            assert(entries.skip(j as int).len() == entries.len() - j);
            assert(draws@.skip(j as int)[0] == draws@[j as int]);
        }
        if draws[j] < rules[j].weight {
            let out = clone_chars(&rules[j].replacement);
            proof {
                assert(entries[j as int].1 == rules@[j as int].weight);
                assert(spec_select(entries.skip(j as int), draws@.skip(j as int), sym)
                    == entries[j as int].0);
            }
            return out;
        }
        proof {
            assert(entries.skip(j as int).drop_first() =~= entries.skip(j + 1 as int));
            assert(draws@.skip(j as int).drop_first() =~= draws@.skip(j + 1 as int));
        }
        j += 1;
    }
    let mut out: Vec<char> = Vec::new();
    out.push(sym);
    proof {
        assert(entries.skip(rules@.len() as int).len() == 0);
        assert(out@ =~= seq![sym]);
    }
    out
}

/// A store of production rules keyed by symbol; per symbol, rules keep
/// their insertion order.
pub struct MapRules {
    pub productions: Vec<(char, Vec<Rule>)>,
}

impl MapRules {
    /// Each symbol appears at most once, and a registered symbol holds at
    /// least one rule.
    pub open spec fn wf(self) -> bool {
        &&& forall|i: int, j: int|
                0 <= i < j < self.productions@.len()
                    ==> (#[trigger] self.productions@[i]).0 != (#[trigger] self.productions@[j]).0
        &&& forall|i: int|
                0 <= i < self.productions@.len()
                    ==> (#[trigger] self.productions@[i]).1@.len() >= 1
    }

    /// Whether `sym` has at least one registered rule (a live symbol).
    pub open spec fn has_rules(self, sym: char) -> bool {
        exists|i: int| 0 <= i < self.productions@.len() && (#[trigger] self.productions@[i]).0 == sym
    }

    /// The ordered (replacement, weight) entries registered for `sym`.
    pub open spec fn rules_for(self, sym: char) -> Seq<(Seq<char>, u64)> {
        if self.has_rules(sym) {
            let i = choose|i: int|
                0 <= i < self.productions@.len() && (#[trigger] self.productions@[i]).0 == sym;
            rule_entries(self.productions@[i].1@)
        } else {
            Seq::empty()
        }
    }

    /// In a well-formed store the entries for the symbol at slot `i` are
    /// exactly that slot's rule list.
    pub proof fn lemma_rules_for_at(self, i: int)
        requires
            self.wf(),
            0 <= i < self.productions@.len(),
        ensures
            self.has_rules(self.productions@[i].0),
            self.rules_for(self.productions@[i].0) == rule_entries(self.productions@[i].1@),
    {
        let sym = self.productions@[i].0;
        assert(0 <= i < self.productions@.len() && self.productions@[i].0 == sym);
        let k = choose|k: int|
            0 <= k < self.productions@.len() && (#[trigger] self.productions@[k]).0 == sym;
        if k < i {
            assert(self.productions@[k].0 != self.productions@[i].0);
        } else if i < k {
            assert(self.productions@[i].0 != self.productions@[k].0);
        }
        assert(k == i);
    }

    /// Creates an empty rule store: every symbol is terminal.
    pub fn new() -> (r: MapRules)
        ensures
            r.wf(),
            forall|c: char| !r.has_rules(c),
    {
        MapRules { productions: Vec::new() }
    }

    fn find(&self, sym: char) -> (r: Option<usize>)
        ensures
            r is Some <==> self.has_rules(sym),
            r matches Some(i) ==> 0 <= i < self.productions@.len()
                && self.productions@[i as int].0 == sym,
    {
        let mut i: usize = 0;
        while i < self.productions.len()
            invariant
                i <= self.productions@.len(),
                forall|j: int| 0 <= j < i ==> (#[trigger] self.productions@[j]).0 != sym,
            decreases self.productions@.len() - i,
        {
            if self.productions[i].0 == sym {
                return Some(i);
            }
            i += 1;
        }
        None
    }

    /// Appends a rule `k -> v` with trigger weight `weight` to `k`'s rule
    /// list, preserving insertion order.  Returns the replacement exactly
    /// when it is the first rule registered for `k`.
    pub fn set_prob(&mut self, k: char, v: Vec<char>, weight: u64) -> (r: Option<Vec<char>>)
        requires
            old(self).wf(),
        ensures
            final(self).wf(),
            final(self).has_rules(k),
            final(self).rules_for(k) =~= old(self).rules_for(k).push((v@, weight)),
            forall|c: char| c != k ==> final(self).has_rules(c) == old(self).has_rules(c),
            forall|c: char| c != k ==> final(self).rules_for(c) == old(self).rules_for(c),
            r is Some <==> !old(self).has_rules(k),
            r matches Some(first) ==> first@ == v@,
    {
        let found = self.find(k);
        let stored = clone_chars(&v);
        let rule = Rule { replacement: stored, weight: weight };
        let ghost old_prods = self.productions@;
        let ghost old_self = *self;
        match found {
            None => {
                let mut lst: Vec<Rule> = Vec::new();
                lst.push(rule);
                self.productions.push((k, lst));
                proof {
                    let n = old_prods.len() as int;
                    assert(forall|j: int| 0 <= j < n ==> (#[trigger] old_prods[j]).0 != k);
                    assert(forall|j: int| 0 <= j < n ==> self.productions@[j] == old_prods[j]);
                    assert(self.productions@[n].0 == k);
                    assert(self.wf());
                    self.lemma_rules_for_at(n);
                    assert(rule_entries(self.productions@[n].1@)
                        =~= old_self.rules_for(k).push((v@, weight)));
                    assert forall|c: char| c != k implies
                        final(self).has_rules(c) == old_self.has_rules(c)
                            && final(self).rules_for(c) == old_self.rules_for(c) by {
                        if old_self.has_rules(c) {
                            let w = choose|w: int|
                                0 <= w < old_prods.len() && (#[trigger] old_prods[w]).0 == c;
                            assert(self.productions@[w].0 == c);
                            old_self.lemma_rules_for_at(w);
                            self.lemma_rules_for_at(w);
                        } else if final(self).has_rules(c) {
                            let w = choose|w: int|
                                0 <= w < self.productions@.len()
                                    && (#[trigger] self.productions@[w]).0 == c;
                            assert(w < n);
                            assert(old_prods[w].0 == c);
                        }
                    }
                }
                Some(v)
            }
            Some(i) => {
                let slot = vstd::std_specs::vec::vec_index_mut(&mut self.productions, i);
                slot.1.push(rule);
                proof {
                    let n = old_prods.len() as int;
                    let ii = i as int;
                    assert(self.productions@ =~= old_prods.update(ii,
                        (k, self.productions@[ii].1)));
                    assert(self.productions@[ii].0 == k);
                    assert(self.productions@[ii].1@ =~= old_prods[ii].1@.push(rule));
                    assert(forall|j: int| 0 <= j < n && j != ii
                        ==> #[trigger] self.productions@[j] == old_prods[j]);
                    assert(forall|j: int| 0 <= j < n
                        ==> (#[trigger] self.productions@[j]).0 == old_prods[j].0);
                    assert(self.wf());
                    old_self.lemma_rules_for_at(ii);
                    self.lemma_rules_for_at(ii);
                    assert(rule_entries(self.productions@[ii].1@)
                        =~= rule_entries(old_prods[ii].1@).push((v@, weight)));
                    assert forall|c: char| c != k implies
                        final(self).has_rules(c) == old_self.has_rules(c)
                            && final(self).rules_for(c) == old_self.rules_for(c) by {
                        if old_self.has_rules(c) {
                            let w = choose|w: int|
                                0 <= w < old_prods.len() && (#[trigger] old_prods[w]).0 == c;
                            assert(self.productions@[w].0 == c);
                            old_self.lemma_rules_for_at(w);
                            self.lemma_rules_for_at(w);
                            assert(w != ii);
                        } else if final(self).has_rules(c) {
                            let w = choose|w: int|
                                0 <= w < self.productions@.len()
                                    && (#[trigger] self.productions@[w]).0 == c;
                            assert(old_prods[w].0 == c);
                        }
                    }
                }
                None
            }
        }
    }

    /// Appends a rule `k -> v` that always fires (weight `PROB_SCALE`).
    pub fn set(&mut self, k: char, v: Vec<char>) -> (r: Option<Vec<char>>)
        requires
            old(self).wf(),
        ensures
            final(self).wf(),
            final(self).has_rules(k),
            final(self).rules_for(k) =~= old(self).rules_for(k).push((v@, PROB_SCALE)),
            forall|c: char| c != k ==> final(self).has_rules(c) == old(self).has_rules(c),
            forall|c: char| c != k ==> final(self).rules_for(c) == old(self).rules_for(c),
            r is Some <==> !old(self).has_rules(k),
            r matches Some(first) ==> first@ == v@,
    {
        self.set_prob(k, v, PROB_SCALE)
    }

    /// Appends an always-firing rule whose replacement is the character
    /// sequence of a string.
    pub fn set_str(&mut self, k: char, v: &str) -> (r: Option<Vec<char>>)
        requires
            old(self).wf(),
        ensures
            final(self).wf(),
            final(self).has_rules(k),
            final(self).rules_for(k) =~= old(self).rules_for(k).push((v@, PROB_SCALE)),
            forall|c: char| c != k ==> final(self).has_rules(c) == old(self).has_rules(c),
            forall|c: char| c != k ==> final(self).rules_for(c) == old(self).rules_for(c),
            r is Some <==> !old(self).has_rules(k),
            r matches Some(first) ==> first@ == v@,
    {
        let chars = str_chars(v);
        self.set(k, chars)
    }

    /// Appends a rule with trigger weight `weight` whose replacement is the
    /// character sequence of a string.
    pub fn set_str_prob(&mut self, k: char, v: &str, weight: u64) -> (r: Option<Vec<char>>)
        requires
            old(self).wf(),
        ensures
            final(self).wf(),
            final(self).has_rules(k),
            final(self).rules_for(k) =~= old(self).rules_for(k).push((v@, weight)),
            forall|c: char| c != k ==> final(self).has_rules(c) == old(self).has_rules(c),
            forall|c: char| c != k ==> final(self).rules_for(c) == old(self).rules_for(c),
            r is Some <==> !old(self).has_rules(k),
            r matches Some(first) ==> first@ == v@,
    {
        let chars = str_chars(v);
        self.set_prob(k, chars, weight)
    }

    /// Looks `input` up: `None` when the symbol is terminal; otherwise the
    /// replacement of the first rule accepted by an independent draw per
    /// rule, or the identity sequence when no rule accepts.
    pub fn map(&self, input: &char, source: &mut RandomSource) -> (r: Option<Vec<char>>)
        requires
            self.wf(),
        ensures
            r is Some <==> self.has_rules(*input),
            r matches Some(out) ==> valid_selection(self.rules_for(*input), *input, out@),
    {
        let found = self.find(*input);
        match found {
            None => None,
            Some(i) => {
                proof {
                    self.lemma_rules_for_at(i as int);
                }
                let rules = &self.productions[i].1;
                let ghost entries = rule_entries(rules@);
                let mut j: usize = 0;
                while j < rules.len()
                    invariant
                        j <= rules@.len(),
                        entries == rule_entries(rules@),
                        entries == self.rules_for(*input),
                        forall|q: int| 0 <= q < j ==> (#[trigger] entries[q]).1 < PROB_SCALE,
                    decreases rules@.len() - j,
                {
                    let draw = source.next_below(PROB_SCALE);
                    if draw < rules[j].weight {
                        let out = clone_chars(&rules[j].replacement);
                        proof {
                            assert(entries[j as int] == (rules@[j as int].replacement@,
                                rules@[j as int].weight));
                            assert(0 <= j < entries.len() && out@ == entries[j as int].0
                                && entries[j as int].1 > 0);
                        }
                        return Some(out);
                    }
                    j += 1;
                }
                let mut out: Vec<char> = Vec::new();
                out.push(*input);
                proof {
                    assert(out@ =~= seq![*input]);
                }
                Some(out)
            }
        }
    }
}

/// The characters of a string, in order, as a vector.
pub fn str_chars(s: &str) -> (r: Vec<char>)
    ensures
        r@ == s@,
{
    let n = s.unicode_len();
    let mut out: Vec<char> = Vec::new();
    let mut i: usize = 0;
    while i < n
        invariant
            i <= n,
            n == s@.len(),
            out@ == s@.take(i as int),
        decreases n - i,
    {
        out.push(s.get_char(i));
        proof {
            assert(out@ =~= s@.take(i + 1 as int));
        }
        i += 1;
    }
    proof {
        assert(s@.take(n as int) =~= s@);
    }
    out
}


} // verus!
