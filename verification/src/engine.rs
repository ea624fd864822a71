//! The grammar engine: one parallel rewrite pass per generation.
//!
//! The engine scans its state left to right once per generation; each
//! symbol is replaced in place by a production of its rules, and newly
//! inserted symbols are not reprocessed within the same pass.  A pass in
//! which no symbol had any rule reports a fixed point.

use vstd::prelude::*;
use crate::rng::RandomSource;
use crate::rules::MapRules;
use crate::rules::clone_chars;
use crate::rules::valid_selection;

verus! {

/// Every symbol of `s` is terminal under `rules`: none has a registered rule.
pub open spec fn all_terminal(rules: MapRules, s: Seq<char>) -> bool {
    forall|i: int| 0 <= i < s.len() ==> !rules.has_rules(#[trigger] s[i])
}

/// What one scan position may produce: a terminal symbol stays itself; a
/// live symbol yields a valid selection from its rules.
pub open spec fn is_step_of(rules: MapRules, sym: char, part: Seq<char>) -> bool {
    if rules.has_rules(sym) {
        valid_selection(rules.rules_for(sym), sym, part)
    } else {
        part == seq![sym]
    }
}

/// Concatenation of all parts, in order.
pub open spec fn concat_all(parts: Seq<Seq<char>>) -> Seq<char>
    decreases parts.len(),
{
    if parts.len() == 0 {
        Seq::empty()
    } else {
        parts[0] + concat_all(parts.drop_first())
    }
}

/// Appending one more part appends its symbols to the concatenation.
pub proof fn lemma_concat_all_push(parts: Seq<Seq<char>>, part: Seq<char>)
    ensures
        concat_all(parts.push(part)) == concat_all(parts) + part,
    decreases parts.len(),
{
    if parts.len() == 0 {
        assert(parts.push(part).drop_first() =~= Seq::<Seq<char>>::empty());
        assert(parts.push(part)[0] == part);
        assert(concat_all(Seq::<Seq<char>>::empty()) == Seq::<char>::empty());
        assert(concat_all(parts.push(part)) == part + Seq::<char>::empty());
        assert(concat_all(parts.push(part)) =~= concat_all(parts) + part);
    } else {
        assert(parts.push(part).drop_first() =~= parts.drop_first().push(part));
        lemma_concat_all_push(parts.drop_first(), part);
        assert(parts.push(part)[0] == parts[0]);
        assert((parts[0] + concat_all(parts.drop_first())) + part
            =~= parts[0] + (concat_all(parts.drop_first()) + part));
    }
}

/// One parallel rewrite step: `after` splits into one part per symbol of
/// `before`, each part a possible production of its symbol.
pub open spec fn is_rewrite(rules: MapRules, before: Seq<char>, after: Seq<char>) -> bool {
    exists|parts: Seq<Seq<char>>|
        {
            &&& parts.len() == before.len()
            &&& after == #[trigger] concat_all(parts)
            &&& forall|i: int| 0 <= i < before.len() ==> is_step_of(rules, before[i], #[trigger] parts[i])
        }
}

/// Concatenating one singleton part per symbol gives the symbols back.
proof fn lemma_concat_singletons(parts: Seq<Seq<char>>, s: Seq<char>)
    requires
        parts.len() == s.len(),
        forall|i: int| 0 <= i < s.len() ==> #[trigger] parts[i] == seq![s[i]],
    ensures
        concat_all(parts) == s,
    decreases s.len(),
{
    if s.len() == 0 {
        assert(concat_all(parts) =~= s);
    } else {
        assert(forall|i: int| 0 <= i < s.drop_first().len()
            ==> #[trigger] parts.drop_first()[i] == seq![s.drop_first()[i]]) by {
            assert(forall|i: int| 0 <= i < s.len() - 1
                ==> parts.drop_first()[i] == parts[i + 1] && s.drop_first()[i] == s[i + 1]);
        }
        lemma_concat_singletons(parts.drop_first(), s.drop_first());
        assert(parts[0] == seq![s[0]]);
        assert(seq![s[0]] + s.drop_first() =~= s);
    }
}

/// A state whose symbols are all terminal is a fixed point: the only
/// rewrite it admits is the state itself, so repeated generations keep
/// reporting the terminal signal on an unchanged state.
pub proof fn lemma_terminal_is_fixed_point(rules: MapRules, before: Seq<char>, after: Seq<char>)
    requires
        all_terminal(rules, before),
        is_rewrite(rules, before, after),
    ensures
        after == before,
{
    let parts = choose|parts: Seq<Seq<char>>|
        {
            &&& parts.len() == before.len()
            &&& after == #[trigger] concat_all(parts)
            &&& forall|i: int| 0 <= i < before.len() ==> is_step_of(rules, before[i], #[trigger] parts[i])
        };
    assert(forall|i: int| 0 <= i < before.len() ==> #[trigger] parts[i] == seq![before[i]]);
    lemma_concat_singletons(parts, before);
}

/// A single live symbol whose first rule always fires rewrites to exactly
/// that rule's replacement, whatever the draws.
pub proof fn lemma_certain_single_symbol(rules: MapRules, sym: char, after: Seq<char>)
    requires
        rules.has_rules(sym),
        rules.rules_for(sym).len() > 0,
        rules.rules_for(sym)[0].1 >= crate::rules::PROB_SCALE,
        is_rewrite(rules, seq![sym], after),
    ensures
        after == rules.rules_for(sym)[0].0,
{
    let before = seq![sym];
    let parts = choose|parts: Seq<Seq<char>>|
        {
            &&& parts.len() == before.len()
            &&& after == #[trigger] concat_all(parts)
            &&& forall|i: int| 0 <= i < before.len() ==> is_step_of(rules, before[i], #[trigger] parts[i])
        };
    assert(is_step_of(rules, sym, parts[0]));
    crate::rules::lemma_certain_first_rule(rules.rules_for(sym), sym, parts[0]);
    assert(parts.drop_first() =~= Seq::<Seq<char>>::empty());
    assert(concat_all(parts.drop_first()) == Seq::<char>::empty());
    assert(concat_all(parts) =~= parts[0]);
}

/// An L-system: a rule store, the start state it was seeded from, and the
/// current generation's state.
pub struct LSystem {
    pub rules: MapRules,
    pub start: Vec<char>,
    pub state: Vec<char>,
}

impl LSystem {
    /// The rule store is well formed.
    pub open spec fn wf(self) -> bool {
        self.rules.wf()
    }

    /// Creates a new L-system from rules and a start state; the initial state is
    /// that start state.
    pub fn new(rules: MapRules, start: Vec<char>) -> (r: LSystem)
        requires
            rules.wf(),
        ensures
            r.wf(),
            r.rules == rules,
            r.start@ == start@,
            r.state@ == start@,
    {
        let state = clone_chars(&start);
        LSystem { rules: rules, start: start, state: state }
    }

    /// Resets the state back to the start state, discarding accumulated
    /// generations.
    pub fn reset(&mut self)
        ensures
            final(self).state@ == old(self).start@,
            final(self).start@ == old(self).start@,
            final(self).rules == old(self).rules,
    {
        self.state = clone_chars(&self.start);
    }

    /// Advances one generation.  Scans the state left to right once; every
    /// live symbol is replaced by a production chosen with `source` (the
    /// identity sequence when none of its rules accepts), every terminal
    /// symbol is kept.  Returns the new state, or `None` when every symbol
    /// is terminal, in which case the state is unchanged: a fixed point.
    pub fn next(&mut self, source: &mut RandomSource) -> (r: Option<Vec<char>>)
        requires
            old(self).wf(),
        ensures
            final(self).wf(),
            final(self).rules == old(self).rules,
            final(self).start@ == old(self).start@,
            r is Some <==> !all_terminal(old(self).rules, old(self).state@),
            r is None ==> final(self).state@ == old(self).state@,
            r matches Some(v) ==> v@ == final(self).state@
                && is_rewrite(old(self).rules, old(self).state@, final(self).state@),
    {
        let mut out: Vec<char> = Vec::new();
        let mut expanded = false;
        let ghost mut parts: Seq<Seq<char>> = Seq::empty();
        let n = self.state.len();
        let mut i: usize = 0;
        while i < n
            invariant
                *self == *old(self),
                old(self).wf(),
                i <= n,
                n == self.state@.len(),
                parts.len() == i,
                out@ == concat_all(parts),
                forall|q: int| 0 <= q < i
                    ==> is_step_of(self.rules, self.state@[q], #[trigger] parts[q]),
                expanded <==> exists|q: int|
                    0 <= q < i && self.rules.has_rules(#[trigger] self.state@[q]),
            decreases n - i,
        {
            let c = self.state[i];
            let production = self.rules.map(&c, source);
            match production {
                Some(mut atoms) => {
                    let ghost part = atoms@;
                    out.append(&mut atoms);
                    expanded = true;
                    proof {
                        lemma_concat_all_push(parts, part);
                        parts = parts.push(part);
                        assert(self.rules.has_rules(self.state@[i as int]));
                    }
                }
                None => {
                    out.push(c);
                    proof {
                        lemma_concat_all_push(parts, seq![c]);
                        assert(out@ == concat_all(parts) + seq![c]);
                        parts = parts.push(seq![c]);
                    }
                }
            }
            i += 1;
        }
        if expanded {
            self.state = out;
            let result = clone_chars(&self.state);
            proof {
                assert(parts.len() == old(self).state@.len()
                    && self.state@ == concat_all(parts)
                    && forall|q: int| 0 <= q < old(self).state@.len()
                        ==> is_step_of(old(self).rules, old(self).state@[q], #[trigger] parts[q]));
                assert(is_rewrite(old(self).rules, old(self).state@, self.state@));
            }
            Some(result)
        } else {
            None
        }
    }
}

/// Relies on String::push, which appends exactly the given character.
#[verifier::external_body]
fn push_char(s: &mut String, c: char)
    ensures
        final(s)@ == old(s)@.push(c),
{
    s.push(c);
}

/// The string holding exactly the characters of `v`, in order.
pub fn to_string(v: &Vec<char>) -> (r: String)
    ensures
        r@ == v@,
{
    let mut out = String::new();
    let mut i: usize = 0;
    while i < v.len()
        invariant
            i <= v@.len(),
            out@ == v@.take(i as int),
        decreases v@.len() - i,
    {
        push_char(&mut out, v[i]);
        proof {
            assert(out@ =~= v@.take(i + 1 as int));
        }
        i += 1;
    }
    proof {
        assert(v@.take(v@.len() as int) =~= v@);
    }
    out
}

} // verus!
