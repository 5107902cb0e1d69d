//! The "top issue rules" summary: how often each rule identifier occurs
//! across a report's findings, and the five most frequent.

use vstd::prelude::*;
use crate::select::search::{lex_less, lex_lt, lemma_lex_irreflexive, lemma_lex_total, lemma_lex_transitive};
use crate::text::str_eq;
use super::model::{Finding, FindingGroup};

verus! {

/// The rule identifiers of `fs`, in order, skipping findings without one.
pub open spec fn finding_rules(fs: Seq<Finding>) -> Seq<Seq<char>>
    decreases fs.len(),
{
    if fs.len() == 0 {
        Seq::empty()
    } else {
        finding_rules(fs.drop_last()) + match fs.last().rule_id {
            Some(r) => seq![r@],
            None => Seq::empty(),
        }
    }
}

/// The rule identifiers of every finding of every group, in order.
pub open spec fn report_rules(gs: Seq<FindingGroup>) -> Seq<Seq<char>>
    decreases gs.len(),
{
    if gs.len() == 0 {
        Seq::empty()
    } else {
        report_rules(gs.drop_last()) + finding_rules(gs.last().findings@)
    }
}

/// How many times `r` occurs in `s`.
pub open spec fn occurrences(s: Seq<Seq<char>>, r: Seq<char>) -> nat
    decreases s.len(),
{
    if s.len() == 0 {
        0
    } else {
        occurrences(s.drop_last(), r) + if s.last() == r { 1nat } else { 0nat }
    }
}

/// How many findings carry rule `r`, counted up to the largest `usize`.
pub open spec fn rule_count(rules: Seq<Seq<char>>, r: Seq<char>) -> nat {
    if occurrences(rules, r) > usize::MAX { usize::MAX as nat } else { occurrences(rules, r) }
}

/// Whether rule entry `a` is listed before `b`: more findings first, then
/// rule identifiers in code-point order.
pub open spec fn ranks_first(a: (Seq<char>, nat), b: (Seq<char>, nat)) -> bool {
    a.1 > b.1 || (a.1 == b.1 && lex_lt(a.0, b.0))
}

/// `out` is the top of the rule list: at most five rules with their counts,
/// in listing order, such that every other rule is listed after all five.
pub open spec fn top_ok(rules: Seq<Seq<char>>, out: Seq<(Seq<char>, nat)>) -> bool {
    &&& out.len() <= 5
    &&& forall|k: int| 0 <= k < out.len() ==> rules.contains((#[trigger] out[k]).0)
        && out[k].1 == rule_count(rules, out[k].0)
    &&& forall|a: int, b: int| 0 <= a < b < out.len() ==> ranks_first(#[trigger] out[a], #[trigger] out[b])
    &&& forall|r: Seq<char>| #[trigger] rules.contains(r) ==>
        (exists|k: int| 0 <= k < out.len() && (#[trigger] out[k]).0 == r)
        || (out.len() == 5 && ranks_first(out[4], (r, rule_count(rules, r))))
}

/// The five most frequent rules, most frequent first.
pub open spec fn top_rules(rules: Seq<Seq<char>>) -> Seq<(Seq<char>, nat)> {
    choose|out: Seq<(Seq<char>, nat)>| top_ok(rules, out)
}

proof fn lemma_ranks_first_irreflexive(a: (Seq<char>, nat))
    ensures
        !ranks_first(a, a),
{
    lemma_lex_irreflexive(a.0);
}

proof fn lemma_ranks_first_transitive(a: (Seq<char>, nat), b: (Seq<char>, nat), c: (Seq<char>, nat))
    requires
        ranks_first(a, b),
        ranks_first(b, c),
    ensures
        ranks_first(a, c),
{
    if a.1 == b.1 && b.1 == c.1 {
        lemma_lex_transitive(a.0, b.0, c.0);
    }
}

proof fn lemma_ranks_first_total(a: (Seq<char>, nat), b: (Seq<char>, nat))
    requires
        a.0 != b.0,
    ensures
        ranks_first(a, b) || ranks_first(b, a),
{
    lemma_lex_total(a.0, b.0);
}

/// The top of a rule list is determined by the list: two lists that both
/// meet `top_ok` agree at every position.
proof fn lemma_top_prefix(rules: Seq<Seq<char>>, o1: Seq<(Seq<char>, nat)>, o2: Seq<(Seq<char>, nat)>, k: int)
    requires
        top_ok(rules, o1),
        top_ok(rules, o2),
        0 <= k <= o1.len(),
        k <= o2.len(),
    ensures
        forall|j: int| 0 <= j < k ==> o1[j] == o2[j],
    decreases k,
{
    if k > 0 {
        lemma_top_prefix(rules, o1, o2, k - 1);
        let j = k - 1;
        let a = o1[j];
        let b = o2[j];
        if a != b {
            assert(a.0 != b.0);
            lemma_ranks_first_total(a, b);
            if ranks_first(a, b) {
                lemma_top_misses(rules, o1, o2, j);
            } else {
                lemma_top_misses(rules, o2, o1, j);
            }
        }
    }
}

/// Where two tops agree before `j`, the entry of one at `j` does not rank
/// before the other's.
proof fn lemma_top_misses(rules: Seq<Seq<char>>, o1: Seq<(Seq<char>, nat)>, o2: Seq<(Seq<char>, nat)>, j: int)
    requires
        top_ok(rules, o1),
        top_ok(rules, o2),
        0 <= j < o1.len(),
        j < o2.len(),
        forall|i: int| 0 <= i < j ==> o1[i] == o2[i],
    ensures
        !ranks_first(o1[j], o2[j]),
{
    if ranks_first(o1[j], o2[j]) {
        let a = o1[j];
        let b = o2[j];
        assert(rules.contains(a.0));
        if exists|m: int| 0 <= m < o2.len() && (#[trigger] o2[m]).0 == a.0 {
            let m = choose|m: int| 0 <= m < o2.len() && (#[trigger] o2[m]).0 == a.0;
            assert(o2[m] == a);
            if m < j {
                assert(o1[m] == a);
                assert(ranks_first(o1[m], o1[j]));
                lemma_ranks_first_irreflexive(a);
            } else if m == j {
                lemma_ranks_first_irreflexive(a);
            } else {
                assert(ranks_first(o2[j], o2[m]));
                lemma_ranks_first_transitive(a, b, a);
                lemma_ranks_first_irreflexive(a);
            }
        } else {
            assert(o2.len() == 5 && ranks_first(o2[4], (a.0, rule_count(rules, a.0))));
            assert((a.0, rule_count(rules, a.0)) == a);
            if j < 4 {
                assert(ranks_first(o2[j], o2[4]));
                lemma_ranks_first_transitive(b, o2[4], a);
            }
            lemma_ranks_first_transitive(a, b, a);
            lemma_ranks_first_irreflexive(a);
        }
    }
}

/// The top issue rules are determined by the report's rule identifiers:
/// there is exactly one list of at most five rules, most frequent first and
/// ties in code-point order, that no other rule would enter.
pub proof fn law_top_rules_unique(rules: Seq<Seq<char>>, o1: Seq<(Seq<char>, nat)>, o2: Seq<(Seq<char>, nat)>)
    requires
        top_ok(rules, o1),
        top_ok(rules, o2),
    ensures
        o1 == o2,
{
    lemma_top_short(rules, o1, o2);
    lemma_top_short(rules, o2, o1);
    lemma_top_prefix(rules, o1, o2, o1.len() as int);
    assert(o1 =~= o2);
}

/// Two tops have the same length.
proof fn lemma_top_short(rules: Seq<Seq<char>>, o1: Seq<(Seq<char>, nat)>, o2: Seq<(Seq<char>, nat)>)
    requires
        top_ok(rules, o1),
        top_ok(rules, o2),
    ensures
        o1.len() >= o2.len(),
{
    if o1.len() < o2.len() {
        lemma_top_prefix(rules, o1, o2, o1.len() as int);
        let k = o1.len() as int;
        let b = o2[k];
        assert(rules.contains(b.0));
        if exists|m: int| 0 <= m < o1.len() && (#[trigger] o1[m]).0 == b.0 {
            let m = choose|m: int| 0 <= m < o1.len() && (#[trigger] o1[m]).0 == b.0;
            assert(o1[m] == o2[m]);
            assert(o2[m] == b);
            assert(ranks_first(o2[m], o2[k]));
            lemma_ranks_first_irreflexive(b);
        }
    }
}

proof fn lemma_occurrences_absent(s: Seq<Seq<char>>, r: Seq<char>)
    requires
        !s.contains(r),
    ensures
        occurrences(s, r) == 0,
    decreases s.len(),
{
    if s.len() > 0 {
        assert(!s.drop_last().contains(r)) by {
            if s.drop_last().contains(r) {
                let i = choose|i: int| 0 <= i < s.drop_last().len() && s.drop_last()[i] == r;
                assert(s[i] == r);
            }
        }
        lemma_occurrences_absent(s.drop_last(), r);
    }
}

/// The occurrence counts of the rules seen so far: `keys` holds each seen
/// rule once, and `counts` how often it was seen.
pub open spec fn tally_ok(seen: Seq<Seq<char>>, keys: Seq<String>, counts: Seq<usize>) -> bool {
    &&& keys.len() == counts.len()
    &&& forall|k: int| 0 <= k < keys.len() ==> seen.contains((#[trigger] keys[k])@)
    &&& forall|k: int| 0 <= k < keys.len() ==> counts[k] as nat == rule_count(seen, (#[trigger] keys[k])@)
    &&& forall|r: Seq<char>| #[trigger] seen.contains(r) ==> exists|k: int| 0 <= k < keys.len() && (#[trigger] keys[k])@ == r
    &&& forall|a: int, b: int| 0 <= a < b < keys.len() ==> (#[trigger] keys[a])@ != (#[trigger] keys[b])@
}

/// Where in `keys` the rule `r` is, if it is there.
fn find_key(keys: &Vec<String>, r: &str) -> (i: Option<usize>)
    ensures
        i matches Some(k) ==> k < keys@.len() && keys@[k as int]@ == r@,
        i is None ==> forall|k: int| 0 <= k < keys@.len() ==> (#[trigger] keys@[k])@ != r@,
{
    let mut j: usize = 0;
    while j < keys.len()
        invariant
            j <= keys@.len(),
            forall|k: int| 0 <= k < j ==> (#[trigger] keys@[k])@ != r@,
        decreases keys@.len() - j,
    {
        if str_eq(keys[j].as_str(), r) {
            return Some(j);
        }
        j = j + 1;
    }
    None
}

/// Records one more occurrence of rule `r`.
fn tally(keys: &mut Vec<String>, counts: &mut Vec<usize>, r: &String, Ghost(seen): Ghost<Seq<Seq<char>>>)
    requires
        tally_ok(seen, old(keys)@, old(counts)@),
    ensures
        tally_ok(seen.push(r@), final(keys)@, final(counts)@),
{
    let ghost s2 = seen.push(r@);
    assert forall|x: Seq<char>| x != r@ implies occurrences(s2, x) == occurrences(seen, x) by {
        assert(s2.drop_last() =~= seen);
    }
    assert(s2.drop_last() =~= seen);
    assert(occurrences(s2, r@) == occurrences(seen, r@) + 1);
    match find_key(keys, r.as_str()) {
        Some(k) => {
            let c = counts[k];
            let c2 = c.saturating_add(1);
            counts.set(k, c2);
            proof {
                assert forall|m: int| 0 <= m < keys@.len() implies s2.contains((#[trigger] keys@[m])@) by {
                    assert(seen.contains(keys@[m]@));
                    let i = choose|i: int| 0 <= i < seen.len() && seen[i] == keys@[m]@;
                    assert(s2[i] == keys@[m]@);
                }
                assert forall|x: Seq<char>| #[trigger] s2.contains(x) implies exists|m: int| 0 <= m < keys@.len() && (#[trigger] keys@[m])@ == x by {
                    let i = choose|i: int| 0 <= i < s2.len() && s2[i] == x;
                    if i < seen.len() {
                        assert(seen[i] == x);
                        assert(seen.contains(x));
                    } else {
                        assert(keys@[k as int]@ == x);
                    }
                }
            }
        },
        None => {
            proof { lemma_occurrences_absent(seen, r@); }
            let ghost old_keys = keys@;
            keys.push(r.clone());
            counts.push(1);
            proof {
                let n = old_keys.len() as int;
                assert(keys@[n]@ == r@);
                assert forall|m: int| 0 <= m < keys@.len() implies s2.contains((#[trigger] keys@[m])@) by {
                    if m < n {
                        assert(keys@[m] == old_keys[m]);
                        assert(seen.contains(old_keys[m]@));
                        let i = choose|i: int| 0 <= i < seen.len() && seen[i] == old_keys[m]@;
                        assert(s2[i] == keys@[m]@);
                    } else {
                        assert(s2[seen.len() as int] == r@);
                    }
                }
                assert forall|m: int| 0 <= m < keys@.len() implies counts@[m] as nat == rule_count(s2, (#[trigger] keys@[m])@) by {
                    if m < n {
                        assert(keys@[m] == old_keys[m]);
                        assert(old_keys[m]@ != r@);
                    }
                }
                assert forall|x: Seq<char>| #[trigger] s2.contains(x) implies exists|m: int| 0 <= m < keys@.len() && (#[trigger] keys@[m])@ == x by {
                    let i = choose|i: int| 0 <= i < s2.len() && s2[i] == x;
                    if i < seen.len() {
                        assert(seen[i] == x);
                        assert(seen.contains(x));
                        let m = choose|m: int| 0 <= m < old_keys.len() && (#[trigger] old_keys[m])@ == x;
                        assert(keys@[m] == old_keys[m]);
                    } else {
                        assert(keys@[n]@ == x);
                    }
                }
                assert forall|a: int, b: int| 0 <= a < b < keys@.len() implies (#[trigger] keys@[a])@ != (#[trigger] keys@[b])@ by {
                    assert(keys@[a] == old_keys[a]);
                    if b < n {
                        assert(keys@[b] == old_keys[b]);
                    }
                }
            }
        },
    }
}

/// Counts every rule identifier of every finding of `groups`.
pub fn count_rules(groups: &Vec<FindingGroup>) -> (r: (Vec<String>, Vec<usize>))
    ensures
        tally_ok(report_rules(groups@), r.0@, r.1@),
{
    let mut keys: Vec<String> = Vec::new();
    let mut counts: Vec<usize> = Vec::new();
    let mut g: usize = 0;
    while g < groups.len()
        invariant
            g <= groups@.len(),
            tally_ok(report_rules(groups@.take(g as int)), keys@, counts@),
        decreases groups@.len() - g,
    {
        let fs = &groups[g].findings;
        let ghost before = report_rules(groups@.take(g as int));
        let mut i: usize = 0;
        while i < fs.len()
            invariant
                fs == groups@[g as int].findings,
                i <= fs@.len(),
                tally_ok(before + finding_rules(fs@.take(i as int)), keys@, counts@),
            decreases fs@.len() - i,
        {
            let ghost seen = before + finding_rules(fs@.take(i as int));
            proof {
                assert(fs@.take(i as int + 1).drop_last() =~= fs@.take(i as int));
                assert(fs@.take(i as int + 1).last() == fs@[i as int]);
            }
            match &fs[i].rule_id {
                Some(r) => {
                    tally(&mut keys, &mut counts, r, Ghost(seen));
                    assert(before + finding_rules(fs@.take(i as int + 1)) =~= seen.push(r@));
                },
                None => {
                    assert(before + finding_rules(fs@.take(i as int + 1)) =~= seen);
                },
            }
            i = i + 1;
        }
        proof {
            assert(fs@.take(i as int) =~= fs@);
            assert(groups@.take(g as int + 1).drop_last() =~= groups@.take(g as int));
            assert(groups@.take(g as int + 1).last() == groups@[g as int]);
        }
        g = g + 1;
    }
    assert(groups@.take(g as int) =~= groups@);
    (keys, counts)
}

/// The entry of a tallied rule.
pub open spec fn entry(keys: Seq<String>, counts: Seq<usize>, i: int) -> (Seq<char>, nat) {
    (keys[i]@, counts[i] as nat)
}

/// The entries at the indices `idx`.
pub open spec fn entries_at(keys: Seq<String>, counts: Seq<usize>, idx: Seq<usize>) -> Seq<(Seq<char>, nat)> {
    idx.map_values(|i: usize| entry(keys, counts, i as int))
}

/// Whether tallied entry `a` is listed before entry `b`.
fn ranks_first_at(keys: &Vec<String>, counts: &Vec<usize>, a: usize, b: usize) -> (r: bool)
    requires
        a < keys@.len(),
        b < keys@.len(),
        keys@.len() == counts@.len(),
    ensures
        r == ranks_first(entry(keys@, counts@, a as int), entry(keys@, counts@, b as int)),
{
    if counts[a] != counts[b] {
        counts[a] > counts[b]
    } else {
        lex_less(keys[a].as_str(), keys[b].as_str())
    }
}

/// Whether `i` is among `chosen`.
fn is_chosen(chosen: &Vec<usize>, i: usize) -> (r: bool)
    ensures
        r == chosen@.contains(i),
{
    let mut j: usize = 0;
    while j < chosen.len()
        invariant
            j <= chosen@.len(),
            forall|k: int| 0 <= k < j ==> chosen@[k] != i,
        decreases chosen@.len() - j,
    {
        if chosen[j] == i {
            return true;
        }
        j = j + 1;
    }
    false
}

/// The five most frequent tallied rules, as indices into the tally.
pub fn select_top(keys: &Vec<String>, counts: &Vec<usize>, Ghost(rules): Ghost<Seq<Seq<char>>>) -> (idx: Vec<usize>)
    requires
        tally_ok(rules, keys@, counts@),
    ensures
        forall|k: int| 0 <= k < idx@.len() ==> idx@[k] < keys@.len(),
        top_ok(rules, entries_at(keys@, counts@, idx@)),
{
    let n = keys.len();
    let mut chosen: Vec<usize> = Vec::new();
    let mut done = false;
    while !done
        invariant
            n == keys@.len(),
            tally_ok(rules, keys@, counts@),
            chosen@.len() <= 5,
            !done ==> chosen@.len() < 5,
            forall|k: int| 0 <= k < chosen@.len() ==> chosen@[k] < n,
            forall|a: int, b: int| 0 <= a < b < chosen@.len() ==>
                ranks_first(entry(keys@, counts@, chosen@[a] as int), entry(keys@, counts@, chosen@[b] as int)),
            forall|k: int, j: usize| #![trigger chosen@[k], chosen@.contains(j)]
                0 <= k < chosen@.len() && j < n && !chosen@.contains(j) ==>
                ranks_first(entry(keys@, counts@, chosen@[k] as int), entry(keys@, counts@, j as int)),
            done ==> chosen@.len() == 5 || forall|j: usize| j < n ==> #[trigger] chosen@.contains(j),
        decreases 5 - chosen@.len() + (if done { 0int } else { 1int }),
    {
        let mut best: Option<usize> = None;
        let mut j: usize = 0;
        while j < n
            invariant
                n == keys@.len(),
                keys@.len() == counts@.len(),
                j <= n,
                best matches Some(b) ==> b < j && !chosen@.contains(b),
                best is None ==> forall|m: usize| m < j ==> #[trigger] chosen@.contains(m),
                best matches Some(b) ==> forall|m: usize| m < j && !(#[trigger] chosen@.contains(m)) && m != b ==>
                    ranks_first(entry(keys@, counts@, b as int), entry(keys@, counts@, m as int)),
                forall|a: int, c: int| 0 <= a < c < keys@.len() ==> (#[trigger] keys@[a])@ != (#[trigger] keys@[c])@,
            decreases n - j,
        {
            if !is_chosen(&chosen, j) {
                match best {
                    None => { best = Some(j); },
                    Some(b) => {
                        if ranks_first_at(keys, counts, j, b) {
                            proof {
                                assert forall|m: usize| m < j + 1 && !(#[trigger] chosen@.contains(m)) && m != j implies
                                    ranks_first(entry(keys@, counts@, j as int), entry(keys@, counts@, m as int)) by {
                                    if m != b {
                                        lemma_ranks_first_transitive(entry(keys@, counts@, j as int),
                                            entry(keys@, counts@, b as int), entry(keys@, counts@, m as int));
                                    }
                                }
                            }
                            best = Some(j);
                        } else {
                            proof {
                                assert(keys@[j as int]@ != keys@[b as int]@);
                                lemma_ranks_first_total(entry(keys@, counts@, j as int), entry(keys@, counts@, b as int));
                            }
                        }
                    },
                }
            }
            j = j + 1;
        }
        match best {
            None => { done = true; },
            Some(b) => {
                let ghost old_chosen = chosen@;
                chosen.push(b);
                proof {
                    assert forall|a: int, c: int| 0 <= a < c < chosen@.len() implies
                        ranks_first(entry(keys@, counts@, chosen@[a] as int), entry(keys@, counts@, chosen@[c] as int)) by {
                        if c < old_chosen.len() {
                            assert(chosen@[a] == old_chosen[a] && chosen@[c] == old_chosen[c]);
                        } else {
                            assert(chosen@[a] == old_chosen[a]);
                            assert(!old_chosen.contains(b));
                        }
                    }
                    assert forall|k: int, m: usize| #![trigger chosen@[k], chosen@.contains(m)]
                        0 <= k < chosen@.len() && m < n && !chosen@.contains(m) implies
                        ranks_first(entry(keys@, counts@, chosen@[k] as int), entry(keys@, counts@, m as int)) by {
                        assert(!old_chosen.contains(m)) by {
                            if old_chosen.contains(m) {
                                let w = choose|w: int| 0 <= w < old_chosen.len() && old_chosen[w] == m;
                                assert(chosen@[w] == m);
                            }
                        }
                        assert(m != b) by {
                            if m == b {
                                assert(chosen@[old_chosen.len() as int] == b);
                            }
                        }
                        if k < old_chosen.len() {
                            assert(chosen@[k] == old_chosen[k]);
                        }
                    }
                    assert forall|m: int| 0 <= m < old_chosen.len() implies chosen@[m] == old_chosen[m] by {}
                }
                if chosen.len() == 5 {
                    done = true;
                }
            },
        }
    }
    proof {
        let out = entries_at(keys@, counts@, chosen@);
        assert forall|r: Seq<char>| #[trigger] rules.contains(r) implies
            (exists|k: int| 0 <= k < out.len() && (#[trigger] out[k]).0 == r)
            || (out.len() == 5 && ranks_first(out[4], (r, rule_count(rules, r)))) by {
            let j = choose|j: int| 0 <= j < keys@.len() && (#[trigger] keys@[j])@ == r;
            let ju = j as usize;
            assert(entry(keys@, counts@, ju as int) == (r, rule_count(rules, r)));
            if chosen@.contains(ju) {
                let k = choose|k: int| 0 <= k < chosen@.len() && chosen@[k] == ju;
                assert(out[k].0 == r);
            } else {
                assert(chosen@.len() == 5);
                assert(ranks_first(entry(keys@, counts@, chosen@[4] as int), entry(keys@, counts@, ju as int)));
            }
        }
        assert forall|k: int| 0 <= k < out.len() implies rules.contains((#[trigger] out[k]).0)
            && out[k].1 == rule_count(rules, out[k].0) by {
            assert(out[k] == entry(keys@, counts@, chosen@[k] as int));
        }
        assert forall|a: int, b: int| 0 <= a < b < out.len() implies ranks_first(#[trigger] out[a], #[trigger] out[b]) by {
            assert(out[a] == entry(keys@, counts@, chosen@[a] as int));
            assert(out[b] == entry(keys@, counts@, chosen@[b] as int));
        }
    }
    chosen
}

} // verus!
