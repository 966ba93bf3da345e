use vstd::prelude::*;
use crate::ids::{GroupId, RuleId};
use crate::models::{AppStateStorage, AppToRun, AppToRunView, CoreGroup, apps_view};
use crate::text::{concat, format_usize, parse_usize, parse_usize_spec, str_chars, decimal,
    lemma_parse_decimal};

verus! {

/// Persisted identity of one group and its rules.
#[derive(Clone, Debug, PartialEq, Eq)]
pub struct PersistedGroupIdentity {
    pub id: GroupId,
    pub rule_ids: Vec<RuleId>,
}

/// Persisted identities of all groups, in group order.
#[derive(Clone, Debug, Default, PartialEq, Eq)]
pub struct PersistedRuleIdentities {
    pub groups: Vec<PersistedGroupIdentity>,
}

/// The text of a list of rule ids.
pub open spec fn rule_ids_text(v: Seq<RuleId>) -> Seq<Seq<char>> {
    v.map_values(|r: RuleId| r@)
}

/// The text of a list of group ids.
pub open spec fn group_ids_text(v: Seq<GroupId>) -> Seq<Seq<char>> {
    v.map_values(|g: GroupId| g@)
}

/// Group ids of persisted identities, in order.
pub open spec fn persisted_group_ids(p: PersistedRuleIdentities) -> Seq<Seq<char>> {
    p.groups@.map_values(|g: PersistedGroupIdentity| g.id@)
}

/// Rule ids of persisted identities, per group.
pub open spec fn persisted_rule_ids(p: PersistedRuleIdentities) -> Seq<Seq<Seq<char>>> {
    p.groups@.map_values(|g: PersistedGroupIdentity| rule_ids_text(g.rule_ids@))
}

/// The prefix of ids this tool allocates for groups.
pub open spec fn group_prefix() -> Seq<char> {
    seq!['g', 'r', 'o', 'u', 'p', '-']
}

/// The prefix of ids this tool allocates for rules.
pub open spec fn rule_prefix() -> Seq<char> {
    seq!['r', 'u', 'l', 'e', '-']
}

/// The number carried by an id of the form `<prefix><decimal>`, as the seed reader parses it.
pub open spec fn id_number(s: Seq<char>, prefix: Seq<char>) -> Option<usize> {
    if s.len() >= prefix.len() && s.take(prefix.len() as int) == prefix {
        parse_usize_spec(s.skip(prefix.len() as int))
    } else {
        None
    }
}

/// One more than the largest number carried by the ids, or zero when none carries one.
pub open spec fn seed_of(ids: Seq<Seq<char>>, prefix: Seq<char>) -> nat
    decreases ids.len(),
{
    if ids.len() == 0 {
        0
    } else {
        let rest = seed_of(ids.drop_last(), prefix);
        match id_number(ids.last(), prefix) {
            Some(n) => if n + 1 > rest { (n + 1) as nat } else { rest },
            None => rest,
        }
    }
}

/// `seed_of` over the rule ids of every group.
pub open spec fn nested_seed_of(ids: Seq<Seq<Seq<char>>>, prefix: Seq<char>) -> nat
    decreases ids.len(),
{
    if ids.len() == 0 {
        0
    } else {
        let rest = nested_seed_of(ids.drop_last(), prefix);
        let here = seed_of(ids.last(), prefix);
        if here > rest { here } else { rest }
    }
}

/// Total number of rules in a list of groups.
pub open spec fn total_programs(groups: Seq<CoreGroup>) -> nat
    decreases groups.len(),
{
    if groups.len() == 0 {
        0
    } else {
        total_programs(groups.drop_last()) + groups.last().programs@.len()
    }
}

/// Id allocated for the `n`-th group.
pub open spec fn allocated_group_id(n: nat) -> Seq<char> {
    group_prefix() + decimal(n)
}

/// Id allocated for the `n`-th rule.
pub open spec fn allocated_rule_id(n: nat) -> Seq<char> {
    rule_prefix() + decimal(n)
}

proof fn lemma_id_number_of_allocated(n: usize, prefix: Seq<char>)
    ensures
        id_number(prefix + decimal(n as nat), prefix) == Some(n),
{
    let s = prefix + decimal(n as nat);
    assert(s.take(prefix.len() as int) =~= prefix);
    assert(s.skip(prefix.len() as int) =~= decimal(n as nat));
    lemma_parse_decimal(n);
}

proof fn lemma_seed_bound(ids: Seq<Seq<char>>, prefix: Seq<char>)
    ensures
        forall|i: int| 0 <= i < ids.len() ==> (id_number(#[trigger] ids[i], prefix) matches Some(n)
            ==> n < seed_of(ids, prefix)),
    decreases ids.len(),
{
    if ids.len() > 0 {
        lemma_seed_bound(ids.drop_last(), prefix);
        assert forall|i: int| 0 <= i < ids.len() implies (id_number(#[trigger] ids[i], prefix) matches Some(n)
            ==> n < seed_of(ids, prefix)) by {
            if i < ids.len() - 1 {
                assert(ids[i] == ids.drop_last()[i]);
            }
        }
    }
}

proof fn lemma_nested_seed_bound(ids: Seq<Seq<Seq<char>>>, prefix: Seq<char>)
    ensures
        forall|g: int, r: int|
            0 <= g < ids.len() && 0 <= r < ids[g].len() ==> (id_number(#[trigger] ids[g][r], prefix)
                matches Some(n) ==> n < nested_seed_of(ids, prefix)),
    decreases ids.len(),
{
    if ids.len() > 0 {
        lemma_nested_seed_bound(ids.drop_last(), prefix);
        lemma_seed_bound(ids.last(), prefix);
        assert forall|g: int, r: int|
            0 <= g < ids.len() && 0 <= r < ids[g].len() implies (id_number(#[trigger] ids[g][r], prefix)
                matches Some(n) ==> n < nested_seed_of(ids, prefix)) by {
            if g < ids.len() - 1 {
                assert(ids[g] == ids.drop_last()[g]);
            } else {
                assert(ids[g] == ids.last());
            }
        }
    }
}

} // verus!

verus! {

/// Number of rules of each group, in order.
pub open spec fn program_counts(groups: Seq<CoreGroup>) -> Seq<nat> {
    groups.map_values(|g: CoreGroup| g.programs@.len())
}

/// `min(a, b)`.
pub open spec fn min_nat(a: nat, b: nat) -> nat {
    if a <= b { a } else { b }
}

/// The rule ids of groups `0..n` of `rows`, padded with empty groups up to `n`.
pub open spec fn resize_rows(rows: Seq<Seq<Seq<char>>>, n: nat) -> Seq<Seq<Seq<char>>> {
    Seq::new(n, |g: int| if g < rows.len() { rows[g] } else { Seq::<Seq<char>>::empty() })
}

/// How many rule ids groups `0..g` lack once each is cut to its target size.
pub open spec fn deficit_before(rows: Seq<Seq<Seq<char>>>, counts: Seq<nat>, g: int) -> nat
    decreases g,
{
    if g <= 0 {
        0
    } else {
        deficit_before(rows, counts, g - 1) + (counts[g - 1] - min_nat(
            rows[g - 1].len(),
            counts[g - 1],
        )) as nat
    }
}

/// The group ids after reconciling `groups` (with `next` as the group counter) to `n` groups:
/// extra ids are dropped from the end, missing ones are freshly allocated.
pub open spec fn reconciled_groups(groups: Seq<Seq<char>>, next: nat, n: nat) -> Seq<Seq<char>> {
    Seq::new(
        n,
        |g: int|
            if g < groups.len() {
                groups[g]
            } else {
                allocated_group_id((next + g - groups.len()) as nat)
            },
    )
}

/// The rule ids after reconciling `rows` (with `next` as the rule counter) to the rule counts
/// `counts`: each group keeps its first ids, loses extra ones from the end, and missing ones are
/// freshly allocated in group order.
pub open spec fn reconciled_rules(rows: Seq<Seq<Seq<char>>>, next: nat, counts: Seq<nat>) -> Seq<
    Seq<Seq<char>>,
> {
    let padded = resize_rows(rows, counts.len());
    Seq::new(
        counts.len(),
        |g: int|
            {
                let kept = min_nat(padded[g].len(), counts[g]);
                padded[g].take(kept as int) + Seq::new(
                    (counts[g] - kept) as nat,
                    |k: int| allocated_rule_id((next + deficit_before(padded, counts, g) + k) as nat),
                )
            },
    )
}

/// A rules context: the stable ids of every group and of every rule in each group, and the
/// counters from which new ids are allocated.
pub struct RulesContext {
    next_group_id: usize,
    next_rule_id: usize,
    group_ids: Vec<GroupId>,
    rule_ids: Vec<Vec<RuleId>>,
}

impl RulesContext {
    /// Group ids, in group order.
    pub closed spec fn groups(&self) -> Seq<Seq<char>> {
        group_ids_text(self.group_ids@)
    }

    /// Rule ids of each group, in rule order.
    pub closed spec fn rules(&self) -> Seq<Seq<Seq<char>>> {
        self.rule_ids@.map_values(|v: Vec<RuleId>| rule_ids_text(v@))
    }

    /// Number the next allocated group id will carry.
    pub closed spec fn next_group(&self) -> nat {
        self.next_group_id as nat
    }

    /// Number the next allocated rule id will carry.
    pub closed spec fn next_rule(&self) -> nat {
        self.next_rule_id as nat
    }

    /// Well-formedness: one list of rule ids per group, and every id of the allocated shape
    /// carries a number below the matching counter, so fresh ids never collide.
    pub open spec fn wf(&self) -> bool {
        &&& self.groups().len() == self.rules().len()
        &&& forall|i: int|
            0 <= i < self.groups().len() ==> (id_number(#[trigger] self.groups()[i], group_prefix())
                matches Some(n) ==> n < self.next_group())
        &&& forall|g: int, r: int|
            0 <= g < self.rules().len() && 0 <= r < self.rules()[g].len() ==> (id_number(
                #[trigger] self.rules()[g][r],
                rule_prefix(),
            ) matches Some(n) ==> n < self.next_rule())
    }
}

} // verus!

verus! {

fn prefixed_number(prefix: &str, n: usize) -> (r: String)
    ensures
        r@ == prefix@ + decimal(n as nat),
{
    let digits = format_usize(n);
    concat(prefix, digits.as_str())
}

/// Two ids are equal exactly when their texts are.
fn text_eq(a: &String, b: &String) -> (r: bool)
    ensures
        r == (a@ == b@),
{
    a.eq(b)
}

impl RulesContext {
    proof fn lemma_views(&self)
        ensures
            self.groups().len() == self.group_ids@.len(),
            self.rules().len() == self.rule_ids@.len(),
            forall|i: int| 0 <= i < self.group_ids@.len() ==> #[trigger] self.groups()[i]
                == self.group_ids@[i]@,
            forall|g: int| 0 <= g < self.rule_ids@.len() ==> #[trigger] self.rules()[g]
                == rule_ids_text(self.rule_ids@[g]@),
    {
    }

    fn allocate_group_id(&mut self) -> (id: GroupId)
        requires
            old(self).next_group() < usize::MAX,
        ensures
            id@ == allocated_group_id(old(self).next_group()),
            final(self).next_group() == old(self).next_group() + 1,
            final(self).next_rule() == old(self).next_rule(),
            final(self).groups() == old(self).groups(),
            final(self).rules() == old(self).rules(),
    {
        let text = prefixed_number("group-", self.next_group_id);
        proof {
            reveal_strlit("group-");
            assert("group-"@ =~= group_prefix());
        }
        self.next_group_id = self.next_group_id + 1;
        GroupId(text)
    }

    fn allocate_rule_id(&mut self) -> (id: RuleId)
        requires
            old(self).next_rule() < usize::MAX,
        ensures
            id@ == allocated_rule_id(old(self).next_rule()),
            final(self).next_rule() == old(self).next_rule() + 1,
            final(self).next_group() == old(self).next_group(),
            final(self).groups() == old(self).groups(),
            final(self).rules() == old(self).rules(),
    {
        let text = prefixed_number("rule-", self.next_rule_id);
        proof {
            reveal_strlit("rule-");
            assert("rule-"@ =~= rule_prefix());
        }
        self.next_rule_id = self.next_rule_id + 1;
        RuleId(text)
    }

    /// The id of the group at `group_index`.
    pub fn group_id_for_index(&self, group_index: usize) -> (r: Option<GroupId>)
        ensures
            r matches Some(id) ==> group_index < self.groups().len() && id@ == self.groups()[
                group_index as int],
            r is None <==> group_index >= self.groups().len(),
    {
        if group_index < self.group_ids.len() {
            Some(self.group_ids[group_index].clone())
        } else {
            None
        }
    }

    /// The index of the first group whose id is `group_id`.
    pub fn group_index_for_id(&self, group_id: &GroupId) -> (r: Option<usize>)
        ensures
            r matches Some(i) ==> i < self.groups().len() && self.groups()[i as int] == group_id@
                && forall|j: int| 0 <= j < i ==> self.groups()[j] != group_id@,
            r is None <==> forall|j: int| 0 <= j < self.groups().len() ==> self.groups()[j]
                != group_id@,
    {
        let mut i: usize = 0;
        while i < self.group_ids.len()
            invariant
                i <= self.group_ids@.len(),
                forall|j: int| 0 <= j < i ==> self.groups()[j] != group_id@,
            decreases self.group_ids.len() - i,
        {
            if text_eq(&self.group_ids[i].0, &group_id.0) {
                assert(self.groups()[i as int] == group_id@);
                return Some(i);
            }
            i = i + 1;
        }
        None
    }

    /// The id of rule `rule_index` in group `group_index`.
    pub fn rule_id_for_index(&self, group_index: usize, rule_index: usize) -> (r: Option<RuleId>)
        ensures
            r matches Some(id) ==> group_index < self.rules().len() && rule_index < self.rules()[
                group_index as int].len() && id@ == self.rules()[group_index as int][rule_index as int],
            r is None <==> !(group_index < self.rules().len() && rule_index < self.rules()[
                group_index as int].len()),
    {
        if group_index < self.rule_ids.len() && rule_index < self.rule_ids[group_index].len() {
            Some(self.rule_ids[group_index][rule_index].clone())
        } else {
            None
        }
    }

    /// The index of the first rule of group `group_index` whose id is `rule_id`.
    pub fn rule_index_for_id(&self, group_index: usize, rule_id: &RuleId) -> (r: Option<usize>)
        ensures
            r matches Some(i) ==> group_index < self.rules().len() && i < self.rules()[
                group_index as int].len() && self.rules()[group_index as int][i as int] == rule_id@
                && forall|j: int| 0 <= j < i ==> self.rules()[group_index as int][j] != rule_id@,
            r is None <==> (group_index >= self.rules().len() || forall|j: int|
                0 <= j < self.rules()[group_index as int].len() ==> self.rules()[
                group_index as int][j] != rule_id@),
    {
        if group_index >= self.rule_ids.len() {
            return None;
        }
        let rules = &self.rule_ids[group_index];
        let mut i: usize = 0;
        while i < rules.len()
            invariant
                group_index < self.rule_ids@.len(),
                *rules == self.rule_ids@[group_index as int],
                i <= rules@.len(),
                forall|j: int| 0 <= j < i ==> self.rules()[group_index as int][j] != rule_id@,
            decreases rules.len() - i,
        {
            if text_eq(&rules[i].0, &rule_id.0) {
                assert(self.rules()[group_index as int][i as int] == rule_id@);
                return Some(i);
            }
            i = i + 1;
        }
        None
    }
}

} // verus!

verus! {

/// A sequence of sequences with the two entries at `a` and `b` exchanged.
pub open spec fn swapped<T>(s: Seq<T>, a: int, b: int) -> Seq<T> {
    s.update(a, s[b]).update(b, s[a])
}

/// The index an item ends up at when it is removed from `source_index` of a list and inserted
/// before `target_index`, counted in the list as it was before the removal.
pub open spec fn adjusted_insert_index(
    same_list: bool,
    source_index: int,
    target_index: int,
) -> int {
    if same_list && target_index > source_index { target_index - 1 } else { target_index }
}

/// Moves the entry at `(sg, sr)` to `(tg, tr)` of nested lists, as drag-and-drop does.
pub open spec fn moved_between<T>(s: Seq<Seq<T>>, sg: int, sr: int, tg: int, tr: int) -> Seq<Seq<T>> {
    let item = s[sg][sr];
    let removed = s.update(sg, s[sg].remove(sr));
    removed.update(tg, removed[tg].insert(adjusted_insert_index(sg == tg, sr, tr), item))
}

/// Whether a move from `(sg, sr)` to `(tg, tr)` addresses existing positions.
pub open spec fn move_in_bounds<T>(s: Seq<Seq<T>>, sg: int, sr: int, tg: int, tr: int) -> bool {
    0 <= sg < s.len() && 0 <= tg < s.len() && 0 <= sr < s[sg].len() && 0 <= tr <= s[tg].len()
}

proof fn lemma_rows_text_remove(v: Seq<Vec<RuleId>>, i: int)
    requires
        0 <= i < v.len(),
    ensures
        v.remove(i).map_values(|r: Vec<RuleId>| rule_ids_text(r@)) == v.map_values(
            |r: Vec<RuleId>| rule_ids_text(r@),
        ).remove(i),
{
    assert(v.remove(i).map_values(|r: Vec<RuleId>| rule_ids_text(r@)) =~= v.map_values(
        |r: Vec<RuleId>| rule_ids_text(r@),
    ).remove(i));
}

proof fn lemma_rows_text_insert(v: Seq<Vec<RuleId>>, i: int, x: Vec<RuleId>)
    requires
        0 <= i <= v.len(),
    ensures
        v.insert(i, x).map_values(|r: Vec<RuleId>| rule_ids_text(r@)) == v.map_values(
            |r: Vec<RuleId>| rule_ids_text(r@),
        ).insert(i, rule_ids_text(x@)),
{
    assert(v.insert(i, x).map_values(|r: Vec<RuleId>| rule_ids_text(r@)) =~= v.map_values(
        |r: Vec<RuleId>| rule_ids_text(r@),
    ).insert(i, rule_ids_text(x@)));
}

proof fn lemma_rows_text_push(v: Seq<Vec<RuleId>>, x: Vec<RuleId>)
    ensures
        v.push(x).map_values(|r: Vec<RuleId>| rule_ids_text(r@)) == v.map_values(
            |r: Vec<RuleId>| rule_ids_text(r@),
        ).push(rule_ids_text(x@)),
{
    assert(v.push(x).map_values(|r: Vec<RuleId>| rule_ids_text(r@)) =~= v.map_values(
        |r: Vec<RuleId>| rule_ids_text(r@),
    ).push(rule_ids_text(x@)));
}

impl RulesContext {
    fn take_rules_row(&mut self, g: usize) -> (row: Vec<RuleId>)
        requires
            g < old(self).rules().len(),
        ensures
            rule_ids_text(row@) == old(self).rules()[g as int],
            final(self).rules() == old(self).rules().remove(g as int),
            final(self).groups() == old(self).groups(),
            final(self).next_group() == old(self).next_group(),
            final(self).next_rule() == old(self).next_rule(),
    {
        proof {
            lemma_rows_text_remove(self.rule_ids@, g as int);
        }
        self.rule_ids.remove(g)
    }

    fn put_rules_row(&mut self, g: usize, row: Vec<RuleId>)
        requires
            g <= old(self).rules().len(),
        ensures
            final(self).rules() == old(self).rules().insert(g as int, rule_ids_text(row@)),
            final(self).groups() == old(self).groups(),
            final(self).next_group() == old(self).next_group(),
            final(self).next_rule() == old(self).next_rule(),
    {
        proof {
            lemma_rows_text_insert(self.rule_ids@, g as int, row);
        }
        self.rule_ids.insert(g, row);
    }

    /// Exchanges the ids of two groups; out-of-range indices leave everything unchanged.
    pub fn swap_groups(&mut self, left: usize, right: usize)
        requires
            old(self).wf(),
        ensures
            final(self).wf(),
            final(self).next_group() == old(self).next_group(),
            final(self).next_rule() == old(self).next_rule(),
            if left < old(self).groups().len() && right < old(self).groups().len() {
                &&& final(self).groups() == swapped(old(self).groups(), left as int, right as int)
                &&& final(self).rules() == swapped(old(self).rules(), left as int, right as int)
            } else {
                &&& final(self).groups() == old(self).groups()
                &&& final(self).rules() == old(self).rules()
            },
    {
        if left < self.group_ids.len() && right < self.group_ids.len() && left != right {
            let (lo, hi) = if left < right { (left, right) } else { (right, left) };
            let ghost g0 = self.groups();
            let ghost r0 = self.rules();
            let hi_group = self.group_ids.remove(hi);
            let lo_group = self.group_ids.remove(lo);
            self.group_ids.insert(lo, hi_group);
            self.group_ids.insert(hi, lo_group);
            let hi_row = self.take_rules_row(hi);
            let lo_row = self.take_rules_row(lo);
            self.put_rules_row(lo, hi_row);
            self.put_rules_row(hi, lo_row);
            proof {
                assert(self.groups() =~= swapped(g0, left as int, right as int));
                assert(self.rules() =~= swapped(r0, left as int, right as int));
                assert forall|i: int| 0 <= i < self.groups().len() implies (id_number(
                    #[trigger] self.groups()[i],
                    group_prefix(),
                ) matches Some(n) ==> n < self.next_group()) by {
                    if i == lo {
                        assert(self.groups()[i] == g0[hi as int]);
                    } else if i == hi {
                        assert(self.groups()[i] == g0[lo as int]);
                    } else {
                        assert(self.groups()[i] == g0[i]);
                    }
                }
                assert forall|g: int, r: int|
                    0 <= g < self.rules().len() && 0 <= r < self.rules()[g].len() implies (id_number(
                    #[trigger] self.rules()[g][r],
                    rule_prefix(),
                ) matches Some(n) ==> n < self.next_rule()) by {
                    if g == lo {
                        assert(self.rules()[g] == r0[hi as int]);
                    } else if g == hi {
                        assert(self.rules()[g] == r0[lo as int]);
                    } else {
                        assert(self.rules()[g] == r0[g]);
                    }
                }
            }
        } else if left < self.group_ids.len() && right < self.group_ids.len() {
            assert(swapped(self.groups(), left as int, right as int) =~= self.groups());
            assert(swapped(self.rules(), left as int, right as int) =~= self.rules());
        }
    }
}

} // verus!

verus! {

impl RulesContext {
    /// Adds a group with a fresh id and no rules, and returns the id.
    pub fn append_group(&mut self) -> (id: GroupId)
        requires
            old(self).wf(),
            old(self).next_group() < usize::MAX,
        ensures
            final(self).wf(),
            id@ == allocated_group_id(old(self).next_group()),
            forall|i: int| 0 <= i < old(self).groups().len() ==> old(self).groups()[i] != id@,
            final(self).groups() == old(self).groups().push(id@),
            final(self).rules() == old(self).rules().push(Seq::<Seq<char>>::empty()),
            final(self).next_group() == old(self).next_group() + 1,
            final(self).next_rule() == old(self).next_rule(),
    {
        let ghost g0 = self.groups();
        let ghost r0 = self.rules();
        let ghost n0 = self.next_group_id;
        let id = self.allocate_group_id();
        proof {
            lemma_id_number_of_allocated(n0, group_prefix());
            assert forall|i: int| 0 <= i < g0.len() implies g0[i] != id@ by {
                if g0[i] == id@ {
                    assert(id_number(g0[i], group_prefix()) == Some(n0));
                }
            }
        }
        self.group_ids.push(id.clone());
        let row: Vec<RuleId> = Vec::new();
        proof {
            lemma_rows_text_push(self.rule_ids@, row);
        }
        self.rule_ids.push(row);
        proof {
            assert(self.groups() =~= g0.push(id@));
            assert(rule_ids_text(row@) =~= Seq::<Seq<char>>::empty());
            assert(self.rules() =~= r0.push(Seq::<Seq<char>>::empty()));
            assert forall|i: int| 0 <= i < self.groups().len() implies (id_number(
                #[trigger] self.groups()[i],
                group_prefix(),
            ) matches Some(n) ==> n < self.next_group()) by {
                if i < g0.len() {
                    assert(self.groups()[i] == g0[i]);
                }
            }
            assert forall|g: int, r: int|
                0 <= g < self.rules().len() && 0 <= r < self.rules()[g].len() implies (id_number(
                #[trigger] self.rules()[g][r],
                rule_prefix(),
            ) matches Some(n) ==> n < self.next_rule()) by {
                assert(g < r0.len());
                assert(self.rules()[g] == r0[g]);
            }
        }
        id
    }

    /// Drops the ids of group `group_index`; an out-of-range index changes nothing.
    pub fn remove_group(&mut self, group_index: usize)
        requires
            old(self).wf(),
        ensures
            final(self).wf(),
            final(self).next_group() == old(self).next_group(),
            final(self).next_rule() == old(self).next_rule(),
            if group_index < old(self).groups().len() {
                &&& final(self).groups() == old(self).groups().remove(group_index as int)
                &&& final(self).rules() == old(self).rules().remove(group_index as int)
            } else {
                &&& final(self).groups() == old(self).groups()
                &&& final(self).rules() == old(self).rules()
            },
    {
        if group_index < self.group_ids.len() {
            let ghost g0 = self.groups();
            let ghost r0 = self.rules();
            self.group_ids.remove(group_index);
            let _row = self.take_rules_row(group_index);
            proof {
                assert(self.groups() =~= g0.remove(group_index as int));
                assert forall|i: int| 0 <= i < self.groups().len() implies (id_number(
                    #[trigger] self.groups()[i],
                    group_prefix(),
                ) matches Some(n) ==> n < self.next_group()) by {
                    if i < group_index {
                        assert(self.groups()[i] == g0[i]);
                    } else {
                        assert(self.groups()[i] == g0[i + 1]);
                    }
                }
                assert forall|g: int, r: int|
                    0 <= g < self.rules().len() && 0 <= r < self.rules()[g].len() implies (id_number(
                    #[trigger] self.rules()[g][r],
                    rule_prefix(),
                ) matches Some(n) ==> n < self.next_rule()) by {
                    if g < group_index {
                        assert(self.rules()[g] == r0[g]);
                    } else {
                        assert(self.rules()[g] == r0[g + 1]);
                    }
                }
            }
        }
    }

    /// Appends `count` fresh rule ids to group `group_index`; an out-of-range index changes
    /// nothing.
    pub fn append_rules_to_group(&mut self, group_index: usize, count: usize)
        requires
            old(self).wf(),
            old(self).next_rule() + count < usize::MAX,
        ensures
            final(self).wf(),
            final(self).groups() == old(self).groups(),
            final(self).next_group() == old(self).next_group(),
            if group_index < old(self).rules().len() {
                &&& final(self).rules() == old(self).rules().update(
                    group_index as int,
                    old(self).rules()[group_index as int] + Seq::new(
                        count as nat,
                        |k: int| allocated_rule_id((old(self).next_rule() + k) as nat),
                    ),
                )
                &&& final(self).next_rule() == old(self).next_rule() + count
            } else {
                &&& final(self).rules() == old(self).rules()
                &&& final(self).next_rule() == old(self).next_rule()
            },
    {
        if group_index >= self.rule_ids.len() {
            return;
        }
        let ghost r0 = self.rules();
        let ghost n0 = self.next_rule();
        let mut row = self.take_rules_row(group_index);
        let mut k: usize = 0;
        while k < count
            invariant
                k <= count,
                old(self).wf(),
                n0 == old(self).next_rule(),
                r0 == old(self).rules(),
                group_index < r0.len(),
                n0 + count < usize::MAX,
                self.next_rule() == n0 + k,
                self.next_group() == old(self).next_group(),
                self.groups() == old(self).groups(),
                self.rules() == r0.remove(group_index as int),
                rule_ids_text(row@) == r0[group_index as int] + Seq::new(
                    k as nat,
                    |j: int| allocated_rule_id((n0 + j) as nat),
                ),
            decreases count - k,
        {
            let id = self.allocate_rule_id();
            let ghost before = row@;
            row.push(id);
            k = k + 1;
            proof {
                assert(rule_ids_text(row@) =~= rule_ids_text(before).push(id@));
                assert(rule_ids_text(row@) =~= r0[group_index as int] + Seq::new(
                    k as nat,
                    |j: int| allocated_rule_id((n0 + j) as nat),
                ));
            }
        }
        self.put_rules_row(group_index, row);
        proof {
            let new_row = r0[group_index as int] + Seq::new(
                count as nat,
                |j: int| allocated_rule_id((n0 + j) as nat),
            );
            assert(self.rules() =~= r0.update(group_index as int, new_row));
            assert forall|g: int, r: int|
                0 <= g < self.rules().len() && 0 <= r < self.rules()[g].len() implies (id_number(
                #[trigger] self.rules()[g][r],
                rule_prefix(),
            ) matches Some(n) ==> n < self.next_rule()) by {
                if g == group_index {
                    if r >= r0[g].len() {
                        let j = r - r0[g].len();
                        assert(self.rules()[g][r] == allocated_rule_id((n0 + j) as nat));
                        lemma_id_number_of_allocated((n0 + j) as usize, rule_prefix());
                    } else {
                        assert(self.rules()[g][r] == r0[g][r]);
                    }
                } else {
                    assert(self.rules()[g] == r0[g]);
                }
            }
        }
    }

    /// Drops rule `rule_index` of group `group_index`; out-of-range indices change nothing.
    pub fn remove_rule(&mut self, group_index: usize, rule_index: usize)
        requires
            old(self).wf(),
        ensures
            final(self).wf(),
            final(self).groups() == old(self).groups(),
            final(self).next_group() == old(self).next_group(),
            final(self).next_rule() == old(self).next_rule(),
            if group_index < old(self).rules().len() && rule_index < old(self).rules()[
                group_index as int].len() {
                final(self).rules() == old(self).rules().update(
                    group_index as int,
                    old(self).rules()[group_index as int].remove(rule_index as int),
                )
            } else {
                final(self).rules() == old(self).rules()
            },
    {
        if group_index < self.rule_ids.len() && rule_index < self.rule_ids[group_index].len() {
            let ghost r0 = self.rules();
            let mut row = self.take_rules_row(group_index);
            let ghost before = row@;
            row.remove(rule_index);
            proof {
                assert(rule_ids_text(row@) =~= rule_ids_text(before).remove(rule_index as int));
            }
            self.put_rules_row(group_index, row);
            proof {
                assert(self.rules() =~= r0.update(
                    group_index as int,
                    r0[group_index as int].remove(rule_index as int),
                ));
                assert forall|g: int, r: int|
                    0 <= g < self.rules().len() && 0 <= r < self.rules()[g].len() implies (id_number(
                    #[trigger] self.rules()[g][r],
                    rule_prefix(),
                ) matches Some(n) ==> n < self.next_rule()) by {
                    if g == group_index {
                        if r < rule_index {
                            assert(self.rules()[g][r] == r0[g][r]);
                        } else {
                            assert(self.rules()[g][r] == r0[g][r + 1]);
                        }
                    } else {
                        assert(self.rules()[g] == r0[g]);
                    }
                }
            }
        }
    }
}

} // verus!

verus! {

impl RulesContext {
    /// Whether rule `source_rule_index` of `source_group_index` exists and `target_rule_index`
    /// is an insertion point of `target_group_index`.
    pub fn can_move_rule_between_groups_at(
        &self,
        source_group_index: usize,
        source_rule_index: usize,
        target_group_index: usize,
        target_rule_index: usize,
    ) -> (r: bool)
        ensures
            r == move_in_bounds(
                self.rules(),
                source_group_index as int,
                source_rule_index as int,
                target_group_index as int,
                target_rule_index as int,
            ),
    {
        source_group_index < self.rule_ids.len() && target_group_index < self.rule_ids.len()
            && source_rule_index < self.rule_ids[source_group_index].len() && target_rule_index
            <= self.rule_ids[target_group_index].len()
    }

    /// Moves a rule id to another position, possibly in another group, and returns it; nothing
    /// changes and `None` comes back when the positions are out of range.
    pub fn move_rule_between_groups_at(
        &mut self,
        source_group_index: usize,
        source_rule_index: usize,
        target_group_index: usize,
        target_rule_index: usize,
    ) -> (r: Option<RuleId>)
        requires
            old(self).wf(),
        ensures
            final(self).wf(),
            final(self).groups() == old(self).groups(),
            final(self).next_group() == old(self).next_group(),
            final(self).next_rule() == old(self).next_rule(),
            if move_in_bounds(
                old(self).rules(),
                source_group_index as int,
                source_rule_index as int,
                target_group_index as int,
                target_rule_index as int,
            ) {
                &&& r matches Some(id) && id@ == old(self).rules()[source_group_index as int][
                    source_rule_index as int]
                &&& final(self).rules() == moved_between(
                    old(self).rules(),
                    source_group_index as int,
                    source_rule_index as int,
                    target_group_index as int,
                    target_rule_index as int,
                )
            } else {
                &&& r is None
                &&& final(self).rules() == old(self).rules()
            },
    {
        if !self.can_move_rule_between_groups_at(
            source_group_index,
            source_rule_index,
            target_group_index,
            target_rule_index,
        ) {
            return None;
        }
        let ghost r0 = self.rules();
        let ghost item = r0[source_group_index as int][source_rule_index as int];
        let mut source_row = self.take_rules_row(source_group_index);
        let ghost before = source_row@;
        let rule_id = source_row.remove(source_rule_index);
        assert(rule_ids_text(source_row@) =~= rule_ids_text(before).remove(
            source_rule_index as int,
        ));
        self.put_rules_row(source_group_index, source_row);
        let ghost r1 = self.rules();
        assert(r1 =~= r0.update(
            source_group_index as int,
            r0[source_group_index as int].remove(source_rule_index as int),
        ));
        let insert_index = if source_group_index == target_group_index && target_rule_index
            > source_rule_index {
            target_rule_index - 1
        } else {
            target_rule_index
        };
        let mut target_row = self.take_rules_row(target_group_index);
        let ghost before_t = target_row@;
        let copy = rule_id.clone();
        target_row.insert(insert_index, copy);
        assert(rule_ids_text(target_row@) =~= rule_ids_text(before_t).insert(
            insert_index as int,
            rule_id@,
        ));
        self.put_rules_row(target_group_index, target_row);
        proof {
            assert(self.rules() =~= moved_between(
                r0,
                source_group_index as int,
                source_rule_index as int,
                target_group_index as int,
                target_rule_index as int,
            ));
            assert forall|g: int, r: int|
                0 <= g < self.rules().len() && 0 <= r < self.rules()[g].len() implies (id_number(
                #[trigger] self.rules()[g][r],
                rule_prefix(),
            ) matches Some(n) ==> n < self.next_rule()) by {
                let x = self.rules()[g][r];
                if g == target_group_index {
                    if r == insert_index {
                        assert(x == r0[source_group_index as int][source_rule_index as int]);
                    } else if r < insert_index {
                        assert(x == r1[g][r]);
                    } else {
                        assert(x == r1[g][r - 1]);
                    }
                    if g == source_group_index {
                        if r < insert_index && r < source_rule_index {
                            assert(r1[g][r] == r0[g][r]);
                        } else if r < insert_index {
                            assert(r1[g][r] == r0[g][r + 1]);
                        } else if r > insert_index && r - 1 < source_rule_index {
                            assert(r1[g][r - 1] == r0[g][r - 1]);
                        } else if r > insert_index {
                            assert(r1[g][r - 1] == r0[g][r]);
                        }
                    } else {
                        assert(r1[g] == r0[g]);
                        if r < insert_index {
                            assert(r1[g][r] == r0[g][r]);
                        } else if r > insert_index {
                            assert(r1[g][r - 1] == r0[g][r - 1]);
                        }
                    }
                } else if g == source_group_index {
                    assert(x == r1[g][r]);
                    if r < source_rule_index {
                        assert(r1[g][r] == r0[g][r]);
                    } else {
                        assert(r1[g][r] == r0[g][r + 1]);
                    }
                } else {
                    assert(x == r0[g][r]);
                }
            }
        }
        Some(rule_id)
    }

    /// The ids of every group and rule, in a form that can be stored with the state.
    pub fn to_persisted_identities(&self) -> (r: PersistedRuleIdentities)
        requires
            self.wf(),
        ensures
            persisted_group_ids(r) == self.groups(),
            persisted_rule_ids(r) == self.rules(),
    {
        let mut groups: Vec<PersistedGroupIdentity> = Vec::new();
        let mut i: usize = 0;
        while i < self.group_ids.len()
            invariant
                self.wf(),
                i <= self.group_ids@.len(),
                groups@.len() == i,
                forall|j: int| 0 <= j < i ==> (#[trigger] groups@[j]).id@ == self.groups()[j]
                    && rule_ids_text(groups@[j].rule_ids@) == self.rules()[j],
            decreases self.group_ids.len() - i,
        {
            let rules = if i < self.rule_ids.len() {
                clone_rule_ids(&self.rule_ids[i])
            } else {
                Vec::new()
            };
            assert(rule_ids_text(rules@) == self.rules()[i as int]);
            groups.push(PersistedGroupIdentity { id: self.group_ids[i].clone(), rule_ids: rules });
            i = i + 1;
        }
        let r = PersistedRuleIdentities { groups };
        assert(persisted_group_ids(r) =~= self.groups());
        assert(persisted_rule_ids(r) =~= self.rules());
        r
    }
}

/// Copies a list of rule ids.
fn clone_rule_ids(v: &Vec<RuleId>) -> (r: Vec<RuleId>)
    ensures
        rule_ids_text(r@) == rule_ids_text(v@),
{
    let r = v.clone();
    assert forall|i: int| 0 <= i < r@.len() implies r@[i]@ == v@[i]@ by {
        assert(vstd::pervasive::cloned::<RuleId>(v@[i], r@[i]));
    }
    assert(rule_ids_text(r@) =~= rule_ids_text(v@));
    r
}

} // verus!

verus! {

proof fn lemma_deficit_mono(rows: Seq<Seq<Seq<char>>>, counts: Seq<nat>, a: int, b: int)
    requires
        0 <= a <= b,
    ensures
        deficit_before(rows, counts, a) <= deficit_before(rows, counts, b),
    decreases b - a,
{
    if a < b {
        lemma_deficit_mono(rows, counts, a, b - 1);
    }
}

/// Whether reconciling the context to the given rule counts stays within the id counters.
pub open spec fn reconcile_fits(
    groups: Seq<Seq<char>>,
    rows: Seq<Seq<Seq<char>>>,
    next_group: nat,
    next_rule: nat,
    counts: Seq<nat>,
) -> bool {
    &&& next_group + (if counts.len() > groups.len() { counts.len() - groups.len() } else { 0 })
        <= usize::MAX
    &&& next_rule + deficit_before(resize_rows(rows, counts.len()), counts, counts.len() as int)
        <= usize::MAX
}

impl RulesContext {
    fn reconcile_group_count(&mut self, n: usize)
        requires
            old(self).wf(),
            old(self).next_group() + (if n > old(self).groups().len() {
                n - old(self).groups().len()
            } else {
                0
            }) <= usize::MAX,
        ensures
            final(self).wf(),
            final(self).groups() == reconciled_groups(
                old(self).groups(),
                old(self).next_group(),
                n as nat,
            ),
            final(self).rules() == resize_rows(old(self).rules(), n as nat),
            final(self).next_group() == old(self).next_group() + (if n > old(self).groups().len() {
                n - old(self).groups().len()
            } else {
                0
            }),
            final(self).next_rule() == old(self).next_rule(),
    {
        let ghost g0 = self.groups();
        let ghost r0 = self.rules();
        let ghost n0 = self.next_group();
        while self.group_ids.len() > n
            invariant
                self.wf(),
                self.groups().len() <= g0.len(),
                g0.len() == r0.len(),
                n <= self.groups().len() || self.groups().len() == g0.len(),
                self.groups() == g0.take(self.groups().len() as int),
                self.rules() == r0.take(self.groups().len() as int),
                self.next_group() == n0,
                self.next_rule() == old(self).next_rule(),
                g0 == old(self).groups(),
                r0 == old(self).rules(),
                n0 == old(self).next_group(),
            decreases self.group_ids.len(),
        {
            let ghost gb = self.groups();
            let ghost rb = self.rules();
            let len = self.group_ids.len();
            self.group_ids.pop();
            let _row = self.take_rules_row(len - 1);
            proof {
                assert(self.groups() =~= g0.take(self.groups().len() as int));
                assert(rb.len() == len);
                assert(rb == r0.take(len as int));
                assert(self.rules() =~= rb.remove(len - 1));
                assert(rb.remove(len - 1) =~= r0.take(len - 1));
                assert forall|i: int| 0 <= i < self.groups().len() implies (id_number(
                    #[trigger] self.groups()[i],
                    group_prefix(),
                ) matches Some(m) ==> m < self.next_group()) by {
                    assert(self.groups()[i] == gb[i]);
                }
                assert forall|g: int, r: int|
                    0 <= g < self.rules().len() && 0 <= r < self.rules()[g].len() implies (id_number(
                    #[trigger] self.rules()[g][r],
                    rule_prefix(),
                ) matches Some(m) ==> m < self.next_rule()) by {
                    assert(self.rules()[g] == rb[g]);
                }
            }
        }
        let ghost len_a = self.groups().len();
        assert(self.groups() =~= g0.take(len_a as int));
        while self.group_ids.len() < n
            invariant
                self.wf(),
                len_a <= self.groups().len() <= n,
                len_a == if n < g0.len() { n as nat } else { g0.len() },
                self.groups() == g0.take(len_a as int) + Seq::new(
                    (self.groups().len() - len_a) as nat,
                    |k: int| allocated_group_id((n0 + k) as nat),
                ),
                self.rules() == resize_rows(r0, self.groups().len()),
                self.next_group() == n0 + (self.groups().len() - len_a),
                self.next_rule() == old(self).next_rule(),
                n0 + (if n > g0.len() { n - g0.len() } else { 0 }) <= usize::MAX,
                g0 == old(self).groups(),
                r0 == old(self).rules(),
                g0.len() == r0.len(),
            decreases n - self.group_ids.len(),
        {
            let ghost gb = self.groups();
            let ghost rb = self.rules();
            let ghost nb = self.next_group();
            let id = self.allocate_group_id();
            proof {
                lemma_id_number_of_allocated(nb as usize, group_prefix());
            }
            self.group_ids.push(id);
            let row: Vec<RuleId> = Vec::new();
            proof {
                lemma_rows_text_push(self.rule_ids@, row);
            }
            self.rule_ids.push(row);
            proof {
                assert(self.groups() =~= gb.push(id@));
                assert(self.groups() =~= g0.take(len_a as int) + Seq::new(
                    (self.groups().len() - len_a) as nat,
                    |k: int| allocated_group_id((n0 + k) as nat),
                ));
                assert(rule_ids_text(row@) =~= Seq::<Seq<char>>::empty());
                assert(self.rules() =~= resize_rows(r0, self.groups().len()));
                assert forall|i: int| 0 <= i < self.groups().len() implies (id_number(
                    #[trigger] self.groups()[i],
                    group_prefix(),
                ) matches Some(m) ==> m < self.next_group()) by {
                    if i < gb.len() {
                        assert(self.groups()[i] == gb[i]);
                    }
                }
                assert forall|g: int, r: int|
                    0 <= g < self.rules().len() && 0 <= r < self.rules()[g].len() implies (id_number(
                    #[trigger] self.rules()[g][r],
                    rule_prefix(),
                ) matches Some(m) ==> m < self.next_rule()) by {
                    assert(g < rb.len());
                    assert(self.rules()[g] == rb[g]);
                }
            }
        }
        proof {
            assert(self.groups() =~= reconciled_groups(g0, n0, n as nat));
            if n <= g0.len() {
                assert(self.rules() =~= resize_rows(r0, n as nat));
            }
        }
    }
}

} // verus!

verus! {

/// Rule counts as natural numbers.
pub open spec fn counts_nat(v: Seq<usize>) -> Seq<nat> {
    v.map_values(|c: usize| c as nat)
}

proof fn lemma_resize_same(rows: Seq<Seq<Seq<char>>>)
    ensures
        resize_rows(rows, rows.len()) == rows,
{
    assert(resize_rows(rows, rows.len()) =~= rows);
}

impl RulesContext {
    fn reconcile_rule_counts(&mut self, counts: &Vec<usize>)
        requires
            old(self).wf(),
            old(self).rules().len() == counts@.len(),
            old(self).next_rule() + deficit_before(
                old(self).rules(),
                counts_nat(counts@),
                counts@.len() as int,
            ) <= usize::MAX,
        ensures
            final(self).wf(),
            final(self).groups() == old(self).groups(),
            final(self).next_group() == old(self).next_group(),
            final(self).rules() == reconciled_rules(
                old(self).rules(),
                old(self).next_rule(),
                counts_nat(counts@),
            ),
            final(self).next_rule() == old(self).next_rule() + deficit_before(
                old(self).rules(),
                counts_nat(counts@),
                counts@.len() as int,
            ),
    {
        let ghost r0 = self.rules();
        let ghost n0 = self.next_rule();
        let ghost cn = counts_nat(counts@);
        let ghost target = reconciled_rules(r0, n0, cn);
        proof {
            lemma_resize_same(r0);
        }
        let n = counts.len();
        let mut g: usize = 0;
        while g < n
            invariant
                g <= n == counts@.len() == r0.len(),
                cn == counts_nat(counts@),
                resize_rows(r0, cn.len()) == r0,
                target == reconciled_rules(r0, n0, cn),
                n0 + deficit_before(r0, cn, n as int) <= usize::MAX,
                self.groups() == old(self).groups(),
                self.next_group() == old(self).next_group(),
                self.groups().len() == n,
                self.rules().len() == n,
                forall|j: int| 0 <= j < g ==> #[trigger] self.rules()[j] == target[j],
                forall|j: int| g <= j < n ==> #[trigger] self.rules()[j] == r0[j],
                self.next_rule() == n0 + deficit_before(r0, cn, g as int),
                old(self).wf(),
                r0 == old(self).rules(),
                n0 == old(self).next_rule(),
                forall|i: int|
                    0 <= i < self.groups().len() ==> (id_number(
                        #[trigger] self.groups()[i],
                        group_prefix(),
                    ) matches Some(m) ==> m < self.next_group()),
                forall|j: int, r: int|
                    0 <= j < n && 0 <= r < self.rules()[j].len() ==> (id_number(
                        #[trigger] self.rules()[j][r],
                        rule_prefix(),
                    ) matches Some(m) ==> m < self.next_rule()),
            decreases n - g,
        {
            let ghost rb = self.rules();
            let ghost nb = self.next_rule();
            let count = counts[g];
            let mut row = self.take_rules_row(g);
            let ghost row0 = row@;
            let kept = if row.len() < count { row.len() } else { count };
            row.truncate(kept);
            let ghost trunc = row@;
            assert(rule_ids_text(trunc) =~= r0[g as int].take(kept as int));
            proof {
                lemma_deficit_mono(r0, cn, g + 1, n as int);
            }
            let mut k: usize = kept;
            while k < count
                invariant
                    kept <= k <= count,
                    kept as nat == min_nat(r0[g as int].len(), cn[g as int]),
                    count as nat == cn[g as int],
                    g < n,
                    nb == n0 + deficit_before(r0, cn, g as int),
                    nb + (count - kept) <= usize::MAX,
                    self.next_rule() == nb + (k - kept),
                    self.groups() == old(self).groups(),
                    self.next_group() == old(self).next_group(),
                    self.rules() == rb.remove(g as int),
                    rule_ids_text(row@) == r0[g as int].take(kept as int) + Seq::new(
                        (k - kept) as nat,
                        |j: int| allocated_rule_id((nb + j) as nat),
                    ),
                decreases count - k,
            {
                let id = self.allocate_rule_id();
                let ghost before = row@;
                row.push(id);
                k = k + 1;
                proof {
                    assert(rule_ids_text(row@) =~= rule_ids_text(before).push(id@));
                    assert(rule_ids_text(row@) =~= r0[g as int].take(kept as int) + Seq::new(
                        (k - kept) as nat,
                        |j: int| allocated_rule_id((nb + j) as nat),
                    ));
                }
            }
            self.put_rules_row(g, row);
            proof {
                let padded = resize_rows(r0, cn.len());
                assert(padded == r0);
                assert(target[g as int] =~= r0[g as int].take(kept as int) + Seq::new(
                    (count - kept) as nat,
                    |j: int| allocated_rule_id((nb + j) as nat),
                ));
                assert(self.rules() =~= rb.update(g as int, target[g as int]));
                assert(deficit_before(r0, cn, g + 1) == deficit_before(r0, cn, g as int) + (count
                    - kept));
                assert forall|j: int, r: int|
                    0 <= j < n && 0 <= r < self.rules()[j].len() implies (id_number(
                    #[trigger] self.rules()[j][r],
                    rule_prefix(),
                ) matches Some(m) ==> m < self.next_rule()) by {
                    if j == g {
                        if r < kept {
                            assert(self.rules()[j][r] == r0[j][r]);
                            assert(rb[j] == r0[j]);
                            assert(rb[j][r] == self.rules()[j][r]);
                        } else {
                            let q = r - kept;
                            assert(self.rules()[j][r] == allocated_rule_id((nb + q) as nat));
                            lemma_id_number_of_allocated((nb + q) as usize, rule_prefix());
                        }
                    } else {
                        assert(self.rules()[j] == rb[j]);
                    }
                }
            }
            g = g + 1;
        }
        proof {
            assert(self.rules() =~= target);
        }
    }
}

} // verus!

verus! {

proof fn lemma_resize_twice(rows: Seq<Seq<Seq<char>>>, n: nat)
    ensures
        resize_rows(resize_rows(rows, n), n) == resize_rows(rows, n),
{
    assert(resize_rows(resize_rows(rows, n), n) =~= resize_rows(rows, n));
}

proof fn lemma_reconciled_rules_resized(rows: Seq<Seq<Seq<char>>>, next: nat, counts: Seq<nat>)
    ensures
        reconciled_rules(resize_rows(rows, counts.len()), next, counts) == reconciled_rules(
            rows,
            next,
            counts,
        ),
{
    lemma_resize_twice(rows, counts.len());
}

/// Counts the rules of every group of the state.
fn program_count_vec(storage: &AppStateStorage) -> (r: Vec<usize>)
    ensures
        counts_nat(r@) == program_counts(storage.groups@),
{
    let mut r: Vec<usize> = Vec::new();
    let mut i: usize = 0;
    while i < storage.groups.len()
        invariant
            i <= storage.groups@.len(),
            r@.len() == i,
            counts_nat(r@) == program_counts(storage.groups@.take(i as int)),
        decreases storage.groups.len() - i,
    {
        let ghost before = r@;
        r.push(storage.groups[i].programs.len());
        proof {
            assert forall|j: int| 0 <= j < i + 1 implies #[trigger] counts_nat(r@)[j]
                == program_counts(storage.groups@.take(i + 1))[j] by {
                if j < i {
                    assert(counts_nat(before)[j] == program_counts(storage.groups@.take(i as int))[j]);
                    assert(r@[j] == before[j]);
                }
            }
        }
        i = i + 1;
        assert(counts_nat(r@) =~= program_counts(storage.groups@.take(i as int)));
    }
    assert(storage.groups@.take(i as int) =~= storage.groups@);
    r
}

/// Parses the number carried by an id of the form `<prefix><decimal>`.
fn id_number_exec(id: &str, prefix: &str) -> (r: Option<usize>)
    ensures
        r == id_number(id@, prefix@),
{
    let v = str_chars(id);
    let p = str_chars(prefix);
    if v.len() < p.len() {
        return None;
    }
    let mut i: usize = 0;
    while i < p.len()
        invariant
            i <= p@.len() <= v@.len(),
            v@ == id@,
            p@ == prefix@,
            forall|j: int| 0 <= j < i ==> v@[j] == p@[j],
        decreases p.len() - i,
    {
        if v[i] != p[i] {
            assert(v@.take(p@.len() as int)[i as int] != p@[i as int]);
            return None;
        }
        i = i + 1;
    }
    assert(v@.take(p@.len() as int) =~= p@);
    let rest = crate::text::string_from_chars(v.as_slice(), p.len(), v.len());
    let rest_chars = str_chars(rest.as_str());
    assert(rest_chars@ =~= id@.skip(prefix@.len() as int));
    parse_usize(rest_chars.as_slice())
}

impl Default for RulesContext {
    fn default() -> (r: Self)
        ensures
            r.wf(),
            r.groups().len() == 0,
            r.rules().len() == 0,
            r.next_group() == 0,
            r.next_rule() == 0,
    {
        RulesContext {
            next_group_id: 0,
            next_rule_id: 0,
            group_ids: Vec::new(),
            rule_ids: Vec::new(),
        }
    }
}

/// The group counter after reconciling `len` group ids (counter `next`) to `n` groups: one id
/// is allocated per missing group.
pub open spec fn reconciled_next_group(len: nat, next: nat, n: nat) -> nat {
    next + if n > len {
        (n - len) as nat
    } else {
        0nat
    }
}

/// The rule counter after reconciling `rows` (counter `next`) to the rule counts `counts`: one
/// id is allocated per missing rule.
pub open spec fn reconciled_next_rule(rows: Seq<Seq<Seq<char>>>, next: nat, counts: Seq<nat>) -> nat {
    next + deficit_before(resize_rows(rows, counts.len()), counts, counts.len() as int)
}

/// The capacity condition of reconciling a context to the groups of a state.
pub open spec fn reconcile_with_storage_fits(ctx: RulesContext, storage: AppStateStorage) -> bool {
    reconcile_fits(
        ctx.groups(),
        ctx.rules(),
        ctx.next_group(),
        ctx.next_rule(),
        program_counts(storage.groups@),
    )
}

impl RulesContext {
    /// Makes the ids follow the shape of the state: groups and rules beyond the state's are
    /// dropped from the end, missing ones get fresh ids, existing ones keep theirs.
    pub fn reconcile_with_storage(&mut self, storage: &AppStateStorage)
        requires
            old(self).wf(),
            reconcile_with_storage_fits(*old(self), *storage),
        ensures
            final(self).wf(),
            final(self).groups() == reconciled_groups(
                old(self).groups(),
                old(self).next_group(),
                storage.groups@.len(),
            ),
            final(self).rules() == reconciled_rules(
                old(self).rules(),
                old(self).next_rule(),
                program_counts(storage.groups@),
            ),
            final(self).next_group() == reconciled_next_group(
                old(self).groups().len(),
                old(self).next_group(),
                storage.groups@.len(),
            ),
            final(self).next_rule() == reconciled_next_rule(
                old(self).rules(),
                old(self).next_rule(),
                program_counts(storage.groups@),
            ),
    {
        let counts = program_count_vec(storage);
        let ghost r0 = self.rules();
        let ghost cn = counts_nat(counts@);
        self.reconcile_group_count(counts.len());
        proof {
            lemma_reconciled_rules_resized(r0, self.next_rule(), cn);
        }
        self.reconcile_rule_counts(&counts);
    }

    /// Replaces every id with fresh ones allocated in group order, one group id per group and
    /// one rule id per rule; the counters keep counting from where they were.
    pub fn rebuild_from_storage(&mut self, storage: &AppStateStorage)
        requires
            old(self).wf(),
            reconcile_fits(
                Seq::empty(),
                Seq::empty(),
                old(self).next_group(),
                old(self).next_rule(),
                program_counts(storage.groups@),
            ),
        ensures
            final(self).wf(),
            final(self).groups() == reconciled_groups(
                Seq::empty(),
                old(self).next_group(),
                storage.groups@.len(),
            ),
            final(self).rules() == reconciled_rules(
                Seq::empty(),
                old(self).next_rule(),
                program_counts(storage.groups@),
            ),
            final(self).next_group() == reconciled_next_group(0, old(self).next_group(), storage.groups@.len()),
            final(self).next_rule() == reconciled_next_rule(
                Seq::empty(),
                old(self).next_rule(),
                program_counts(storage.groups@),
            ),
    {
        self.group_ids.clear();
        self.rule_ids.clear();
        proof {
            assert(self.groups() =~= Seq::<Seq<char>>::empty());
            assert(self.rules() =~= Seq::<Seq<Seq<char>>>::empty());
        }
        self.reconcile_with_storage(storage);
    }
}

} // verus!

verus! {

proof fn lemma_seed_prefix(ids: Seq<Seq<char>>, prefix: Seq<char>, i: int)
    requires
        0 <= i <= ids.len(),
    ensures
        seed_of(ids.take(i), prefix) <= seed_of(ids, prefix),
    decreases ids.len() - i,
{
    if i < ids.len() {
        lemma_seed_prefix(ids, prefix, i + 1);
        assert(ids.take(i + 1).drop_last() =~= ids.take(i));
    } else {
        assert(ids.take(i) =~= ids);
    }
}

proof fn lemma_nested_seed_prefix(ids: Seq<Seq<Seq<char>>>, prefix: Seq<char>, i: int)
    requires
        0 <= i <= ids.len(),
    ensures
        nested_seed_of(ids.take(i), prefix) <= nested_seed_of(ids, prefix),
    decreases ids.len() - i,
{
    if i < ids.len() {
        lemma_nested_seed_prefix(ids, prefix, i + 1);
        assert(ids.take(i + 1).drop_last() =~= ids.take(i));
    } else {
        assert(ids.take(i) =~= ids);
    }
}

/// `seed_of` computed over a list of ids.
fn seed_exec(ids: &Vec<RuleId>, prefix: &str) -> (r: usize)
    requires
        seed_of(rule_ids_text(ids@), prefix@) <= usize::MAX,
    ensures
        r == seed_of(rule_ids_text(ids@), prefix@),
{
    let ghost text = rule_ids_text(ids@);
    let mut cur: usize = 0;
    let mut i: usize = 0;
    while i < ids.len()
        invariant
            i <= ids@.len(),
            text == rule_ids_text(ids@),
            seed_of(text, prefix@) <= usize::MAX,
            cur == seed_of(text.take(i as int), prefix@),
        decreases ids.len() - i,
    {
        proof {
            lemma_seed_prefix(text, prefix@, i + 1);
            assert(text.take(i + 1).drop_last() =~= text.take(i as int));
            assert(text.take(i + 1).last() == ids@[i as int]@);
        }
        match id_number_exec(ids[i].0.as_str(), prefix) {
            Some(n) => {
                if n >= cur {
                    cur = n + 1;
                }
            },
            None => {},
        }
        i = i + 1;
    }
    assert(text.take(i as int) =~= text);
    cur
}

/// `seed_of` computed over a list of group ids.
fn group_seed_exec(ids: &Vec<GroupId>, prefix: &str) -> (r: usize)
    requires
        seed_of(group_ids_text(ids@), prefix@) <= usize::MAX,
    ensures
        r == seed_of(group_ids_text(ids@), prefix@),
{
    let ghost text = group_ids_text(ids@);
    let mut cur: usize = 0;
    let mut i: usize = 0;
    while i < ids.len()
        invariant
            i <= ids@.len(),
            text == group_ids_text(ids@),
            seed_of(text, prefix@) <= usize::MAX,
            cur == seed_of(text.take(i as int), prefix@),
        decreases ids.len() - i,
    {
        proof {
            lemma_seed_prefix(text, prefix@, i + 1);
            assert(text.take(i + 1).drop_last() =~= text.take(i as int));
            assert(text.take(i + 1).last() == ids@[i as int]@);
        }
        match id_number_exec(ids[i].0.as_str(), prefix) {
            Some(n) => {
                if n >= cur {
                    cur = n + 1;
                }
            },
            None => {},
        }
        i = i + 1;
    }
    assert(text.take(i as int) =~= text);
    cur
}

impl RulesContext {
    fn seed_next_ids(&mut self)
        requires
            old(self).groups().len() == old(self).rules().len(),
            seed_of(old(self).groups(), group_prefix()) <= usize::MAX,
            nested_seed_of(old(self).rules(), rule_prefix()) <= usize::MAX,
        ensures
            final(self).wf(),
            final(self).groups() == old(self).groups(),
            final(self).rules() == old(self).rules(),
            final(self).next_group() == seed_of(old(self).groups(), group_prefix()),
            final(self).next_rule() == nested_seed_of(old(self).rules(), rule_prefix()),
    {
        proof {
            reveal_strlit("group-");
            reveal_strlit("rule-");
            assert("group-"@ =~= group_prefix());
            assert("rule-"@ =~= rule_prefix());
        }
        let g = group_seed_exec(&self.group_ids, "group-");
        let ghost rows = self.rules();
        let mut cur: usize = 0;
        let mut i: usize = 0;
        while i < self.rule_ids.len()
            invariant
                i <= self.rule_ids@.len(),
                rows == self.rules(),
                nested_seed_of(rows, rule_prefix()) <= usize::MAX,
                "rule-"@ == rule_prefix(),
                cur == nested_seed_of(rows.take(i as int), rule_prefix()),
            decreases self.rule_ids.len() - i,
        {
            proof {
                lemma_nested_seed_prefix(rows, rule_prefix(), i + 1);
                assert(rows.take(i + 1).drop_last() =~= rows.take(i as int));
                assert(rows.take(i + 1).last() == rule_ids_text(self.rule_ids@[i as int]@));
                lemma_seed_bound(rows[i as int], rule_prefix());
                assert(seed_of(rows.take(i + 1).last(), rule_prefix()) <= nested_seed_of(
                    rows.take(i + 1),
                    rule_prefix(),
                ));
            }
            let here = seed_exec(&self.rule_ids[i], "rule-");
            if here > cur {
                cur = here;
            }
            i = i + 1;
        }
        assert(rows.take(i as int) =~= rows);
        self.next_group_id = g;
        self.next_rule_id = cur;
        proof {
            lemma_seed_bound(self.groups(), group_prefix());
            lemma_nested_seed_bound(self.rules(), rule_prefix());
        }
    }
}

} // verus!

verus! {

/// Whether building a context from a state stays within the id counters.
pub open spec fn from_storage_fits(storage: AppStateStorage) -> bool {
    match storage.rule_identities {
        None => reconcile_fits(
            Seq::empty(),
            Seq::empty(),
            0,
            0,
            program_counts(storage.groups@),
        ),
        Some(p) => {
            let g = persisted_group_ids(p);
            let r = persisted_rule_ids(p);
            &&& seed_of(g, group_prefix()) <= usize::MAX
            &&& nested_seed_of(r, rule_prefix()) <= usize::MAX
            &&& reconcile_fits(
                g,
                r,
                seed_of(g, group_prefix()),
                nested_seed_of(r, rule_prefix()),
                program_counts(storage.groups@),
            )
        },
    }
}

/// Group ids of the context built from a state: the persisted ones when present (reconciled to
/// the state's groups), otherwise `group-0`, `group-1`, ... in order.
pub open spec fn from_storage_groups(storage: AppStateStorage) -> Seq<Seq<char>> {
    match storage.rule_identities {
        None => reconciled_groups(Seq::empty(), 0, storage.groups@.len()),
        Some(p) => reconciled_groups(
            persisted_group_ids(p),
            seed_of(persisted_group_ids(p), group_prefix()),
            storage.groups@.len(),
        ),
    }
}

/// Rule ids of the context built from a state: the persisted ones when present (reconciled to
/// the state's rules), otherwise `rule-0`, `rule-1`, ... in group and rule order.
pub open spec fn from_storage_rules(storage: AppStateStorage) -> Seq<Seq<Seq<char>>> {
    match storage.rule_identities {
        None => reconciled_rules(Seq::empty(), 0, program_counts(storage.groups@)),
        Some(p) => reconciled_rules(
            persisted_rule_ids(p),
            nested_seed_of(persisted_rule_ids(p), rule_prefix()),
            program_counts(storage.groups@),
        ),
    }
}

/// The group counter of the context built from a state: past every persisted group id, and
/// past the ids allocated for groups the identities did not cover.
pub open spec fn from_storage_next_group(storage: AppStateStorage) -> nat {
    match storage.rule_identities {
        None => reconciled_next_group(0, 0, storage.groups@.len()),
        Some(p) => reconciled_next_group(
            persisted_group_ids(p).len(),
            seed_of(persisted_group_ids(p), group_prefix()),
            storage.groups@.len(),
        ),
    }
}

/// The rule counter of the context built from a state: past every persisted rule id, and past
/// the ids allocated for rules the identities did not cover.
pub open spec fn from_storage_next_rule(storage: AppStateStorage) -> nat {
    match storage.rule_identities {
        None => reconciled_next_rule(Seq::empty(), 0, program_counts(storage.groups@)),
        Some(p) => reconciled_next_rule(
            persisted_rule_ids(p),
            nested_seed_of(persisted_rule_ids(p), rule_prefix()),
            program_counts(storage.groups@),
        ),
    }
}

impl RulesContext {
    fn rebuild_from_persisted(
        &mut self,
        storage: &AppStateStorage,
        identities: &PersistedRuleIdentities,
    )
        requires
            ({
                let g = persisted_group_ids(*identities);
                let r = persisted_rule_ids(*identities);
                &&& seed_of(g, group_prefix()) <= usize::MAX
                &&& nested_seed_of(r, rule_prefix()) <= usize::MAX
                &&& reconcile_fits(
                    g,
                    r,
                    seed_of(g, group_prefix()),
                    nested_seed_of(r, rule_prefix()),
                    program_counts(storage.groups@),
                )
            }),
        ensures
            final(self).wf(),
            final(self).groups() == reconciled_groups(
                persisted_group_ids(*identities),
                seed_of(persisted_group_ids(*identities), group_prefix()),
                storage.groups@.len(),
            ),
            final(self).rules() == reconciled_rules(
                persisted_rule_ids(*identities),
                nested_seed_of(persisted_rule_ids(*identities), rule_prefix()),
                program_counts(storage.groups@),
            ),
            final(self).next_group() == reconciled_next_group(
                persisted_group_ids(*identities).len(),
                seed_of(persisted_group_ids(*identities), group_prefix()),
                storage.groups@.len(),
            ),
            final(self).next_rule() == reconciled_next_rule(
                persisted_rule_ids(*identities),
                nested_seed_of(persisted_rule_ids(*identities), rule_prefix()),
                program_counts(storage.groups@),
            ),
    {
        let mut group_ids: Vec<GroupId> = Vec::new();
        let mut rule_ids: Vec<Vec<RuleId>> = Vec::new();
        let mut i: usize = 0;
        while i < identities.groups.len()
            invariant
                i <= identities.groups@.len(),
                group_ids@.len() == i,
                rule_ids@.len() == i,
                forall|j: int| 0 <= j < i ==> #[trigger] group_ids@[j]@ == identities.groups@[j].id@,
                forall|j: int| 0 <= j < i ==> #[trigger] rule_ids_text(rule_ids@[j]@) == rule_ids_text(
                    identities.groups@[j].rule_ids@,
                ),
            decreases identities.groups.len() - i,
        {
            group_ids.push(identities.groups[i].id.clone());
            rule_ids.push(clone_rule_ids(&identities.groups[i].rule_ids));
            i = i + 1;
        }
        self.group_ids = group_ids;
        self.rule_ids = rule_ids;
        proof {
            assert(self.groups() =~= persisted_group_ids(*identities));
            assert(self.rules() =~= persisted_rule_ids(*identities));
        }
        self.seed_next_ids();
        self.reconcile_with_storage(storage);
    }

    /// Builds the ids for a state: from its persisted identities when it has them (reconciled
    /// to its groups and rules), otherwise freshly allocated in order.
    pub fn from_storage(storage: &AppStateStorage) -> (r: Self)
        requires
            from_storage_fits(*storage),
        ensures
            r.wf(),
            r.groups() == from_storage_groups(*storage),
            r.rules() == from_storage_rules(*storage),
            r.groups().len() == storage.groups@.len(),
            r.rules().len() == storage.groups@.len(),
            forall|g: int|
                0 <= g < storage.groups@.len() ==> #[trigger] r.rules()[g].len()
                    == storage.groups@[g].programs@.len(),
            r.next_group() == from_storage_next_group(*storage),
            r.next_rule() == from_storage_next_rule(*storage),
    {
        let mut context = RulesContext::default();
        match &storage.rule_identities {
            Some(identities) => context.rebuild_from_persisted(storage, identities),
            None => context.rebuild_from_storage(storage),
        }
        context
    }
}

} // verus!

verus! {

/// A rule as seen by the launcher and the monitor: its id and its settings.
#[derive(Debug)]
pub struct RuleConfig {
    pub id: RuleId,
    pub app: AppToRun,
}

/// A group as seen by the launcher and the monitor.
#[derive(Debug)]
pub struct GroupConfig {
    pub id: GroupId,
    pub name: String,
    pub cores: Vec<usize>,
    pub is_hidden: bool,
    pub run_all_enabled: bool,
    pub rules: Vec<RuleConfig>,
}

/// All groups with their ids.
#[derive(Debug)]
pub struct RulesSnapshot {
    pub groups: Vec<GroupConfig>,
}

/// Id shown for group `g`: its id, or `missing-group-<g>` when the context has none.
pub open spec fn snapshot_group_id(groups: Seq<Seq<char>>, g: nat) -> Seq<char> {
    if g < groups.len() {
        groups[g as int]
    } else {
        seq!['m', 'i', 's', 's', 'i', 'n', 'g', '-', 'g', 'r', 'o', 'u', 'p', '-'] + decimal(g)
    }
}

/// Id shown for rule `r` of group `g`: its id, or `missing-rule-<g>-<r>` when the context has
/// none.
pub open spec fn snapshot_rule_id(rules: Seq<Seq<Seq<char>>>, g: nat, r: nat) -> Seq<char> {
    if g < rules.len() && r < rules[g as int].len() {
        rules[g as int][r as int]
    } else {
        seq!['m', 'i', 's', 's', 'i', 'n', 'g', '-', 'r', 'u', 'l', 'e', '-'] + decimal(g) + seq![
            '-',
        ] + decimal(r)
    }
}

impl RulesContext {
    fn snapshot_group_id_exec(&self, g: usize) -> (r: GroupId)
        ensures
            r@ == snapshot_group_id(self.groups(), g as nat),
    {
        match self.group_id_for_index(g) {
            Some(id) => id,
            None => {
                let text = prefixed_number("missing-group-", g);
                proof {
                    reveal_strlit("missing-group-");
                    assert("missing-group-"@ =~= seq![
                        'm', 'i', 's', 's', 'i', 'n', 'g', '-', 'g', 'r', 'o', 'u', 'p', '-'
                    ]);
                }
                GroupId(text)
            },
        }
    }

    fn snapshot_rule_id_exec(&self, g: usize, r: usize) -> (id: RuleId)
        ensures
            id@ == snapshot_rule_id(self.rules(), g as nat, r as nat),
    {
        match self.rule_id_for_index(g, r) {
            Some(id) => id,
            None => {
                let head = prefixed_number("missing-rule-", g);
                let dash = concat(head.as_str(), "-");
                let digits = format_usize(r);
                let text = concat(dash.as_str(), digits.as_str());
                proof {
                    reveal_strlit("missing-rule-");
                    reveal_strlit("-");
                    assert("missing-rule-"@ =~= seq![
                        'm', 'i', 's', 's', 'i', 'n', 'g', '-', 'r', 'u', 'l', 'e', '-'
                    ]);
                    assert("-"@ =~= seq!['-']);
                }
                RuleId(text)
            },
        }
    }

    /// The groups and rules of a state paired with their ids.
    pub fn snapshot(&self, storage: &AppStateStorage) -> (r: RulesSnapshot)
        ensures
            r.groups@.len() == storage.groups@.len(),
            forall|g: int|
                0 <= g < storage.groups@.len() ==> {
                    let c = #[trigger] r.groups@[g];
                    let s = storage.groups@[g];
                    &&& c.id@ == snapshot_group_id(self.groups(), g as nat)
                    &&& c.name == s.name
                    &&& c.cores@ == s.cores@
                    &&& c.is_hidden == s.is_hidden
                    &&& c.run_all_enabled == s.run_all_button
                    &&& c.rules@.len() == s.programs@.len()
                    &&& forall|k: int|
                        0 <= k < s.programs@.len() ==> (#[trigger] c.rules@[k]).id@
                            == snapshot_rule_id(self.rules(), g as nat, k as nat) && c.rules@[k].app@
                            == s.programs@[k]@
                },
    {
        let mut groups: Vec<GroupConfig> = Vec::new();
        let mut g: usize = 0;
        while g < storage.groups.len()
            invariant
                g <= storage.groups@.len(),
                groups@.len() == g,
                forall|j: int|
                    0 <= j < g ==> {
                        let c = #[trigger] groups@[j];
                        let s = storage.groups@[j];
                        &&& c.id@ == snapshot_group_id(self.groups(), j as nat)
                        &&& c.name == s.name
                        &&& c.cores@ == s.cores@
                        &&& c.is_hidden == s.is_hidden
                        &&& c.run_all_enabled == s.run_all_button
                        &&& c.rules@.len() == s.programs@.len()
                        &&& forall|k: int|
                            0 <= k < s.programs@.len() ==> (#[trigger] c.rules@[k]).id@
                                == snapshot_rule_id(self.rules(), j as nat, k as nat)
                                && c.rules@[k].app@ == s.programs@[k]@
                    },
            decreases storage.groups.len() - g,
        {
            let group = &storage.groups[g];
            let mut rules: Vec<RuleConfig> = Vec::new();
            let mut k: usize = 0;
            while k < group.programs.len()
                invariant
                    g < storage.groups@.len(),
                    *group == storage.groups@[g as int],
                    k <= group.programs@.len(),
                    rules@.len() == k,
                    forall|q: int|
                        0 <= q < k ==> (#[trigger] rules@[q]).id@ == snapshot_rule_id(
                            self.rules(),
                            g as nat,
                            q as nat,
                        ) && rules@[q].app@ == group.programs@[q]@,
                decreases group.programs.len() - k,
            {
                let id = self.snapshot_rule_id_exec(g, k);
                let app = group.programs[k].clone();
                rules.push(RuleConfig { id, app });
                k = k + 1;
            }
            let id = self.snapshot_group_id_exec(g);
            groups.push(
                GroupConfig {
                    id,
                    name: group.name.clone(),
                    cores: crate::models::clone_cores(&group.cores),
                    is_hidden: group.is_hidden,
                    run_all_enabled: group.run_all_button,
                    rules,
                },
            );
            g = g + 1;
        }
        RulesSnapshot { groups }
    }
}

} // verus!

verus! {

proof fn lemma_seed_le(ids: Seq<Seq<char>>, prefix: Seq<char>, bound: nat)
    requires
        forall|i: int| 0 <= i < ids.len() ==> (id_number(#[trigger] ids[i], prefix) matches Some(n) ==> n < bound),
    ensures
        seed_of(ids, prefix) <= bound,
    decreases ids.len(),
{
    if ids.len() > 0 {
        assert forall|i: int| 0 <= i < ids.drop_last().len() implies (id_number(#[trigger] ids.drop_last()[i], prefix) matches Some(n) ==> n < bound) by {
            assert(ids.drop_last()[i] == ids[i]);
        }
        lemma_seed_le(ids.drop_last(), prefix, bound);
        assert(id_number(ids[ids.len() - 1], prefix) matches Some(n) ==> n < bound);
    }
}

proof fn lemma_nested_seed_le(ids: Seq<Seq<Seq<char>>>, prefix: Seq<char>, bound: nat)
    requires
        forall|g: int, r: int|
            0 <= g < ids.len() && 0 <= r < ids[g].len() ==> (id_number(#[trigger] ids[g][r], prefix) matches Some(n) ==> n < bound),
    ensures
        nested_seed_of(ids, prefix) <= bound,
    decreases ids.len(),
{
    if ids.len() > 0 {
        let last = ids[ids.len() - 1];
        assert forall|i: int| 0 <= i < last.len() implies (id_number(#[trigger] last[i], prefix) matches Some(n) ==> n < bound) by {
            assert(last[i] == ids[ids.len() - 1][i]);
        }
        lemma_seed_le(last, prefix, bound);
        assert forall|g: int, r: int|
            0 <= g < ids.drop_last().len() && 0 <= r < ids.drop_last()[g].len() implies (id_number(#[trigger] ids.drop_last()[g][r], prefix) matches Some(n) ==> n < bound) by {
            assert(ids.drop_last()[g] == ids[g]);
        }
        lemma_nested_seed_le(ids.drop_last(), prefix, bound);
    }
}

proof fn lemma_no_deficit(rows: Seq<Seq<Seq<char>>>, counts: Seq<nat>, g: int)
    requires
        0 <= g <= counts.len(),
        rows.len() == counts.len(),
        forall|i: int| 0 <= i < rows.len() ==> #[trigger] rows[i].len() == counts[i],
    ensures
        deficit_before(rows, counts, g) == 0,
    decreases g,
{
    if g > 0 {
        lemma_no_deficit(rows, counts, g - 1);
        assert(rows[g - 1].len() == counts[g - 1]);
    }
}

/// An id numbered at or past a counter that bounds every numbered id of a list is not in it.
proof fn lemma_allocated_not_held(ids: Seq<Seq<char>>, prefix: Seq<char>, bound: nat, m: nat)
    requires
        forall|i: int| 0 <= i < ids.len() ==> (id_number(#[trigger] ids[i], prefix) matches Some(n) ==> n < bound),
        bound <= m <= usize::MAX,
    ensures
        !ids.contains(prefix + decimal(m)),
{
    lemma_id_number_of_allocated(m as usize, prefix);
    if ids.contains(prefix + decimal(m)) {
        let i = choose|i: int| 0 <= i < ids.len() && ids[i] == prefix + decimal(m);
        assert(id_number(ids[i], prefix) == Some(m as usize));
    }
}

/// Reconciling a context to a state keeps the id of every group and rule the context already
/// had, in its place, and gives each group and rule it adds an id that no group, and no rule,
/// of the context held.
pub proof fn lemma_reconcile_keeps_ids_and_allocates_fresh(ctx: RulesContext, storage: AppStateStorage)
    requires
        ctx.wf(),
        reconcile_with_storage_fits(ctx, storage),
    ensures
        ({
            let gs = reconciled_groups(ctx.groups(), ctx.next_group(), storage.groups@.len());
            &&& forall|i: int| 0 <= i < gs.len() && i < ctx.groups().len() ==> #[trigger] gs[i] == ctx.groups()[i]
            &&& forall|i: int| 0 <= i < gs.len() && i >= ctx.groups().len() ==> !ctx.groups().contains(#[trigger] gs[i])
        }),
        ({
            let rs = reconciled_rules(ctx.rules(), ctx.next_rule(), program_counts(storage.groups@));
            &&& forall|g: int, r: int|
                0 <= g < rs.len() && 0 <= r < rs[g].len() && g < ctx.rules().len() && r < ctx.rules()[g].len()
                    ==> #[trigger] rs[g][r] == ctx.rules()[g][r]
            &&& forall|g: int, r: int, h: int|
                0 <= g < rs.len() && 0 <= r < rs[g].len() && !(g < ctx.rules().len() && r < ctx.rules()[g].len())
                    && 0 <= h < ctx.rules().len() ==> !#[trigger] ctx.rules()[h].contains(#[trigger] rs[g][r])
        }),
{
    let groups = ctx.groups();
    let n = storage.groups@.len();
    let gs = reconciled_groups(groups, ctx.next_group(), n);
    assert forall|i: int| 0 <= i < gs.len() && i >= groups.len() implies !groups.contains(#[trigger] gs[i]) by {
        let m = (ctx.next_group() + i - groups.len()) as nat;
        lemma_allocated_not_held(groups, group_prefix(), ctx.next_group(), m);
    }
    let rows = ctx.rules();
    let counts = program_counts(storage.groups@);
    let rs = reconciled_rules(rows, ctx.next_rule(), counts);
    let padded = resize_rows(rows, counts.len());
    assert forall|g: int, r: int, h: int|
        0 <= g < rs.len() && 0 <= r < rs[g].len() && !(g < rows.len() && r < rows[g].len()) && 0 <= h
            < rows.len() implies !#[trigger] rows[h].contains(#[trigger] rs[g][r]) by {
        let kept = min_nat(padded[g].len(), counts[g]);
        assert(r >= kept);
        let m = (ctx.next_rule() + deficit_before(padded, counts, g) + (r - kept)) as nat;
        lemma_deficit_mono(padded, counts, g + 1, counts.len() as int);
        assert(rs[g][r] == allocated_rule_id(m));
        assert forall|i: int| 0 <= i < rows[h].len() implies (id_number(#[trigger] rows[h][i], rule_prefix())
            matches Some(k) ==> k < ctx.next_rule()) by {}
        lemma_allocated_not_held(rows[h], rule_prefix(), ctx.next_rule(), m);
    }
}

/// Saving a context's ids with the state (what `to_persisted_identities` gives, whose
/// group and rule ids are the context's) and building a context from that state again with
/// `from_storage` gives the same ids: `from_storage` accepts the state, and every group and
/// rule keeps its id, provided the state still has the groups and rules the ids were made for.
pub proof fn lemma_persisted_identities_roundtrip(ctx: RulesContext, storage: AppStateStorage)
    requires
        ctx.wf(),
        storage.rule_identities matches Some(p) && persisted_group_ids(p) == ctx.groups()
            && persisted_rule_ids(p) == ctx.rules(),
        ctx.groups().len() == storage.groups@.len(),
        forall|g: int| 0 <= g < storage.groups@.len() ==> #[trigger] ctx.rules()[g].len()
            == storage.groups@[g].programs@.len(),
    ensures
        from_storage_fits(storage),
        from_storage_groups(storage) == ctx.groups(),
        from_storage_rules(storage) == ctx.rules(),
{
    let p = storage.rule_identities.unwrap();
    let g = ctx.groups();
    let r = ctx.rules();
    let counts = program_counts(storage.groups@);
    assert(ctx.next_group() <= usize::MAX && ctx.next_rule() <= usize::MAX);
    lemma_seed_le(g, group_prefix(), ctx.next_group());
    lemma_nested_seed_le(r, rule_prefix(), ctx.next_rule());
    assert(resize_rows(r, counts.len()) =~= r);
    assert forall|i: int| 0 <= i < r.len() implies #[trigger] r[i].len() == counts[i] by {
        assert(r[i].len() == storage.groups@[i].programs@.len());
    }
    lemma_no_deficit(r, counts, counts.len() as int);
    assert(reconciled_groups(g, seed_of(g, group_prefix()), storage.groups@.len()) =~= g);
    let rr = reconciled_rules(r, nested_seed_of(r, rule_prefix()), counts);
    assert forall|i: int| 0 <= i < r.len() implies #[trigger] rr[i] == r[i] by {
        assert(rr[i] =~= r[i]);
    }
    assert(rr =~= r);
}

} // verus!

verus! {

/// Exchanging the same two groups twice restores the original order.
pub proof fn lemma_swap_twice_restores<T>(s: Seq<T>, a: int, b: int)
    requires
        0 <= a < s.len(),
        0 <= b < s.len(),
    ensures
        swapped(swapped(s, a, b), a, b) == s,
{
    assert(swapped(swapped(s, a, b), a, b) =~= s);
}

/// Group ids and rule ids allocated for different numbers differ.
pub proof fn lemma_allocated_ids_distinct(a: usize, b: usize)
    requires
        a != b,
    ensures
        allocated_group_id(a as nat) != allocated_group_id(b as nat),
        allocated_rule_id(a as nat) != allocated_rule_id(b as nat),
{
    lemma_id_number_of_allocated(a, group_prefix());
    lemma_id_number_of_allocated(b, group_prefix());
    lemma_id_number_of_allocated(a, rule_prefix());
    lemma_id_number_of_allocated(b, rule_prefix());
}

/// Freshly allocated group ids are pairwise distinct: rebuilding a context's ids never gives
/// two groups the same id.
pub proof fn lemma_rebuilt_group_ids_distinct(next: nat, n: nat, i: int, j: int)
    requires
        next + n <= usize::MAX,
        0 <= i < n,
        0 <= j < n,
        i != j,
    ensures
        reconciled_groups(Seq::empty(), next, n)[i] != reconciled_groups(Seq::empty(), next, n)[j],
{
    lemma_allocated_ids_distinct((next + i) as usize, (next + j) as usize);
}

/// Moving a rule and moving its id with the same indices keeps them together: when the ids
/// and the rules have the same shape, the move is possible for both or neither, the shapes
/// still agree afterwards, and the moved id lands where the moved rule lands.
pub proof fn lemma_move_keeps_ids_with_rules<A, B>(
    ids: Seq<Seq<A>>,
    rules: Seq<Seq<B>>,
    sg: int,
    sr: int,
    tg: int,
    tr: int,
)
    requires
        ids.len() == rules.len(),
        forall|g: int| 0 <= g < ids.len() ==> #[trigger] ids[g].len() == rules[g].len(),
    ensures
        move_in_bounds(ids, sg, sr, tg, tr) == move_in_bounds(rules, sg, sr, tg, tr),
        move_in_bounds(ids, sg, sr, tg, tr) ==> {
            let mi = moved_between(ids, sg, sr, tg, tr);
            let mr = moved_between(rules, sg, sr, tg, tr);
            let t = adjusted_insert_index(sg == tg, sr, tr);
            &&& mi.len() == mr.len()
            &&& forall|g: int| 0 <= g < mi.len() ==> #[trigger] mi[g].len() == mr[g].len()
            &&& mi[tg][t] == ids[sg][sr]
            &&& mr[tg][t] == rules[sg][sr]
        },
{
    if move_in_bounds(ids, sg, sr, tg, tr) {
        assert(ids[sg].len() == rules[sg].len());
        assert(ids[tg].len() == rules[tg].len());
        let mi = moved_between(ids, sg, sr, tg, tr);
        let mr = moved_between(rules, sg, sr, tg, tr);
        assert forall|g: int| 0 <= g < mi.len() implies #[trigger] mi[g].len() == mr[g].len() by {
            assert(ids[g].len() == rules[g].len());
        }
    } else {
        if 0 <= sg < ids.len() {
            assert(ids[sg].len() == rules[sg].len());
        }
        if 0 <= tg < ids.len() {
            assert(ids[tg].len() == rules[tg].len());
        }
    }
}

} // verus!
