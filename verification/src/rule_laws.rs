//! What holds of the rules of a file whatever it says.

use vstd::prelude::*;
use crate::policy::string_view;
use crate::policy_laws::{says_count, says_list};
use crate::rules::{
    blank_rule, date_of, drafts, rule_after, rule_named, rules_after, table_of, with_action,
    RuleAction, RuleCondition, RuleView,
};
use crate::text::joined;
use crate::toml::{EntryView, ValueView};

verus! {

/// The rule that an entry is about.
pub open spec fn rule_of(e: EntryView) -> Option<Seq<char>> {
    let section = joined(e.table, "."@);
    if "rules."@.is_prefix_of(section) && section.len() > "rules."@.len() {
        Some(section.skip("rules."@.len() as int))
    } else {
        None
    }
}

/// Whether an entry gives its rule an action that is known.
pub open spec fn sets_action(e: EntryView) -> bool {
    e.key == "action"@ && (match string_view(e.value) {
        Some(s) => RuleAction::named(s) is Some,
        None => false,
    })
}

/// Whether a file says anything of a rule.
pub open spec fn is_mentioned(es: Seq<EntryView>, id: Seq<char>) -> bool {
    exists|i: int| 0 <= i < es.len() && rule_of(#[trigger] es[i]) == Some(id)
}

/// Whether a file gives a rule an action that is known.
pub open spec fn is_given_action(es: Seq<EntryView>, id: Seq<char>) -> bool {
    exists|i: int|
        0 <= i < es.len() && rule_of(#[trigger] es[i]) == Some(id) && sets_action(es[i])
}

/// Whether a rule is mentioned before another one is.
pub open spec fn comes_first(es: Seq<EntryView>, a: Seq<char>, b: Seq<char>) -> bool {
    exists|i: int|
        0 <= i < es.len() && rule_of(#[trigger] es[i]) == Some(a) && !is_mentioned(
            es.take(i + 1),
            b,
        )
}

/// Whether a list of rules has one of a name.
pub open spec fn has_rule(rules: Seq<RuleView>, id: Seq<char>) -> bool {
    exists|i: int| 0 <= i < rules.len() && (#[trigger] rules[i]).id == id
}

/// No name occurs twice or is empty.
pub open spec fn well_named(rules: Seq<RuleView>) -> bool {
    &&& forall|i: int| 0 <= i < rules.len() ==> (#[trigger] rules[i]).id.len() > 0
    &&& forall|i: int, j: int| 0 <= i < j < rules.len() ==> rules[i].id != rules[j].id
}

/// The rules stand in the order in which the file first mentions them.
pub open spec fn in_order(es: Seq<EntryView>, rules: Seq<RuleView>) -> bool {
    forall|i: int, j: int|
        0 <= i < j < rules.len() ==> comes_first(
            es,
            (#[trigger] rules[i]).id,
            (#[trigger] rules[j]).id,
        )
}

proof fn lemma_rule_named(rules: Seq<RuleView>, id: Seq<char>)
    ensures
        match rule_named(rules, id) {
            Some(i) => 0 <= i < rules.len() && rules[i].id == id,
            None => !has_rule(rules, id),
        },
    decreases rules.len(),
{
    if rules.len() > 0 {
        let d = rules.drop_last();
        lemma_rule_named(d, id);
        if rule_named(rules, id) is None && has_rule(rules, id) {
            let i = choose|i: int| 0 <= i < rules.len() && (#[trigger] rules[i]).id == id;
            assert(d[i].id == id);
        }
    }
}

proof fn lemma_one_more(es: Seq<EntryView>, id: Seq<char>)
    requires
        es.len() > 0,
    ensures
        is_mentioned(es, id) == (is_mentioned(es.drop_last(), id) || rule_of(es.last()) == Some(
            id,
        )),
        is_given_action(es, id) == (is_given_action(es.drop_last(), id) || (rule_of(es.last())
            == Some(id) && sets_action(es.last()))),
{
    let d = es.drop_last();
    let e = es.last();
    assert(es[es.len() - 1] == e);
    if is_mentioned(d, id) {
        let i = choose|i: int| 0 <= i < d.len() && rule_of(#[trigger] d[i]) == Some(id);
        assert(rule_of(es[i]) == Some(id));
    }
    if is_mentioned(es, id) && rule_of(e) != Some(id) {
        let i = choose|i: int| 0 <= i < es.len() && rule_of(#[trigger] es[i]) == Some(id);
        assert(rule_of(d[i]) == Some(id));
    }
    if is_given_action(d, id) {
        let i = choose|i: int|
            0 <= i < d.len() && rule_of(#[trigger] d[i]) == Some(id) && sets_action(d[i]);
        assert(rule_of(es[i]) == Some(id) && sets_action(es[i]));
    }
    if is_given_action(es, id) && !(rule_of(e) == Some(id) && sets_action(e)) {
        let i = choose|i: int|
            0 <= i < es.len() && rule_of(#[trigger] es[i]) == Some(id) && sets_action(es[i]);
        assert(rule_of(d[i]) == Some(id) && sets_action(d[i]));
    }
}

/// More entries at the end do not change which of two rules comes first.
proof fn lemma_still_first(es: Seq<EntryView>, a: Seq<char>, b: Seq<char>)
    requires
        es.len() > 0,
        comes_first(es.drop_last(), a, b),
    ensures
        comes_first(es, a, b),
{
    let d = es.drop_last();
    let i = choose|i: int|
        0 <= i < d.len() && rule_of(#[trigger] d[i]) == Some(a) && !is_mentioned(d.take(i + 1), b);
    assert(es.take(i + 1) =~= d.take(i + 1));
    assert(rule_of(es[i]) == Some(a));
}

/// A rule that the entries so far mention comes before one that they do not.
proof fn lemma_new_is_last(es: Seq<EntryView>, a: Seq<char>, b: Seq<char>)
    requires
        es.len() > 0,
        is_mentioned(es.drop_last(), a),
        !is_mentioned(es.drop_last(), b),
    ensures
        comes_first(es, a, b),
{
    let d = es.drop_last();
    let i = choose|i: int| 0 <= i < d.len() && rule_of(#[trigger] d[i]) == Some(a);
    let t = es.take(i + 1);
    if is_mentioned(t, b) {
        let j = choose|j: int| 0 <= j < t.len() && rule_of(#[trigger] t[j]) == Some(b);
        assert(rule_of(d[j]) == Some(b));
    }
    assert(rule_of(es[i]) == Some(a));
}

/// What the drafts of a file hold.
pub open spec fn drafted(es: Seq<EntryView>, rules: Seq<RuleView>) -> bool {
    &&& well_named(rules)
    &&& in_order(es, rules)
    &&& forall|id: Seq<char>| #[trigger] is_mentioned(es, id) ==> has_rule(rules, id)
    &&& forall|i: int|
        0 <= i < rules.len() ==> is_mentioned(es, (#[trigger] rules[i]).id) && rules[i].action_set
            == is_given_action(es, rules[i].id)
}

proof fn lemma_rule_after(r: RuleView, e: EntryView)
    ensures
        rule_after(r, e.key, e.value).id == r.id,
        rule_after(r, e.key, e.value).action_set == (r.action_set || sets_action(e)),
{
    reveal_strlit("action");
    reveal_strlit("priority");
    reveal_strlit("applies_to");
    reveal_strlit("condition");
    reveal_strlit("source");
    assert("action"@[0] != "source"@[0]);
    assert("action"@ != "source"@);
    assert("action"@.len() == 6 && "priority"@.len() == 8 && "applies_to"@.len() == 10
        && "condition"@.len() == 9);
    if e.key == "action"@ {
        assert(rule_after(r, e.key, e.value).action_set == (r.action_set || sets_action(e)));
    }
}

#[verifier::rlimit(30)]
proof fn lemma_drafts(es: Seq<EntryView>)
    ensures
        drafted(es, drafts(es)),
    decreases es.len(),
{
    if es.len() > 0 {
        let d = es.drop_last();
        let e = es.last();
        lemma_drafts(d);
        let old_rules = drafts(d);
        let rules = drafts(es);
        assert(rules == rules_after(old_rules, e));
        assert forall|id: Seq<char>| #[trigger] is_mentioned(es, id) == (is_mentioned(d, id)
            || rule_of(e) == Some(id)) by {
            lemma_one_more(es, id);
        }
        match rule_of(e) {
            None => {
                assert(rules == old_rules);
            },
            Some(id) => {
                lemma_rule_named(old_rules, id);
                match rule_named(old_rules, id) {
                    Some(k) => {
                        let x = rule_after(old_rules[k], e.key, e.value);
                        lemma_rule_after(old_rules[k], e);
                        assert(rules == old_rules.update(k, x));
                        assert(x.id == id);
                        assert(x.action_set == (old_rules[k].action_set || sets_action(e)));
                        assert forall|i: int| 0 <= i < rules.len() implies (#[trigger] rules[i]).id
                            == old_rules[i].id by {}
                    },
                    None => {
                        lemma_rule_after(blank_rule(id), e);
                        assert(!is_mentioned(d, id));
                        assert forall|i: int| 0 <= i < old_rules.len() implies rules[i]
                            == old_rules[i] && (#[trigger] old_rules[i]).id != id by {}
                        assert(rules[old_rules.len() as int].id == id);
                    },
                }
            },
        }
        assert forall|i: int, j: int| 0 <= i < j < rules.len() implies comes_first(
            es,
            (#[trigger] rules[i]).id,
            (#[trigger] rules[j]).id,
        ) by {
            if j < old_rules.len() {
                assert(rules[i].id == old_rules[i].id && rules[j].id == old_rules[j].id);
                lemma_still_first(es, rules[i].id, rules[j].id);
            } else {
                assert(rules[i].id == old_rules[i].id);
                assert(is_mentioned(d, old_rules[i].id));
                lemma_new_is_last(es, rules[i].id, rules[j].id);
            }
        }
        assert forall|i: int, j: int| 0 <= i < j < rules.len() implies rules[i].id
            != rules[j].id by {
            if j < old_rules.len() {
                assert(rules[i].id == old_rules[i].id && rules[j].id == old_rules[j].id);
            } else {
                assert(rules[i].id == old_rules[i].id);
            }
        }
        assert forall|i: int| 0 <= i < rules.len() implies (#[trigger] rules[i]).id.len() > 0 by {
            if i < old_rules.len() {
                assert(rules[i].id == old_rules[i].id);
            }
        }
        assert forall|id: Seq<char>| #[trigger] is_mentioned(es, id) implies has_rule(
            rules,
            id,
        ) by {
            if is_mentioned(d, id) {
                let i = choose|i: int|
                    0 <= i < old_rules.len() && (#[trigger] old_rules[i]).id == id;
                assert(rules[i].id == id);
            } else {
                assert(rules[old_rules.len() as int].id == id);
            }
        }
        assert forall|i: int| 0 <= i < rules.len() implies is_mentioned(
            es,
            (#[trigger] rules[i]).id,
        ) && rules[i].action_set == is_given_action(es, rules[i].id) by {
            lemma_one_more(es, rules[i].id);
            if i < old_rules.len() {
                assert(rules[i].id == old_rules[i].id);
                assert(is_mentioned(d, old_rules[i].id));
            } else {
                if is_given_action(d, rules[i].id) {
                    let j = choose|j: int|
                        0 <= j < d.len() && rule_of(#[trigger] d[j]) == Some(rules[i].id)
                            && sets_action(d[j]);
                    assert(is_mentioned(d, rules[i].id));
                }
            }
        }
    }
}

/// The rules that are kept stand in the order of the drafts.
proof fn lemma_kept(rules: Seq<RuleView>, i: int, j: int) -> (r: (int, int))
    requires
        0 <= i < j < with_action(rules).len(),
    ensures
        0 <= r.0 < r.1 < rules.len(),
        rules[r.0] == with_action(rules)[i],
        rules[r.1] == with_action(rules)[j],
    decreases rules.len(),
{
    let d = rules.drop_last();
    let w = with_action(d);
    if rules.last().action_set && j == w.len() {
        let k = lemma_kept_one(d, i);
        (k, rules.len() - 1)
    } else {
        lemma_kept(d, i, j)
    }
}

proof fn lemma_kept_one(rules: Seq<RuleView>, i: int) -> (k: int)
    requires
        0 <= i < with_action(rules).len(),
    ensures
        0 <= k < rules.len(),
        rules[k] == with_action(rules)[i],
        rules[k].action_set,
    decreases rules.len(),
{
    let d = rules.drop_last();
    if rules.last().action_set && i == with_action(d).len() {
        rules.len() - 1
    } else {
        lemma_kept_one(d, i)
    }
}

proof fn lemma_keeps(rules: Seq<RuleView>, k: int)
    requires
        0 <= k < rules.len(),
        rules[k].action_set,
    ensures
        has_rule(with_action(rules), rules[k].id),
    decreases rules.len(),
{
    let d = rules.drop_last();
    let w = with_action(rules);
    if k == rules.len() - 1 {
        assert(w[w.len() - 1].id == rules[k].id);
    } else {
        lemma_keeps(d, k);
        let v = with_action(d);
        let i = choose|i: int| 0 <= i < v.len() && (#[trigger] v[i]).id == d[k].id;
        assert(w[i].id == rules[k].id);
    }
}

/// The rules of a file have names that are not empty and do not occur twice, and stand in the
/// order in which the file first mentions them. A rule is kept exactly where some entry of its
/// section gives it an action that is known. The revision is the one that was given, and no
/// rule has applied yet.
pub proof fn law_rules_of_a_file(es: Seq<EntryView>, revision: u64)
    ensures
        table_of(es, revision).revision == revision,
        table_of(es, revision).hits == 0,
        well_named(table_of(es, revision).rules),
        in_order(es, table_of(es, revision).rules),
        forall|id: Seq<char>| #[trigger]
            has_rule(table_of(es, revision).rules, id) <==> is_given_action(es, id),
{
    lemma_drafts(es);
    let all = drafts(es);
    let kept = with_action(all);
    assert forall|i: int, j: int| 0 <= i < j < kept.len() implies kept[i].id != kept[j].id by {
        let (a, b) = lemma_kept(all, i, j);
        assert(all[a].id != all[b].id);
    }
    assert forall|i: int, j: int| 0 <= i < j < kept.len() implies comes_first(
        es,
        (#[trigger] kept[i]).id,
        (#[trigger] kept[j]).id,
    ) by {
        let (a, b) = lemma_kept(all, i, j);
        assert(comes_first(es, all[a].id, all[b].id));
    }
    assert forall|i: int| 0 <= i < kept.len() implies (#[trigger] kept[i]).id.len() > 0 by {
        let k = lemma_kept_one(all, i);
        assert(all[k].id.len() > 0);
    }
    assert forall|id: Seq<char>| #[trigger] has_rule(kept, id) <==> is_given_action(es, id) by {
        if has_rule(kept, id) {
            let i = choose|i: int| 0 <= i < kept.len() && (#[trigger] kept[i]).id == id;
            let k = lemma_kept_one(all, i);
            assert(all[k].action_set == is_given_action(es, all[k].id));
        }
        if is_given_action(es, id) {
            let i = choose|i: int|
                0 <= i < es.len() && rule_of(#[trigger] es[i]) == Some(id) && sets_action(es[i]);
            assert(is_mentioned(es, id));
            let k = choose|k: int| 0 <= k < all.len() && (#[trigger] all[k]).id == id;
            assert(all[k].action_set == is_given_action(es, all[k].id));
            lemma_keeps(all, k);
        }
    }
}

// ---- What a file says of a rule ----

/// Whether an entry sets something of a rule.
pub open spec fn sets_of_rule(e: EntryView, id: Seq<char>, key: Seq<char>) -> bool {
    rule_of(e) == Some(id) && e.key == key
}

/// Whether a rule is as an entry about it says, where that is understood.
pub open spec fn rule_obeys(r: RuleView, e: EntryView) -> bool {
    let k = e.key;
    let v = e.value;
    &&& k == "priority"@ ==> (match v {
        ValueView::Int(n) => r.priority == n,
        _ => r.priority == 0,
    })
    &&& k == "applies_to"@ ==> says_list(v, r.applies_to)
    &&& k == "condition"@ && v == ValueView::Str("always"@) ==> r.condition == RuleCondition::Always
    &&& k == "condition"@ && v == ValueView::Str("leave"@) ==> r.condition == RuleCondition::Leave
    &&& k == "condition"@ && v == ValueView::Str("wakeup"@) ==> r.condition == RuleCondition::Wakeup
    &&& k == "condition"@ && v == ValueView::Str("focus"@) ==> r.condition == RuleCondition::Focus
    &&& k == "source"@ && (v == ValueView::Str("broadcast"@) || v == ValueView::Str("service"@) || v
        == ValueView::Str("pendingintent"@)) ==> (v matches ValueView::Str(t) && r.source == Some(
        t,
    ))
    &&& k == "action"@ && v == ValueView::Str("suppress"@) ==> r.action == RuleAction::Suppress
    &&& k == "action"@ && v == ValueView::Str("exempt"@) ==> r.action == RuleAction::Exempt
    &&& k == "action"@ && v == ValueView::Str("freeze"@) ==> r.action == RuleAction::Freeze
    &&& k == "action"@ && v == ValueView::Str("discard"@) ==> r.action == RuleAction::Discard
    &&& k == "throttle"@ ==> says_count(v, r.throttle_seconds, 0)
    &&& k == "after_seconds"@ ==> (r.after_seconds matches Some(n) && says_count(v, n, 0))
    &&& k == "expires_at"@ ==> (v matches ValueView::Str(t) ==> date_of(t) is Some ==> r.expires_at
        == date_of(t))
}

/// Whether what the file does not say of a rule is as if it had not been thought of: priority 0,
/// every package, at any time, from any source, without throttle, time or end.
pub open spec fn rule_rests(r: RuleView, es: Seq<EntryView>) -> bool {
    &&& !sets_somewhere(es, r.id, "priority"@) ==> r.priority == 0
    &&& !sets_somewhere(es, r.id, "applies_to"@) ==> r.applies_to.len() == 0
    &&& !sets_somewhere(es, r.id, "condition"@) ==> r.condition == RuleCondition::Always
    &&& !sets_somewhere(es, r.id, "source"@) ==> r.source is None
    &&& !sets_somewhere(es, r.id, "throttle"@) ==> r.throttle_seconds == 0
    &&& !sets_somewhere(es, r.id, "after_seconds"@) ==> r.after_seconds is None
    &&& !sets_somewhere(es, r.id, "expires_at"@) ==> r.expires_at is None
    &&& r.last_hit.len() == 0
}

/// Whether a file sets something of a rule.
pub open spec fn sets_somewhere(es: Seq<EntryView>, id: Seq<char>, key: Seq<char>) -> bool {
    exists|i: int| 0 <= i < es.len() && sets_of_rule(#[trigger] es[i], id, key)
}

/// Whether no entry behind one sets the same of the same rule.
pub open spec fn has_the_last_word_on_rule(es: Seq<EntryView>, id: Seq<char>, i: int) -> bool {
    &&& 0 <= i < es.len()
    &&& rule_of(es[i]) == Some(id)
    &&& forall|j: int| i < j < es.len() ==> !sets_of_rule(#[trigger] es[j], id, es[i].key)
}

#[verifier::spinoff_prover]
#[verifier::rlimit(40)]
proof fn lemma_rule_entry_is_obeyed(r: RuleView, e: EntryView)
    ensures
        rule_obeys(rule_after(r, e.key, e.value), e),
        rule_after(r, e.key, e.value).id == r.id,
{
    reveal_strlit("priority");
    reveal_strlit("applies_to");
    reveal_strlit("condition");
    reveal_strlit("source");
    reveal_strlit("action");
    reveal_strlit("throttle");
    reveal_strlit("after_seconds");
    reveal_strlit("expires_at");
    reveal_strlit("always");
    reveal_strlit("leave");
    reveal_strlit("wakeup");
    reveal_strlit("focus");
    reveal_strlit("suppress");
    reveal_strlit("exempt");
    reveal_strlit("freeze");
    reveal_strlit("discard");
    reveal_strlit("broadcast");
    reveal_strlit("service");
    reveal_strlit("pendingintent");
    assert("priority"@.len() == 8);
    assert("applies_to"@.len() == 10);
    assert("condition"@.len() == 9);
    assert("source"@.len() == 6);
    assert("action"@.len() == 6);
    assert("throttle"@.len() == 8);
    assert("after_seconds"@.len() == 13);
    assert("expires_at"@.len() == 10);
    assert("always"@.len() == 6);
    assert("leave"@.len() == 5);
    assert("wakeup"@.len() == 6);
    assert("focus"@.len() == 5);
    assert("suppress"@.len() == 8);
    assert("exempt"@.len() == 6);
    assert("freeze"@.len() == 6);
    assert("discard"@.len() == 7);
    assert("broadcast"@.len() == 9);
    assert("service"@.len() == 7);
    assert("pendingintent"@.len() == 13);
    assert("priority"@ != "applies_to"@);
    assert("priority"@ != "condition"@);
    assert("applies_to"@ != "condition"@);
    assert("priority"@ != "source"@);
    assert("applies_to"@ != "source"@);
    assert("condition"@ != "source"@);
    assert("priority"@ != "action"@);
    assert("applies_to"@ != "action"@);
    assert("condition"@ != "action"@);
    assert("source"@[0] != "action"@[0]);
    assert("source"@ != "action"@);
    assert("priority"@[0] != "throttle"@[0]);
    assert("priority"@ != "throttle"@);
    assert("applies_to"@ != "throttle"@);
    assert("condition"@ != "throttle"@);
    assert("source"@ != "throttle"@);
    assert("action"@ != "throttle"@);
    assert("priority"@ != "after_seconds"@);
    assert("applies_to"@ != "after_seconds"@);
    assert("condition"@ != "after_seconds"@);
    assert("source"@ != "after_seconds"@);
    assert("action"@ != "after_seconds"@);
    assert("throttle"@ != "after_seconds"@);
    assert("priority"@ != "expires_at"@);
    assert("applies_to"@[0] != "expires_at"@[0]);
    assert("applies_to"@ != "expires_at"@);
    assert("condition"@ != "expires_at"@);
    assert("source"@ != "expires_at"@);
    assert("action"@ != "expires_at"@);
    assert("throttle"@ != "expires_at"@);
    assert("after_seconds"@ != "expires_at"@);
    assert("always"@ != "leave"@);
    assert("always"@[0] != "wakeup"@[0]);
    assert("always"@ != "wakeup"@);
    assert("leave"@ != "wakeup"@);
    assert("always"@ != "focus"@);
    assert("leave"@[0] != "focus"@[0]);
    assert("leave"@ != "focus"@);
    assert("wakeup"@ != "focus"@);
    assert("suppress"@ != "exempt"@);
    assert("suppress"@ != "freeze"@);
    assert("exempt"@[0] != "freeze"@[0]);
    assert("exempt"@ != "freeze"@);
    assert("suppress"@ != "discard"@);
    assert("exempt"@ != "discard"@);
    assert("freeze"@ != "discard"@);
    assert("broadcast"@ != "service"@);
    assert("broadcast"@ != "pendingintent"@);
    assert("service"@ != "pendingintent"@);
}

proof fn lemma_rule_keeps(r: RuleView, e: EntryView, x: EntryView)
    requires
        rule_obeys(r, x),
        e.key != x.key,
    ensures
        rule_obeys(rule_after(r, e.key, e.value), x),
{
}

/// The draft of a rule is as the last entry about each of its parts says.
#[verifier::spinoff_prover]
#[verifier::rlimit(40)]
proof fn lemma_draft_obeys(es: Seq<EntryView>, id: Seq<char>, i: int, k: int)
    requires
        has_the_last_word_on_rule(es, id, i),
        0 <= k < drafts(es).len(),
        drafts(es)[k].id == id,
    ensures
        rule_obeys(drafts(es)[k], es[i]),
    decreases es.len(),
{
    let d = es.drop_last();
    let e = es.last();
    assert(es[es.len() - 1] == e);
    lemma_drafts(d);
    lemma_drafts(es);
    let old_rules = drafts(d);
    let rules = drafts(es);
    assert(rules == rules_after(old_rules, e));
    if i < es.len() - 1 {
        assert(is_mentioned(d, id)) by {
            assert(rule_of(d[i]) == Some(id));
        }
        assert(has_rule(old_rules, id));
        assert forall|j: int| i < j < d.len() implies !sets_of_rule(
            #[trigger] d[j],
            id,
            d[i].key,
        ) by {
            assert(d[j] == es[j]);
        }
    }
    match rule_of(e) {
        None => {
            lemma_draft_obeys(d, id, i, k);
        },
        Some(other) => {
            lemma_rule_named(old_rules, other);
            match rule_named(old_rules, other) {
                Some(n) => {
                    lemma_rule_entry_is_obeyed(old_rules[n], e);
                    assert(rules[n].id == other);
                    if n == k {
                        if i < es.len() - 1 {
                            lemma_draft_obeys(d, id, i, k);
                            assert(!sets_of_rule(e, id, es[i].key));
                            lemma_rule_keeps(old_rules[n], e, es[i]);
                        }
                    } else {
                        assert(rules[k] == old_rules[k]);
                        if n < k {
                            assert(rules[n].id != rules[k].id);
                        } else {
                            assert(rules[k].id != rules[n].id);
                        }
                        lemma_draft_obeys(d, id, i, k);
                    }
                },
                None => {
                    lemma_rule_entry_is_obeyed(blank_rule(other), e);
                    if k < old_rules.len() {
                        assert(rules[k] == old_rules[k]);
                        assert(old_rules[k].id != other);
                        lemma_draft_obeys(d, id, i, k);
                    } else {
                        assert(rules[k].id == other);
                    }
                },
            }
        },
    }
}

proof fn lemma_set_before(es: Seq<EntryView>, id: Seq<char>, key: Seq<char>)
    requires
        es.len() > 0,
    ensures
        sets_somewhere(es, id, key) == (sets_somewhere(es.drop_last(), id, key) || sets_of_rule(
            es.last(),
            id,
            key,
        )),
{
    let d = es.drop_last();
    assert(es[es.len() - 1] == es.last());
    if sets_somewhere(d, id, key) {
        let i = choose|i: int| 0 <= i < d.len() && sets_of_rule(#[trigger] d[i], id, key);
        assert(sets_of_rule(es[i], id, key));
    }
    if sets_somewhere(es, id, key) && !sets_of_rule(es.last(), id, key) {
        let i = choose|i: int| 0 <= i < es.len() && sets_of_rule(#[trigger] es[i], id, key);
        assert(sets_of_rule(d[i], id, key));
    }
}

#[verifier::spinoff_prover]
#[verifier::rlimit(40)]
proof fn lemma_draft_rests(es: Seq<EntryView>, k: int)
    requires
        0 <= k < drafts(es).len(),
    ensures
        rule_rests(drafts(es)[k], es),
    decreases es.len(),
{
    let d = es.drop_last();
    let e = es.last();
    lemma_drafts(d);
    let old_rules = drafts(d);
    let rules = drafts(es);
    assert(rules == rules_after(old_rules, e));
    let id = rules[k].id;
    lemma_set_before(es, id, "priority"@);
    lemma_set_before(es, id, "applies_to"@);
    lemma_set_before(es, id, "condition"@);
    lemma_set_before(es, id, "source"@);
    lemma_set_before(es, id, "throttle"@);
    lemma_set_before(es, id, "after_seconds"@);
    lemma_set_before(es, id, "expires_at"@);
    match rule_of(e) {
        None => {
            lemma_draft_rests(d, k);
        },
        Some(other) => {
            lemma_rule_named(old_rules, other);
            match rule_named(old_rules, other) {
                Some(n) => {
                    lemma_rule_entry_is_obeyed(old_rules[n], e);
                    lemma_draft_rests(d, k);
                    assert(old_rules[k].id == id);
                },
                None => {
                    lemma_rule_entry_is_obeyed(blank_rule(other), e);
                    if k < old_rules.len() {
                        assert(rules[k] == old_rules[k]);
                        lemma_draft_rests(d, k);
                    }
                },
            }
        },
    }
}

/// Every rule of a file is as the last entry about each of its parts says, and what the file
/// does not say of it is as if it had not been thought of.
pub proof fn law_rules_say_what_the_file_says(
    es: Seq<EntryView>,
    revision: u64,
    id: Seq<char>,
    i: int,
    k: int,
)
    requires
        has_the_last_word_on_rule(es, id, i),
        0 <= k < table_of(es, revision).rules.len(),
        table_of(es, revision).rules[k].id == id,
    ensures
        rule_obeys(table_of(es, revision).rules[k], es[i]),
        rule_rests(table_of(es, revision).rules[k], es),
        table_of(es, revision).revision == revision,
        table_of(es, revision).hits == 0,
{
    let n = lemma_kept_one(drafts(es), k);
    lemma_draft_obeys(es, id, i, n);
    lemma_draft_rests(es, n);
}

} // verus!
