//! What single values of the configuration mean: windows, dates, presets, and when a rule
//! applies.

use vstd::prelude::*;
use crate::names::{lemma_with_key, value_of};
use crate::policy::{minute_of, window_of};
use crate::policy_laws::{says_count, says_switch};
use crate::preset::{default_preset, preset_after, preset_named, presets_of, Preset};
use crate::rules::{
    after_hit, applies, chosen, date_of, law_chosen_rule, peeked, RuleCondition, RuleView,
    RulesView,
};
use crate::text::{
    dec, index_of, is_digit, law_dec_reads_back, lemma_dec_value, lemma_index_of_at,
    lemma_trimmed_fixed, pieces, trimmed,
};
use crate::toml::EntryView;

verus! {

// ---- Times and dates ----

/// A time of day as it is written.
pub open spec fn clock_text(h: nat, m: nat) -> Seq<char> {
    dec(h) + seq![':'] + dec(m)
}

proof fn lemma_clock_text(h: nat, m: nat)
    ensures
        clock_text(h, m).len() > 0,
        is_digit(clock_text(h, m)[0]),
        is_digit(clock_text(h, m).last()),
        trimmed(clock_text(h, m)) == clock_text(h, m),
        index_of(clock_text(h, m), ':') == dec(h).len(),
        forall|i: int| 0 <= i < clock_text(h, m).len() ==> clock_text(h, m)[i] != '-',
{
    lemma_dec_value(h);
    lemma_dec_value(m);
    let t = clock_text(h, m);
    let a = dec(h);
    let b = dec(m);
    assert(t[0] == a[0] && is_digit(a[0]));
    assert(t.last() == b[b.len() - 1] && is_digit(b[b.len() - 1]));
    lemma_trimmed_fixed(t);
    assert forall|i: int| 0 <= i < a.len() implies t[i] != ':' && t[i] != '-' by {
        assert(t[i] == a[i] && is_digit(a[i]));
    }
    assert forall|i: int| 0 <= i < t.len() implies t[i] != '-' by {
        if i > a.len() {
            assert(t[i] == b[i - a.len() - 1] && is_digit(b[i - a.len() - 1]));
        }
    }
    lemma_index_of_at(t, ':', a.len() as int);
}

/// A time of day is read as the minutes since midnight; hours from 24 and minutes from 60 on are
/// none.
pub proof fn law_times_read_back(h: nat, m: nat)
    requires
        h <= u32::MAX,
        m <= u32::MAX,
    ensures
        h < 24 && m < 60 ==> (minute_of(clock_text(h, m)) matches Some(n) && n == 60 * h + m),
        h >= 24 || m >= 60 ==> minute_of(clock_text(h, m)) is None,
{
    lemma_clock_text(h, m);
    let t = clock_text(h, m);
    let p = dec(h).len() as int;
    assert(t.take(p) =~= dec(h));
    assert(t.skip(p + 1) =~= dec(m));
    law_dec_reads_back(h, u32::MAX as int);
    law_dec_reads_back(m, u32::MAX as int);
}

/// A window is read as the minutes at which it opens and closes; one that would close before it
/// opens is none.
pub proof fn law_windows_read_back(h: nat, m: nat, k: nat, n: nat)
    requires
        h < 24 && m < 60 && k < 24 && n < 60,
    ensures
        ({
            let text = clock_text(h, m) + seq!['-'] + clock_text(k, n);
            &&& 60 * h + m <= 60 * k + n ==> (window_of(text) matches Some(w) && w.0 == 60 * h + m
                && w.1 == 60 * k + n)
            &&& 60 * h + m > 60 * k + n ==> window_of(text) is None
        }),
{
    let a = clock_text(h, m);
    let b = clock_text(k, n);
    let text = a + seq!['-'] + b;
    lemma_clock_text(h, m);
    lemma_clock_text(k, n);
    law_times_read_back(h, m);
    law_times_read_back(k, n);
    assert forall|i: int| 0 <= i < a.len() implies text[i] != '-' by {
        assert(text[i] == a[i]);
    }
    lemma_index_of_at(text, '-', a.len() as int);
    assert(text.take(a.len() as int) =~= a);
    assert(text.skip(a.len() as int + 1) =~= b);
}

/// A date as it is written.
pub open spec fn date_text(y: nat, m: nat, d: nat) -> Seq<char> {
    dec(y) + seq!['-'] + (dec(m) + seq!['-'] + dec(d))
}

proof fn lemma_first_piece(a: Seq<char>, rest: Seq<char>)
    requires
        forall|i: int| 0 <= i < a.len() ==> is_digit(#[trigger] a[i]),
    ensures
        pieces(a + seq!['-'] + rest, '-') == seq![a] + pieces(rest, '-'),
        pieces(a, '-') == seq![a],
{
    let t = a + seq!['-'] + rest;
    assert forall|i: int| 0 <= i < a.len() implies t[i] != '-' && a[i] != '-' by {
        assert(t[i] == a[i] && is_digit(a[i]));
    }
    lemma_index_of_at(t, '-', a.len() as int);
    lemma_index_of_at(a, '-', a.len() as int);
    assert(t.take(a.len() as int) =~= a);
    assert(t.skip(a.len() as int + 1) =~= rest);
}

/// A date is read as its year, month and day, where these are possible.
pub proof fn law_dates_read_back(y: nat, m: nat, d: nat)
    requires
        y <= u32::MAX && m <= u32::MAX && d <= u32::MAX,
    ensures
        1 <= m <= 12 && 1 <= d <= 31 ==> date_of(date_text(y, m, d)) == Some(
            (y as u32, m as u32, d as u32),
        ),
        !(1 <= m <= 12 && 1 <= d <= 31) ==> date_of(date_text(y, m, d)) is None,
{
    lemma_dec_value(y);
    lemma_dec_value(m);
    lemma_dec_value(d);
    let a = dec(y);
    let b = dec(m);
    let c = dec(d);
    let t = date_text(y, m, d);
    assert(t[0] == a[0] && is_digit(a[0]));
    assert(t.last() == c[c.len() - 1] && is_digit(c[c.len() - 1]));
    lemma_trimmed_fixed(t);
    lemma_first_piece(a, b + seq!['-'] + c);
    lemma_first_piece(b, c);
    lemma_first_piece(c, c);
    assert(pieces(t, '-') =~= seq![a, b, c]);
    law_dec_reads_back(y, u32::MAX as int);
    law_dec_reads_back(m, u32::MAX as int);
    law_dec_reads_back(d, u32::MAX as int);
}

// ---- Presets ----

/// Whether an entry sets something of a preset.
pub open spec fn sets_of_preset(e: EntryView, name: Seq<char>, key: Seq<char>) -> bool {
    preset_named(e) == Some(name) && e.key == key
}

/// Whether a file sets something of a preset.
pub open spec fn preset_says(es: Seq<EntryView>, name: Seq<char>, key: Seq<char>) -> bool {
    exists|i: int| 0 <= i < es.len() && sets_of_preset(#[trigger] es[i], name, key)
}

/// Whether a preset is as an entry about it says; what is not understood turns off.
pub open spec fn preset_obeys(p: Preset, e: EntryView) -> bool {
    let k = e.key;
    let v = e.value;
    &&& k == "enabled"@ ==> says_switch(v, p.enabled, false)
    &&& k == "grace_seconds"@ ==> says_count(v, p.grace_seconds, 0)
    &&& k == "cooldown_seconds"@ ==> says_count(v, p.cooldown_seconds, 0)
    &&& k == "keep_fg_service"@ ==> says_switch(v, p.keep_fg_service, false)
    &&& k == "keep_media"@ ==> says_switch(v, p.keep_media, false)
}

/// Whether no entry behind one sets the same of the same preset.
pub open spec fn has_the_last_word_on_preset(es: Seq<EntryView>, name: Seq<char>, i: int) -> bool {
    &&& 0 <= i < es.len()
    &&& preset_named(es[i]) == Some(name)
    &&& forall|j: int| i < j < es.len() ==> !sets_of_preset(#[trigger] es[j], name, es[i].key)
}

proof fn lemma_preset_entry_is_obeyed(p: Preset, e: EntryView)
    ensures
        preset_obeys(preset_after(p, e.key, e.value), e),
{
    reveal_strlit("enabled");
    reveal_strlit("grace_seconds");
    reveal_strlit("cooldown_seconds");
    reveal_strlit("keep_fg_service");
    reveal_strlit("keep_media");
    assert("enabled"@.len() == 7);
    assert("grace_seconds"@.len() == 13);
    assert("cooldown_seconds"@.len() == 16);
    assert("keep_fg_service"@.len() == 15);
    assert("keep_media"@.len() == 10);
    assert("enabled"@ != "grace_seconds"@);
    assert("enabled"@ != "cooldown_seconds"@);
    assert("grace_seconds"@ != "cooldown_seconds"@);
    assert("enabled"@ != "keep_fg_service"@);
    assert("grace_seconds"@ != "keep_fg_service"@);
    assert("cooldown_seconds"@ != "keep_fg_service"@);
    assert("enabled"@ != "keep_media"@);
    assert("grace_seconds"@ != "keep_media"@);
    assert("cooldown_seconds"@ != "keep_media"@);
    assert("keep_fg_service"@ != "keep_media"@);
}

/// Every preset is as the last entry about each of its parameters says.
pub proof fn law_presets_say_what_the_file_says(es: Seq<EntryView>, name: Seq<char>, i: int)
    requires
        has_the_last_word_on_preset(es, name, i),
    ensures
        value_of(presets_of(es), name) matches Some(p) && preset_obeys(p, es[i]),
    decreases es.len(),
{
    let d = es.drop_last();
    let e = es.last();
    let t = presets_of(d);
    assert(es[es.len() - 1] == e);
    if i < es.len() - 1 {
        assert forall|j: int| i < j < d.len() implies !sets_of_preset(
            #[trigger] d[j],
            name,
            d[i].key,
        ) by {
            assert(d[j] == es[j]);
        }
        law_presets_say_what_the_file_says(d, name, i);
        assert(!sets_of_preset(e, name, es[i].key));
    }
    if let Some(k) = preset_named(e) {
        let p = match value_of(t, k) {
            Some(p) => p,
            None => default_preset(),
        };
        lemma_with_key(t, k, preset_after(p, e.key, e.value), name);
        lemma_preset_entry_is_obeyed(p, e);
    }
}

/// What a file does not say of a preset is as in an empty policy: it is off, with a delay of 30
/// seconds and 60 seconds of cooling down, and spares foreground services and media.
pub proof fn law_presets_start_from_defaults(es: Seq<EntryView>, name: Seq<char>)
    ensures
        value_of(presets_of(es), name) matches Some(p) ==> {
            &&& !preset_says(es, name, "enabled"@) ==> !p.enabled
            &&& !preset_says(es, name, "grace_seconds"@) ==> p.grace_seconds == 30
            &&& !preset_says(es, name, "cooldown_seconds"@) ==> p.cooldown_seconds == 60
            &&& !preset_says(es, name, "keep_fg_service"@) ==> p.keep_fg_service
            &&& !preset_says(es, name, "keep_media"@) ==> p.keep_media
        },
    decreases es.len(),
{
    if es.len() > 0 {
        let d = es.drop_last();
        let e = es.last();
        let t = presets_of(d);
        law_presets_start_from_defaults(d, name);
        assert(es[es.len() - 1] == e);
        assert forall|key: Seq<char>| #[trigger] preset_says(d, name, key) || sets_of_preset(
            e,
            name,
            key,
        ) implies preset_says(es, name, key) by {
            if preset_says(d, name, key) {
                let j = choose|j: int| 0 <= j < d.len() && sets_of_preset(#[trigger] d[j], name, key);
                assert(sets_of_preset(es[j], name, key));
            } else {
                assert(sets_of_preset(es[es.len() - 1], name, key));
            }
        }
        if let Some(k) = preset_named(e) {
            let p = match value_of(t, k) {
                Some(p) => p,
                None => default_preset(),
            };
            lemma_with_key(t, k, preset_after(p, e.key, e.value), name);
        }
    }
}

// ---- When a rule applies ----

/// What keeps a rule from applying: it is for other packages, for another occasion or another
/// source, its last day is over, or it applied to the package too short a time ago. Nothing
/// else does.
pub proof fn law_when_a_rule_applies(
    r: RuleView,
    pkg: Seq<char>,
    cond: RuleCondition,
    source: Option<Seq<char>>,
    now: u64,
    today: Option<(u32, u32, u32)>,
)
    ensures
        ({
            let yes = applies(r, pkg, cond, source, now, today);
            let others = r.applies_to.len() > 0 && !r.applies_to.contains("*"@)
                && !r.applies_to.contains(pkg);
            let elsewhere = r.condition != RuleCondition::Always && r.condition != cond;
            let from_elsewhere = r.condition == RuleCondition::Wakeup && (r.source matches Some(s)
                && source != Some(s));
            let ended = r.expires_at matches Some(last) && (today matches Some(day) && (day.0
                > last.0 || (day.0 == last.0 && day.1 > last.1) || (day.0 == last.0 && day.1
                == last.1 && day.2 > last.2)));
            let rests = r.throttle_seconds > 0 && (value_of(r.last_hit, pkg) matches Some(at) && now
                - at < r.throttle_seconds * 1_000_000_000);
            &&& others ==> !yes
            &&& elsewhere ==> !yes
            &&& from_elsewhere ==> !yes
            &&& ended ==> !yes
            &&& rests ==> !yes
            &&& !others && !elsewhere && !from_elsewhere && !ended && !rests ==> yes
        }),
{
}

/// The rule that applies is told with its own name, action and time, and one that applied is
/// counted; it rests from now on where it has a throttle, and no other rule changes.
pub proof fn law_what_a_hit_tells(
    t: RulesView,
    pkg: Seq<char>,
    cond: RuleCondition,
    source: Option<Seq<char>>,
    now: u64,
    today: Option<(u32, u32, u32)>,
    j: int,
)
    requires
        0 <= j < t.rules.len(),
    ensures
        ({
            let u = after_hit(t, pkg, cond, source, now, today);
            match chosen(t.rules, pkg, cond, source, now, today) {
                Some(i) => {
                    let rule = t.rules[i];
                    &&& peeked(t, pkg, cond, source, now, today) matches Some(h) && h.id == rule.id
                        && h.action == rule.action && h.after_seconds == rule.after_seconds
                    &&& u.hits == t.hits.wrapping_add(1)
                    &&& u.rules.len() == t.rules.len()
                    &&& j != i ==> u.rules[j] == t.rules[j]
                    &&& rule.throttle_seconds > 0 ==> value_of(u.rules[i].last_hit, pkg) == Some(now)
                    &&& rule.throttle_seconds == 0 ==> u.rules[i] == rule
                    &&& u.rules[i].action == rule.action && u.rules[i].priority == rule.priority
                },
                None => u == t && peeked(t, pkg, cond, source, now, today) is None,
            }
        }),
{
    law_chosen_rule(t.rules, pkg, cond, source, now, today);
    if let Some(i) = chosen(t.rules, pkg, cond, source, now, today) {
        lemma_with_key(t.rules[i].last_hit, pkg, now, pkg);
    }
}

} // verus!
