//! Presets: named groups of general parameters that can be laid over the policy.
//!
//! A preset covers `enabled`, the two delays and two of the exemption switches. The lists
//! and the per-app settings always come from the policy file.

use vstd::prelude::*;
use crate::events::opt_str;
use crate::lists::texts;
use crate::names::{
    has_key, keys_of, lemma_with_key, unique_keys, value_of, with_key, NameMap,
};
use crate::order::{lemma_sorted_distinct, sort_texts, sorted_texts};
use crate::policy::{bool_of, bool_view, count_of_value, count_view};
use crate::policy_file::{fault_message, fault_text};
use crate::text::{chars_of, join, str_eq, string_of, strip_prefix};
use crate::toml::{entry_views, parse, EntryView, TomlEntry, ValueView};

verus! {

broadcast use {crate::lists::texts_len, crate::lists::texts_at};

/// The parameters that a preset lays over the policy.
#[derive(Debug, Clone, Copy)]
pub struct Preset {
    pub enabled: bool,
    pub grace_seconds: u64,
    pub cooldown_seconds: u64,
    pub keep_fg_service: bool,
    pub keep_media: bool,
}

/// The presets of a file; an empty table means that there are none to apply.
#[derive(Debug)]
pub struct PresetTable {
    pub presets: NameMap<Preset>,
    /// Modification time of the file, in seconds.
    pub revision: u64,
}

/// What a preset table denotes.
pub struct PresetsView {
    pub presets: Seq<(Seq<char>, Preset)>,
    pub revision: u64,
}

impl View for PresetTable {
    type V = PresetsView;

    open spec fn view(&self) -> PresetsView {
        PresetsView { presets: self.presets@, revision: self.revision }
    }
}

pub open spec fn empty_presets() -> PresetsView {
    PresetsView { presets: Seq::empty(), revision: 0 }
}

/// The parameters of a preset that sets none.
pub open spec fn default_preset() -> Preset {
    Preset {
        enabled: false,
        grace_seconds: 30,
        cooldown_seconds: 60,
        keep_fg_service: true,
        keep_media: true,
    }
}

/// A preset after one more entry of its table. A value of the wrong type counts as `false`
/// or 0.
pub open spec fn preset_after(p: Preset, key: Seq<char>, v: ValueView) -> Preset {
    if key == "enabled"@ {
        Preset { enabled: bool_view(v, false), ..p }
    } else if key == "grace_seconds"@ {
        Preset { grace_seconds: count_view(v, 0), ..p }
    } else if key == "cooldown_seconds"@ {
        Preset { cooldown_seconds: count_view(v, 0), ..p }
    } else if key == "keep_fg_service"@ {
        Preset { keep_fg_service: bool_view(v, false), ..p }
    } else if key == "keep_media"@ {
        Preset { keep_media: bool_view(v, false), ..p }
    } else {
        p
    }
}

/// The presets after one more entry of the file.
pub open spec fn presets_after(t: Seq<(Seq<char>, Preset)>, e: EntryView) -> Seq<
    (Seq<char>, Preset),
> {
    let section = crate::text::joined(e.table, "."@);
    if "presets."@.is_prefix_of(section) && section.len() > "presets."@.len() {
        let name = section.skip("presets."@.len() as int);
        let p = match value_of(t, name) {
            Some(p) => p,
            None => default_preset(),
        };
        with_key(t, name, preset_after(p, e.key, e.value))
    } else {
        t
    }
}

/// The presets of a list of entries.
pub open spec fn presets_of(es: Seq<EntryView>) -> Seq<(Seq<char>, Preset)>
    decreases es.len(),
{
    if es.len() == 0 {
        Seq::empty()
    } else {
        presets_after(presets_of(es.drop_last()), es.last())
    }
}

/// The preset that an entry is about.
pub open spec fn preset_named(e: EntryView) -> Option<Seq<char>> {
    let section = crate::text::joined(e.table, "."@);
    if "presets."@.is_prefix_of(section) && section.len() > "presets."@.len() {
        Some(section.skip("presets."@.len() as int))
    } else {
        None
    }
}

/// A file gives each preset once, under a name that is not empty, and exactly those that some
/// entry is about.
pub proof fn law_presets_of_a_file(es: Seq<EntryView>)
    ensures
        unique_keys(presets_of(es)),
        forall|name: Seq<char>| #[trigger]
            has_key(presets_of(es), name) <==> exists|i: int|
                0 <= i < es.len() && preset_named(#[trigger] es[i]) == Some(name),
        forall|name: Seq<char>| #[trigger] has_key(presets_of(es), name) ==> name.len() > 0,
    decreases es.len(),
{
    if es.len() > 0 {
        let d = es.drop_last();
        let e = es.last();
        let t = presets_of(d);
        law_presets_of_a_file(d);
        assert forall|name: Seq<char>| #[trigger]
            has_key(presets_of(es), name) <==> exists|i: int|
                0 <= i < es.len() && preset_named(#[trigger] es[i]) == Some(name) by {
            if let Some(k) = preset_named(e) {
                let p = match value_of(t, k) {
                    Some(p) => p,
                    None => default_preset(),
                };
                lemma_with_key(t, k, preset_after(p, e.key, e.value), name);
            }
            if has_key(t, name) {
                let i = choose|i: int| 0 <= i < d.len() && preset_named(#[trigger] d[i]) == Some(name);
                assert(es[i] == d[i]);
            }
            assert(es[es.len() - 1] == e);
            if exists|i: int| 0 <= i < es.len() && preset_named(#[trigger] es[i]) == Some(name) {
                let i = choose|i: int|
                    0 <= i < es.len() && preset_named(#[trigger] es[i]) == Some(name);
                if i < d.len() {
                    assert(d[i] == es[i]);
                }
            }
        }
        if let Some(k) = preset_named(e) {
            let p = match value_of(t, k) {
                Some(p) => p,
                None => default_preset(),
            };
            lemma_with_key(t, k, preset_after(p, e.key, e.value), k);
        }
    } else {
        assert(forall|name: Seq<char>| !has_key(presets_of(es), name));
    }
}

/// What is loaded from the text of the file: no presets where there is no file or it does
/// not parse.
pub open spec fn loaded_presets(text: Option<Seq<char>>, revision: u64) -> PresetsView {
    match text {
        Some(s) => match crate::toml::parsed(s) {
            Ok(es) => PresetsView { presets: presets_of(es), revision },
            Err(_) => empty_presets(),
        },
        None => empty_presets(),
    }
}

fn preset_entry(p: Preset, e: &TomlEntry) -> (r: Preset)
    ensures
        r == preset_after(p, e.key@, e.value@),
{
    let mut q: Preset = p;
    let key: &str = e.key.as_str();
    if str_eq(key, "enabled") {
        q.enabled = bool_of(&e.value, false);
    } else if str_eq(key, "grace_seconds") {
        q.grace_seconds = count_of_value(&e.value, 0);
    } else if str_eq(key, "cooldown_seconds") {
        q.cooldown_seconds = count_of_value(&e.value, 0);
    } else if str_eq(key, "keep_fg_service") {
        q.keep_fg_service = bool_of(&e.value, false);
    } else if str_eq(key, "keep_media") {
        q.keep_media = bool_of(&e.value, false);
    }
    q
}

fn apply_entry(t: &mut NameMap<Preset>, e: &TomlEntry)
    ensures
        final(t)@ == presets_after(old(t)@, e@),
{
    let section: String = join(&e.table, ".");
    let chars: Vec<char> = chars_of(section.as_str());
    if let Some(rest) = strip_prefix(chars.as_slice(), "presets.") {
        if rest.len() > 0 {
            let name: String = string_of(rest);
            let p: Preset = match t.get(name.as_str()) {
                Some(p) => *p,
                None => Preset {
                    enabled: false,
                    grace_seconds: 30,
                    cooldown_seconds: 60,
                    keep_fg_service: true,
                    keep_media: true,
                },
            };
            t.insert(name, preset_entry(p, e));
        }
    }
}

impl Default for PresetTable {
    fn default() -> (r: Self)
        ensures
            r@ == empty_presets(),
    {
        PresetTable { presets: NameMap::new(), revision: 0 }
    }
}

impl PresetTable {
    /// The presets of a file, or why it does not parse.
    pub fn from_toml(src: &str, revision: u64) -> (r: Result<PresetTable, String>)
        ensures
            match r {
                Ok(t) => crate::toml::parsed(src@) matches Ok(es) && t@.presets == presets_of(es)
                    && t@.revision == revision && unique_keys(t@.presets),
                Err(m) => crate::toml::parsed(src@) matches Err(e) && m@ == fault_text(e.0, e.1),
            },
    {
        let entries: Vec<TomlEntry> = match parse(src) {
            Ok(v) => v,
            Err(e) => {
                return Err(fault_message(e.0, e.1.as_str()));
            },
        };
        let mut presets: NameMap<Preset> = NameMap::new();
        let ghost es = entry_views(entries@);
        let mut i: usize = 0;
        while i < entries.len()
            invariant
                i <= entries.len(),
                es == entry_views(entries@),
                presets@ == presets_of(es.take(i as int)),
            decreases entries.len() - i,
        {
            apply_entry(&mut presets, &entries[i]);
            assert(es.take(i + 1).drop_last() =~= es.take(i as int));
            i = i + 1;
        }
        assert(es.take(es.len() as int) =~= es);
        proof {
            law_presets_of_a_file(es);
        }
        Ok(PresetTable { presets, revision })
    }

    /// The presets of a file that may be missing.
    pub fn load(text: Option<&str>, revision: u64) -> (r: PresetTable)
        ensures
            r@ == loaded_presets(opt_str(text), revision),
    {
        match text {
            Some(s) => match PresetTable::from_toml(s, revision) {
                Ok(t) => t,
                Err(_) => PresetTable::default(),
            },
            None => PresetTable::default(),
        }
    }

    /// The names of the presets in ascending order.
    pub fn names(&self) -> (r: Vec<String>)
        ensures
            texts(r@) == sorted_texts(keys_of(self@.presets)),
            texts(r@).no_duplicates(),
    {
        let keys: Vec<String> = self.presets.keys();
        proof {
            lemma_sorted_distinct(keys_of(self@.presets));
        }
        sort_texts(&keys)
    }
}

} // verus!
