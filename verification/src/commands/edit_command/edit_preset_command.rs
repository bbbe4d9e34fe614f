//! `edit preset`: rename a preset, change its alias, set or clear its values.

use vstd::prelude::*;
use crate::common::{key_value_of, parse_key_value_string};
use crate::config::{
    first_index, lemma_first_at_unique, none_match, opt_view, preset_known, preset_named,
    HtrsConfig, Preset,
};
use crate::htrs_binding_error::HtrsBindingError;
use crate::outcomes::{fails_with, saves, HtrsAction, HtrsError};
use crate::string_map::{insert_each, StringMap};
use crate::text::views;

verus! {

/// Change a preset: its name, its alias, values to set and values to clear.
#[derive(Debug)]
pub struct EditPresetCommand {
    pub name: String,
    pub new_name: Option<String>,
    pub new_alias: Option<String>,
    pub set_values: Vec<(String, String)>,
    pub clear_values: Vec<String>,
}

/// The views of key/value pairs.
pub open spec fn pair_views(v: Seq<(String, String)>) -> Seq<(Seq<char>, Seq<char>)> {
    v.map_values(|p: (String, String)| (p.0@, p.1@))
}

/// The table after clearing each key in turn, or the first key that is not
/// set when its turn comes.
pub open spec fn clear_all(m: Map<Seq<char>, Seq<char>>, keys: Seq<Seq<char>>) -> Result<Map<Seq<char>, Seq<char>>, Seq<char>>
    decreases keys.len(),
{
    if keys.len() == 0 {
        Ok(m)
    } else if m.dom().contains(keys[0]) {
        clear_all(m.remove(keys[0]), keys.skip(1))
    } else {
        Err(keys[0])
    }
}

/// The `key=value` strings all parse.
pub open spec fn all_parse(values: Seq<Seq<char>>) -> bool {
    forall|k: int| 0 <= k < values.len() ==> (#[trigger] key_value_of(values[k])) is Some
}

/// The first `key=value` string that does not parse.
pub open spec fn first_unparsed(values: Seq<Seq<char>>) -> int {
    choose|k: int|
        0 <= k < values.len() && key_value_of(values[k]) is None && forall|j: int|
            0 <= j < k ==> (#[trigger] key_value_of(values[j])) is Some
}

/// The table after clearing each key in turn, stopping at the first key that
/// is not set when its turn comes (the keys before it stay cleared).
pub open spec fn cleared_until_missing(m: Map<Seq<char>, Seq<char>>, keys: Seq<Seq<char>>) -> Map<Seq<char>, Seq<char>>
    decreases keys.len(),
{
    if keys.len() == 0 {
        m
    } else if m.dom().contains(keys[0]) {
        cleared_until_missing(m.remove(keys[0]), keys.skip(1))
    } else {
        m
    }
}

/// The values after setting each pair and then clearing each key in turn; where
/// a key is not set when its turn comes, the values as they stand at that
/// point, together with that key.
pub fn edited_values(values: &StringMap, set_values: &Vec<(String, String)>, clear_values: &Vec<String>) -> (r: Result<StringMap, (StringMap, String)>)
    ensures
        match clear_all(insert_each(values@, pair_views(set_values@)), views(clear_values@)) {
            Ok(m) => r matches Ok(v) && v@ == m,
            Err(k) => r matches Err((v, key)) && key@ == k && v@ == cleared_until_missing(
                insert_each(values@, pair_views(set_values@)),
                views(clear_values@),
            ),
        },
{
    let mut result = values.duplicate();
    let ghost sets = pair_views(set_values@);
    let mut i: usize = 0;
    assert(sets.skip(0) =~= sets);
    while i < set_values.len()
        invariant
            sets == pair_views(set_values@),
            i <= set_values@.len(),
            insert_each(result@, sets.skip(i as int)) == insert_each(values@, sets),
        decreases set_values@.len() - i,
    {
        assert(sets.skip(i as int).skip(1) =~= sets.skip(i + 1));
        result.insert(set_values[i].0.clone(), set_values[i].1.clone());
        i = i + 1;
    }
    assert(sets.skip(i as int).len() == 0);
    let ghost keys = views(clear_values@);
    let mut k: usize = 0;
    assert(keys.skip(0) =~= keys);
    while k < clear_values.len()
        invariant
            keys == views(clear_values@),
            sets == pair_views(set_values@),
            k <= clear_values@.len(),
            clear_all(result@, keys.skip(k as int)) == clear_all(insert_each(values@, sets), keys),
            cleared_until_missing(result@, keys.skip(k as int)) == cleared_until_missing(
                insert_each(values@, sets),
                keys,
            ),
        decreases clear_values@.len() - k,
    {
        assert(keys.skip(k as int).skip(1) =~= keys.skip(k + 1));
        assert(keys.skip(k as int)[0] == clear_values@[k as int]@);
        if result.contains_key(clear_values[k].as_str()) {
            result.remove(clear_values[k].as_str());
        } else {
            return Err((result, clear_values[k].clone()));
        }
        k = k + 1;
    }
    assert(keys.skip(k as int).len() == 0);
    Ok(result)
}

impl EditPresetCommand {
    /// Reads the values to set, each given as `key=value`; fails on the first
    /// that is not in that form.
    pub fn parse_set_values(values: &Vec<String>) -> (r: Result<Vec<(String, String)>, HtrsBindingError>)
        ensures
            match r {
                Ok(pairs) => all_parse(views(values@)) && pair_views(pairs@) == views(values@).map_values(
                    |v: Seq<char>| key_value_of(v)->0,
                ),
                Err(e) => !all_parse(views(values@)) && e.description@ == "Invalid set value `"@
                    + views(values@)[first_unparsed(views(values@))]
                    + "`, should be in format `key=value`"@,
            },
    {
        let ghost vs = views(values@);
        let mut pairs: Vec<(String, String)> = Vec::new();
        let mut i: usize = 0;
        while i < values.len()
            invariant
                vs == views(values@),
                i <= values@.len(),
                forall|j: int| 0 <= j < i ==> (#[trigger] key_value_of(vs[j])) is Some,
                pair_views(pairs@) == vs.take(i as int).map_values(|v: Seq<char>| key_value_of(v)->0),
            decreases values@.len() - i,
        {
            match parse_key_value_string(values[i].as_str()) {
                Ok((key, value)) => {
                    let ghost prev = pairs@;
                    pairs.push((key, value));
                    assert(pair_views(pairs@) =~= pair_views(prev).push((key@, value@)));
                    assert(vs.take(i + 1).map_values(|v: Seq<char>| key_value_of(v)->0) =~= vs.take(
                        i as int,
                    ).map_values(|v: Seq<char>| key_value_of(v)->0).push((key@, value@)));
                },
                Err(_) => {
                    proof {
                        let k = first_unparsed(vs);
                        assert(0 <= i < vs.len() && key_value_of(vs[i as int]) is None && forall|j: int|
                            0 <= j < i ==> (#[trigger] key_value_of(vs[j])) is Some);
                        if k < i {
                            assert(key_value_of(vs[k]) is Some);
                        }
                        if k > i {
                            assert(key_value_of(vs[i as int]) is Some);
                        }
                    }
                    let mut msg = "Invalid set value `".to_owned();
                    msg.append(values[i].as_str());
                    msg.append("`, should be in format `key=value`");
                    return Err(HtrsBindingError { description: msg });
                },
            }
            i = i + 1;
        }
        assert(vs.take(values@.len() as int) =~= vs);
        Ok(pairs)
    }

    /// The preset that `name` designates in the configuration.
    pub open spec fn target(self, config: HtrsConfig) -> int {
        first_index(config.presets@, |p: Preset| preset_named(p, self.name@))
    }

    /// The relation between the configuration before the command runs, after
    /// it, and its result.
    pub open spec fn outcome(self, before: HtrsConfig, after: HtrsConfig, r: Result<HtrsAction, HtrsError>) -> bool {
        if self.new_name is Some && preset_known(before.presets@, self.new_name->0@) {
            &&& fails_with(r, "A preset already exists with name `"@ + self.new_name->0@ + "`"@)
            &&& after == before
        } else if self.new_alias is Some && preset_known(before.presets@, self.new_alias->0@) {
            &&& fails_with(
                r,
                "A preset already exists with name or alias `"@ + self.new_alias->0@ + "`"@,
            )
            &&& after == before
        } else if none_match(before.presets@, |p: Preset| preset_named(p, self.name@)) {
            &&& fails_with(r, "No preset found with name `"@ + self.name@ + "`"@)
            &&& after == before
        } else {
            let i = self.target(before);
            let old_preset = before.presets@[i];
            let new_name = match self.new_name {
                Some(n) => n@,
                None => old_preset.name@,
            };
            let set = insert_each(old_preset.values@, pair_views(self.set_values@));
            let new_preset = after.presets@[i];
            &&& after.presets@ == before.presets@.update(i, new_preset)
            &&& new_preset.name@ == new_name
            &&& opt_view(new_preset.alias) == match self.new_alias {
                Some(a) => Some(a@),
                None => opt_view(old_preset.alias),
            }
            &&& after.services == before.services
            &&& after.headers == before.headers
            &&& match clear_all(set, views(self.clear_values@)) {
                Err(key) => {
                    &&& fails_with(
                        r,
                        "Preset `"@ + new_name + "` has no parameter `"@ + key + "`"@,
                    )
                    &&& new_preset.values@ == cleared_until_missing(set, views(self.clear_values@))
                },
                Ok(values) => {
                    &&& saves(r)
                    &&& new_preset.values@ == values
                },
            }
        }
    }

    /// Changes the preset, where the new name or alias is not taken and the
    /// preset exists: renames it, sets its alias, sets the values and clears
    /// the keys in turn. Where a key to clear is not set when its turn comes,
    /// it fails, and what was done before that point stays done.
    pub fn execute(&self, config: &mut HtrsConfig) -> (r: Result<HtrsAction, HtrsError>)
        ensures
            self.outcome(*old(config), *final(config), r),
    {
        if let Some(new_name) = &self.new_name {
            if config.get_preset(new_name.as_str()).is_some() {
                let mut msg = "A preset already exists with name `".to_owned();
                msg.append(new_name.as_str());
                msg.append("`");
                return Err(HtrsError { details: msg });
            }
        }
        if let Some(new_alias) = &self.new_alias {
            if config.get_preset(new_alias.as_str()).is_some() {
                let mut msg = "A preset already exists with name or alias `".to_owned();
                msg.append(new_alias.as_str());
                msg.append("`");
                return Err(HtrsError { details: msg });
            }
        }
        let i = match config.preset_position(self.name.as_str(), false) {
            Some(i) => i,
            None => {
                let mut msg = "No preset found with name `".to_owned();
                msg.append(self.name.as_str());
                msg.append("`");
                return Err(HtrsError { details: msg });
            },
        };
        proof {
            let pred = |p: Preset| preset_named(p, self.name@);
            lemma_first_at_unique(config.presets@, pred, i as int, self.target(*config));
        }
        let new_name = match &self.new_name {
            Some(n) => n.clone(),
            None => config.presets[i].name.clone(),
        };
        let alias = match &self.new_alias {
            Some(a) => Some(a.clone()),
            None => match &config.presets[i].alias {
                Some(a) => Some(a.clone()),
                None => None,
            },
        };
        let (values, missing) = match edited_values(&config.presets[i].values, &self.set_values, &self.clear_values) {
            Ok(v) => (v, None),
            Err((v, key)) => (v, Some(key)),
        };
        let ghost old_presets = config.presets@;
        let message = match &missing {
            Some(key) => {
                let mut msg = "Preset `".to_owned();
                msg.append(new_name.as_str());
                msg.append("` has no parameter `");
                msg.append(key.as_str());
                msg.append("`");
                Some(msg)
            },
            None => None,
        };
        config.presets.set(i, Preset { name: new_name, alias, values });
        assert(config.presets@ == old_presets.update(i as int, config.presets@[i as int]));
        match message {
            Some(msg) => Err(HtrsError { details: msg }),
            None => Ok(HtrsAction::UpdateConfig),
        }
    }
}

} // verus!
