//! `new preset`: define a named set of parameter values.

use vstd::prelude::*;
use crate::common::{key_value_of, parse_key_value_string};
use crate::config::{opt_view, preset_known, HtrsConfig, Preset};
use crate::outcomes::{fails_with, saves, HtrsAction, HtrsError};
use crate::string_map::{pairs_map, StringMap};
use crate::text::views;

verus! {

/// Create a preset from values given as `key=value`.
#[derive(Debug)]
pub struct NewPresetCommand {
    pub name: String,
    pub alias: Option<String>,
    pub values: Vec<String>,
}

/// Every value is in the form `key=value`.
pub open spec fn all_key_values(values: Seq<Seq<char>>) -> bool {
    forall|k: int| 0 <= k < values.len() ==> (#[trigger] key_value_of(values[k])) is Some
}

/// The position of the first value that is not in the form `key=value`.
pub open spec fn first_malformed(values: Seq<Seq<char>>) -> int {
    choose|k: int|
        0 <= k < values.len() && key_value_of(values[k]) is None && forall|j: int|
            0 <= j < k ==> (#[trigger] key_value_of(values[j])) is Some
}

/// The key/value pairs of well-formed values, in order.
pub open spec fn parsed_pairs(values: Seq<Seq<char>>) -> Seq<(Seq<char>, Seq<char>)> {
    values.map_values(|v: Seq<char>| key_value_of(v)->0)
}

/// Reads `key=value` strings into a table, in order (a later key wins); fails
/// on the first string not in that form, handing it back.
pub fn parse_values(values: &Vec<String>) -> (r: Result<StringMap, String>)
    ensures
        match r {
            Ok(m) => all_key_values(views(values@)) && m@ == pairs_map(parsed_pairs(views(values@))),
            Err(v) => !all_key_values(views(values@)) && v@ == views(values@)[first_malformed(views(values@))],
        },
{
    let ghost vs = views(values@);
    let mut m = StringMap::new();
    let mut i: usize = 0;
    while i < values.len()
        invariant
            vs == views(values@),
            i <= values@.len(),
            forall|j: int| 0 <= j < i ==> (#[trigger] key_value_of(vs[j])) is Some,
            m@ == pairs_map(parsed_pairs(vs.take(i as int))),
        decreases values@.len() - i,
    {
        match parse_key_value_string(values[i].as_str()) {
            Ok((key, value)) => {
                let ghost before = parsed_pairs(vs.take(i as int));
                m.insert(key, value);
                assert(parsed_pairs(vs.take(i + 1)) =~= before.push((key@, value@)));
                assert(parsed_pairs(vs.take(i + 1)).drop_last() =~= before);
            },
            Err(_) => {
                proof {
                    let k = first_malformed(vs);
                    assert(0 <= i < vs.len() && key_value_of(vs[i as int]) is None && forall|j: int|
                        0 <= j < i ==> (#[trigger] key_value_of(vs[j])) is Some);
                    assert(0 <= k < vs.len() && key_value_of(vs[k]) is None);
                    if k < i {
                        assert(key_value_of(vs[k]) is Some);
                    }
                    if k > i {
                        assert(key_value_of(vs[i as int]) is Some);
                    }
                }
                return Err(values[i].clone());
            },
        }
        i = i + 1;
    }
    assert(vs.take(values@.len() as int) =~= vs);
    Ok(m)
}

impl NewPresetCommand {
    /// The relation between the configuration before the command runs, after it,
    /// and its result.
    pub open spec fn outcome(self, before: HtrsConfig, after: HtrsConfig, r: Result<HtrsAction, HtrsError>) -> bool {
        ({
            let vs = views(self.values@);
            if preset_known(before.presets@, self.name@) {
                fails_with(
                    r,
                    "A preset with name or alias `"@ + self.name@ + "` already exists"@,
                ) && after == before
            } else if self.alias is Some && preset_known(before.presets@, self.alias->0@) {
                fails_with(
                    r,
                    "A preset with name or alias `"@ + self.alias->0@ + "` already exists"@,
                ) && after == before
            } else if !all_key_values(vs) {
                fails_with(
                    r,
                    "Invalid preset value `"@ + vs[first_malformed(vs)]
                        + "`, should be in format `key=value`"@,
                ) && after == before
            } else {
                &&& saves(r)
                &&& after.presets@.len() == before.presets@.len() + 1
                &&& after.presets@.drop_last() == before.presets@
                &&& after.presets@.last().name@ == self.name@
                &&& opt_view(after.presets@.last().alias) == opt_view(self.alias)
                &&& after.presets@.last().values@ == pairs_map(parsed_pairs(vs))
                &&& after.services == before.services
                &&& after.headers == before.headers
            }
        })
    }

    /// Adds the preset, unless its name or alias already names or aliases one,
    /// or a value is not in the form `key=value`.
    pub fn execute(&self, config: &mut HtrsConfig) -> (r: Result<HtrsAction, HtrsError>)
        ensures
            self.outcome(*old(config), *final(config), r),
    {
        if config.get_preset(self.name.as_str()).is_some() {
            let mut msg = "A preset with name or alias `".to_owned();
            msg.append(self.name.as_str());
            msg.append("` already exists");
            return Err(HtrsError { details: msg });
        }
        if let Some(alias) = &self.alias {
            if config.get_preset(alias.as_str()).is_some() {
                let mut msg = "A preset with name or alias `".to_owned();
                msg.append(alias.as_str());
                msg.append("` already exists");
                return Err(HtrsError { details: msg });
            }
        }
        let values = match parse_values(&self.values) {
            Ok(m) => m,
            Err(value) => {
                let mut msg = "Invalid preset value `".to_owned();
                msg.append(value.as_str());
                msg.append("`, should be in format `key=value`");
                return Err(HtrsError { details: msg });
            },
        };
        let alias = match &self.alias {
            Some(a) => Some(a.clone()),
            None => None,
        };
        let ghost before = config.presets@;
        config.presets.push(Preset { name: self.name.clone(), alias, values });
        assert(config.presets@.drop_last() =~= before);
        Ok(HtrsAction::UpdateConfig)
    }
}

} // verus!
