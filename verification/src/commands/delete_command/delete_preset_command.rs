//! `delete preset`: remove a preset.

use vstd::prelude::*;
use crate::config::{lemma_filter_keeps_all, none_match, preset_named, HtrsConfig, Preset};
use crate::outcomes::{fails_with, saves, HtrsAction, HtrsError};

verus! {

/// Delete the presets with a given name.
#[derive(Debug)]
pub struct DeletePresetCommand {
    pub name: String,
}

impl DeletePresetCommand {
    /// The relation between the configuration before the command runs, after
    /// it, and its result.
    pub open spec fn outcome(self, before: HtrsConfig, after: HtrsConfig, r: Result<HtrsAction, HtrsError>) -> bool {
        &&& after.presets@ == before.presets@.filter(|p: Preset| !preset_named(p, self.name@))
        &&& after.services == before.services
        &&& after.headers == before.headers
        &&& if none_match(before.presets@, |p: Preset| preset_named(p, self.name@)) {
            &&& fails_with(r, "Unable to find preset with name `"@ + self.name@ + "`"@)
            &&& after.presets@ == before.presets@
        } else {
            saves(r)
        }
    }

    /// Removes every preset with the name given.
    pub fn execute(&self, config: &mut HtrsConfig) -> (r: Result<HtrsAction, HtrsError>)
        ensures
            self.outcome(*old(config), *final(config), r),
    {
        let ghost before = config.presets@;
        if config.remove_preset(self.name.as_str()) {
            Ok(HtrsAction::UpdateConfig)
        } else {
            proof {
                lemma_filter_keeps_all(before, |p: Preset| !preset_named(p, self.name@));
            }
            let mut msg = "Unable to find preset with name `".to_owned();
            msg.append(self.name.as_str());
            msg.append("`");
            Err(HtrsError { details: msg })
        }
    }
}

} // verus!
