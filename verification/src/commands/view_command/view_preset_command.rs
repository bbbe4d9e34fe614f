//! `view preset`: show a preset and its values.

use vstd::prelude::*;
use crate::config::{first_at, first_index, lemma_first_at_unique, preset_is, preset_known, HtrsConfig, Preset};
use crate::outcomes::{fails_with, prints, HtrsAction, HtrsError};
use crate::string_map::{entries_view, entry_view};
use crate::text::{join_strings, join_with, views};

verus! {

/// Show the preset known by a name or alias.
#[derive(Debug)]
pub struct ViewPresetCommand {
    pub name: String,
}

/// The heading of a preset's listing: its name, its alias in brackets where
/// it has one, and a colon.
pub open spec fn preset_heading(p: Preset) -> Seq<char> {
    match p.alias {
        Some(a) => p.name@ + " ("@ + a@ + "):"@,
        None => p.name@ + ":"@,
    }
}

/// The line that lists one value of a preset.
pub open spec fn value_line(kv: (Seq<char>, Seq<char>)) -> Seq<char> {
    " - "@ + kv.0 + ": "@ + kv.1
}

/// The whole listing of a preset.
pub open spec fn preset_text(p: Preset) -> Seq<char> {
    preset_heading(p) + "\n"@ + join_with(
        p.values.pairs().map_values(|kv: (Seq<char>, Seq<char>)| value_line(kv)),
        "\n"@,
    ) + "\n"@
}

impl ViewPresetCommand {
    /// The relation between the configuration and the command's result.
    pub open spec fn outcome(self, config: HtrsConfig, r: Result<HtrsAction, HtrsError>) -> bool {
        if !preset_known(config.presets@, self.name@) {
            fails_with(r, "No preset could be found with name or alias `"@ + self.name@ + "`"@)
        } else {
            prints(
                r,
                preset_text(config.presets@[first_index(config.presets@, |p: Preset| preset_is(p, self.name@))]),
            )
        }
    }

    /// Shows the preset's name, alias and values, one value per line.
    pub fn execute(&self, config: &HtrsConfig) -> (r: Result<HtrsAction, HtrsError>)
        ensures
            self.outcome(*config, r),
    {
        let ghost pred = |p: Preset| preset_is(p, self.name@);
        let preset = match config.get_preset(self.name.as_str()) {
            Some(p) => p,
            None => {
                let mut msg = "No preset could be found with name or alias `".to_owned();
                msg.append(self.name.as_str());
                msg.append("`");
                return Err(HtrsError { details: msg });
            },
        };
        proof {
            let i = choose|i: int| first_at(config.presets@, pred, i) && *preset == config.presets@[i];
            lemma_first_at_unique(config.presets@, pred, i, first_index(config.presets@, pred));
        }
        let mut text = preset.name.clone();
        match &preset.alias {
            Some(alias) => {
                text.append(" (");
                text.append(alias.as_str());
                text.append("):");
            },
            None => {
                text.append(":");
            },
        }
        let entries = preset.values.entries();
        let ghost pairs = preset.values.pairs();
        let mut lines: Vec<String> = Vec::new();
        let mut i: usize = 0;
        while i < entries.len()
            invariant
                entries_view(entries@) == pairs,
                i <= entries@.len(),
                views(lines@) == pairs.take(i as int).map_values(|kv: (Seq<char>, Seq<char>)| value_line(kv)),
            decreases entries@.len() - i,
        {
            let mut line = " - ".to_owned();
            line.append(entries[i].0.as_str());
            line.append(": ");
            line.append(entries[i].1.as_str());
            assert(pairs[i as int] == entry_view(entries@[i as int]));
            let ghost prev = lines@;
            lines.push(line);
            assert(views(lines@) =~= views(prev).push(value_line(pairs[i as int])));
            assert(pairs.take(i + 1).map_values(|kv: (Seq<char>, Seq<char>)| value_line(kv)) =~= pairs.take(i as int).map_values(|kv: (Seq<char>, Seq<char>)| value_line(kv)).push(value_line(pairs[i as int])));
            i = i + 1;
        }
        assert(pairs.take(entries@.len() as int) =~= pairs);
        text.append("\n");
        let values = join_strings(&lines, "\n");
        text.append(values.as_str());
        text.append("\n");
        Ok(HtrsAction::PrintDialogue(text))
    }
}

} // verus!
