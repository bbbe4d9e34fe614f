//! `list environment`: list a service's environments, optionally filtered.

use vstd::prelude::*;
use crate::config::{
    display_text, first_at, first_index, lemma_filter_keeps_all, lemma_filter_step,
    lemma_first_at_unique, service_is, service_known, Environment, HtrsConfig, Service,
};
use crate::outcomes::{fails_with, prints, HtrsAction, HtrsError};
use crate::text::{contains_str, join_strings, join_with, lowercase_of, occurs_in, views};

verus! {

/// List the environments of a service whose name or alias contains the filter
/// (all of them where there is none).
#[derive(Debug)]
pub struct ListEnvironmentsCommand {
    pub service: String,
    pub filter: Option<String>,
}

/// The environment's name or alias, in lower case, contains the filter.
pub open spec fn environment_filtered(e: Environment, filter: Seq<char>) -> bool {
    occurs_in(lowercase_of(e.name@), filter) || (e.alias matches Some(a) && occurs_in(
        lowercase_of(a@),
        filter,
    ))
}

/// The line that lists an environment.
pub open spec fn environment_line(e: Environment) -> Seq<char> {
    " - "@ + display_text(e.name@, e.alias)
}

/// Whether the environment's name or alias, in lower case, contains the filter.
pub fn environment_matches_filter(environment: &Environment, filter: &str) -> (r: bool)
    ensures
        r == environment_filtered(*environment, filter@),
{
    if contains_str(environment.name.to_lowercase().as_str(), filter) {
        return true;
    }
    match &environment.alias {
        Some(alias) => contains_str(alias.to_lowercase().as_str(), filter),
        None => false,
    }
}

impl ListEnvironmentsCommand {
    /// The service that `service` designates in the configuration.
    pub open spec fn target(self, config: HtrsConfig) -> int {
        first_index(config.services@, |s: Service| service_is(s, self.service@))
    }

    /// The environments listed.
    pub open spec fn listed(self, environments: Seq<Environment>) -> Seq<Environment> {
        match self.filter {
            Some(f) => environments.filter(|e: Environment| environment_filtered(e, f@)),
            None => environments,
        }
    }

    /// The relation between the configuration before the command runs, after
    /// it, and its result.
    pub open spec fn outcome(self, before: HtrsConfig, after: HtrsConfig, r: Result<HtrsAction, HtrsError>) -> bool {
        &&& after == before
        &&& if !service_known(before.services@, self.service@) {
            fails_with(r, "No service could be found with name or alias `"@ + self.service@ + "`"@)
        } else {
            let service = before.services@[self.target(before)];
            let listed = self.listed(service.environments@);
            if self.filter is Some && listed.len() == 0 {
                prints(
                    r,
                    "No environments found for service `"@ + service.name@
                        + "` with name or alias containing `"@ + self.filter->0@ + "`"@,
                )
            } else if listed.len() == 0 {
                prints(r, "No environments defined"@)
            } else {
                prints(r, join_with(listed.map_values(|e: Environment| environment_line(e)), "\n"@))
            }
        }
    }

    /// Lists the service's environments, one per line.
    pub fn execute(&self, config: &mut HtrsConfig) -> (r: Result<HtrsAction, HtrsError>)
        ensures
            self.outcome(*old(config), *final(config), r),
    {
        let ghost spred = |s: Service| service_is(s, self.service@);
        let service = match config.get_service(self.service.as_str()) {
            Some(s) => s,
            None => {
                let mut msg = "No service could be found with name or alias `".to_owned();
                msg.append(self.service.as_str());
                msg.append("`");
                return Err(HtrsError { details: msg });
            },
        };
        proof {
            let i = choose|i: int| first_at(config.services@, spred, i) && *service == config.services@[i];
            lemma_first_at_unique(config.services@, spred, i, self.target(*config));
        }
        let ghost all = service.environments@;
        let ghost pred = |e: Environment| match self.filter {
            Some(f) => environment_filtered(e, f@),
            None => true,
        };
        let mut lines: Vec<String> = Vec::new();
        let mut i: usize = 0;
        while i < service.environments.len()
            invariant
                all == service.environments@,
                pred == (|e: Environment| match self.filter {
                    Some(f) => environment_filtered(e, f@),
                    None => true,
                }),
                i <= all.len(),
                views(lines@) == all.take(i as int).filter(pred).map_values(|e: Environment| environment_line(e)),
            decreases all.len() - i,
        {
            proof {
                lemma_filter_step(all, pred, i as int);
            }
            let environment = &service.environments[i];
            let keep = match &self.filter {
                Some(f) => environment_matches_filter(environment, f.as_str()),
                None => true,
            };
            if keep {
                let mut line = " - ".to_owned();
                let shown = environment.display_name();
                line.append(shown.as_str());
                let ghost prev = lines@;
                lines.push(line);
                assert(views(lines@) =~= views(prev).push(environment_line(all[i as int])));
                assert(all.take(i + 1).filter(pred).map_values(|e: Environment| environment_line(e)) =~= all.take(i as int).filter(pred).map_values(|e: Environment| environment_line(e)).push(environment_line(all[i as int])));
            }
            i = i + 1;
        }
        assert(all.take(all.len() as int) =~= all);
        proof {
            if self.filter is Some {
                let f = self.filter->0;
                assert(pred =~= (|e: Environment| environment_filtered(e, f@)));
            } else {
                lemma_filter_keeps_all(all, pred);
            }
        }
        if lines.len() == 0 {
            match &self.filter {
                Some(f) => {
                    let mut msg = "No environments found for service `".to_owned();
                    msg.append(service.name.as_str());
                    msg.append("` with name or alias containing `");
                    msg.append(f.as_str());
                    msg.append("`");
                    Ok(HtrsAction::PrintDialogue(msg))
                },
                None => Ok(HtrsAction::PrintDialogue("No environments defined".to_owned())),
            }
        } else {
            Ok(HtrsAction::PrintDialogue(join_strings(&lines, "\n")))
        }
    }
}

} // verus!
