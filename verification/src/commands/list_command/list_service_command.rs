//! `list service`: list the services, optionally filtered.

use vstd::prelude::*;
use crate::config::{display_text, lemma_filter_step, HtrsConfig, Service};
use crate::outcomes::{prints, HtrsAction, HtrsError};
use crate::text::{contains_str, join_strings, join_with, lowercase_of, occurs_in, views};

verus! {

/// List the services whose name or alias contains the filter (all of them
/// where there is none).
#[derive(Debug)]
pub struct ListServicesCommand {
    pub filter: Option<String>,
}

/// The service's name or alias, in lower case, contains the filter.
pub open spec fn service_filtered(s: Service, filter: Seq<char>) -> bool {
    occurs_in(lowercase_of(s.name@), filter) || (s.alias matches Some(a) && occurs_in(
        lowercase_of(a@),
        filter,
    ))
}

/// The line that lists a service.
pub open spec fn service_line(s: Service) -> Seq<char> {
    " - "@ + display_text(s.name@, s.alias)
}

/// Whether the service's name or alias, in lower case, contains the filter.
pub fn service_matches_filter(service: &Service, filter: &str) -> (r: bool)
    ensures
        r == service_filtered(*service, filter@),
{
    if contains_str(service.name.to_lowercase().as_str(), filter) {
        return true;
    }
    match &service.alias {
        Some(alias) => contains_str(alias.to_lowercase().as_str(), filter),
        None => false,
    }
}

impl ListServicesCommand {
    /// The services listed.
    pub open spec fn listed(self, services: Seq<Service>) -> Seq<Service> {
        match self.filter {
            Some(f) => services.filter(|s: Service| service_filtered(s, f@)),
            None => services,
        }
    }

    /// The relation between the configuration before the command runs, after
    /// it, and its result.
    pub open spec fn outcome(self, before: HtrsConfig, after: HtrsConfig, r: Result<HtrsAction, HtrsError>) -> bool {
        let listed = self.listed(before.services@);
        &&& after == before
        &&& if self.filter is Some && listed.len() == 0 {
            prints(r, "No services found with name or alias containing `"@ + self.filter->0@ + "`"@)
        } else if listed.len() == 0 {
            prints(r, "No services found"@)
        } else {
            prints(r, join_with(listed.map_values(|s: Service| service_line(s)), "\n"@))
        }
    }

    /// Lists the services, one per line.
    pub fn execute(&self, config: &mut HtrsConfig) -> (r: Result<HtrsAction, HtrsError>)
        ensures
            self.outcome(*old(config), *final(config), r),
    {
        let ghost all = config.services@;
        let ghost pred = |s: Service| match self.filter {
            Some(f) => service_filtered(s, f@),
            None => true,
        };
        let mut lines: Vec<String> = Vec::new();
        let mut i: usize = 0;
        while i < config.services.len()
            invariant
                all == config.services@,
                pred == (|s: Service| match self.filter {
                    Some(f) => service_filtered(s, f@),
                    None => true,
                }),
                i <= all.len(),
                views(lines@) == all.take(i as int).filter(pred).map_values(|s: Service| service_line(s)),
            decreases all.len() - i,
        {
            proof {
                lemma_filter_step(all, pred, i as int);
            }
            let service = &config.services[i];
            let keep = match &self.filter {
                Some(f) => service_matches_filter(service, f.as_str()),
                None => true,
            };
            if keep {
                let mut line = " - ".to_owned();
                let shown = service.display_name();
                line.append(shown.as_str());
                let ghost prev = lines@;
                lines.push(line);
                assert(views(lines@) =~= views(prev).push(service_line(all[i as int])));
                assert(all.take(i + 1).filter(pred).map_values(|s: Service| service_line(s)) =~= all.take(i as int).filter(pred).map_values(|s: Service| service_line(s)).push(service_line(all[i as int])));
            }
            i = i + 1;
        }
        assert(all.take(all.len() as int) =~= all);
        proof {
            if self.filter is Some {
                let f = self.filter->0;
                assert(pred =~= (|s: Service| service_filtered(s, f@)));
            } else {
                crate::config::lemma_filter_keeps_all(all, pred);
            }
        }
        if lines.len() == 0 {
            match &self.filter {
                Some(f) => {
                    let mut msg = "No services found with name or alias containing `".to_owned();
                    msg.append(f.as_str());
                    msg.append("`");
                    Ok(HtrsAction::PrintDialogue(msg))
                },
                None => Ok(HtrsAction::PrintDialogue("No services found".to_owned())),
            }
        } else {
            Ok(HtrsAction::PrintDialogue(join_strings(&lines, "\n")))
        }
    }
}

} // verus!
