//! `list endpoint`: list a service's endpoints, optionally filtered.

use vstd::prelude::*;
use crate::config::{
    first_at, first_index, lemma_filter_keeps_all, lemma_filter_step, lemma_first_at_unique,
    service_is, service_known, Endpoint, HtrsConfig, Service,
};
use crate::outcomes::{fails_with, prints, HtrsAction, HtrsError};
use crate::text::{contains_str, join_strings, join_with, lowercase_of, occurs_in, views};

verus! {

/// List the endpoints of a service whose name contains the filter (all of them
/// where there is none).
#[derive(Debug)]
pub struct ListEndpointsCommand {
    pub service: String,
    pub filter: Option<String>,
}

/// The endpoint's name, in lower case, contains the filter.
pub open spec fn endpoint_filtered(e: Endpoint, filter: Seq<char>) -> bool {
    occurs_in(lowercase_of(e.name@), filter)
}

/// The line that lists an endpoint.
pub open spec fn endpoint_line(e: Endpoint) -> Seq<char> {
    " - "@ + e.name@
}

impl ListEndpointsCommand {
    /// The service that `service` designates in the configuration.
    pub open spec fn target(self, config: HtrsConfig) -> int {
        first_index(config.services@, |s: Service| service_is(s, self.service@))
    }

    /// The endpoints listed.
    pub open spec fn listed(self, endpoints: Seq<Endpoint>) -> Seq<Endpoint> {
        match self.filter {
            Some(f) => endpoints.filter(|e: Endpoint| endpoint_filtered(e, f@)),
            None => endpoints,
        }
    }

    /// The relation between the configuration before the command runs, after
    /// it, and its result.
    pub open spec fn outcome(self, before: HtrsConfig, after: HtrsConfig, r: Result<HtrsAction, HtrsError>) -> bool {
        &&& after == before
        &&& if !service_known(before.services@, self.service@) {
            fails_with(r, "No service could be found with name or alias `"@ + self.service@ + "`"@)
        } else {
            let service = before.services@[self.target(before)];
            let listed = self.listed(service.endpoints@);
            if self.filter is Some && listed.len() == 0 {
                prints(
                    r,
                    "No endpoints found for service `"@ + service.name@ + "` with name containing `"@
                        + self.filter->0@ + "`"@,
                )
            } else if listed.len() == 0 {
                prints(r, "No endpoints defined"@)
            } else {
                prints(r, join_with(listed.map_values(|e: Endpoint| endpoint_line(e)), "\n"@))
            }
        }
    }

    /// Lists the service's endpoints, one per line.
    pub fn execute(&self, config: &mut HtrsConfig) -> (r: Result<HtrsAction, HtrsError>)
        ensures
            self.outcome(*old(config), *final(config), r),
    {
        let ghost spred = |s: Service| service_is(s, self.service@);
        let service = match config.get_service(self.service.as_str()) {
            Some(s) => s,
            None => {
                let mut msg = "No service could be found with name or alias `".to_owned();
                msg.append(self.service.as_str());
                msg.append("`");
                return Err(HtrsError { details: msg });
            },
        };
        proof {
            let i = choose|i: int| first_at(config.services@, spred, i) && *service == config.services@[i];
            lemma_first_at_unique(config.services@, spred, i, self.target(*config));
        }
        let ghost all = service.endpoints@;
        let ghost pred = |e: Endpoint| match self.filter {
            Some(f) => endpoint_filtered(e, f@),
            None => true,
        };
        let mut lines: Vec<String> = Vec::new();
        let mut i: usize = 0;
        while i < service.endpoints.len()
            invariant
                all == service.endpoints@,
                pred == (|e: Endpoint| match self.filter {
                    Some(f) => endpoint_filtered(e, f@),
                    None => true,
                }),
                i <= all.len(),
                views(lines@) == all.take(i as int).filter(pred).map_values(|e: Endpoint| endpoint_line(e)),
            decreases all.len() - i,
        {
            proof {
                lemma_filter_step(all, pred, i as int);
            }
            let endpoint = &service.endpoints[i];
            let keep = match &self.filter {
                Some(f) => contains_str(endpoint.name.to_lowercase().as_str(), f.as_str()),
                None => true,
            };
            if keep {
                let mut line = " - ".to_owned();
                line.append(endpoint.name.as_str());
                let ghost prev = lines@;
                lines.push(line);
                assert(views(lines@) =~= views(prev).push(endpoint_line(all[i as int])));
                assert(all.take(i + 1).filter(pred).map_values(|e: Endpoint| endpoint_line(e)) =~= all.take(i as int).filter(pred).map_values(|e: Endpoint| endpoint_line(e)).push(endpoint_line(all[i as int])));
            }
            i = i + 1;
        }
        assert(all.take(all.len() as int) =~= all);
        proof {
            if self.filter is Some {
                let f = self.filter->0;
                assert(pred =~= (|e: Endpoint| endpoint_filtered(e, f@)));
            } else {
                lemma_filter_keeps_all(all, pred);
            }
        }
        if lines.len() == 0 {
            match &self.filter {
                Some(f) => {
                    let mut msg = "No endpoints found for service `".to_owned();
                    msg.append(service.name.as_str());
                    msg.append("` with name containing `");
                    msg.append(f.as_str());
                    msg.append("`");
                    Ok(HtrsAction::PrintDialogue(msg))
                },
                None => Ok(HtrsAction::PrintDialogue("No endpoints defined".to_owned())),
            }
        } else {
            Ok(HtrsAction::PrintDialogue(join_strings(&lines, "\n")))
        }
    }
}

} // verus!
