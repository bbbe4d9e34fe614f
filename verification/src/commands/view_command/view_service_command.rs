//! `view service`: show a service with its environments and endpoints.

use vstd::prelude::*;
use crate::config::{
    first_at, first_index, lemma_first_at_unique, service_is, service_known, Endpoint, Environment,
    HtrsConfig, QueryParameter, Service,
};
use crate::outcomes::{fails_with, prints, HtrsAction, HtrsError};
use crate::text::{concat_all, concat_strings, views};

verus! {

/// Show the service known by a name or alias.
#[derive(Debug)]
pub struct ViewServiceCommand {
    pub name: String,
}

/// The line that shows an environment.
pub open spec fn environment_text(e: Environment) -> Seq<char> {
    match e.alias {
        Some(a) => " - "@ + e.name@ + " ("@ + a@ + ") ~ "@ + e.host@ + "\n"@,
        None => " - "@ + e.name@ + " ~ "@ + e.host@ + "\n"@,
    }
}

/// The line that shows a query parameter, starred where it is required.
pub open spec fn parameter_text(q: QueryParameter) -> Seq<char> {
    if q.required {
        "   - *"@ + q.name@ + "\n"@
    } else {
        "   - "@ + q.name@ + "\n"@
    }
}

/// The lines that show an endpoint and its query parameters.
pub open spec fn endpoint_text(e: Endpoint) -> Seq<char> {
    " - "@ + e.name@ + " ~ "@ + e.path_template@ + "\n"@ + concat_all(
        e.query_parameters@.map_values(|q: QueryParameter| parameter_text(q)),
    )
}

/// The line that shows a service's alias, where it has one.
pub open spec fn alias_line(alias: Option<String>) -> Seq<char> {
    match alias {
        Some(a) => " Alias: "@ + a@ + "\n"@,
        None => Seq::empty(),
    }
}

/// The whole listing of a service.
pub open spec fn service_text(s: Service) -> Seq<char> {
    let environments = concat_all(s.environments@.map_values(|e: Environment| environment_text(e)));
    let endpoints = concat_all(s.endpoints@.map_values(|e: Endpoint| endpoint_text(e)));
    "Name: "@ + s.name@ + "\n"@ + alias_line(s.alias) + "Environments:\n"@ + (if environments.len() == 0 {
        "  (no environments)\n"@
    } else {
        environments
    }) + "Endpoints:\n"@ + (if endpoints.len() == 0 {
        "  (no endpoints)\n"@
    } else {
        endpoints
    })
}

fn is_empty_text(s: &String) -> (r: bool)
    ensures
        r == (s@.len() == 0),
{
    s.as_str().is_empty()
}

impl ViewServiceCommand {
    /// The relation between the configuration and the command's result.
    pub open spec fn outcome(self, config: HtrsConfig, r: Result<HtrsAction, HtrsError>) -> bool {
        if !service_known(config.services@, self.name@) {
            fails_with(r, "No service could be found with name or alias `"@ + self.name@ + "`"@)
        } else {
            prints(
                r,
                service_text(config.services@[first_index(config.services@, |s: Service| service_is(s, self.name@))]),
            )
        }
    }

    /// The line that shows an environment: name, alias where there is one,
    /// and host.
    pub fn get_environment_str(environment: &Environment) -> (r: String)
        ensures
            r@ == environment_text(*environment),
    {
        let mut text = " - ".to_owned();
        text.append(environment.name.as_str());
        match &environment.alias {
            Some(alias) => {
                text.append(" (");
                text.append(alias.as_str());
                text.append(") ~ ");
            },
            None => {
                text.append(" ~ ");
            },
        }
        text.append(environment.host.as_str());
        text.append("\n");
        text
    }

    /// The lines that show an endpoint: name and path, then each query
    /// parameter, starred where it is required.
    pub fn get_endpoint_string(endpoint: &Endpoint) -> (r: String)
        ensures
            r@ == endpoint_text(*endpoint),
    {
        let mut text = " - ".to_owned();
        text.append(endpoint.name.as_str());
        text.append(" ~ ");
        text.append(endpoint.path_template.as_str());
        text.append("\n");
        let ghost head = text@;
        let ghost params = endpoint.query_parameters@.map_values(|q: QueryParameter| parameter_text(q));
        let mut i: usize = 0;
        while i < endpoint.query_parameters.len()
            invariant
                params == endpoint.query_parameters@.map_values(|q: QueryParameter| parameter_text(q)),
                i <= endpoint.query_parameters@.len(),
                text@ == head + concat_all(params.take(i as int)),
            decreases endpoint.query_parameters@.len() - i,
        {
            let param = &endpoint.query_parameters[i];
            if param.required {
                text.append("   - *");
            } else {
                text.append("   - ");
            }
            text.append(param.name.as_str());
            text.append("\n");
            assert(params.take(i + 1).drop_last() =~= params.take(i as int));
            i = i + 1;
        }
        assert(params.take(endpoint.query_parameters@.len() as int) =~= params);
        text
    }

    /// Shows the service's name, alias, environments and endpoints.
    pub fn execute(&self, config: &HtrsConfig) -> (r: Result<HtrsAction, HtrsError>)
        ensures
            self.outcome(*config, r),
    {
        let ghost pred = |s: Service| service_is(s, self.name@);
        let service = match config.get_service(self.name.as_str()) {
            Some(s) => s,
            None => {
                let mut msg = "No service could be found with name or alias `".to_owned();
                msg.append(self.name.as_str());
                msg.append("`");
                return Err(HtrsError { details: msg });
            },
        };
        proof {
            let i = choose|i: int| first_at(config.services@, pred, i) && *service == config.services@[i];
            lemma_first_at_unique(config.services@, pred, i, first_index(config.services@, pred));
        }
        let mut text = "Name: ".to_owned();
        text.append(service.name.as_str());
        text.append("\n");
        if let Some(alias) = &service.alias {
            text.append(" Alias: ");
            text.append(alias.as_str());
            text.append("\n");
        }
        let ghost alias_part = alias_line(service.alias);
        assert(text@ =~= "Name: "@ + service.name@ + "\n"@ + alias_part);
        text.append("Environments:\n");
        let ghost upto_environments = text@;
        let mut environment_lines: Vec<String> = Vec::new();
        let mut i: usize = 0;
        while i < service.environments.len()
            invariant
                i <= service.environments@.len(),
                views(environment_lines@) == service.environments@.take(i as int).map_values(|e: Environment| environment_text(e)),
            decreases service.environments@.len() - i,
        {
            let line = Self::get_environment_str(&service.environments[i]);
            let ghost prev = environment_lines@;
            environment_lines.push(line);
            assert(views(environment_lines@) =~= views(prev).push(environment_text(service.environments@[i as int])));
            assert(service.environments@.take(i + 1).map_values(|e: Environment| environment_text(e)) =~= service.environments@.take(i as int).map_values(|e: Environment| environment_text(e)).push(environment_text(service.environments@[i as int])));
            i = i + 1;
        }
        assert(service.environments@.take(service.environments@.len() as int) =~= service.environments@);
        let environment_text = concat_strings(&environment_lines);
        if is_empty_text(&environment_text) {
            text.append("  (no environments)\n");
        } else {
            text.append(environment_text.as_str());
        }
        assert(text@ =~= upto_environments + (if environment_text@.len() == 0 {
            "  (no environments)\n"@
        } else {
            environment_text@
        }));
        text.append("Endpoints:\n");
        let ghost upto_endpoints = text@;
        let mut endpoint_lines: Vec<String> = Vec::new();
        let mut k: usize = 0;
        while k < service.endpoints.len()
            invariant
                k <= service.endpoints@.len(),
                views(endpoint_lines@) == service.endpoints@.take(k as int).map_values(|e: Endpoint| endpoint_text(e)),
            decreases service.endpoints@.len() - k,
        {
            let line = Self::get_endpoint_string(&service.endpoints[k]);
            let ghost prev = endpoint_lines@;
            endpoint_lines.push(line);
            assert(views(endpoint_lines@) =~= views(prev).push(endpoint_text(service.endpoints@[k as int])));
            assert(service.endpoints@.take(k + 1).map_values(|e: Endpoint| endpoint_text(e)) =~= service.endpoints@.take(k as int).map_values(|e: Endpoint| endpoint_text(e)).push(endpoint_text(service.endpoints@[k as int])));
            k = k + 1;
        }
        assert(service.endpoints@.take(service.endpoints@.len() as int) =~= service.endpoints@);
        let endpoint_text = concat_strings(&endpoint_lines);
        if is_empty_text(&endpoint_text) {
            text.append("  (no endpoints)\n");
        } else {
            text.append(endpoint_text.as_str());
        }
        assert(text@ =~= upto_endpoints + (if endpoint_text@.len() == 0 {
            "  (no endpoints)\n"@
        } else {
            endpoint_text@
        }));
        Ok(HtrsAction::PrintDialogue(text))
    }
}

} // verus!
