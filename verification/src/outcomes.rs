//! What a command produces: an action for the program to carry out, or an
//! error to report.

use vstd::prelude::*;
use crate::string_map::StringMap;

verus! {

/// An error a command reports; `details` is the text shown to the user.
#[derive(Debug)]
pub struct HtrsError {
    pub details: String,
}

/// The HTTP method of a request.
#[derive(Debug, PartialEq, Eq, Structural)]
pub enum HttpMethod {
    Get,
}

/// What the program does once a command has run.
#[derive(Debug)]
pub enum HtrsAction {
    /// Save the (changed) configuration.
    UpdateConfig,
    /// Print the text.
    PrintDialogue(String),
    /// Send a request and print the response.
    MakeRequest {
        url: String,
        query_parameters: StringMap,
        method: HttpMethod,
        headers: StringMap,
        show_body: bool,
    },
}

/// "No {name} could be found with name `{term}`".
pub open spec fn item_not_found_text(name: Seq<char>, term: Seq<char>) -> Seq<char> {
    "No "@ + name + " could be found with name `"@ + term + "`"@
}

/// "No {name} could be found with name or alias `{term}`".
pub open spec fn aliased_item_not_found_text(name: Seq<char>, term: Seq<char>) -> Seq<char> {
    "No "@ + name + " could be found with name or alias `"@ + term + "`"@
}

/// "A {name} already exists with name `{term}".
pub open spec fn item_already_exists_text(name: Seq<char>, term: Seq<char>) -> Seq<char> {
    "A "@ + name + " already exists with name `"@ + term
}

/// "A {name} already exists with name or alias `{term}`".
pub open spec fn aliased_item_already_exists_text(name: Seq<char>, term: Seq<char>) -> Seq<char> {
    "A "@ + name + " already exists with name or alias `"@ + term + "`"@
}

impl HtrsError {
    /// An error with the given text.
    pub fn new(msg: &str) -> (e: HtrsError)
        ensures
            e.details@ == msg@,
    {
        HtrsError { details: msg.to_owned() }
    }

    /// "No {name} could be found with name `{searched_term}`".
    pub fn item_not_found(name: &str, searched_term: &str) -> (e: Self)
        ensures
            e.details@ == item_not_found_text(name@, searched_term@),
    {
        let mut d = "No ".to_owned();
        d.append(name);
        d.append(" could be found with name `");
        d.append(searched_term);
        d.append("`");
        Self { details: d }
    }

    /// "No {name} could be found with name or alias `{searched_term}`".
    pub fn aliased_item_not_found(name: &str, searched_term: &str) -> (e: Self)
        ensures
            e.details@ == aliased_item_not_found_text(name@, searched_term@),
    {
        let mut d = "No ".to_owned();
        d.append(name);
        d.append(" could be found with name or alias `");
        d.append(searched_term);
        d.append("`");
        Self { details: d }
    }

    /// "A {name} already exists with name `{conflicting_term}".
    pub fn item_already_exists(name: &str, conflicting_term: &str) -> (e: Self)
        ensures
            e.details@ == item_already_exists_text(name@, conflicting_term@),
    {
        let mut d = "A ".to_owned();
        d.append(name);
        d.append(" already exists with name `");
        d.append(conflicting_term);
        Self { details: d }
    }

    /// "A {name} already exists with name or alias `{conflicting_term}`".
    pub fn aliased_item_already_exists(name: &str, conflicting_term: &str) -> (e: Self)
        ensures
            e.details@ == aliased_item_already_exists_text(name@, conflicting_term@),
    {
        let mut d = "A ".to_owned();
        d.append(name);
        d.append(" already exists with name or alias `");
        d.append(conflicting_term);
        d.append("`");
        Self { details: d }
    }
}

/// The command failed with exactly this text.
pub open spec fn fails_with(r: Result<HtrsAction, HtrsError>, msg: Seq<char>) -> bool {
    r matches Err(e) && e.details@ == msg
}

/// The command succeeded and asks for the configuration to be saved.
pub open spec fn saves(r: Result<HtrsAction, HtrsError>) -> bool {
    r matches Ok(HtrsAction::UpdateConfig)
}

/// The command succeeded and asks for exactly this text to be printed.
pub open spec fn prints(r: Result<HtrsAction, HtrsError>, text: Seq<char>) -> bool {
    r matches Ok(HtrsAction::PrintDialogue(t)) && t@ == text
}

} // verus!
