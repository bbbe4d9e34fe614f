//! Building the URL and headers of a request.

use vstd::prelude::*;
use crate::outcomes::HtrsError;
use crate::string_map::{entries_view, entry_view, StringMap};
use crate::text::{join_strings, join_with, views};

verus! {

/// A `Result` of strings taken by its views.
pub open spec fn text_result(r: Result<String, String>) -> Result<Seq<char>, Seq<char>> {
    match r {
        Ok(s) => Ok(s@),
        Err(e) => Err(e@),
    }
}

/// What `reqwest::Url::parse` gives for a string: the serialized URL, or the
/// text of the parse error.
pub uninterp spec fn parsed_url(input: Seq<char>) -> Result<Seq<char>, Seq<char>>;

/// What `Url::join` gives for a URL (in serialized form, parsed again) and a
/// reference resolved against it: the serialized result, or the text of the
/// parse error.
pub uninterp spec fn joined_url(base: Seq<char>, input: Seq<char>) -> Result<Seq<char>, Seq<char>>;

/// Calls `reqwest::Url::parse` (the `url` crate's parser) and serializes the
/// result, or hands back the error's text. The contract claims only that the
/// outcome is a function of the input (`parsed_url`).
#[verifier::external_body]
pub(crate) fn parse_url(input: &str) -> (r: Result<String, String>)
    ensures
        text_result(r) == parsed_url(input@),
{
    match reqwest::Url::parse(input) {
        Ok(url) => Ok(url.into()),
        Err(e) => Err(e.to_string()),
    }
}

/// Calls `Url::join` on `base` (read back into a `Url` with `Url::parse`) and
/// serializes the result, or hands back the error's text. The contract claims
/// only that the outcome is a function of the two strings (`joined_url`).
#[verifier::external_body]
pub(crate) fn join_url(base: &str, input: &str) -> (r: Result<String, String>)
    ensures
        text_result(r) == joined_url(base@, input@),
{
    match reqwest::Url::parse(base) {
        Ok(url) => match url.join(input) {
            Ok(joined) => Ok(joined.into()),
            Err(e) => Err(e.to_string()),
        },
        Err(e) => Err(e.to_string()),
    }
}

/// One query parameter as `name=value`.
pub open spec fn query_pair_text(kv: (Seq<char>, Seq<char>)) -> Seq<char> {
    kv.0 + "="@ + kv.1
}

/// The query string of a table of parameters: `name=value` pairs joined by `&`.
pub open spec fn query_string(pairs: Seq<(Seq<char>, Seq<char>)>) -> Seq<char> {
    join_with(pairs.map_values(|kv: (Seq<char>, Seq<char>)| query_pair_text(kv)), "&"@)
}

/// The URL with the query parameters applied: unchanged where there are none,
/// else the result of joining `?` and the query string to it.
pub open spec fn url_with_query(base_url: Seq<char>, params: StringMap) -> Result<Seq<char>, Seq<char>> {
    if params.pairs().len() == 0 {
        Ok(base_url)
    } else {
        match joined_url(base_url, "?"@ + query_string(params.pairs())) {
            Ok(u) => Ok(u),
            Err(e) => Err("Failed to build url with query parameters: "@ + e),
        }
    }
}

/// Applies the query parameters to a URL, as a query string of `name=value`
/// pairs joined by `&`.
pub fn apply_query_params_to_url(base_url: &str, query_params: &StringMap) -> (r: Result<String, HtrsError>)
    ensures
        match r {
            Ok(u) => url_with_query(base_url@, *query_params) == Ok::<Seq<char>, Seq<char>>(u@),
            Err(e) => url_with_query(base_url@, *query_params) == Err::<Seq<char>, Seq<char>>(e.details@),
        },
{
    if query_params.is_empty() {
        return Ok(base_url.to_owned());
    }
    let entries = query_params.entries();
    let ghost pairs = query_params.pairs();
    let mut parts: Vec<String> = Vec::new();
    let mut i: usize = 0;
    while i < entries.len()
        invariant
            entries_view(entries@) == pairs,
            i <= entries@.len(),
            views(parts@) == pairs.take(i as int).map_values(|kv: (Seq<char>, Seq<char>)| query_pair_text(kv)),
        decreases entries@.len() - i,
    {
        let mut part = entries[i].0.clone();
        part.append("=");
        part.append(entries[i].1.as_str());
        assert(pairs[i as int] == entry_view(entries@[i as int]));
        let ghost prev = parts@;
        parts.push(part);
        assert(views(parts@) =~= views(prev).push(query_pair_text(pairs[i as int])));
        assert(pairs.take(i + 1).map_values(|kv: (Seq<char>, Seq<char>)| query_pair_text(kv)) =~= pairs.take(i as int).map_values(|kv: (Seq<char>, Seq<char>)| query_pair_text(kv)).push(query_pair_text(pairs[i as int])));
        i = i + 1;
    }
    assert(pairs.take(entries@.len() as int) =~= pairs);
    let mut query = "?".to_owned();
    let joined = join_strings(&parts, "&");
    query.append(joined.as_str());
    match join_url(base_url, query.as_str()) {
        Ok(url) => Ok(url),
        Err(e) => {
            let mut msg = "Failed to build url with query parameters: ".to_owned();
            msg.append(e.as_str());
            Err(HtrsError { details: msg })
        },
    }
}

/// Copies every header of `from` into `into`; those of `from` win.
pub fn merge_hashmaps(into: &mut StringMap, from: &StringMap)
    ensures
        final(into)@ == old(into)@.union_prefer_right(from@),
{
    into.extend_with(from);
}

/// The headers every request carries: a `User-Agent` naming the program and
/// its version.
pub fn get_default_headers(version: &str) -> (r: StringMap)
    ensures
        r@ == Map::<Seq<char>, Seq<char>>::empty().insert("User-Agent"@, "htrs/"@ + version@),
{
    let mut headers = StringMap::new();
    let mut agent = "htrs/".to_owned();
    agent.append(version);
    headers.insert("User-Agent".to_owned(), agent);
    headers
}

} // verus!
