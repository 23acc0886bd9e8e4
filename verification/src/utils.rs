//! Reports on a program: the structure its definitions show, and the
//! rendering of error messages from a table of templates.
pub mod ast_to_json;

use vstd::prelude::*;
use crate::error::error_context::{pairs_view, str_pairs_view};
use crate::error::error_message::{
    ErrorMessage, json_error_message, json_parses, json_string_member, located_message, render_message, rendered_message,
    with_location,
};
use crate::text::owned;

verus! {

/// What `get_error_message` gives for `code` with `params`, from a table
/// read from `json`.
pub open spec fn message_from(json: Seq<char>, code: Seq<char>, params: Seq<(Seq<char>, Seq<char>)>) -> Result<
    Seq<char>,
    Seq<char>,
> {
    rendered_message(json_string_member(json, code), code, params)
}

/// A result of strings, by the views of its texts.
pub open spec fn text_result(r: Result<String, String>) -> Result<Seq<char>, Seq<char>> {
    match r {
        Ok(m) => Ok(m@),
        Err(e) => Err(e@),
    }
}

/// What `get_error_message` gives: the message, or the error of a table
/// that is no JSON document or has no template for `code`.
pub open spec fn message_result(json: Seq<char>, code: Seq<char>, params: Seq<(Seq<char>, Seq<char>)>) -> Result<
    Seq<char>,
    Seq<char>,
> {
    if !json_parses(json) {
        Err("JSONパースエラー: "@ + json_error_message(json))
    } else {
        message_from(json, code, params)
    }
}

/// What `get_error_message_with_location` gives.
pub open spec fn located_result(
    json: Seq<char>,
    code: Seq<char>,
    row: nat,
    col: nat,
    params: Seq<(Seq<char>, Seq<char>)>,
) -> Result<Seq<char>, Seq<char>> {
    if !json_parses(json) {
        Err("JSONパースエラー: "@ + json_error_message(json))
    } else {
        match message_from(json, code, params) {
            Ok(m) => Ok(located_message(m, row, col)),
            Err(e) => Err(e),
        }
    }
}

/// The message with a location is the message without one, with the
/// position put in; an error is passed on unchanged.
pub proof fn law_location_follows_message(
    json: Seq<char>,
    code: Seq<char>,
    row: nat,
    col: nat,
    params: Seq<(Seq<char>, Seq<char>)>,
)
    ensures
        located_result(json, code, row, col, params) == (match message_result(json, code, params) {
            Ok(m) => Ok::<Seq<char>, Seq<char>>(located_message(m, row, col)),
            Err(e) => Err::<Seq<char>, Seq<char>>(e),
        }),
{
}

fn owned_pairs(params: &[(&str, &str)]) -> (r: Vec<(String, String)>)
    ensures
        pairs_view(r@) == str_pairs_view(params@),
{
    let mut out: Vec<(String, String)> = Vec::new();
    let mut i: usize = 0;
    while i < params.len()
        invariant
            i <= params@.len(),
            pairs_view(out@) == str_pairs_view(params@.take(i as int)),
        decreases params@.len() - i,
    {
        let (k, v) = params[i];
        let ghost before = out@;
        out.push((owned(k), owned(v)));
        i = i + 1;
        assert(params@.take(i as int) =~= params@.take(i - 1).push(params@[i - 1]));
        assert(pairs_view(out@) =~= pairs_view(before).push((k@, v@)));
        assert(str_pairs_view(params@.take(i as int)) =~= str_pairs_view(params@.take(i - 1)).push(
            (k@, v@),
        ));
    }
    assert(params@.take(params@.len() as int) =~= params@);
    out
}

/// エラーメッセージの取得: the template of `code` in the table written
/// `json`, filled with `params`; an error naming the code where the table
/// has none; `JSONパースエラー: ` and serde's description where `json` is no
/// JSON document.
pub fn get_error_message(json: &str, code: &str, params: &[(&str, &str)]) -> (r: Result<String, String>)
    ensures
        text_result(r) == message_result(json@, code@, str_pairs_view(params@)),
{
    let table = ErrorMessage::from_json(json)?;
    let template = table.template(code);
    let pairs = owned_pairs(params);
    render_message(template, code, &pairs)
}

/// 場所を指定したエラーメッセージの取得: the message of
/// `get_error_message` with `{row}` and `{col}` replaced by the position.
pub fn get_error_message_with_location(
    json: &str,
    code: &str,
    row: u32,
    col: u32,
    params: &[(&str, &str)],
) -> (r: Result<String, String>)
    ensures
        text_result(r) == located_result(json@, code@, row as nat, col as nat, str_pairs_view(params@)),
{
    let message = get_error_message(json, code, params)?;
    Ok(with_location(message.as_str(), row, col))
}

} // verus!
