//! Error messages: a table of templates read from JSON, and the rendering of
//! an error's template with its parameters.
use vstd::prelude::*;
use super::error_context::{ErrorContext, pairs_view};
use crate::text::{concat, decimal, decimal_string, lemma_replace_absent, owned, replace, replace_all};

verus! {

/// `serde_json::Value`, a parsed JSON document; opaque here.
#[verifier::external_type_specification]
#[verifier::external_body]
pub struct ExJsonValue(serde_json::Value);


/// Whether a text is a JSON document, as `serde_json` reads it.
pub uninterp spec fn json_parses(json: Seq<char>) -> bool;

/// The string that the member `key` of the JSON object written `json` holds,
/// as `serde_json` reads it; `None` where the document is no object, has no
/// such member, or the member is no string.
pub uninterp spec fn json_string_member(json: Seq<char>, key: Seq<char>) -> Option<Seq<char>>;

/// How `serde_json` describes why the text `json` is no JSON document (the
/// `Display` text of its error, which names the fault and where it stands).
pub uninterp spec fn json_error_message(json: Seq<char>) -> Seq<char>;

/// Parses JSON text into a value.
///
/// Trusted: calls `serde_json::from_str::<serde_json::Value>`, which succeeds
/// exactly on the texts that are JSON documents, and turns its error into
/// the error's `Display` text, which depends on the text alone and is named
/// `json_error_message`.  The value itself is opaque here; what it holds is
/// reached through `ErrorMessage::template`.
#[verifier::external_body]
fn json_from_str(text: &str) -> (r: Result<serde_json::Value, String>)
    ensures
        r is Ok <==> json_parses(text@),
        r matches Err(m) ==> m@ == json_error_message(text@),
{
    serde_json::from_str(text).map_err(|e| e.to_string())
}

/// The text of an optional string slice.
pub open spec fn opt_view(o: Option<&str>) -> Option<Seq<char>> {
    match o {
        Some(t) => Some(t@),
        None => None,
    }
}

/// `{key}`: how a parameter named `key` is written in a template.
pub open spec fn placeholder(key: Seq<char>) -> Seq<char> {
    seq!['{'] + key + seq!['}']
}

/// A template with each parameter's placeholder replaced by its value, the
/// parameters taken in order.
pub open spec fn fill_template(
    template: Seq<char>,
    params: Seq<(Seq<char>, Seq<char>)>,
) -> Seq<char>
    decreases params.len(),
{
    if params.len() == 0 {
        template
    } else {
        fill_template(
            replace_all(template, placeholder(params[0].0), params[0].1),
            params.skip(1),
        )
    }
}

/// What `get_error_message` gives for an error whose code is `code`, when
/// the table has `template` for that code (or none).
pub open spec fn rendered_message(
    template: Option<Seq<char>>,
    code: Seq<char>,
    params: Seq<(Seq<char>, Seq<char>)>,
) -> Result<Seq<char>, Seq<char>> {
    match template {
        Some(t) => Ok(fill_template(t, params)),
        None => Err("不正なエラーコード: "@ + code),
    }
}

/// A message with its `{row}` and `{col}` placeholders replaced by the
/// position, written in decimal.
pub open spec fn located_message(message: Seq<char>, row: nat, col: nat) -> Seq<char> {
    replace_all(replace_all(message, "{row}"@, decimal(row)), "{col}"@, decimal(col))
}

/// Whether `pat` occurs in `s`.
pub open spec fn occurs(s: Seq<char>, pat: Seq<char>) -> bool {
    exists|i: int| 0 <= i && i + pat.len() <= s.len() && #[trigger] s.subrange(i, i + pat.len()) == pat
}

/// A template that holds none of the placeholders of the parameters is the
/// message itself.
pub proof fn law_template_without_placeholders(template: Seq<char>, params: Seq<(Seq<char>, Seq<char>)>)
    requires
        forall|k: int| 0 <= k < params.len() ==> !occurs(template, placeholder(#[trigger] params[k].0)),
    ensures
        fill_template(template, params) == template,
    decreases params.len(),
{
    if params.len() > 0 {
        assert(!occurs(template, placeholder(params[0].0)));
        lemma_replace_absent(template, placeholder(params[0].0), params[0].1);
        assert forall|k: int| 0 <= k < params.skip(1).len() implies !occurs(
            template,
            placeholder(#[trigger] params.skip(1)[k].0),
        ) by {
            assert(params.skip(1)[k] == params[k + 1]);
        }
        law_template_without_placeholders(template, params.skip(1));
    }
}

/// A message that holds neither `{row}` nor `{col}` is its located message.
pub proof fn law_location_without_placeholders(message: Seq<char>, row: nat, col: nat)
    requires
        !occurs(message, "{row}"@),
        !occurs(message, "{col}"@),
    ensures
        located_message(message, row, col) == message,
{
    lemma_replace_absent(message, "{row}"@, decimal(row));
    lemma_replace_absent(message, "{col}"@, decimal(col));
}

/// The table of message templates, keyed by error code: the JSON document
/// it was read from, parsed.
pub struct ErrorMessage {
    error_message: serde_json::Value,
    source: Ghost<Seq<char>>,
}

/// Builds `{key}`.
fn make_placeholder(key: &str) -> (r: String)
    ensures
        r@ == placeholder(key@),
{
    let open = concat("{", key);
    let r = concat(open.as_str(), "}");
    proof {
        reveal_strlit("{");
        reveal_strlit("}");
        assert(r@ == placeholder(key@));
    }
    r
}

/// Fills a template with the values of its parameters: each `{key}` becomes
/// the value given for `key`, parameters taken in order.
pub fn fill_params(template: &str, params: &Vec<(String, String)>) -> (r: String)
    ensures
        r@ == fill_template(template@, pairs_view(params@)),
{
    let mut message = owned(template);
    let mut i: usize = 0;
    assert(pairs_view(params@).skip(0) == pairs_view(params@));
    while i < params.len()
        invariant
            i <= params.len(),
            fill_template(message@, pairs_view(params@).skip(i as int)) == fill_template(
                template@,
                pairs_view(params@),
            ),
        decreases params.len() - i,
    {
        let ghost rest = pairs_view(params@).skip(i as int);
        let pat = make_placeholder(params[i].0.as_str());
        message = replace(message.as_str(), pat.as_str(), params[i].1.as_str());
        i = i + 1;
        assert(rest.skip(1) =~= pairs_view(params@).skip(i as int));
    }
    assert(pairs_view(params@).skip(params.len() as int) =~= Seq::<(Seq<char>, Seq<char>)>::empty());
    message
}

/// Renders an error message: the template found for the error's code filled
/// with the error's parameters, or, where the table has no template for the
/// code, an error that names the code.
pub fn render_message(template: Option<&str>, code: &str, params: &Vec<(String, String)>) -> (r:
    Result<String, String>)
    ensures
        r matches Ok(m) ==> rendered_message(opt_view(template), code@, pairs_view(params@))
            == Ok::<Seq<char>, Seq<char>>(m@),
        r matches Err(m) ==> rendered_message(opt_view(template), code@, pairs_view(params@))
            == Err::<Seq<char>, Seq<char>>(m@),
{
    match template {
        Some(t) => Ok(fill_params(t, params)),
        None => Err(concat("不正なエラーコード: ", code)),
    }
}

impl ErrorMessage {
    /// The JSON text the table was read from.
    pub closed spec fn source(&self) -> Seq<char> {
        self.source@
    }

    /// Reads the table of templates from JSON text.
    pub fn from_json(text: &str) -> (r: Result<ErrorMessage, String>)
        ensures
            r is Ok <==> json_parses(text@),
            r matches Ok(m) ==> m.source() == text@,
            r matches Err(m) ==> m@ == "JSONパースエラー: "@ + json_error_message(text@),
    {
        match json_from_str(text) {
            Ok(error_message) => Ok(ErrorMessage { error_message, source: Ghost(text@) }),
            Err(detail) => Err(concat("JSONパースエラー: ", detail.as_str())),
        }
    }

    /// The template of a code, if the table holds one as a string.
    ///
    /// Trusted: calls `serde_json::Value::get` with the code and then
    /// `serde_json::Value::as_str`, on the value that `from_json` parsed from
    /// `source()` (the only way a table is made), so the result is the string
    /// member of that name of the document.
    #[verifier::external_body]
    pub(crate) fn template(&self, code: &str) -> (r: Option<&str>)
        ensures
            opt_view(r) == json_string_member(self.source(), code@),
    {
        self.error_message.get(code).and_then(|v| v.as_str())
    }

    /// エラーメッセージの取得
    ///
    /// The template of the error's code, filled with the error's parameters;
    /// an error naming the code where the table has no template for it.
    pub fn get_error_message(&self, error: &ErrorContext) -> (r: Result<String, String>)
        ensures
            ({
                let expected = rendered_message(
                    json_string_member(self.source(), error.error_code.text()),
                    error.error_code.text(),
                    error.params_view(),
                );
                &&& r matches Ok(m) ==> expected == Ok::<Seq<char>, Seq<char>>(m@)
                &&& r matches Err(m) ==> expected == Err::<Seq<char>, Seq<char>>(m@)
            }),
    {
        let code = error.error_code.to_string();
        let template = self.template(code.as_str());
        render_message(template, code.as_str(), &error.params)
    }

    /// 場所を指定したエラーメッセージの取得
    ///
    /// The message of `get_error_message` with `{row}` and `{col}` replaced by
    /// the error's position.
    pub fn get_error_message_with_location(&self, error: ErrorContext) -> (r: Result<String, String>)
        ensures
            ({
                let expected = rendered_message(
                    json_string_member(self.source(), error.error_code.text()),
                    error.error_code.text(),
                    error.params_view(),
                );
                &&& r matches Ok(m) ==> (expected matches Ok(e) && m@ == located_message(
                    e,
                    error.row as nat,
                    error.col as nat,
                ))
                &&& r matches Err(m) ==> expected == Err::<Seq<char>, Seq<char>>(m@)
            }),
    {
        let message = self.get_error_message(&error)?;
        Ok(with_location(message.as_str(), error.row, error.col))
    }
}

/// Replaces `{row}` and `{col}` in a message by the position.
pub fn with_location(message: &str, row: u32, col: u32) -> (r: String)
    ensures
        r@ == located_message(message@, row as nat, col as nat),
{
    let row_text = decimal_string(row as u64);
    let col_text = decimal_string(col as u64);
    proof {
        reveal_strlit("{row}");
        reveal_strlit("{col}");
    }
    let m = replace(message, "{row}", row_text.as_str());
    replace(m.as_str(), "{col}", col_text.as_str())
}

} // verus!
