//! Reading named fields of a JSON text with `serde_json`.
use vstd::prelude::*;
use crate::pattern::opt_view;

verus! {

/// What one key of a parsed JSON value holds, as far as it is read here:
/// the string it is, if it is one; and, if it is an array, each element's
/// string (if that element is one).
pub struct JsonField {
    pub text: Option<String>,
    pub texts: Option<Vec<Option<String>>>,
}

/// A field as values.
pub struct JsonFieldView {
    pub text: Option<Seq<char>>,
    pub texts: Option<Seq<Option<Seq<char>>>>,
}

/// Optional strings as values.
pub open spec fn opt_views(v: Seq<Option<String>>) -> Seq<Option<Seq<char>>> {
    v.map_values(|o: Option<String>| opt_view(o))
}

impl JsonField {
    /// The field as values.
    pub open spec fn view_field(&self) -> JsonFieldView {
        JsonFieldView {
            text: opt_view(self.text),
            texts: match self.texts {
                Some(p) => Some(opt_views(p@)),
                None => None,
            },
        }
    }
}

/// Fields as values.
pub open spec fn field_views(fs: Seq<JsonField>) -> Seq<JsonFieldView> {
    fs.map_values(|f: JsonField| f.view_field())
}

/// Keys as values.
pub open spec fn key_views(ks: Seq<&str>) -> Seq<Seq<char>> {
    ks.map_values(|k: &str| k@)
}

/// What `serde_json` reads from `text` for each of `keys`, with the parsed
/// value's `{:?}` rendering; or the message of its parse error.
pub uninterp spec fn json_fields(text: Seq<char>, keys: Seq<Seq<char>>) -> Result<(Seq<JsonFieldView>, Seq<char>), Seq<char>>;

/// Parses `text` with `serde_json::from_str` into a `serde_json::Value`; for
/// each key reads `Value::as_str` and `Value::as_array` (each element with
/// `as_str`) of the value at that key, one field per key in order, and
/// renders the value with `{:?}`. On a parse error gives the error's message.
/// The contract names the result; it states only that there is one field per key.
#[verifier::external_body]
pub(crate) fn read_json_fields(text: &str, keys: &Vec<&str>) -> (r: Result<(Vec<JsonField>, String), String>)
    ensures
        match r {
            Ok((fs, d)) => fs@.len() == keys@.len() && json_fields(text@, key_views(keys@)) == Ok::<
                (Seq<JsonFieldView>, Seq<char>),
                Seq<char>,
            >((field_views(fs@), d@)),
            Err(e) => json_fields(text@, key_views(keys@)) == Err::<(Seq<JsonFieldView>, Seq<char>), Seq<char>>(e@),
        },
{
    let v: serde_json::Value = serde_json::from_str(text).map_err(|e| e.to_string())?;
    let fields = keys
        .iter()
        .map(|k| JsonField {
            text: v[*k].as_str().map(|s| s.to_string()),
            texts: v[*k].as_array().map(|a| a.iter().map(|x| x.as_str().map(|s| s.to_string())).collect()),
        })
        .collect();
    Ok((fields, format!("{:?}", v)))
}

} // verus!
