//! Parameter payloads for the document-lifecycle notifications.
//!
//! The convenience calls `did_open` and `did_close` send notifications with
//! fixed parameter shapes. The JSON text of those parameters is produced by
//! serde_json, behind trusted wrappers: the text is a function of the plain
//! string arguments alone, so each result is given a name that the client's
//! contracts use.

use vstd::prelude::*;

verus! {

/// The JSON text `{"textDocument":{"languageId":l,"text":t,"uri":u,"version":1}}`
/// as serde_json renders it, for the given language identifier, document
/// URI and document text.
pub uninterp spec fn did_open_params_text(language_id: Seq<char>, uri: Seq<char>, text: Seq<char>) -> Seq<char>;

/// The JSON text `{"textDocument":{"uri":u}}` as serde_json renders it.
pub uninterp spec fn did_close_params_text(uri: Seq<char>) -> Seq<char>;

/// Relies on serde_json::to_string over an object assembled from the three
/// strings with serde_json::Map::insert: the rendering is a function of the
/// strings alone, and serializing an object of strings and a small integer
/// cannot fail.
#[verifier::external_body]
pub fn did_open_params(language_id: &str, uri: &str, text: &str) -> (r: String)
    ensures
        r@ == did_open_params_text(language_id@, uri@, text@),
{
    let mut doc = serde_json::Map::new();
    doc.insert(String::from("uri"), serde_json::Value::String(String::from(uri)));
    doc.insert(String::from("languageId"), serde_json::Value::String(String::from(language_id)));
    doc.insert(String::from("version"), serde_json::Value::from(1u64));
    doc.insert(String::from("text"), serde_json::Value::String(String::from(text)));
    let mut root = serde_json::Map::new();
    root.insert(String::from("textDocument"), serde_json::Value::Object(doc));
    serde_json::to_string(&serde_json::Value::Object(root)).expect("object of strings")
}

/// Relies on serde_json::to_string, as `did_open_params` does.
#[verifier::external_body]
pub fn did_close_params(uri: &str) -> (r: String)
    ensures
        r@ == did_close_params_text(uri@),
{
    let mut doc = serde_json::Map::new();
    doc.insert(String::from("uri"), serde_json::Value::String(String::from(uri)));
    let mut root = serde_json::Map::new();
    root.insert(String::from("textDocument"), serde_json::Value::Object(doc));
    serde_json::to_string(&serde_json::Value::Object(root)).expect("object of strings")
}

} // verus!
