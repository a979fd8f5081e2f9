//! The wallhaven search: the request URL for a query and display geometry,
//! and the reading of the search response into the image URLs it offers.
//! The response is navigated through the JSON crate; what a document holds
//! is modelled by `JsonVal`, and every step is verified against that model.
use vstd::prelude::*;

use crate::config::Config;
use crate::display::DisplayInfo;
use crate::resolution::{get_height, get_width};
use crate::text::{find_idx, split_seq};

verus! {

#[verifier::external_type_specification]
#[verifier::external_body]
pub struct ExJsonValue(serde_json::Value);

/// A JSON document as a value: what the logic reads of it. Numbers carry no
/// payload because nothing here reads one.
pub enum JsonVal {
    Null,
    Bool(bool),
    Num,
    Str(Seq<char>),
    Arr(Seq<JsonVal>),
    Obj(Map<Seq<char>, JsonVal>),
}

/// The document a `serde_json::Value` holds.
pub uninterp spec fn json_model(v: serde_json::Value) -> JsonVal;

/// What `serde_json::from_str` parses the string into, when it parses.
/// Parsing is a function of the string alone.
pub uninterp spec fn json_doc_of(s: Seq<char>) -> Option<JsonVal>;

/// Relies on `serde_json::from_str::<Value>`: deterministic parsing of the
/// string, a value exactly when the string is valid JSON.
#[verifier::external_body]
fn parse_json(s: &str) -> (r: Option<serde_json::Value>)
    ensures
        r is Some <==> json_doc_of(s@) is Some,
        r is Some ==> json_model(r->Some_0) == json_doc_of(s@)->Some_0,
{
    serde_json::from_str::<serde_json::Value>(s).ok()
}

/// Relies on `serde_json::Value::get` with a string index: a lookup in an
/// object's map, and nothing for any other value.
#[verifier::external_body]
fn get_field<'a>(v: &'a serde_json::Value, key: &str) -> (r: Option<&'a serde_json::Value>)
    ensures
        match json_model(*v) {
            JsonVal::Obj(m) => {
                &&& (r is Some <==> m.contains_key(key@))
                &&& (r is Some ==> json_model(*r->Some_0) == m[key@])
            },
            _ => r is None,
        },
{
    v.get(key)
}

/// Relies on `serde_json::Value::as_str`: the characters when the value is
/// a string, and nothing otherwise.
#[verifier::external_body]
fn as_str_value<'a>(v: &'a serde_json::Value) -> (r: Option<&'a str>)
    ensures
        match json_model(*v) {
            JsonVal::Str(s) => r is Some && r->Some_0@ == s,
            _ => r is None,
        },
{
    v.as_str()
}

/// Relies on `serde_json::Value::as_array`: the elements when the value is
/// an array, and nothing otherwise.
#[verifier::external_body]
fn as_array_value<'a>(v: &'a serde_json::Value) -> (r: Option<&'a Vec<serde_json::Value>>)
    ensures
        match json_model(*v) {
            JsonVal::Arr(a) => {
                &&& r is Some
                &&& r->Some_0@.len() == a.len()
                &&& forall|i: int|
                    0 <= i < a.len() ==> json_model(#[trigger] r->Some_0@[i]) == a[i]
            },
            _ => r is None,
        },
{
    v.as_array()
}

/// What `urlencoding::encode` renders the string as: a function of the
/// characters alone.
pub uninterp spec fn url_encoded_of(s: Seq<char>) -> Seq<char>;

/// Relies on `urlencoding::encode`: percent-encodes every byte except
/// alphanumerics and `-`, `_`, `.`, `~`, deterministically.
#[verifier::external_body]
fn url_encode(s: &str) -> (r: String)
    ensures
        r@ == url_encoded_of(s@),
{
    urlencoding::encode(s).into_owned()
}

/// A field of a document: a lookup when the document is an object.
pub open spec fn json_get(doc: JsonVal, key: Seq<char>) -> Option<JsonVal> {
    match doc {
        JsonVal::Obj(m) => if m.contains_key(key) {
            Some(m[key])
        } else {
            None
        },
        _ => None,
    }
}

/// The `path` strings of the response items, in order; an item without a
/// string `path` contributes nothing.
pub open spec fn paths_of(items: Seq<JsonVal>) -> Seq<Seq<char>>
    decreases items.len(),
{
    if items.len() == 0 {
        Seq::<Seq<char>>::empty()
    } else {
        paths_of(items.drop_last()) + (match json_get(items.last(), "path"@) {
            Some(JsonVal::Str(p)) => seq![p],
            _ => Seq::<Seq<char>>::empty(),
        })
    }
}

/// The error message for a reported API error: the server's string, or a
/// stand-in when the report is not a string.
pub open spec fn api_error_message(e: JsonVal) -> Seq<char> {
    "Wallhaven API error: "@ + (match e {
        JsonVal::Str(t) => t,
        _ => "Unknown error"@,
    })
}

/// What reading a response string yields: the image URLs it offers, or the
/// message saying why there are none.
pub open spec fn response_spec(s: Seq<char>) -> Result<Seq<Seq<char>>, Seq<char>> {
    match json_doc_of(s) {
        None => Err("Failed to parse JSON response"@),
        Some(doc) => match json_get(doc, "error"@) {
            Some(e) => Err(api_error_message(e)),
            None => match json_get(doc, "data"@) {
                None => Err("No 'data' field in response"@),
                Some(data) => match data {
                    JsonVal::Arr(items) => if items.len() == 0 {
                        Err("No wallpapers found in response"@)
                    } else if paths_of(items).len() == 0 {
                        Err("No valid wallpaper URLs found in response"@)
                    } else {
                        Ok(paths_of(items))
                    },
                    _ => Err("'data' field is not an array"@),
                },
            },
        },
    }
}

/// Reads a search response and extracts the image URLs it offers, against
/// `response_spec`: a reported API error, a missing or malformed `data`
/// field, and an empty result each give their own message.
pub fn parse_wallhaven_response(json_response: &str) -> (r: Result<Vec<String>, String>)
    ensures
        match r {
            Ok(images) => response_spec(json_response@) == Ok::<Seq<Seq<char>>, Seq<char>>(
                images.deep_view(),
            ),
            Err(m) => response_spec(json_response@) == Err::<Seq<Seq<char>>, Seq<char>>(m@),
        },
{
    let doc = match parse_json(json_response) {
        Some(doc) => doc,
        None => {
            return Err(String::from_str("Failed to parse JSON response"));
        },
    };
    if let Some(e) = get_field(&doc, "error") {
        let mut m = String::new();
        m.append("Wallhaven API error: ");
        match as_str_value(e) {
            Some(t) => m.append(t),
            None => m.append("Unknown error"),
        }
        proof {
            assert(m@ =~= api_error_message(json_get(json_doc_of(json_response@)->Some_0, "error"@)->Some_0));
        }
        return Err(m);
    }
    let data = match get_field(&doc, "data") {
        Some(data) => data,
        None => {
            return Err(String::from_str("No 'data' field in response"));
        },
    };
    let items = match as_array_value(data) {
        Some(items) => items,
        None => {
            return Err(String::from_str("'data' field is not an array"));
        },
    };
    if items.len() == 0 {
        return Err(String::from_str("No wallpapers found in response"));
    }
    let ghost model_items = json_get(json_doc_of(json_response@)->Some_0, "data"@)->Some_0->Arr_0;
    let n = items.len();
    let mut images: Vec<String> = Vec::new();
    let mut i: usize = 0;
    proof {
        assert(model_items.take(0) =~= Seq::<JsonVal>::empty());
    }
    while i < n
        invariant
            n == items@.len(),
            n == model_items.len(),
            forall|k: int| 0 <= k < n ==> json_model(#[trigger] items@[k]) == model_items[k],
            i <= n,
            images.deep_view() == paths_of(model_items.take(i as int)),
        decreases n - i,
    {
        let ghost prev = images.deep_view();
        proof {
            assert(model_items.take(i + 1).drop_last() =~= model_items.take(i as int));
            assert(model_items.take(i + 1).last() == model_items[i as int]);
        }
        if let Some(path_value) = get_field(&items[i], "path") {
            if let Some(path) = as_str_value(path_value) {
                images.push(String::from_str(path));
                proof {
                    assert(images.deep_view() =~= prev.push(path@));
                    assert(prev + seq![path@] =~= prev.push(path@));
                }
            }
        }
        proof {
            assert(images.deep_view() =~= paths_of(model_items.take(i + 1)));
        }
        i += 1;
    }
    proof {
        assert(model_items.take(n as int) =~= model_items);
    }
    if images.len() == 0 {
        return Err(String::from_str("No valid wallpaper URLs found in response"));
    }
    Ok(images)
}

/// An optional string, seen as its characters.
pub open spec fn opt_view(o: Option<String>) -> Option<Seq<char>> {
    match o {
        Some(s) => Some(s@),
        None => None,
    }
}

/// The search URL for a query and the chosen minimum geometry: the encoded
/// query when there is one, the minimum resolution, all categories, safe
/// purity, random order, and the API key when there is one.
pub open spec fn request_url_spec(
    query: Seq<char>,
    api_key: Option<Seq<char>>,
    width_tok: Seq<char>,
    height_tok: Seq<char>,
) -> Seq<char> {
    let base = if query.len() > 0 {
        "https://wallhaven.cc/api/v1/search"@ + "?q="@ + url_encoded_of(query) + "&"@
    } else {
        "https://wallhaven.cc/api/v1/search"@ + "?"@
    };
    let with_params = base + "atleast="@ + width_tok + "x"@ + height_tok + "&categories=111"@
        + "&purity=100"@ + "&sorting=random"@;
    match api_key {
        Some(k) => with_params + "&apikey="@ + k,
        None => with_params,
    }
}

/// Builds the search request URL for the configuration and the display:
/// span mode asks for at least the combined geometry, otherwise at least
/// the largest single monitor.
pub fn build_request_url(config: &Config, display_info: &DisplayInfo) -> (r: String)
    requires
        config.span ==> find_idx(display_info.total_resolution@, 'x') is Some,
        !config.span ==> find_idx(display_info.max_single_resolution@, 'x') is Some,
    ensures
        ({
            let sel = if config.span {
                display_info.total_resolution@
            } else {
                display_info.max_single_resolution@
            };
            r@ == request_url_spec(
                config.query@,
                opt_view(config.api_key),
                split_seq(sel, 'x')[0],
                split_seq(sel, 'x')[1],
            )
        }),
{
    let sel = if config.span {
        display_info.total_resolution.as_str()
    } else {
        display_info.max_single_resolution.as_str()
    };
    let target_width = get_width(sel);
    let target_height = get_height(sel);
    let ghost sel_view = sel@;

    let mut r = String::new();
    r.append("https://wallhaven.cc/api/v1/search");
    let has_query = config.query.as_str().unicode_len() > 0;
    if has_query {
        r.append("?q=");
        let encoded = url_encode(config.query.as_str());
        r.append(encoded.as_str());
        r.append("&");
        proof {
            assert(r@ =~= "https://wallhaven.cc/api/v1/search"@ + "?q="@ + url_encoded_of(
                config.query@,
            ) + "&"@);
        }
    } else {
        r.append("?");
        proof {
            assert(r@ =~= "https://wallhaven.cc/api/v1/search"@ + "?"@);
        }
    }
    let ghost base = r@;
    r.append("atleast=");
    r.append(target_width.as_str());
    r.append("x");
    r.append(target_height.as_str());
    r.append("&categories=111");
    r.append("&purity=100");
    r.append("&sorting=random");
    proof {
        assert(r@ =~= base + "atleast="@ + split_seq(sel_view, 'x')[0] + "x"@ + split_seq(
            sel_view,
            'x',
        )[1] + "&categories=111"@ + "&purity=100"@ + "&sorting=random"@);
    }
    let ghost with_params = r@;
    match &config.api_key {
        Some(k) => {
            r.append("&apikey=");
            r.append(k.as_str());
            proof {
                assert(r@ =~= with_params + "&apikey="@ + k@);
            }
        },
        None => {},
    }
    r
}

} // verus!
