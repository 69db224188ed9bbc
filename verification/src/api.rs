use vstd::prelude::*;
use vstd::string::*;

use crate::text::{
    decimal, decimal_string, decimal_value, lemma_decimal_reads_back, signed_decimal,
    signed_decimal_string,
};

verus! {

/// The text of the string field `key` of the JSON object in `body`, if `body`
/// parses as JSON, is an object, and holds a string under `key`.
pub uninterp spec fn json_string_field_of(body: Seq<char>, key: Seq<char>) -> Option<Seq<char>>;

/// Calls `serde_json::from_str::<serde_json::Value>` on `body`, then
/// `Value::get(key)` and `Value::as_str` on what it parsed. The contract only
/// names the outcome: it is a function of `body` and `key` alone.
#[verifier::external_body]
fn json_string_field(body: &str, key: &str) -> (field: Option<String>)
    ensures
        match field {
            Some(f) => json_string_field_of(body@, key@) == Some(f@),
            None => json_string_field_of(body@, key@) is None,
        },
{
    let parsed: Result<serde_json::Value, serde_json::Error> = serde_json::from_str(body);
    match parsed {
        Ok(value) => match value.get(key) {
            Some(found) => found.as_str().map(String::from),
            None => None,
        },
        Err(_) => None,
    }
}

/// The address of an endpoint of the shop's REST API, from its path.
pub open spec fn api_url_text(path: Seq<char>) -> Seq<char> {
    "/api"@ + path
}

/// The address of an endpoint of the shop's REST API, from its path.
pub fn api_url(path: &str) -> (url: String)
    ensures
        url@ == api_url_text(path@),
{
    let mut url = String::from_str("/api");
    url.append(path);
    url
}

/// The value of the `Authorization` header that carries a session token.
pub fn bearer(token: &str) -> (header: String)
    ensures
        header@ == "Bearer "@ + token@,
{
    let mut header = String::from_str("Bearer ");
    header.append(token);
    header
}

/// The HTTP methods the client uses.
#[derive(Clone, Copy, Debug, PartialEq, Eq)]
pub enum Method {
    Get,
    Post,
    Put,
    Delete,
}

/// The calls the client makes to the shop's REST API.
#[derive(Clone, Copy, Debug, PartialEq, Eq)]
pub enum ApiCall {
    /// Registers an account.
    Register,
    /// Logs in and hands out a session token.
    Login,
    /// Lists the published outfits.
    PublicOutfits,
    /// Lists the outfits of the logged-in user.
    MyOutfits,
    /// Creates a draft outfit.
    CreateOutfit,
    /// Edits an outfit of the logged-in user.
    UpdateOutfit(i64),
    /// Deletes an outfit of the logged-in user.
    DeleteOutfit(i64),
    /// Publishes an outfit.
    Publish(i64),
    /// Withdraws an outfit from publication.
    Unpublish(i64),
}

/// The path of a call below the API root.
pub open spec fn call_path(c: ApiCall) -> Seq<char> {
    match c {
        ApiCall::Register => "/auth/register"@,
        ApiCall::Login => "/auth/login"@,
        ApiCall::PublicOutfits => "/outfits"@,
        ApiCall::MyOutfits => "/outfits/mine"@,
        ApiCall::CreateOutfit => "/outfits"@,
        ApiCall::UpdateOutfit(id) => "/outfits/"@ + signed_decimal(id as int),
        ApiCall::DeleteOutfit(id) => "/outfits/"@ + signed_decimal(id as int),
        ApiCall::Publish(id) => "/outfits/"@ + signed_decimal(id as int) + "/publish"@,
        ApiCall::Unpublish(id) => "/outfits/"@ + signed_decimal(id as int) + "/unpublish"@,
    }
}

/// The method of a call.
pub open spec fn call_method(c: ApiCall) -> Method {
    match c {
        ApiCall::Register | ApiCall::Login | ApiCall::CreateOutfit | ApiCall::Publish(_)
        | ApiCall::Unpublish(_) => Method::Post,
        ApiCall::PublicOutfits | ApiCall::MyOutfits => Method::Get,
        ApiCall::UpdateOutfit(_) => Method::Put,
        ApiCall::DeleteOutfit(_) => Method::Delete,
    }
}

/// Whether a call carries the session token: all but registering, logging in
/// and listing the published outfits.
pub open spec fn call_needs_token(c: ApiCall) -> bool {
    !(c is Register || c is Login || c is PublicOutfits)
}

/// The method a call is made with.
pub fn method(c: ApiCall) -> (m: Method)
    ensures
        m == call_method(c),
{
    match c {
        ApiCall::Register | ApiCall::Login | ApiCall::CreateOutfit | ApiCall::Publish(_)
        | ApiCall::Unpublish(_) => Method::Post,
        ApiCall::PublicOutfits | ApiCall::MyOutfits => Method::Get,
        ApiCall::UpdateOutfit(_) => Method::Put,
        ApiCall::DeleteOutfit(_) => Method::Delete,
    }
}

/// Whether a call carries the session token in an `Authorization` header.
pub fn needs_token(c: ApiCall) -> (needed: bool)
    ensures
        needed == call_needs_token(c),
{
    match c {
        ApiCall::Register | ApiCall::Login | ApiCall::PublicOutfits => false,
        _ => true,
    }
}

/// The path of the outfit `id`, with `suffix` after it.
fn outfit_path(id: i64, suffix: &str) -> (path: String)
    ensures
        path@ == "/outfits/"@ + signed_decimal(id as int) + suffix@,
{
    let mut path = String::from_str("/outfits/");
    path.append(signed_decimal_string(id).as_str());
    path.append(suffix);
    path
}

/// The address that a call goes to.
pub fn call_url(c: ApiCall) -> (url: String)
    ensures
        url@ == api_url_text(call_path(c)),
{
    match c {
        ApiCall::Register => api_url("/auth/register"),
        ApiCall::Login => api_url("/auth/login"),
        ApiCall::PublicOutfits => api_url("/outfits"),
        ApiCall::MyOutfits => api_url("/outfits/mine"),
        ApiCall::CreateOutfit => api_url("/outfits"),
        ApiCall::UpdateOutfit(id) => {
            proof {
                reveal_strlit("");
            }
            let path = outfit_path(id, "");
            assert(path@ =~= "/outfits/"@ + signed_decimal(id as int));
            api_url(path.as_str())
        },
        ApiCall::DeleteOutfit(id) => {
            proof {
                reveal_strlit("");
            }
            let path = outfit_path(id, "");
            assert(path@ =~= "/outfits/"@ + signed_decimal(id as int));
            api_url(path.as_str())
        },
        ApiCall::Publish(id) => api_url(outfit_path(id, "/publish").as_str()),
        ApiCall::Unpublish(id) => api_url(outfit_path(id, "/unpublish").as_str()),
    }
}

/// The call that saves the outfit form: an edit of the outfit being edited,
/// else the creation of a draft.
pub fn save_call(editing: Option<i64>) -> (c: ApiCall)
    ensures
        c == match editing {
            Some(id) => ApiCall::UpdateOutfit(id),
            None => ApiCall::CreateOutfit,
        },
{
    match editing {
        Some(id) => ApiCall::UpdateOutfit(id),
        None => ApiCall::CreateOutfit,
    }
}

/// The call behind an outfit's publication button: withdrawing a published
/// outfit, publishing a draft.
pub fn publication_call(id: i64, is_published: bool) -> (c: ApiCall)
    ensures
        c == if is_published {
            ApiCall::Unpublish(id)
        } else {
            ApiCall::Publish(id)
        },
{
    if is_published {
        ApiCall::Unpublish(id)
    } else {
        ApiCall::Publish(id)
    }
}

/// Whether an HTTP status reports success (`200..300`).
pub fn is_success(status: u16) -> (ok: bool)
    ensures
        ok == (200 <= status < 300),
{
    200 <= status && status < 300
}

/// The message shown for a failed request: the status and the reason.
pub open spec fn error_text(status: int, reason: Seq<char>) -> Seq<char> {
    "API вернул HTTP "@ + decimal(status as nat) + ": "@ + reason
}

/// The message shown for a failed request: the `detail` the API sent where
/// there is one, else the status text of the response.
pub fn error_message(status: u16, status_text: &str, detail: Option<&str>) -> (message: String)
    ensures
        message@ == error_text(
            status as int,
            match detail {
                Some(d) => d@,
                None => status_text@,
            },
        ),
{
    let mut message = String::from_str("API вернул HTTP ");
    message.append(decimal_string(status as u64).as_str());
    message.append(": ");
    match detail {
        Some(d) => message.append(d),
        None => message.append(status_text),
    }
    message
}

/// The error that a response answers: none for a successful status; else the
/// message built from the `detail` string field of the JSON body, or from the
/// status text where the body has no such field.
pub fn response_error(status: u16, status_text: &str, body: &str) -> (error: Option<String>)
    ensures
        (200 <= status < 300) <==> error is None,
        error matches Some(m) ==> m@ == error_text(
            status as int,
            match json_string_field_of(body@, "detail"@) {
                Some(d) => d,
                None => status_text@,
            },
        ),
{
    if is_success(status) {
        return None;
    }
    let detail = json_string_field(body, "detail");
    match detail {
        Some(d) => Some(error_message(status, status_text, Some(d.as_str()))),
        None => Some(error_message(status, status_text, None)),
    }
}

/// The number that a signed decimal text denotes.
pub open spec fn signed_value(s: Seq<char>) -> int {
    if s.len() > 0 && s[0] == '-' {
        -decimal_value(s.drop_first())
    } else {
        decimal_value(s)
    }
}

/// A written identifier reads back as the identifier, has at least one
/// character and holds no `/`, so it cannot run into the rest of a path.
pub proof fn lemma_signed_decimal_reads_back(v: int)
    ensures
        signed_value(signed_decimal(v)) == v,
        signed_decimal(v).len() >= 1,
        !signed_decimal(v).contains('/'),
{
    let n: nat = if v < 0 {
        (-v) as nat
    } else {
        v as nat
    };
    lemma_decimal_reads_back(n);
    let d = decimal(n);
    assert('0' <= d[0] <= '9');
    if v < 0 {
        assert((seq!['-'] + d).drop_first() =~= d);
    }
    let s = signed_decimal(v);
    if s.contains('/') {
        let k = choose|k: int| 0 <= k < s.len() && s[k] == '/';
        if v < 0 {
            if k > 0 {
                assert(s[k] == d[k - 1]);
                assert('0' <= d[k - 1] <= '9');
            }
        } else {
            assert('0' <= d[k] <= '9');
        }
    }
}

/// The identifier written between a prefix and a suffix is what lies between them.
proof fn lemma_id_in_path(prefix: Seq<char>, v: int, suffix: Seq<char>)
    ensures
        (prefix + signed_decimal(v) + suffix).subrange(
            prefix.len() as int,
            (prefix + signed_decimal(v) + suffix).len() - suffix.len(),
        ) == signed_decimal(v),
{
    assert((prefix + signed_decimal(v) + suffix).subrange(
        prefix.len() as int,
        (prefix + signed_decimal(v) + suffix).len() - suffix.len(),
    ) =~= signed_decimal(v));
}

/// No two calls share both their method and their address: the address and
/// the method of a request tell which call it is, outfit included.
pub proof fn lemma_calls_are_told_apart(c1: ApiCall, c2: ApiCall)
    requires
        call_method(c1) == call_method(c2),
        api_url_text(call_path(c1)) == api_url_text(call_path(c2)),
    ensures
        c1 == c2,
{
    reveal_strlit("/api");
    reveal_strlit("/auth/register");
    reveal_strlit("/auth/login");
    reveal_strlit("/outfits");
    reveal_strlit("/outfits/mine");
    reveal_strlit("/outfits/");
    reveal_strlit("/publish");
    reveal_strlit("/unpublish");
    let p1 = call_path(c1);
    let p2 = call_path(c2);
    assert(p1 =~= api_url_text(p1).skip(4));
    assert(p2 =~= api_url_text(p2).skip(4));
    assert(p1 == p2);
    let pre = "/outfits/"@;
    let empty = Seq::<char>::empty();
    match c1 {
        ApiCall::UpdateOutfit(a) | ApiCall::DeleteOutfit(a) | ApiCall::Publish(a) | ApiCall::Unpublish(a) => {
            lemma_signed_decimal_reads_back(a as int);
        },
        _ => {},
    }
    match c2 {
        ApiCall::UpdateOutfit(b) | ApiCall::DeleteOutfit(b) | ApiCall::Publish(b) | ApiCall::Unpublish(b) => {
            lemma_signed_decimal_reads_back(b as int);
        },
        _ => {},
    }
    match (c1, c2) {
        (ApiCall::UpdateOutfit(a), ApiCall::UpdateOutfit(b)) | (ApiCall::DeleteOutfit(a), ApiCall::DeleteOutfit(b)) => {
            assert(pre + signed_decimal(a as int) + empty =~= p1);
            assert(pre + signed_decimal(b as int) + empty =~= p2);
            lemma_id_in_path(pre, a as int, empty);
            lemma_id_in_path(pre, b as int, empty);
        },
        (ApiCall::Publish(a), ApiCall::Publish(b)) => {
            lemma_id_in_path(pre, a as int, "/publish"@);
            lemma_id_in_path(pre, b as int, "/publish"@);
        },
        (ApiCall::Unpublish(a), ApiCall::Unpublish(b)) => {
            lemma_id_in_path(pre, a as int, "/unpublish"@);
            lemma_id_in_path(pre, b as int, "/unpublish"@);
        },
        (ApiCall::Publish(a), ApiCall::Unpublish(b)) => {
            assert(p1[p1.len() - 8] == '/');
            assert(p2[p2.len() - 8] == 'n');
        },
        (ApiCall::Unpublish(a), ApiCall::Publish(b)) => {
            assert(p2[p2.len() - 8] == '/');
            assert(p1[p1.len() - 8] == 'n');
        },
        _ => {
            assert(p1.len() == p2.len());
            assert(p1[1] == p2[1]);
        },
    }
}

} // verus!
