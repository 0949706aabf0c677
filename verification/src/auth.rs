//! The authentication endpoints: completing the OAuth callback, resolving
//! a token from the lookup path, and extracting a credential from a
//! request header.
//!
//! The callback decision is split at the storage boundary: first
//! [`handle_callback_request`] parses the request and prepares the INSERT
//! that persists the user, then the surrounding program executes that
//! statement, and [`handle_callback_complete`] turns the outcome into the
//! minted token and the redirect response.

use vstd::prelude::*;
use vstd::string::StrSliceExecFns;
use vstd::string::StringExecFns;
use vstd::string::StringExecFnsIsAscii;
use vstd::utf8::is_ascii_chars;
use crate::error::Error;
use crate::http::{bad_request, ok_response, redirect, header_lookup, redirect_body, HttpRequest,
    HttpResponse};
use crate::query::{insert_row_statement, insert_sql};
use crate::routes::RouteTable;
use crate::session::SessionStore;
use crate::sqlval::{row_lookup, RowEntry, SqlStatement, SqlValue, SqlValueAbs};
use crate::strkit::remove_prefix;
use crate::types::{ObjectType, Type, TypeRegistry, OAUTHUSER_TYPE_NAME};

verus! {

/// Whether `c` is a hexadecimal digit as a `%XX` escape accepts it.
pub open spec fn is_hex_char(c: char) -> bool {
    ('0' <= c && c <= '9') || ('a' <= c && c <= 'f') || ('A' <= c && c <= 'F')
}

/// The value of one hexadecimal digit.
pub open spec fn hex_char_value(c: char) -> int {
    if '0' <= c && c <= '9' {
        c as int - '0' as int
    } else if 'a' <= c && c <= 'f' {
        c as int - 'a' as int + 10
    } else {
        c as int - 'A' as int + 10
    }
}

/// Whether every `%` in `s` begins a complete two-digit escape.  Decoding
/// is defined only for such strings.
pub open spec fn percent_wellformed(s: Seq<char>) -> bool {
    forall|i: int|
        0 <= i < s.len() && #[trigger] s[i] == '%' ==> i + 2 < s.len() && is_hex_char(s[i + 1])
            && is_hex_char(s[i + 2])
}

/// The URL-decoding of `s`: each `%XX` escape becomes the character with
/// code `XX`, every other character is copied.
pub open spec fn url_decoded(s: Seq<char>) -> Seq<char>
    decreases s.len(),
{
    if s.len() == 0 {
        Seq::empty()
    } else if s[0] == '%' && s.len() >= 3 && is_hex_char(s[1]) && is_hex_char(s[2]) {
        seq![((hex_char_value(s[1]) * 16 + hex_char_value(s[2])) as u8) as char] + url_decoded(
            s.skip(3),
        )
    } else {
        seq![s[0]] + url_decoded(s.skip(1))
    }
}

/// Relies on urldecode::decode: each `%XX` escape becomes the character
/// with code `XX` and every other character is copied, so the result is a
/// function of the characters alone.  The crate indexes by byte count and
/// unwraps every escape, so it returns only on ASCII input whose every
/// `%` completes an escape; other inputs are excluded here.
#[verifier::external_body]
fn url_decode(s: &str) -> (r: String)
    requires
        is_ascii_chars(s@),
        percent_wellformed(s@),
    ensures
        r@ == url_decoded(s@),
{
    urldecode::decode(s.to_string())
}

/// Tests whether `c` is a hexadecimal digit.
fn is_hex_digit(c: char) -> (b: bool)
    ensures
        b == is_hex_char(c),
{
    ('0' <= c && c <= '9') || ('a' <= c && c <= 'f') || ('A' <= c && c <= 'F')
}

/// Tests whether every `%` in `s` begins a complete two-digit escape.
fn percent_ok(s: &str) -> (b: bool)
    ensures
        b == percent_wellformed(s@),
{
    let n: usize = s.unicode_len();
    let mut i: usize = 0;
    while i < n
        invariant
            i <= n,
            n == s@.len(),
            forall|j: int|
                0 <= j < i && #[trigger] s@[j] == '%' ==> j + 2 < s@.len() && is_hex_char(
                    s@[j + 1],
                ) && is_hex_char(s@[j + 2]),
        decreases n - i,
    {
        if s.get_char(i) == '%' {
            if n - i <= 2 {
                proof {
                    assert(!percent_wellformed(s@)) by {
                        if percent_wellformed(s@) {
                            assert(i + 2 < s@.len() && is_hex_char(s@[i as int + 1])
                                && is_hex_char(s@[i as int + 2]));
                        }
                    }
                }
                return false;
            }
            if !is_hex_digit(s.get_char(i + 1)) || !is_hex_digit(s.get_char(i + 2)) {
                proof {
                    assert(!percent_wellformed(s@)) by {
                        if percent_wellformed(s@) {
                            assert(i + 2 < s@.len() && is_hex_char(s@[i as int + 1])
                                && is_hex_char(s@[i as int + 2]));
                        }
                    }
                }
                return false;
            }
        }
        i = i + 1;
    }
    true
}

/// Resolves the built-in user entity's object type from the registry;
/// fails with `TypeNotFound` when the name is unknown or names a type
/// that is not object-shaped.
pub fn get_oauth_user_type<'a>(registry: &'a TypeRegistry) -> (r: Result<&'a ObjectType, Error>)
    ensures
        r is Ok <==> (registry@.contains_key("OAuthUser"@) && registry@["OAuthUser"@] matches Type::Object(_)),
        r matches Ok(ot) ==> registry@["OAuthUser"@] == Type::Object(*ot),
        r is Err ==> r->Err_0 == Error::TypeNotFound,
{
    match registry.lookup_type(OAUTHUSER_TYPE_NAME) {
        Ok(t) => match t {
            Type::Object(ot) => Ok(ot),
            _ => Err(Error::TypeNotFound),
        },
        Err(_) => Err(Error::TypeNotFound),
    }
}

/// What the callback handler decided before storage is involved.
pub enum CallbackStep {
    /// The request is answered directly, without touching storage.
    Respond(HttpResponse),
    /// `statement` must be executed to persist `username`; the outcome
    /// goes to [`handle_callback_complete`].
    InsertUser { username: String, statement: SqlStatement },
}

/// Parses the OAuth callback request and prepares the INSERT persisting
/// the new user.  A missing query string, a query not starting with the
/// `user=` key, an empty value, and a value decoding cannot accept are
/// each answered with a 400 response; an unknown or non-object user type
/// is `TypeNotFound`; a user type without a `username` field is
/// `SchemaMismatch`.
pub fn handle_callback_request(registry: &TypeRegistry, req: &HttpRequest) -> (r: Result<
    CallbackStep,
    Error,
>)
    ensures
        req.query is None ==> (r matches Ok(CallbackStep::Respond(resp)) && resp.status == 400
            && resp.body@ == "Callback error: parameter missing"@ + "\n"@),
        req.query matches Some(q) ==> ({
            let rest = q@.skip("user="@.len() as int);
            &&& !"user="@.is_prefix_of(q@) ==> (r matches Ok(CallbackStep::Respond(resp))
                && resp.status == 400 && resp.body@ == "Callback error: parameter value missing"@
                + "\n"@)
            &&& ("user="@.is_prefix_of(q@) && rest.len() == 0) ==> (r matches Ok(
                CallbackStep::Respond(resp),
            ) && resp.status == 400 && resp.body@ == "Callback error: parameter value empty"@
                + "\n"@)
            &&& ("user="@.is_prefix_of(q@) && rest.len() > 0 && !(is_ascii_chars(rest)
                && percent_wellformed(rest))) ==> (r matches Ok(CallbackStep::Respond(resp))
                && resp.status == 400 && resp.body@
                == "Callback error: parameter value malformed"@ + "\n"@)
            &&& ("user="@.is_prefix_of(q@) && rest.len() > 0 && is_ascii_chars(rest)
                && percent_wellformed(rest)) ==> ({
                let u = url_decoded(rest);
                &&& !(registry@.contains_key("OAuthUser"@) && registry@["OAuthUser"@] matches Type::Object(_))
                    ==> (r matches Err(e) && e == Error::TypeNotFound)
                &&& registry@.contains_key("OAuthUser"@) ==> (registry@["OAuthUser"@] matches Type::Object(ot)
                    ==> ({
                    &&& !ot.spec_has_field("username"@) ==> (r matches Err(e) && e
                        == Error::SchemaMismatch)
                    &&& ot.spec_has_field("username"@) ==> (r matches Ok(
                        CallbackStep::InsertUser { username, statement },
                    ) && username@ == u && (statement.sql@ == insert_sql(
                        ot.backing_table@,
                        seq!["username"@],
                    ) && statement.args@.len() == 1 && statement.args@[0]@ == SqlValueAbs::Text(
                        u,
                    )))
                }))
            })
        }),
{
    let q = match &req.query {
        None => {
            return Ok(CallbackStep::Respond(bad_request("Callback error: parameter missing")));
        },
        Some(q) => q,
    };
    let rest = match remove_prefix(q.as_str(), "user=") {
        None => {
            return Ok(
                CallbackStep::Respond(bad_request("Callback error: parameter value missing")),
            );
        },
        Some(rest) => rest,
    };
    if rest.as_str().is_empty() {
        return Ok(CallbackStep::Respond(bad_request("Callback error: parameter value empty")));
    }
    if !rest.is_ascii() || !percent_ok(rest.as_str()) {
        return Ok(CallbackStep::Respond(bad_request("Callback error: parameter value malformed")));
    }
    let username = url_decode(rest.as_str());
    let ot = match get_oauth_user_type(registry) {
        Ok(ot) => ot,
        Err(e) => {
            return Err(e);
        },
    };
    let mut values: Vec<RowEntry> = Vec::new();
    values.push(
        RowEntry { column: String::from_str("username"), value: SqlValue::Text(username.clone()) },
    );
    match insert_row_statement(ot, &values) {
        Ok(statement) => {
            proof {
                assert(crate::query::columns_of(values@) =~= seq!["username"@]);
            }
            Ok(CallbackStep::InsertUser { username, statement })
        },
        Err(e) => {
            assert(!ot.spec_has_field("username"@)) by {
                assert(values@[0].column@ == "username"@);
            }
            Err(e)
        },
    }
}

/// Turns the outcome of executing the prepared INSERT into the callback's
/// response: a storage failure propagates; on success a token is minted
/// for `username` and the response redirects to the profile page with the
/// token carried in the `chiselstrike_token` query parameter.
pub fn handle_callback_complete(
    store: &mut SessionStore,
    username: &str,
    insert_outcome: Result<(), String>,
) -> (r: Result<HttpResponse, Error>)
    requires
        old(store).wf(),
    ensures
        final(store).wf(),
        insert_outcome matches Err(m) ==> ({
            &&& *final(store) == *old(store)
            &&& r matches Err(e) && (e matches Error::StorageError(s) && s@ == m@)
        }),
        insert_outcome is Ok ==> ({
            &&& (old(store).spec_remaining() > 0 <==> r is Ok)
            &&& r is Err ==> (*final(store) == *old(store) && r->Err_0 matches Error::StorageError(
                _,
            ))
            &&& r matches Ok(resp) ==> ({
                let prefix = "http://localhost:3000/profile?chiselstrike_token="@;
                let loc = resp.headers@[0].value@;
                let t = loc.skip(prefix.len() as int);
                &&& resp.status == 307
                &&& resp.headers@.len() == 1
                &&& resp.headers@[0].name@ == "Location"@
                &&& loc.len() == prefix.len() + 48
                &&& loc.subrange(0, prefix.len() as int) == prefix
                &&& !old(store)@.contains_key(t)
                &&& final(store)@ == old(store)@.insert(t, username@)
                &&& resp.body@ == redirect_body(loc)
            })
        }),
{
    match insert_outcome {
        Err(m) => Err(Error::StorageError(m)),
        Ok(()) => {
            match store.new_session_token(username) {
                Err(e) => Err(e),
                Ok(token) => {
                    let mut link = String::from_str(
                        "http://localhost:3000/profile?chiselstrike_token=",
                    );
                    link.append(token.as_str());
                    let resp = redirect(link.as_str());
                    proof {
                        let prefix = "http://localhost:3000/profile?chiselstrike_token="@;
                        assert(link@.skip(prefix.len() as int) =~= token@);
                        assert(link@.subrange(0, prefix.len() as int) =~= prefix);
                    }
                    Ok(resp)
                },
            }
        },
    }
}

/// Serves the token-lookup path: strips the fixed prefix from the request
/// path to obtain the token, resolves it, and answers with the username
/// as a plain-text body.  A path without the prefix is a `MalformedRequest`;
/// an unminted token's `TokenNotFound` propagates.
pub fn lookup_user(store: &SessionStore, req: &HttpRequest) -> (r: Result<HttpResponse, Error>)
    requires
        store.wf(),
    ensures
        !"/__chiselstrike/auth/user/"@.is_prefix_of(req.path@) ==> (r matches Err(e) && e
            == Error::MalformedRequest),
        "/__chiselstrike/auth/user/"@.is_prefix_of(req.path@) ==> ({
            let t = req.path@.skip("/__chiselstrike/auth/user/"@.len() as int);
            &&& (r is Ok <==> store@.contains_key(t))
            &&& r matches Ok(resp) ==> (resp.status == 200 && resp.body@ == store@[t]
                && resp.headers@.len() == 0)
            &&& !store@.contains_key(t) ==> (r matches Err(e) && e == Error::TokenNotFound)
        }),
{
    let token = match remove_prefix(req.path.as_str(), "/__chiselstrike/auth/user/") {
        None => {
            return Err(Error::MalformedRequest);
        },
        Some(token) => token,
    };
    match store.get_username(token.as_str()) {
        Ok(username) => Ok(ok_response(username)),
        Err(e) => Err(e),
    }
}

/// Extracts the credential an arbitrary handler may rely on: reads the
/// `ChiselStrikeToken` header and resolves it.  A missing header is
/// anonymous access, not an error, and a token that does not resolve is
/// deliberately treated the same way.
pub fn get_username(store: &SessionStore, req: &HttpRequest) -> (r: Option<String>)
    requires
        store.wf(),
    ensures
        header_lookup(req.headers@, "ChiselStrikeToken"@) is None ==> r is None,
        header_lookup(req.headers@, "ChiselStrikeToken"@) matches Some(t) ==> ({
            &&& (r is Some <==> store@.contains_key(t))
            &&& r matches Some(u) ==> u@ == store@[t]
        }),
{
    match req.header("ChiselStrikeToken") {
        None => None,
        Some(token) => match store.get_username(token.as_str()) {
            Ok(username) => Some(username),
            Err(_) => None,
        },
    }
}

/// The two system handlers the routing layer can select.
#[derive(Debug, Clone, Copy, PartialEq, Eq, Structural)]
pub enum HandlerKind {
    Callback,
    LookupUser,
}

/// Registers the authentication endpoints: the exact callback path and
/// the token-lookup prefix.  Fails with `RouteConflict`, adding nothing,
/// if either path is already taken.
pub fn init(api: &mut RouteTable<HandlerKind>) -> (r: Result<(), Error>)
    requires
        old(api).wf(),
    ensures
        final(api).wf(),
        r is Ok <==> ({
            &&& !(exists|i: int|
                0 <= i < old(api).routes@.len() && #[trigger] old(api).routes@[i].path@
                    == "/__chiselstrike/auth/callback"@)
            &&& !(exists|i: int|
                0 <= i < old(api).routes@.len() && #[trigger] old(api).routes@[i].path@
                    == "/__chiselstrike/auth/user/"@)
        }),
        r is Ok ==> ({
            let n = old(api).routes@.len() as int;
            &&& final(api).routes@.len() == n + 2
            &&& final(api).routes@[n].path@ == "/__chiselstrike/auth/callback"@
            &&& final(api).routes@[n].handler == HandlerKind::Callback
            &&& final(api).routes@[n + 1].path@ == "/__chiselstrike/auth/user/"@
            &&& final(api).routes@[n + 1].handler == HandlerKind::LookupUser
            &&& forall|i: int| 0 <= i < n ==> final(api).routes@[i] == old(api).routes@[i]
        }),
        r is Err ==> (*final(api) == *old(api) && r->Err_0 == Error::RouteConflict),
{
    if api.has_route("/__chiselstrike/auth/callback") || api.has_route(
        "/__chiselstrike/auth/user/",
    ) {
        return Err(Error::RouteConflict);
    }
    proof {
        reveal_strlit("/__chiselstrike/auth/callback");
        reveal_strlit("/__chiselstrike/auth/user/");
        assert("/__chiselstrike/auth/callback"@.len() != "/__chiselstrike/auth/user/"@.len());
    }
    let r1 = api.add_route(
        String::from_str("/__chiselstrike/auth/callback"),
        HandlerKind::Callback,
    );
    assert(r1 is Ok);
    let r2 = api.add_route(String::from_str("/__chiselstrike/auth/user/"), HandlerKind::LookupUser);
    assert(r2 is Ok);
    Ok(())
}

/// Builds the parameterized read resolving the built-in user's row
/// identifier from a username; the surrounding program executes it and
/// classifies the rows with [`crate::query::fetch_one`].
pub fn user_id_query(registry: &TypeRegistry, username: &str) -> (r: Result<SqlStatement, Error>)
    ensures
        r is Ok <==> (registry@.contains_key("OAuthUser"@) && registry@["OAuthUser"@] matches Type::Object(_)),
        r matches Ok(stmt) ==> (registry@["OAuthUser"@] matches Type::Object(ot) && (stmt.sql@
            == "SELECT id FROM "@ + ot.backing_table@ + " WHERE username=$1"@ && stmt.args@.len()
            == 1 && stmt.args@[0]@ == SqlValueAbs::Text(username@))),
        r is Err ==> r->Err_0 == Error::TypeNotFound,
{
    let ot = match get_oauth_user_type(registry) {
        Ok(ot) => ot,
        Err(e) => {
            return Err(e);
        },
    };
    let mut sql = String::from_str("SELECT id FROM ");
    sql.append(ot.backing_table.as_str());
    sql.append(" WHERE username=$1");
    let mut args: Vec<SqlValue> = Vec::new();
    args.push(SqlValue::Text(String::from_str(username)));
    Ok(SqlStatement { sql, args })
}

/// Reads the `id` column out of the row a user-id query returned; fails
/// with `NotFound` when the column is absent or does not hold text.
pub fn user_id_from_row(row: &Vec<RowEntry>) -> (r: Result<String, Error>)
    ensures
        r is Ok <==> (row_lookup(row@, "id"@) matches Some(v) && v matches SqlValueAbs::Text(_)),
        r matches Ok(u) ==> row_lookup(row@, "id"@) == Some(SqlValueAbs::Text(u@)),
        r is Err ==> r->Err_0 == Error::NotFound,
{
    match crate::sqlval::row_get(row, "id") {
        Some(v) => match v {
            SqlValue::Text(s) => Ok(s.clone()),
            _ => Err(Error::NotFound),
        },
        None => Err(Error::NotFound),
    }
}

} // verus!
