//! What the HTTP front end decides: who may call, which store operation a
//! request stands for, and how an outcome is reported.
//!
//! Reading requests and writing responses is left to the server that this
//! module is used from.

use vstd::prelude::*;
use vstd::string::*;
use crate::error::RegistryError;
use crate::json::{json_parse, parse, Json, JsonView};
use crate::normalize::malformed_metadata;
use crate::payload::{CratesPayload, LEN_PREFIX};
use crate::storage::{spec_down_crate, spec_get_crate, spec_save_crate, Step, Storage};
use crate::store::{Request, RequestView};

verus! {

/// What the handlers share: the token that callers must present, if any,
/// and the public address of the registry.
#[derive(Debug, PartialEq)]
pub struct HttpContext {
    pub authorization: Option<String>,
    pub endpoint: String,
}

/// The value of a request's `Authorization` header.
#[derive(Debug, PartialEq)]
pub struct AuthToken(pub String);

/// The registry's configuration as clients fetch it.
#[derive(Debug, PartialEq)]
pub struct GetConfigRes {
    /// Where archives are downloaded from.
    pub dl: String,
    /// Where the API is served.
    pub api: String,
    /// Whether requests must carry a token.
    pub auth_required: bool,
}

/// A response that turns a request down: a status and a plain text.
#[derive(Debug, PartialEq)]
pub struct Refusal {
    pub status: u16,
    pub message: String,
}

/// The status of a request that lacks the right token.
pub const UNAUTHORIZED: u16 = 401;

/// A [`Refusal`] by content.
pub struct RefusalView {
    pub status: u16,
    pub message: Seq<char>,
}

impl Refusal {
    pub open spec fn view(&self) -> RefusalView {
        RefusalView { status: self.status, message: self.message@ }
    }
}

/// The refusal that reports an error of the registry.
pub open spec fn spec_refusal_of(e: RegistryError) -> RefusalView {
    RefusalView { status: e.spec_status_code(), message: e.spec_message() }
}

/// The refusal of a request without an `Authorization` header.
pub open spec fn missing_authorization() -> RefusalView {
    RefusalView { status: UNAUTHORIZED, message: "Missing AUTHORIZATION"@ }
}

/// The refusal of a request whose token is not the configured one.
pub open spec fn not_permitted() -> RefusalView {
    RefusalView { status: UNAUTHORIZED, message: "No permissioned"@ }
}

/// A token is accepted where none is configured, or where it is the
/// configured one.
pub open spec fn spec_permits(authorization: Option<String>, token: Seq<char>) -> bool {
    match authorization {
        Some(required) => required@ == token,
        None => true,
    }
}

/// Reports an error of the registry.
pub fn refusal_of(e: RegistryError) -> (refusal: Refusal)
    ensures
        refusal@ == spec_refusal_of(e),
{
    Refusal { status: e.status_code(), message: e.message() }
}

impl AuthToken {
    /// Takes the token from the `Authorization` header, which must be
    /// there.
    pub fn from_header(header: Option<String>) -> (token: Result<AuthToken, Refusal>)
        ensures
            match token {
                Ok(t) => header == Some(t.0),
                Err(refusal) => header is None && refusal@ == missing_authorization(),
            },
    {
        match header {
            Some(value) => Ok(AuthToken(value)),
            None => Err(
                Refusal {
                    status: UNAUTHORIZED,
                    message: String::from_str("Missing AUTHORIZATION"),
                },
            ),
        }
    }
}

impl HttpContext {
    /// Lets a request pass if its token is accepted.
    pub fn authorize(&self, token: &AuthToken) -> (pass: Result<(), Refusal>)
        ensures
            match pass {
                Ok(_) => spec_permits(self.authorization, token.0@),
                Err(refusal) => !spec_permits(self.authorization, token.0@) && refusal@
                    == not_permitted(),
            },
    {
        let permitted = match &self.authorization {
            Some(required) => *required == token.0,
            None => true,
        };
        if permitted {
            Ok(())
        } else {
            Err(Refusal { status: UNAUTHORIZED, message: String::from_str("No permissioned") })
        }
    }
}

/// The configuration that clients fetch: archives are downloaded from
/// `<endpoint>/index`, the API is served at the endpoint, and a token is
/// required exactly when one is configured.
pub fn get_config(ctx: &HttpContext) -> (config: GetConfigRes)
    ensures
        config.dl@ == ctx.endpoint@ + "/index"@,
        config.api@ == ctx.endpoint@,
        config.auth_required == ctx.authorization is Some,
{
    let mut dl = ctx.endpoint.clone();
    dl.append("/index");
    GetConfigRes { dl, api: ctx.endpoint.clone(), auth_required: ctx.authorization.is_some() }
}

/// The name and version that a metadata record is published under: the
/// strings of its `name` and `vers` members.
pub open spec fn spec_identity(doc: JsonView) -> Option<(Seq<char>, Seq<char>)> {
    match doc {
        JsonView::Object(members) => if members.contains_key("name"@)
            && members["name"@] is Str && members.contains_key("vers"@)
            && members["vers"@] is Str {
            Some((members["name"@]->Str_0, members["vers"@]->Str_0))
        } else {
            None
        },
        _ => None,
    }
}

/// Reads name and version from a parsed metadata record.
pub fn identity_of(doc: &Json) -> (identity: Option<(String, String)>)
    ensures
        match identity {
            Some((name, vers)) => spec_identity(doc@) == Some((name@, vers@)),
            None => spec_identity(doc@) is None,
        },
{
    let name = match doc.get("name") {
        Some(Json::Str(name)) => name.clone(),
        _ => {
            return None;
        },
    };
    let vers = match doc.get("vers") {
        Some(Json::Str(vers)) => vers.clone(),
        _ => {
            return None;
        },
    };
    Some((name, vers))
}

/// Handles a request for the ledger of package `pkg`: the read to perform,
/// or the refusal to answer with.
pub fn get_pkg(ctx: &HttpContext, token: &AuthToken, pkg: &str) -> (next: Result<Request, Refusal>)
    ensures
        match next {
            Ok(request) => spec_permits(ctx.authorization, token.0@) && spec_get_crate(pkg@)
                == Ok::<RequestView, RegistryError>(request@),
            Err(refusal) => if !spec_permits(ctx.authorization, token.0@) {
                refusal@ == not_permitted()
            } else {
                spec_get_crate(pkg@) matches Err(e) && refusal@ == spec_refusal_of(e)
            },
        },
{
    match ctx.authorize(token) {
        Err(refusal) => Err(refusal),
        Ok(_) => match Storage::get_crate(pkg) {
            Ok(request) => Ok(request),
            Err(e) => Err(refusal_of(e)),
        },
    }
}

/// Handles a request for the archive of version `ver` of package `pkg`: the
/// read to perform, or the refusal to answer with.
pub fn down_pkg(ctx: &HttpContext, token: &AuthToken, pkg: &str, ver: &str) -> (next: Result<
    Request,
    Refusal,
>)
    ensures
        match next {
            Ok(request) => spec_permits(ctx.authorization, token.0@) && spec_down_crate(pkg@, ver@)
                == Ok::<RequestView, RegistryError>(request@),
            Err(refusal) => if !spec_permits(ctx.authorization, token.0@) {
                refusal@ == not_permitted()
            } else {
                spec_down_crate(pkg@, ver@) matches Err(e) && refusal@ == spec_refusal_of(e)
            },
        },
{
    match ctx.authorize(token) {
        Err(refusal) => Err(refusal),
        Ok(_) => match Storage::down_crate(pkg, ver) {
            Ok(request) => Ok(request),
            Err(e) => Err(refusal_of(e)),
        },
    }
}

/// Handles a publish request whose body has been decoded: the first step of
/// the publish, under the name and version that the metadata gives, or the
/// refusal to answer with.
pub fn create_pkg(ctx: &HttpContext, token: &AuthToken, payload: CratesPayload) -> (next: Result<
    Step,
    Refusal,
>)
    ensures
        match next {
            Ok(step) => {
                &&& spec_permits(ctx.authorization, token.0@)
                &&& json_parse(payload.meta_buf@) matches Some(doc)
                &&& spec_identity(doc) matches Some((name, vers))
                &&& step@ == spec_save_crate(name, vers, payload.meta_buf@, payload.crate_buf@)
            },
            Err(refusal) => if !spec_permits(ctx.authorization, token.0@) {
                refusal@ == not_permitted()
            } else {
                &&& !(json_parse(payload.meta_buf@) matches Some(doc) && spec_identity(doc) is Some)
                &&& refusal@ == spec_refusal_of(malformed_metadata())
            },
        },
{
    match ctx.authorize(token) {
        Err(refusal) => {
            return Err(refusal);
        },
        Ok(_) => {},
    }
    let identity = match parse(payload.meta_buf.as_slice()) {
        Some(doc) => identity_of(&doc),
        None => None,
    };
    match identity {
        Some((name, vers)) => Ok(
            Storage::save_crate(name.as_str(), vers.as_str(), payload.meta_buf, payload.crate_buf),
        ),
        None => Err(refusal_of(RegistryError::MalformedPayload { offset: LEN_PREFIX })),
    }
}

} // verus!
