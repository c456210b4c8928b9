//! The stable access-token request and response values, and the fluent
//! builder that produces a validated request.

use vstd::prelude::*;

use crate::json::{
    append_quoted, bool_text, expect_literal_at, lemma_parse_bool_of_written,
    lemma_parse_literal_of_written, lemma_parse_quoted_of_written, parse_bool, parse_bool_at,
    parse_literal, parse_number, parse_number_at, parse_quoted, parse_quoted_at, quoted,
};

verus! {

/// A request for a stable access token, immutable once built. Construct it
/// with [`AccessTokenRequestBuilder`] or [`AccessTokenRequest::new`].
#[derive(Debug)]
pub struct AccessTokenRequest {
    /// The grant type of the request; always `client_credential`.
    pub grant_type: String,
    /// The unique identifier of the account (its AppID).
    pub appid: String,
    /// The secret that belongs to the AppID.
    pub secret: String,
    /// `false` asks for the currently valid token; `true` forces the
    /// platform to invalidate the previous token and issue a fresh one.
    pub force_refresh: bool,
}

/// Mathematical image of an [`AccessTokenRequest`]: its four fields over
/// character sequences.
pub struct RequestModel {
    pub grant_type: Seq<char>,
    pub appid: Seq<char>,
    pub secret: Seq<char>,
    pub force_refresh: bool,
}

impl View for AccessTokenRequest {
    type V = RequestModel;

    open spec fn view(&self) -> RequestModel {
        RequestModel {
            grant_type: self.grant_type@,
            appid: self.appid@,
            secret: self.secret@,
            force_refresh: self.force_refresh@,
        }
    }
}

/// How the builder's optional `force_refresh` flag settles into the built
/// request: an absent flag means `false`.
pub open spec fn normalized_force_refresh(flag: Option<bool>) -> bool {
    match flag {
        None => false,
        Some(b) => b,
    }
}

impl AccessTokenRequest {
    /// Build a request in one call: the grant type is fixed to
    /// `client_credential` and an absent `force_refresh` flag becomes
    /// `false`.
    pub fn new(appid: &str, secret: &str, force_refresh: Option<bool>) -> (r: AccessTokenRequest)
        ensures
            r@.grant_type == "client_credential"@,
            r@.appid == appid@,
            r@.secret == secret@,
            r@.force_refresh == normalized_force_refresh(force_refresh),
    {
        AccessTokenRequestBuilder::new()
            .appid(appid)
            .secret(secret)
            .force_refresh(force_refresh)
            .build()
    }
}

/// Fluent builder for [`AccessTokenRequest`]: set `appid`, `secret` and
/// optionally `force_refresh`, then call [`build`](Self::build).
#[derive(Debug)]
pub struct AccessTokenRequestBuilder {
    /// The grant type the built request will carry; fixed to
    /// `client_credential`.
    pub grant_type: String,
    /// The unique identifier of the account (its AppID).
    pub appid: String,
    /// The secret that belongs to the AppID.
    pub secret: String,
    /// The optional refresh flag; an absent value builds to `false`.
    pub force_refresh: Option<bool>,
}

/// Mathematical image of an [`AccessTokenRequestBuilder`].
pub struct BuilderModel {
    pub grant_type: Seq<char>,
    pub appid: Seq<char>,
    pub secret: Seq<char>,
    pub force_refresh: Option<bool>,
}

impl View for AccessTokenRequestBuilder {
    type V = BuilderModel;

    open spec fn view(&self) -> BuilderModel {
        BuilderModel {
            grant_type: self.grant_type@,
            appid: self.appid@,
            secret: self.secret@,
            force_refresh: self.force_refresh,
        }
    }
}

/// The builder a fresh [`AccessTokenRequestBuilder`] starts from: the fixed
/// grant type, empty credentials, and a refresh flag of `Some(false)`.
pub open spec fn initial_builder() -> BuilderModel {
    BuilderModel {
        grant_type: "client_credential"@,
        appid: Seq::<char>::empty(),
        secret: Seq::<char>::empty(),
        force_refresh: Some(false),
    }
}

impl Default for AccessTokenRequestBuilder {
    /// A fresh builder: grant type `client_credential`, empty credentials,
    /// refresh flag `Some(false)`.
    fn default() -> (r: Self)
        ensures
            r@ == initial_builder(),
    {
        AccessTokenRequestBuilder {
            grant_type: String::from_str("client_credential"),
            appid: String::new(),
            secret: String::new(),
            force_refresh: Some(false),
        }
    }
}

impl AccessTokenRequestBuilder {
    /// A fresh builder, identical to [`Default::default`].
    pub fn new() -> (r: Self)
        ensures
            r@ == initial_builder(),
    {
        Self::default()
    }

    /// Set the AppID; every other field is kept.
    pub fn appid(self, appid: &str) -> (r: Self)
        ensures
            r@ == (BuilderModel { appid: appid@, ..self@ }),
    {
        AccessTokenRequestBuilder { appid: String::from_str(appid), ..self }
    }

    /// Set the AppSecret; every other field is kept.
    pub fn secret(self, secret: &str) -> (r: Self)
        ensures
            r@ == (BuilderModel { secret: secret@, ..self@ }),
    {
        AccessTokenRequestBuilder { secret: String::from_str(secret), ..self }
    }

    /// Set the refresh flag; every other field is kept. `None` and
    /// `Some(false)` both build to `false`, `Some(true)` to `true`.
    pub fn force_refresh(self, force_refresh: Option<bool>) -> (r: Self)
        ensures
            r@ == (BuilderModel { force_refresh: force_refresh, ..self@ }),
    {
        AccessTokenRequestBuilder { force_refresh, ..self }
    }

    /// Finalize the builder. Whatever was set, the built request carries
    /// grant type `client_credential`, and the optional refresh flag is
    /// normalized: absent means `false`.
    pub fn build(self) -> (r: AccessTokenRequest)
        ensures
            r@.grant_type == "client_credential"@,
            r@.appid == self@.appid,
            r@.secret == self@.secret,
            r@.force_refresh == normalized_force_refresh(self@.force_refresh),
    {
        AccessTokenRequest {
            grant_type: String::from_str("client_credential"),
            appid: self.appid,
            secret: self.secret,
            force_refresh: match self.force_refresh {
                None => false,
                Some(b) => b,
            },
        }
    }
}

/// A successful answer of the stable access-token endpoint.
#[derive(Debug)]
pub struct AccessTokenResponse {
    /// The issued credential.
    pub access_token: String,
    /// How long the credential stays valid, in seconds. The remote service
    /// promises a value of at most 7200; that bound is not enforced here.
    pub expires_in: usize,
}

/// Mathematical image of an [`AccessTokenResponse`].
pub struct ResponseModel {
    pub access_token: Seq<char>,
    pub expires_in: int,
}

impl View for AccessTokenResponse {
    type V = ResponseModel;

    open spec fn view(&self) -> ResponseModel {
        ResponseModel {
            access_token: self.access_token@,
            expires_in: self.expires_in as int,
        }
    }
}

// ---------------------------------------------------------------------------
// The wire format: how a request is framed as JSON text and how both the
// request and the response are read back from it.
// ---------------------------------------------------------------------------

/// The JSON text a request is framed as: one object with the four fields
/// in a fixed order and no spacing.
pub open spec fn request_json(r: RequestModel) -> Seq<char> {
    "{\"grant_type\":"@ + quoted(r.grant_type) + ",\"appid\":"@ + quoted(r.appid) + ",\"secret\":"@
        + quoted(r.secret) + ",\"force_refresh\":"@ + bool_text(r.force_refresh) + "}"@
}

/// Read a whole request back from JSON text of exactly the framed shape;
/// anything else, or trailing text, is rejected.
pub open spec fn parse_request(s: Seq<char>) -> Option<RequestModel> {
    match parse_literal(s, "{\"grant_type\":"@) {
        None => None,
        Some(s1) => match parse_quoted(s1) {
            None => None,
            Some(grant) => match parse_literal(grant.1, ",\"appid\":"@) {
                None => None,
                Some(s2) => match parse_quoted(s2) {
                    None => None,
                    Some(appid) => match parse_literal(appid.1, ",\"secret\":"@) {
                        None => None,
                        Some(s3) => match parse_quoted(s3) {
                            None => None,
                            Some(secret) => match parse_literal(secret.1, ",\"force_refresh\":"@) {
                                None => None,
                                Some(s4) => match parse_bool(s4) {
                                    None => None,
                                    Some(flag) => match parse_literal(flag.1, "}"@) {
                                        None => None,
                                        Some(s5) => if s5.len() == 0 {
                                            Some(
                                                RequestModel {
                                                    grant_type: grant.0,
                                                    appid: appid.0,
                                                    secret: secret.0,
                                                    force_refresh: flag.0,
                                                },
                                            )
                                        } else {
                                            None
                                        },
                                    },
                                },
                            },
                        },
                    },
                },
            },
        },
    }
}

/// Read a successful answer from JSON text: one object holding the token
/// and the expiry, in that order, with no spacing and no trailing text.
pub open spec fn parse_response(s: Seq<char>) -> Option<ResponseModel> {
    match parse_literal(s, "{\"access_token\":"@) {
        None => None,
        Some(s1) => match parse_quoted(s1) {
            None => None,
            Some(token) => match parse_literal(token.1, ",\"expires_in\":"@) {
                None => None,
                Some(s2) => match parse_number(s2) {
                    None => None,
                    Some(expiry) => match parse_literal(expiry.1, "}"@) {
                        None => None,
                        Some(s3) => if s3.len() == 0 {
                            Some(ResponseModel { access_token: token.0, expires_in: expiry.0 })
                        } else {
                            None
                        },
                    },
                },
            },
        },
    }
}

impl AccessTokenRequest {
    /// Frame the request as the JSON text the endpoint expects.
    pub fn to_json(&self) -> (r: String)
        ensures
            r@ == request_json(self@),
    {
        let mut out = String::new();
        out.append("{\"grant_type\":");
        append_quoted(&mut out, self.grant_type.as_str());
        out.append(",\"appid\":");
        append_quoted(&mut out, self.appid.as_str());
        out.append(",\"secret\":");
        append_quoted(&mut out, self.secret.as_str());
        out.append(",\"force_refresh\":");
        if self.force_refresh {
            out.append("true");
        } else {
            out.append("false");
        }
        out.append("}");
        proof {
            assert(out@ =~= request_json(self@));
        }
        out
    }

    /// Read a request back from JSON text of exactly the framed shape;
    /// anything else yields `None`.
    pub fn from_json(s: &str) -> (r: Option<AccessTokenRequest>)
        ensures
            match r {
                Some(req) => parse_request(s@) == Some(req@),
                None => parse_request(s@) is None,
            },
    {
        proof {
            assert(s@.skip(0) =~= s@);
        }
        let total = s.unicode_len();
        let j1 = match expect_literal_at(s, 0, "{\"grant_type\":") {
            Some(j) => j,
            None => {
                return None;
            },
        };
        let (grant_type, j2) = match parse_quoted_at(s, j1) {
            Some(p) => p,
            None => {
                return None;
            },
        };
        let j3 = match expect_literal_at(s, j2, ",\"appid\":") {
            Some(j) => j,
            None => {
                return None;
            },
        };
        let (appid, j4) = match parse_quoted_at(s, j3) {
            Some(p) => p,
            None => {
                return None;
            },
        };
        let j5 = match expect_literal_at(s, j4, ",\"secret\":") {
            Some(j) => j,
            None => {
                return None;
            },
        };
        let (secret, j6) = match parse_quoted_at(s, j5) {
            Some(p) => p,
            None => {
                return None;
            },
        };
        let j7 = match expect_literal_at(s, j6, ",\"force_refresh\":") {
            Some(j) => j,
            None => {
                return None;
            },
        };
        let (force_refresh, j8) = match parse_bool_at(s, j7) {
            Some(p) => p,
            None => {
                return None;
            },
        };
        let j9 = match expect_literal_at(s, j8, "}") {
            Some(j) => j,
            None => {
                return None;
            },
        };
        if j9 != total {
            proof {
                assert(s@.skip(j9 as int).len() != 0);
            }
            return None;
        }
        proof {
            assert(s@.skip(j9 as int).len() == 0);
        }
        Some(AccessTokenRequest { grant_type, appid, secret, force_refresh })
    }
}

impl AccessTokenResponse {
    /// Decode a successful answer from JSON text of exactly the expected
    /// shape; anything else yields `None`.
    pub fn from_json(s: &str) -> (r: Option<AccessTokenResponse>)
        ensures
            match r {
                Some(resp) => parse_response(s@) == Some(resp@),
                None => parse_response(s@) is None,
            },
    {
        proof {
            assert(s@.skip(0) =~= s@);
        }
        let total = s.unicode_len();
        let j1 = match expect_literal_at(s, 0, "{\"access_token\":") {
            Some(j) => j,
            None => {
                return None;
            },
        };
        let (access_token, j2) = match parse_quoted_at(s, j1) {
            Some(p) => p,
            None => {
                return None;
            },
        };
        let j3 = match expect_literal_at(s, j2, ",\"expires_in\":") {
            Some(j) => j,
            None => {
                return None;
            },
        };
        let (expires_in, j4) = match parse_number_at(s, j3) {
            Some(p) => p,
            None => {
                return None;
            },
        };
        let j5 = match expect_literal_at(s, j4, "}") {
            Some(j) => j,
            None => {
                return None;
            },
        };
        if j5 != total {
            proof {
                assert(s@.skip(j5 as int).len() != 0);
            }
            return None;
        }
        proof {
            assert(s@.skip(j5 as int).len() == 0);
        }
        Some(AccessTokenResponse { access_token, expires_in })
    }
}

/// Setting the refresh flag on any builder and building normalizes it:
/// the built request carries `true` exactly when the flag was set to
/// `Some(true)` — both an absent flag and `Some(false)` build to `false`.
pub proof fn lemma_force_refresh_normalized(b: BuilderModel, flag: Option<bool>)
    ensures
        normalized_force_refresh(
            (BuilderModel { force_refresh: flag, ..b }).force_refresh,
        ) == (flag == Some(true)),
{
}

/// Framing a request and reading the text back yields the same four
/// fields with the same values, whatever they were.
pub proof fn lemma_request_json_round_trip(r: RequestModel)
    ensures
        parse_request(request_json(r)) == Some(r),
{
    let l1 = "{\"grant_type\":"@;
    let l2 = ",\"appid\":"@;
    let l3 = ",\"secret\":"@;
    let l4 = ",\"force_refresh\":"@;
    let l5 = "}"@;
    let rest1 = quoted(r.grant_type) + (l2 + (quoted(r.appid) + (l3 + (quoted(r.secret) + (l4 + (
    bool_text(r.force_refresh) + l5))))));
    assert(request_json(r) =~= l1 + rest1);
    lemma_parse_literal_of_written(l1, rest1);
    let rest2 = l2 + (quoted(r.appid) + (l3 + (quoted(r.secret) + (l4 + (bool_text(
        r.force_refresh,
    ) + l5)))));
    assert(rest1 =~= quoted(r.grant_type) + rest2);
    lemma_parse_quoted_of_written(r.grant_type, rest2);
    let rest3 = quoted(r.appid) + (l3 + (quoted(r.secret) + (l4 + (bool_text(r.force_refresh)
        + l5))));
    assert(rest2 =~= l2 + rest3);
    lemma_parse_literal_of_written(l2, rest3);
    let rest4 = l3 + (quoted(r.secret) + (l4 + (bool_text(r.force_refresh) + l5)));
    assert(rest3 =~= quoted(r.appid) + rest4);
    lemma_parse_quoted_of_written(r.appid, rest4);
    let rest5 = quoted(r.secret) + (l4 + (bool_text(r.force_refresh) + l5));
    assert(rest4 =~= l3 + rest5);
    lemma_parse_literal_of_written(l3, rest5);
    let rest6 = l4 + (bool_text(r.force_refresh) + l5);
    assert(rest5 =~= quoted(r.secret) + rest6);
    lemma_parse_quoted_of_written(r.secret, rest6);
    let rest7 = bool_text(r.force_refresh) + l5;
    assert(rest6 =~= l4 + rest7);
    lemma_parse_literal_of_written(l4, rest7);
    lemma_parse_bool_of_written(r.force_refresh, l5);
    lemma_parse_literal_of_written(l5, Seq::<char>::empty());
    assert(l5 + Seq::<char>::empty() =~= l5);
    assert(parse_request(request_json(r)) == Some(
        RequestModel {
            grant_type: r.grant_type,
            appid: r.appid,
            secret: r.secret,
            force_refresh: r.force_refresh,
        },
    ));
    assert((RequestModel {
        grant_type: r.grant_type,
        appid: r.appid,
        secret: r.secret,
        force_refresh: r.force_refresh,
    }) == r);
}

} // verus!
