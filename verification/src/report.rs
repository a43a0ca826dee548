//! Credentials, the request that reports one status, and how the answer to
//! such a request is judged.

use vstd::prelude::*;
use vstd::string::StringExecFns;

verus! {

/// Why no credentials could be made.
#[derive(Debug, Clone, Copy, PartialEq, Eq)]
pub enum CredentialsError {
    /// No server address was given, or an empty one.
    MissingServer,
    /// A server address was given, but no token, or an empty one.
    MissingToken,
}

/// Where reports go and the token that authorises them. Both are non-empty.
pub struct Credentials {
    server: String,
    token: String,
}

/// What `Credentials` hold, as plain text.
pub struct CredentialsView {
    pub server: Seq<char>,
    pub token: Seq<char>,
}

impl View for Credentials {
    type V = CredentialsView;

    closed spec fn view(&self) -> CredentialsView {
        CredentialsView { server: self.server@, token: self.token@ }
    }
}

/// Whether a setting is unusable: not given, or given empty.
pub open spec fn absent(setting: Option<Seq<char>>) -> bool {
    match setting {
        Some(text) => text.len() == 0,
        None => true,
    }
}

/// The text of an optional setting.
pub open spec fn setting_text(setting: Option<String>) -> Option<Seq<char>> {
    match setting {
        Some(text) => Some(text@),
        None => None,
    }
}

/// One report: an HTTP POST to `url`, with `authorization` as the value of
/// the `Authorization` header and `body` as the raw request body.
#[derive(Debug, Clone, PartialEq, Eq)]
pub struct ReportRequest {
    pub url: String,
    pub authorization: String,
    pub body: String,
}

/// What a `ReportRequest` holds, as plain text.
pub struct RequestView {
    pub url: Seq<char>,
    pub authorization: Seq<char>,
    pub body: Seq<char>,
}

impl View for ReportRequest {
    type V = RequestView;

    open spec fn view(&self) -> RequestView {
        RequestView { url: self.url@, authorization: self.authorization@, body: self.body@ }
    }
}

/// The request that reports `description` with the given credentials: the
/// server's address as it stands, the token behind `Bearer` and one space,
/// and the description as it stands.
pub open spec fn request_for(credentials: CredentialsView, description: Seq<char>) -> RequestView {
    RequestView {
        url: credentials.server,
        authorization: "Bearer "@ + credentials.token,
        body: description,
    }
}

impl Credentials {
    #[verifier::type_invariant]
    closed spec fn both_given(&self) -> bool {
        self.server@.len() > 0 && self.token@.len() > 0
    }

    /// Makes credentials of the two settings. The server is looked at
    /// first: where both are unusable, the server is the one reported.
    pub fn new(server: Option<String>, token: Option<String>) -> (outcome: Result<
        Credentials,
        CredentialsError,
    >)
        ensures
            match outcome {
                Ok(credentials) => !absent(setting_text(server)) && !absent(setting_text(token))
                    && credentials@.server == server.unwrap()@ && credentials@.token
                    == token.unwrap()@,
                Err(CredentialsError::MissingServer) => absent(setting_text(server)),
                Err(CredentialsError::MissingToken) => !absent(setting_text(server)) && absent(
                    setting_text(token),
                ),
            },
    {
        let server = match server {
            Some(text) => text,
            None => { return Err(CredentialsError::MissingServer); },
        };
        if server.as_str().is_empty() {
            return Err(CredentialsError::MissingServer);
        }
        let token = match token {
            Some(text) => text,
            None => { return Err(CredentialsError::MissingToken); },
        };
        if token.as_str().is_empty() {
            return Err(CredentialsError::MissingToken);
        }
        Ok(Credentials { server, token })
    }

    /// The address that reports are posted to.
    pub fn server(&self) -> (server: &str)
        ensures
            server@ == self@.server,
            server@.len() > 0,
    {
        proof {
            use_type_invariant(self);
        }
        self.server.as_str()
    }

    /// The bearer token.
    pub fn token(&self) -> (token: &str)
        ensures
            token@ == self@.token,
            token@.len() > 0,
    {
        proof {
            use_type_invariant(self);
        }
        self.token.as_str()
    }

    /// The request that reports `description`.
    pub fn request(&self, description: &str) -> (request: ReportRequest)
        ensures
            request@ == request_for(self@, description@),
    {
        ReportRequest {
            url: self.server.clone(),
            authorization: String::from_str("Bearer ").concat(self.token.as_str()),
            body: description.to_owned(),
        }
    }
}

/// How an attempt to deliver a report ended.
#[derive(Debug, Clone, Copy, PartialEq, Eq)]
pub enum Delivery {
    /// The server answered, with this HTTP status code.
    Answered(u16),
    /// No answer came: the exchange failed on the way.
    Failed,
}

/// Whether the report arrived: the server answered with a status from 200
/// to 299.
pub open spec fn accepted(delivery: Delivery) -> bool {
    match delivery {
        Delivery::Answered(status) => 200 <= status <= 299,
        Delivery::Failed => false,
    }
}

impl Delivery {
    /// Whether the report arrived.
    pub fn is_accepted(&self) -> (yes: bool)
        ensures
            yes == accepted(*self),
    {
        match self {
            Delivery::Answered(status) => 200 <= *status && *status <= 299,
            Delivery::Failed => false,
        }
    }
}

} // verus!
