//! The two requests of a monitoring task: the lookup that asks whether a
//! name is free, and the claim that takes a free name over.

use vstd::prelude::*;
use vstd::string::*;
use crate::pool::{standard_settings, IdentityPool};

verus! {

/// A read request to the lookup endpoint.
pub struct ProbeRequest {
    /// Source address to send from.
    pub source: u128,
    /// Address of the resource to `GET`.
    pub url: String,
}

/// A write request to the claim endpoint.
pub struct ClaimRequest {
    /// Source address to send from.
    pub source: u128,
    /// Address of the resource to `PUT`.
    pub url: String,
    /// Value of the `Authorization` header.
    pub authorization: String,
}

/// Why no claim could be attempted.
#[derive(Clone, Copy, Debug, PartialEq, Eq, Structural)]
pub enum ClaimError {
    /// No credential is configured.
    NoCredentials,
}

/// The pool to send from and the credentials to claim with.
pub struct NameChecker {
    pub pool: IdentityPool,
    pub auth_tokens: Vec<String>,
}

pub open spec fn probe_url(identifier: Seq<char>) -> Seq<char> {
    "https://sessionserver.mojang.com/session/minecraft/profile/"@ + identifier
}

pub open spec fn claim_url(name: Seq<char>) -> Seq<char> {
    "https://api.minecraftservices.com/minecraft/profile/name/"@ + name
}

pub open spec fn bearer(credential: Seq<char>) -> Seq<char> {
    "Bearer "@ + credential
}

impl ClaimError {
    pub fn message(&self) -> (s: String)
        ensures
            s@ == "No authentication tokens available"@,
    {
        String::from_str("No authentication tokens available")
    }
}

impl NameChecker {
    pub fn new(auth_tokens: Vec<String>, ip_addresses: Vec<u128>) -> (checker: NameChecker)
        ensures
            checker.auth_tokens == auth_tokens,
            checker.pool@ == ip_addresses@,
            checker.pool.client_settings() == standard_settings(),
    {
        NameChecker { pool: IdentityPool::new(ip_addresses), auth_tokens }
    }

    /// The lookup for `identifier`, to be sent from a freshly drawn address.
    pub fn probe_request(&self, identifier: &str) -> (request: ProbeRequest)
        requires
            self.pool@.len() > 0,
        ensures
            request.url@ == probe_url(identifier@),
            self.pool@.contains(request.source),
    {
        let url = String::from_str(
            "https://sessionserver.mojang.com/session/minecraft/profile/",
        ).concat(identifier);
        ProbeRequest { source: self.pool.acquire(), url }
    }

    /// The claim for `name`, authorised by the first credential and to be
    /// sent from a freshly drawn address. Without a credential there is no
    /// request to send.
    pub fn claim_request(&self, name: &str) -> (r: Result<ClaimRequest, ClaimError>)
        requires
            self.auth_tokens@.len() > 0 ==> self.pool@.len() > 0,
        ensures
            r is Err <==> self.auth_tokens@.len() == 0,
            r matches Ok(request) ==> {
                &&& request.url@ == claim_url(name@)
                &&& request.authorization@ == bearer(self.auth_tokens@[0]@)
                &&& self.pool@.contains(request.source)
            },
    {
        if self.auth_tokens.len() == 0 {
            return Err(ClaimError::NoCredentials);
        }
        let url = String::from_str(
            "https://api.minecraftservices.com/minecraft/profile/name/",
        ).concat(name);
        let authorization = String::from_str("Bearer ").concat(self.auth_tokens[0].as_str());
        Ok(ClaimRequest { source: self.pool.acquire(), url, authorization })
    }
}

} // verus!
