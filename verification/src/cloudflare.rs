//! Plain data exchanged with the CDN/DNS provider.
//!
//! The provider is reached over HTTPS by the process embedding this crate;
//! these types carry its responses into the verified logic as plain values.
//! A DNS-over-HTTPS lookup yields a status plus optional `Answer`,
//! `Authority` and `Additional` record sets; record type 5 is a CNAME.

use vstd::prelude::*;

verus! {

/// A provider response carrying a list of results.
#[derive(Clone, Debug)]
pub struct CloudflareResponses<B> {
    pub result: Vec<B>,
    pub errors: Vec<(String, String)>,
}

/// A provider response carrying a single result.
#[derive(Clone, Debug)]
pub struct CloudflareResponse<B> {
    pub result: B,
    pub errors: Vec<(String, String)>,
}

/// One DNS record managed at the provider.
#[derive(Clone, Debug)]
pub struct DnsRecordResponse {
    pub id: String,
    pub content: String,
    pub name: String,
    pub proxied: bool,
    pub record_type: Option<String>,
    pub comment: Option<String>,
}

/// One custom hostname provisioned at the provider.
#[derive(Clone, Debug)]
pub struct CustomHostnameResponse {
    pub id: String,
    pub hostname: String,
}

/// The record type tag of a CNAME answer in a DNS-over-HTTPS response.
pub const RR_TYPE_CNAME: usize = 5;

/// One answer record of a DNS-over-HTTPS lookup.
#[derive(Clone, Debug)]
pub struct DnsLookupResponseAnswer {
    pub name: String,
    pub rr_type: usize,
    pub ttl: usize,
    pub data: String,
}

/// Mathematical view of [`DnsLookupResponseAnswer`].
pub struct DnsLookupResponseAnswerV {
    pub name: Seq<char>,
    pub rr_type: usize,
    pub ttl: usize,
    pub data: Seq<char>,
}

impl View for DnsLookupResponseAnswer {
    type V = DnsLookupResponseAnswerV;

    open spec fn view(&self) -> DnsLookupResponseAnswerV {
        DnsLookupResponseAnswerV {
            name: self.name@,
            rr_type: self.rr_type,
            ttl: self.ttl,
            data: self.data@,
        }
    }
}

impl DeepView for DnsLookupResponseAnswer {
    type V = DnsLookupResponseAnswerV;

    open spec fn deep_view(&self) -> DnsLookupResponseAnswerV {
        self.view()
    }
}

/// The body of a DNS-over-HTTPS lookup.
#[derive(Clone, Debug)]
pub struct DnsLookupResponse {
    pub status: usize,
    pub answer: Option<Vec<DnsLookupResponseAnswer>>,
    pub authority: Option<Vec<DnsLookupResponseAnswer>>,
    pub additional: Option<Vec<DnsLookupResponseAnswer>>,
}

/// Mathematical view of [`DnsLookupResponse`].
pub struct DnsLookupResponseV {
    pub status: usize,
    pub answer: Option<Seq<DnsLookupResponseAnswerV>>,
    pub authority: Option<Seq<DnsLookupResponseAnswerV>>,
    pub additional: Option<Seq<DnsLookupResponseAnswerV>>,
}

impl View for DnsLookupResponse {
    type V = DnsLookupResponseV;

    open spec fn view(&self) -> DnsLookupResponseV {
        DnsLookupResponseV {
            status: self.status,
            answer: self.answer.deep_view(),
            authority: self.authority.deep_view(),
            additional: self.additional.deep_view(),
        }
    }
}

impl DeepView for DnsLookupResponse {
    type V = DnsLookupResponseV;

    open spec fn deep_view(&self) -> DnsLookupResponseV {
        self.view()
    }
}

} // verus!
