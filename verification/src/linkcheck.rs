//! Classification of image-link probes: an HTTP status or a transport
//! failure is mapped to the verdict the UI acts on.

use vstd::prelude::*;
use crate::byteseq::{ascii_bytes, contains_seq, lit_bytes, contains_bytes};
use crate::errors::string_from_str;
use vstd::string::StringSliceAdditionalSpecFns;

verus! {

/// The outcome of probing one image link.
pub struct CheckLinkResult {
    pub link: String,
    pub is_valid: bool,
    pub status_code: Option<u16>,
    pub error: Option<String>,
    pub error_type: String,
    pub suggestion: Option<String>,
    pub response_time: Option<u64>,
}

/// The classes a probe outcome falls into.
pub enum LinkVerdict {
    /// A 2xx answer: the link serves.
    Success,
    /// A 4xx answer: gone or forbidden; re-upload elsewhere.
    Http4xx,
    /// A 5xx answer: the host is down; retry later.
    Http5xx,
    /// The probe timed out.
    Timeout,
    /// The probe could not connect, or nothing else matched.
    Network,
}

/// Classifies a probe outcome from its status code and transport
/// flags.  A status takes precedence; without one, a timeout beats a
/// connection failure; anything else is a plain network failure.
pub fn classify_error(status_code: Option<u16>, is_timeout: bool, is_connect: bool) -> (r:
    LinkVerdict)
    ensures
        match status_code {
            Some(code) => {
                &&& (200 <= code < 300) ==> r is Success
                &&& (400 <= code < 500) ==> r is Http4xx
                &&& (500 <= code) ==> r is Http5xx
                &&& !(200 <= code < 300) && !(400 <= code) ==> (if is_timeout {
                    r is Timeout
                } else if is_connect {
                    r is Network
                } else {
                    r is Network
                })
            },
            None => {
                if is_timeout {
                    r is Timeout
                } else {
                    r is Network
                }
            },
        },
{
    match status_code {
        Some(code) => {
            if 400 <= code && code < 500 {
                return LinkVerdict::Http4xx;
            }
            if code >= 500 {
                return LinkVerdict::Http5xx;
            }
            if 200 <= code && code < 300 {
                return LinkVerdict::Success;
            }
            if is_timeout {
                LinkVerdict::Timeout
            } else {
                LinkVerdict::Network
            }
        },
        None => {
            if is_timeout {
                LinkVerdict::Timeout
            } else {
                LinkVerdict::Network
            }
        },
    }
}

impl LinkVerdict {
    /// The stable label the UI keys on.
    pub fn label(&self) -> (r: String)
        ensures
            self is Success ==> r@ == "success"@,
            self is Http4xx ==> r@ == "http_4xx"@,
            self is Http5xx ==> r@ == "http_5xx"@,
            self is Timeout ==> r@ == "timeout"@,
            self is Network ==> r@ == "network"@,
    {
        match self {
            LinkVerdict::Success => string_from_str("success"),
            LinkVerdict::Http4xx => string_from_str("http_4xx"),
            LinkVerdict::Http5xx => string_from_str("http_5xx"),
            LinkVerdict::Timeout => string_from_str("timeout"),
            LinkVerdict::Network => string_from_str("network"),
        }
    }

    /// The repair advice for each failing class; a serving link needs
    /// none.
    pub fn suggestion(&self) -> (r: Option<String>)
        ensures
            self is Success ==> r is None,
            self is Http4xx ==> (r matches Some(s) && s@
                == "the image is gone or access is denied; re-upload it to a working host"@),
            self is Http5xx ==> (r matches Some(s) && s@
                == "the host is temporarily unavailable; retry later"@),
            self is Timeout ==> (r matches Some(s) && s@
                == "the request timed out; the network or the host is slow"@),
            self is Network ==> (r matches Some(s) && s@
                == "the connection failed; check the network or firewall settings"@),
    {
        match self {
            LinkVerdict::Success => None,
            LinkVerdict::Http4xx => Some(
                string_from_str(
                    "the image is gone or access is denied; re-upload it to a working host",
                ),
            ),
            LinkVerdict::Http5xx => Some(
                string_from_str("the host is temporarily unavailable; retry later"),
            ),
            LinkVerdict::Timeout => Some(
                string_from_str("the request timed out; the network or the host is slow"),
            ),
            LinkVerdict::Network => Some(
                string_from_str("the connection failed; check the network or firewall settings"),
            ),
        }
    }
}

/// Whether a link goes through the image proxy that refuses HEAD
/// probes and needs a ranged GET instead.
pub fn is_baidu_proxy_link(link: &str) -> (r: bool)
    ensures
        r == contains_seq(link.spec_bytes(), ascii_bytes("image.baidu.com"@)),
{
    proof {
        reveal_strlit("image.baidu.com");
    }
    let pat = lit_bytes("image.baidu.com");
    contains_bytes(link.as_bytes(), pat.as_slice())
}

} // verus!
