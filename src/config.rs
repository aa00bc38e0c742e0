//! The settings of the remote back-end, read from plain values.
use vstd::prelude::*;

use vstd::utf8::encode_utf8;

use crate::kv::{parse_decimal, parse_u64};

verus! {

/// The request timeout when none is configured, in milliseconds.
pub const DEFAULT_REQUEST_TIMEOUT_MS: u64 = 3000;

/// The remote back-end's settings.
#[derive(Debug, Clone)]
pub struct Config {
    pub scylla_uri: String,
    pub scylla_keyspace: String,
    pub request_timeout_ms: u64,
}

impl Config {
    /// Settings from the values of `SCYLLA_URI`, `SCYLLA_KEYSPACE` and
    /// `REQUEST_TIMEOUT_MS`. The first two are required; a timeout that is
    /// absent or not a number is the default.
    pub fn from_values(
        scylla_uri: Option<String>,
        scylla_keyspace: Option<String>,
        request_timeout_ms: Option<String>,
    ) -> (r: Result<Config, String>)
        ensures
            scylla_uri is None ==> (r matches Err(m) && m@ == "SCYLLA_URI is undefined"@),
            scylla_uri is Some && scylla_keyspace is None ==> (r matches Err(m) && m@
                == "SCYLLA_KEYSPACE is undefined"@),
            scylla_uri is Some && scylla_keyspace is Some ==> (r matches Ok(c)
                && c.scylla_uri@ == scylla_uri->Some_0@ && c.scylla_keyspace@
                == scylla_keyspace->Some_0@ && c.request_timeout_ms == match request_timeout_ms {
                Some(t) => match parse_decimal(encode_utf8(t@)) {
                    Some(v) => v,
                    None => DEFAULT_REQUEST_TIMEOUT_MS,
                },
                None => DEFAULT_REQUEST_TIMEOUT_MS,
            }),
    {
        let uri = match scylla_uri {
            Some(u) => u,
            None => {
                proof {
                    reveal_strlit("SCYLLA_URI is undefined");
                }
                return Err(String::from_str("SCYLLA_URI is undefined"));
            },
        };
        let keyspace = match scylla_keyspace {
            Some(k) => k,
            None => {
                proof {
                    reveal_strlit("SCYLLA_KEYSPACE is undefined");
                }
                return Err(String::from_str("SCYLLA_KEYSPACE is undefined"));
            },
        };
        let timeout = match request_timeout_ms {
            Some(t) => match parse_u64(t.as_str().as_bytes()) {
                Some(v) => v,
                None => DEFAULT_REQUEST_TIMEOUT_MS,
            },
            None => DEFAULT_REQUEST_TIMEOUT_MS,
        };
        Ok(Config { scylla_uri: uri, scylla_keyspace: keyspace, request_timeout_ms: timeout })
    }
}

} // verus!
