//! Per-target connection configuration.
//!
//! One entry per configured store endpoint: the address, an optional
//! display name, and the two connection timeouts.  The connection itself
//! is opened outside the library; these values only describe it.

use vstd::prelude::*;

use crate::text::append_bytes;
use crate::text::find_byte;
use crate::text::spec_find;
use crate::text::spec_starts_with;
use crate::text::starts_with;
use vstd::slice::slice_subrange;
use vstd::slice::slice_to_vec;
use vstd::string::StringSliceAdditionalSpecFns;

verus! {

/// The socket address a target address names: the scheme prefix removed
/// if present, anything after the first slash dropped, and the default
/// store port appended where none is given.  An address with an empty
/// host names nothing.
pub open spec fn spec_host_port(url: Seq<u8>) -> Option<Seq<u8>> {
    let rest = if spec_starts_with(url, "redis://".spec_bytes()) {
        url.skip("redis://".spec_bytes().len() as int)
    } else {
        url
    };
    let host = match spec_find(rest, 47) {
        None => rest,
        Some(i) => rest.subrange(0, i),
    };
    if host.len() == 0 {
        None
    } else if spec_find(host, 58).is_some() {
        Some(host)
    } else {
        Some(host + ":6379".spec_bytes())
    }
}

/// Extracts the socket address of a target address.
pub fn host_port(url: &[u8]) -> (r: Option<Vec<u8>>)
    ensures
        match r {
            Some(v) => spec_host_port(url@) == Some(v@),
            None => spec_host_port(url@) is None,
        },
{
    let scheme = "redis://".as_bytes();
    let rest = if starts_with(url, scheme) {
        slice_subrange(url, scheme.len(), url.len())
    } else {
        url
    };
    proof {
        assert(rest@ =~= (if spec_starts_with(url@, "redis://".spec_bytes()) {
            url@.skip("redis://".spec_bytes().len() as int)
        } else {
            url@
        }));
    }
    let host = match find_byte(rest, 47) {
        None => rest,
        Some(i) => {
            proof {
                crate::text::lemma_find(rest@, 47);
            }
            slice_subrange(rest, 0, i)
        },
    };
    if host.len() == 0 {
        return None;
    }
    match find_byte(host, 58) {
        Some(_) => Some(slice_to_vec(host)),
        None => {
            let mut v = slice_to_vec(host);
            append_bytes(&mut v, ":6379".as_bytes());
            Some(v)
        },
    }
}

/// The configuration of one target.
pub struct Config {
    /// The display name of the target; the address stands in when unset.
    pub name: Option<String>,
    /// The address of the store instance.
    pub url: String,
    /// How long to wait for a reply, in milliseconds.
    pub response_timeout_ms: u64,
    /// How long to wait for the connection, in milliseconds.
    pub connection_timeout_ms: u64,
}

impl Default for Config {
    /// The local default endpoint, with five-second timeouts and no
    /// display name.
    fn default() -> (r: Config)
        ensures
            r.name is None,
            r.url@ == "redis://127.0.0.1:6379"@,
            r.response_timeout_ms == 5000,
            r.connection_timeout_ms == 5000,
    {
        Config {
            name: None,
            url: "redis://127.0.0.1:6379".to_owned(),
            response_timeout_ms: 5000,
            connection_timeout_ms: 5000,
        }
    }
}

impl Config {
    /// The name the target's series are labeled with: the configured
    /// display name, or the address where none is set.
    pub fn effective_name(&self) -> (r: String)
        ensures
            match self.name {
                Some(ref n) => r@ == n@,
                None => r@ == self.url@,
            },
    {
        match &self.name {
            Some(n) => n.as_str().to_owned(),
            None => self.url.as_str().to_owned(),
        }
    }
}

} // verus!
