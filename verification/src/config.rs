//! Run configuration: the knobs a caller sets before a run, and the checks
//! that reject a misconfigured run before any request is dispatched.

use vstd::prelude::*;
use vstd::string::StringSliceAdditionalSpecFns;

verus! {

/// HTTP method used for every request of a run.
#[derive(Clone, Copy, PartialEq, Eq, Structural, Debug)]
pub enum HttpMethod {
    Get,
    Post,
    Put,
}

/// Order in which target-list indices are drawn.
#[derive(Clone, Copy, PartialEq, Eq, Structural, Debug)]
pub enum RequestOrder {
    Sequential,
    Random,
}

/// Distribution from which inter-dispatch delays are sampled.
#[derive(Clone, Copy, PartialEq, Eq, Structural, Debug)]
pub enum DelayDistribution {
    Constant,
    Uniform,
    NegativeExponential,
}

/// Why a configuration was rejected before any worker started.
#[derive(Clone, Copy, PartialEq, Eq, Structural, Debug)]
pub enum ConfigError {
    /// The target list is empty.
    EmptyTargets,
    /// A write method was requested but no payloads were supplied.
    MissingPayloads,
    /// A write method allows exactly one target URL.
    MultipleTargetsForWrite,
}

/// A full run configuration.  `urls` is the immutable target list; `payloads`
/// is consulted only for write methods, where the drawn index selects the
/// payload and `urls` must hold exactly one entry.
pub struct Config {
    pub concurrency: u16,
    pub requests: usize,
    pub order: RequestOrder,
    pub delay_ms: u32,
    pub delay_distrib: DelayDistribution,
    pub http_method: HttpMethod,
    pub urls: Vec<String>,
    pub payloads: Vec<String>,
}

/// True of the methods that send a request body.
pub open spec fn is_write_method(m: HttpMethod) -> bool {
    m == HttpMethod::Post || m == HttpMethod::Put
}

/// ASCII upper-casing of a single byte (`a..z` map down by 32); other
/// bytes are unchanged.
pub open spec fn ascii_upper(c: u8) -> u8 {
    if 97 <= c && c <= 122 {
        (c - 32) as u8
    } else {
        c
    }
}

/// The method named by `b`, compared ASCII-case-insensitively against
/// `GET`, `POST` and `PUT`.
pub open spec fn parsed_method(b: Seq<u8>) -> Result<HttpMethod, ()> {
    if b.len() == 3 && ascii_upper(b[0]) == 71 && ascii_upper(b[1]) == 69 && ascii_upper(
        b[2],
    ) == 84 {
        Ok(HttpMethod::Get)
    } else if b.len() == 4 && ascii_upper(b[0]) == 80 && ascii_upper(b[1]) == 79 && ascii_upper(
        b[2],
    ) == 83 && ascii_upper(b[3]) == 84 {
        Ok(HttpMethod::Post)
    } else if b.len() == 3 && ascii_upper(b[0]) == 80 && ascii_upper(b[1]) == 85 && ascii_upper(
        b[2],
    ) == 84 {
        Ok(HttpMethod::Put)
    } else {
        Err(())
    }
}

fn upper_byte(c: u8) -> (r: u8)
    ensures
        r == ascii_upper(c),
{
    if c >= 97 && c <= 122 {
        c - 32
    } else {
        c
    }
}

impl HttpMethod {
    /// Parses a method name, accepting any ASCII casing of `GET`, `POST`
    /// or `PUT` and rejecting everything else.
    pub fn from_str(s: &str) -> (r: Result<HttpMethod, ()>)
        ensures
            r == parsed_method(s.spec_bytes()),
    {
        let b = s.as_bytes();
        if b.len() == 3 {
            let c0 = upper_byte(b[0]);
            let c1 = upper_byte(b[1]);
            let c2 = upper_byte(b[2]);
            if c0 == 71 && c1 == 69 && c2 == 84 {
                Ok(HttpMethod::Get)
            } else if c0 == 80 && c1 == 85 && c2 == 84 {
                Ok(HttpMethod::Put)
            } else {
                Err(())
            }
        } else if b.len() == 4 {
            let c0 = upper_byte(b[0]);
            let c1 = upper_byte(b[1]);
            let c2 = upper_byte(b[2]);
            let c3 = upper_byte(b[3]);
            if c0 == 80 && c1 == 79 && c2 == 83 && c3 == 84 {
                Ok(HttpMethod::Post)
            } else {
                Err(())
            }
        } else {
            Err(())
        }
    }
}

impl HttpMethod {
    /// The method's name on the wire.
    pub fn as_str(&self) -> (r: &'static str)
        ensures
            self == HttpMethod::Get ==> r@ == "GET"@,
            self == HttpMethod::Post ==> r@ == "POST"@,
            self == HttpMethod::Put ==> r@ == "PUT"@,
    {
        match self {
            HttpMethod::Get => "GET",
            HttpMethod::Post => "POST",
            HttpMethod::Put => "PUT",
        }
    }
}

/// The target URL a drawn index resolves to: write methods always hit the
/// single configured URL, and the index selects the payload instead.
pub fn url_index_for(method: HttpMethod, drawn_index: usize) -> (r: usize)
    ensures
        r == if is_write_method(method) {
            0usize
        } else {
            drawn_index
        },
{
    match method {
        HttpMethod::Post | HttpMethod::Put => 0,
        HttpMethod::Get => drawn_index,
    }
}

/// The payload a drawn index resolves to: only write methods send one,
/// and for them the index selects it.
pub fn payload_index_for(method: HttpMethod, drawn_index: usize) -> (r: Option<usize>)
    ensures
        r == if is_write_method(method) {
            Some(drawn_index)
        } else {
            None::<usize>
        },
{
    match method {
        HttpMethod::Post | HttpMethod::Put => Some(drawn_index),
        HttpMethod::Get => None,
    }
}

impl Config {
    /// A configuration under which a run may start: at least one target, and
    /// for write methods a payload list and a single target URL.
    pub open spec fn spec_valid(self) -> bool {
        &&& self.urls@.len() >= 1
        &&& is_write_method(self.http_method) ==> {
            &&& self.payloads@.len() >= 1
            &&& self.urls@.len() == 1
        }
    }

    /// Checks the configuration before any worker starts.  Returns `Ok`
    /// exactly on valid configurations; each rejection names the first
    /// failing condition, in the order: empty target list, missing payloads,
    /// more than one target for a write method.
    pub fn validate(&self) -> (r: Result<(), ConfigError>)
        ensures
            r is Ok <==> self.spec_valid(),
            self.urls@.len() == 0 ==> r == Err::<(), ConfigError>(ConfigError::EmptyTargets),
            self.urls@.len() >= 1 && is_write_method(self.http_method) && self.payloads@.len() == 0
                ==> r == Err::<(), ConfigError>(ConfigError::MissingPayloads),
            self.urls@.len() > 1 && is_write_method(self.http_method) && self.payloads@.len() >= 1
                ==> r == Err::<(), ConfigError>(ConfigError::MultipleTargetsForWrite),
    {
        if self.urls.len() == 0 {
            Err(ConfigError::EmptyTargets)
        } else if matches!(self.http_method, HttpMethod::Post | HttpMethod::Put) {
            if self.payloads.len() == 0 {
                Err(ConfigError::MissingPayloads)
            } else if self.urls.len() > 1 {
                Err(ConfigError::MultipleTargetsForWrite)
            } else {
                Ok(())
            }
        } else {
            Ok(())
        }
    }
}

} // verus!
