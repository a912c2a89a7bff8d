//! The instrumented client of the PJP API: endpoints, request addresses, and the
//! bookkeeping that every completed call goes through.
use vstd::prelude::*;
use crate::metrics::{ApiErrorLabels, ApiLabels, ApiMetrics, bumped, value_or_zero};

verus! {

/// The upstream operations.
#[derive(Clone, Copy, Debug, PartialEq, Eq, Structural)]
pub enum Endpoint {
    FindAllStations,
    StationSensors,
    Data,
}

/// The route template of an endpoint; identifiers never appear in it.
pub open spec fn endpoint_template(e: Endpoint) -> Seq<char> {
    match e {
        Endpoint::FindAllStations => "/pjp-api/rest/station/findAll"@,
        Endpoint::StationSensors => "/pjp-api/rest/station/sensors/{station_id}"@,
        Endpoint::Data => "/pjp-api/rest/data/getData/{sensor_id}"@,
    }
}

/// The host that serves the API.
pub open spec fn api_base() -> Seq<char> {
    "https://api.gios.gov.pl"@
}

/// The route of a request, with the identifier in place.
pub open spec fn endpoint_path(e: Endpoint, id: u32) -> Seq<char> {
    match e {
        Endpoint::FindAllStations => "/pjp-api/rest/station/findAll"@,
        Endpoint::StationSensors => "/pjp-api/rest/station/sensors/"@ + decimal(id as nat),
        Endpoint::Data => "/pjp-api/rest/data/getData/"@ + decimal(id as nat),
    }
}

/// The decimal digit of a value below ten.
pub open spec fn digit_char(d: nat) -> char {
    if d < 10 {
        (('0' as nat) + d) as char
    } else {
        '0'
    }
}

/// The shortest decimal writing of a natural number.
pub open spec fn decimal(n: nat) -> Seq<char>
    decreases n,
{
    if n < 10 {
        seq![digit_char(n)]
    } else {
        decimal(n / 10).push(digit_char(n % 10))
    }
}

fn digit_text(d: u32) -> (r: &'static str)
    requires
        d < 10,
    ensures
        r@ == seq![digit_char(d as nat)],
{
    proof {
        reveal_strlit("0");
        reveal_strlit("1");
        reveal_strlit("2");
        reveal_strlit("3");
        reveal_strlit("4");
        reveal_strlit("5");
        reveal_strlit("6");
        reveal_strlit("7");
        reveal_strlit("8");
        reveal_strlit("9");
    }
    let r = match d {
        0 => "0",
        1 => "1",
        2 => "2",
        3 => "3",
        4 => "4",
        5 => "5",
        6 => "6",
        7 => "7",
        8 => "8",
        _ => "9",
    };
    assert(r@ =~= seq![digit_char(d as nat)]);
    r
}

/// Appends the decimal digit of a value below ten.
pub fn push_digit(out: &mut String, d: u32)
    requires
        d < 10,
    ensures
        final(out)@ == old(out)@.push(digit_char(d as nat)),
{
    out.append(digit_text(d));
    assert(final(out)@ =~= old(out)@.push(digit_char(d as nat)));
}

/// Appends the decimal writing of `n`.
pub fn push_decimal(out: &mut String, n: u32)
    ensures
        final(out)@ == old(out)@ + decimal(n as nat),
    decreases n,
{
    if n < 10 {
        out.append(digit_text(n));
    } else {
        push_decimal(out, n / 10);
        out.append(digit_text(n % 10));
        assert(decimal(n as nat) == decimal((n / 10) as nat).push(digit_char((n % 10) as nat)));
        assert(final(out)@ =~= old(out)@ + decimal(n as nat));
    }
}

impl Endpoint {
    /// The endpoint label of the latency and error metrics.
    pub fn template(&self) -> (r: String)
        ensures
            r@ == endpoint_template(*self),
    {
        match self {
            Endpoint::FindAllStations => String::from_str("/pjp-api/rest/station/findAll"),
            Endpoint::StationSensors => String::from_str(
                "/pjp-api/rest/station/sensors/{station_id}",
            ),
            Endpoint::Data => String::from_str("/pjp-api/rest/data/getData/{sensor_id}"),
        }
    }

    /// The address to request; `id` is the station for the sensor listing, the
    /// sensor for the data, and unused for the station listing.
    pub fn url(&self, id: u32) -> (r: String)
        ensures
            r@ == api_base() + endpoint_path(*self, id),
    {
        let mut out = String::from_str("https://api.gios.gov.pl");
        match self {
            Endpoint::FindAllStations => {
                out.append("/pjp-api/rest/station/findAll");
            },
            Endpoint::StationSensors => {
                out.append("/pjp-api/rest/station/sensors/");
                push_decimal(&mut out, id);
            },
            Endpoint::Data => {
                out.append("/pjp-api/rest/data/getData/");
                push_decimal(&mut out, id);
            },
        }
        assert(out@ =~= api_base() + endpoint_path(*self, id));
        out
    }
}

/// How an upstream call failed.
#[derive(Clone, Copy, Debug, PartialEq, Eq, Structural)]
pub enum ApiError {
    /// No response: connection, name resolution or I/O failure.
    Transport,
    /// The response carried a client or server error status.
    Status(u16),
    /// The body did not match the expected schema.
    Decode,
}

/// What came back from one upstream call: nothing, or a status with the body
/// decoded where it matched the schema.
pub enum Reply<T> {
    Unreachable,
    Received(u16, Option<T>),
}

/// A status of the 4xx or 5xx classes.
pub open spec fn is_error_status(code: u16) -> bool {
    400 <= code <= 599
}

/// The outcome of a call: transport and status failures first, then decoding.
pub open spec fn reply_result<T>(reply: Reply<T>) -> Result<T, ApiError> {
    match reply {
        Reply::Unreachable => Err(ApiError::Transport),
        Reply::Received(code, body) => if is_error_status(code) {
            Err(ApiError::Status(code))
        } else {
            match body {
                Some(b) => Ok(b),
                None => Err(ApiError::Decode),
            }
        },
    }
}

/// The error counts after a call: one more for (code, endpoint) on an error status.
pub open spec fn errors_after<T>(
    errors: Map<(u16, Seq<char>), u64>,
    e: Endpoint,
    reply: Reply<T>,
) -> Map<(u16, Seq<char>), u64> {
    match reply {
        Reply::Received(code, _) => if is_error_status(code) {
            errors.insert(
                (code, endpoint_template(e)),
                bumped(value_or_zero(errors, (code, endpoint_template(e)))),
            )
        } else {
            errors
        },
        Reply::Unreachable => errors,
    }
}

/// The latency observation counts after a call: one more for its endpoint,
/// whatever the outcome.
pub open spec fn observations_after(counts: Map<Seq<char>, u64>, e: Endpoint) -> Map<
    Seq<char>,
    u64,
> {
    counts.insert(endpoint_template(e), bumped(value_or_zero(counts, endpoint_template(e))))
}

/// The observation counts after calls to the given endpoints, in order.
pub open spec fn observed_all(counts: Map<Seq<char>, u64>, es: Seq<Endpoint>) -> Map<
    Seq<char>,
    u64,
>
    decreases es.len(),
{
    if es.len() == 0 {
        counts
    } else {
        observations_after(observed_all(counts, es.drop_last()), es.last())
    }
}

/// How many of the calls went to an endpoint.
pub open spec fn calls_to(es: Seq<Endpoint>, e: Endpoint) -> nat
    decreases es.len(),
{
    if es.len() == 0 {
        0
    } else {
        calls_to(es.drop_last(), e) + if es.last() == e {
            1nat
        } else {
            0nat
        }
    }
}

/// Distinct endpoints have distinct labels.
pub proof fn lemma_templates_distinct(a: Endpoint, b: Endpoint)
    ensures
        a != b ==> endpoint_template(a) != endpoint_template(b),
{
    reveal_strlit("/pjp-api/rest/station/findAll");
    reveal_strlit("/pjp-api/rest/station/sensors/{station_id}");
    reveal_strlit("/pjp-api/rest/data/getData/{sensor_id}");
    assert(endpoint_template(Endpoint::FindAllStations).len() == 29);
    assert(endpoint_template(Endpoint::StationSensors).len() == 42);
    assert(endpoint_template(Endpoint::Data).len() == 38);
}

/// The latency observations under an endpoint's label grow by the number of calls
/// to it, whatever their outcomes, while the counter has room.
pub proof fn lemma_observations_count_calls(counts: Map<Seq<char>, u64>, es: Seq<Endpoint>, e: Endpoint)
    requires
        value_or_zero(counts, endpoint_template(e)) + es.len() < u64::MAX,
    ensures
        value_or_zero(observed_all(counts, es), endpoint_template(e)) == value_or_zero(
            counts,
            endpoint_template(e),
        ) + calls_to(es, e),
    decreases es.len(),
{
    if es.len() > 0 {
        let t = es.drop_last();
        lemma_observations_count_calls(counts, t, e);
        lemma_calls_bound(t, e);
        lemma_templates_distinct(es.last(), e);
    }
}

proof fn lemma_calls_bound(es: Seq<Endpoint>, e: Endpoint)
    ensures
        calls_to(es, e) <= es.len(),
    decreases es.len(),
{
    if es.len() > 0 {
        lemma_calls_bound(es.drop_last(), e);
    }
}

/// The instrumented client.
pub struct API {
    pub metrics: ApiMetrics,
}

impl API {
    pub open spec fn wf(&self) -> bool {
        self.metrics.wf()
    }

    /// A client that records into the given metrics.
    pub fn new(api_metrics: ApiMetrics) -> (r: Self)
        ensures
            r.metrics == api_metrics,
    {
        API { metrics: api_metrics }
    }

    /// Counts one latency observation of a call to `endpoint`; error counts stay.
    pub fn observe(&mut self, endpoint: Endpoint)
        requires
            old(self).wf(),
        ensures
            final(self).wf(),
            final(self).metrics.latency_seconds@ == observations_after(
                old(self).metrics.latency_seconds@,
                endpoint,
            ),
            final(self).metrics.errors@ == old(self).metrics.errors@,
    {
        let label = ApiLabels { endpoint: endpoint.template() };
        self.metrics.latency_seconds.inc(&label);
    }

    /// Classifies the reply of a call to `endpoint`: an error status is counted
    /// under its code and endpoint, and decoding failures are not counted as errors.
    /// Latency is left to `observe`.
    pub fn on_response<T>(&mut self, endpoint: Endpoint, reply: Reply<T>) -> (r: Result<T, ApiError>)
        requires
            old(self).wf(),
        ensures
            final(self).wf(),
            r == reply_result(reply),
            final(self).metrics.errors@ == errors_after(old(self).metrics.errors@, endpoint, reply),
            final(self).metrics.latency_seconds@ == old(self).metrics.latency_seconds@,
    {
        match reply {
            Reply::Unreachable => Err(ApiError::Transport),
            Reply::Received(code, body) => {
                if 400 <= code && code <= 599 {
                    let labels = ApiErrorLabels { code, endpoint: endpoint.template() };
                    self.metrics.errors.inc(&labels);
                    Err(ApiError::Status(code))
                } else {
                    match body {
                        Some(b) => Ok(b),
                        None => Err(ApiError::Decode),
                    }
                }
            },
        }
    }
}

} // verus!
