//! The scrape of one station: list its sensors, keep the known pollutants, read the
//! latest value of each, and set the gauges.
//!
//! The network work is done by the caller, which hands each reply over as it
//! completes; every decision of the scrape is made here.
use vstd::prelude::*;
use crate::api::{API, ApiError, Endpoint, Reply, reply_result};
use crate::metrics::{AirQualityLabels, AirQualityMetrics};
use crate::pollutant::{Param, param_of_code};

verus! {

/// The measured parameter of a sensor.
pub struct SensorParam {
    pub name: String,
    pub formula: String,
    pub code: String,
    pub id: u32,
}

/// A sensor of a station.
pub struct Sensor {
    pub id: u32,
    pub station_id: u32,
    pub param: SensorParam,
}

/// One timestamped value of a sensor: UTC seconds, and the bit pattern of the
/// reading (`f64::to_bits`) where the upstream reported one.
#[derive(Clone, Copy, Debug, PartialEq, Eq, Structural)]
pub struct DataValue {
    pub date: i64,
    pub value: Option<u64>,
}

/// The values of one sensor.
pub struct GetDataResp {
    pub key: String,
    pub values: Vec<DataValue>,
}

/// Why a scrape stopped.
#[derive(Clone, Copy, Debug, PartialEq, Eq, Structural)]
pub enum ScrapeError {
    /// An upstream call failed.
    Http(ApiError),
    /// A concurrent fetch did not run to completion.
    TokioTask,
    /// The sensor reported no values.
    NoData,
    /// The sensor's latest value carries no reading.
    NoDataValue,
}

/// A sensor to read: its pollutant and its identifier.
pub type KnownSensor = (Param, u32);

/// The outcome of one concurrent fetch: the sensor it was for, and the reply of
/// its call, or `None` where the task failed.
pub struct Completion {
    pub sensor: KnownSensor,
    pub task: Option<Reply<GetDataResp>>,
}

/// The sensors with a recognised code, in listing order.
pub open spec fn known_of(s: Seq<Sensor>) -> Seq<KnownSensor>
    decreases s.len(),
{
    if s.len() == 0 {
        seq![]
    } else {
        let rest = known_of(s.drop_last());
        match param_of_code(s.last().param.code@) {
            Some(p) => rest.push((p, s.last().id)),
            None => rest,
        }
    }
}

/// The value with the greatest date; of equal dates, the first.
pub open spec fn latest_of(s: Seq<DataValue>) -> Option<DataValue>
    decreases s.len(),
{
    if s.len() == 0 {
        None
    } else {
        match latest_of(s.drop_last()) {
            None => Some(s.last()),
            Some(v) => if s.last().date > v.date {
                Some(s.last())
            } else {
                Some(v)
            },
        }
    }
}

/// The latest value is absent only where there are no values; otherwise it is the
/// first of the values with the greatest date.
pub proof fn lemma_latest_is_greatest(s: Seq<DataValue>)
    ensures
        latest_of(s) is None <==> s.len() == 0,
        latest_of(s) is Some ==> exists|i: int|
            0 <= i < s.len() && s[i] == latest_of(s)->Some_0 && forall|j: int|
                0 <= j < i ==> #[trigger] s[j].date < latest_of(s)->Some_0.date,
        latest_of(s) is Some ==> forall|j: int|
            0 <= j < s.len() ==> #[trigger] s[j].date <= latest_of(s)->Some_0.date,
    decreases s.len(),
{
    if s.len() > 0 {
        let t = s.drop_last();
        lemma_latest_is_greatest(t);
        let v = latest_of(s)->Some_0;
        match latest_of(t) {
            None => {
                assert(s[0] == s.last());
            },
            Some(u) => {
                let i = choose|i: int|
                    0 <= i < t.len() && t[i] == u && forall|j: int|
                        0 <= j < i ==> #[trigger] t[j].date < u.date;
                if s.last().date > u.date {
                    assert(s[s.len() - 1] == v);
                    assert forall|j: int| 0 <= j < s.len() - 1 implies #[trigger] s[j].date
                        < v.date by {
                        assert(s[j] == t[j]);
                    }
                } else {
                    assert(s[i] == t[i]);
                    assert forall|j: int| 0 <= j < i implies #[trigger] s[j].date < v.date by {
                        assert(s[j] == t[j]);
                    }
                }
                assert forall|j: int| 0 <= j < s.len() implies #[trigger] s[j].date <= v.date by {
                    if j < s.len() - 1 {
                        assert(s[j] == t[j]);
                    }
                }
            },
        }
    }
}

/// The reading that a data reply yields.
pub open spec fn data_outcome(d: Result<GetDataResp, ApiError>) -> Result<u64, ScrapeError> {
    match d {
        Err(e) => Err(ScrapeError::Http(e)),
        Ok(resp) => match latest_of(resp.values@) {
            None => Err(ScrapeError::NoData),
            Some(v) => match v.value {
                None => Err(ScrapeError::NoDataValue),
                Some(x) => Ok(x),
            },
        },
    }
}

/// The reading that a completed fetch yields.
pub open spec fn completion_outcome(c: Completion) -> Result<u64, ScrapeError> {
    match c.task {
        None => Err(ScrapeError::TokioTask),
        Some(reply) => data_outcome(reply_result(reply)),
    }
}

/// Gauge contents of both pollutants: (PM2.5, PM10).
pub type Gauges = (Map<(u32, Seq<char>, u32), u64>, Map<(u32, Seq<char>, u32), u64>);

/// The gauges after a reading of `x` from a sensor: its own label set is overwritten.
pub open spec fn gauges_set(g: Gauges, station: u32, name: Seq<char>, sensor: KnownSensor, x: u64) -> Gauges {
    match sensor.0 {
        Param::PM25 => (g.0.insert((station, name, sensor.1), x), g.1),
        Param::PM10 => (g.0, g.1.insert((station, name, sensor.1), x)),
    }
}

/// The gauges and the outcome after the first `n` completions, in order, stopping at
/// the first failure.
pub open spec fn absorbed(
    g: Gauges,
    station: u32,
    name: Seq<char>,
    cs: Seq<Completion>,
    n: nat,
) -> (Gauges, Result<(), ScrapeError>)
    decreases n,
{
    if n == 0 {
        (g, Ok(()))
    } else {
        let (h, res) = absorbed(g, station, name, cs, (n - 1) as nat);
        match res {
            Err(e) => (h, Err(e)),
            Ok(()) => match completion_outcome(cs[n - 1]) {
                Err(e) => (h, Err(e)),
                Ok(x) => (gauges_set(h, station, name, cs[n - 1].sensor, x), Ok(())),
            },
        }
    }
}

proof fn lemma_absorbed_stays_failed(
    g: Gauges,
    station: u32,
    name: Seq<char>,
    cs: Seq<Completion>,
    m: nat,
    n: nat,
)
    requires
        m <= n,
        absorbed(g, station, name, cs, m).1 is Err,
    ensures
        absorbed(g, station, name, cs, n) == absorbed(g, station, name, cs, m),
    decreases n - m,
{
    if m < n {
        lemma_absorbed_stays_failed(g, station, name, cs, m, (n - 1) as nat);
    }
}

/// A sensor whose code names a known pollutant.
pub open spec fn is_known(x: Sensor) -> bool {
    param_of_code(x.param.code@) is Some
}

/// The number of sensors of a listing whose code is recognised.
pub open spec fn recognized_count(s: Seq<Sensor>) -> nat
    decreases s.len(),
{
    if s.len() == 0 {
        0
    } else {
        recognized_count(s.drop_last()) + if is_known(s.last()) {
            1nat
        } else {
            0nat
        }
    }
}

/// The gauge family of a pollutant.
pub open spec fn family_of(g: Gauges, p: Param) -> Map<(u32, Seq<char>, u32), u64> {
    match p {
        Param::PM25 => g.0,
        Param::PM10 => g.1,
    }
}

/// The sensors to fetch are as many as the recognised codes of the listing, and
/// each of them is a sensor of the listing with a recognised code, of that kind.
pub proof fn lemma_known_sensors(s: Seq<Sensor>)
    ensures
        known_of(s).len() == recognized_count(s),
        forall|j: int|
            0 <= j < known_of(s).len() ==> exists|i: int|
                0 <= i < s.len() && s[i].id == (#[trigger] known_of(s)[j]).1 && param_of_code(
                    s[i].param.code@,
                ) == Some(known_of(s)[j].0),
    decreases s.len(),
{
    if s.len() > 0 {
        let t = s.drop_last();
        lemma_known_sensors(t);
        assert forall|j: int| 0 <= j < known_of(s).len() implies exists|i: int|
            0 <= i < s.len() && s[i].id == (#[trigger] known_of(s)[j]).1 && param_of_code(
                s[i].param.code@,
            ) == Some(known_of(s)[j].0) by {
            if j < known_of(t).len() {
                let i = choose|i: int|
                    0 <= i < t.len() && t[i].id == (#[trigger] known_of(t)[j]).1 && param_of_code(
                        t[i].param.code@,
                    ) == Some(known_of(t)[j].0);
                assert(s[i] == t[i]);
            } else {
                assert(s[s.len() - 1] == s.last());
            }
        }
    }
}

/// A sensor whose code is not recognised is never fetched, where sensor
/// identifiers are unique within the listing.
pub proof fn lemma_unknown_not_fetched(s: Seq<Sensor>, i: int)
    requires
        0 <= i < s.len(),
        !is_known(s[i]),
        forall|a: int, b: int| 0 <= a < b < s.len() ==> s[a].id != s[b].id,
    ensures
        forall|j: int| 0 <= j < known_of(s).len() ==> (#[trigger] known_of(s)[j]).1 != s[i].id,
{
    lemma_known_sensors(s);
    assert forall|j: int| 0 <= j < known_of(s).len() implies (#[trigger] known_of(s)[j]).1
        != s[i].id by {
        let a = choose|a: int|
            0 <= a < s.len() && s[a].id == (#[trigger] known_of(s)[j]).1 && param_of_code(
                s[a].param.code@,
            ) == Some(known_of(s)[j].0);
        assert(a != i);
    }
}

/// When every completion of a scrape yields a reading, and the completions are for
/// distinct sensors, the scrape succeeds, each sensor's gauge holds its reading,
/// and no other label set changes.
pub proof fn lemma_all_readings_set(
    g: Gauges,
    station: u32,
    name: Seq<char>,
    cs: Seq<Completion>,
)
    requires
        forall|i: int| 0 <= i < cs.len() ==> #[trigger] completion_outcome(cs[i]) is Ok,
        forall|a: int, b: int| 0 <= a < b < cs.len() ==> cs[a].sensor.1 != cs[b].sensor.1,
    ensures
        absorbed(g, station, name, cs, cs.len()).1 is Ok,
        sets_exactly(g, absorbed(g, station, name, cs, cs.len()).0, station, name, cs, cs.len()),
{
    lemma_all_readings_prefix(g, station, name, cs, cs.len());
}

proof fn lemma_all_readings_prefix(
    g: Gauges,
    station: u32,
    name: Seq<char>,
    cs: Seq<Completion>,
    n: nat,
)
    requires
        n <= cs.len(),
        forall|i: int| 0 <= i < cs.len() ==> #[trigger] completion_outcome(cs[i]) is Ok,
        forall|a: int, b: int| 0 <= a < b < cs.len() ==> cs[a].sensor.1 != cs[b].sensor.1,
    ensures
        absorbed(g, station, name, cs, n).1 is Ok,
        sets_exactly(g, absorbed(g, station, name, cs, n).0, station, name, cs, n),
    decreases n,
{
    if n > 0 {
        let m = (n - 1) as nat;
        lemma_all_readings_prefix(g, station, name, cs, m);
        let h = absorbed(g, station, name, cs, m).0;
        let c = cs[m as int];
        assert(completion_outcome(c) is Ok);
        let x = completion_outcome(c)->Ok_0;
        let k = absorbed(g, station, name, cs, n).0;
        assert(k == gauges_set(h, station, name, c.sensor, x));
        assert forall|i: int| 0 <= i < n implies family_of(k, cs[i].sensor.0).contains_key(
            (station, name, cs[i].sensor.1),
        ) && family_of(k, cs[i].sensor.0)[(station, name, cs[i].sensor.1)]
            == completion_outcome(#[trigger] cs[i])->Ok_0 by {
            if i < m {
                assert(cs[i].sensor.1 != c.sensor.1);
                assert(family_of(h, cs[i].sensor.0).contains_key((station, name, cs[i].sensor.1)));
                assert(family_of(h, cs[i].sensor.0)[(station, name, cs[i].sensor.1)]
                    == completion_outcome(cs[i])->Ok_0);
            } else {
                assert(i == m);
            }
        }
        assert forall|p: Param, l: (u32, Seq<char>, u32)|
            (forall|i: int|
                0 <= i < n ==> #[trigger] cs[i].sensor != (p, l.2) || l.0 != station || l.1
                    != name) implies (#[trigger] family_of(k, p).contains_key(l)
                <==> family_of(g, p).contains_key(l)) && (family_of(g, p).contains_key(l)
                ==> family_of(k, p)[l] == family_of(g, p)[l]) by {
            assert(cs[m as int].sensor != (p, l.2) || l.0 != station || l.1 != name);
            assert(forall|i: int|
                0 <= i < m ==> #[trigger] cs[i].sensor != (p, l.2) || l.0 != station || l.1
                    != name);
            assert(family_of(h, p).contains_key(l) <==> family_of(g, p).contains_key(l));
            assert(family_of(g, p).contains_key(l) ==> family_of(h, p)[l] == family_of(g, p)[l]);
            if p == c.sensor.0 {
                assert(l != (station, name, c.sensor.1));
            }
            assert(family_of(k, p).contains_key(l) <==> family_of(h, p).contains_key(l));
            assert(family_of(h, p).contains_key(l) ==> family_of(k, p)[l] == family_of(h, p)[l]);
        }
    }
}

/// A fully successful scrape of a listing with `k` recognised codes makes `k` reads,
/// one per fetched sensor, and sets exactly the `k` label sets of those sensors.
pub proof fn lemma_full_scrape(
    g: Gauges,
    station: u32,
    name: Seq<char>,
    s: Seq<Sensor>,
    cs: Seq<Completion>,
)
    requires
        cs.len() == known_of(s).len(),
        forall|i: int|
            0 <= i < cs.len() ==> exists|j: int|
                0 <= j < known_of(s).len() && known_of(s)[j] == (#[trigger] cs[i]).sensor,
        forall|i: int| 0 <= i < cs.len() ==> #[trigger] completion_outcome(cs[i]) is Ok,
        forall|a: int, b: int| 0 <= a < b < cs.len() ==> cs[a].sensor.1 != cs[b].sensor.1,
    ensures
        cs.len() == recognized_count(s),
        absorbed(g, station, name, cs, cs.len()).1 is Ok,
        sets_exactly(g, absorbed(g, station, name, cs, cs.len()).0, station, name, cs, cs.len()),
{
    lemma_known_sensors(s);
    lemma_all_readings_set(g, station, name, cs);
}

/// From gauges `g` to `h`, each of the first `n` completions has its label set hold
/// its reading, and every other label set is as it was.
pub open spec fn sets_exactly(
    g: Gauges,
    h: Gauges,
    station: u32,
    name: Seq<char>,
    cs: Seq<Completion>,
    n: nat,
) -> bool {
    &&& forall|i: int|
        0 <= i < n ==> family_of(h, cs[i].sensor.0).contains_key((station, name, cs[i].sensor.1))
            && family_of(h, cs[i].sensor.0)[(station, name, cs[i].sensor.1)]
            == completion_outcome(#[trigger] cs[i])->Ok_0
    &&& forall|p: Param, l: (u32, Seq<char>, u32)|
        (forall|i: int|
            0 <= i < n ==> #[trigger] cs[i].sensor != (p, l.2) || l.0 != station || l.1 != name)
            ==> (#[trigger] family_of(h, p).contains_key(l) <==> family_of(g, p).contains_key(l))
            && (family_of(g, p).contains_key(l) ==> family_of(h, p)[l] == family_of(g, p)[l])
}

proof fn lemma_absorbed_prefix(
    g: Gauges,
    station: u32,
    name: Seq<char>,
    cs: Seq<Completion>,
    ds: Seq<Completion>,
    n: nat,
)
    requires
        n <= cs.len(),
        n <= ds.len(),
        forall|j: int| 0 <= j < n ==> cs[j] == ds[j],
    ensures
        absorbed(g, station, name, cs, n) == absorbed(g, station, name, ds, n),
    decreases n,
{
    if n > 0 {
        lemma_absorbed_prefix(g, station, name, cs, ds, (n - 1) as nat);
        assert(cs[n - 1] == ds[n - 1]);
    }
}

/// A scrape whose completion at position `i` yields no reading (a null value, no
/// data, a failed call or task) fails with that error, after the readings completed
/// before it were set; its own label set and those of later completions stay as
/// they were.
pub proof fn lemma_failed_reading_stops(
    g: Gauges,
    station: u32,
    name: Seq<char>,
    cs: Seq<Completion>,
    i: int,
)
    requires
        0 <= i < cs.len(),
        forall|j: int| 0 <= j < i ==> #[trigger] completion_outcome(cs[j]) is Ok,
        completion_outcome(cs[i]) is Err,
        forall|a: int, b: int| 0 <= a < b < cs.len() ==> cs[a].sensor.1 != cs[b].sensor.1,
    ensures
        absorbed(g, station, name, cs, cs.len()).1 == Err::<(), ScrapeError>(
            completion_outcome(cs[i])->Err_0,
        ),
        sets_exactly(g, absorbed(g, station, name, cs, cs.len()).0, station, name, cs, i as nat),
{
    let pre = cs.subrange(0, i);
    lemma_absorbed_prefix(g, station, name, cs, pre, i as nat);
    assert forall|j: int| 0 <= j < pre.len() implies #[trigger] completion_outcome(pre[j]) is Ok by {
        assert(pre[j] == cs[j]);
    }
    lemma_all_readings_prefix(g, station, name, pre, i as nat);
    let h = absorbed(g, station, name, cs, i as nat).0;
    assert forall|j: int| 0 <= j < i implies family_of(h, cs[j].sensor.0).contains_key(
        (station, name, cs[j].sensor.1),
    ) && family_of(h, cs[j].sensor.0)[(station, name, cs[j].sensor.1)]
        == completion_outcome(#[trigger] cs[j])->Ok_0 by {
        assert(pre[j] == cs[j]);
    }
    assert forall|p: Param, l: (u32, Seq<char>, u32)|
        (forall|j: int|
            0 <= j < i ==> #[trigger] cs[j].sensor != (p, l.2) || l.0 != station || l.1 != name)
            implies (#[trigger] family_of(h, p).contains_key(l) <==> family_of(g, p).contains_key(l))
            && (family_of(g, p).contains_key(l) ==> family_of(h, p)[l] == family_of(g, p)[l]) by {
        assert forall|j: int|
            0 <= j < i implies #[trigger] pre[j].sensor != (p, l.2) || l.0 != station || l.1
                != name by {
            assert(pre[j] == cs[j]);
        }
    }
    assert(absorbed(g, station, name, cs, (i + 1) as nat).1 is Err);
    lemma_absorbed_stays_failed(g, station, name, cs, (i + 1) as nat, cs.len());
}

/// What a run of completions writes, on empty gauges.
pub open spec fn writes_of(station: u32, name: Seq<char>, cs: Seq<Completion>, n: nat) -> (
    Gauges,
    Result<(), ScrapeError>,
) {
    absorbed((Map::empty(), Map::empty()), station, name, cs, n)
}

/// Absorbing completions overlays their writes on the gauges, and its outcome does
/// not depend on the gauges.
pub proof fn lemma_absorbed_overlay(
    g: Gauges,
    station: u32,
    name: Seq<char>,
    cs: Seq<Completion>,
    n: nat,
)
    ensures
        absorbed(g, station, name, cs, n).0 == (
            g.0.union_prefer_right(writes_of(station, name, cs, n).0.0),
            g.1.union_prefer_right(writes_of(station, name, cs, n).0.1),
        ),
        absorbed(g, station, name, cs, n).1 == writes_of(station, name, cs, n).1,
    decreases n,
{
    if n > 0 {
        let m = (n - 1) as nat;
        lemma_absorbed_overlay(g, station, name, cs, m);
        let w = writes_of(station, name, cs, m).0;
        let h = absorbed(g, station, name, cs, m).0;
        let c = cs[m as int];
        match completion_outcome(c) {
            Ok(x) => {
                let label = (station, name, c.sensor.1);
                assert(g.0.union_prefer_right(w.0).insert(label, x) =~= g.0.union_prefer_right(
                    w.0.insert(label, x),
                ));
                assert(g.1.union_prefer_right(w.1).insert(label, x) =~= g.1.union_prefer_right(
                    w.1.insert(label, x),
                ));
            },
            Err(_) => {},
        }
    }
}

/// Repeating a scrape with the same replies leaves the gauges as one scrape did,
/// with the same outcome.
pub proof fn lemma_scrape_idempotent(
    g: Gauges,
    station: u32,
    name: Seq<char>,
    cs: Seq<Completion>,
)
    ensures
        absorbed(absorbed(g, station, name, cs, cs.len()).0, station, name, cs, cs.len())
            == absorbed(g, station, name, cs, cs.len()),
{
    let n = cs.len();
    let once = absorbed(g, station, name, cs, n).0;
    lemma_absorbed_overlay(g, station, name, cs, n);
    lemma_absorbed_overlay(once, station, name, cs, n);
    let w = writes_of(station, name, cs, n).0;
    assert(once.0.union_prefer_right(w.0) =~= once.0);
    assert(once.1.union_prefer_right(w.1) =~= once.1);
}

/// The sensors of a listing whose code names a known pollutant.
pub fn known_sensors(sensors: &Vec<Sensor>) -> (r: Vec<KnownSensor>)
    ensures
        r@ == known_of(sensors@),
{
    let mut out: Vec<KnownSensor> = Vec::new();
    let mut i: usize = 0;
    while i < sensors.len()
        invariant
            i <= sensors@.len(),
            out@ == known_of(sensors@.subrange(0, i as int)),
        decreases sensors@.len() - i,
    {
        let s = &sensors[i];
        assert(sensors@.subrange(0, i + 1).drop_last() =~= sensors@.subrange(0, i as int));
        match Param::from_code(s.param.code.as_str()) {
            Some(p) => out.push((p, s.id)),
            None => {},
        }
        i = i + 1;
    }
    assert(sensors@.subrange(0, sensors@.len() as int) =~= sensors@);
    out
}

/// The latest of a sensor's values: the greatest date, the first of equal dates.
pub fn latest_value(values: &Vec<DataValue>) -> (r: Option<DataValue>)
    ensures
        r == latest_of(values@),
{
    let mut best: Option<DataValue> = None;
    let mut i: usize = 0;
    while i < values.len()
        invariant
            i <= values@.len(),
            best == latest_of(values@.subrange(0, i as int)),
        decreases values@.len() - i,
    {
        assert(values@.subrange(0, i + 1).drop_last() =~= values@.subrange(0, i as int));
        let v = values[i];
        best = match best {
            None => Some(v),
            Some(b) => if v.date > b.date {
                Some(v)
            } else {
                Some(b)
            },
        };
        i = i + 1;
    }
    assert(values@.subrange(0, values@.len() as int) =~= values@);
    best
}

/// The reading that a data reply yields.
pub fn reading_of(data: Result<GetDataResp, ApiError>) -> (r: Result<u64, ScrapeError>)
    ensures
        r == data_outcome(data),
{
    match data {
        Err(e) => Err(ScrapeError::Http(e)),
        Ok(resp) => match latest_value(&resp.values) {
            None => Err(ScrapeError::NoData),
            Some(v) => match v.value {
                None => Err(ScrapeError::NoDataValue),
                Some(x) => Ok(x),
            },
        },
    }
}

/// Scrapes the PJP API and keeps the air-quality gauges.
pub struct Scraper {
    pub metrics: AirQualityMetrics,
    pub api: API,
}

impl Scraper {
    pub open spec fn wf(&self) -> bool {
        self.metrics.wf() && self.api.wf()
    }

    pub open spec fn gauges(&self) -> Gauges {
        (self.metrics.pm25@, self.metrics.pm10@)
    }

    /// A scraper over the given client and gauges.
    pub fn new(api: API, metrics: AirQualityMetrics) -> (r: Scraper)
        ensures
            r.api == api,
            r.metrics == metrics,
    {
        Scraper { api, metrics }
    }

    /// Takes completed fetches in the order they completed, and stops at the first
    /// that yields no reading. Gauges set before that point stay set.
    pub fn absorb(&mut self, station_id: u32, name: &str, completions: Vec<Completion>) -> (r: Result<
        (),
        ScrapeError,
    >)
        requires
            old(self).wf(),
        ensures
            final(self).wf(),
            (final(self).gauges(), r) == absorbed(
                old(self).gauges(),
                station_id,
                name@,
                completions@,
                completions@.len(),
            ),
    {
        let ghost cs = completions@;
        let ghost g0 = self.gauges();
        let n = completions.len();
        let mut rest = completions;
        let mut i: usize = 0;
        assert(rest@ == cs.subrange(0, n as int));
        #[verifier::loop_isolation(false)]
        while i < n
            invariant
                self.wf(),
                n == cs.len(),
                i <= n,
                rest@.len() == n - i,
                rest@ == cs.subrange(i as int, n as int),
                (self.gauges(), Ok::<(), ScrapeError>(())) == absorbed(g0, station_id, name@, cs, i as nat),
            decreases n - i,
        {
            let c = rest.remove(0);
            assert(c == cs[i as int]);
            let res = self.on_reading(station_id, name, c);
            i = i + 1;
            assert(absorbed(g0, station_id, name@, cs, i as nat) == (self.gauges(), res));
            if let Err(e) = res {
                proof {
                    lemma_absorbed_stays_failed(g0, station_id, name@, cs, i as nat, n as nat);
                }
                return Err(e);
            }
        }
        Ok(())
    }

    /// Takes the reply of the sensor listing: accounts for the call, and gives the
    /// sensors to fetch, or the failure that ends the scrape. No gauge changes.
    pub fn begin(&mut self, listing: Reply<Vec<Sensor>>) -> (r: Result<Vec<KnownSensor>, ScrapeError>)
        requires
            old(self).wf(),
        ensures
            final(self).wf(),
            final(self).metrics == old(self).metrics,
            final(self).api.metrics.errors@ == crate::api::errors_after(
                old(self).api.metrics.errors@,
                Endpoint::StationSensors,
                listing,
            ),
            final(self).api.metrics.latency_seconds@ == crate::api::observations_after(
                old(self).api.metrics.latency_seconds@,
                Endpoint::StationSensors,
            ),
            match r {
                Ok(k) => exists|v: Vec<Sensor>|
                    reply_result(listing) == Ok::<Vec<Sensor>, ApiError>(v) && k@ == known_of(v@),
                Err(e) => exists|x: ApiError|
                    reply_result(listing) == Err::<Vec<Sensor>, ApiError>(x) && e
                        == ScrapeError::Http(x),
            },
    {
        self.api.observe(Endpoint::StationSensors);
        match self.api.on_response(Endpoint::StationSensors, listing) {
            Ok(sensors) => Ok(known_sensors(&sensors)),
            Err(e) => Err(ScrapeError::Http(e)),
        }
    }

    /// Takes one completed fetch: accounts for its call, and on a reading sets the
    /// sensor's gauge, labelled with the station, its name and the sensor.
    pub fn on_reading(&mut self, station_id: u32, name: &str, c: Completion) -> (r: Result<(), ScrapeError>)
        requires
            old(self).wf(),
        ensures
            final(self).wf(),
            r == match completion_outcome(c) {
                Ok(_) => Ok::<(), ScrapeError>(()),
                Err(e) => Err(e),
            },
            final(self).gauges() == match completion_outcome(c) {
                Ok(x) => gauges_set(old(self).gauges(), station_id, name@, c.sensor, x),
                Err(_) => old(self).gauges(),
            },
            match c.task {
                Some(reply) => final(self).api.metrics.errors@ == crate::api::errors_after(
                    old(self).api.metrics.errors@,
                    Endpoint::Data,
                    reply,
                ) && final(self).api.metrics.latency_seconds@ == crate::api::observations_after(
                    old(self).api.metrics.latency_seconds@,
                    Endpoint::Data,
                ),
                None => final(self).api.metrics == old(self).api.metrics,
            },
    {
        let ghost c0 = c;
        let sensor = c.sensor;
        match c.task {
            None => Err(ScrapeError::TokioTask),
            Some(reply) => {
                self.api.observe(Endpoint::Data);
                let data = self.api.on_response(Endpoint::Data, reply);
                match reading_of(data) {
                    Err(e) => Err(e),
                    Ok(x) => {
                        let labels = AirQualityLabels {
                            station: station_id,
                            station_name: String::from_str(name),
                            sensor: sensor.1,
                        };
                        match sensor.0 {
                            Param::PM25 => self.metrics.pm25.set(&labels, x),
                            Param::PM10 => self.metrics.pm10.set(&labels, x),
                        }
                        Ok(())
                    },
                }
            },
        }
    }
}

} // verus!
