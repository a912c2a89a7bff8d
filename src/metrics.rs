//! Label sets and the label-indexed metric families that a scrape updates.
//!
//! A family maps each label set, compared by value, to one instrument, and creates
//! the instrument at zero the first time its label set is used. Gauge values are
//! carried as the bit pattern of the reading (`f64::to_bits`), so that the family
//! stores exactly what the upstream reported.
use vstd::prelude::*;

verus! {

/// A label set: a value type whose equality is structural over its view.
pub trait LabelSet: Sized + View {
    /// Compares two label sets by value.
    fn same(&self, other: &Self) -> (r: bool)
        ensures
            r == (self@ == other@);

    /// A copy with the same labels.
    fn duplicate(&self) -> (r: Self)
        ensures
            r@ == self@;
}

/// Labels of the air-quality gauges.
#[derive(Clone, Debug, PartialEq, Eq, Hash)]
pub struct AirQualityLabels {
    pub station: u32,
    pub station_name: String,
    pub sensor: u32,
}

/// Labels of the API error counter.
#[derive(Clone, Debug, PartialEq, Eq, Hash)]
pub struct ApiErrorLabels {
    pub code: u16,
    pub endpoint: String,
}

/// Labels of the API latency histogram.
#[derive(Clone, Debug, PartialEq, Eq, Hash)]
pub struct ApiLabels {
    pub endpoint: String,
}

impl View for AirQualityLabels {
    type V = (u32, Seq<char>, u32);

    open spec fn view(&self) -> (u32, Seq<char>, u32) {
        (self.station, self.station_name@, self.sensor)
    }
}

impl View for ApiErrorLabels {
    type V = (u16, Seq<char>);

    open spec fn view(&self) -> (u16, Seq<char>) {
        (self.code, self.endpoint@)
    }
}

impl View for ApiLabels {
    type V = Seq<char>;

    open spec fn view(&self) -> Seq<char> {
        self.endpoint@
    }
}

impl LabelSet for AirQualityLabels {
    fn same(&self, other: &Self) -> (r: bool) {
        self.station == other.station && self.sensor == other.sensor && self.station_name
            == other.station_name
    }

    fn duplicate(&self) -> (r: Self) {
        AirQualityLabels {
            station: self.station,
            station_name: self.station_name.clone(),
            sensor: self.sensor,
        }
    }
}

impl LabelSet for ApiErrorLabels {
    fn same(&self, other: &Self) -> (r: bool) {
        self.code == other.code && self.endpoint == other.endpoint
    }

    fn duplicate(&self) -> (r: Self) {
        ApiErrorLabels { code: self.code, endpoint: self.endpoint.clone() }
    }
}

impl LabelSet for ApiLabels {
    fn same(&self, other: &Self) -> (r: bool) {
        self.endpoint == other.endpoint
    }

    fn duplicate(&self) -> (r: Self) {
        ApiLabels { endpoint: self.endpoint.clone() }
    }
}

/// A counter step: one up, held at the largest value rather than wrapping.
pub open spec fn bumped(v: u64) -> u64 {
    if v < u64::MAX {
        (v + 1) as u64
    } else {
        v
    }
}

/// The value of a label set in a family, zero where it was never used.
pub open spec fn value_or_zero<K>(m: Map<K, u64>, k: K) -> u64 {
    if m.contains_key(k) {
        m[k]
    } else {
        0
    }
}

/// A family of instruments indexed by label set, each holding one `u64`.
pub struct Family<L: LabelSet> {
    entries: Vec<(L, u64)>,
    contents: Ghost<Map<L::V, u64>>,
}

impl<L: LabelSet> View for Family<L> {
    type V = Map<L::V, u64>;

    closed spec fn view(&self) -> Map<L::V, u64> {
        self.contents@
    }
}

impl<L: LabelSet> Family<L> {
    /// Each label set is stored once, and the stored pairs are exactly the view.
    pub closed spec fn wf(&self) -> bool {
        &&& forall|i: int, j: int|
            0 <= i < j < self.entries@.len() ==> self.entries@[i].0@ != self.entries@[j].0@
        &&& forall|i: int|
            0 <= i < self.entries@.len() ==> #[trigger] self.contents@.contains_key(
                self.entries@[i].0@,
            ) && self.contents@[self.entries@[i].0@] == self.entries@[i].1
        &&& forall|k: L::V|
            #[trigger] self.contents@.contains_key(k) ==> exists|i: int|
                0 <= i < self.entries@.len() && self.entries@[i].0@ == k
    }

    /// An empty family.
    pub fn new() -> (r: Self)
        ensures
            r.wf(),
            r@ == Map::<L::V, u64>::empty(),
    {
        Family { entries: Vec::new(), contents: Ghost(Map::empty()) }
    }

    /// The number of label sets in use.
    pub fn len(&self) -> (r: usize)
        requires
            self.wf(),
        ensures
            r == self@.len(),
            r == self.len_spec(),
    {
        proof {
            self.lemma_len();
        }
        self.entries.len()
    }

    proof fn lemma_len(&self)
        requires
            self.wf(),
        ensures
            self@.dom().finite(),
            self@.len() == self.entries@.len(),
    {
        let keys = Seq::new(self.entries@.len(), |i: int| self.entries@[i].0@);
        assert(keys.no_duplicates());
        assert forall|k: L::V| self@.dom().contains(k) implies keys.to_set().contains(k) by {
            let i = choose|i: int| 0 <= i < self.entries@.len() && self.entries@[i].0@ == k;
            assert(keys[i] == k);
        }
        assert forall|k: L::V| keys.to_set().contains(k) implies self@.dom().contains(k) by {
            let i = choose|i: int| 0 <= i < keys.len() && keys[i] == k;
            assert(self.contents@.contains_key(self.entries@[i].0@));
        }
        assert(self@.dom() =~= keys.to_set());
        keys.unique_seq_to_set();
    }

    /// The label set and value stored at a position, for walking the family.
    pub fn entry(&self, i: usize) -> (r: (&L, u64))
        requires
            self.wf(),
            i < self.len_spec(),
        ensures
            self@.contains_key(r.0@),
            self@[r.0@] == r.1,
    {
        (&self.entries[i].0, self.entries[i].1)
    }

    /// The number of label sets in use, as the bound for `entry`.
    pub closed spec fn len_spec(&self) -> nat {
        self.entries@.len()
    }

    fn position(&self, labels: &L) -> (r: Option<usize>)
        requires
            self.wf(),
        ensures
            match r {
                Some(i) => i < self.entries@.len() && self.entries@[i as int].0@ == labels@,
                None => !self@.contains_key(labels@),
            },
    {
        let mut i: usize = 0;
        while i < self.entries.len()
            invariant
                self.wf(),
                i <= self.entries@.len(),
                forall|j: int| 0 <= j < i ==> self.entries@[j].0@ != labels@,
            decreases self.entries@.len() - i,
        {
            if self.entries[i].0.same(labels) {
                return Some(i);
            }
            i = i + 1;
        }
        None
    }

    /// The value held for a label set, if it was ever used.
    pub fn get(&self, labels: &L) -> (r: Option<u64>)
        requires
            self.wf(),
        ensures
            r == (if self@.contains_key(labels@) {
                Some(self@[labels@])
            } else {
                None::<u64>
            }),
    {
        match self.position(labels) {
            Some(i) => Some(self.entries[i].1),
            None => None,
        }
    }

    /// Sets the value of a label set, creating it if needed; the last write wins.
    pub fn set(&mut self, labels: &L, value: u64)
        requires
            old(self).wf(),
        ensures
            final(self).wf(),
            final(self)@ == old(self)@.insert(labels@, value),
    {
        let ghost target = self@.insert(labels@, value);
        let ghost slot: int;
        match self.position(labels) {
            Some(i) => {
                let key = labels.duplicate();
                self.entries.set(i, (key, value));
                proof {
                    slot = i as int;
                }
            },
            None => {
                let key = labels.duplicate();
                self.entries.push((key, value));
                proof {
                    slot = self.entries@.len() - 1;
                }
            },
        }
        self.contents = Ghost(target);
        assert(self.entries@[slot].0@ == labels@);
        assert forall|k: L::V| #[trigger] self.contents@.contains_key(k) implies exists|i: int|
            0 <= i < self.entries@.len() && self.entries@[i].0@ == k by {
            if k != labels@ {
                let j = choose|j: int|
                    0 <= j < old(self).entries@.len() && old(self).entries@[j].0@ == k;
                assert(self.entries@[j].0@ == k);
            }
        }
    }

    /// Adds one to the value of a label set, creating it at zero if needed.
    pub fn inc(&mut self, labels: &L)
        requires
            old(self).wf(),
        ensures
            final(self).wf(),
            final(self)@ == old(self)@.insert(labels@, bumped(value_or_zero(old(self)@, labels@))),
    {
        let current = match self.get(labels) {
            Some(v) => v,
            None => 0,
        };
        let next = if current < u64::MAX {
            current + 1
        } else {
            current
        };
        self.set(labels, next);
    }
}

/// The last reading of each sensor, one gauge family per pollutant.
pub struct AirQualityMetrics {
    pub pm25: Family<AirQualityLabels>,
    pub pm10: Family<AirQualityLabels>,
}

impl AirQualityMetrics {
    pub open spec fn wf(&self) -> bool {
        self.pm25.wf() && self.pm10.wf()
    }

    /// Both gauge families empty.
    pub fn new() -> (r: Self)
        ensures
            r.wf(),
            r.pm25@ == Map::<(u32, Seq<char>, u32), u64>::empty(),
            r.pm10@ == Map::<(u32, Seq<char>, u32), u64>::empty(),
    {
        AirQualityMetrics { pm25: Family::new(), pm10: Family::new() }
    }
}

/// Instrumentation of the upstream API: error counts per (code, endpoint), and the
/// number of latency observations per endpoint template.
pub struct ApiMetrics {
    pub errors: Family<ApiErrorLabels>,
    pub latency_seconds: Family<ApiLabels>,
}

impl ApiMetrics {
    pub open spec fn wf(&self) -> bool {
        self.errors.wf() && self.latency_seconds.wf()
    }

    /// No errors and no observations yet.
    pub fn new() -> (r: Self)
        ensures
            r.wf(),
            r.errors@ == Map::<(u16, Seq<char>), u64>::empty(),
            r.latency_seconds@ == Map::<Seq<char>, u64>::empty(),
    {
        ApiMetrics { errors: Family::new(), latency_seconds: Family::new() }
    }
}

/// All metrics of the exporter.
pub struct Metrics {
    pub air_quality: AirQualityMetrics,
    pub api_metrics: ApiMetrics,
}

impl Metrics {
    pub open spec fn wf(&self) -> bool {
        self.air_quality.wf() && self.api_metrics.wf()
    }

    /// Every family empty.
    pub fn new() -> (r: Self)
        ensures
            r.wf(),
            r.air_quality.pm25@ == Map::<(u32, Seq<char>, u32), u64>::empty(),
            r.air_quality.pm10@ == Map::<(u32, Seq<char>, u32), u64>::empty(),
            r.api_metrics.errors@ == Map::<(u16, Seq<char>), u64>::empty(),
            r.api_metrics.latency_seconds@ == Map::<Seq<char>, u64>::empty(),
    {
        Metrics { air_quality: AirQualityMetrics::new(), api_metrics: ApiMetrics::new() }
    }
}

} // verus!
