use pjp_exporter::api::{ApiError, Endpoint, Reply, API};
use pjp_exporter::metrics::{AirQualityLabels, AirQualityMetrics, ApiErrorLabels, ApiLabels, ApiMetrics, Family, Metrics};
use pjp_exporter::pollutant::Param;
use pjp_exporter::scraper::{
    known_sensors, latest_value, reading_of, Completion, DataValue, GetDataResp, ScrapeError,
    Scraper, Sensor, SensorParam,
};

fn sensor(id: u32, code: &str) -> Sensor {
    Sensor {
        id,
        station_id: 530,
        param: SensorParam {
            name: format!("param {}", code),
            formula: code.to_string(),
            code: code.to_string(),
            id: 1,
        },
    }
}

fn data(values: Vec<(i64, Option<f64>)>) -> GetDataResp {
    GetDataResp {
        key: "PM2.5".to_string(),
        values: values
            .into_iter()
            .map(|(date, v)| DataValue { date, value: v.map(f64::to_bits) })
            .collect(),
    }
}

fn completion(p: Param, id: u32, reply: Reply<GetDataResp>) -> Completion {
    Completion { sensor: (p, id), task: Some(reply) }
}

fn labels(sensor: u32) -> AirQualityLabels {
    AirQualityLabels { station: 530, station_name: "waw-niepodleglosci".to_string(), sensor }
}

fn new_scraper() -> Scraper {
    Scraper::new(API::new(ApiMetrics::new()), AirQualityMetrics::new())
}

fn latency(s: &Scraper, e: Endpoint) -> Option<u64> {
    s.api.metrics.latency_seconds.get(&ApiLabels { endpoint: e.template() })
}

#[test]
fn param_from_code_recognises_exact_codes() {
    assert_eq!(Param::from_code("PM2.5"), Some(Param::PM25));
    assert_eq!(Param::from_code("PM10"), Some(Param::PM10));
    assert_eq!(Param::from_code("NO2"), None);
    assert_eq!(Param::from_code("pm10"), None);
    assert_eq!(Param::from_code("PM2.5 "), None);
    assert_eq!(Param::from_code(""), None);
    assert_eq!("PM10".parse::<Param>(), Ok(Param::PM10));
    assert_eq!("SO2".parse::<Param>(), Err(()));
}

#[test]
fn param_from_str_matches_exactly() {
    assert_eq!("PM2.5".parse::<Param>(), Ok(Param::PM25));
    for code in ["NO2", "pm2.5", "PM25", "PM2.5 ", ""] {
        assert_eq!(code.parse::<Param>(), Err(()));
    }
}

#[test]
fn known_sensors_keep_listing_order() {
    let sensors = vec![sensor(3, "PM10"), sensor(1, "NO2"), sensor(7, "PM2.5"), sensor(9, "O3")];
    assert_eq!(known_sensors(&sensors), vec![(Param::PM10, 3), (Param::PM25, 7)]);
    assert_eq!(known_sensors(&vec![]), vec![]);
}

#[test]
fn urls_and_templates() {
    assert_eq!(Endpoint::FindAllStations.url(0), "https://api.gios.gov.pl/pjp-api/rest/station/findAll");
    assert_eq!(Endpoint::StationSensors.url(530), "https://api.gios.gov.pl/pjp-api/rest/station/sensors/530");
    assert_eq!(Endpoint::Data.url(0), "https://api.gios.gov.pl/pjp-api/rest/data/getData/0");
    assert_eq!(Endpoint::Data.url(4294967295), "https://api.gios.gov.pl/pjp-api/rest/data/getData/4294967295");
    assert_eq!(Endpoint::StationSensors.template(), "/pjp-api/rest/station/sensors/{station_id}");
    assert_eq!(Endpoint::Data.template(), "/pjp-api/rest/data/getData/{sensor_id}");
}

#[test]
fn family_creates_on_first_use_and_last_write_wins() {
    let mut f: Family<AirQualityLabels> = Family::new();
    assert_eq!(f.len(), 0);
    assert_eq!(f.get(&labels(1)), None);
    f.set(&labels(1), 5);
    f.set(&labels(2), 6);
    f.set(&labels(1), 7);
    assert_eq!(f.len(), 2);
    assert_eq!(f.get(&labels(1)), Some(7));
    assert_eq!(f.get(&labels(2)), Some(6));
    let (l, v) = f.entry(1);
    assert_eq!(l.sensor, 2);
    assert_eq!(v, 6);
}

#[test]
fn counter_family_increments_from_zero() {
    let mut f: Family<ApiErrorLabels> = Family::new();
    let l = ApiErrorLabels { code: 500, endpoint: "x".to_string() };
    f.inc(&l);
    f.inc(&l);
    assert_eq!(f.get(&l), Some(2));
    f.set(&l, u64::MAX);
    f.inc(&l);
    assert_eq!(f.get(&l), Some(u64::MAX));
}

#[test]
fn on_response_classifies_and_counts() {
    let mut api = API::new(ApiMetrics::new());
    assert_eq!(api.on_response(Endpoint::Data, Reply::Received(200, Some(3u8))), Ok(3u8));
    assert_eq!(api.on_response::<u8>(Endpoint::Data, Reply::Received(200, None)), Err(ApiError::Decode));
    assert_eq!(api.on_response::<u8>(Endpoint::Data, Reply::Received(404, None)), Err(ApiError::Status(404)));
    assert_eq!(api.on_response::<u8>(Endpoint::Data, Reply::Unreachable), Err(ApiError::Transport));
    assert_eq!(api.on_response(Endpoint::Data, Reply::Received(302, Some(1u8))), Ok(1u8));
    let data_label = ApiLabels { endpoint: Endpoint::Data.template() };
    assert_eq!(api.metrics.latency_seconds.get(&data_label), None);
    assert_eq!(api.metrics.errors.len(), 1);
    let e = ApiErrorLabels { code: 404, endpoint: Endpoint::Data.template() };
    assert_eq!(api.metrics.errors.get(&e), Some(1));
}

#[test]
fn observe_counts_latency_only() {
    let mut api = API::new(ApiMetrics::new());
    api.observe(Endpoint::Data);
    api.observe(Endpoint::Data);
    api.observe(Endpoint::FindAllStations);
    let data_label = ApiLabels { endpoint: Endpoint::Data.template() };
    let all_label = ApiLabels { endpoint: Endpoint::FindAllStations.template() };
    assert_eq!(api.metrics.latency_seconds.get(&data_label), Some(2));
    assert_eq!(api.metrics.latency_seconds.get(&all_label), Some(1));
    assert_eq!(api.metrics.errors.len(), 0);
}

#[test]
fn latency_observations_count_every_call() {
    let mut s = new_scraper();
    let _ = s.begin(Reply::Received(500, None));
    let _ = s.begin(Reply::Unreachable);
    let _ = s.begin(Reply::Received(200, Some(vec![sensor(1, "PM10")])));
    assert_eq!(latency(&s, Endpoint::StationSensors), Some(3));
    assert_eq!(latency(&s, Endpoint::Data), None);
}

#[test]
fn latest_value_takes_greatest_date() {
    let values = vec![
        DataValue { date: 10, value: Some(1) },
        DataValue { date: 30, value: None },
        DataValue { date: 30, value: Some(3) },
        DataValue { date: 20, value: Some(2) },
    ];
    assert_eq!(latest_value(&values), Some(DataValue { date: 30, value: None }));
    assert_eq!(latest_value(&vec![]), None);
}

#[test]
fn reading_of_reports_missing_data() {
    assert_eq!(reading_of(Ok(data(vec![]))), Err(ScrapeError::NoData));
    assert_eq!(reading_of(Ok(data(vec![(5, None), (4, Some(1.0))]))), Err(ScrapeError::NoDataValue));
    assert_eq!(reading_of(Ok(data(vec![(5, Some(2.5)), (4, None)]))), Ok(2.5f64.to_bits()));
    assert_eq!(reading_of(Err(ApiError::Status(503))), Err(ScrapeError::Http(ApiError::Status(503))));
}

#[test]
fn scenario_only_known_sensor_fetched() {
    let mut s = new_scraper();
    let plan = s
        .begin(Reply::Received(200, Some(vec![sensor(1, "PM2.5"), sensor(2, "NO2")])))
        .unwrap();
    assert_eq!(plan, vec![(Param::PM25, 1)]);
    let cs = vec![completion(Param::PM25, 1, Reply::Received(200, Some(data(vec![(100, Some(12.3))]))))];
    assert_eq!(s.absorb(530, "waw-niepodleglosci", cs), Ok(()));
    assert_eq!(s.metrics.pm25.get(&labels(1)), Some(12.3f64.to_bits()));
    assert_eq!(f64::from_bits(s.metrics.pm25.get(&labels(1)).unwrap()), 12.3);
    assert_eq!(s.metrics.pm25.len(), 1);
    assert_eq!(s.metrics.pm10.len(), 0);
}

#[test]
fn scenario_listing_server_error() {
    let mut s = new_scraper();
    s.metrics.pm10.set(&labels(4), 1);
    let r = s.begin(Reply::Received(500, None));
    assert_eq!(r, Err(ScrapeError::Http(ApiError::Status(500))));
    let e = ApiErrorLabels { code: 500, endpoint: Endpoint::StationSensors.template() };
    assert_eq!(s.api.metrics.errors.get(&e), Some(1));
    assert_eq!(s.metrics.pm10.len(), 1);
    assert_eq!(s.metrics.pm10.get(&labels(4)), Some(1));
    assert_eq!(s.metrics.pm25.len(), 0);
}

#[test]
fn scenario_null_value_keeps_earlier_gauges() {
    let mut s = new_scraper();
    let cs = vec![
        completion(Param::PM10, 2, Reply::Received(200, Some(data(vec![(100, Some(40.0))])))),
        completion(Param::PM25, 1, Reply::Received(200, Some(data(vec![(100, None)])))),
        completion(Param::PM25, 3, Reply::Received(200, Some(data(vec![(100, Some(9.0))])))),
    ];
    assert_eq!(s.absorb(530, "waw-niepodleglosci", cs), Err(ScrapeError::NoDataValue));
    assert_eq!(s.metrics.pm10.get(&labels(2)), Some(40.0f64.to_bits()));
    assert_eq!(s.metrics.pm25.get(&labels(1)), None);
    assert_eq!(s.metrics.pm25.get(&labels(3)), None);
}

#[test]
fn task_failure_aborts_scrape() {
    let mut s = new_scraper();
    let cs = vec![Completion { sensor: (Param::PM10, 2), task: None }];
    assert_eq!(s.absorb(530, "x", cs), Err(ScrapeError::TokioTask));
    assert_eq!(latency(&s, Endpoint::Data), None);
}

#[test]
fn full_scrape_sets_every_known_sensor() {
    let mut s = new_scraper();
    let listing = vec![sensor(1, "PM2.5"), sensor(2, "PM10"), sensor(3, "CO"), sensor(4, "PM10")];
    let plan = s.begin(Reply::Received(200, Some(listing))).unwrap();
    assert_eq!(plan.len(), 3);
    let cs: Vec<Completion> = plan
        .iter()
        .rev()
        .map(|&(p, id)| completion(p, id, Reply::Received(200, Some(data(vec![(1, Some(id as f64))])))))
        .collect();
    assert_eq!(s.absorb(530, "waw-niepodleglosci", cs), Ok(()));
    assert_eq!(s.metrics.pm25.len() + s.metrics.pm10.len(), 3);
    assert_eq!(s.metrics.pm10.get(&labels(4)), Some(4.0f64.to_bits()));
    assert_eq!(latency(&s, Endpoint::Data), Some(3));
    assert_eq!(latency(&s, Endpoint::StationSensors), Some(1));
}

#[test]
fn repeated_scrape_gives_same_gauges() {
    let mut s = new_scraper();
    let make = || {
        vec![
            completion(Param::PM10, 2, Reply::Received(200, Some(data(vec![(1, Some(11.0))])))),
            completion(Param::PM25, 1, Reply::Received(200, Some(data(vec![(1, Some(22.0))])))),
        ]
    };
    assert_eq!(s.absorb(530, "w", make()), Ok(()));
    let first = (s.metrics.pm10.get(&labels_named(2)), s.metrics.pm25.get(&labels_named(1)));
    assert_eq!(s.absorb(530, "w", make()), Ok(()));
    let second = (s.metrics.pm10.get(&labels_named(2)), s.metrics.pm25.get(&labels_named(1)));
    assert_eq!(first, second);
    assert_eq!(first, (Some(11.0f64.to_bits()), Some(22.0f64.to_bits())));
    assert_eq!(s.metrics.pm10.len() + s.metrics.pm25.len(), 2);
}

fn labels_named(sensor: u32) -> AirQualityLabels {
    AirQualityLabels { station: 530, station_name: "w".to_string(), sensor }
}

#[test]
fn metrics_start_empty() {
    let m = Metrics::new();
    assert_eq!(m.air_quality.pm25.len(), 0);
    assert_eq!(m.api_metrics.errors.len(), 0);
    assert_eq!(m.api_metrics.latency_seconds.len(), 0);
}
