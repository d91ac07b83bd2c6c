use geoflow::addr::Ipv4;
use geoflow::filter::{FilterPolicy, PairRule};
use geoflow::geo::{GeoLoadError, GeoLocation, GeoPoint, GeoResolver};
use geoflow::parser::Transport;
use geoflow::pipeline::{build_event, CaptureState, LocationPolicy};

// ---- a minimal MaxMind DB writer (IPv4 tree, 24-bit records) ----

fn ctrl(out: &mut Vec<u8>, type_num: u8, size: usize) {
    assert!(size < 29);
    if type_num <= 7 {
        out.push((type_num << 5) | size as u8);
    } else {
        out.push(size as u8);
        out.push(type_num - 7);
    }
}

fn string(out: &mut Vec<u8>, s: &str) {
    ctrl(out, 2, s.len());
    out.extend_from_slice(s.as_bytes());
}

fn double(out: &mut Vec<u8>, v: f64) {
    ctrl(out, 3, 8);
    out.extend_from_slice(&v.to_bits().to_be_bytes());
}

fn uint16(out: &mut Vec<u8>, v: u16) {
    ctrl(out, 5, 2);
    out.extend_from_slice(&v.to_be_bytes());
}

fn uint32(out: &mut Vec<u8>, v: u32) {
    ctrl(out, 6, 4);
    out.extend_from_slice(&v.to_be_bytes());
}

fn map_header(out: &mut Vec<u8>, n: usize) {
    ctrl(out, 7, n);
}

struct Entry {
    addr: [u8; 4],
    coords: Option<(f64, f64)>,
    country: Option<&'static str>,
    city_en: Option<&'static str>,
}

fn record(e: &Entry) -> Vec<u8> {
    let mut out = Vec::new();
    let n = e.coords.is_some() as usize + e.country.is_some() as usize + e.city_en.is_some() as usize;
    map_header(&mut out, n);
    if let Some((lat, lon)) = e.coords {
        string(&mut out, "location");
        map_header(&mut out, 2);
        string(&mut out, "latitude");
        double(&mut out, lat);
        string(&mut out, "longitude");
        double(&mut out, lon);
    }
    if let Some(c) = e.country {
        string(&mut out, "country");
        map_header(&mut out, 1);
        string(&mut out, "iso_code");
        string(&mut out, c);
    }
    if let Some(c) = e.city_en {
        string(&mut out, "city");
        map_header(&mut out, 1);
        string(&mut out, "names");
        map_header(&mut out, 2);
        string(&mut out, "de");
        string(&mut out, "Stadt");
        string(&mut out, "en");
        string(&mut out, c);
    }
    out
}

#[derive(Clone, Copy)]
enum Child {
    Empty,
    Node(usize),
    Data(usize),
}

fn build_db(entries: &[Entry]) -> Vec<u8> {
    build_db_with(entries, 0, 24)
}

/// A database whose metadata claims `extra_nodes` more tree nodes than it
/// holds and the record size `record_size`.
fn build_db_with(entries: &[Entry], extra_nodes: u32, record_size: u16) -> Vec<u8> {
    let mut data = Vec::new();
    let mut nodes: Vec<[Child; 2]> = vec![[Child::Empty, Child::Empty]];
    for e in entries {
        let offset = data.len();
        data.extend(record(e));
        let bits = u32::from_be_bytes(e.addr);
        let mut node = 0usize;
        for i in 0..32 {
            let bit = ((bits >> (31 - i)) & 1) as usize;
            if i == 31 {
                nodes[node][bit] = Child::Data(offset);
            } else {
                node = match nodes[node][bit] {
                    Child::Node(n) => n,
                    _ => {
                        nodes.push([Child::Empty, Child::Empty]);
                        let n = nodes.len() - 1;
                        nodes[node][bit] = Child::Node(n);
                        n
                    }
                };
            }
        }
    }
    let count = nodes.len();
    let mut out = Vec::new();
    for n in &nodes {
        for c in n.iter() {
            let v = match *c {
                Child::Empty => count,
                Child::Node(i) => i,
                Child::Data(off) => count + 16 + off,
            };
            out.extend_from_slice(&(v as u32).to_be_bytes()[1..]);
        }
    }
    out.extend_from_slice(&[0u8; 16]);
    out.extend(data);
    out.extend_from_slice(b"\xab\xcd\xefMaxMind.com");
    map_header(&mut out, 9);
    string(&mut out, "binary_format_major_version");
    uint16(&mut out, 2);
    string(&mut out, "binary_format_minor_version");
    uint16(&mut out, 0);
    string(&mut out, "build_epoch");
    ctrl(&mut out, 9, 1);
    out.push(1);
    string(&mut out, "database_type");
    string(&mut out, "Test-City");
    string(&mut out, "description");
    map_header(&mut out, 0);
    string(&mut out, "ip_version");
    uint16(&mut out, 4);
    string(&mut out, "languages");
    ctrl(&mut out, 11, 0);
    string(&mut out, "node_count");
    uint32(&mut out, count as u32 + extra_nodes);
    string(&mut out, "record_size");
    uint16(&mut out, record_size);
    out
}

fn city_bytes() -> Vec<u8> {
    let entries = [
        Entry { addr: [203, 0, 113, 5], coords: Some((37.751, -97.822)), country: Some("US"), city_en: Some("Wichita") },
        Entry { addr: [198, 51, 100, 7], coords: Some((52.52, 13.405)), country: Some("DE"), city_en: Some("Berlin") },
        Entry { addr: [8, 8, 8, 8], coords: Some((37.386, -122.0838)), country: Some("US"), city_en: None },
        Entry { addr: [192, 0, 2, 1], coords: None, country: Some("FR"), city_en: Some("Paris") },
    ];
    build_db(&entries)
}

fn country_bytes() -> Vec<u8> {
    let entries = [
        Entry { addr: [192, 0, 2, 1], coords: None, country: Some("FR"), city_en: None },
        Entry { addr: [100, 64, 0, 9], coords: None, country: Some("NL"), city_en: None },
    ];
    build_db(&entries)
}

fn resolver() -> GeoResolver {
    GeoResolver::open(city_bytes(), None, None, "en".to_string()).expect("test database opens")
}

fn resolver_with_country_tier() -> GeoResolver {
    GeoResolver::open(city_bytes(), Some(country_bytes()), None, "en".to_string()).expect("test databases open")
}

fn point(lat: f64, lon: f64) -> GeoPoint {
    GeoPoint { latitude: lat.to_bits(), longitude: lon.to_bits() }
}

fn ip(a: u8, b: u8, c: u8, d: u8) -> Ipv4 {
    Ipv4::from_octets(a, b, c, d)
}

fn frame(src: [u8; 4], dst: [u8; 4], proto: u8, sport: u16, dport: u16) -> Vec<u8> {
    let transport_len: u16 = if proto == 17 { 8 } else { 20 };
    let mut f = vec![0x02, 0, 0, 0, 0, 1, 0x02, 0, 0, 0, 0, 2, 0x08, 0x00];
    let total = 20 + transport_len;
    f.extend_from_slice(&[0x45, 0, (total >> 8) as u8, total as u8, 0, 1, 0x40, 0, 64, proto, 0, 0]);
    f.extend_from_slice(&src);
    f.extend_from_slice(&dst);
    f.extend_from_slice(&sport.to_be_bytes());
    f.extend_from_slice(&dport.to_be_bytes());
    f.extend(std::iter::repeat(0u8).take(transport_len as usize - 4));
    f
}

#[test]
fn corrupt_databases_are_refused() {
    let e = |r: Result<GeoResolver, GeoLoadError>| r.err();
    assert_eq!(e(GeoResolver::open(vec![1, 2, 3, 4], None, None, "en".to_string())), Some(GeoLoadError::CityDatabase));
    assert_eq!(e(GeoResolver::open(Vec::new(), Some(country_bytes()), None, "en".to_string())), Some(GeoLoadError::CityDatabase));
    assert_eq!(
        e(GeoResolver::open(city_bytes(), Some(vec![0; 64]), None, "en".to_string())),
        Some(GeoLoadError::CountryDatabase)
    );
    let ok = GeoResolver::open(city_bytes(), Some(country_bytes()), None, "de".to_string()).expect("opens");
    assert!(ok.has_country_tier());
    assert_eq!(ok.language(), "de");
}

#[test]
fn city_tier_gives_coordinates_country_and_name() {
    let r = resolver();
    let loc = r.resolve(ip(203, 0, 113, 5)).expect("located");
    assert_eq!(loc.point, Some(point(37.751, -97.822)));
    assert_eq!(loc.country.as_deref(), Some("US"));
    assert_eq!(loc.city.as_deref(), Some("Wichita"));
    let other = r.resolve(ip(198, 51, 100, 7)).expect("located");
    assert_eq!(other.point, Some(point(52.52, 13.405)));
    assert_eq!(other.city.as_deref(), Some("Berlin"));
}

#[test]
fn city_name_follows_the_configured_language() {
    let mut r = resolver();
    r.set_language("de".to_string());
    let loc = r.resolve(ip(203, 0, 113, 5)).expect("located");
    assert_eq!(loc.city.as_deref(), Some("Stadt"));
    r.set_language("fr".to_string());
    assert_eq!(r.resolve(ip(203, 0, 113, 5)).expect("located").city, None);
}

#[test]
fn record_without_name_has_no_city() {
    let loc = resolver().resolve(ip(8, 8, 8, 8)).expect("located");
    assert_eq!(loc.point, Some(point(37.386, -122.0838)));
    assert_eq!(loc.city, None);
}

#[test]
fn unknown_address_without_fallback_is_none() {
    let r = resolver();
    assert!(r.resolve(ip(100, 64, 0, 9)).is_none());
    assert!(r.resolve(ip(192, 168, 1, 10)).is_none());
    // a city record without coordinates and no country tier
    assert!(r.resolve(ip(192, 0, 2, 1)).is_none());
}

#[test]
fn country_tier_fallback_reports_unknown_city() {
    let r = resolver_with_country_tier();
    let loc = r.resolve(ip(192, 0, 2, 1)).expect("country tier");
    assert_eq!(loc.point, None);
    assert_eq!(loc.country.as_deref(), Some("FR"));
    assert_eq!(loc.city.as_deref(), Some("Unknown"));
    let nl = r.resolve(ip(100, 64, 0, 9)).expect("country tier");
    assert_eq!(nl.country.as_deref(), Some("NL"));
    // the city tier still wins where it has coordinates
    assert_eq!(r.resolve(ip(203, 0, 113, 5)).expect("located").point, Some(point(37.751, -97.822)));
}

#[test]
fn private_fallback_applies_to_private_addresses_only() {
    let mut r = resolver();
    let istanbul = point(41.0082, 28.9784);
    r.set_private_fallback(Some(istanbul));
    let loc = r.resolve(ip(192, 168, 1, 10)).expect("fallback");
    assert_eq!(loc.point, Some(istanbul));
    assert_eq!(loc.country, None);
    assert!(r.resolve(ip(100, 64, 0, 9)).is_none());
}

#[test]
fn resolving_twice_gives_the_same_answer() {
    let r = resolver();
    for a in [ip(203, 0, 113, 5), ip(8, 8, 8, 8), ip(100, 64, 0, 9)] {
        let x = r.resolve(a).map(|l| (l.point, l.country, l.city));
        let y = r.resolve(a).map(|l| (l.point, l.country, l.city));
        assert_eq!(x, y);
    }
}

#[test]
fn first_occurrence_with_both_ends_located_yields_one_event() {
    let r = resolver();
    let mut state = CaptureState::new(FilterPolicy::default_policy(), LocationPolicy::Strict, 0);
    let f = frame([203, 0, 113, 5], [198, 51, 100, 7], 6, 443, 51000);
    let ev = state.process_frame(&f, 1_000, 1_700_000_000_000, &r).expect("one event");
    assert_eq!(ev.source.ip, ip(203, 0, 113, 5));
    assert_eq!(ev.source.port, 443);
    assert_eq!(ev.destination.ip, ip(198, 51, 100, 7));
    assert_eq!(ev.destination.port, 51000);
    assert_eq!(ev.protocol, Transport::Tcp);
    assert_eq!(ev.timestamp, 1_700_000_000_000);
    assert_eq!(ev.source.location.as_ref().unwrap().point, Some(point(37.751, -97.822)));
    assert_eq!(ev.destination.location.as_ref().unwrap().point, Some(point(52.52, 13.405)));
}

#[test]
fn repeat_within_ten_seconds_yields_nothing() {
    let r = resolver();
    let mut state = CaptureState::new(FilterPolicy::default_policy(), LocationPolicy::Strict, 0);
    let f = frame([203, 0, 113, 5], [198, 51, 100, 7], 6, 443, 51000);
    assert!(state.process_frame(&f, 1_000, 1_000, &r).is_some());
    assert!(state.process_frame(&f, 11_000, 11_000, &r).is_none());
    // another port on the same pair is still the same pair
    let g = frame([203, 0, 113, 5], [198, 51, 100, 7], 17, 53, 53);
    assert!(state.process_frame(&g, 12_000, 12_000, &r).is_none());
    // the reverse direction is a different pair
    let back = frame([198, 51, 100, 7], [203, 0, 113, 5], 6, 51000, 443);
    assert!(state.process_frame(&back, 12_000, 12_000, &r).is_some());
    // after the window the pair is reported again
    assert!(state.process_frame(&f, 61_001, 61_001, &r).is_some());
}

#[test]
fn unresolvable_end_is_dropped_under_strict_policy() {
    let r = resolver();
    let mut state = CaptureState::new(FilterPolicy::default_policy(), LocationPolicy::Strict, 0);
    let f = frame([203, 0, 113, 5], [100, 64, 0, 9], 6, 443, 40000);
    assert!(state.process_frame(&f, 5, 5, &r).is_none());
}

#[test]
fn unresolvable_end_is_kept_without_location_under_lenient_policy() {
    let r = resolver();
    let mut state = CaptureState::new(FilterPolicy::default_policy(), LocationPolicy::Lenient, 0);
    let f = frame([203, 0, 113, 5], [100, 64, 0, 9], 17, 443, 40000);
    let ev = state.process_frame(&f, 5, 5, &r).expect("lenient keeps it");
    assert!(ev.source.location.is_some());
    assert!(ev.destination.location.is_none());
    assert_eq!(ev.protocol, Transport::Udp);
}

#[test]
fn private_source_with_allow_listed_destination_depends_on_rule() {
    let mut r = resolver();
    r.set_private_fallback(Some(point(41.0082, 28.9784)));
    let f = frame([192, 168, 1, 10], [8, 8, 8, 8], 17, 5353, 53);
    let mut either = CaptureState::new(FilterPolicy::default_policy(), LocationPolicy::Strict, 0);
    let ev = either.process_frame(&f, 1, 1, &r).expect("either side suffices");
    assert_eq!(ev.source.ip, ip(192, 168, 1, 10));
    assert_eq!(ev.source.location.as_ref().unwrap().point, Some(point(41.0082, 28.9784)));
    assert_eq!(ev.destination.location.as_ref().unwrap().point, Some(point(37.386, -122.0838)));
    let mut policy = FilterPolicy::default_policy();
    policy.rule = PairRule::BothSides;
    let mut both = CaptureState::new(policy, LocationPolicy::Strict, 0);
    assert!(both.process_frame(&f, 1, 1, &r).is_none());
}

#[test]
fn undecodable_or_loopback_frames_yield_nothing() {
    let r = resolver();
    let mut state = CaptureState::new(FilterPolicy::default_policy(), LocationPolicy::Lenient, 0);
    let icmp = frame([203, 0, 113, 5], [198, 51, 100, 7], 1, 0, 0);
    assert!(state.process_frame(&icmp, 1, 1, &r).is_none());
    let short = &frame([203, 0, 113, 5], [198, 51, 100, 7], 6, 1, 2)[..30];
    assert!(state.process_frame(short, 1, 1, &r).is_none());
    let lo = frame([127, 0, 0, 1], [8, 8, 8, 8], 6, 1, 2);
    assert!(state.process_frame(&lo, 1, 1, &r).is_none());
    // none of these used up the pair's slot
    let ok = frame([203, 0, 113, 5], [198, 51, 100, 7], 6, 1, 2);
    assert!(state.process_frame(&ok, 2, 2, &r).is_some());
}

#[test]
fn build_event_policies() {
    let c = geoflow::parser::ParsedConnection {
        src_ip: ip(203, 0, 113, 5),
        dst_ip: ip(198, 51, 100, 7),
        src_port: 443,
        dst_port: 51000,
        protocol: Transport::Tcp,
    };
    let located = GeoLocation { point: Some(point(1.0, 2.0)), country: None, city: None };
    let country_only = GeoLocation { point: None, country: Some("FR".to_string()), city: Some("Unknown".to_string()) };
    assert!(build_event(c, Some(located.clone()), Some(located.clone()), LocationPolicy::Strict, 7).is_some());
    assert!(build_event(c, Some(located.clone()), Some(country_only.clone()), LocationPolicy::Strict, 7).is_none());
    assert!(build_event(c, None, Some(located.clone()), LocationPolicy::Strict, 7).is_none());
    let ev = build_event(c, None, Some(country_only), LocationPolicy::Lenient, 7).expect("lenient");
    assert!(ev.source.location.is_none());
    assert_eq!(ev.destination.location.as_ref().unwrap().country.as_deref(), Some("FR"));
    assert_eq!(ev.timestamp, 7);
}

fn open_city(bytes: Vec<u8>) -> Option<GeoLoadError> {
    GeoResolver::open(bytes, None, None, "en".to_string()).err()
}

#[test]
fn truncated_metadata_is_refused() {
    let marker_only = b"\xab\xcd\xefMaxMind.com".to_vec();
    assert_eq!(open_city(marker_only), Some(GeoLoadError::CityDatabase));
    let mut cut = city_bytes();
    let len = cut.len();
    cut.truncate(len - 3);
    assert_eq!(open_city(cut), Some(GeoLoadError::CityDatabase));
}

#[test]
fn tree_larger_than_the_buffer_is_refused() {
    let entries = [Entry { addr: [203, 0, 113, 5], coords: Some((1.0, 2.0)), country: None, city_en: None }];
    assert_eq!(open_city(build_db_with(&entries, 1_000_000, 24)), Some(GeoLoadError::CityDatabase));
    assert!(open_city(build_db_with(&entries, 0, 24)).is_none());
}

#[test]
fn unknown_record_size_is_refused() {
    let entries = [Entry { addr: [203, 0, 113, 5], coords: Some((1.0, 2.0)), country: None, city_en: None }];
    assert_eq!(open_city(build_db_with(&entries, 0, 20)), Some(GeoLoadError::CityDatabase));
}

#[test]
fn records_pointing_outside_the_data_are_refused() {
    // the first record of the root node, pointing far past the data section
    let mut far = city_bytes();
    far[0] = 0xFF;
    far[1] = 0xFF;
    far[2] = 0xF0;
    assert_eq!(open_city(far), Some(GeoLoadError::CityDatabase));
    // a record just above the node count, below the data section's start
    let mut near = city_bytes();
    let tree_len = near.windows(16).position(|w| w == [0u8; 16]).unwrap();
    let count = (tree_len / 6) as u32;
    let bad = count + 5;
    near[0] = (bad >> 16) as u8;
    near[1] = (bad >> 8) as u8;
    near[2] = bad as u8;
    assert_eq!(open_city(near), Some(GeoLoadError::CityDatabase));
}

#[test]
fn a_pointer_loop_in_a_record_is_refused() {
    // a record that is a pointer to itself
    let entries = [Entry { addr: [203, 0, 113, 5], coords: None, country: None, city_en: None }];
    let mut db = build_db(&entries);
    let data = db.windows(16).position(|w| w == [0u8; 16]).unwrap() + 16;
    assert_eq!(db[data], 0xE0); // the record: an empty map
    db[data] = 0x20; // pointer, one byte, to offset 0 of the data section
    db.insert(data + 1, 0x00);
    // the metadata moved by one byte; the tree and the record offset did not
    assert_eq!(open_city(db), Some(GeoLoadError::CityDatabase));
}
