//! Approximate location of an address, from read-only MaxMind databases.
//!
//! A city-tier database is asked first; a record with both coordinates gives
//! the location. Failing that, an optional country-tier database gives the
//! country alone, with the city reported as unknown. Failing that, a private
//! address may be given a configured fallback point. Coordinates are carried
//! as the IEEE-754 binary64 bit patterns of degrees, exactly as the database
//! holds them. A database buffer is opened only after `mmdb::check_database`
//! found every read of the reader inside it; a resolver keeps that as its
//! invariant.
use vstd::prelude::*;
use maxminddb::{geoip2, Reader};
use crate::addr::{Ipv4, is_private};
use crate::mmdb::{check_database, mmdb_safe};

verus! {

/// A MaxMind database loaded into memory; read-only once opened. It holds a
/// `maxminddb::Reader` out of Verus's sight (the reader's `AsRef` bound
/// cannot be declared); `source_bytes` names the buffer it was opened from.
#[verifier::external_body]
pub struct GeoDatabase {
    reader: Reader<Vec<u8>>,
}

/// A name of a place in one language.
#[derive(Clone, Debug)]
pub struct LocalizedName {
    pub language: String,
    pub name: String,
}

/// What a city-tier record holds that the resolver reads.
#[derive(Clone, Debug)]
pub struct CityRecord {
    pub latitude: Option<u64>,
    pub longitude: Option<u64>,
    /// ISO 3166-1 code of the country.
    pub country: Option<String>,
    pub city_names: Vec<LocalizedName>,
}

/// What a country-tier record holds that the resolver reads.
#[derive(Clone, Debug)]
pub struct CountryRecord {
    /// ISO 3166-1 code of the country.
    pub country: Option<String>,
}

/// The buffer a database was opened from.
pub uninterp spec fn source_bytes(db: GeoDatabase) -> Seq<u8>;

/// The city records of the database in a buffer, by address.
pub uninterp spec fn city_records(bytes: Seq<u8>) -> Map<u32, CityRecord>;

/// The country records of the database in a buffer, by address.
pub uninterp spec fn country_records(bytes: Seq<u8>) -> Map<u32, CountryRecord>;

/// Relies on `maxminddb::Reader::lookup::<geoip2::City>`: it walks the
/// search tree and decodes the record it reaches, or fails; it reads only
/// the immutable buffer, so one buffer answers one address the same way
/// every time. On a buffer that `mmdb_safe` admits, every read it makes
/// (tree nodes, the data section, the record's values and pointers) lies
/// inside the buffer. The fields read are carried over as they are:
/// coordinates as bit patterns, the country's ISO code, and every localized
/// city name.
#[verifier::external_body]
fn lookup_city(db: &GeoDatabase, ip: Ipv4) -> (r: Option<CityRecord>)
    requires
        mmdb_safe(source_bytes(*db)),
    ensures
        r == (if city_records(source_bytes(*db)).contains_key(ip.bits) {
            Some(city_records(source_bytes(*db))[ip.bits])
        } else {
            None
        }),
{
    let c = db.reader.lookup::<geoip2::City>(ip.bits.to_be_bytes().into()).ok()?;
    let loc = c.location.as_ref();
    Some(CityRecord {
        latitude: loc.and_then(|l| l.latitude).map(|v| v.to_bits()),
        longitude: loc.and_then(|l| l.longitude).map(|v| v.to_bits()),
        country: c.country.and_then(|k| k.iso_code).map(String::from),
        city_names: c.city.and_then(|k| k.names).unwrap_or_default().into_iter()
            .map(|(l, n)| LocalizedName { language: l.into(), name: n.into() }).collect(),
    })
}

/// Relies on `maxminddb::Reader::lookup::<geoip2::Country>`, as
/// `lookup_city` does on `geoip2::City`: one buffer answers one address the
/// same way every time, and on a buffer that `mmdb_safe` admits every read
/// lies inside it.
#[verifier::external_body]
fn lookup_country(db: &GeoDatabase, ip: Ipv4) -> (r: Option<CountryRecord>)
    requires
        mmdb_safe(source_bytes(*db)),
    ensures
        r == (if country_records(source_bytes(*db)).contains_key(ip.bits) {
            Some(country_records(source_bytes(*db))[ip.bits])
        } else {
            None
        }),
{
    let c = db.reader.lookup::<geoip2::Country>(ip.bits.to_be_bytes().into()).ok()?;
    Some(CountryRecord { country: c.country.and_then(|k| k.iso_code).map(String::from) })
}

/// Whether `maxminddb::Reader::from_source` accepts a buffer.
pub uninterp spec fn opens(bytes: Seq<u8>) -> bool;

/// Relies on `maxminddb::Reader::from_source`: it decodes the metadata after
/// the last marker and walks the first tree nodes, failing on a buffer that
/// is not a MaxMind database; the outcome depends on the bytes alone, and
/// the reader keeps the buffer. On a buffer that `mmdb_safe` admits every
/// read it makes lies inside the buffer.
#[verifier::external_body]
fn open_database(bytes: Vec<u8>) -> (r: Option<GeoDatabase>)
    requires
        mmdb_safe(bytes@),
    ensures
        r is Some <==> opens(bytes@),
        r matches Some(db) ==> source_bytes(db) == bytes@,
{
    Reader::from_source(bytes).ok().map(|reader| GeoDatabase { reader })
}

/// Which database could not be opened.
#[derive(Clone, Copy, Debug, PartialEq, Eq, Structural)]
pub enum GeoLoadError {
    CityDatabase,
    CountryDatabase,
}

/// A point on the globe: latitude and longitude in degrees, as IEEE-754
/// binary64 bit patterns.
#[derive(Clone, Copy, Debug, PartialEq, Eq, Structural)]
pub struct GeoPoint {
    pub latitude: u64,
    pub longitude: u64,
}

/// The location found for an address.
#[derive(Clone, Debug)]
pub struct GeoLocation {
    pub point: Option<GeoPoint>,
    pub country: Option<String>,
    pub city: Option<String>,
}

/// A location in the abstract.
pub struct GeoLocationView {
    pub point: Option<GeoPoint>,
    pub country: Option<Seq<char>>,
    pub city: Option<Seq<char>>,
}

pub open spec fn text_view(s: Option<String>) -> Option<Seq<char>> {
    match s {
        Some(t) => Some(t@),
        None => None,
    }
}

impl View for GeoLocation {
    type V = GeoLocationView;

    open spec fn view(&self) -> GeoLocationView {
        GeoLocationView { point: self.point, country: text_view(self.country), city: text_view(self.city) }
    }
}

pub open spec fn location_view(l: Option<GeoLocation>) -> Option<GeoLocationView> {
    match l {
        Some(g) => Some(g@),
        None => None,
    }
}

/// The name given in language `lang` by the first entry of `names` in it.
pub open spec fn name_in(names: Seq<LocalizedName>, lang: Seq<char>) -> Option<Seq<char>>
    decreases names.len(),
{
    if names.len() == 0 {
        None
    } else if names[0].language@ == lang {
        Some(names[0].name@)
    } else {
        name_in(names.drop_first(), lang)
    }
}

/// The record holds both coordinates.
pub open spec fn has_point(rec: CityRecord) -> bool {
    rec.latitude is Some && rec.longitude is Some
}

/// The city name reported when only the country is known.
pub open spec fn unknown_city() -> Seq<char> {
    "Unknown"@
}

/// The buffer holds a database that opens and is safe to look addresses up in.
pub open spec fn usable(bytes: Seq<u8>) -> bool {
    mmdb_safe(bytes) && opens(bytes)
}

/// Looks up addresses in one or two databases.
pub struct GeoResolver {
    city_db: GeoDatabase,
    country_db: Option<GeoDatabase>,
    private_fallback: Option<GeoPoint>,
    language: String,
}

/// A resolver in the abstract: the buffers its databases were opened from
/// and its settings.
pub struct GeoResolverView {
    pub city_source: Seq<u8>,
    pub country_source: Option<Seq<u8>>,
    /// The point given to a private address that no tier locates.
    pub fallback: Option<GeoPoint>,
    /// The language of the city names reported.
    pub language: Seq<char>,
}

pub open spec fn opt_bytes(v: Option<Vec<u8>>) -> Option<Seq<u8>> {
    match v {
        Some(b) => Some(b@),
        None => None,
    }
}

impl View for GeoResolver {
    type V = GeoResolverView;

    closed spec fn view(&self) -> GeoResolverView {
        GeoResolverView {
            city_source: source_bytes(self.city_db),
            country_source: match self.country_db {
                Some(c) => Some(source_bytes(c)),
                None => None,
            },
            fallback: self.private_fallback,
            language: self.language@,
        }
    }
}

/// The location of `ip` as the resolver's databases and settings give it.
pub open spec fn resolve_spec(
    cities: Map<u32, CityRecord>,
    countries: Option<Map<u32, CountryRecord>>,
    fallback: Option<GeoPoint>,
    lang: Seq<char>,
    ip: Ipv4,
) -> Option<GeoLocationView> {
    if cities.contains_key(ip.bits) && has_point(cities[ip.bits]) {
        let rec = cities[ip.bits];
        Some(
            GeoLocationView {
                point: Some(GeoPoint { latitude: rec.latitude->0, longitude: rec.longitude->0 }),
                country: text_view(rec.country),
                city: name_in(rec.city_names@, lang),
            },
        )
    } else if countries is Some && countries->0.contains_key(ip.bits) {
        Some(
            GeoLocationView {
                point: None,
                country: text_view(countries->0[ip.bits].country),
                city: Some(unknown_city()),
            },
        )
    } else if is_private(ip) && fallback is Some {
        Some(GeoLocationView { point: fallback, country: None, city: None })
    } else {
        None
    }
}

/// The country-tier records, where a country-tier database is configured.
pub open spec fn country_tier(source: Option<Seq<u8>>) -> Option<Map<u32, CountryRecord>> {
    match source {
        Some(b) => Some(country_records(b)),
        None => None,
    }
}

impl GeoResolver {
    #[verifier::type_invariant]
    spec fn safe(&self) -> bool {
        &&& mmdb_safe(source_bytes(self.city_db))
        &&& self.country_db matches Some(c) ==> mmdb_safe(source_bytes(c))
    }

    /// The resolver's answer for `ip`, from the records of its databases.
    pub open spec fn resolved(&self, ip: Ipv4) -> Option<GeoLocationView> {
        resolve_spec(
            city_records(self@.city_source),
            country_tier(self@.country_source),
            self@.fallback,
            self@.language,
            ip,
        )
    }

    /// A resolver over the city-tier database in `city` and, if given, the
    /// country-tier database in `country`. A buffer that is not a database,
    /// or whose structure would lead a lookup outside it, is refused.
    pub fn open(
        city: Vec<u8>,
        country: Option<Vec<u8>>,
        private_fallback: Option<GeoPoint>,
        language: String,
    ) -> (r: Result<GeoResolver, GeoLoadError>)
        ensures
            match r {
                Ok(res) => {
                    &&& usable(city@)
                    &&& (country matches Some(c) ==> usable(c@))
                    &&& res@ == (GeoResolverView {
                        city_source: city@,
                        country_source: opt_bytes(country),
                        fallback: private_fallback,
                        language: language@,
                    })
                },
                Err(GeoLoadError::CityDatabase) => !usable(city@),
                Err(GeoLoadError::CountryDatabase) => usable(city@) && (country matches Some(c) && !usable(c@)),
            },
    {
        if !check_database(city.as_slice()) {
            return Err(GeoLoadError::CityDatabase);
        }
        let ghost city_bytes = city@;
        let city_db = match open_database(city) {
            Some(db) => db,
            None => return Err(GeoLoadError::CityDatabase),
        };
        let ghost country_bytes = opt_bytes(country);
        let country_db = match country {
            Some(bytes) => {
                if !check_database(bytes.as_slice()) {
                    return Err(GeoLoadError::CountryDatabase);
                }
                match open_database(bytes) {
                    Some(db) => Some(db),
                    None => return Err(GeoLoadError::CountryDatabase),
                }
            },
            None => None,
        };
        let res = GeoResolver { city_db, country_db, private_fallback, language };
        assert(res@.country_source == country_bytes);
        Ok(res)
    }

    /// The language of the city names reported.
    pub fn language(&self) -> (r: &String)
        ensures
            r@ == self@.language,
    {
        &self.language
    }

    /// Reports city names in `language` from now on.
    pub fn set_language(&mut self, language: String)
        ensures
            final(self)@ == (GeoResolverView { language: language@, ..old(self)@ }),
    {
        proof {
            use_type_invariant(&*self);
        }
        self.language = language;
    }

    /// Gives `point` to private addresses that no tier locates, or nothing.
    pub fn set_private_fallback(&mut self, point: Option<GeoPoint>)
        ensures
            final(self)@ == (GeoResolverView { fallback: point, ..old(self)@ }),
    {
        proof {
            use_type_invariant(&*self);
        }
        self.private_fallback = point;
    }

    /// Whether a country-tier database is configured.
    pub fn has_country_tier(&self) -> (r: bool)
        ensures
            r == self@.country_source is Some,
    {
        self.country_db.is_some()
    }

    /// The location of `ip`; `None` where no tier and no fallback gives one.
    pub fn resolve(&self, ip: Ipv4) -> (r: Option<GeoLocation>)
        ensures
            location_view(r) == self.resolved(ip),
    {
        proof {
            use_type_invariant(self);
        }
        match lookup_city(&self.city_db, ip) {
            Some(rec) => {
                if let (Some(latitude), Some(longitude)) = (rec.latitude, rec.longitude) {
                    let city = find_name(&rec.city_names, &self.language);
                    return Some(
                        GeoLocation { point: Some(GeoPoint { latitude, longitude }), country: rec.country, city },
                    );
                }
            },
            None => {},
        }
        match &self.country_db {
            Some(db) => {
                match lookup_country(db, ip) {
                    Some(rec) => {
                        return Some(
                            GeoLocation { point: None, country: rec.country, city: Some("Unknown".to_owned()) },
                        );
                    },
                    None => {},
                }
            },
            None => {},
        }
        if ip.is_private() {
            match self.private_fallback {
                Some(p) => Some(GeoLocation { point: Some(p), country: None, city: None }),
                None => None,
            }
        } else {
            None
        }
    }
}

/// The name in language `lang` of the first entry in it.
pub fn find_name(names: &Vec<LocalizedName>, lang: &String) -> (r: Option<String>)
    ensures
        text_view(r) == name_in(names@, lang@),
{
    let mut i: usize = 0;
    assert(names@.subrange(0, names@.len() as int) =~= names@);
    while i < names.len()
        invariant
            i <= names@.len(),
            name_in(names@.subrange(i as int, names@.len() as int), lang@) == name_in(names@, lang@),
        decreases names@.len() - i,
    {
        let ghost rest = names@.subrange(i as int, names@.len() as int);
        assert(rest[0] == names@[i as int]);
        assert(rest.drop_first() =~= names@.subrange(i + 1, names@.len() as int));
        if names[i].language == *lang {
            return Some(names[i].name.clone());
        }
        i = i + 1;
    }
    assert(names@.subrange(i as int, names@.len() as int).len() == 0);
    None
}

/// The resolver depends on nothing but the address, the buffers its
/// databases were opened from and its settings: resolvers that agree on
/// those give the same answer for every address.
pub proof fn lemma_resolve_depends_on_snapshot(a: GeoResolver, b: GeoResolver, ip: Ipv4)
    requires
        a@.city_source == b@.city_source,
        a@.country_source == b@.country_source,
        a@.fallback == b@.fallback,
        a@.language == b@.language,
    ensures
        a.resolved(ip) == b.resolved(ip),
{
}

} // verus!
