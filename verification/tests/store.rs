use help_offers::api::{validate_with_id, GetRequest, OfferRequest};
use help_offers::offer::{
    rnd_id, AccommodationData, HousingType, Offer, OfferType, PersonalData, TransportData,
    TransportVehicle, OFFER_TTL_HOURS, OFFER_TTL_SECONDS,
};
use help_offers::response::{get_response, ResponseData, WrappedResponse};
use help_offers::store::{
    fetch_outcome, list_command, list_outcome, Command, StoreError, Upload, UploadStage,
    UploadStep,
};
use help_offers::util::{Country, Location, LocationPath, LocationPoint};
use std::collections::HashMap;

/// A backend in memory, with a clock that the test sets.
struct Backend {
    now: u64,
    records: HashMap<String, (String, Option<u64>)>,
    broken: bool,
}

impl Backend {
    fn new() -> Backend {
        Backend { now: 1_700_000_000, records: HashMap::new(), broken: false }
    }

    fn sweep(&mut self) {
        let now = self.now;
        self.records.retain(|_, record| record.1.map_or(true, |end| now < end));
    }

    fn ack(&mut self, command: &Command) -> Result<(), String> {
        if self.broken {
            return Err("connection refused".to_string());
        }
        self.sweep();
        match command {
            Command::Put { key, value } => {
                self.records.insert(key.clone(), (value.clone(), None));
            }
            Command::Expire { key, seconds } => {
                let end = self.now + seconds;
                if let Some(record) = self.records.get_mut(key) {
                    record.1 = Some(end);
                }
            }
            _ => panic!("a write sends SET and EXPIRE only"),
        }
        Ok(())
    }

    fn get(&mut self, command: &Command) -> Result<Option<String>, String> {
        if self.broken {
            return Err("connection refused".to_string());
        }
        self.sweep();
        match command {
            Command::Get { key } => Ok(self.records.get(key).map(|record| record.0.clone())),
            _ => panic!("a read sends GET only"),
        }
    }

    fn keys(&mut self, command: &Command) -> Result<Vec<String>, String> {
        if self.broken {
            return Err("connection refused".to_string());
        }
        self.sweep();
        match command {
            Command::Keys { pattern } => {
                assert_eq!(pattern, "*");
                Ok(self.records.keys().cloned().collect())
            }
            _ => panic!("a listing sends KEYS only"),
        }
    }
}

/// The records of a test: an offer is written as its number in the list.
struct Records {
    offers: Vec<Offer>,
}

impl Records {
    fn encode(&mut self, offer: &Offer) -> String {
        self.offers.push(offer.clone());
        format!("#{}", self.offers.len() - 1)
    }

    fn decode(&self, raw: &str) -> Offer {
        self.offers[raw[1..].parse::<usize>().unwrap()].clone()
    }
}

fn submit(backend: &mut Backend, offer: &Offer, raw: String) -> Result<String, StoreError> {
    let (mut upload, mut command) = offer.upload(raw);
    loop {
        let answer = backend.ack(&command);
        match upload.next(answer) {
            UploadStep::Send(next, then) => {
                upload = next;
                command = then;
            }
            UploadStep::Stored(key) => return Ok(key),
            UploadStep::Failed(error) => return Err(error),
        }
    }
}

fn fetch(backend: &mut Backend, key: &str) -> Result<String, StoreError> {
    let command = Offer::Download(key);
    fetch_outcome(backend.get(&command))
}

fn list(backend: &mut Backend, amount: usize) -> Result<Vec<String>, StoreError> {
    let command = list_command();
    list_outcome(backend.keys(&command), amount)
}

fn place(lon: f64, lat: f64, country: Country, city: &str, street: &str, info: &str) -> Location {
    Location {
        geo: LocationPoint { lon_bits: lon.to_bits(), lat_bits: lat.to_bits() },
        country,
        city: city.to_string(),
        street_address: street.to_string(),
        additional_info: info.to_string(),
    }
}

fn test_offer(id: &str, now: u64) -> Offer {
    Offer {
        otype: OfferType::OfferAccommodation(AccommodationData {
            housing_type: HousingType::Shared,
            offers_transport: Some(TransportData {
                from_to: LocationPath {
                    from: place(
                        50.0,
                        20.0,
                        Country::Ukraine,
                        "Test City",
                        "Test Street. 45th",
                        "Near GLaDOS testing chambers",
                    ),
                    to: place(60.0, 15.0, Country::Ukraine, "Big City", "Big Street", "Near small city"),
                },
                vehicle: TransportVehicle::PersonalMax5Seats,
            }),
            allows_pets: false,
            provides_necessities: true,
        }),
        personal: Some(PersonalData {
            first_name: "Test".to_string(),
            last_name: "Guy".to_string(),
            age: 22,
            gender: "M".to_string(),
            photo_b64_img: "iVBORw0KGgoAAAANSUhEUgAAAAEAAAABCAYAAAAfFcSJAAAADUlEQVR42mNk".repeat(8),
        }),
        name: "Joe Doe".to_string(),
        contact: "joedoe@gmail.com  + 48 000 000 000".to_string(),
        location: place(
            50.69254,
            23.23001,
            Country::Poland,
            "Zamość",
            "Jastrzębskiego 4",
            "Near blue apartment building.",
        ),
        title: "Kijów -> Granica | Kyiv -> Border | Київ до кордону".to_string(),
        description: "This is a test offer. It is intended for testing. testing testing testing. please do not think that this offer is meant for anything else other than testing. The only purpose of this offer is in fact, to test. Testing is good. Testing is life. Thank you for participating in the test :)".to_string(),
        available_spaces: 4,
        translated: true,
        id: id.to_string(),
        password: "safepassword123".to_string(),
        creation_epoch: now,
        approved: true,
        update_epoch: now,
    }
}

#[test]
fn up_down() {
    let id = rnd_id(8);
    let mut backend = Backend::new();
    let mut records = Records { offers: Vec::new() };
    let now = backend.now;
    let offer = test_offer(&id, now);

    let raw = records.encode(&offer);
    submit(&mut backend, &offer, raw).unwrap();
    let downloaded =
        records.decode(&fetch(&mut backend, &format!("{}_{}", offer.creation_epoch, &id)).unwrap());

    assert_eq!(offer, downloaded);
}

#[test]
fn write_is_set_then_expire_of_the_composite_key() {
    let offer = test_offer("aB3k", 1_700_000_000);
    let (upload, first) = offer.upload("raw".to_string());
    assert_eq!(
        upload,
        Upload { key: "1700000000_aB3k".to_string(), stage: UploadStage::Writing }
    );
    assert_eq!(
        first,
        Command::Put { key: "1700000000_aB3k".to_string(), value: "raw".to_string() }
    );
    let step = upload.next(Ok(()));
    let timing = Upload { key: "1700000000_aB3k".to_string(), stage: UploadStage::Timing };
    assert_eq!(
        step,
        UploadStep::Send(
            timing.clone(),
            Command::Expire { key: "1700000000_aB3k".to_string(), seconds: 172_800 }
        )
    );
    assert_eq!(timing.next(Ok(())), UploadStep::Stored("1700000000_aB3k".to_string()));
}

#[test]
fn key_is_made_of_the_time_of_the_last_write() {
    let mut offer = test_offer("aB3k", 1_700_000_000);
    offer.update_epoch = 1_700_000_999;
    let (upload, _) = offer.upload(String::new());
    assert_eq!(upload.key, "1700000999_aB3k");
}

#[test]
fn lifetime_is_48_hours() {
    assert_eq!(OFFER_TTL_HOURS, 48);
    assert_eq!(OFFER_TTL_SECONDS, 48 * 3600);
}

#[test]
fn failed_set_ends_the_write() {
    let offer = test_offer("aB3k", 1_700_000_000);
    let (upload, _) = offer.upload("raw".to_string());
    assert_eq!(
        upload.next(Err("timeout".to_string())),
        UploadStep::Failed(StoreError::Storage("timeout".to_string()))
    );
}

#[test]
fn failed_expire_ends_the_write() {
    let timing = Upload { key: "1_a".to_string(), stage: UploadStage::Timing };
    assert_eq!(
        timing.next(Err("broken pipe".to_string())),
        UploadStep::Failed(StoreError::Storage("broken pipe".to_string()))
    );
}

#[test]
fn broken_backend_is_a_storage_error() {
    let mut backend = Backend::new();
    backend.broken = true;
    let offer = test_offer("aB3k", 1_700_000_000);
    let refused = StoreError::Storage("connection refused".to_string());
    assert_eq!(submit(&mut backend, &offer, "raw".to_string()), Err(refused.clone()));
    assert_eq!(fetch(&mut backend, "1700000000_aB3k"), Err(refused.clone()));
    assert_eq!(list(&mut backend, 10), Err(refused));
    assert!(backend.records.is_empty());
}

#[test]
fn download_reads_the_key_as_given() {
    assert_eq!(
        Offer::Download("1700000000_aB3k"),
        Command::Get { key: "1700000000_aB3k".to_string() }
    );
    assert_eq!(Offer::Download("aB3k"), Command::Get { key: "aB3k".to_string() });
}

#[test]
fn answers_to_get() {
    assert_eq!(fetch_outcome(Ok(Some("raw".to_string()))), Ok("raw".to_string()));
    assert_eq!(fetch_outcome(Ok(Some(String::new()))), Ok(String::new()));
    assert_eq!(fetch_outcome(Ok(None)), Err(StoreError::NotFound));
    assert_eq!(
        fetch_outcome(Err("timeout".to_string())),
        Err(StoreError::Storage("timeout".to_string()))
    );
}

#[test]
fn listing_asks_for_every_key() {
    assert_eq!(list_command(), Command::Keys { pattern: "*".to_string() });
}

#[test]
fn answers_to_keys() {
    let held = vec!["100_a".to_string(), "50_b".to_string(), "200_c".to_string()];
    assert_eq!(
        list_outcome(Ok(held), 2),
        Ok(vec!["200_c".to_string(), "100_a".to_string()])
    );
    assert_eq!(list_outcome(Ok(Vec::new()), 2), Ok(Vec::new()));
    assert_eq!(
        list_outcome(Err("timeout".to_string()), 2),
        Err(StoreError::Storage("timeout".to_string()))
    );
}

#[test]
fn bare_id_finds_nothing() {
    let mut backend = Backend::new();
    let offer = test_offer("aB3k", backend.now);
    let key = submit(&mut backend, &offer, "raw".to_string()).unwrap();
    assert_eq!(key, "1700000000_aB3k");
    assert_eq!(fetch(&mut backend, "aB3k"), Err(StoreError::NotFound));
    assert_eq!(fetch(&mut backend, &key), Ok("raw".to_string()));
}

#[test]
fn record_lapses_after_48_hours() {
    let mut backend = Backend::new();
    let offer = test_offer("aB3k", backend.now);
    let key = submit(&mut backend, &offer, "raw".to_string()).unwrap();
    backend.now += 172_799;
    assert_eq!(fetch(&mut backend, &key), Ok("raw".to_string()));
    assert_eq!(list(&mut backend, 10), Ok(vec![key.clone()]));
    backend.now += 1;
    assert_eq!(fetch(&mut backend, &key), Err(StoreError::NotFound));
    assert_eq!(list(&mut backend, 10), Ok(Vec::new()));
}

#[test]
fn never_written_key_is_not_found() {
    let mut backend = Backend::new();
    assert_eq!(fetch(&mut backend, "1700000000_none"), Err(StoreError::NotFound));
}

#[test]
fn later_write_under_the_same_key_replaces_the_record() {
    let mut backend = Backend::new();
    let offer = test_offer("aB3k", backend.now);
    let first = submit(&mut backend, &offer, "one".to_string()).unwrap();
    let second = submit(&mut backend, &offer, "two".to_string()).unwrap();
    assert_eq!(first, second);
    assert_eq!(fetch(&mut backend, &first), Ok("two".to_string()));
    assert_eq!(list(&mut backend, 10), Ok(vec![first]));
}

#[test]
fn submitted_offers_are_listed_latest_first() {
    let mut backend = Backend::new();
    let mut expected = Vec::new();
    for (age, id) in [(30u64, "cccc"), (10, "aaaa"), (20, "bbbb")] {
        let offer = test_offer(id, backend.now - age);
        let key = submit(&mut backend, &offer, id.to_string()).unwrap();
        expected.push((age, key));
    }
    expected.sort();
    let expected: Vec<String> = expected.into_iter().map(|entry| entry.1).collect();
    assert_eq!(list(&mut backend, 1024), Ok(expected.clone()));
    assert_eq!(list(&mut backend, 1024), Ok(expected.clone()));
    assert_eq!(list(&mut backend, 2), Ok(expected[..2].to_vec()));
    for key in expected {
        assert_eq!(fetch(&mut backend, &key), Ok(key[11..].to_string()));
    }
}

#[test]
fn submit_then_fetch_one_shows_the_offer_with_its_password_masked() {
    let mut backend = Backend::new();
    let mut records = Records { offers: Vec::new() };
    let now = backend.now;
    let req = OfferRequest {
        otype: OfferType::NeedEmergency,
        name: "Joe Doe".to_string(),
        personal: None,
        contact: String::new(),
        location: place(1.0, 2.0, Country::Other, "c", "s", "i"),
        title: "A title.".to_string(),
        description: "x".repeat(32),
        available_spaces: 1,
        translated: true,
        accepted_terms: true,
        password: "safepassword123".to_string(),
        captcha: String::new(),
    };
    let offer = validate_with_id(req, "aB3k".to_string(), now).unwrap();
    let raw = records.encode(&offer);
    let key = submit(&mut backend, &offer, raw).unwrap();
    assert_eq!(key, format!("{}_aB3k", now));
    let shown = records.decode(&fetch(&mut backend, &key).unwrap()).redacted();
    assert_eq!(shown.password, "****");
    assert_eq!(shown, Offer { password: "****".to_string(), ..offer });
}

fn read(backend: &mut Backend, id: &str) -> WrappedResponse {
    let command = match (GetRequest { id }).begin() {
        Ok(command) => command,
        Err(answer) => return answer,
    };
    get_response(fetch_outcome(backend.get(&command)).map(|_| test_offer("aB3k", 7)))
}

fn failure(status: u16, text: &str, error: &str) -> WrappedResponse {
    WrappedResponse {
        http_status: status,
        data: ResponseData::Failure { message: text.to_string(), error: error.to_string() },
    }
}

#[test]
fn key_at_the_bounds_of_the_guard_is_asked_for_and_gone() {
    let mut backend = Backend::new();
    let gone = failure(
        410,
        "Offer expired/deleted or does not exist.",
        "no record is held under the key",
    );
    for id in ["aB3k".to_string(), "x".repeat(32), "śś".to_string(), "ś".repeat(16)] {
        assert!(id.len() == 4 || id.len() == 32);
        assert_eq!(read(&mut backend, &id), gone);
    }
}

#[test]
fn failing_backend_is_reported_for_every_key_that_the_guard_lets_through() {
    let mut backend = Backend::new();
    backend.broken = true;
    let broken = failure(500, "Can't retrieve Offers, database broken ?", "connection refused");
    for id in ["aB3k".to_string(), "śś".to_string(), "1700000000_aB3k".to_string()] {
        assert_eq!(read(&mut backend, &id), broken);
    }
}

#[test]
fn key_outside_the_guard_is_turned_down_without_asking() {
    let mut backend = Backend::new();
    backend.broken = true;
    let turned_down = WrappedResponse {
        http_status: 403,
        data: ResponseData::Message(
            "id length must be larger than 4 and smaller than 32".to_string(),
        ),
    };
    for id in ["abc".to_string(), "x".repeat(33), "ś".repeat(17)] {
        assert_eq!(read(&mut backend, &id), turned_down);
    }
}
