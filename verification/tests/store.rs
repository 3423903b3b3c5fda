use nbmarch::{Action, Error, Event, NBMStore, SiteValidation, Step, Timestamp};

const LOCATIONS: &str = "KMSO,MISSOULA,MT,46.92,-114.09\nKBTM,BUTTE,MT,45.95,-112.50\nKLGU,LOGAN-CACHE,UT,41.79,-111.85\nKBOS,BOSTON LOGAN INTL,MA,42.36,-71.01\n";

const FORECAST: &str = "Location,KMSO\nTemperature,12\n";

fn at(year: i32, month: u32, day: u32, hour: u32, minute: u32, second: u32) -> Timestamp {
    Timestamp::from_ymd_hms(year, month, day, hour, minute, second).unwrap()
}

fn address(date: &str, schema: &str, hour: &str, file: &str) -> String {
    format!(
        "https://hwp-viz.gsd.esrl.noaa.gov/wave1d/data/archive/{}/{}/{}/{}",
        date, schema, hour, file
    )
}

/// A cache and an archive in memory, with a record of what was asked of them.
struct World {
    cache: Vec<(String, Timestamp, Vec<u8>)>,
    archive: Vec<(String, String)>,
    reads: Vec<(String, Timestamp)>,
    downloads: Vec<String>,
    writes: Vec<(String, Timestamp)>,
    cache_is_broken: bool,
}

impl World {
    fn new() -> World {
        World {
            cache: Vec::new(),
            archive: Vec::new(),
            reads: Vec::new(),
            downloads: Vec::new(),
            writes: Vec::new(),
            cache_is_broken: false,
        }
    }

    fn with_archive_of_the_afternoon() -> World {
        let mut world = World::new();
        world.archive.push((
            address("2021/02/28", "NBM4.0", "13", "locations.csv"),
            LOCATIONS.to_string(),
        ));
        world
            .archive
            .push((address("2021/02/28", "NBM4.0", "13", "KMSO.csv"), FORECAST.to_string()));
        world
    }

    fn perform(&mut self, action: Action) -> Event {
        match action {
            Action::RetrieveFile { file_name, init_time } => {
                self.reads.push((file_name.clone(), init_time));
                if self.cache_is_broken {
                    return Event::Retrieved(None);
                }
                let found = self
                    .cache
                    .iter()
                    .find(|(name, time, _)| *name == file_name && *time == init_time)
                    .map(|(_, _, bytes)| bytes.clone());
                Event::Retrieved(found)
            }
            Action::DownloadFile { url } => {
                self.downloads.push(url.clone());
                let found =
                    self.archive.iter().find(|(at, _)| *at == url).map(|(_, text)| text.clone());
                Event::Downloaded(found)
            }
            Action::AddFile { file_name, init_time, contents } => {
                self.writes.push((file_name.clone(), init_time));
                if !self.cache_is_broken {
                    self.cache.push((file_name, init_time, contents));
                }
                Event::Added
            }
        }
    }

    fn run(&mut self, store: &mut NBMStore, first: Step) -> Step {
        let mut step = first;
        loop {
            match step {
                Step::Do(action) => {
                    let event = self.perform(action);
                    step = store.resume(event);
                }
                ended => return ended,
            }
        }
    }

    fn validate_request(&mut self, site: &str, time: Timestamp) -> Result<SiteValidation, Error> {
        let mut store = NBMStore::new();
        let first = store.validate_request(site, time);
        match self.run(&mut store, first) {
            Step::Validated(result) => result,
            other => panic!("a validation ended with {:?}", other),
        }
    }

    fn validate_most_recent_available(
        &mut self,
        site: &str,
        time: Timestamp,
    ) -> Result<SiteValidation, Error> {
        let mut store = NBMStore::new();
        let first = store.validate_most_recent_available(site, time);
        match self.run(&mut store, first) {
            Step::Validated(result) => result,
            other => panic!("a validation ended with {:?}", other),
        }
    }

    fn retrieve(&mut self, validation: SiteValidation) -> Result<String, Error> {
        let mut store = NBMStore::new();
        let first = store.retrieve(validation);
        match self.run(&mut store, first) {
            Step::Loaded(result) => result.map(|data| data.into_text()),
            other => panic!("a retrieval ended with {:?}", other),
        }
    }
}

#[test]
fn nbm_store_test_simple_validation() {
    let mut arch = World::with_archive_of_the_afternoon();

    let request_time = at(2021, 2, 28, 15, 15, 0);
    let valid_time = at(2021, 2, 28, 13, 0, 0);

    let validation = arch.validate_request("KMSO", request_time).unwrap();
    assert_eq!(&validation.site.id, "KMSO");
    assert_eq!(&validation.file_name(), "KMSO.csv");
    assert_eq!(&validation.site.name, "MISSOULA");
    assert_eq!(validation.initialization_time, valid_time);

    let validation = arch.validate_request("missoula", request_time).unwrap();
    assert_eq!(&validation.site.id, "KMSO");
    assert_eq!(&validation.file_name(), "KMSO.csv");
    assert_eq!(&validation.site.name, "MISSOULA");
    assert_eq!(validation.initialization_time, valid_time);

    let validation = arch.validate_request("logan", valid_time);
    assert!(validation.is_err());
    match validation {
        Err(Error::AmbiguousSite { .. }) => {}
        _ => panic!("Invalid error, should be ambiguous site"),
    }
}

#[test]
fn nbm_store_test_retrieve() {
    let mut arch = World::with_archive_of_the_afternoon();

    let request_time = at(2021, 2, 28, 15, 15, 0);
    let valid_time = at(2021, 2, 28, 13, 0, 0);

    let validation = arch.validate_request("KMSO", request_time).unwrap();
    assert_eq!(&validation.site.id, "KMSO");
    assert_eq!(&validation.site.name, "MISSOULA");
    assert_eq!(validation.initialization_time, valid_time);

    let _nbm = arch.retrieve(validation).unwrap();
}

#[test]
fn demo_test_simple_validation() {
    let mut arch = World::with_archive_of_the_afternoon();

    let request_time = at(2021, 2, 28, 15, 15, 0);
    let valid_time = at(2021, 2, 28, 13, 0, 0);

    let validation = arch.validate_request("KMSO", request_time).unwrap();
    assert_eq!(&validation.site.id, "KMSO");
    assert_eq!(&validation.site.name, "MISSOULA");
    assert_eq!(validation.initialization_time, valid_time);

    let validation = arch.validate_request("missoula", request_time).unwrap();
    assert_eq!(&validation.site.id, "KMSO");
    assert_eq!(&validation.site.name, "MISSOULA");
    assert_eq!(validation.initialization_time, valid_time);

    let validation = arch.validate_request("logan", valid_time);
    assert!(validation.is_err());
    match validation {
        Err(Error::AmbiguousSite { .. }) => {}
        _ => panic!("Invalid error, should be ambiguous site"),
    }
}

#[test]
fn demo_test_retrieve() {
    let mut arch = World::with_archive_of_the_afternoon();

    let request_time = at(2021, 2, 28, 15, 15, 0);
    let valid_time = at(2021, 2, 28, 13, 0, 0);

    let validation = arch.validate_request("KMSO", request_time).unwrap();
    assert_eq!(&validation.site.id, "KMSO");
    assert_eq!(&validation.site.name, "MISSOULA");
    assert_eq!(validation.initialization_time, valid_time);

    let _nbm = arch.retrieve(validation).unwrap();
}

#[test]
fn validation_asks_the_cache_then_the_archive_then_writes_back() {
    let mut world = World::with_archive_of_the_afternoon();
    let run = at(2021, 2, 28, 13, 0, 0);
    let mut store = NBMStore::new();

    let step = store.validate_request("KMSO", at(2021, 2, 28, 15, 15, 0));
    match step {
        Step::Do(Action::RetrieveFile { file_name, init_time }) => {
            assert_eq!(file_name, "locations.csv");
            assert_eq!(init_time, run);
        }
        other => panic!("expected a read of the cache, got {:?}", other),
    }
    let step = store.resume(Event::Retrieved(None));
    match step {
        Step::Do(Action::DownloadFile { url }) => {
            assert_eq!(url, address("2021/02/28", "NBM4.0", "13", "locations.csv"));
        }
        other => panic!("expected a download, got {:?}", other),
    }
    let step = store.resume(Event::Downloaded(Some(LOCATIONS.to_string())));
    match step {
        Step::Do(Action::AddFile { file_name, init_time, contents }) => {
            assert_eq!(file_name, "locations.csv");
            assert_eq!(init_time, run);
            assert_eq!(contents, LOCATIONS.as_bytes());
        }
        other => panic!("expected a write to the cache, got {:?}", other),
    }
    let step = store.resume(Event::Added);
    match step {
        Step::Validated(Ok(validation)) => {
            assert_eq!(validation.site.id, "KMSO");
            assert_eq!(validation.initialization_time, run);
        }
        other => panic!("expected a validation, got {:?}", other),
    }
    assert!(matches!(store.pending(), Step::Idle));
    assert!(matches!(store.resume(Event::Added), Step::Idle));
    assert!(world.downloads.is_empty());
    let _ = world.validate_request("KMSO", at(2021, 2, 28, 15, 15, 0)).unwrap();
}

#[test]
fn text_written_back_is_served_without_a_download() {
    let mut world = World::with_archive_of_the_afternoon();
    let request_time = at(2021, 2, 28, 15, 15, 0);

    let first = world.validate_request("KMSO", request_time).unwrap();
    assert_eq!(world.downloads.len(), 1);
    assert_eq!(world.writes, vec![("locations.csv".to_string(), at(2021, 2, 28, 13, 0, 0))]);
    assert_eq!(world.cache.len(), 1);
    assert_eq!(world.cache[0].2, LOCATIONS.as_bytes());

    let second = world.validate_request("KMSO", request_time).unwrap();
    assert_eq!(world.downloads.len(), 1);
    assert_eq!(world.writes.len(), 1);
    assert_eq!(second.site.id, first.site.id);
    assert_eq!(second.site.name, first.site.name);
    assert_eq!(second.initialization_time, first.initialization_time);

    let text = world.retrieve(first).unwrap();
    assert_eq!(text, FORECAST);
    assert_eq!(world.downloads.len(), 2);
    assert_eq!(world.downloads[1], address("2021/02/28", "NBM4.0", "13", "KMSO.csv"));
    let text = world.retrieve(second).unwrap();
    assert_eq!(text, FORECAST);
    assert_eq!(world.downloads.len(), 2);
}

#[test]
fn text_with_letters_beyond_ascii_goes_through_the_cache() {
    let table = "KMSO,MISSOULA \u{2603} \u{e9}t\u{e9},MT,46.92,-114.09\n";
    let mut world = World::new();
    world.archive.push((address("2021/02/28", "NBM4.0", "13", "locations.csv"), table.to_string()));
    let first = world.validate_request("KMSO", at(2021, 2, 28, 13, 0, 0)).unwrap();
    assert_eq!(first.site.name, "MISSOULA \u{2603} \u{e9}t\u{e9}");
    assert_eq!(world.cache[0].2, table.as_bytes());
    let second = world.validate_request("KMSO", at(2021, 2, 28, 13, 0, 0)).unwrap();
    assert_eq!(second.site.name, "MISSOULA \u{2603} \u{e9}t\u{e9}");
    assert_eq!(world.downloads.len(), 1);
}

#[test]
fn failing_cache_does_not_fail_the_request() {
    let mut world = World::with_archive_of_the_afternoon();
    world.cache_is_broken = true;
    let validation = world.validate_request("KMSO", at(2021, 2, 28, 15, 15, 0)).unwrap();
    assert_eq!(validation.site.name, "MISSOULA");
    let validation = world.validate_request("KMSO", at(2021, 2, 28, 15, 15, 0)).unwrap();
    assert_eq!(world.downloads.len(), 2);
    assert_eq!(world.writes.len(), 2);
    assert_eq!(world.retrieve(validation).unwrap(), FORECAST);
}

#[test]
fn cached_bytes_that_are_no_text_are_a_decode_error() {
    let run = at(2021, 2, 28, 13, 0, 0);
    let mut world = World::with_archive_of_the_afternoon();
    world.cache.push(("locations.csv".to_string(), run, vec![0x4b, 0xff, 0xfe]));
    match world.validate_request("KMSO", at(2021, 2, 28, 15, 15, 0)) {
        Err(Error::Decode) => {}
        other => panic!("expected a decode error, got {:?}", other),
    }
    assert!(world.downloads.is_empty());
    match world.validate_most_recent_available("KMSO", at(2021, 2, 28, 15, 15, 0)) {
        Err(Error::Decode) => {}
        other => panic!("expected a decode error, got {:?}", other),
    }
    assert_eq!(world.reads.len(), 2);

    let site = nbmarch::site_validation::validate("KMSO", LOCATIONS).unwrap();
    world.cache.push(("KMSO.csv".to_string(), run, vec![0xc3, 0x28]));
    match world.retrieve(SiteValidation::new(site, run)) {
        Err(Error::Decode) => {}
        other => panic!("expected a decode error, got {:?}", other),
    }
    assert!(world.downloads.is_empty());
}

#[test]
fn run_without_a_table_is_not_available() {
    let mut world = World::new();
    match world.validate_request("KMSO", at(2021, 2, 28, 15, 15, 0)) {
        Err(Error::InitializationTimeNotAvailable(time)) => {
            assert_eq!(time, at(2021, 2, 28, 13, 0, 0))
        }
        other => panic!("expected an unavailable run, got {:?}", other),
    }
    assert_eq!(world.reads, vec![("locations.csv".to_string(), at(2021, 2, 28, 13, 0, 0))]);
    assert_eq!(world.downloads, vec![address("2021/02/28", "NBM4.0", "13", "locations.csv")]);
    assert!(world.writes.is_empty());
}

#[test]
fn file_without_data_is_not_available() {
    let mut world = World::with_archive_of_the_afternoon();
    let validation = world.validate_request("KBTM", at(2021, 2, 28, 15, 15, 0)).unwrap();
    assert_eq!(validation.file_name(), "KBTM.csv");
    match world.retrieve(validation) {
        Err(Error::DataNotAvailable) => {}
        other => panic!("expected no data, got {:?}", other),
    }
    assert_eq!(world.downloads.last().unwrap(), &address("2021/02/28", "NBM4.0", "13", "KBTM.csv"));
}

#[test]
fn most_recent_available_gives_up_after_twenty_runs() {
    let mut world = World::new();
    let result = world.validate_most_recent_available("KMSO", at(2021, 2, 28, 15, 15, 0));
    let expected: Vec<Timestamp> = vec![
        at(2021, 2, 28, 13, 0, 0),
        at(2021, 2, 28, 7, 0, 0),
        at(2021, 2, 28, 1, 0, 0),
        at(2021, 2, 27, 19, 0, 0),
        at(2021, 2, 27, 13, 0, 0),
        at(2021, 2, 27, 7, 0, 0),
        at(2021, 2, 27, 1, 0, 0),
        at(2021, 2, 26, 19, 0, 0),
        at(2021, 2, 26, 13, 0, 0),
        at(2021, 2, 26, 7, 0, 0),
        at(2021, 2, 26, 1, 0, 0),
        at(2021, 2, 25, 19, 0, 0),
        at(2021, 2, 25, 13, 0, 0),
        at(2021, 2, 25, 7, 0, 0),
        at(2021, 2, 25, 1, 0, 0),
        at(2021, 2, 24, 19, 0, 0),
        at(2021, 2, 24, 13, 0, 0),
        at(2021, 2, 24, 7, 0, 0),
        at(2021, 2, 24, 1, 0, 0),
        at(2021, 2, 23, 19, 0, 0),
    ];
    assert_eq!(expected.len(), 20);
    let asked: Vec<Timestamp> = world.reads.iter().map(|(_, time)| *time).collect();
    assert_eq!(asked, expected);
    assert!(world.reads.iter().all(|(name, _)| name == "locations.csv"));
    assert_eq!(world.downloads.len(), 20);
    assert_eq!(world.downloads[3], address("2021/02/27", "NBM4.0", "19", "locations.csv"));
    match result {
        Err(Error::InitializationTimeNotAvailable(time)) => {
            assert_eq!(time, at(2021, 2, 23, 19, 0, 0))
        }
        other => panic!("expected an unavailable run, got {:?}", other),
    }
}

#[test]
fn most_recent_available_stops_at_the_first_run_with_a_table() {
    let mut world = World::new();
    world.archive.push((address("2021/02/27", "NBM4.0", "19", "locations.csv"), LOCATIONS.to_string()));
    world.archive.push((address("2021/02/27", "NBM4.0", "07", "locations.csv"), "KMSO,OLD,MT,1,2\n".to_string()));
    let validation = world.validate_most_recent_available("kmso", at(2021, 2, 28, 15, 15, 0)).unwrap();
    assert_eq!(validation.site.name, "MISSOULA");
    assert_eq!(validation.initialization_time, at(2021, 2, 27, 19, 0, 0));
    assert_eq!(world.reads.len(), 4);
    assert_eq!(world.downloads.len(), 4);
    assert_eq!(world.writes, vec![("locations.csv".to_string(), at(2021, 2, 27, 19, 0, 0))]);

    match world.validate_most_recent_available("nowhere", at(2021, 2, 28, 15, 15, 0)) {
        Err(Error::NoMatch(query)) => assert_eq!(query, "nowhere"),
        other => panic!("expected no match, got {:?}", other),
    }
    assert_eq!(world.reads.len(), 8);
    match world.validate_most_recent_available("logan", at(2021, 2, 28, 15, 15, 0)) {
        Err(Error::AmbiguousSite { matches }) => assert_eq!(matches.len(), 2),
        other => panic!("expected several candidates, got {:?}", other),
    }
}

#[test]
fn most_recent_available_crosses_the_cutover() {
    let mut world = World::new();
    world.archive.push((address("2020/09/22", "NBM", "19", "locations.csv"), LOCATIONS.to_string()));
    let validation = world.validate_most_recent_available("KMSO", at(2020, 9, 23, 8, 0, 0)).unwrap();
    assert_eq!(validation.initialization_time, at(2020, 9, 22, 19, 0, 0));
    assert_eq!(
        world.downloads,
        vec![
            address("2020/09/23", "NBM4.0", "07", "locations.csv"),
            address("2020/09/23", "NBM4.0", "01", "locations.csv"),
            address("2020/09/22", "NBM", "19", "locations.csv"),
        ]
    );
}

#[test]
fn most_recent_available_stops_at_the_start_of_the_calendar() {
    let mut world = World::new();
    let first_day = at(nbmarch::time::MIN_YEAR, 1, 1, 8, 0, 0);
    match world.validate_most_recent_available("KMSO", first_day) {
        Err(Error::InitializationTimeNotAvailable(time)) => {
            assert_eq!(time, at(nbmarch::time::MIN_YEAR, 1, 1, 1, 0, 0))
        }
        other => panic!("expected an unavailable run, got {:?}", other),
    }
    assert_eq!(world.reads.len(), 2);
}

#[test]
fn event_that_was_not_asked_for_changes_nothing() {
    let mut store = NBMStore::new();
    assert!(matches!(store.resume(Event::Retrieved(None)), Step::Idle));
    let _ = store.validate_request("KMSO", at(2021, 2, 28, 15, 15, 0));
    for _ in 0..2 {
        match store.resume(Event::Downloaded(Some("KMSO,MISSOULA,MT,1,2\n".to_string()))) {
            Step::Do(Action::RetrieveFile { file_name, .. }) => assert_eq!(file_name, "locations.csv"),
            other => panic!("expected a read of the cache, got {:?}", other),
        }
    }
    assert!(matches!(store.resume(Event::Added), Step::Do(Action::RetrieveFile { .. })));
    assert!(matches!(store.resume(Event::Retrieved(None)), Step::Do(Action::DownloadFile { .. })));
    assert!(matches!(store.resume(Event::Retrieved(None)), Step::Do(Action::DownloadFile { .. })));
    assert!(matches!(store.resume(Event::Added), Step::Do(Action::DownloadFile { .. })));
    assert!(matches!(
        store.resume(Event::Downloaded(Some(String::new()))),
        Step::Do(Action::AddFile { .. })
    ));
    assert!(matches!(store.resume(Event::Retrieved(None)), Step::Do(Action::AddFile { .. })));
    match store.resume(Event::Added) {
        Step::Validated(Err(Error::NoMatch(query))) => assert_eq!(query, "KMSO"),
        other => panic!("expected no match, got {:?}", other),
    }
}

#[test]
fn general_error_holds_its_message() {
    match Error::general_error("Couldn't find default local store".to_owned()) {
        Error::General(msg) => assert_eq!(msg, "Couldn't find default local store"),
        other => panic!("expected a general error, got {:?}", other),
    }
}

#[test]
fn forecast_text_is_handed_on_as_it_is() {
    let data = nbmarch::NBMData::new(FORECAST.to_string());
    assert_eq!(data.text(), FORECAST);
    assert_eq!(data.into_text(), FORECAST);
}
