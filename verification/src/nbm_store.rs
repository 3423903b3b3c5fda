//! The store of NBM 1D text files: a local cache in front of the remote archive.
//!
//! The store decides; it neither reads nor writes anything. It hands out one
//! `Action` at a time, and whoever runs it performs the action and reports the
//! `Event` that came of it.

use crate::download::{build_download_url, download_url};
use crate::error::{Error, ErrorView};
use crate::nbm_data::NBMData;
use crate::site_validation::{
    csv_records, locations, resolve, site_file_name, validate, SiteValidation, SiteValidationView,
};
use crate::time::{
    calculate_next_most_recent_nmb_initialization_time, has_run, hour_before_run,
    initialization_time, is_run_hour, is_valid, Civil, Timestamp,
};
use vstd::prelude::*;
use vstd::string::{StrSliceExecFns, StringExecFns};
use vstd::utf8::{decode_utf8, encode_utf8, valid_utf8};

verus! {

/// The number of runs that `validate_most_recent_available` looks at.
pub const MAX_ATTEMPTS: u32 = 20;

/// What the store asks for.
#[derive(Debug)]
pub enum Action {
    /// Read the file from the local cache.
    RetrieveFile { file_name: String, init_time: Timestamp },
    /// Download the text at `url`.
    DownloadFile { url: String },
    /// Add the file to the local cache.
    AddFile { file_name: String, init_time: Timestamp, contents: Vec<u8> },
}

/// What an `Action` holds, as mathematical values.
pub enum ActionView {
    RetrieveFile { file_name: Seq<char>, init_time: Civil },
    DownloadFile { url: Seq<char> },
    AddFile { file_name: Seq<char>, init_time: Civil, contents: Seq<u8> },
}

impl View for Action {
    type V = ActionView;

    open spec fn view(&self) -> ActionView {
        match self {
            Action::RetrieveFile { file_name, init_time } => ActionView::RetrieveFile {
                file_name: file_name@,
                init_time: init_time@,
            },
            Action::DownloadFile { url } => ActionView::DownloadFile { url: url@ },
            Action::AddFile { file_name, init_time, contents } => ActionView::AddFile {
                file_name: file_name@,
                init_time: init_time@,
                contents: contents@,
            },
        }
    }
}

/// What came of an action.
#[derive(Debug)]
pub enum Event {
    /// The cache was read: it holds these bytes, or it holds none or could not be read.
    Retrieved(Option<Vec<u8>>),
    /// The download ended: with this text, or with a failure.
    Downloaded(Option<String>),
    /// The cache was written, or could not be.
    Added,
}

/// What an `Event` holds, as mathematical values.
pub enum EventView {
    Retrieved(Option<Seq<u8>>),
    Downloaded(Option<Seq<char>>),
    Added,
}

impl View for Event {
    type V = EventView;

    open spec fn view(&self) -> EventView {
        match self {
            Event::Retrieved(Some(bytes)) => EventView::Retrieved(Some(bytes@)),
            Event::Retrieved(None) => EventView::Retrieved(None),
            Event::Downloaded(Some(text)) => EventView::Downloaded(Some(text@)),
            Event::Downloaded(None) => EventView::Downloaded(None),
            Event::Added => EventView::Added,
        }
    }
}

/// Where the store stands after a call.
#[derive(Debug)]
pub enum Step {
    /// The store waits for this action's event.
    Do(Action),
    /// A validation has ended.
    Validated(Result<SiteValidation, Error>),
    /// A retrieval has ended.
    Loaded(Result<NBMData, Error>),
    /// Nothing is in progress.
    Idle,
}

/// What a `Step` holds, as mathematical values.
pub enum StepView {
    Do(ActionView),
    Validated(Result<SiteValidationView, ErrorView>),
    Loaded(Result<Seq<char>, ErrorView>),
    Idle,
}

impl View for Step {
    type V = StepView;

    open spec fn view(&self) -> StepView {
        match self {
            Step::Do(action) => StepView::Do(action@),
            Step::Validated(Ok(validation)) => StepView::Validated(Ok(validation@)),
            Step::Validated(Err(e)) => StepView::Validated(Err(e@)),
            Step::Loaded(Ok(data)) => StepView::Loaded(Ok(data@)),
            Step::Loaded(Err(e)) => StepView::Loaded(Err(e@)),
            Step::Idle => StepView::Idle,
        }
    }
}

/// What the store is working towards.
pub enum GoalView {
    /// The site that `site` names, for the latest run that has a locations table,
    /// among this run and the `attempts_left - 1` before it.
    Validate { site: Seq<char>, attempts_left: nat },
    /// The text of the file `file_name`.
    Retrieve { file_name: Seq<char> },
}

/// What the store waits for.
pub enum PhaseView {
    /// The answer of the cache.
    Reading,
    /// The end of the download.
    Downloading,
    /// The end of the write to the cache, which `text` goes to.
    Writing { text: Seq<char> },
}

/// The state of a store, as a mathematical value.
pub enum StoreState {
    Idle,
    Busy { goal: GoalView, init_time: Civil, phase: PhaseView },
}

/// The name of the file that `goal` needs.
pub open spec fn file_name_of(goal: GoalView) -> Seq<char> {
    match goal {
        GoalView::Validate { .. } => "locations.csv"@,
        GoalView::Retrieve { file_name } => file_name,
    }
}

/// The action that a store in state `s` waits for, or `Idle`.
pub open spec fn pending(s: StoreState) -> StepView {
    match s {
        StoreState::Idle => StepView::Idle,
        StoreState::Busy { goal, init_time, phase } => StepView::Do(
            match phase {
                PhaseView::Reading => ActionView::RetrieveFile {
                    file_name: file_name_of(goal),
                    init_time,
                },
                PhaseView::Downloading => ActionView::DownloadFile {
                    url: download_url(file_name_of(goal), init_time),
                },
                PhaseView::Writing { text } => ActionView::AddFile {
                    file_name: file_name_of(goal),
                    init_time,
                    contents: encode_utf8(text),
                },
            },
        ),
    }
}

/// The validation of `site` for the run at `init_time`, whose locations table has
/// the text `table`.
pub open spec fn validation_of(site: Seq<char>, init_time: Civil, table: Seq<char>) -> Result<
    SiteValidationView,
    ErrorView,
> {
    match resolve(locations(csv_records(table)), site) {
        Ok(found) => Ok(SiteValidationView { site: found, initialization_time: init_time }),
        Err(e) => Err(e),
    }
}

/// The end of the work towards `goal` once the text of its file is there.
pub open spec fn delivered(goal: GoalView, init_time: Civil, text: Seq<char>) -> StepView {
    match goal {
        GoalView::Validate { site, .. } => StepView::Validated(validation_of(site, init_time, text)),
        GoalView::Retrieve { .. } => StepView::Loaded(Ok(text)),
    }
}

/// The end of the work towards `goal` with the failure `e`.
pub open spec fn failed(goal: GoalView, e: ErrorView) -> StepView {
    match goal {
        GoalView::Validate { .. } => StepView::Validated(Err(e)),
        GoalView::Retrieve { .. } => StepView::Loaded(Err(e)),
    }
}

/// The time one hour before `c`, on the same day.
pub open spec fn hour_before(c: Civil) -> Civil {
    Civil { hour: c.hour - 1, ..c }
}

/// Whether the calendar holds a run before the one at `init_time`.
pub open spec fn can_fall_back(init_time: Civil) -> bool {
    init_time.hour >= 1 && has_run(hour_before(init_time))
}

/// The state of a store that starts on `goal` for the run at `init_time`.
pub open spec fn started(goal: GoalView, init_time: Civil) -> StoreState {
    StoreState::Busy { goal, init_time, phase: PhaseView::Reading }
}

/// What follows when the file that `goal` needs is neither in the cache nor in the
/// archive. A validation with attempts left goes on to the latest run at or before
/// the hour before `init_time`; without, it ends with the failure that names
/// `init_time`. A retrieval ends with the failure that no data is available.
pub open spec fn unavailable(goal: GoalView, init_time: Civil) -> (StoreState, StepView) {
    match goal {
        GoalView::Validate { site, attempts_left } => if attempts_left > 1 && can_fall_back(
            init_time,
        ) {
            let next = started(
                GoalView::Validate { site, attempts_left: (attempts_left - 1) as nat },
                initialization_time(hour_before(init_time)),
            );
            (next, pending(next))
        } else {
            (
                StoreState::Idle,
                StepView::Validated(Err(ErrorView::InitializationTimeNotAvailable(init_time))),
            )
        },
        GoalView::Retrieve { .. } => (
            StoreState::Idle,
            StepView::Loaded(Err(ErrorView::DataNotAvailable)),
        ),
    }
}

/// The state of a store in state `s` after `event`, and the step it answers with.
///
/// Bytes from the cache end the work: with their text, or with a failure where
/// they are no UTF-8. Without bytes the store turns to the archive. A downloaded
/// text goes to the cache first, and ends the work once the cache has answered,
/// whatever the answer. An event that the store does not wait for changes nothing.
pub open spec fn resumed(s: StoreState, event: EventView) -> (StoreState, StepView) {
    match s {
        StoreState::Idle => (s, pending(s)),
        StoreState::Busy { goal, init_time, phase } => match (phase, event) {
            (PhaseView::Reading, EventView::Retrieved(Some(bytes))) => if valid_utf8(bytes) {
                (StoreState::Idle, delivered(goal, init_time, decode_utf8(bytes)))
            } else {
                (StoreState::Idle, failed(goal, ErrorView::Decode))
            },
            (PhaseView::Reading, EventView::Retrieved(None)) => {
                let next = StoreState::Busy { goal, init_time, phase: PhaseView::Downloading };
                (next, pending(next))
            },
            (PhaseView::Downloading, EventView::Downloaded(Some(text))) => {
                let next = StoreState::Busy { goal, init_time, phase: PhaseView::Writing { text } };
                (next, pending(next))
            },
            (PhaseView::Downloading, EventView::Downloaded(None)) => unavailable(goal, init_time),
            (PhaseView::Writing { text }, EventView::Added) => (
                StoreState::Idle,
                delivered(goal, init_time, text),
            ),
            _ => (s, pending(s)),
        },
    }
}

enum Goal {
    Validate { site: String, attempts_left: u32 },
    Retrieve { file_name: String },
}

enum Phase {
    Reading,
    Downloading,
    Writing { text: String },
}

enum Task {
    Idle,
    Busy { goal: Goal, init_time: Timestamp, phase: Phase },
}

impl Goal {
    spec fn view(&self) -> GoalView {
        match self {
            Goal::Validate { site, attempts_left } => GoalView::Validate {
                site: site@,
                attempts_left: *attempts_left as nat,
            },
            Goal::Retrieve { file_name } => GoalView::Retrieve { file_name: file_name@ },
        }
    }

    fn file_name(&self) -> (r: String)
        ensures
            r@ == file_name_of(self.view()),
    {
        match self {
            Goal::Validate { .. } => String::from_str("locations.csv"),
            Goal::Retrieve { file_name } => file_name.clone(),
        }
    }
}

impl Phase {
    spec fn view(&self) -> PhaseView {
        match self {
            Phase::Reading => PhaseView::Reading,
            Phase::Downloading => PhaseView::Downloading,
            Phase::Writing { text } => PhaseView::Writing { text: text@ },
        }
    }
}

impl Task {
    spec fn view(&self) -> StoreState {
        match self {
            Task::Idle => StoreState::Idle,
            Task::Busy { goal, init_time, phase } => StoreState::Busy {
                goal: goal.view(),
                init_time: init_time@,
                phase: phase.view(),
            },
        }
    }
}

/// The text that `bytes` encode: `String::from_utf8` returns it where the bytes are
/// valid UTF-8, and an error where they are not.
#[verifier::external_body]
fn text_of_bytes(bytes: Vec<u8>) -> (r: Option<String>)
    ensures
        r is Some <==> valid_utf8(bytes@),
        r matches Some(text) ==> text@ == decode_utf8(bytes@),
{
    match String::from_utf8(bytes) {
        Ok(text) => Some(text),
        Err(_) => None,
    }
}

/// The interface to our storage for NBM 1D text files.
///
/// The NBMStore is backed by a local cache. When data is not available in the cache
/// it has it fetched from the archive and then has a copy kept in the cache for
/// faster retrieval later.
pub struct NBMStore {
    task: Task,
}

impl View for NBMStore {
    type V = StoreState;

    closed spec fn view(&self) -> StoreState {
        self.task.view()
    }
}

fn deliver(goal: Goal, init_time: Timestamp, text: String) -> (step: Step)
    ensures
        step@ == delivered(goal.view(), init_time@, text@),
{
    match goal {
        Goal::Validate { site, .. } => {
            match validate(site.as_str(), text.as_str()) {
                Ok(found) => Step::Validated(Ok(SiteValidation::new(found, init_time))),
                Err(e) => Step::Validated(Err(e)),
            }
        },
        Goal::Retrieve { .. } => Step::Loaded(Ok(NBMData::new(text))),
    }
}

fn fail(goal: Goal, e: Error) -> (step: Step)
    ensures
        step@ == failed(goal.view(), e@),
{
    match goal {
        Goal::Validate { .. } => Step::Validated(Err(e)),
        Goal::Retrieve { .. } => Step::Loaded(Err(e)),
    }
}

impl NBMStore {
    /// A store with nothing in progress.
    pub fn new() -> (r: Self)
        ensures
            r@ == StoreState::Idle,
    {
        NBMStore { task: Task::Idle }
    }

    /// The action that the store waits for, or `Idle`.
    pub fn pending(&self) -> (step: Step)
        ensures
            step@ == pending(self@),
    {
        match &self.task {
            Task::Idle => Step::Idle,
            Task::Busy { goal, init_time, phase } => {
                let file_name = goal.file_name();
                match phase {
                    Phase::Reading => Step::Do(
                        Action::RetrieveFile { file_name, init_time: *init_time },
                    ),
                    Phase::Downloading => Step::Do(
                        Action::DownloadFile {
                            url: build_download_url(file_name.as_str(), *init_time),
                        },
                    ),
                    Phase::Writing { text } => Step::Do(
                        Action::AddFile {
                            file_name,
                            init_time: *init_time,
                            contents: text.as_str().as_bytes_vec(),
                        },
                    ),
                }
            },
        }
    }

    fn start(&mut self, goal: Goal, init_time: Timestamp) -> (step: Step)
        ensures
            final(self)@ == started(goal.view(), init_time@),
            step@ == pending(final(self)@),
    {
        self.task = Task::Busy { goal, init_time, phase: Phase::Reading };
        self.pending()
    }

    /// Validate a request.
    ///
    /// This will find the closest NBM initialization time prior to the request time
    /// and the closest match to site. If there is no data available for that
    /// initialization time, no close match for the site or too many of them, the
    /// validation ends with an error.
    pub fn validate_request(&mut self, site: &str, request_time: Timestamp) -> (step: Step)
        requires
            has_run(request_time@),
        ensures
            final(self)@ == started(
                GoalView::Validate { site: site@, attempts_left: 1 },
                initialization_time(request_time@),
            ),
            step@ == pending(final(self)@),
    {
        let init_time = calculate_next_most_recent_nmb_initialization_time(request_time);
        self.start(Goal::Validate { site: site.to_owned(), attempts_left: 1 }, init_time)
    }

    /// Validate a request, but keep going back in time until an available
    /// initialization time is found.
    ///
    /// Unlike `validate_request`, this will not end with an error for an
    /// initialization time not being available unless necessary. It will keep trying
    /// earlier runs until it finds one with some data. There is a limit to how far
    /// back it will go: it looks at `MAX_ATTEMPTS` runs, and if none of them has
    /// data it still ends with the error of the last one.
    pub fn validate_most_recent_available(&mut self, site: &str, request_time: Timestamp) -> (step:
        Step)
        requires
            has_run(request_time@),
        ensures
            final(self)@ == started(
                GoalView::Validate { site: site@, attempts_left: MAX_ATTEMPTS as nat },
                initialization_time(request_time@),
            ),
            step@ == pending(final(self)@),
    {
        let init_time = calculate_next_most_recent_nmb_initialization_time(request_time);
        self.start(
            Goal::Validate { site: site.to_owned(), attempts_left: MAX_ATTEMPTS },
            init_time,
        )
    }

    /// Once a validation has been completed, it can be used to load a text file.
    pub fn retrieve(&mut self, validation: SiteValidation) -> (step: Step)
        ensures
            final(self)@ == started(
                GoalView::Retrieve { file_name: site_file_name(validation@.site.id) },
                validation@.initialization_time,
            ),
            step@ == pending(final(self)@),
    {
        let file_name = validation.file_name();
        self.start(Goal::Retrieve { file_name }, validation.initialization_time)
    }

    fn fall_back(&mut self, goal: Goal, init_time: Timestamp) -> (step: Step)
        ensures
            (final(self)@, step@) == unavailable(goal.view(), init_time@),
    {
        match goal {
            Goal::Validate { site, attempts_left } => {
                if attempts_left > 1 && init_time.hour() >= 1 {
                    let request_time = hour_before_run(init_time);
                    if request_time.has_run() {
                        let next = calculate_next_most_recent_nmb_initialization_time(
                            request_time,
                        );
                        return self.start(
                            Goal::Validate { site, attempts_left: attempts_left - 1 },
                            next,
                        );
                    }
                }
                self.task = Task::Idle;
                Step::Validated(Err(Error::InitializationTimeNotAvailable(init_time)))
            },
            Goal::Retrieve { .. } => {
                self.task = Task::Idle;
                Step::Loaded(Err(Error::DataNotAvailable))
            },
        }
    }

    /// Takes in the event of the action that the store waits for, and says what is
    /// next.
    pub fn resume(&mut self, event: Event) -> (step: Step)
        ensures
            (final(self)@, step@) == resumed(old(self)@, event@),
    {
        let mut task = Task::Idle;
        core::mem::swap(&mut self.task, &mut task);
        match task {
            Task::Idle => Step::Idle,
            Task::Busy { goal, init_time, phase } => {
                match (phase, event) {
                    (Phase::Reading, Event::Retrieved(Some(bytes))) => {
                        match text_of_bytes(bytes) {
                            Some(text) => deliver(goal, init_time, text),
                            None => fail(goal, Error::Decode),
                        }
                    },
                    (Phase::Reading, Event::Retrieved(None)) => {
                        self.task = Task::Busy { goal, init_time, phase: Phase::Downloading };
                        self.pending()
                    },
                    (Phase::Downloading, Event::Downloaded(Some(text))) => {
                        self.task = Task::Busy { goal, init_time, phase: Phase::Writing { text } };
                        self.pending()
                    },
                    (Phase::Downloading, Event::Downloaded(None)) => self.fall_back(
                        goal,
                        init_time,
                    ),
                    (Phase::Writing { text }, Event::Added) => deliver(goal, init_time, text),
                    (phase, _) => {
                        self.task = Task::Busy { goal, init_time, phase };
                        self.pending()
                    },
                }
            },
        }
    }
}

/// The start of the run that attempt number `k` of a validation for `request_time`
/// looks at, counted from 0: the latest run at or before the request first, and
/// then each time the latest run at or before the hour before the last one.
pub open spec fn attempt_time(request_time: Civil, k: nat) -> Civil
    decreases k,
{
    if k == 0 {
        initialization_time(request_time)
    } else {
        initialization_time(hour_before(attempt_time(request_time, (k - 1) as nat)))
    }
}

/// The state of a store in state `s` after `k` rounds in which the cache had no
/// bytes and the download failed.
pub open spec fn after_misses(s: StoreState, k: nat) -> StoreState
    decreases k,
{
    if k == 0 {
        s
    } else {
        resumed(
            resumed(after_misses(s, (k - 1) as nat), EventView::Retrieved(None)).0,
            EventView::Downloaded(None),
        ).0
    }
}

/// A validation with attempts left that finds no locations table for a run goes on
/// to the latest run at or before the time exactly one hour before that run, and
/// asks the cache for its table; the last attempt ends with the failure that names
/// its own run.
pub proof fn lemma_miss_falls_back_one_hour(site: Seq<char>, attempts_left: nat, init_time: Civil)
    requires
        is_run_hour(init_time.hour),
    ensures
        ({
            let waiting = StoreState::Busy {
                goal: GoalView::Validate { site, attempts_left },
                init_time,
                phase: PhaseView::Downloading,
            };
            let earlier = initialization_time(hour_before(init_time));
            &&& attempts_left > 1 && has_run(hour_before(init_time)) ==> resumed(
                waiting,
                EventView::Downloaded(None),
            ) == (
                started(
                    GoalView::Validate { site, attempts_left: (attempts_left - 1) as nat },
                    earlier,
                ),
                StepView::Do(
                    ActionView::RetrieveFile { file_name: "locations.csv"@, init_time: earlier },
                ),
            )
            &&& attempts_left <= 1 ==> resumed(waiting, EventView::Downloaded(None)) == (
                StoreState::Idle,
                StepView::Validated(
                    Err::<SiteValidationView, ErrorView>(
                        ErrorView::InitializationTimeNotAvailable(init_time),
                    ),
                ),
            )
        }),
{
}

/// A validation that is given `attempts` attempts and finds no locations table
/// looks at `attempts` runs, one after the other: after `k` misses it asks for the
/// table of the run of attempt `k`, and after the last miss it ends with the
/// failure that names the run of the last attempt.
pub proof fn lemma_attempts_are_capped(
    site: Seq<char>,
    request_time: Civil,
    attempts: nat,
    k: nat,
)
    requires
        attempts >= 1,
        k < attempts,
        forall|j: nat| j + 1 < attempts ==> has_run(hour_before(#[trigger] attempt_time(request_time, j))),
    ensures
        after_misses(
            started(
                GoalView::Validate { site, attempts_left: attempts },
                initialization_time(request_time),
            ),
            k,
        ) == started(
            GoalView::Validate { site, attempts_left: (attempts - k) as nat },
            attempt_time(request_time, k),
        ),
        k + 1 == attempts ==> resumed(
            resumed(
                after_misses(
                    started(
                        GoalView::Validate { site, attempts_left: attempts },
                        initialization_time(request_time),
                    ),
                    k,
                ),
                EventView::Retrieved(None),
            ).0,
            EventView::Downloaded(None),
        ) == (
            StoreState::Idle,
            StepView::Validated(
                Err::<SiteValidationView, ErrorView>(
                    ErrorView::InitializationTimeNotAvailable(attempt_time(request_time, k)),
                ),
            ),
        ),
    decreases k,
{
    if k > 0 {
        let j = (k - 1) as nat;
        lemma_attempts_are_capped(site, request_time, attempts, j);
        assert(has_run(hour_before(attempt_time(request_time, j))));
        assert(is_run_hour(attempt_time(request_time, j).hour));
    }
    assert(is_run_hour(attempt_time(request_time, k).hour));
}

/// A text that was downloaded goes to the cache as its UTF-8 bytes, under the file
/// name and the run that were asked for. A later request for the same file and run
/// asks the cache first, and where the cache answers with those bytes the request
/// ends with the same text, without a download.
pub proof fn lemma_cached_text_is_served(goal: GoalView, init_time: Civil, text: Seq<char>)
    ensures
        resumed(
            StoreState::Busy { goal, init_time, phase: PhaseView::Downloading },
            EventView::Downloaded(Some(text)),
        ).1 == StepView::Do(
            ActionView::AddFile {
                file_name: file_name_of(goal),
                init_time,
                contents: encode_utf8(text),
            },
        ),
        pending(started(goal, init_time)) == StepView::Do(
            ActionView::RetrieveFile { file_name: file_name_of(goal), init_time },
        ),
        resumed(started(goal, init_time), EventView::Retrieved(Some(encode_utf8(text)))) == (
            StoreState::Idle,
            delivered(goal, init_time, text),
        ),
{
    vstd::utf8::encode_utf8_valid_utf8(text);
    vstd::utf8::encode_utf8_decode_utf8(text);
}

/// A validation that ends well names the run that the store asked the cache and
/// the archive about, and a site that the query resolves to in the table of that
/// run.
pub proof fn lemma_validation_names_its_run(site: Seq<char>, init_time: Civil, table: Seq<char>)
    ensures
        validation_of(site, init_time, table) matches Ok(validation)
            ==> validation.initialization_time == init_time && resolve(
            locations(csv_records(table)),
            site,
        ) == Ok::<crate::site_validation::SiteInfoView, ErrorView>(validation.site),
{
}

/// The runs that a validation looks at go back in time: each is a run of the
/// schedule, starts on the hour, lies before the one of the attempt before it, and
/// none lies after the time that was requested.
pub proof fn lemma_attempts_go_back_in_time(request_time: Civil, k: nat)
    requires
        is_valid(request_time),
        has_run(request_time),
        forall|j: nat| j < k ==> has_run(hour_before(#[trigger] attempt_time(request_time, j))),
    ensures
        is_valid(attempt_time(request_time, k)),
        is_run_hour(attempt_time(request_time, k).hour),
        attempt_time(request_time, k).minute == 0,
        attempt_time(request_time, k).second == 0,
        !crate::time::is_before(request_time, attempt_time(request_time, k)),
        k > 0 ==> crate::time::is_before(
            attempt_time(request_time, k),
            attempt_time(request_time, (k - 1) as nat),
        ),
    decreases k,
{
    if k > 0 {
        let j = (k - 1) as nat;
        lemma_attempts_go_back_in_time(request_time, j);
        let last = attempt_time(request_time, j);
        assert(has_run(hour_before(last)));
        crate::time::lemma_initialization_time_is_on_schedule(hour_before(last));
        crate::time::lemma_initialization_time_not_after_request(hour_before(last));
    } else {
        crate::time::lemma_initialization_time_is_on_schedule(request_time);
        crate::time::lemma_initialization_time_not_after_request(request_time);
    }
}

} // verus!
