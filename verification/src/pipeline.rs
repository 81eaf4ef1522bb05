//! The resolution pipeline: today's picture, else the latest cached one, else
//! the previous background.
//!
//! The pipeline is a machine. It asks for one action at a time; the caller
//! carries the action out and reports what came of it, and the machine says
//! what to do next, until it asks to finish with a result. No failure ends
//! it with an error: whatever goes wrong with today's picture leads to the
//! cache, and whatever goes wrong there leads to restoring.

use crate::cache::{cache_root_of, latest_entry_of, path_of, DatedCache, Listing};
use crate::date::CalendarDate;
use crate::parser::{
    extract_image_url, image_pattern, image_url_of, regex_capture, ParseError,
};
use crate::retry::{next_of, BudgetView, NextView, Retry, RetryBudget, RetryStep, RetryView};
use crate::text::text_result;
use vstd::prelude::*;
use vstd::string::*;

verus! {

/// The address of the publisher's page of the day.
pub const PAGE_URL: &'static str = "https://apod.nasa.gov/apod/";

/// The publisher's page of the day.
pub open spec fn page_url() -> Seq<char> {
    PAGE_URL@
}

/// The address of a picture that the page names as `relative`.
pub open spec fn image_address(relative: Seq<char>) -> Seq<char> {
    page_url() + relative
}

/// What a result stands for.
pub ghost enum ResultView {
    /// The picture at this path is to be the background.
    ImagePath(Seq<char>),
    /// No picture could be had: the previous background is to be restored.
    RestoreSignal,
}

/// What the pipeline came to.
#[derive(Debug, PartialEq, Eq)]
pub enum FetchResult {
    /// The picture at this path is to be the background.
    ImagePath(String),
    /// No picture could be had: the previous background is to be restored.
    RestoreSignal,
}

impl View for FetchResult {
    type V = ResultView;

    open spec fn view(&self) -> ResultView {
        match self {
            FetchResult::ImagePath(path) => ResultView::ImagePath(path@),
            FetchResult::RestoreSignal => ResultView::RestoreSignal,
        }
    }
}

/// What an action stands for.
pub ghost enum ActionView {
    /// Tell whether a file exists at `path`.
    CheckExists { path: Seq<char> },
    /// Request `url` once.
    Get { url: Seq<char> },
    /// Wait for `secs` seconds.
    Sleep { secs: nat },
    /// Read the body of the last response as text.
    ReadPage,
    /// Create the directory `dir` and what is missing above it.
    EnsureRoot { dir: Seq<char> },
    /// Write the body of the last response to the file at `path`.
    WriteImage { path: Seq<char> },
    /// List the names of the entries of the directory `dir`.
    ListCache { dir: Seq<char> },
    /// Stop: this is the result.
    Finish(ResultView),
}

/// What the pipeline asks its caller to do.
#[derive(Debug, PartialEq, Eq)]
pub enum Action {
    /// Tell whether a file exists at `path`.
    CheckExists { path: String },
    /// Request `url` once.
    Get { url: String },
    /// Wait for `secs` seconds.
    Sleep { secs: u64 },
    /// Read the body of the last response as text.
    ReadPage,
    /// Create the directory `dir` and what is missing above it.
    EnsureRoot { dir: String },
    /// Write the body of the last response to the file at `path`.
    WriteImage { path: String },
    /// List the names of the entries of the directory `dir`.
    ListCache { dir: String },
    /// Stop: this is the result.
    Finish(FetchResult),
}

impl View for Action {
    type V = ActionView;

    open spec fn view(&self) -> ActionView {
        match self {
            Action::CheckExists { path } => ActionView::CheckExists { path: path@ },
            Action::Get { url } => ActionView::Get { url: url@ },
            Action::Sleep { secs } => ActionView::Sleep { secs: *secs as nat },
            Action::ReadPage => ActionView::ReadPage,
            Action::EnsureRoot { dir } => ActionView::EnsureRoot { dir: dir@ },
            Action::WriteImage { path } => ActionView::WriteImage { path: path@ },
            Action::ListCache { dir } => ActionView::ListCache { dir: dir@ },
            Action::Finish(result) => ActionView::Finish(result@),
        }
    }
}

/// What came of the action that the pipeline asked for.
#[derive(Debug, PartialEq, Eq)]
pub enum Event {
    /// Answers `CheckExists`: whether the file exists.
    Exists(bool),
    /// The action was carried out.
    Done,
    /// The action failed.
    Failed,
    /// Answers `ReadPage`: the text of the page.
    Page(String),
    /// Answers `ListCache`: what listing the directory gave.
    Listed(Listing),
}

/// Where the pipeline stands: the action it has asked for, and what it keeps
/// for later.
pub ghost enum Stage {
    /// Asked whether today's file exists.
    CheckingToday,
    /// Asked for the page.
    FetchingPage { retry: RetryView },
    /// Asked to wait before asking for the page again.
    WaitingForPage { retry: RetryView },
    /// Asked to wait after the last attempt of a fetch failed.
    GivingUp,
    /// Asked for the text of the page.
    ReadingPage,
    /// Asked for the cache directory to be made.
    EnsuringRoot { image: Seq<char> },
    /// Asked for the picture.
    FetchingImage { image: Seq<char>, retry: RetryView },
    /// Asked to wait before asking for the picture again.
    WaitingForImage { image: Seq<char>, retry: RetryView },
    /// Asked for the picture to be written to today's file.
    WritingImage,
    /// Asked for the listing of the cache directory.
    Listing,
    /// Asked to finish.
    Finished(ResultView),
}

/// What a pipeline stands for.
pub ghost struct PipelineView {
    /// The cache directory.
    pub root: Seq<char>,
    /// The path of today's file.
    pub today_path: Seq<char>,
    /// The budget of each fetch.
    pub budget: BudgetView,
    /// Where the pipeline stands.
    pub stage: Stage,
}

/// A retry with a fresh budget.
pub open spec fn fresh(budget: BudgetView) -> RetryView {
    RetryView { remaining: budget.max_attempts, delay_secs: budget.delay_secs }
}

/// Whether a retry is one of a fetch with this budget.
pub open spec fn retry_fits(budget: BudgetView, retry: RetryView) -> bool {
    &&& 1 <= retry.remaining <= budget.max_attempts
    &&& retry.delay_secs == budget.delay_secs
}

impl PipelineView {
    /// Whether the pipeline is one that `start` and `step` can lead to.
    pub open spec fn wf(self) -> bool {
        &&& self.budget.max_attempts >= 1
        &&& match self.stage {
            Stage::FetchingPage { retry } => retry_fits(self.budget, retry),
            Stage::WaitingForPage { retry } => retry_fits(self.budget, retry),
            Stage::FetchingImage { image, retry } => retry_fits(self.budget, retry),
            Stage::WaitingForImage { image, retry } => retry_fits(self.budget, retry),
            _ => true,
        }
    }

    /// The same pipeline at another stage.
    pub open spec fn at(self, stage: Stage) -> PipelineView {
        PipelineView { stage, ..self }
    }

    /// Today's picture is given up: the cache is asked for its latest entry.
    pub open spec fn fall_back(self) -> (PipelineView, ActionView) {
        (self.at(Stage::Listing), ActionView::ListCache { dir: self.root })
    }

    /// The page was read: an address in it leads on to the picture, and no
    /// address leads to the cache.
    pub open spec fn read(self, parsed: Result<Seq<char>, ParseError>) -> (
        PipelineView,
        ActionView,
    ) {
        match parsed {
            Ok(relative) => (
                self.at(Stage::EnsuringRoot { image: image_address(relative) }),
                ActionView::EnsureRoot { dir: self.root },
            ),
            Err(_) => self.fall_back(),
        }
    }

    /// The pipeline ends with `result`.
    pub open spec fn finish(self, result: ResultView) -> (PipelineView, ActionView) {
        (self.at(Stage::Finished(result)), ActionView::Finish(result))
    }
}

/// The pipeline at its start, and the first action it asks for.
pub open spec fn start_of(root: Seq<char>, today_path: Seq<char>, budget: BudgetView) -> (
    PipelineView,
    ActionView,
) {
    (
        PipelineView { root, today_path, budget, stage: Stage::CheckingToday },
        ActionView::CheckExists { path: today_path },
    )
}

/// The step of a pipeline that is told what the page parser made of the
/// page. Where it has asked for the page's text, an address leads on to the
/// picture, and no address leads to the cache; anywhere else the report
/// answers nothing, and counts as a failure.
pub open spec fn step_parsed_of(p: PipelineView, parsed: Result<Seq<char>, ParseError>) -> (
    PipelineView,
    ActionView,
) {
    if p.stage is ReadingPage {
        p.read(parsed)
    } else {
        step_of(p, Event::Failed)
    }
}

/// The step of the pipeline: where it stands after `event`, and the action
/// it asks for next. An event that does not answer the action asked for
/// counts as that action's failure.
pub open spec fn step_of(p: PipelineView, event: Event) -> (PipelineView, ActionView) {
    match p.stage {
        Stage::CheckingToday => match event {
            Event::Exists(true) => p.finish(ResultView::ImagePath(p.today_path)),
            Event::Exists(false) => (
                p.at(Stage::FetchingPage { retry: fresh(p.budget) }),
                ActionView::Get { url: page_url() },
            ),
            _ => p.fall_back(),
        },
        Stage::FetchingPage { retry } => match next_of(retry, event is Done) {
            NextView::Succeed => (p.at(Stage::ReadingPage), ActionView::ReadPage),
            NextView::WaitAndRetry { secs, next } => (
                p.at(Stage::WaitingForPage { retry: next }),
                ActionView::Sleep { secs },
            ),
            NextView::WaitAndFail { secs } => (p.at(Stage::GivingUp), ActionView::Sleep { secs }),
        },
        Stage::WaitingForPage { retry } => match event {
            Event::Done => (p.at(Stage::FetchingPage { retry }), ActionView::Get { url: page_url() }),
            _ => p.fall_back(),
        },
        Stage::GivingUp => p.fall_back(),
        Stage::ReadingPage => match event {
            Event::Page(page) => p.read(image_url_of(regex_capture(image_pattern(), page@, 1))),
            _ => p.fall_back(),
        },
        Stage::EnsuringRoot { image } => match event {
            Event::Done => (
                p.at(Stage::FetchingImage { image, retry: fresh(p.budget) }),
                ActionView::Get { url: image },
            ),
            _ => p.fall_back(),
        },
        Stage::FetchingImage { image, retry } => match next_of(retry, event is Done) {
            NextView::Succeed => (
                p.at(Stage::WritingImage),
                ActionView::WriteImage { path: p.today_path },
            ),
            NextView::WaitAndRetry { secs, next } => (
                p.at(Stage::WaitingForImage { image, retry: next }),
                ActionView::Sleep { secs },
            ),
            NextView::WaitAndFail { secs } => (p.at(Stage::GivingUp), ActionView::Sleep { secs }),
        },
        Stage::WaitingForImage { image, retry } => match event {
            Event::Done => (
                p.at(Stage::FetchingImage { image, retry }),
                ActionView::Get { url: image },
            ),
            _ => p.fall_back(),
        },
        Stage::WritingImage => match event {
            Event::Done => p.finish(ResultView::ImagePath(p.today_path)),
            _ => p.fall_back(),
        },
        Stage::Listing => match event {
            Event::Listed(listing) => match latest_entry_of(p.root, listing) {
                Ok(path) => p.finish(ResultView::ImagePath(path)),
                Err(_) => p.finish(ResultView::RestoreSignal),
            },
            _ => p.finish(ResultView::RestoreSignal),
        },
        Stage::Finished(result) => p.finish(result),
    }
}

/// Why the pipeline cannot start.
#[derive(Clone, Copy, Debug, PartialEq, Eq, Structural)]
pub enum ConfigError {
    /// The home directory is not known.
    MissingHome,
}

/// What a run keeps from its start to its end.
#[derive(Debug)]
struct Setting {
    cache: DatedCache,
    today_path: String,
    budget: RetryBudget,
}

#[derive(Debug)]
enum Phase {
    CheckingToday,
    FetchingPage { retry: Retry },
    WaitingForPage { retry: Retry },
    GivingUp,
    ReadingPage,
    EnsuringRoot { image: String },
    FetchingImage { image: String, retry: Retry },
    WaitingForImage { image: String, retry: Retry },
    WritingImage,
    Listing,
    Finished(FetchResult),
}

impl View for Phase {
    type V = Stage;

    closed spec fn view(&self) -> Stage {
        match self {
            Phase::CheckingToday => Stage::CheckingToday,
            Phase::FetchingPage { retry } => Stage::FetchingPage { retry: retry@ },
            Phase::WaitingForPage { retry } => Stage::WaitingForPage { retry: retry@ },
            Phase::GivingUp => Stage::GivingUp,
            Phase::ReadingPage => Stage::ReadingPage,
            Phase::EnsuringRoot { image } => Stage::EnsuringRoot { image: image@ },
            Phase::FetchingImage { image, retry } => Stage::FetchingImage {
                image: image@,
                retry: retry@,
            },
            Phase::WaitingForImage { image, retry } => Stage::WaitingForImage {
                image: image@,
                retry: retry@,
            },
            Phase::WritingImage => Stage::WritingImage,
            Phase::Listing => Stage::Listing,
            Phase::Finished(result) => Stage::Finished(result@),
        }
    }
}

/// The resolution pipeline of one run.
#[derive(Debug)]
pub struct Pipeline {
    setting: Setting,
    phase: Phase,
}

impl View for Pipeline {
    type V = PipelineView;

    closed spec fn view(&self) -> PipelineView {
        self.setting.at(self.phase@)
    }
}

fn copy_of(text: &String) -> (r: String)
    ensures
        r@ == text@,
{
    text.clone()
}

fn is_done(event: &Event) -> (r: bool)
    ensures
        r == (*event is Done),
{
    match event {
        Event::Done => true,
        _ => false,
    }
}

impl Setting {
    /// The pipeline of this run at `stage`.
    spec fn at(self, stage: Stage) -> PipelineView {
        PipelineView {
            root: self.cache@,
            today_path: self.today_path@,
            budget: self.budget@,
            stage,
        }
    }

    /// Goes on at `phase`, asking for `action`.
    fn goes(self, phase: Phase, action: Action) -> (r: (Pipeline, Action))
        requires
            self.at(phase@).wf(),
        ensures
            r.0@ == self.at(phase@),
            r.1 == action,
    {
        (Pipeline { setting: self, phase }, action)
    }

    /// Asks for `url`, the page's or the picture's address.
    fn get(self, phase: Phase, url: &str) -> (r: (Pipeline, Action))
        requires
            self.at(phase@).wf(),
        ensures
            r.0@ == self.at(phase@),
            r.1@ == (ActionView::Get { url: url@ }),
    {
        let url = String::from_str(url);
        self.goes(phase, Action::Get { url })
    }

    /// Gives today's picture up and turns to the cache.
    fn fall_back(self) -> (r: (Pipeline, Action))
        requires
            self.budget@.max_attempts >= 1,
        ensures
            (r.0@, r.1@) == self.at(Stage::Listing).fall_back(),
    {
        let dir = String::from_str(self.cache.root());
        self.goes(Phase::Listing, Action::ListCache { dir })
    }

    /// Finishes with `result`.
    fn finish(self, result: FetchResult) -> (r: (Pipeline, Action))
        requires
            self.budget@.max_attempts >= 1,
        ensures
            (r.0@, r.1@) == self.at(Stage::Listing).finish(result@),
    {
        let kept = match &result {
            FetchResult::ImagePath(path) => FetchResult::ImagePath(copy_of(path)),
            FetchResult::RestoreSignal => FetchResult::RestoreSignal,
        };
        self.goes(Phase::Finished(kept), Action::Finish(result))
    }

    /// Finishes with today's path.
    fn finish_at_today(self) -> (r: (Pipeline, Action))
        requires
            self.budget@.max_attempts >= 1,
        ensures
            (r.0@, r.1@) == self.at(Stage::Listing).finish(
                ResultView::ImagePath(self.today_path@),
            ),
    {
        let path = copy_of(&self.today_path);
        self.finish(FetchResult::ImagePath(path))
    }

    /// Takes what the page parser made of the page.
    fn read(self, parsed: Result<String, ParseError>) -> (r: (Pipeline, Action))
        requires
            self.budget@.max_attempts >= 1,
        ensures
            (r.0@, r.1@) == self.at(Stage::ReadingPage).read(text_result(parsed)),
            r.0@.wf(),
    {
        match parsed {
            Ok(relative) => {
                let mut image = String::from_str(PAGE_URL);
                image.append(relative.as_str());
                let dir = String::from_str(self.cache.root());
                self.goes(Phase::EnsuringRoot { image }, Action::EnsureRoot { dir })
            },
            Err(_) => self.fall_back(),
        }
    }
}

impl Pipeline {
    #[verifier::type_invariant]
    spec fn inv(self) -> bool {
        self@.wf()
    }

    /// The pipeline for the day `today` over `cache`, with `budget` for each
    /// fetch, and the first action it asks for.
    pub fn new(cache: DatedCache, today: CalendarDate, budget: RetryBudget) -> (r: (
        Pipeline,
        Action,
    ))
        ensures
            (r.0@, r.1@) == start_of(cache@, path_of(cache@, today@), budget@),
            r.0@.wf(),
    {
        let today_path = cache.path_for(today);
        let path = copy_of(&today_path);
        let _ = budget.max_attempts();
        let setting = Setting { cache, today_path, budget };
        setting.goes(Phase::CheckingToday, Action::CheckExists { path })
    }

    /// The pipeline of the user whose home directory is `home`, for the day
    /// `today`, with three attempts for each fetch and a second after each
    /// failed one. Without a home directory there is no pipeline.
    pub fn start(home: Option<&str>, today: CalendarDate) -> (r: Result<
        (Pipeline, Action),
        ConfigError,
    >)
        ensures
            match home {
                None => r matches Err(ConfigError::MissingHome),
                Some(dir) => r matches Ok(begun) && (begun.0@, begun.1@) == start_of(
                    cache_root_of(dir@),
                    path_of(cache_root_of(dir@), today@),
                    BudgetView { max_attempts: 3, delay_secs: 1 },
                ) && begun.0@.wf(),
            },
    {
        match home {
            None => Err(ConfigError::MissingHome),
            Some(dir) => Ok(Pipeline::new(DatedCache::in_home(dir), today, RetryBudget::standard())),
        }
    }

    /// Takes what the page parser made of the page, and says where the
    /// pipeline stands then and which action it asks for next.
    pub fn step_parsed(self, parsed: Result<String, ParseError>) -> (r: (Pipeline, Action))
        ensures
            (r.0@, r.1@) == step_parsed_of(self@, text_result(parsed)),
            self@.wf(),
            r.0@.wf(),
    {
        proof {
            use_type_invariant(&self);
        }
        match &self.phase {
            Phase::ReadingPage => self.setting.read(parsed),
            _ => self.step(Event::Failed),
        }
    }

    /// Takes what came of the action asked for, and says where the pipeline
    /// stands then and which action it asks for next.
    pub fn step(self, event: Event) -> (r: (Pipeline, Action))
        ensures
            (r.0@, r.1@) == step_of(self@, event),
            self@.wf(),
            r.0@.wf(),
    {
        proof {
            use_type_invariant(&self);
        }
        let Pipeline { setting, phase } = self;
        let budget = setting.budget;
        let _ = budget.max_attempts();
        match phase {
            Phase::CheckingToday => match event {
                Event::Exists(true) => setting.finish_at_today(),
                Event::Exists(false) => {
                    let retry = Retry::start(budget);
                    setting.get(Phase::FetchingPage { retry }, PAGE_URL)
                },
                _ => setting.fall_back(),
            },
            Phase::FetchingPage { retry } => match retry.record(is_done(&event)) {
                RetryStep::Succeed => setting.goes(Phase::ReadingPage, Action::ReadPage),
                RetryStep::WaitAndRetry { secs, next } => setting.goes(
                    Phase::WaitingForPage { retry: next },
                    Action::Sleep { secs },
                ),
                RetryStep::WaitAndFail { secs } => setting.goes(
                    Phase::GivingUp,
                    Action::Sleep { secs },
                ),
            },
            Phase::WaitingForPage { retry } => match event {
                Event::Done => setting.get(Phase::FetchingPage { retry }, PAGE_URL),
                _ => setting.fall_back(),
            },
            Phase::GivingUp => setting.fall_back(),
            Phase::ReadingPage => match event {
                Event::Page(page) => setting.read(extract_image_url(page.as_str())),
                _ => setting.fall_back(),
            },
            Phase::EnsuringRoot { image } => match event {
                Event::Done => {
                    let url = copy_of(&image);
                    let retry = Retry::start(budget);
                    setting.get(Phase::FetchingImage { image, retry }, url.as_str())
                },
                _ => setting.fall_back(),
            },
            Phase::FetchingImage { image, retry } => match retry.record(is_done(&event)) {
                RetryStep::Succeed => {
                    let path = copy_of(&setting.today_path);
                    setting.goes(Phase::WritingImage, Action::WriteImage { path })
                },
                RetryStep::WaitAndRetry { secs, next } => setting.goes(
                    Phase::WaitingForImage { image, retry: next },
                    Action::Sleep { secs },
                ),
                RetryStep::WaitAndFail { secs } => setting.goes(
                    Phase::GivingUp,
                    Action::Sleep { secs },
                ),
            },
            Phase::WaitingForImage { image, retry } => match event {
                Event::Done => {
                    let url = copy_of(&image);
                    setting.get(Phase::FetchingImage { image, retry }, url.as_str())
                },
                _ => setting.fall_back(),
            },
            Phase::WritingImage => match event {
                Event::Done => setting.finish_at_today(),
                _ => setting.fall_back(),
            },
            Phase::Listing => match event {
                Event::Listed(listing) => match setting.cache.latest_entry(&listing) {
                    Ok(path) => setting.finish(FetchResult::ImagePath(path)),
                    Err(_) => setting.finish(FetchResult::RestoreSignal),
                },
                _ => setting.finish(FetchResult::RestoreSignal),
            },
            Phase::Finished(result) => setting.finish(result),
        }
    }
}

} // verus!
