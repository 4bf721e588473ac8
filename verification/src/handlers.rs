//! What the handlers of the public surface decide.
//!
//! A handler that only asks the store turns the store's reply into an
//! answer. A handler that has outside work done in several steps is a job:
//! it says what is to be done next, is told what came of it, and finishes
//! with the answer for the client.
use crate::db::Build;
use crate::db::DownloadedFile;
use crate::db::NewWorkshopItem;
use crate::db::Publish;
use crate::db::Query;
use crate::db::WorkshopItem;
use crate::parsing::dom_first_attr;
use crate::parsing::dom_matches;
use crate::parsing::ContentPackage;
use crate::parsing::WorkshopCollectionPage;
use crate::parsing::WorkshopItemChangelog;
use crate::parsing::WorkshopItemFileDetails;
use crate::parsing::CONTENT_PACKAGE;
use crate::publish::PublishReply;
use crate::rate_limit::Ticket;
use crate::steamcmd::download_at;
use crate::steamcmd::download_url;
use crate::steamweb::changelog_at;
use crate::steamweb::changelog_url;
use crate::steamweb::filedetails_at;
use crate::steamweb::filedetails_url;
use crate::steamweb::BaseUrl;
use crate::types::WorkshopId;
use crate::www::failure;
use crate::www::failure_text;
use crate::www::item_path;
use crate::www::ok;
use crate::www::path_for_workshop_item;
use crate::www::see_other;
use crate::www::Body;
use crate::www::CollectionResponse;
use crate::www::Kind;
use crate::www::Response;
use crate::www::BARO_APPID;
use crate::www::COST_DOWNLOAD;
use crate::www::COST_WORKSHOP;
use vstd::prelude::*;
use vstd::string::*;

verus! {

/// Whether `r` is the plain answer to a failure of the kind `kind`.
pub open spec fn is_failure(r: Response, kind: Kind) -> bool {
    &&& r.status == kind.status()
    &&& r.location is None
    &&& kind == Kind::Gone ==> r.body == Body::Empty
    &&& kind != Kind::Gone ==> (r.body matches Body::Text(t) && t@ == failure_text(kind))
}

/// Whether `r` sends the client to `path`.
pub open spec fn sends_to(r: Response, path: Seq<char>) -> bool {
    &&& r.status == 303
    &&& r.location matches Some(l)
    &&& l@ == path
    &&& r.body == Body::Empty
}

/// The answer to a ping: a pong, whoever asks.
pub fn ping() -> (r: Response)
    ensures
        r.status == 200,
        r.location is None,
        r.body matches Body::Text(t) && t@ == "pong"@,
{
    ok(Body::Text(String::from_str("pong")))
}

/// The answer to the question for one item, from the store's reply: `None`
/// where the store could not be reached.
pub fn workshop_item_by_pk(reply: Option<crate::db::Result<Option<WorkshopItem>>>) -> (r: Response)
    ensures
        match reply {
            None => is_failure(r, Kind::Busy),
            Some(Err(_)) => is_failure(r, Kind::DbError),
            Some(Ok(None)) => is_failure(r, Kind::NotFound),
            Some(Ok(Some(item))) => r == (Response {
                status: 200,
                location: None,
                body: Body::Item(item),
            }),
        },
{
    match reply {
        None => failure(Kind::Busy),
        Some(Err(_)) => failure(Kind::DbError),
        Some(Ok(None)) => failure(Kind::NotFound),
        Some(Ok(Some(item))) => ok(Body::Item(item)),
    }
}

/// The answer to the question for the versions of an item: an id of which
/// the store knows no version is not found.
pub fn list(reply: Option<crate::db::Result<Vec<WorkshopItem>>>) -> (r: Response)
    ensures
        match reply {
            None => is_failure(r, Kind::Busy),
            Some(Err(_)) => is_failure(r, Kind::DbError),
            Some(Ok(items)) => if items@.len() == 0 {
                is_failure(r, Kind::NotFound)
            } else {
                r == (Response { status: 200, location: None, body: Body::Items(items) })
            },
        },
{
    match reply {
        None => failure(Kind::Busy),
        Some(Err(_)) => failure(Kind::DbError),
        Some(Ok(items)) => {
            if items.len() == 0 {
                failure(Kind::NotFound)
            } else {
                ok(Body::Items(items))
            }
        },
    }
}

/// The answer to the question for one build.
pub fn get_build(reply: Option<crate::db::Result<Option<Build>>>) -> (r: Response)
    ensures
        match reply {
            None => is_failure(r, Kind::Busy),
            Some(Err(_)) => is_failure(r, Kind::DbError),
            Some(Ok(None)) => is_failure(r, Kind::NotFound),
            Some(Ok(Some(build))) => r == (Response {
                status: 200,
                location: None,
                body: Body::Build(build),
            }),
        },
{
    match reply {
        None => failure(Kind::Busy),
        Some(Err(_)) => failure(Kind::DbError),
        Some(Ok(None)) => failure(Kind::NotFound),
        Some(Ok(Some(build))) => ok(Body::Build(build)),
    }
}

/// The answer to the question for an archive: an item's file or a build's
/// fragment.
pub fn get_archive(reply: Option<crate::db::Result<Option<Vec<u8>>>>) -> (r: Response)
    ensures
        match reply {
            None => is_failure(r, Kind::Busy),
            Some(Err(_)) => is_failure(r, Kind::DbError),
            Some(Ok(None)) => is_failure(r, Kind::NotFound),
            Some(Ok(Some(bytes))) => r == (Response {
                status: 200,
                location: None,
                body: Body::Tar(bytes),
            }),
        },
{
    match reply {
        None => failure(Kind::Busy),
        Some(Err(_)) => failure(Kind::DbError),
        Some(Ok(None)) => failure(Kind::NotFound),
        Some(Ok(Some(bytes))) => ok(Body::Tar(bytes)),
    }
}

pub fn get_workshop_item_file(reply: Option<crate::db::Result<Option<Vec<u8>>>>) -> (r: Response)
    ensures
        match reply {
            None => is_failure(r, Kind::Busy),
            Some(Err(_)) => is_failure(r, Kind::DbError),
            Some(Ok(None)) => is_failure(r, Kind::NotFound),
            Some(Ok(Some(bytes))) => r == (Response {
                status: 200,
                location: None,
                body: Body::Tar(bytes),
            }),
        },
{
    get_archive(reply)
}

pub fn get_build_fragment(reply: Option<crate::db::Result<Option<Vec<u8>>>>) -> (r: Response)
    ensures
        match reply {
            None => is_failure(r, Kind::Busy),
            Some(Err(_)) => is_failure(r, Kind::DbError),
            Some(Ok(None)) => is_failure(r, Kind::NotFound),
            Some(Ok(Some(bytes))) => r == (Response {
                status: 200,
                location: None,
                body: Body::Tar(bytes),
            }),
        },
{
    get_archive(reply)
}

/// The answer to a forced publish: the key of the publish that served the
/// request, or that the worker is busy where it gave none.
pub fn republish(reply: Option<PublishReply>) -> (r: Response)
    ensures
        match reply {
            None => is_failure(r, Kind::Busy),
            Some(served) => r == (Response {
                status: 200,
                location: None,
                body: Body::Pk(served.pk),
            }),
        },
{
    match reply {
        None => failure(Kind::Busy),
        Some(served) => ok(Body::Pk(served.pk)),
    }
}

/// The answer to the question for the table of the rate limiter.
pub fn dump_rate_limits(entries: Vec<(u128, Ticket)>) -> (r: Response)
    ensures
        r == (Response { status: 200, location: None, body: Body::RateLimits(entries) }),
{
    ok(Body::RateLimits(entries))
}

/// What the wait for a publish does next.
#[derive(Debug, PartialEq)]
pub enum Wait {
    /// sleep for the configured interval, then ask the store again
    Again,
    Finish(Response),
}

/// The wait for a publish, from the store's reply to the question for it: a
/// publish that has a result is answered with its exit code and where the
/// site is found, one that has none is asked for again after a while.
pub fn wait_on_publish(reply: Option<crate::db::Result<Option<Publish>>>) -> (w: Wait)
    ensures
        match reply {
            None => w matches Wait::Finish(r) && is_failure(r, Kind::Busy),
            Some(Err(_)) => w matches Wait::Finish(r) && is_failure(r, Kind::DbError),
            Some(Ok(None)) => w matches Wait::Finish(r) && is_failure(r, Kind::NotFound),
            Some(Ok(Some(p))) => match p.exit_code {
                None => w == Wait::Again,
                Some(exit_code) => w == Wait::Finish(
                    Response {
                        status: 200,
                        location: None,
                        body: Body::Published { exit_code, public_url: p.public_url },
                    },
                ),
            },
        },
{
    match reply {
        None => Wait::Finish(failure(Kind::Busy)),
        Some(Err(_)) => Wait::Finish(failure(Kind::DbError)),
        Some(Ok(None)) => Wait::Finish(failure(Kind::NotFound)),
        Some(Ok(Some(p))) => match p.exit_code {
            None => Wait::Again,
            Some(exit_code) => Wait::Finish(
                ok(Body::Published { exit_code, public_url: p.public_url }),
            ),
        },
    }
}

/// What a job of the marketplace handlers has done next.
#[derive(Debug)]
pub enum Action {
    /// charge the client's address; a client without one is not charged
    Charge(Ticket),
    /// wait for a permit of the marketplace's pages
    AcquirePages,
    /// wait for a permit of the downloader
    AcquireDownloader,
    /// fetch the page of an item and read the item's details out of it
    GetDetails { url: String },
    /// fetch the changelog of an item and read it
    GetChangelog { url: String },
    /// fetch the page of a collection and read it
    GetCollection { url: String },
    /// have the downloader fetch the archive
    Download { url: String },
    /// read the file list out of the archive that was downloaded
    ExtractFilelist,
    /// ask the store
    Db(Query),
    /// give the client its answer
    Finish(Response),
}

/// What came of the last thing that a job asked for.
#[derive(Debug)]
pub enum Event {
    /// whether the charge was accepted
    Charged(bool),
    /// whether a permit was had
    Permit(bool),
    /// the details of an item; `None` where its page could not be had or read
    Details(Option<WorkshopItemFileDetails>),
    Changelog(Option<WorkshopItemChangelog>),
    Collection(Option<WorkshopCollectionPage>),
    /// the archive, where the downloader gave one
    Downloaded(Option<DownloadedFile>),
    /// the file list of the archive, where it could be read
    Filelist(Option<String>),
    /// the store on an item; `None` where it could not be reached
    Item(Option<crate::db::Result<Option<WorkshopItem>>>),
    /// the store on remembering an item
    Upserted(Option<crate::db::Result<(bool, i64)>>),
    /// the store on attaching a file or remembering a content package
    Saved(Option<crate::db::Result<i64>>),
}

/// Something that went wrong without changing the answer.
#[derive(Debug, Clone, Copy, PartialEq, Eq, Structural)]
pub enum Warning {
    /// the page is neither an item nor a collection
    NeitherItemNorCollection,
    /// the item changed while its archive was downloaded
    ChangedWhileDownloading,
    /// the file list could not be read out of the archive
    NoFilelist,
    /// the file list declares no content package
    NoContentPackage,
    /// the content package was not remembered
    PackageNotSaved,
}

/// One step of a job.
#[derive(Debug)]
pub struct Step {
    pub action: Action,
    pub warning: Option<Warning>,
}

/// How far a refresh has come: what it is waiting for.
#[derive(Debug, Clone, Copy, PartialEq, Eq, Structural)]
pub enum RefreshStage {
    Charging,
    Acquiring,
    Details,
    Changelog,
    Upserting,
    Collection,
    Done,
}

/// A refresh: an id is looked up on the marketplace, and what is found is
/// remembered as an item or answered as a collection.
#[derive(Debug)]
pub struct RefreshJob {
    pub stage: RefreshStage,
    /// where the marketplace's pages are found
    pub base: BaseUrl,
    /// the id that was asked for
    pub workshopid: WorkshopId,
    /// what the item's page said
    pub details: Option<WorkshopItemFileDetails>,
}

/// Whether `step` ends the refresh `pre` with the plain answer to a failure.
pub open spec fn refresh_fails(pre: RefreshJob, post: RefreshJob, step: Step, kind: Kind) -> bool {
    &&& post == RefreshJob { stage: RefreshStage::Done, ..pre }
    &&& step.warning is None
    &&& step.action matches Action::Finish(r)
    &&& is_failure(r, kind)
}

/// Whether the refresh `pre`, told of `event`, goes on as `post` with `step`.
pub open spec fn refreshes(pre: RefreshJob, event: Event, post: RefreshJob, step: Step) -> bool {
    match (pre.stage, event) {
        (RefreshStage::Charging, Event::Charged(false)) => refresh_fails(
            pre,
            post,
            step,
            Kind::RateLimitExceeded,
        ),
        (RefreshStage::Charging, Event::Charged(true)) => {
            &&& post == RefreshJob { stage: RefreshStage::Acquiring, ..pre }
            &&& step.warning is None
            &&& step.action == Action::AcquirePages
        },
        (RefreshStage::Acquiring, Event::Permit(false)) => refresh_fails(
            pre,
            post,
            step,
            Kind::HttpError,
        ),
        (RefreshStage::Acquiring, Event::Permit(true)) => {
            &&& post == RefreshJob { stage: RefreshStage::Details, ..pre }
            &&& step.warning is None
            &&& step.action matches Action::GetDetails { url }
            &&& url@ == filedetails_at(pre.base@, pre.workshopid@)
        },
        (RefreshStage::Details, Event::Details(None)) => refresh_fails(
            pre,
            post,
            step,
            Kind::NotFound,
        ),
        (RefreshStage::Details, Event::Details(Some(details))) => if details.appid@
            != BARO_APPID@ {
            &&& post == RefreshJob { stage: RefreshStage::Done, ..pre }
            &&& step.warning is None
            &&& step.action matches Action::Finish(r)
            &&& r.status == 404
            &&& r.location is None
            &&& r.body matches Body::Text(t)
            &&& t@ == "workshop item has wrong appid"@
        } else {
            &&& post == RefreshJob { stage: RefreshStage::Changelog, details: Some(details), ..pre }
            &&& step.warning is None
            &&& step.action matches Action::GetChangelog { url }
            &&& url@ == changelog_at(pre.base@, details.workshopid@)
        },
        (RefreshStage::Changelog, Event::Changelog(Some(log))) => match pre.details {
            None => refresh_fails(pre, post, step, Kind::Panic),
            Some(details) => {
                &&& post == RefreshJob { stage: RefreshStage::Upserting, details: None, ..pre }
                &&& step.warning is None
                &&& step.action == Action::Db(
                    Query::UpsertWorkshopItem {
                        item: NewWorkshopItem {
                            workshopid: details.workshopid,
                            title: details.title,
                            authors: details.authors,
                            version: log.latest_timestamp,
                        },
                    },
                )
            },
        },
        (RefreshStage::Changelog, Event::Changelog(None)) => match pre.details {
            None => refresh_fails(pre, post, step, Kind::Panic),
            Some(details) => {
                &&& post == RefreshJob { stage: RefreshStage::Collection, ..pre }
                &&& step.warning is None
                &&& step.action matches Action::GetCollection { url }
                &&& url@ == filedetails_at(pre.base@, details.workshopid@)
            },
        },
        (RefreshStage::Upserting, Event::Upserted(None)) => refresh_fails(
            pre,
            post,
            step,
            Kind::Busy,
        ),
        (RefreshStage::Upserting, Event::Upserted(Some(Err(_)))) => refresh_fails(
            pre,
            post,
            step,
            Kind::DbError,
        ),
        (RefreshStage::Upserting, Event::Upserted(Some(Ok((_, pk))))) => {
            &&& post == RefreshJob { stage: RefreshStage::Done, ..pre }
            &&& step.warning is None
            &&& step.action matches Action::Finish(r)
            &&& sends_to(r, item_path(pk))
        },
        (RefreshStage::Collection, Event::Collection(Some(page))) => match pre.details {
            None => refresh_fails(pre, post, step, Kind::Panic),
            Some(details) => {
                &&& post == RefreshJob { stage: RefreshStage::Done, details: None, ..pre }
                &&& step.warning is None
                &&& step.action == Action::Finish(
                    Response {
                        status: 200,
                        location: None,
                        body: Body::Collection(
                            CollectionResponse {
                                workshopid: details.workshopid,
                                title: details.title,
                                authors: details.authors,
                                collection: page.items,
                            },
                        ),
                    },
                )
            },
        },
        (RefreshStage::Collection, Event::Collection(None)) => {
            &&& post == RefreshJob { stage: RefreshStage::Done, ..pre }
            &&& step.warning == Some(Warning::NeitherItemNorCollection)
            &&& step.action matches Action::Finish(r)
            &&& is_failure(r, Kind::NotFound)
        },
        _ => refresh_fails(pre, post, step, Kind::Panic),
    }
}

/// Whether two texts are the same.
fn same_text(a: &str, b: &str) -> (r: bool)
    ensures
        r == (a@ == b@),
{
    let x = a.to_owned();
    let y = b.to_owned();
    x == y
}

impl RefreshJob {
    /// A refresh of the item `workshopid`, whose page is found under `base`;
    /// and the first thing to do: charge the client.
    pub fn begin(base: BaseUrl, workshopid: WorkshopId) -> (r: (RefreshJob, Action))
        ensures
            r.0 == (RefreshJob { stage: RefreshStage::Charging, base, workshopid, details: None }),
            r.1 == Action::Charge(COST_WORKSHOP),
    {
        (
            RefreshJob { stage: RefreshStage::Charging, base, workshopid, details: None },
            Action::Charge(COST_WORKSHOP),
        )
    }

    fn fail(self, kind: Kind) -> (r: (RefreshJob, Step))
        ensures
            refresh_fails(self, r.0, r.1, kind),
    {
        (
            RefreshJob { stage: RefreshStage::Done, ..self },
            Step { action: Action::Finish(failure(kind)), warning: None },
        )
    }

    /// Takes note of what came of the last step and says what to do next.
    pub fn advance(self, event: Event) -> (r: (RefreshJob, Step))
        ensures
            refreshes(self, event, r.0, r.1),
    {
        match (self.stage, event) {
            (RefreshStage::Charging, Event::Charged(false)) => self.fail(Kind::RateLimitExceeded),
            (RefreshStage::Charging, Event::Charged(true)) => (
                RefreshJob { stage: RefreshStage::Acquiring, ..self },
                Step { action: Action::AcquirePages, warning: None },
            ),
            (RefreshStage::Acquiring, Event::Permit(false)) => self.fail(Kind::HttpError),
            (RefreshStage::Acquiring, Event::Permit(true)) => {
                let url = filedetails_url(&self.base, &self.workshopid);
                (
                    RefreshJob { stage: RefreshStage::Details, ..self },
                    Step { action: Action::GetDetails { url }, warning: None },
                )
            },
            (RefreshStage::Details, Event::Details(None)) => self.fail(Kind::NotFound),
            (RefreshStage::Details, Event::Details(Some(details))) => {
                if !same_text(details.appid.as_str(), BARO_APPID) {
                    let r = Response {
                        status: 404,
                        location: None,
                        body: Body::Text(String::from_str("workshop item has wrong appid")),
                    };
                    (
                        RefreshJob { stage: RefreshStage::Done, ..self },
                        Step { action: Action::Finish(r), warning: None },
                    )
                } else {
                    let url = changelog_url(&self.base, &details.workshopid);
                    (
                        RefreshJob {
                            stage: RefreshStage::Changelog,
                            details: Some(details),
                            ..self
                        },
                        Step { action: Action::GetChangelog { url }, warning: None },
                    )
                }
            },
            (RefreshStage::Changelog, Event::Changelog(Some(log))) => {
                let RefreshJob { stage, base, workshopid, details } = self;
                match details {
                    None => (RefreshJob { stage, base, workshopid, details: None }).fail(Kind::Panic),
                    Some(details) => {
                        let item = NewWorkshopItem {
                            workshopid: details.workshopid,
                            title: details.title,
                            authors: details.authors,
                            version: log.latest_timestamp,
                        };
                        (
                            RefreshJob {
                                stage: RefreshStage::Upserting,
                                base,
                                workshopid,
                                details: None,
                            },
                            Step {
                                action: Action::Db(Query::UpsertWorkshopItem { item }),
                                warning: None,
                            },
                        )
                    },
                }
            },
            (RefreshStage::Changelog, Event::Changelog(None)) => {
                let url = match &self.details {
                    None => return self.fail(Kind::Panic),
                    Some(details) => filedetails_url(&self.base, &details.workshopid),
                };
                (
                    RefreshJob { stage: RefreshStage::Collection, ..self },
                    Step { action: Action::GetCollection { url }, warning: None },
                )
            },
            (RefreshStage::Upserting, Event::Upserted(None)) => self.fail(Kind::Busy),
            (RefreshStage::Upserting, Event::Upserted(Some(Err(_)))) => self.fail(Kind::DbError),
            (RefreshStage::Upserting, Event::Upserted(Some(Ok((_, pk))))) => (
                RefreshJob { stage: RefreshStage::Done, ..self },
                Step {
                    action: Action::Finish(see_other(path_for_workshop_item(pk).as_str())),
                    warning: None,
                },
            ),
            (RefreshStage::Collection, Event::Collection(Some(page))) => {
                let RefreshJob { stage, base, workshopid, details } = self;
                match details {
                    None => (RefreshJob { stage, base, workshopid, details: None }).fail(Kind::Panic),
                    Some(details) => {
                        let body = Body::Collection(
                            CollectionResponse {
                                workshopid: details.workshopid,
                                title: details.title,
                                authors: details.authors,
                                collection: page.items,
                            },
                        );
                        (
                            RefreshJob { stage: RefreshStage::Done, base, workshopid, details: None },
                            Step { action: Action::Finish(ok(body)), warning: None },
                        )
                    },
                }
            },
            (RefreshStage::Collection, Event::Collection(None)) => (
                RefreshJob { stage: RefreshStage::Done, ..self },
                Step {
                    action: Action::Finish(failure(Kind::NotFound)),
                    warning: Some(Warning::NeitherItemNorCollection),
                },
            ),
            _ => self.fail(Kind::Panic),
        }
    }
}

/// How far a download has come: what it is waiting for.
#[derive(Debug, Clone, Copy, PartialEq, Eq, Structural)]
pub enum DownloadStage {
    /// for the store to show the item
    Looking,
    Charging,
    /// for a permit of the pages, before the download
    AcquiringPages,
    /// for the changelog, before the download
    Checking,
    AcquiringDownloader,
    Downloading,
    /// for a permit of the pages, after the download
    AcquiringPagesAgain,
    /// for the changelog, after the download
    Rechecking,
    /// for the store to attach the file
    Saving,
    /// for the file list of the archive
    Extracting,
    /// for the store to remember the content package
    Packaging,
    Done,
}

/// A download: the archive of the latest version of an item is fetched and
/// attached to the item, unless the item has a file already or is no longer
/// the latest version.
#[derive(Debug)]
pub struct DownloadJob {
    pub stage: DownloadStage,
    /// the key of the item
    pub pk: i64,
    /// where the marketplace's pages are found
    pub pages: BaseUrl,
    /// where the downloader is found
    pub downloader: BaseUrl,
    /// the item, once the store has shown it
    pub item: Option<WorkshopItem>,
    /// the archive, once it is downloaded and until it is handed to the store
    pub file: Option<DownloadedFile>,
    /// the key of the file, once the store has attached it
    pub file_pk: i64,
}

/// Whether `step` ends the download `pre` with the plain answer to a failure.
pub open spec fn download_fails(pre: DownloadJob, post: DownloadJob, step: Step, kind: Kind) -> bool {
    &&& post == DownloadJob { stage: DownloadStage::Done, ..pre }
    &&& step.warning is None
    &&& step.action matches Action::Finish(r)
    &&& is_failure(r, kind)
}

/// Whether `step` ends the download `pre` by sending the client to the item,
/// with the warning `warning`.
pub open spec fn download_done(pre: DownloadJob, post: DownloadJob, step: Step, warning: Option<Warning>) -> bool {
    &&& post == DownloadJob { stage: DownloadStage::Done, ..pre }
    &&& step.warning == warning
    &&& step.action matches Action::Finish(r)
    &&& sends_to(r, item_path(pre.pk))
}

/// Whether `step` asks for the changelog of the item of `pre`.
pub open spec fn asks_changelog(pre: DownloadJob, stage: DownloadStage, post: DownloadJob, step: Step) -> bool {
    match pre.item {
        None => download_fails(pre, post, step, Kind::Panic),
        Some(item) => {
            &&& post == DownloadJob { stage, ..pre }
            &&& step.warning is None
            &&& step.action matches Action::GetChangelog { url }
            &&& url@ == changelog_at(pre.pages@, item.workshopid@)
        },
    }
}

/// The content package that a file list declares, if it declares one.
pub open spec fn declares_package(filelist: Seq<char>) -> bool {
    dom_matches(filelist, CONTENT_PACKAGE@) && dom_first_attr(filelist, CONTENT_PACKAGE@, "name"@)
        is Some
}

/// Whether the download `pre`, told of `event`, goes on as `post` with
/// `step`.
pub open spec fn downloads(pre: DownloadJob, event: Event, post: DownloadJob, step: Step) -> bool {
    match (pre.stage, event) {
        (DownloadStage::Looking, Event::Item(None)) => download_fails(pre, post, step, Kind::Busy),
        (DownloadStage::Looking, Event::Item(Some(Err(_)))) => download_fails(
            pre,
            post,
            step,
            Kind::DbError,
        ),
        (DownloadStage::Looking, Event::Item(Some(Ok(None)))) => download_fails(
            pre,
            post,
            step,
            Kind::NotFound,
        ),
        (DownloadStage::Looking, Event::Item(Some(Ok(Some(item))))) => if item.file is Some {
            download_done(pre, post, step, None)
        } else {
            &&& post == DownloadJob { stage: DownloadStage::Charging, item: Some(item), ..pre }
            &&& step.warning is None
            &&& step.action == Action::Charge(COST_DOWNLOAD)
        },
        (DownloadStage::Charging, Event::Charged(false)) => download_fails(
            pre,
            post,
            step,
            Kind::RateLimitExceeded,
        ),
        (DownloadStage::Charging, Event::Charged(true)) => {
            &&& post == DownloadJob { stage: DownloadStage::AcquiringPages, ..pre }
            &&& step.warning is None
            &&& step.action == Action::AcquirePages
        },
        (DownloadStage::AcquiringPages, Event::Permit(false)) => download_fails(
            pre,
            post,
            step,
            Kind::HttpError,
        ),
        (DownloadStage::AcquiringPages, Event::Permit(true)) => asks_changelog(
            pre,
            DownloadStage::Checking,
            post,
            step,
        ),
        (DownloadStage::Checking, Event::Changelog(None)) => download_fails(
            pre,
            post,
            step,
            Kind::HttpError,
        ),
        (DownloadStage::Checking, Event::Changelog(Some(log))) => match pre.item {
            None => download_fails(pre, post, step, Kind::Panic),
            Some(item) => if item.version != log.latest_timestamp {
                download_fails(pre, post, step, Kind::Gone)
            } else {
                &&& post == DownloadJob { stage: DownloadStage::AcquiringDownloader, ..pre }
                &&& step.warning is None
                &&& step.action == Action::AcquireDownloader
            },
        },
        (DownloadStage::AcquiringDownloader, Event::Permit(false)) => download_fails(
            pre,
            post,
            step,
            Kind::HttpError,
        ),
        (DownloadStage::AcquiringDownloader, Event::Permit(true)) => match pre.item {
            None => download_fails(pre, post, step, Kind::Panic),
            Some(item) => {
                &&& post == DownloadJob { stage: DownloadStage::Downloading, ..pre }
                &&& step.warning is None
                &&& step.action matches Action::Download { url }
                &&& url@ == download_at(pre.downloader@, item.workshopid@)
            },
        },
        (DownloadStage::Downloading, Event::Downloaded(None)) => download_fails(
            pre,
            post,
            step,
            Kind::HttpError,
        ),
        (DownloadStage::Downloading, Event::Downloaded(Some(file))) => {
            &&& post == DownloadJob {
                stage: DownloadStage::AcquiringPagesAgain,
                file: Some(file),
                ..pre
            }
            &&& step.warning is None
            &&& step.action == Action::AcquirePages
        },
        (DownloadStage::AcquiringPagesAgain, Event::Permit(false)) => download_fails(
            pre,
            post,
            step,
            Kind::HttpError,
        ),
        (DownloadStage::AcquiringPagesAgain, Event::Permit(true)) => asks_changelog(
            pre,
            DownloadStage::Rechecking,
            post,
            step,
        ),
        (DownloadStage::Rechecking, Event::Changelog(None)) => download_fails(
            pre,
            post,
            step,
            Kind::HttpError,
        ),
        (DownloadStage::Rechecking, Event::Changelog(Some(log))) => match (pre.item, pre.file) {
            (Some(item), Some(file)) => if item.version != log.latest_timestamp {
                &&& post == DownloadJob { stage: DownloadStage::Done, file: None, ..pre }
                &&& step.warning == Some(Warning::ChangedWhileDownloading)
                &&& step.action matches Action::Finish(r)
                &&& is_failure(r, Kind::Gone)
            } else {
                &&& post == DownloadJob { stage: DownloadStage::Saving, file: None, ..pre }
                &&& step.warning is None
                &&& step.action == Action::Db(Query::SaveFile { item: item.pk, file })
            },
            _ => download_fails(pre, post, step, Kind::Panic),
        },
        (DownloadStage::Saving, Event::Saved(None)) => download_fails(
            pre,
            post,
            step,
            Kind::Busy,
        ),
        (DownloadStage::Saving, Event::Saved(Some(Err(_)))) => download_fails(
            pre,
            post,
            step,
            Kind::DbError,
        ),
        (DownloadStage::Saving, Event::Saved(Some(Ok(file_pk)))) => {
            &&& post == DownloadJob { stage: DownloadStage::Extracting, file_pk, ..pre }
            &&& step.warning is None
            &&& step.action == Action::ExtractFilelist
        },
        (DownloadStage::Extracting, Event::Filelist(None)) => download_done(
            pre,
            post,
            step,
            Some(Warning::NoFilelist),
        ),
        (DownloadStage::Extracting, Event::Filelist(Some(filelist))) => if !declares_package(
            filelist@,
        ) {
            download_done(pre, post, step, Some(Warning::NoContentPackage))
        } else {
            &&& post == DownloadJob { stage: DownloadStage::Packaging, ..pre }
            &&& step.warning is None
            &&& step.action matches Action::Db(Query::SaveContentPackage { file_pk, p })
            &&& file_pk == pre.file_pk
            &&& p.name@ == dom_first_attr(filelist@, CONTENT_PACKAGE@, "name"@)->0
            &&& p.version@ == (match dom_first_attr(filelist@, CONTENT_PACKAGE@, "modversion"@) {
                Some(v) => v,
                None => Seq::<char>::empty(),
            })
        },
        (DownloadStage::Packaging, Event::Saved(None)) => download_fails(
            pre,
            post,
            step,
            Kind::Busy,
        ),
        (DownloadStage::Packaging, Event::Saved(Some(Err(_)))) => download_done(
            pre,
            post,
            step,
            Some(Warning::PackageNotSaved),
        ),
        (DownloadStage::Packaging, Event::Saved(Some(Ok(_)))) => download_done(
            pre,
            post,
            step,
            None,
        ),
        _ => download_fails(pre, post, step, Kind::Panic),
    }
}

impl DownloadJob {
    /// A download for the item under `pk`; and the first thing to do: ask
    /// the store for the item.
    pub fn begin(pk: i64, pages: BaseUrl, downloader: BaseUrl) -> (r: (DownloadJob, Action))
        ensures
            r.0 == (DownloadJob {
                stage: DownloadStage::Looking,
                pk,
                pages,
                downloader,
                item: None,
                file: None,
                file_pk: 0,
            }),
            r.1 == Action::Db(Query::WorkshopItemByPk { pk }),
    {
        (
            DownloadJob {
                stage: DownloadStage::Looking,
                pk,
                pages,
                downloader,
                item: None,
                file: None,
                file_pk: 0,
            },
            Action::Db(Query::WorkshopItemByPk { pk }),
        )
    }

    fn fail(self, kind: Kind) -> (r: (DownloadJob, Step))
        ensures
            download_fails(self, r.0, r.1, kind),
    {
        (
            DownloadJob { stage: DownloadStage::Done, ..self },
            Step { action: Action::Finish(failure(kind)), warning: None },
        )
    }

    fn finish(self, warning: Option<Warning>) -> (r: (DownloadJob, Step))
        ensures
            download_done(self, r.0, r.1, warning),
    {
        let r = see_other(path_for_workshop_item(self.pk).as_str());
        (DownloadJob { stage: DownloadStage::Done, ..self }, Step { action: Action::Finish(r), warning })
    }

    fn ask_changelog(self, stage: DownloadStage) -> (r: (DownloadJob, Step))
        ensures
            asks_changelog(self, stage, r.0, r.1),
    {
        let url = match &self.item {
            None => return self.fail(Kind::Panic),
            Some(item) => changelog_url(&self.pages, &item.workshopid),
        };
        (DownloadJob { stage, ..self }, Step { action: Action::GetChangelog { url }, warning: None })
    }

    /// Takes note of what came of the last step and says what to do next.
    pub fn advance(self, event: Event) -> (r: (DownloadJob, Step))
        ensures
            downloads(self, event, r.0, r.1),
    {
        match (self.stage, event) {
            (DownloadStage::Looking, Event::Item(None)) => self.fail(Kind::Busy),
            (DownloadStage::Looking, Event::Item(Some(Err(_)))) => self.fail(Kind::DbError),
            (DownloadStage::Looking, Event::Item(Some(Ok(None)))) => self.fail(Kind::NotFound),
            (DownloadStage::Looking, Event::Item(Some(Ok(Some(item))))) => {
                if item.file.is_some() {
                    self.finish(None)
                } else {
                    (
                        DownloadJob { stage: DownloadStage::Charging, item: Some(item), ..self },
                        Step { action: Action::Charge(COST_DOWNLOAD), warning: None },
                    )
                }
            },
            (DownloadStage::Charging, Event::Charged(false)) => self.fail(Kind::RateLimitExceeded),
            (DownloadStage::Charging, Event::Charged(true)) => (
                DownloadJob { stage: DownloadStage::AcquiringPages, ..self },
                Step { action: Action::AcquirePages, warning: None },
            ),
            (DownloadStage::AcquiringPages, Event::Permit(false)) => self.fail(Kind::HttpError),
            (DownloadStage::AcquiringPages, Event::Permit(true)) => self.ask_changelog(
                DownloadStage::Checking,
            ),
            (DownloadStage::Checking, Event::Changelog(None)) => self.fail(Kind::HttpError),
            (DownloadStage::Checking, Event::Changelog(Some(log))) => {
                let same = match &self.item {
                    None => return self.fail(Kind::Panic),
                    Some(item) => item.version == log.latest_timestamp,
                };
                if !same {
                    self.fail(Kind::Gone)
                } else {
                    (
                        DownloadJob { stage: DownloadStage::AcquiringDownloader, ..self },
                        Step { action: Action::AcquireDownloader, warning: None },
                    )
                }
            },
            (DownloadStage::AcquiringDownloader, Event::Permit(false)) => self.fail(
                Kind::HttpError,
            ),
            (DownloadStage::AcquiringDownloader, Event::Permit(true)) => {
                let url = match &self.item {
                    None => return self.fail(Kind::Panic),
                    Some(item) => download_url(&self.downloader, &item.workshopid),
                };
                (
                    DownloadJob { stage: DownloadStage::Downloading, ..self },
                    Step { action: Action::Download { url }, warning: None },
                )
            },
            (DownloadStage::Downloading, Event::Downloaded(None)) => self.fail(Kind::HttpError),
            (DownloadStage::Downloading, Event::Downloaded(Some(file))) => (
                DownloadJob { stage: DownloadStage::AcquiringPagesAgain, file: Some(file), ..self },
                Step { action: Action::AcquirePages, warning: None },
            ),
            (DownloadStage::AcquiringPagesAgain, Event::Permit(false)) => self.fail(
                Kind::HttpError,
            ),
            (DownloadStage::AcquiringPagesAgain, Event::Permit(true)) => self.ask_changelog(
                DownloadStage::Rechecking,
            ),
            (DownloadStage::Rechecking, Event::Changelog(None)) => self.fail(Kind::HttpError),
            (DownloadStage::Rechecking, Event::Changelog(Some(log))) => {
                let DownloadJob { stage, pk, pages, downloader, item, file, file_pk } = self;
                match (item, file) {
                    (Some(item), Some(file)) => {
                        if item.version != log.latest_timestamp {
                            (
                                DownloadJob {
                                    stage: DownloadStage::Done,
                                    pk,
                                    pages,
                                    downloader,
                                    item: Some(item),
                                    file: None,
                                    file_pk,
                                },
                                Step {
                                    action: Action::Finish(failure(Kind::Gone)),
                                    warning: Some(Warning::ChangedWhileDownloading),
                                },
                            )
                        } else {
                            let key = item.pk;
                            (
                                DownloadJob {
                                    stage: DownloadStage::Saving,
                                    pk,
                                    pages,
                                    downloader,
                                    item: Some(item),
                                    file: None,
                                    file_pk,
                                },
                                Step {
                                    action: Action::Db(Query::SaveFile { item: key, file }),
                                    warning: None,
                                },
                            )
                        }
                    },
                    (item, file) => (DownloadJob {
                        stage,
                        pk,
                        pages,
                        downloader,
                        item,
                        file,
                        file_pk,
                    }).fail(Kind::Panic),
                }
            },
            (DownloadStage::Saving, Event::Saved(None)) => self.fail(Kind::Busy),
            (DownloadStage::Saving, Event::Saved(Some(Err(_)))) => self.fail(Kind::DbError),
            (DownloadStage::Saving, Event::Saved(Some(Ok(file_pk)))) => (
                DownloadJob { stage: DownloadStage::Extracting, file_pk, ..self },
                Step { action: Action::ExtractFilelist, warning: None },
            ),
            (DownloadStage::Extracting, Event::Filelist(None)) => self.finish(
                Some(Warning::NoFilelist),
            ),
            (DownloadStage::Extracting, Event::Filelist(Some(filelist))) => {
                match ContentPackage::from_filelist(filelist.as_str()) {
                    None => self.finish(Some(Warning::NoContentPackage)),
                    Some(p) => {
                        let file_pk = self.file_pk;
                        (
                            DownloadJob { stage: DownloadStage::Packaging, ..self },
                            Step {
                                action: Action::Db(Query::SaveContentPackage { file_pk, p }),
                                warning: None,
                            },
                        )
                    },
                }
            },
            (DownloadStage::Packaging, Event::Saved(None)) => self.fail(Kind::Busy),
            (DownloadStage::Packaging, Event::Saved(Some(Err(_)))) => self.finish(
                Some(Warning::PackageNotSaved),
            ),
            (DownloadStage::Packaging, Event::Saved(Some(Ok(_)))) => self.finish(None),
            _ => self.fail(Kind::Panic),
        }
    }
}

/// An item that has a file is never downloaded again, and an item that is no
/// longer the latest version is never downloaded at all: the downloader is
/// asked only after the changelog has named the version that the store
/// holds.
pub proof fn lemma_download_only_latest(pre: DownloadJob, event: Event, post: DownloadJob, step: Step)
    requires
        downloads(pre, event, post, step),
        step.action is AcquireDownloader,
    ensures
        pre.stage == DownloadStage::Checking,
        pre.item is Some,
        event matches Event::Changelog(Some(log)) && log.latest_timestamp == pre.item->0.version,
{
}

/// A file is handed to the store only when the changelog still names the
/// version of the item after the download, and it is attached to the item
/// that the store showed.
pub proof fn lemma_saved_only_unchanged(pre: DownloadJob, event: Event, post: DownloadJob, step: Step)
    requires
        downloads(pre, event, post, step),
        step.action matches Action::Db(Query::SaveFile { .. }),
    ensures
        pre.stage == DownloadStage::Rechecking,
        pre.item is Some && pre.file is Some,
        event matches Event::Changelog(Some(log)) && log.latest_timestamp == pre.item->0.version,
        step.action == Action::Db(Query::SaveFile { item: pre.item->0.pk, file: pre.file->0 }),
{
}

} // verus!
