use base64::Engine;
use materialist::db::Build;
use materialist::db::DownloadedFile;
use materialist::db::Error;
use materialist::db::Publish;
use materialist::db::Query;
use materialist::db::WorkshopItem;
use materialist::handlers::Action;
use materialist::handlers::DownloadJob;
use materialist::handlers::DownloadStage;
use materialist::handlers::Event;
use materialist::handlers::RefreshJob;
use materialist::handlers::Wait;
use materialist::handlers::Warning;
use materialist::parsing::WorkshopCollectionPage;
use materialist::parsing::WorkshopItemChangelog;
use materialist::parsing::WorkshopItemFileDetails;
use materialist::podman::expect_status;
use materialist::podman::Call;
use materialist::podman::ContainerError;
use materialist::podman::ContainerSpec;
use materialist::podman::Method;
use materialist::publish::PublishReply;
use materialist::steamcmd::download_url;
use materialist::steamcmd::downloaded;
use materialist::steamcmd::trim_surrounding_quotes;
use materialist::steamcmd::DownloadError;
use materialist::steamweb::changelog_url;
use materialist::steamweb::filedetails_url;
use materialist::steamweb::BaseUrl;
use materialist::types::ETag;
use materialist::types::WorkshopId;
use materialist::types::WorkshopIdOrUrl;
use materialist::www::allows_private;
use materialist::www::is_private;
use materialist::www::Body;
use materialist::www::CollectionResponse;
use materialist::www::Kind;
use materialist::www::Response;
use materialist::podman::build_command;
use materialist::podman::build_container;
use materialist::podman::exit_code;
use materialist::podman::path_for_mod;
use materialist::podman::public_url;
use materialist::podman::publish_container;
use materialist::www::failure;
use materialist::www::bad_request;
use materialist::www::created;
use materialist::www::gone;
use materialist::www::internal_error_response;
use materialist::www::missing_items;
use materialist::www::not_found_response;
use materialist::www::path_for_build;
use materialist::www::path_for_workshop_item;
use materialist::www::rate_limit_options;
use materialist::www::rate_limited;
use materialist::www::redirect;
use materialist::www::remote_ip;
use materialist::www::see_other;
use materialist::www::too_busy;
use materialist::rate_limit::Options;
use materialist::handlers::dump_rate_limits;
use materialist::handlers::get_archive;
use materialist::handlers::get_build;
use materialist::handlers::get_build_fragment;
use materialist::handlers::get_workshop_item_file;
use materialist::handlers::list;
use materialist::handlers::ping;
use materialist::handlers::republish;
use materialist::handlers::wait_on_publish;
use materialist::handlers::workshop_item_by_pk;

fn id(s: &str) -> WorkshopId {
    s.parse().unwrap()
}

fn base(s: &str) -> BaseUrl {
    BaseUrl::parse(s).unwrap()
}

fn plain(status: u16, text: &str) -> Response {
    Response { status, location: None, body: Body::Text(text.to_string()) }
}

const GENERIC: &str = "something went wrong with the computer and your thing didn't work, sorry =C";
const BUSY: &str = "this computer too busy (x . x) ~~zzZ";

fn item(pk: i64, version: i64, with_file: bool) -> WorkshopItem {
    WorkshopItem {
        pk,
        workshopid: id("1234"),
        title: "t".to_string(),
        authors: vec![],
        version,
        file: if with_file { Some(materialist::db::ItemFile { pk: 9, size: 1 }) } else { None },
        content: None,
    }
}

fn details(appid: &str) -> WorkshopItemFileDetails {
    WorkshopItemFileDetails {
        appid: appid.to_string(),
        workshopid: id("1234"),
        title: "A title".to_string(),
        authors: vec!["someone".to_string()],
    }
}

fn changelog(latest: i64) -> WorkshopItemChangelog {
    WorkshopItemChangelog { appid: "602960".to_string(), workshopid: id("1234"), latest_timestamp: latest }
}

fn finish(action: Action) -> Response {
    match action {
        Action::Finish(r) => r,
        other => panic!("not finished: {:?}", other),
    }
}

#[test]
fn test_urls() {
    let workshopid = "1234".to_owned().parse().unwrap();

    /* with trailing slash */
    let steamcommunity = BaseUrl::parse("http://example.com/").unwrap();
    assert_eq!(
        changelog_url(&steamcommunity, &workshopid),
        "http://example.com/sharedfiles/filedetails/changelog/1234"
    );

    /* without trailing slash */
    let steamcommunity = BaseUrl::parse("https://example.com").unwrap();
    assert_eq!(
        filedetails_url(&steamcommunity, &workshopid),
        "https://example.com/sharedfiles/filedetails/?id=1234"
    );
}

#[test]
fn addresses_are_written_out_by_the_url_crate() {
    assert_eq!(base("HTTPS://Example.COM").as_str(), "https://example.com/");
    assert_eq!(base("http://h:80/a/../b/").as_str(), "http://h/b/");
    assert_eq!(BaseUrl::parse("no address"), None);
    assert_eq!(BaseUrl::parse(""), None);
    assert_eq!(
        download_url(&base("http://localhost:8888"), &id("77")),
        "http://localhost:8888/download/602960/77.tar.zstd?exclude=*.ogg&exclude=*.sub&exclude=*.dll&exclude=*.so&exclude=*.pdb"
    );
}

#[test]
fn the_status_that_each_call_expects() {
    let c = || "c1".to_string();
    let spec = ContainerSpec {
        name: "n".to_string(),
        image: "i".to_string(),
        terminal: true,
        command: vec![],
        volumes: vec![],
        env: vec![],
        tmpfs: vec![],
        image_volumes_tmpfs: false,
    };
    let calls = vec![
        (Call::Create { spec }, Method::Post, 201, "http://p/v6.0.0/libpod/containers/create"),
        (
            Call::Upload { container: c(), path: "/baro/mod/7".to_string(), tar: vec![1] },
            Method::Put,
            200,
            "http://p/v6.0.0/libpod/containers/c1/archive?path=/baro/mod/7",
        ),
        (
            Call::Attach { container: c() },
            Method::Post,
            200,
            "http://p/v6.0.0/libpod/containers/c1/attach?stdout=1&stderr=1",
        ),
        (Call::Start { container: c() }, Method::Post, 204, "http://p/v6.0.0/libpod/containers/c1/start"),
        (Call::Wait { container: c() }, Method::Post, 200, "http://p/v6.0.0/libpod/containers/c1/wait"),
        (
            Call::GetFiles { container: c(), path: "/baro/fragments/.".to_string() },
            Method::Get,
            200,
            "http://p/v6.0.0/libpod/containers/c1/archive?path=/baro/fragments/.",
        ),
        (
            Call::Delete { container: c() },
            Method::Delete,
            200,
            "http://p/v6.0.0/libpod/containers/c1?force=1",
        ),
    ];
    for (call, method, status, url) in calls {
        assert_eq!(call.method(), method);
        assert_eq!(call.expected(), status);
        assert_eq!(call.url(), url);
        assert_eq!(
            call.content_type(),
            if matches!(call, Call::Upload { .. }) { Some("application/x-tar") } else { None }
        );
    }
}

#[test]
fn any_other_status_is_an_error_with_the_body() {
    assert_eq!(expect_status(201, 201, "made".to_string()), Ok("made".to_string()));
    let e = expect_status(200, 201, "what the engine said".to_string()).unwrap_err();
    assert_eq!(
        e,
        ContainerError { status: 200, expected: 201, body: "what the engine said".to_string() }
    );
    assert_eq!(e.to_string(), "200 status not expected status 201");
    for (status, expected) in [(204, 200), (200, 204), (500, 200), (404, 204), (0, 201)] {
        assert!(expect_status(status, expected, String::new()).is_err());
    }
}

#[test]
fn exit_codes_and_commands() {
    assert_eq!(exit_code("0"), 0);
    assert_eq!(exit_code(" 137\n"), 137);
    assert_eq!(exit_code("-2"), -2);
    assert_eq!(exit_code(""), -1);
    assert_eq!(exit_code("1 2"), -1);
    assert_eq!(exit_code("{\"StatusCode\":0}"), -1);
    assert_eq!(
        build_command(5, &vec![]),
        vec!["--no-index", "--output", "/baro/fragments/", "--content", "/baro/vanilla/", "--named-load-order", "5"]
    );
    assert_eq!(
        build_command(-5, &vec![3, 1, 3]),
        vec![
            "--no-index", "--output", "/baro/fragments/", "--content", "/baro/vanilla/",
            "/baro/mod/3", "/baro/mod/1", "/baro/mod/3", "--named-load-order", "-5", "3", "1", "3"
        ]
    );
    assert_eq!(path_for_mod(12), "/baro/mod/12");
    assert_eq!(public_url("materialist-next"), "https://materialist-next.pages.dev/");
    let b = build_container(9, &vec![1], "img", "vol");
    assert_eq!((b.name.as_str(), b.image.as_str()), ("materialist-build-9", "img"));
    assert_eq!(b.volumes[0].sub_path, "");
    assert!(b.env.is_empty() && b.tmpfs.is_empty() && !b.image_volumes_tmpfs);
    let p = publish_container(9, "img", "sec", "site");
    assert_eq!(p.name, "materialist-publish-9");
    assert_eq!(p.env[1], ("PROJECT_NAME".to_string(), "site".to_string()));
}

#[test]
fn each_kind_of_failure_has_its_status() {
    for (kind, status) in [
        (Kind::ParseError, 500),
        (Kind::DbError, 500),
        (Kind::HttpError, 500),
        (Kind::ContainerError, 500),
        (Kind::Panic, 500),
        (Kind::BadRequest, 400),
        (Kind::NotFound, 404),
        (Kind::Gone, 410),
        (Kind::RateLimitExceeded, 429),
        (Kind::Busy, 503),
    ] {
        assert_eq!(kind.status(), status);
        assert_eq!(failure(kind).status, status);
        assert_eq!(failure(kind).location, None);
    }
    assert_eq!(failure(Kind::ContainerError), plain(500, GENERIC));
    assert_eq!(failure(Kind::Gone).body, Body::Empty);
}

#[test]
fn answers_of_the_surface() {
    assert_eq!(not_found_response(), plain(404, "not found"));
    assert_eq!(internal_error_response(), plain(500, GENERIC));
    assert_eq!(too_busy(), plain(503, BUSY));
    assert_eq!(rate_limited(), plain(429, "you are being rate limited (((＞.＜)))"));
    assert_eq!(gone(), Response { status: 410, location: None, body: Body::Empty });
    assert_eq!(bad_request("why".to_string()), plain(400, "why"));
    let to = |status, l: &str| Response { status, location: Some(l.to_string()), body: Body::Empty };
    assert_eq!(redirect("/a"), to(308, "/a"));
    assert_eq!(created("/b"), to(201, "/b"));
    assert_eq!(see_other("/c"), to(303, "/c"));
    assert_eq!(path_for_workshop_item(160), "/workshop-item/160/");
    assert_eq!(path_for_build(-1), "/build/-1/");
    assert_eq!(missing_items(&vec![]).body, Body::Json("{\"missing\":[]}".to_string()));
    assert_eq!(missing_items(&vec![7]).body, Body::Json("{\"missing\":[7]}".to_string()));
    assert_eq!(missing_items(&vec![7, 8, -9]).body, Body::Json("{\"missing\":[7,8,-9]}".to_string()));
    assert_eq!(missing_items(&vec![7]).status, 400);
    assert_eq!(remote_ip(&vec![]), None);
    assert_eq!(remote_ip(&vec![None, Some(None)]), None);
    assert_eq!(remote_ip(&vec![Some(None), Some(Some(5)), Some(Some(6))]), Some(5));
    assert_eq!(remote_ip(&vec![Some(Some(1)), Some(Some(2))]), Some(1));
    let o = rate_limit_options();
    assert_eq!((o.capacity, o.interval, o.length), (400, 30_000 * 1_000_000_000, 40));
}

#[test]
fn three_requests_are_let_through_and_the_fourth_is_not() {
    let second = 1_000_000_000;
    let mut r = Options { capacity: 3, interval: second, length: 3 }.build();
    let ip = u32::from_be_bytes([203, 0, 113, 7]) as u128;
    let mut statuses = vec![];
    for n in 0..4u64 {
        let (job, action) = RefreshJob::begin(base("https://steamcommunity.com/"), id("1234"));
        let Action::Charge(cost) = action else { panic!("no charge") };
        let accepted = r.add_this_instant(ip, cost, n * second / 5).is_ok();
        let (_, step) = job.advance(Event::Charged(accepted));
        statuses.push(match step.action {
            Action::AcquirePages => 0,
            Action::Finish(r) => r.status,
            other => panic!("{:?}", other),
        });
    }
    assert_eq!(statuses, vec![0, 0, 0, 429]);
}

#[test]
fn replies_of_the_store_become_answers() {
    assert_eq!(ping(), plain(200, "pong"));
    assert_eq!(workshop_item_by_pk(None), plain(503, BUSY));
    assert_eq!(workshop_item_by_pk(Some(Err(Error::NoRows))), plain(500, GENERIC));
    assert_eq!(workshop_item_by_pk(Some(Ok(None))), plain(404, "not found"));
    assert_eq!(
        workshop_item_by_pk(Some(Ok(Some(item(1, 42, false))))),
        Response { status: 200, location: None, body: Body::Item(item(1, 42, false)) }
    );
    assert_eq!(list(None), plain(503, BUSY));
    assert_eq!(list(Some(Ok(vec![]))), plain(404, "not found"));
    assert_eq!(list(Some(Ok(vec![item(1, 1, true)]))).body, Body::Items(vec![item(1, 1, true)]));
    let build = Build {
        pk: 1,
        name: "n".to_string(),
        items: vec![],
        exit_code: None,
        output: None,
        fragment: None,
        published: None,
    };
    assert_eq!(get_build(Some(Ok(None))), plain(404, "not found"));
    assert_eq!(get_build(Some(Ok(Some(build.clone())))).body, Body::Build(build));
    assert_eq!(get_build(Some(Err(Error::NoRows))).status, 500);
    for archive in [get_archive, get_workshop_item_file, get_build_fragment] {
        assert_eq!(archive(None).status, 503);
        assert_eq!(archive(Some(Err(Error::NoRows))).status, 500);
        assert_eq!(archive(Some(Ok(None))).status, 404);
        assert_eq!(
            archive(Some(Ok(Some(vec![1, 2])))),
            Response { status: 200, location: None, body: Body::Tar(vec![1, 2]) }
        );
    }
    assert_eq!(republish(None), plain(503, BUSY));
    assert_eq!(republish(Some(PublishReply { pk: 5 })).body, Body::Pk(5));
    assert_eq!(dump_rate_limits(vec![(1, 2)]).body, Body::RateLimits(vec![(1, 2)]));
    let publish = |exit_code| Publish { pk: 1, public_url: "u".to_string(), exit_code };
    assert_eq!(wait_on_publish(Some(Ok(Some(publish(None))))), Wait::Again);
    assert_eq!(
        wait_on_publish(Some(Ok(Some(publish(Some(3)))))),
        Wait::Finish(Response {
            status: 200,
            location: None,
            body: Body::Published { exit_code: 3, public_url: "u".to_string() }
        })
    );
    assert_eq!(wait_on_publish(Some(Ok(None))), Wait::Finish(plain(404, "not found")));
    assert_eq!(wait_on_publish(None), Wait::Finish(plain(503, BUSY)));
    assert_eq!(wait_on_publish(Some(Err(Error::NoRows))), Wait::Finish(plain(500, GENERIC)));
}

#[test]
fn an_id_or_the_address_of_a_page() {
    assert_eq!(WorkshopIdOrUrl::parse("1234").unwrap().0, id("1234"));
    assert_eq!(
        WorkshopIdOrUrl::parse("https://steamcommunity.com/sharedfiles/filedetails/?id=77&x").unwrap().0,
        id("77")
    );
    assert_eq!(
        WorkshopIdOrUrl::parse("1234abc").unwrap_err(),
        "invalid workshop id or workshop item url: 1234abc"
    );
    assert_eq!(
        WorkshopIdOrUrl::parse("").unwrap_err(),
        "invalid workshop id or workshop item url: "
    );
}

#[test]
fn a_refresh_of_an_item_ends_at_the_item() {
    let (job, action) = RefreshJob::begin(base("https://steamcommunity.com"), id("1234"));
    assert!(matches!(action, Action::Charge(1)));
    let (job, step) = job.advance(Event::Charged(true));
    assert!(matches!(step.action, Action::AcquirePages));
    let (job, step) = job.advance(Event::Permit(true));
    assert!(matches!(
        step.action,
        Action::GetDetails { url } if url == "https://steamcommunity.com/sharedfiles/filedetails/?id=1234"
    ));
    let mut found = details("602960");
    found.workshopid = id("1235");
    let (job, step) = job.advance(Event::Details(Some(found)));
    assert!(matches!(
        step.action,
        Action::GetChangelog { url }
            if url == "https://steamcommunity.com/sharedfiles/filedetails/changelog/1235"
    ));
    let (job, step) = job.advance(Event::Changelog(Some(changelog(42))));
    let Action::Db(Query::UpsertWorkshopItem { item }) = step.action else { panic!("no upsert") };
    assert_eq!(item.workshopid, id("1235"));
    assert_eq!(item.title, "A title");
    assert_eq!(item.authors, vec!["someone".to_string()]);
    assert_eq!(item.version, 42);
    let (_, step) = job.advance(Event::Upserted(Some(Ok((true, 160)))));
    assert_eq!(
        finish(step.action),
        Response { status: 303, location: Some("/workshop-item/160/".to_string()), body: Body::Empty }
    );
}

#[test]
fn a_refresh_of_a_collection_lists_its_items() {
    let (job, _) = RefreshJob::begin(base("https://steamcommunity.com/"), id("1234"));
    let (job, _) = job.advance(Event::Charged(true));
    let (job, _) = job.advance(Event::Permit(true));
    let (job, _) = job.advance(Event::Details(Some(details("602960"))));
    let (job, step) = job.advance(Event::Changelog(None));
    assert!(matches!(
        step.action,
        Action::GetCollection { url } if url == "https://steamcommunity.com/sharedfiles/filedetails/?id=1234"
    ));
    let page = WorkshopCollectionPage { items: vec![id("1"), id("2")] };
    let (_, step) = job.advance(Event::Collection(Some(page)));
    assert_eq!(
        finish(step.action),
        Response {
            status: 200,
            location: None,
            body: Body::Collection(CollectionResponse {
                workshopid: id("1234"),
                title: "A title".to_string(),
                authors: vec!["someone".to_string()],
                collection: vec![id("1"), id("2")],
            })
        }
    );
}

#[test]
fn a_refresh_that_finds_nothing() {
    let begin = || RefreshJob::begin(base("https://steamcommunity.com/"), id("1234")).0;
    let (_, step) = begin().advance(Event::Charged(false));
    assert_eq!(finish(step.action).status, 429);
    let (job, _) = begin().advance(Event::Charged(true));
    let (_, step) = job.advance(Event::Permit(false));
    assert_eq!(finish(step.action).status, 500);
    let (job, _) = begin().advance(Event::Charged(true));
    let (job, _) = job.advance(Event::Permit(true));
    let (_, step) = job.advance(Event::Details(None));
    assert_eq!(finish(step.action), plain(404, "not found"));
    let (job, _) = begin().advance(Event::Charged(true));
    let (job, _) = job.advance(Event::Permit(true));
    let (_, step) = job.advance(Event::Details(Some(details("440"))));
    assert_eq!(finish(step.action), plain(404, "workshop item has wrong appid"));
    let (job, _) = begin().advance(Event::Charged(true));
    let (job, _) = job.advance(Event::Permit(true));
    let (job, _) = job.advance(Event::Details(Some(details("602960"))));
    let (job, _) = job.advance(Event::Changelog(None));
    let (_, step) = job.advance(Event::Collection(None));
    assert_eq!(step.warning, Some(Warning::NeitherItemNorCollection));
    assert_eq!(finish(step.action), plain(404, "not found"));
    let (job, _) = begin().advance(Event::Charged(true));
    let (job, _) = job.advance(Event::Permit(true));
    let (job, _) = job.advance(Event::Details(Some(details("602960"))));
    let (job, _) = job.advance(Event::Changelog(Some(changelog(1))));
    let (_, step) = job.advance(Event::Upserted(None));
    assert_eq!(finish(step.action).status, 503);
    let (_, step) = begin().advance(Event::Permit(true));
    assert_eq!(finish(step.action).status, 500);
}

fn download() -> DownloadJob {
    DownloadJob::begin(160, base("https://steamcommunity.com/"), base("http://localhost:8888/")).0
}

/// a download that has the item, was charged, and is about to check the
/// changelog
fn checking() -> DownloadJob {
    let (job, _) = download().advance(Event::Item(Some(Ok(Some(item(160, 42, false))))));
    let (job, _) = job.advance(Event::Charged(true));
    let (job, _) = job.advance(Event::Permit(true));
    job
}

#[test]
fn a_download_attaches_the_latest_archive() {
    let (job, action) =
        DownloadJob::begin(160, base("https://steamcommunity.com/"), base("http://localhost:8888/"));
    assert!(matches!(action, Action::Db(Query::WorkshopItemByPk { pk: 160 })));
    let (job, step) = job.advance(Event::Item(Some(Ok(Some(item(160, 42, false))))));
    assert!(matches!(step.action, Action::Charge(1)));
    let (job, step) = job.advance(Event::Charged(true));
    assert!(matches!(step.action, Action::AcquirePages));
    let (job, step) = job.advance(Event::Permit(true));
    assert!(matches!(
        step.action,
        Action::GetChangelog { url }
            if url == "https://steamcommunity.com/sharedfiles/filedetails/changelog/1234"
    ));
    let (job, step) = job.advance(Event::Changelog(Some(changelog(42))));
    assert!(matches!(step.action, Action::AcquireDownloader));
    let (job, step) = job.advance(Event::Permit(true));
    assert!(matches!(
        step.action,
        Action::Download { url } if url.starts_with("http://localhost:8888/download/602960/1234.tar.zstd?")
    ));
    let file = DownloadedFile { size: 9, etag: ETag(vec![1]), data: vec![2, 3] };
    let (job, step) = job.advance(Event::Downloaded(Some(file)));
    assert!(matches!(step.action, Action::AcquirePages));
    let (job, step) = job.advance(Event::Permit(true));
    assert!(matches!(step.action, Action::GetChangelog { .. }));
    let (job, step) = job.advance(Event::Changelog(Some(changelog(42))));
    let Action::Db(Query::SaveFile { item, file }) = step.action else { panic!("no save") };
    assert_eq!((item, file.size, file.data), (160, 9, vec![2, 3]));
    let (job, step) = job.advance(Event::Saved(Some(Ok(161))));
    assert!(matches!(step.action, Action::ExtractFilelist));
    let filelist = "<contentpackage name=\"XanMonsters\" modversion=\"1.2\"/>".to_string();
    let (job, step) = job.advance(Event::Filelist(Some(filelist)));
    let Action::Db(Query::SaveContentPackage { file_pk, p }) = step.action else {
        panic!("no package")
    };
    assert_eq!((file_pk, p.name.as_str(), p.version.as_str()), (161, "XanMonsters", "1.2"));
    let (job, step) = job.advance(Event::Saved(Some(Ok(161))));
    assert_eq!(job.stage, DownloadStage::Done);
    assert_eq!(step.warning, None);
    assert_eq!(
        finish(step.action),
        Response { status: 303, location: Some("/workshop-item/160/".to_string()), body: Body::Empty }
    );
}

#[test]
fn an_item_with_a_file_is_not_downloaded_again() {
    let (job, step) = download().advance(Event::Item(Some(Ok(Some(item(160, 42, true))))));
    assert_eq!(job.stage, DownloadStage::Done);
    assert_eq!(finish(step.action).location, Some("/workshop-item/160/".to_string()));
    let (_, step) = download().advance(Event::Item(Some(Ok(None))));
    assert_eq!(finish(step.action).status, 404);
    let (_, step) = download().advance(Event::Item(None));
    assert_eq!(finish(step.action).status, 503);
    let (_, step) = download().advance(Event::Item(Some(Err(Error::NoRows))));
    assert_eq!(finish(step.action).status, 500);
}

#[test]
fn a_version_that_drifted_is_gone() {
    let (job, step) = checking().advance(Event::Changelog(Some(changelog(43))));
    assert_eq!(job.stage, DownloadStage::Done);
    assert_eq!(step.warning, None);
    assert_eq!(finish(step.action), Response { status: 410, location: None, body: Body::Empty });

    let (job, _) = checking().advance(Event::Changelog(Some(changelog(42))));
    let (job, _) = job.advance(Event::Permit(true));
    let file = DownloadedFile { size: 9, etag: ETag(vec![1]), data: vec![2, 3] };
    let (job, _) = job.advance(Event::Downloaded(Some(file)));
    let (job, _) = job.advance(Event::Permit(true));
    let (job, step) = job.advance(Event::Changelog(Some(changelog(43))));
    assert_eq!(step.warning, Some(Warning::ChangedWhileDownloading));
    assert_eq!(finish(step.action).status, 410);
    assert!(job.file.is_none());
}

#[test]
fn what_fails_on_the_way_of_a_download() {
    let (job, _) = download().advance(Event::Item(Some(Ok(Some(item(160, 42, false))))));
    let (_, step) = job.advance(Event::Charged(false));
    assert_eq!(finish(step.action).status, 429);
    let (_, step) = checking().advance(Event::Changelog(None));
    assert_eq!(finish(step.action), plain(500, GENERIC));
    let (job, _) = checking().advance(Event::Changelog(Some(changelog(42))));
    let (_, step) = job.advance(Event::Permit(false));
    assert_eq!(finish(step.action).status, 500);
    let (job, _) = checking().advance(Event::Changelog(Some(changelog(42))));
    let (job, _) = job.advance(Event::Permit(true));
    let (_, step) = job.advance(Event::Downloaded(None));
    assert_eq!(finish(step.action).status, 500);
}

#[test]
fn a_content_package_is_a_best_effort() {
    let saved = || {
        let (job, _) = checking().advance(Event::Changelog(Some(changelog(42))));
        let (job, _) = job.advance(Event::Permit(true));
        let file = DownloadedFile { size: 9, etag: ETag(vec![1]), data: vec![2, 3] };
        let (job, _) = job.advance(Event::Downloaded(Some(file)));
        let (job, _) = job.advance(Event::Permit(true));
        let (job, _) = job.advance(Event::Changelog(Some(changelog(42))));
        job.advance(Event::Saved(Some(Ok(161)))).0
    };
    let (_, step) = saved().advance(Event::Filelist(None));
    assert_eq!(step.warning, Some(Warning::NoFilelist));
    assert_eq!(finish(step.action).status, 303);
    let (_, step) = saved().advance(Event::Filelist(Some("<other/>".to_string())));
    assert_eq!(step.warning, Some(Warning::NoContentPackage));
    assert_eq!(finish(step.action).status, 303);
    let filelist = "<contentpackage name=\"n\"/>".to_string();
    let (job, _) = saved().advance(Event::Filelist(Some(filelist.clone())));
    let (_, step) = job.advance(Event::Saved(Some(Err(Error::ForeignKey))));
    assert_eq!(step.warning, Some(Warning::PackageNotSaved));
    assert_eq!(finish(step.action).status, 303);
    let (job, _) = saved().advance(Event::Filelist(Some(filelist)));
    let (_, step) = job.advance(Event::Saved(None));
    assert_eq!(finish(step.action).status, 503);
    let (job, _) = checking().advance(Event::Changelog(Some(changelog(42))));
    let (job, _) = job.advance(Event::Permit(true));
    let file = DownloadedFile { size: 9, etag: ETag(vec![1]), data: vec![2, 3] };
    let (job, _) = job.advance(Event::Downloaded(Some(file)));
    let (job, _) = job.advance(Event::Permit(true));
    let (job, _) = job.advance(Event::Changelog(Some(changelog(42))));
    let (_, step) = job.advance(Event::Saved(Some(Err(Error::NoRows))));
    assert_eq!(finish(step.action).status, 500);
}

#[test]
fn what_is_taken_from_the_downloader() {
    assert_eq!(trim_surrounding_quotes(b"\"abc\""), b"abc");
    assert_eq!(trim_surrounding_quotes(b"\"abc"), b"abc");
    assert_eq!(trim_surrounding_quotes(b"abc\""), b"abc");
    assert_eq!(trim_surrounding_quotes(b"a\"bc"), b"a\"bc");
    assert_eq!(trim_surrounding_quotes(b"\""), b"");
    assert_eq!(trim_surrounding_quotes(b"\"\""), b"");
    assert_eq!(trim_surrounding_quotes(b"\"\"\""), b"\"");
    assert_eq!(trim_surrounding_quotes(b""), b"");

    let file = downloaded(Some(b"\"aGVsbG8\"".to_vec()), Some("12345".to_string()), vec![1, 2])
        .unwrap();
    assert_eq!((file.size, file.etag.0, file.data), (12345, b"hello".to_vec(), vec![1, 2]));
    let file = downloaded(Some(b"aGVsbG8".to_vec()), Some("-1".to_string()), vec![]).unwrap();
    assert_eq!(file.size, -1);
    let err = |etag: Option<&[u8]>, size: Option<&str>| {
        downloaded(etag.map(|e| e.to_vec()), size.map(|s| s.to_string()), vec![]).unwrap_err()
    };
    assert_eq!(err(None, Some("1")), DownloadError::ETag);
    assert_eq!(err(Some(b"not base64!"), Some("1")), DownloadError::ETag);
    assert_eq!(err(None, None), DownloadError::ETag);
    assert_eq!(err(Some(b"aGVsbG8"), None), DownloadError::UncompressedSize);
    assert_eq!(err(Some(b"aGVsbG8"), Some("1.5")), DownloadError::UncompressedSize);
    assert_eq!(err(Some(b"aGVsbG8"), Some(" 1")), DownloadError::UncompressedSize);
    assert_eq!(DownloadError::ETag.to_string(), "missing or invalid etag header");
    assert_eq!(
        DownloadError::UncompressedSize.to_string(),
        "missing or invalid uncompressed-size header"
    );
}

fn ask(d: &mut materialist::db::Daemon, action: Action) -> Event {
    let Action::Db(q) = action else { panic!("no question for the store") };
    match d.dispatch_at(q, 1_000) {
        materialist::db::Reply::UpsertWorkshopItem(r) => Event::Upserted(Some(r)),
        materialist::db::Reply::WorkshopItemByPk(r) => Event::Item(Some(r)),
        materialist::db::Reply::SaveFile(r) => Event::Saved(Some(r)),
        materialist::db::Reply::SaveContentPackage(r) => Event::Saved(Some(r)),
        other => panic!("{:?}", other),
    }
}

#[test]
fn a_refresh_on_a_fresh_store() {
    let mut d = materialist::db::Daemon::new(0);
    let (job, _) = RefreshJob::begin(base("https://steamcommunity.com/"), id("1234"));
    let (job, _) = job.advance(Event::Charged(true));
    let (job, _) = job.advance(Event::Permit(true));
    let (job, _) = job.advance(Event::Details(Some(details("602960"))));
    let (job, step) = job.advance(Event::Changelog(Some(changelog(42))));
    let event = ask(&mut d, step.action);
    let (_, step) = job.advance(event);
    let response = finish(step.action);
    let pk = d.clock();
    assert_eq!(response.status, 303);
    assert_eq!(response.location, Some(format!("/workshop-item/{pk}/")));

    let shown = workshop_item_by_pk(Some(Ok(d.workshop_item_by_pk(pk))));
    assert_eq!(shown.status, 200);
    let Body::Item(item) = shown.body else { panic!("no item") };
    assert_eq!(item.workshopid, id("1234"));
    assert_eq!(item.version, 42);
    assert_eq!(item.file, None);
    assert_eq!(item.content, None);
}

#[test]
fn a_drifted_version_leaves_the_item_as_it_was() {
    let mut d = materialist::db::Daemon::new(0);
    let new = materialist::db::NewWorkshopItem {
        workshopid: id("1234"),
        title: "t".to_string(),
        authors: vec![],
        version: 42,
    };
    let (_, pk) = d.upsert_workshop_item_at(new, 1_000).unwrap();
    let before = d.workshop_item_by_pk(pk);
    let clock = d.clock();

    let (job, action) =
        DownloadJob::begin(pk, base("https://steamcommunity.com/"), base("http://localhost:8888/"));
    let event = ask(&mut d, action);
    let (job, _) = job.advance(event);
    let (job, _) = job.advance(Event::Charged(true));
    let (job, _) = job.advance(Event::Permit(true));
    let (job, step) = job.advance(Event::Changelog(Some(changelog(43))));
    assert_eq!(job.stage, DownloadStage::Done);
    assert_eq!(finish(step.action), Response { status: 410, location: None, body: Body::Empty });
    assert_eq!(d.workshop_item_by_pk(pk), before);
    assert_eq!(d.clock(), clock);
    assert_eq!(d.workshop_item_file(pk), Ok(None));
}

#[test]
fn bytes_that_travel_packed_in_base_64() {
    let packed = zstd::encode_all(&b"plain bytes"[..], 0).unwrap();
    let text = base64::engine::general_purpose::URL_SAFE_NO_PAD.encode(&packed);
    assert_eq!(materialist::podman::from_b64zstd(text.as_bytes()), Some(b"plain bytes".to_vec()));
    assert_eq!(materialist::podman::from_b64zstd(b"not base64!"), None);
    assert_eq!(materialist::podman::from_b64zstd(b"aGVsbG8"), None);
}

#[test]
fn private_routes_need_the_token() {
    assert!(is_private("/x/rate-limits/"));
    assert!(is_private("/x/"));
    assert!(!is_private("/x"));
    assert!(!is_private("/ping/"));
    assert!(!is_private("x/"));
    assert!(!is_private(""));
    assert!(!allows_private("", None));
    assert!(!allows_private("", Some("")));
    assert!(!allows_private("token", None));
    assert!(!allows_private("token", Some("other")));
    assert!(!allows_private("token", Some("")));
    assert!(allows_private("token", Some("token")));
}

#[test]
fn an_item_without_a_file_is_not_found() {
    let mut d = materialist::db::Daemon::new(0);
    let new = materialist::db::NewWorkshopItem {
        workshopid: id("7"),
        version: 42,
        title: "bare".to_string(),
        authors: vec![],
    };
    let (_, pk) = d.upsert_workshop_item_at(new, 100).unwrap();
    assert_eq!(d.workshop_item_file(pk), Ok(None));
    assert_eq!(get_workshop_item_file(Some(d.workshop_item_file(pk))), plain(404, "not found"));
    assert_eq!(
        get_workshop_item_file(Some(d.workshop_item_file(pk + 1))),
        plain(404, "not found")
    );
    match d.dispatch_at(Query::WorkshopItemFile { pk }, 101) {
        materialist::db::Reply::WorkshopItemFile(r) => assert_eq!(r, Ok(None)),
        other => panic!("{:?}", other),
    }
}

