use materialist::build_job::Action;
use materialist::build_job::BuildJob;
use materialist::build_job::Event;
use materialist::build_job::Failure;
use materialist::build_job::Read;
use materialist::build_job::Stage;
use materialist::build_job::Step;
use materialist::build_job::Warning;
use materialist::db::BuildItemFiles;
use materialist::db::Daemon;
use materialist::db::DownloadedFile;
use materialist::db::Error;
use materialist::db::NewPublish;
use materialist::db::NewPublishFragment;
use materialist::db::NewWorkshopItem;
use materialist::db::Query;
use materialist::db::Reply;
use materialist::db::SaveBuild;
use materialist::db::SaveBuildResult;
use materialist::podman::Call;
use materialist::podman::CreateResponse;
use materialist::publish::PublishJob;
use materialist::publish::PublishReply;
use materialist::types::ETag;
use materialist::www::Body;
use materialist::www::Kind;
use materialist::www::Response;

fn packed(plain: &[u8]) -> Vec<u8> {
    zstd::encode_all(plain, 0).unwrap()
}

fn build_job() -> (BuildJob, Action) {
    BuildJob::begin(
        SaveBuild { name: "x".to_string(), items: vec![11, 12] },
        "splicer-build".to_string(),
        "barotrauma".to_string(),
    )
}

fn text(status: u16, body: &str) -> Event {
    Event::Text { status, body: body.to_string() }
}

fn created(id: &str) -> Event {
    Event::Created(Some(CreateResponse { id: id.to_string(), warnings: vec![] }))
}

fn generic() -> Body {
    Body::Text(
        "something went wrong with the computer and your thing didn't work, sorry =C".to_string(),
    )
}

/// a job that has its container and has uploaded nothing yet
fn with_container(files: Vec<(i64, Vec<u8>)>) -> (BuildJob, Step) {
    let (job, _) = build_job();
    let (job, _) =
        job.advance(Event::Saved(Some(Ok(SaveBuildResult::Inserted { pk: 160 }))));
    let (job, _) = job.advance(Event::Loaded(Some(Ok(BuildItemFiles { files }))));
    let (job, _) = job.advance(Event::Permit(true));
    let (job, _) = job.advance(text(201, "{\"Id\":\"abc\"}"));
    let (job, _) = job.advance(created("abc"));
    job.advance(Event::Status { status: 200 })
}

fn finished(step: &Step) -> (&Response, &Option<String>, &Option<Failure>) {
    match &step.action {
        Action::Finish { response, cleanup, failure } => (response, cleanup, failure),
        other => panic!("not finished: {:?}", other),
    }
}

#[test]
fn a_build_runs_from_the_request_to_the_redirect() {
    let (job, first) = build_job();
    assert!(matches!(first, Action::Db(Query::SaveBuild { build }) if build.items == vec![11, 12]));
    assert_eq!(job.stage, Stage::Saving);

    let (job, step) = job.advance(Event::Saved(Some(Ok(SaveBuildResult::Inserted { pk: 160 }))));
    assert!(matches!(step.action, Action::Db(Query::BuildItemFiles { pk: 160 })));

    let files = vec![(11, packed(b"tar of eleven")), (12, packed(b"tar of twelve"))];
    let (job, step) = job.advance(Event::Loaded(Some(Ok(BuildItemFiles { files }))));
    assert!(matches!(step.action, Action::AcquirePermit));

    let (job, step) = job.advance(Event::Permit(true));
    let Action::Call { call: Call::Create { spec }, read: Read::Text } = step.action else {
        panic!("no create")
    };
    assert_eq!(spec.name, "materialist-build-160");
    assert_eq!(spec.image, "splicer-build");
    assert!(spec.terminal);
    assert_eq!(
        spec.command,
        vec![
            "--no-index",
            "--output",
            "/baro/fragments/",
            "--content",
            "/baro/vanilla/",
            "/baro/mod/11",
            "/baro/mod/12",
            "--named-load-order",
            "160",
            "11",
            "12"
        ]
    );
    assert_eq!(spec.volumes.len(), 1);
    assert_eq!(spec.volumes[0].name, "barotrauma");
    assert_eq!(spec.volumes[0].dest, "/baro/vanilla");

    let (job, step) = job.advance(text(201, "{\"Id\":\"abc\"}"));
    assert!(matches!(step.action, Action::DecodeCreated { body } if body == "{\"Id\":\"abc\"}"));

    let (job, step) = job.advance(Event::Created(Some(CreateResponse {
        id: "abc".to_string(),
        warnings: vec!["careful".to_string()],
    })));
    assert_eq!(step.warning, Some(Warning::CreatedWithWarnings(vec!["careful".to_string()])));
    assert!(matches!(
        step.action,
        Action::Call { call: Call::Attach { container }, read: Read::Status } if container == "abc"
    ));
    assert_eq!(job.container, Some("abc".to_string()));

    let (job, step) = job.advance(Event::Status { status: 200 });
    assert_eq!(step.warning, None);
    let Action::Call { call: Call::Upload { container, path, tar }, read: Read::Text } = step.action
    else {
        panic!("no upload")
    };
    assert_eq!((container.as_str(), path.as_str()), ("abc", "/baro/mod/11"));
    assert_eq!(tar, b"tar of eleven");

    let (job, step) = job.advance(text(200, ""));
    let Action::Call { call: Call::Upload { path, tar, .. }, .. } = step.action else {
        panic!("no second upload")
    };
    assert_eq!(path, "/baro/mod/12");
    assert_eq!(tar, b"tar of twelve");

    let (job, step) = job.advance(text(200, ""));
    assert!(matches!(
        step.action,
        Action::Call { call: Call::Start { container }, read: Read::Text } if container == "abc"
    ));

    let (job, step) = job.advance(text(204, ""));
    assert!(matches!(step.action, Action::ReadAttached));

    let (job, step) = job.advance(Event::Output(Some("it built".to_string())));
    assert_eq!(step.warning, None);
    assert!(matches!(
        step.action,
        Action::Call { call: Call::Wait { container }, read: Read::Text } if container == "abc"
    ));

    let (job, step) = job.advance(text(200, " 0\n"));
    assert_eq!(step.warning, None);
    let Action::Call { call: Call::GetFiles { container, path }, read: Read::Bytes } = step.action
    else {
        panic!("no fetch")
    };
    assert_eq!((container.as_str(), path.as_str()), ("abc", "/baro/fragments/."));

    let (job, step) = job.advance(Event::Bytes { status: 200, body: b"fragment tar".to_vec() });
    assert_eq!(step.warning, None);
    let Action::Db(Query::SaveBuildResult { b }) = step.action else { panic!("no record") };
    assert_eq!((b.pk, b.exit_code, b.output.as_str()), (160, 0, "it built"));
    assert_eq!(zstd::decode_all(&b.fragment[..]).unwrap(), b"fragment tar");

    let (job, step) = job.advance(Event::Recorded(Some(Ok(()))));
    assert!(matches!(step.action, Action::EnqueuePublish));
    assert!(!job.done());

    let (job, step) = job.advance(Event::Enqueued(true));
    assert!(job.done());
    assert_eq!(step.warning, None);
    let (response, cleanup, failure) = finished(&step);
    assert_eq!(
        response,
        &Response { status: 303, location: Some("/build/160/".to_string()), body: Body::Empty }
    );
    assert_eq!(cleanup, &Some("abc".to_string()));
    assert_eq!(failure, &None);
}

#[test]
fn a_build_with_missing_items_is_a_bad_request() {
    let (job, _) = build_job();
    let (job, step) =
        job.advance(Event::Saved(Some(Ok(SaveBuildResult::Missing { missing: vec![12, -3] }))));
    assert!(job.done());
    let (response, cleanup, failure) = finished(&step);
    assert_eq!(
        response,
        &Response {
            status: 400,
            location: None,
            body: Body::Json("{\"missing\":[12,-3]}".to_string())
        }
    );
    assert_eq!(cleanup, &None);
    assert_eq!(failure, &None);
}

#[test]
fn a_store_out_of_reach_is_busy_and_a_failing_one_an_internal_error() {
    let (job, _) = build_job();
    let (_, step) = job.advance(Event::Saved(None));
    let (response, _, failure) = finished(&step);
    assert_eq!(response.status, 503);
    assert_eq!(response.body, Body::Text("this computer too busy (x . x) ~~zzZ".to_string()));
    assert_eq!(failure, &Some(Failure { kind: Kind::Busy, body: None }));

    let (job, _) = build_job();
    let (_, step) = job.advance(Event::Saved(Some(Err(Error::KeysExhausted))));
    let (response, _, failure) = finished(&step);
    assert_eq!(response.status, 500);
    assert_eq!(response.body, generic());
    assert_eq!(failure, &Some(Failure { kind: Kind::DbError, body: None }));

    let (job, _) = build_job();
    let (job, _) = job.advance(Event::Saved(Some(Ok(SaveBuildResult::Inserted { pk: 1 }))));
    let (job, _) = job.advance(Event::Loaded(Some(Ok(BuildItemFiles { files: vec![] }))));
    let (_, step) = job.advance(Event::Permit(false));
    assert_eq!(finished(&step).0.status, 500);
}

#[test]
fn an_unexpected_status_ends_the_build_with_what_the_engine_said() {
    let (job, _) = build_job();
    let (job, _) = job.advance(Event::Saved(Some(Ok(SaveBuildResult::Inserted { pk: 1 }))));
    let (job, _) = job.advance(Event::Loaded(Some(Ok(BuildItemFiles { files: vec![] }))));
    let (job, _) = job.advance(Event::Permit(true));
    let (_, step) = job.advance(text(200, "created?"));
    let (response, cleanup, failure) = finished(&step);
    assert_eq!(response.status, 500);
    assert_eq!(cleanup, &None);
    assert_eq!(
        failure,
        &Some(Failure { kind: Kind::ContainerError, body: Some("created?".to_string()) })
    );

    let (job, _) = with_container(vec![(11, packed(b"one"))]);
    let (_, step) = job.advance(text(500, "no space"));
    let (response, cleanup, failure) = finished(&step);
    assert_eq!(response.status, 500);
    assert_eq!(cleanup, &Some("abc".to_string()));
    assert_eq!(
        failure,
        &Some(Failure { kind: Kind::ContainerError, body: Some("no space".to_string()) })
    );

    let (job, _) = with_container(vec![]);
    let (_, step) = job.advance(text(200, "started?"));
    assert_eq!(
        finished(&step).2,
        &Some(Failure { kind: Kind::ContainerError, body: Some("started?".to_string()) })
    );

    let (job, _) = with_container(vec![]);
    let (job, _) = job.advance(text(204, ""));
    let (job, _) = job.advance(Event::Output(None));
    let (_, step) = job.advance(text(404, "no such container"));
    let (response, cleanup, failure) = finished(&step);
    assert_eq!((response.status, cleanup), (500, &Some("abc".to_string())));
    assert_eq!(
        failure,
        &Some(Failure { kind: Kind::ContainerError, body: Some("no such container".to_string()) })
    );
}

#[test]
fn what_only_costs_the_output_is_a_warning() {
    let (job, _) = build_job();
    let (job, _) = job.advance(Event::Saved(Some(Ok(SaveBuildResult::Inserted { pk: 5 }))));
    let (job, _) = job.advance(Event::Loaded(Some(Ok(BuildItemFiles { files: vec![] }))));
    let (job, _) = job.advance(Event::Permit(true));
    let (job, _) = job.advance(text(201, "{}"));
    let (job, _) = job.advance(created("c"));
    let (job, step) = job.advance(Event::Status { status: 409 });
    assert_eq!(step.warning, Some(Warning::NotAttached));
    assert!(matches!(step.action, Action::Call { call: Call::Start { .. }, .. }));
    assert!(!job.attached);

    let (job, step) = job.advance(text(204, ""));
    assert!(matches!(step.action, Action::Call { call: Call::Wait { .. }, .. }));

    let (job, step) = job.advance(text(200, "exited"));
    assert_eq!(step.warning, Some(Warning::ExitCodeUnread("exited".to_string())));
    assert_eq!(job.exit_code, -1);

    let (job, step) = job.advance(Event::Bytes { status: 404, body: b"nothing".to_vec() });
    assert_eq!(step.warning, Some(Warning::FragmentUnread));
    let Action::Db(Query::SaveBuildResult { b }) = step.action else { panic!("no record") };
    assert_eq!((b.pk, b.exit_code, b.output.as_str()), (5, -1, ""));
    assert!(b.fragment.is_empty());

    let (job, _) = job.advance(Event::Recorded(Some(Ok(()))));
    let (_, step) = job.advance(Event::Enqueued(false));
    assert_eq!(step.warning, Some(Warning::PublishNotRequested));
    assert_eq!(finished(&step).0.status, 303);

    let (job, _) = with_container(vec![]);
    let (job, _) = job.advance(text(204, ""));
    let (job, step) = job.advance(Event::Output(None));
    assert_eq!(step.warning, Some(Warning::OutputUnread));
    let (job, _) = job.advance(text(200, "3"));
    let (_, step) = job.advance(Event::Unreachable);
    assert_eq!(step.warning, Some(Warning::FragmentUnread));
    assert!(matches!(step.action, Action::Db(Query::SaveBuildResult { b }) if b.exit_code == 3));
}

#[test]
fn an_archive_that_is_no_zstd_frame_ends_the_build() {
    let (job, step) = with_container(vec![(11, b"not zstd".to_vec())]);
    assert!(job.done());
    let (response, cleanup, failure) = finished(&step);
    assert_eq!(response.status, 500);
    assert_eq!(cleanup, &Some("abc".to_string()));
    assert_eq!(failure, &Some(Failure { kind: Kind::HttpError, body: None }));
}

#[test]
fn an_event_that_the_job_does_not_wait_for_ends_it() {
    let (job, _) = with_container(vec![]);
    let (job, step) = job.advance(Event::Permit(true));
    assert!(job.done());
    let (response, cleanup, failure) = finished(&step);
    assert_eq!(response.status, 500);
    assert_eq!(cleanup, &Some("abc".to_string()));
    assert_eq!(failure, &Some(Failure { kind: Kind::Panic, body: None }));
    let (job, step) = job.advance(Event::Enqueued(true));
    assert!(job.done());
    assert_eq!(finished(&step).0.status, 500);
}

#[test]
fn a_build_against_the_store() {
    let mut d = Daemon::new(0);
    let mut items = vec![];
    for n in 1..=2 {
        let item = NewWorkshopItem {
            workshopid: n.to_string().parse().unwrap(),
            title: "t".to_string(),
            authors: vec![],
            version: 42,
        };
        let (_, pk) = d.upsert_workshop_item_at(item, 10).unwrap();
        let file = DownloadedFile {
            size: 3,
            etag: ETag(vec![n as u8]),
            data: packed(format!("tar {n}").as_bytes()),
        };
        d.save_file_at(pk, file, 10).unwrap();
        items.push(pk);
    }
    let (mut job, mut action) = BuildJob::begin(
        SaveBuild { name: "x".to_string(), items: items.clone() },
        "image".to_string(),
        "vanilla".to_string(),
    );
    let mut uploads = vec![];
    let response = loop {
        let event = match action {
            Action::Db(q) => match d.dispatch_at(q, 11) {
                Reply::SaveBuild(r) => Event::Saved(Some(r)),
                Reply::BuildItemFiles(r) => Event::Loaded(Some(r)),
                Reply::SaveBuildResult(r) => Event::Recorded(Some(r)),
                other => panic!("{:?}", other),
            },
            Action::AcquirePermit => Event::Permit(true),
            Action::Call { call, read } => {
                assert_eq!(read == Read::Status, matches!(call, Call::Attach { .. }));
                match call {
                    Call::Create { .. } => text(201, "{\"Id\":\"c1\"}"),
                    Call::Attach { .. } => Event::Status { status: 200 },
                    Call::Upload { path, tar, .. } => {
                        uploads.push((path, tar));
                        text(200, "")
                    }
                    Call::Start { .. } => text(204, ""),
                    Call::Wait { .. } => text(200, "0"),
                    Call::GetFiles { .. } => Event::Bytes { status: 200, body: b"frag".to_vec() },
                    Call::Delete { .. } => panic!("deleted by the job"),
                }
            }
            Action::DecodeCreated { .. } => created("c1"),
            Action::ReadAttached => Event::Output(Some("output".to_string())),
            Action::EnqueuePublish => Event::Enqueued(true),
            Action::Finish { response, cleanup, .. } => {
                assert_eq!(cleanup, Some("c1".to_string()));
                break response;
            }
        };
        let (next, step) = job.advance(event);
        job = next;
        action = step.action;
    };
    assert_eq!(response.status, 303);
    let pk = d.clock();
    assert_eq!(response.location, Some(format!("/build/{pk}/")));
    assert_eq!(
        uploads,
        vec![
            (format!("/baro/mod/{}", items[0]), b"tar 1".to_vec()),
            (format!("/baro/mod/{}", items[1]), b"tar 2".to_vec()),
        ]
    );
    let shown = d.get_build(pk).unwrap();
    assert_eq!(shown.exit_code, Some(0));
    assert_eq!(shown.output, Some("output".to_string()));
    assert!(shown.fragment.unwrap().size > 0);
}

fn publish_job(requests: usize) -> (PublishJob, materialist::publish::Action) {
    PublishJob::begin(
        requests,
        "splicer-publish".to_string(),
        "materialist-secrets".to_string(),
        "materialist-next".to_string(),
    )
}

fn ptext(status: u16, body: &str) -> materialist::publish::Event {
    materialist::publish::Event::Text { status, body: body.to_string() }
}

fn begun(fragments: Vec<NewPublishFragment>) -> materialist::publish::Event {
    materialist::publish::Event::Began(Some(Ok(NewPublish { pk: 320, fragments })))
}

#[test]
fn a_publish_runs_and_answers_every_request() {
    let (job, first) = publish_job(3);
    assert!(matches!(first, materialist::publish::Action::Db(Query::NewPublish)));
    let fragments = vec![
        NewPublishFragment { build: 160, fragment: packed(b"one") },
        NewPublishFragment { build: 161, fragment: packed(b"two") },
    ];
    let (job, step) = job.advance(begun(fragments));
    assert!(matches!(step.action, materialist::publish::Action::AcquirePermit));
    assert_eq!(job.included(), vec![160, 161]);

    let (job, step) = job.advance(materialist::publish::Event::Permit(true));
    let materialist::publish::Action::Call { call: Call::Create { spec }, read: Read::Text } =
        step.action
    else {
        panic!("no create")
    };
    assert_eq!(spec.name, "materialist-publish-320");
    assert_eq!(spec.image, "splicer-publish");
    assert!(spec.terminal && spec.image_volumes_tmpfs);
    assert!(spec.command.is_empty());
    assert_eq!(
        spec.env,
        vec![
            ("CI".to_string(), "1".to_string()),
            ("PROJECT_NAME".to_string(), "materialist-next".to_string())
        ]
    );
    assert_eq!(spec.tmpfs, vec!["/publish/web/assets/bundles".to_string()]);
    assert_eq!(spec.volumes[0].name, "materialist-secrets");
    assert_eq!(spec.volumes[0].sub_path, "cloudflare");
    assert_eq!(spec.volumes[0].dest, "/run/secrets/cloudflare");

    let (job, _) = job.advance(ptext(201, "{}"));
    let (job, step) = job.advance(materialist::publish::Event::Created(Some(CreateResponse {
        id: "pub1".to_string(),
        warnings: vec![],
    })));
    let materialist::publish::Action::Call { call: Call::Upload { container, path, tar }, .. } =
        step.action
    else {
        panic!("no upload")
    };
    assert_eq!((container.as_str(), path.as_str()), ("pub1", "/publish/web/assets/bundles/"));
    assert_eq!(tar, b"one");
    let (job, step) = job.advance(ptext(200, ""));
    assert!(matches!(
        step.action,
        materialist::publish::Action::Call { call: Call::Upload { tar, .. }, .. } if tar == b"two"
    ));
    let (job, step) = job.advance(ptext(200, ""));
    assert!(matches!(
        step.action,
        materialist::publish::Action::Call { call: Call::Attach { .. }, read: Read::Status }
    ));
    let (job, step) = job.advance(materialist::publish::Event::Status { status: 200 });
    assert!(matches!(
        step.action,
        materialist::publish::Action::Call { call: Call::Start { .. }, .. }
    ));
    let (job, step) = job.advance(ptext(204, ""));
    assert!(matches!(step.action, materialist::publish::Action::ReadAttached));
    let (job, step) =
        job.advance(materialist::publish::Event::Output(Some("deployed".to_string())));
    assert!(matches!(
        step.action,
        materialist::publish::Action::Call { call: Call::Wait { .. }, .. }
    ));
    let (job, step) = job.advance(ptext(200, "0"));
    assert!(matches!(
        step.action,
        materialist::publish::Action::Call { call: Call::Delete { container }, .. }
            if container == "pub1"
    ));
    let (job, step) = job.advance(ptext(500, "busy"));
    assert_eq!(step.warning, Some(Warning::NotDeleted));
    let materialist::publish::Action::Db(Query::SavePublishResult { p }) = step.action else {
        panic!("no record")
    };
    assert_eq!((p.pk, p.exit_code, p.output.as_str()), (320, 0, "deployed"));
    assert_eq!(p.public_url, "https://materialist-next.pages.dev/");
    let (job, step) = job.advance(materialist::publish::Event::Recorded(Some(Ok(()))));
    assert!(job.done());
    let materialist::publish::Action::Finish { replies, failure } = step.action else {
        panic!("not finished")
    };
    assert_eq!(replies, vec![PublishReply { pk: 320 }; 3]);
    assert_eq!(failure, None);
}

#[test]
fn a_publish_of_nothing_runs_all_the_same() {
    let (job, _) = publish_job(1);
    let (job, _) = job.advance(begun(vec![]));
    let (job, _) = job.advance(materialist::publish::Event::Permit(true));
    let (job, _) = job.advance(ptext(201, "{}"));
    let (_, step) = job.advance(materialist::publish::Event::Created(Some(CreateResponse {
        id: "pub1".to_string(),
        warnings: vec!["w".to_string()],
    })));
    assert_eq!(step.warning, Some(Warning::CreatedWithWarnings(vec!["w".to_string()])));
    assert!(matches!(
        step.action,
        materialist::publish::Action::Call { call: Call::Attach { .. }, .. }
    ));
}

#[test]
fn a_failed_publish_deletes_its_container_and_answers_nobody() {
    let (job, _) = publish_job(2);
    let (job, _) = job.advance(begun(vec![NewPublishFragment { build: 1, fragment: packed(b"x") }]));
    let (job, _) = job.advance(materialist::publish::Event::Permit(true));
    let (job, _) = job.advance(ptext(201, "{}"));
    let (job, _) = job.advance(materialist::publish::Event::Created(Some(CreateResponse {
        id: "pub1".to_string(),
        warnings: vec![],
    })));
    let (job, step) = job.advance(ptext(507, "full"));
    assert!(matches!(
        step.action,
        materialist::publish::Action::Call { call: Call::Delete { container }, .. }
            if container == "pub1"
    ));
    assert!(!job.done());
    let (job, step) = job.advance(ptext(200, ""));
    assert!(job.done());
    assert_eq!(job.container, None);
    let materialist::publish::Action::Finish { replies, failure } = step.action else {
        panic!("not finished")
    };
    assert!(replies.is_empty());
    assert_eq!(
        failure,
        Some(Failure { kind: Kind::ContainerError, body: Some("full".to_string()) })
    );

    let (job, _) = publish_job(2);
    let (job, step) = job.advance(materialist::publish::Event::Began(None));
    assert!(job.done());
    assert!(matches!(
        step.action,
        materialist::publish::Action::Finish { replies, failure: Some(Failure { kind: Kind::Busy, .. }) }
            if replies.is_empty()
    ));

    let (job, _) = publish_job(2);
    let (job, _) = job.advance(begun(vec![]));
    let (job, _) = job.advance(materialist::publish::Event::Permit(true));
    let (job, step) = job.advance(ptext(500, "no image"));
    assert!(job.done());
    assert!(matches!(
        step.action,
        materialist::publish::Action::Finish { failure: Some(Failure { kind: Kind::ContainerError, body: Some(b) }), .. }
            if b == "no image"
    ));
}

#[test]
fn a_fragment_that_is_no_zstd_frame_fails_the_publish() {
    let (job, _) = publish_job(1);
    let (job, _) =
        job.advance(begun(vec![NewPublishFragment { build: 1, fragment: b"plain".to_vec() }]));
    let (job, _) = job.advance(materialist::publish::Event::Permit(true));
    let (job, _) = job.advance(ptext(201, "{}"));
    let (job, step) = job.advance(materialist::publish::Event::Created(Some(CreateResponse {
        id: "pub1".to_string(),
        warnings: vec![],
    })));
    assert!(matches!(
        step.action,
        materialist::publish::Action::Call { call: Call::Delete { .. }, .. }
    ));
    let (_, step) = job.advance(materialist::publish::Event::Unreachable);
    assert_eq!(step.warning, Some(Warning::NotDeleted));
    assert!(matches!(
        step.action,
        materialist::publish::Action::Finish { failure: Some(Failure { kind: Kind::HttpError, .. }), .. }
    ));
}

#[test]
fn an_exit_code_that_is_no_number_is_minus_one() {
    let (job, _) = publish_job(1);
    let (job, _) = job.advance(begun(vec![]));
    let (job, _) = job.advance(materialist::publish::Event::Permit(true));
    let (job, _) = job.advance(ptext(201, "{}"));
    let (job, _) = job.advance(materialist::publish::Event::Created(Some(CreateResponse {
        id: "pub1".to_string(),
        warnings: vec![],
    })));
    let (job, step) = job.advance(materialist::publish::Event::Unreachable);
    assert_eq!(step.warning, Some(Warning::NotAttached));
    let (job, _) = job.advance(ptext(204, ""));
    let (job, _) = job.advance(materialist::publish::Event::Output(None));
    let (job, step) = job.advance(ptext(200, "?"));
    assert_eq!(step.warning, Some(Warning::ExitCodeUnread("?".to_string())));
    let (_, step) = job.advance(ptext(200, ""));
    assert!(matches!(
        step.action,
        materialist::publish::Action::Db(Query::SavePublishResult { p })
            if p.exit_code == -1 && p.output.is_empty()
    ));
}

#[test]
fn a_build_that_wants_an_item_without_a_file() {
    let mut d = Daemon::new(0);
    let mut keys = vec![];
    for n in ["1", "2"] {
        let item = NewWorkshopItem {
            workshopid: n.parse().unwrap(),
            title: "t".to_string(),
            authors: vec![],
            version: 42,
        };
        keys.push(d.upsert_workshop_item_at(item, 10).unwrap().1);
    }
    let (a, b) = (keys[0], keys[1]);
    let file = DownloadedFile { size: 1, etag: ETag(vec![1]), data: packed(b"a") };
    d.save_file_at(a, file, 10).unwrap();
    let clock = d.clock();

    let (job, action) = BuildJob::begin(
        SaveBuild { name: "x".to_string(), items: vec![a, b] },
        "image".to_string(),
        "vanilla".to_string(),
    );
    let Action::Db(q) = action else { panic!("no question for the store") };
    let Reply::SaveBuild(r) = d.dispatch_at(q, 11) else { panic!("another reply") };
    let (job, step) = job.advance(Event::Saved(Some(r)));
    assert!(job.done());
    let (response, cleanup, failure) = finished(&step);
    assert_eq!(response.status, 400);
    assert_eq!(response.body, Body::Json(format!("{{\"missing\":[{b}]}}")));
    assert_eq!((cleanup, failure), (&None, &None));
    assert_eq!(d.clock(), clock);
    assert_eq!(d.get_build(clock + 1), None);
    assert_eq!(d.get_build((11 << 4) as i64), None);
}
