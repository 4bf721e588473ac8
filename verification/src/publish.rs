//! The publish worker: one publish at a time, for all the requests that
//! came in while the last one ran.
//!
//! As with a build, the job does no outside work: it says what is to be done
//! next and is told what came of it.
use crate::build_job::copy_opt;
use crate::build_job::Failure;
use crate::build_job::Read;
use crate::build_job::Warning;
use crate::db::NewPublish;
use crate::db::NewPublishFragment;
use crate::db::PublishResult;
use crate::db::Query;
use crate::podman::exit_code;
use crate::podman::exit_code_in;
use crate::podman::public_url;
use crate::podman::publish_container;
use crate::podman::unpack;
use crate::podman::zstd_decoded;
use crate::podman::Call;
use crate::podman::CreateResponse;
use crate::podman::BUNDLES;
use crate::podman::BUNDLES_DIR;
use crate::text::decimal;
use crate::text::parsed_i64;
use crate::text::trimmed;
use crate::www::Kind;
use vstd::prelude::*;
use vstd::string::*;

verus! {

/// What each request for a publish is answered with: the key of the publish
/// that served it.
#[derive(Debug, Clone, Copy, PartialEq, Eq, Structural)]
pub struct PublishReply {
    pub pk: i64,
}

/// What the process tells its tasks; there is nothing to tell but that the
/// channel closed.
#[derive(Debug, Clone, Copy, PartialEq, Eq, Structural)]
pub struct SystemMsg;

/// How far a publish job has come: what it is waiting for.
#[derive(Debug, Clone, Copy, PartialEq, Eq, Structural)]
pub enum Stage {
    /// for the store to begin the publish
    Beginning,
    /// for a permit of the container engine
    Acquiring,
    /// for the engine to create the container
    Creating,
    /// for the engine's answer to be decoded
    Decoding,
    /// for the engine to unpack one fragment
    Uploading,
    /// for the engine to attach to the container
    Attaching,
    /// for the engine to start the container
    Starting,
    /// for what the container wrote
    Reading,
    /// for the container to exit
    Waiting,
    /// for the engine to delete the container
    Deleting,
    /// for the store to record the result
    Recording,
    /// for nothing
    Done,
}

/// What came of the last thing that the job asked for.
#[derive(Debug)]
pub enum Event {
    /// the store on beginning the publish; `None` where it could not be
    /// reached
    Began(Option<crate::db::Result<NewPublish>>),
    /// whether a permit was had
    Permit(bool),
    /// an answer of the engine of which the status was read
    Status { status: u16 },
    /// an answer of the engine of which the body was read as text
    Text { status: u16, body: String },
    /// the engine could not be reached, or its answer could not be read
    Unreachable,
    /// the decoded answer to the creation of a container
    Created(Option<CreateResponse>),
    /// what the container wrote, where it could be read
    Output(Option<String>),
    /// the store on recording the result
    Recorded(Option<crate::db::Result<()>>),
}

/// What is to be done next.
#[derive(Debug)]
pub enum Action {
    /// ask the store
    Db(Query),
    /// wait for a permit of the container engine
    AcquirePermit,
    /// ask the engine, and read so much of its answer
    Call { call: Call, read: Read },
    /// decode the engine's answer to the creation of a container
    DecodeCreated { body: String },
    /// read to its end what the container wrote
    ReadAttached,
    /// answer the requests that the publish served, or none after a failure
    Finish { replies: Vec<PublishReply>, failure: Option<Failure> },
}

/// One step of a job: what to do next, and what to warn of.
#[derive(Debug)]
pub struct Step {
    pub action: Action,
    pub warning: Option<Warning>,
}

/// A publish job.
#[derive(Debug)]
pub struct PublishJob {
    pub stage: Stage,
    /// how many requests the publish serves
    pub requests: usize,
    /// the image that the publish runs in
    pub image: String,
    /// the volume with the secrets
    pub secrets: String,
    /// the site that is deployed
    pub site: String,
    /// the key of the publish, once the store has begun it
    pub pk: i64,
    /// the fragments that go into the publish
    pub fragments: Vec<NewPublishFragment>,
    /// how many of the fragments the engine has unpacked
    pub uploaded: usize,
    /// the container, once the engine has created it
    pub container: Option<String>,
    /// what the container wrote
    pub output: Option<String>,
    pub exit_code: i64,
    /// why the job will fail once the container is deleted
    pub failure: Option<Failure>,
}

/// Whether `step` ends the job `pre` with the failure `failed`: no request
/// is answered.
pub open spec fn ends(pre: PublishJob, post: PublishJob, step: Step, failed: Failure) -> bool {
    &&& post == PublishJob { stage: Stage::Done, container: None, failure: None, ..pre }
    &&& step.warning is None
    &&& step.action matches Action::Finish { replies, failure }
    &&& replies@.len() == 0
    &&& failure == Some(failed)
}

/// Whether `step` deals with a failure of the kind `kind` in the job `pre`:
/// a job that has a container has it deleted first, any other ends at once.
pub open spec fn fails(pre: PublishJob, post: PublishJob, step: Step, kind: Kind) -> bool {
    if pre.container is Some && pre.stage != Stage::Deleting {
        deletes(pre, Some(Failure { kind, body: None }), post, step)
    } else {
        ends(pre, post, step, Failure { kind, body: None })
    }
}

/// Whether `step` has the container of `pre` deleted, keeping `failure` for
/// when that is done.
pub open spec fn deletes(pre: PublishJob, failure: Option<Failure>, post: PublishJob, step: Step) -> bool {
    if pre.container is None {
        ends(pre, post, step, Failure { kind: Kind::Panic, body: None })
    } else {
        &&& post == PublishJob { stage: Stage::Deleting, failure, ..pre }
        &&& step.warning is None
        &&& step.action == Action::Call {
            call: Call::Delete { container: pre.container->0 },
            read: Read::Text,
        }
    }
}

/// Whether `step` goes on with the job `pre` once the engine has unpacked
/// `done` fragments: the next fragment is unpacked from its zstd frame and
/// uploaded to the bundles, and once none is left the engine is asked to
/// attach. A fragment that is no zstd frame has the container deleted.
pub open spec fn uploads(pre: PublishJob, done: usize, post: PublishJob, step: Step) -> bool {
    if pre.container is None {
        ends(pre, post, step, Failure { kind: Kind::Panic, body: None })
    } else if done < pre.fragments@.len() {
        match zstd_decoded(pre.fragments@[done as int].fragment@) {
            None => deletes(
                PublishJob { uploaded: done, ..pre },
                Some(Failure { kind: Kind::HttpError, body: None }),
                post,
                step,
            ),
            Some(plain) => {
                &&& post == PublishJob { stage: Stage::Uploading, uploaded: done, ..pre }
                &&& step.warning is None
                &&& step.action matches Action::Call {
                    call: Call::Upload { container, path, tar },
                    read: Read::Text,
                }
                &&& container == pre.container->0
                &&& path@ == BUNDLES@
                &&& tar@ == plain
            },
        }
    } else {
        &&& post == PublishJob { stage: Stage::Attaching, uploaded: done, ..pre }
        &&& step.warning is None
        &&& step.action == Action::Call {
            call: Call::Attach { container: pre.container->0 },
            read: Read::Status,
        }
    }
}

/// Whether `step` asks the engine to start, or to wait for, the container of
/// `pre`.
pub open spec fn calls(pre: PublishJob, stage: Stage, post: PublishJob, step: Step) -> bool {
    if pre.container is None {
        ends(pre, post, step, Failure { kind: Kind::Panic, body: None })
    } else {
        &&& post == PublishJob { stage, ..pre }
        &&& step.action == Action::Call {
            call: if stage == Stage::Starting {
                Call::Start { container: pre.container->0 }
            } else {
                Call::Wait { container: pre.container->0 }
            },
            read: Read::Text,
        }
    }
}

/// Whether the job `pre`, told of `event`, goes on as `post` with `step`.
pub open spec fn advances(pre: PublishJob, event: Event, post: PublishJob, step: Step) -> bool {
    match (pre.stage, event) {
        (Stage::Beginning, Event::Began(None)) => fails(pre, post, step, Kind::Busy),
        (Stage::Beginning, Event::Began(Some(Err(_)))) => fails(pre, post, step, Kind::DbError),
        (Stage::Beginning, Event::Began(Some(Ok(begun)))) => {
            &&& post == PublishJob {
                stage: Stage::Acquiring,
                pk: begun.pk,
                fragments: begun.fragments,
                ..pre
            }
            &&& step.warning is None
            &&& step.action == Action::AcquirePermit
        },
        (Stage::Acquiring, Event::Permit(false)) => fails(pre, post, step, Kind::HttpError),
        (Stage::Acquiring, Event::Permit(true)) => {
            &&& post == PublishJob { stage: Stage::Creating, ..pre }
            &&& step.warning is None
            &&& step.action matches Action::Call { call: Call::Create { spec }, read: Read::Text }
            &&& spec.name@ == "materialist-publish-"@ + decimal(pre.pk as int)
            &&& spec.image@ == pre.image@
            &&& spec.terminal
            &&& spec.command@.len() == 0
            &&& spec.volumes@.len() == 1
            &&& spec.volumes@[0].name@ == pre.secrets@
            &&& spec.volumes@[0].sub_path@ == "cloudflare"@
            &&& spec.volumes@[0].dest@ == "/run/secrets/cloudflare"@
            &&& spec.env@.len() == 2
            &&& spec.env@[0].0@ == "CI"@ && spec.env@[0].1@ == "1"@
            &&& spec.env@[1].0@ == "PROJECT_NAME"@ && spec.env@[1].1@ == pre.site@
            &&& spec.tmpfs@.len() == 1
            &&& spec.tmpfs@[0]@ == BUNDLES_DIR@
            &&& spec.image_volumes_tmpfs
        },
        (Stage::Creating, Event::Text { status, body }) => if status == 201 {
            &&& post == PublishJob { stage: Stage::Decoding, ..pre }
            &&& step.warning is None
            &&& step.action == Action::DecodeCreated { body }
        } else if pre.container is Some {
            deletes(pre, Some(Failure { kind: Kind::ContainerError, body: Some(body) }), post, step)
        } else {
            ends(pre, post, step, Failure { kind: Kind::ContainerError, body: Some(body) })
        },
        (Stage::Creating, Event::Unreachable) => fails(pre, post, step, Kind::HttpError),
        (Stage::Decoding, Event::Created(None)) => fails(pre, post, step, Kind::HttpError),
        (Stage::Decoding, Event::Created(Some(created))) => {
            &&& uploads(
                PublishJob { container: Some(created.id), ..pre },
                0,
                post,
                Step { action: step.action, warning: None },
            )
            &&& step.warning == (if created.warnings@.len() > 0 {
                Some(Warning::CreatedWithWarnings(created.warnings))
            } else {
                None
            })
        },
        (Stage::Uploading, Event::Text { status, body }) => if status != 200 {
            deletes(pre, Some(Failure { kind: Kind::ContainerError, body: Some(body) }), post, step)
        } else if pre.uploaded < usize::MAX {
            uploads(pre, (pre.uploaded + 1) as usize, post, step)
        } else {
            fails(pre, post, step, Kind::Panic)
        },
        (Stage::Uploading, Event::Unreachable) => deletes(
            pre,
            Some(Failure { kind: Kind::HttpError, body: None }),
            post,
            step,
        ),
        (Stage::Attaching, Event::Status { status }) => {
            &&& calls(pre, Stage::Starting, post, Step { action: step.action, warning: None })
            &&& step.warning == (if status == 200 || post.stage == Stage::Done {
                None
            } else {
                Some(Warning::NotAttached)
            })
        },
        (Stage::Attaching, Event::Unreachable) => {
            &&& calls(pre, Stage::Starting, post, Step { action: step.action, warning: None })
            &&& step.warning == (if post.stage == Stage::Done {
                None
            } else {
                Some(Warning::NotAttached)
            })
        },
        (Stage::Starting, Event::Text { status, body }) => if status != 204 {
            deletes(pre, Some(Failure { kind: Kind::ContainerError, body: Some(body) }), post, step)
        } else {
            &&& post == PublishJob { stage: Stage::Reading, ..pre }
            &&& step.warning is None
            &&& step.action == Action::ReadAttached
        },
        (Stage::Starting, Event::Unreachable) => deletes(
            pre,
            Some(Failure { kind: Kind::HttpError, body: None }),
            post,
            step,
        ),
        (Stage::Reading, Event::Output(output)) => {
            &&& calls(
                PublishJob { output, ..pre },
                Stage::Waiting,
                post,
                Step { action: step.action, warning: None },
            )
            &&& step.warning is None
        },
        (Stage::Waiting, Event::Text { status, body }) => if status != 200 {
            deletes(pre, Some(Failure { kind: Kind::ContainerError, body: Some(body) }), post, step)
        } else {
            &&& deletes(
                PublishJob { exit_code: exit_code_in(body@), ..pre },
                None,
                post,
                Step { action: step.action, warning: None },
            )
            &&& step.warning == (if parsed_i64(trimmed(body@)) is None && post.stage
                != Stage::Done {
                Some(Warning::ExitCodeUnread(body))
            } else {
                None
            })
        },
        (Stage::Waiting, Event::Unreachable) => deletes(
            pre,
            Some(Failure { kind: Kind::HttpError, body: None }),
            post,
            step,
        ),
        (Stage::Deleting, Event::Text { status, body }) => finishes_or_records(
            pre,
            status != 200,
            post,
            step,
        ),
        (Stage::Deleting, Event::Unreachable) => finishes_or_records(pre, true, post, step),
        (Stage::Recording, Event::Recorded(Some(Ok(_)))) => {
            &&& post == PublishJob { stage: Stage::Done, container: None, failure: None, ..pre }
            &&& step.warning is None
            &&& step.action matches Action::Finish { replies, failure }
            &&& failure is None
            &&& replies@.len() == pre.requests
            &&& forall|i: int| 0 <= i < replies@.len() ==> (#[trigger] replies@[i]).pk == pre.pk
        },
        (Stage::Recording, Event::Recorded(Some(Err(_)))) => fails(
            pre,
            post,
            step,
            Kind::DbError,
        ),
        (Stage::Recording, Event::Recorded(None)) => fails(pre, post, step, Kind::Busy),
        _ => fails(pre, post, step, Kind::Panic),
    }
}

/// Whether `step` goes on with the job `pre` once the engine was asked to
/// delete the container: a job that failed before ends with that failure
/// and answers no request; any other has the store record the exit code,
/// what the container wrote, and where the site is found. That the
/// container was not deleted is no more than a warning.
pub open spec fn finishes_or_records(pre: PublishJob, undeleted: bool, post: PublishJob, step: Step) -> bool {
    &&& step.warning == (if undeleted {
        Some(Warning::NotDeleted)
    } else {
        None
    })
    &&& match pre.failure {
        Some(failed) => {
            &&& post == PublishJob { stage: Stage::Done, container: None, failure: None, ..pre }
            &&& step.action matches Action::Finish { replies, failure }
            &&& replies@.len() == 0
            &&& failure == Some(failed)
        },
        None => {
            &&& post == PublishJob { stage: Stage::Recording, container: None, output: None, ..pre }
            &&& step.action matches Action::Db(Query::SavePublishResult { p })
            &&& p.pk == pre.pk
            &&& p.exit_code == pre.exit_code
            &&& p.output@ == (match pre.output {
                Some(text) => text@,
                None => Seq::<char>::empty(),
            })
            &&& p.public_url@ == "https://"@ + pre.site@ + ".pages.dev/"@
        },
    }
}

impl PublishJob {
    /// A job for one publish that serves `requests` requests; and the first
    /// thing to do: ask the store to begin the publish.
    pub fn begin(requests: usize, image: String, secrets: String, site: String) -> (r: (
        PublishJob,
        Action,
    ))
        ensures
            r.0.stage == Stage::Beginning,
            r.0.requests == requests,
            r.0.image == image,
            r.0.secrets == secrets,
            r.0.site == site,
            r.0.container is None,
            r.0.failure is None,
            r.0.output is None,
            r.0.uploaded == 0,
            r.0.fragments@.len() == 0,
            r.0.pk == 0,
            r.0.exit_code == 0,
            r.1 == Action::Db(Query::NewPublish),
    {
        (
            PublishJob {
                stage: Stage::Beginning,
                requests,
                image,
                secrets,
                site,
                pk: 0,
                fragments: Vec::new(),
                uploaded: 0,
                container: None,
                output: None,
                exit_code: 0,
                failure: None,
            },
            Action::Db(Query::NewPublish),
        )
    }

    /// Whether the job is over.
    pub fn done(&self) -> (d: bool)
        ensures
            d == (self.stage == Stage::Done),
    {
        self.stage == Stage::Done
    }

    /// The keys of the builds that go into the publish.
    pub fn included(&self) -> (builds: Vec<i64>)
        ensures
            builds@ == crate::db::fragment_builds(self.fragments@),
    {
        let mut builds: Vec<i64> = Vec::new();
        let mut i: usize = 0;
        while i < self.fragments.len()
            invariant
                i <= self.fragments@.len(),
                builds@ == crate::db::fragment_builds(self.fragments@.take(i as int)),
            decreases self.fragments@.len() - i,
        {
            builds.push(self.fragments[i].build);
            assert(builds@ =~= crate::db::fragment_builds(self.fragments@.take(i + 1)));
            i += 1;
        }
        assert(self.fragments@.take(i as int) =~= self.fragments@);
        builds
    }

    fn end(self, failed: Failure) -> (r: (PublishJob, Step))
        ensures
            ends(self, r.0, r.1, failed),
    {
        let step = Step {
            action: Action::Finish { replies: Vec::new(), failure: Some(failed) },
            warning: None,
        };
        (PublishJob { stage: Stage::Done, container: None, failure: None, ..self }, step)
    }

    fn fail(self, kind: Kind) -> (r: (PublishJob, Step))
        ensures
            fails(self, r.0, r.1, kind),
    {
        if self.container.is_some() && self.stage != Stage::Deleting {
            self.delete(Some(Failure { kind, body: None }))
        } else {
            self.end(Failure { kind, body: None })
        }
    }

    fn delete(self, failure: Option<Failure>) -> (r: (PublishJob, Step))
        ensures
            deletes(self, failure, r.0, r.1),
    {
        let container = match copy_opt(&self.container) {
            Some(c) => c,
            None => return self.end(Failure { kind: Kind::Panic, body: None }),
        };
        (
            PublishJob { stage: Stage::Deleting, failure, ..self },
            Step {
                action: Action::Call { call: Call::Delete { container }, read: Read::Text },
                warning: None,
            },
        )
    }

    fn upload(self, done: usize) -> (r: (PublishJob, Step))
        ensures
            uploads(self, done, r.0, r.1),
    {
        let container = match copy_opt(&self.container) {
            Some(c) => c,
            None => return self.end(Failure { kind: Kind::Panic, body: None }),
        };
        if done < self.fragments.len() {
            match unpack(self.fragments[done].fragment.as_slice()) {
                Some(tar) => (
                    PublishJob { stage: Stage::Uploading, uploaded: done, ..self },
                    Step {
                        action: Action::Call {
                            call: Call::Upload { container, path: String::from_str(BUNDLES), tar },
                            read: Read::Text,
                        },
                        warning: None,
                    },
                ),
                None => {
                    let job = PublishJob { uploaded: done, ..self };
                    job.delete(Some(Failure { kind: Kind::HttpError, body: None }))
                },
            }
        } else {
            (
                PublishJob { stage: Stage::Attaching, uploaded: done, ..self },
                Step {
                    action: Action::Call { call: Call::Attach { container }, read: Read::Status },
                    warning: None,
                },
            )
        }
    }

    fn call(self, stage: Stage) -> (r: (PublishJob, Step))
        requires
            stage == Stage::Starting || stage == Stage::Waiting,
        ensures
            calls(self, stage, r.0, r.1),
            r.1.warning is None,
    {
        let container = match copy_opt(&self.container) {
            Some(c) => c,
            None => return self.end(Failure { kind: Kind::Panic, body: None }),
        };
        let call = if stage == Stage::Starting {
            Call::Start { container }
        } else {
            Call::Wait { container }
        };
        (
            PublishJob { stage, ..self },
            Step { action: Action::Call { call, read: Read::Text }, warning: None },
        )
    }

    fn finish_or_record(self, undeleted: bool) -> (r: (PublishJob, Step))
        ensures
            finishes_or_records(self, undeleted, r.0, r.1),
    {
        let warning = if undeleted {
            Some(Warning::NotDeleted)
        } else {
            None
        };
        let PublishJob {
            stage,
            requests,
            image,
            secrets,
            site,
            pk,
            fragments,
            uploaded,
            container,
            output,
            exit_code,
            failure,
        } = self;
        match failure {
            Some(failed) => (
                PublishJob {
                    stage: Stage::Done,
                    requests,
                    image,
                    secrets,
                    site,
                    pk,
                    fragments,
                    uploaded,
                    container: None,
                    output,
                    exit_code,
                    failure: None,
                },
                Step {
                    action: Action::Finish { replies: Vec::new(), failure: Some(failed) },
                    warning,
                },
            ),
            None => {
                let text = match output {
                    Some(text) => text,
                    None => String::new(),
                };
                let p = PublishResult {
                    pk,
                    public_url: public_url(site.as_str()),
                    exit_code,
                    output: text,
                };
                (
                    PublishJob {
                        stage: Stage::Recording,
                        requests,
                        image,
                        secrets,
                        site,
                        pk,
                        fragments,
                        uploaded,
                        container: None,
                        output: None,
                        exit_code,
                        failure: None,
                    },
                    Step { action: Action::Db(Query::SavePublishResult { p }), warning },
                )
            },
        }
    }

    /// Takes note of what came of the last step and says what to do next.
    pub fn advance(self, event: Event) -> (r: (PublishJob, Step))
        ensures
            advances(self, event, r.0, r.1),
    {
        match (self.stage, event) {
            (Stage::Beginning, Event::Began(None)) => self.fail(Kind::Busy),
            (Stage::Beginning, Event::Began(Some(Err(_)))) => self.fail(Kind::DbError),
            (Stage::Beginning, Event::Began(Some(Ok(begun)))) => {
                let NewPublish { pk, fragments } = begun;
                (
                    PublishJob { stage: Stage::Acquiring, pk, fragments, ..self },
                    Step { action: Action::AcquirePermit, warning: None },
                )
            },
            (Stage::Acquiring, Event::Permit(false)) => self.fail(Kind::HttpError),
            (Stage::Acquiring, Event::Permit(true)) => {
                let spec = publish_container(
                    self.pk,
                    self.image.as_str(),
                    self.secrets.as_str(),
                    self.site.as_str(),
                );
                (
                    PublishJob { stage: Stage::Creating, ..self },
                    Step {
                        action: Action::Call { call: Call::Create { spec }, read: Read::Text },
                        warning: None,
                    },
                )
            },
            (Stage::Creating, Event::Text { status, body }) => {
                if status == 201 {
                    (
                        PublishJob { stage: Stage::Decoding, ..self },
                        Step { action: Action::DecodeCreated { body }, warning: None },
                    )
                } else if self.container.is_some() {
                    self.delete(Some(Failure { kind: Kind::ContainerError, body: Some(body) }))
                } else {
                    self.end(Failure { kind: Kind::ContainerError, body: Some(body) })
                }
            },
            (Stage::Creating, Event::Unreachable) => self.fail(Kind::HttpError),
            (Stage::Decoding, Event::Created(None)) => self.fail(Kind::HttpError),
            (Stage::Decoding, Event::Created(Some(created))) => {
                let CreateResponse { id, warnings } = created;
                let warning = if warnings.len() > 0 {
                    Some(Warning::CreatedWithWarnings(warnings))
                } else {
                    None
                };
                let (job, step) = (PublishJob { container: Some(id), ..self }).upload(0);
                (job, Step { action: step.action, warning })
            },
            (Stage::Uploading, Event::Text { status, body }) => {
                if status != 200 {
                    self.delete(Some(Failure { kind: Kind::ContainerError, body: Some(body) }))
                } else if self.uploaded < usize::MAX {
                    let done = self.uploaded + 1;
                    self.upload(done)
                } else {
                    self.fail(Kind::Panic)
                }
            },
            (Stage::Uploading, Event::Unreachable) => self.delete(
                Some(Failure { kind: Kind::HttpError, body: None }),
            ),
            (Stage::Attaching, Event::Status { status }) => {
                let (job, step) = self.call(Stage::Starting);
                let warning = if status == 200 || job.done() {
                    None
                } else {
                    Some(Warning::NotAttached)
                };
                (job, Step { action: step.action, warning })
            },
            (Stage::Attaching, Event::Unreachable) => {
                let (job, step) = self.call(Stage::Starting);
                let warning = if job.done() {
                    None
                } else {
                    Some(Warning::NotAttached)
                };
                (job, Step { action: step.action, warning })
            },
            (Stage::Starting, Event::Text { status, body }) => {
                if status != 204 {
                    self.delete(Some(Failure { kind: Kind::ContainerError, body: Some(body) }))
                } else {
                    (
                        PublishJob { stage: Stage::Reading, ..self },
                        Step { action: Action::ReadAttached, warning: None },
                    )
                }
            },
            (Stage::Starting, Event::Unreachable) => self.delete(
                Some(Failure { kind: Kind::HttpError, body: None }),
            ),
            (Stage::Reading, Event::Output(output)) => (PublishJob { output, ..self }).call(
                Stage::Waiting,
            ),
            (Stage::Waiting, Event::Text { status, body }) => {
                if status != 200 {
                    return self.delete(
                        Some(Failure { kind: Kind::ContainerError, body: Some(body) }),
                    );
                }
                let code = exit_code(body.as_str());
                let unread = crate::text::parse_i64(crate::text::trim(body.as_str())).is_none();
                let (job, step) = (PublishJob { exit_code: code, ..self }).delete(None);
                let warning = if unread && !job.done() {
                    Some(Warning::ExitCodeUnread(body))
                } else {
                    None
                };
                (job, Step { action: step.action, warning })
            },
            (Stage::Waiting, Event::Unreachable) => self.delete(
                Some(Failure { kind: Kind::HttpError, body: None }),
            ),
            (Stage::Deleting, Event::Text { status, body }) => self.finish_or_record(status != 200),
            (Stage::Deleting, Event::Unreachable) => self.finish_or_record(true),
            (Stage::Recording, Event::Recorded(Some(Ok(_)))) => {
                let mut replies: Vec<PublishReply> = Vec::new();
                let mut i: usize = 0;
                while i < self.requests
                    invariant
                        i <= self.requests,
                        replies@.len() == i,
                        forall|j: int| 0 <= j < i ==> (#[trigger] replies@[j]).pk == self.pk,
                    decreases self.requests - i,
                {
                    replies.push(PublishReply { pk: self.pk });
                    i += 1;
                }
                (
                    PublishJob { stage: Stage::Done, container: None, failure: None, ..self },
                    Step { action: Action::Finish { replies, failure: None }, warning: None },
                )
            },
            (Stage::Recording, Event::Recorded(Some(Err(_)))) => self.fail(Kind::DbError),
            (Stage::Recording, Event::Recorded(None)) => self.fail(Kind::Busy),
            _ => self.fail(Kind::Panic),
        }
    }
}

impl PublishJob {
    /// A job has no container before the engine created one and after the
    /// engine was asked to delete it, has one in between, and carries a
    /// failure only while the container is being deleted.
    pub open spec fn wf(&self) -> bool {
        match self.stage {
            Stage::Beginning | Stage::Acquiring | Stage::Creating | Stage::Decoding
            | Stage::Recording | Stage::Done => self.container is None && self.failure is None,
            Stage::Deleting => self.container is Some,
            _ => self.container is Some && self.failure is None,
        }
    }
}

/// A job stays well formed, and a job that has a container never finishes
/// but by way of deleting it: each failure after the container was created
/// leads to the deletion first, and the job ends only when the engine has
/// answered that.
pub proof fn lemma_container_deleted(pre: PublishJob, event: Event, post: PublishJob, step: Step)
    requires
        pre.wf(),
        advances(pre, event, post, step),
    ensures
        post.wf(),
        post.stage == Stage::Done ==> step.action is Finish,
        step.action is Finish ==> post.stage == Stage::Done,
        pre.container is Some && step.action is Finish ==> pre.stage == Stage::Deleting,
        post.stage == Stage::Deleting ==> step.action == (Action::Call {
            call: Call::Delete { container: post.container->0 },
            read: Read::Text,
        }),
        post.stage == Stage::Recording ==> pre.stage == Stage::Deleting,
{
}

/// Requests are answered only by a job whose result the store recorded, and
/// then each request that the job served is answered with the key of the
/// publish.
pub proof fn lemma_replies_after_record(pre: PublishJob, event: Event, post: PublishJob, step: Step)
    requires
        advances(pre, event, post, step),
        (step.action matches Action::Finish { replies, .. } && replies@.len() > 0),
    ensures
        pre.stage == Stage::Recording,
        event matches Event::Recorded(Some(Ok(_))),
        ({
            &&& step.action matches Action::Finish { replies, failure }
            &&& failure is None
            &&& replies@.len() == pre.requests
            &&& forall|i: int| 0 <= i < replies@.len() ==> (#[trigger] replies@[i]).pk == pre.pk
        }),
{
}

/// An answer of the engine with another status than the expected one, to a
/// request that the job depends on, is kept as a container error with what
/// the engine said: the container is deleted, where there is one, and the
/// job then ends with that error.
pub proof fn lemma_unexpected_status(
    pre: PublishJob,
    status: u16,
    body: String,
    post: PublishJob,
    step: Step,
)
    requires
        pre.wf(),
        advances(pre, Event::Text { status, body }, post, step),
        (pre.stage == Stage::Creating && status != 201) || (pre.stage == Stage::Uploading && status
            != 200) || (pre.stage == Stage::Starting && status != 204) || (pre.stage
            == Stage::Waiting && status != 200),
    ensures
        pre.stage == Stage::Creating ==> (step.action matches Action::Finish { failure, .. }
            && failure == Some(Failure { kind: Kind::ContainerError, body: Some(body) })),
        pre.stage != Stage::Creating ==> (post.stage == Stage::Deleting && post.failure == Some(
            Failure { kind: Kind::ContainerError, body: Some(body) },
        )),
{
}

} // verus!
