//! The build job: what happens, step by step, between a request for a build
//! and the answer to it.
//!
//! The job itself does no outside work. It says what is to be done next, is
//! told what came of it, and decides on that how to go on: with the store,
//! with the container engine, with the publish worker. Whoever drives the
//! job does what it says and reports back, until the job finishes with the
//! answer for the client.
use crate::db::BuildItemFiles;
use crate::db::BuildResult;
use crate::db::Query;
use crate::db::SaveBuild;
use crate::db::SaveBuildResult;
use crate::podman::build_command_of;
use crate::podman::build_container;
use crate::podman::exit_code;
use crate::podman::exit_code_in;
use crate::podman::mod_path;
use crate::podman::opt_bytes;
use crate::podman::pack;
use crate::podman::path_for_mod;
use crate::podman::texts;
use crate::podman::unpack;
use crate::podman::zstd_decoded;
use crate::podman::zstd_encoded;
use crate::podman::Call;
use crate::podman::CreateResponse;
use crate::podman::FRAGMENTS;
use crate::text::decimal;
use crate::text::parsed_i64;
use crate::text::trimmed;
use crate::www::build_path;
use crate::www::failure;
use crate::www::failure_text;
use crate::www::missing_document;
use crate::www::missing_items;
use crate::www::path_for_build;
use crate::www::see_other;
use crate::www::Body;
use crate::www::Kind;
use crate::www::Response;
use vstd::prelude::*;
use vstd::string::*;

verus! {

/// How far a build job has come: what it is waiting for.
#[derive(Debug, Clone, Copy, PartialEq, Eq, Structural)]
pub enum Stage {
    /// for the store to create the build
    Saving,
    /// for the store to hand out the archives of the items
    Loading,
    /// for a permit of the container engine
    Acquiring,
    /// for the engine to create the container
    Creating,
    /// for the engine's answer to be decoded
    Decoding,
    /// for the engine to attach to the container
    Attaching,
    /// for the engine to unpack one archive
    Uploading,
    /// for the engine to start the container
    Starting,
    /// for what the container wrote
    Reading,
    /// for the container to exit
    Waiting,
    /// for the fragments that the container left
    Fetching,
    /// for the store to record the result
    Recording,
    /// for the publish worker to take a request
    Enqueueing,
    /// for nothing: the client has its answer
    Done,
}

/// How much of an answer of the engine is read.
#[derive(Debug, Clone, Copy, PartialEq, Eq, Structural)]
pub enum Read {
    /// the status alone; the body stays open to be followed
    Status,
    /// the body as text
    Text,
    /// the body as bytes
    Bytes,
}

/// What came of the last thing that the job asked for.
#[derive(Debug)]
pub enum Event {
    /// the store on creating the build; `None` where it could not be reached
    Saved(Option<crate::db::Result<SaveBuildResult>>),
    /// the store on handing out the archives
    Loaded(Option<crate::db::Result<BuildItemFiles>>),
    /// whether a permit was had
    Permit(bool),
    /// an answer of the engine of which the status was read
    Status { status: u16 },
    /// an answer of the engine of which the body was read as text
    Text { status: u16, body: String },
    /// an answer of the engine of which the body was read as bytes
    Bytes { status: u16, body: Vec<u8> },
    /// the engine could not be reached, or its answer could not be read
    Unreachable,
    /// the decoded answer to the creation of a container
    Created(Option<CreateResponse>),
    /// what the container wrote, where it could be read
    Output(Option<String>),
    /// the store on recording the result
    Recorded(Option<crate::db::Result<()>>),
    /// whether the publish worker took the request
    Enqueued(bool),
}

/// Why a job failed.
#[derive(Debug, PartialEq)]
pub struct Failure {
    pub kind: Kind,
    /// what the engine said, where it said something
    pub body: Option<String>,
}

/// What is to be done next.
#[derive(Debug)]
pub enum Action {
    /// ask the store
    Db(Query),
    /// wait for a permit of the container engine
    AcquirePermit,
    /// ask the engine, and read so much of its answer
    Call { call: Call, read: Read },
    /// decode the engine's answer to the creation of a container
    DecodeCreated { body: String },
    /// read to its end what the container wrote
    ReadAttached,
    /// ask the publish worker for a publish
    EnqueuePublish,
    /// give the client its answer; delete the container, if there is one
    Finish { response: Response, cleanup: Option<String>, failure: Option<Failure> },
}

/// Something that went wrong without ending the job.
#[derive(Debug, PartialEq)]
pub enum Warning {
    /// the engine created the container with these warnings
    CreatedWithWarnings(Vec<String>),
    /// the engine would not attach: the output will be empty
    NotAttached,
    /// what the container wrote could not be read: the output will be empty
    OutputUnread,
    /// the answer to the wait was no number: the exit code will be -1
    ExitCodeUnread(String),
    /// the fragments could not be had: the fragment will be empty
    FragmentUnread,
    /// the publish worker did not take the request
    PublishNotRequested,
    /// the engine did not delete the container
    NotDeleted,
}

/// One step of a job: what to do next, and what to warn of.
#[derive(Debug)]
pub struct Step {
    pub action: Action,
    pub warning: Option<Warning>,
}

/// A build job.
#[derive(Debug)]
pub struct BuildJob {
    pub stage: Stage,
    /// the image that the build runs in
    pub image: String,
    /// the volume with the vanilla content
    pub vanilla: String,
    /// the key of the build, once the store has created it
    pub pk: i64,
    /// the archives of the items in load order, each under its item's key
    pub files: Vec<(i64, Vec<u8>)>,
    /// how many of the archives the engine has unpacked
    pub uploaded: usize,
    /// the container, once the engine has created it
    pub container: Option<String>,
    /// whether the engine attached to the container
    pub attached: bool,
    /// what the container wrote
    pub output: Option<String>,
    pub exit_code: i64,
}

/// The keys of the items that the archives belong to.
pub open spec fn item_keys(files: Seq<(i64, Vec<u8>)>) -> Seq<i64> {
    files.map_values(|f: (i64, Vec<u8>)| f.0)
}

/// Whether `step` ends the job `pre` with a failure of the kind `kind`: the
/// client is answered with the status of the kind and the text that goes
/// with it, the container that the job may have is to be deleted, and the
/// failure keeps what the engine said.
pub open spec fn fails(pre: BuildJob, post: BuildJob, step: Step, kind: Kind, said: Option<String>) -> bool {
    &&& post == BuildJob { stage: Stage::Done, ..pre }
    &&& step.warning is None
    &&& step.action matches Action::Finish { response, cleanup, failure }
    &&& response.status == kind.status()
    &&& response.location is None
    &&& response.body matches Body::Text(t)
    &&& t@ == failure_text(kind)
    &&& cleanup == pre.container
    &&& failure == Some(Failure { kind, body: said })
}

/// Whether `step` goes on with the job `pre` once the engine has unpacked
/// `done` archives: the next archive is unpacked from its zstd frame and
/// uploaded to the directory of its item, and once none is left the
/// container is started. An archive that is no zstd frame ends the job.
pub open spec fn uploads(pre: BuildJob, done: usize, post: BuildJob, step: Step) -> bool {
    if pre.container is None {
        fails(pre, post, step, Kind::Panic, None)
    } else if done < pre.files@.len() {
        match zstd_decoded(pre.files@[done as int].1@) {
            None => fails(BuildJob { uploaded: done, ..pre }, post, step, Kind::HttpError, None),
            Some(plain) => {
                &&& post == BuildJob { stage: Stage::Uploading, uploaded: done, ..pre }
                &&& step.warning is None
                &&& step.action matches Action::Call {
                    call: Call::Upload { container, path, tar },
                    read: Read::Text,
                }
                &&& container == pre.container->0
                &&& path@ == mod_path(pre.files@[done as int].0)
                &&& tar@ == plain
            },
        }
    } else {
        &&& post == BuildJob { stage: Stage::Starting, uploaded: done, ..pre }
        &&& step.warning is None
        &&& step.action == Action::Call {
            call: Call::Start { container: pre.container->0 },
            read: Read::Text,
        }
    }
}

/// Whether `step` asks the engine to wait for the container of `pre`.
pub open spec fn waits(pre: BuildJob, post: BuildJob, step: Step) -> bool {
    if pre.container is None {
        fails(pre, post, step, Kind::Panic, None)
    } else {
        &&& post == BuildJob { stage: Stage::Waiting, ..pre }
        &&& step.action == Action::Call {
            call: Call::Wait { container: pre.container->0 },
            read: Read::Text,
        }
    }
}

/// Whether `step` has the store record the result of `pre` with a fragment
/// of the bytes `fragment`.
pub open spec fn records(pre: BuildJob, fragment: Seq<u8>, post: BuildJob, step: Step) -> bool {
    &&& post == BuildJob { stage: Stage::Recording, output: None, ..pre }
    &&& step.action matches Action::Db(Query::SaveBuildResult { b })
    &&& b.pk == pre.pk
    &&& b.exit_code == pre.exit_code
    &&& b.output@ == (match pre.output {
        Some(text) => text@,
        None => Seq::<char>::empty(),
    })
    &&& b.fragment@ == fragment
}

/// Whether the job `pre`, told of `event`, goes on as `post` with `step`.
pub open spec fn advances(pre: BuildJob, event: Event, post: BuildJob, step: Step) -> bool {
    match (pre.stage, event) {
        (Stage::Saving, Event::Saved(None)) => fails(pre, post, step, Kind::Busy, None),
        (Stage::Saving, Event::Saved(Some(Err(_)))) => fails(
            pre,
            post,
            step,
            Kind::DbError,
            None,
        ),
        (Stage::Saving, Event::Saved(Some(Ok(SaveBuildResult::Missing { missing })))) => {
            &&& post == BuildJob { stage: Stage::Done, ..pre }
            &&& step.warning is None
            &&& step.action matches Action::Finish { response, cleanup, failure }
            &&& response.status == 400
            &&& response.location is None
            &&& response.body matches Body::Json(doc)
            &&& doc@ == missing_document(missing@)
            &&& cleanup is None
            &&& failure is None
        },
        (Stage::Saving, Event::Saved(Some(Ok(SaveBuildResult::Inserted { pk })))) => {
            &&& post == BuildJob { stage: Stage::Loading, pk, ..pre }
            &&& step.warning is None
            &&& step.action == Action::Db(Query::BuildItemFiles { pk })
        },
        (Stage::Loading, Event::Loaded(None)) => fails(pre, post, step, Kind::Busy, None),
        (Stage::Loading, Event::Loaded(Some(Err(_)))) => fails(
            pre,
            post,
            step,
            Kind::DbError,
            None,
        ),
        (Stage::Loading, Event::Loaded(Some(Ok(loaded)))) => {
            &&& post == BuildJob { stage: Stage::Acquiring, files: loaded.files, ..pre }
            &&& step.warning is None
            &&& step.action == Action::AcquirePermit
        },
        (Stage::Acquiring, Event::Permit(false)) => fails(
            pre,
            post,
            step,
            Kind::HttpError,
            None,
        ),
        (Stage::Acquiring, Event::Permit(true)) => {
            &&& post == BuildJob { stage: Stage::Creating, ..pre }
            &&& step.warning is None
            &&& step.action matches Action::Call { call: Call::Create { spec }, read: Read::Text }
            &&& spec.name@ == "materialist-build-"@ + decimal(pre.pk as int)
            &&& spec.image@ == pre.image@
            &&& spec.terminal
            &&& texts(spec.command@) == build_command_of(pre.pk, item_keys(pre.files@))
            &&& spec.volumes@.len() == 1
            &&& spec.volumes@[0].name@ == pre.vanilla@
            &&& spec.volumes@[0].dest@ == "/baro/vanilla"@
        },
        (Stage::Creating, Event::Text { status, body }) => if status == 201 {
            &&& post == BuildJob { stage: Stage::Decoding, ..pre }
            &&& step.warning is None
            &&& step.action == Action::DecodeCreated { body }
        } else {
            fails(pre, post, step, Kind::ContainerError, Some(body))
        },
        (Stage::Decoding, Event::Created(None)) => fails(
            pre,
            post,
            step,
            Kind::HttpError,
            None,
        ),
        (Stage::Decoding, Event::Created(Some(created))) => {
            &&& post == BuildJob { stage: Stage::Attaching, container: Some(created.id), ..pre }
            &&& step.warning == (if created.warnings@.len() > 0 {
                Some(Warning::CreatedWithWarnings(created.warnings))
            } else {
                None
            })
            &&& step.action == Action::Call {
                call: Call::Attach { container: created.id },
                read: Read::Status,
            }
        },
        (Stage::Attaching, Event::Status { status }) => {
            &&& uploads(
                BuildJob { attached: status == 200, ..pre },
                0,
                post,
                Step { action: step.action, warning: None },
            )
            &&& post.stage != Stage::Done ==> step.warning == (if status == 200 {
                None
            } else {
                Some(Warning::NotAttached)
            })
        },
        (Stage::Attaching, Event::Unreachable) => {
            &&& uploads(
                BuildJob { attached: false, ..pre },
                0,
                post,
                Step { action: step.action, warning: None },
            )
            &&& post.stage != Stage::Done ==> step.warning == Some(Warning::NotAttached)
        },
        (Stage::Uploading, Event::Text { status, body }) => if status == 200 {
            if pre.uploaded < usize::MAX {
                uploads(pre, (pre.uploaded + 1) as usize, post, step)
            } else {
                fails(pre, post, step, Kind::Panic, None)
            }
        } else {
            fails(pre, post, step, Kind::ContainerError, Some(body))
        },
        (Stage::Starting, Event::Text { status, body }) => if status != 204 {
            fails(pre, post, step, Kind::ContainerError, Some(body))
        } else if pre.attached {
            &&& post == BuildJob { stage: Stage::Reading, ..pre }
            &&& step.warning is None
            &&& step.action == Action::ReadAttached
        } else {
            waits(pre, post, step) && step.warning is None
        },
        (Stage::Reading, Event::Output(output)) => {
            &&& waits(BuildJob { output, ..pre }, post, step)
            &&& post.stage != Stage::Done ==> step.warning == (if output is None {
                Some(Warning::OutputUnread)
            } else {
                None
            })
        },
        (Stage::Waiting, Event::Text { status, body }) => if status != 200 {
            fails(pre, post, step, Kind::ContainerError, Some(body))
        } else if pre.container is None {
            fails(pre, post, step, Kind::Panic, None)
        } else {
            &&& post == BuildJob { stage: Stage::Fetching, exit_code: exit_code_in(body@), ..pre }
            &&& step.warning == (if parsed_i64(trimmed(body@)) is None {
                Some(Warning::ExitCodeUnread(body))
            } else {
                None
            })
            &&& step.action matches Action::Call {
                call: Call::GetFiles { container, path },
                read: Read::Bytes,
            }
            &&& container == pre.container->0
            &&& path@ == FRAGMENTS@
        },
        (Stage::Fetching, Event::Bytes { status, body }) => {
            let packed = if status == 200 {
                zstd_encoded(body@)
            } else {
                None
            };
            &&& records(
                pre,
                match packed {
                    Some(bytes) => bytes,
                    None => Seq::<u8>::empty(),
                },
                post,
                step,
            )
            &&& step.warning == (if packed is None {
                Some(Warning::FragmentUnread)
            } else {
                None
            })
        },
        (Stage::Fetching, Event::Unreachable) => {
            &&& records(pre, Seq::<u8>::empty(), post, step)
            &&& step.warning == Some(Warning::FragmentUnread)
        },
        (Stage::Recording, Event::Recorded(None)) => fails(pre, post, step, Kind::Busy, None),
        (Stage::Recording, Event::Recorded(Some(Err(_)))) => fails(
            pre,
            post,
            step,
            Kind::DbError,
            None,
        ),
        (Stage::Recording, Event::Recorded(Some(Ok(_)))) => {
            &&& post == BuildJob { stage: Stage::Enqueueing, ..pre }
            &&& step.warning is None
            &&& step.action == Action::EnqueuePublish
        },
        (Stage::Enqueueing, Event::Enqueued(taken)) => {
            &&& post == BuildJob { stage: Stage::Done, ..pre }
            &&& step.warning == (if taken {
                None
            } else {
                Some(Warning::PublishNotRequested)
            })
            &&& step.action matches Action::Finish { response, cleanup, failure }
            &&& response.status == 303
            &&& response.location matches Some(l)
            &&& l@ == build_path(pre.pk)
            &&& response.body == Body::Empty
            &&& cleanup == pre.container
            &&& failure is None
        },
        (Stage::Creating, Event::Unreachable) => fails(pre, post, step, Kind::HttpError, None),
        (Stage::Uploading, Event::Unreachable) => fails(pre, post, step, Kind::HttpError, None),
        (Stage::Starting, Event::Unreachable) => fails(pre, post, step, Kind::HttpError, None),
        (Stage::Waiting, Event::Unreachable) => fails(pre, post, step, Kind::HttpError, None),
        _ => fails(pre, post, step, Kind::Panic, None),
    }
}

/// A copy of an optional string.
pub(crate) fn copy_opt(o: &Option<String>) -> (r: Option<String>)
    ensures
        r == *o,
{
    match o {
        Some(s) => Some(s.clone()),
        None => None,
    }
}

impl BuildJob {
    /// A job for the build `build`, which runs in `image` and finds the
    /// vanilla content in the volume `vanilla`; and the first thing to do:
    /// ask the store to create the build.
    pub fn begin(build: SaveBuild, image: String, vanilla: String) -> (r: (BuildJob, Action))
        ensures
            r.0.stage == Stage::Saving,
            r.0.image == image,
            r.0.vanilla == vanilla,
            r.0.container is None,
            r.0.files@.len() == 0,
            r.0.uploaded == 0,
            r.0.pk == 0,
            r.0.exit_code == 0,
            !r.0.attached,
            r.0.output is None,
            r.1 == Action::Db(Query::SaveBuild { build }),
    {
        (
            BuildJob {
                stage: Stage::Saving,
                image,
                vanilla,
                pk: 0,
                files: Vec::new(),
                uploaded: 0,
                container: None,
                attached: false,
                output: None,
                exit_code: 0,
            },
            Action::Db(Query::SaveBuild { build }),
        )
    }

    /// Whether the client has its answer.
    pub fn done(&self) -> (d: bool)
        ensures
            d == (self.stage == Stage::Done),
    {
        self.stage == Stage::Done
    }

    /// Ends the job with a failure.
    fn fail(self, kind: Kind, said: Option<String>) -> (r: (BuildJob, Step))
        requires
            kind != Kind::Gone,
        ensures
            fails(self, r.0, r.1, kind, said),
    {
        let cleanup = copy_opt(&self.container);
        let step = Step {
            action: Action::Finish {
                response: failure(kind),
                cleanup,
                failure: Some(Failure { kind, body: said }),
            },
            warning: None,
        };
        (BuildJob { stage: Stage::Done, ..self }, step)
    }

    /// Goes on once `done` archives are unpacked.
    fn upload(self, done: usize) -> (r: (BuildJob, Step))
        ensures
            uploads(self, done, r.0, r.1),
    {
        let container = match copy_opt(&self.container) {
            Some(c) => c,
            None => return self.fail(Kind::Panic, None),
        };
        if done < self.files.len() {
            match unpack(self.files[done].1.as_slice()) {
                Some(tar) => {
                    let path = path_for_mod(self.files[done].0);
                    (
                        BuildJob { stage: Stage::Uploading, uploaded: done, ..self },
                        Step {
                            action: Action::Call {
                                call: Call::Upload { container, path, tar },
                                read: Read::Text,
                            },
                            warning: None,
                        },
                    )
                },
                None => {
                    let job = BuildJob { uploaded: done, ..self };
                    job.fail(Kind::HttpError, None)
                },
            }
        } else {
            (
                BuildJob { stage: Stage::Starting, uploaded: done, ..self },
                Step {
                    action: Action::Call { call: Call::Start { container }, read: Read::Text },
                    warning: None,
                },
            )
        }
    }

    /// Goes on to wait for the container.
    fn wait(self, warning: Option<Warning>) -> (r: (BuildJob, Step))
        ensures
            waits(self, r.0, r.1),
            r.0.stage != Stage::Done ==> r.1.warning == warning,
    {
        let container = match copy_opt(&self.container) {
            Some(c) => c,
            None => return self.fail(Kind::Panic, None),
        };
        (
            BuildJob { stage: Stage::Waiting, ..self },
            Step { action: Action::Call { call: Call::Wait { container }, read: Read::Text }, warning },
        )
    }

    /// Goes on to record the result.
    fn record(self, fragment: Vec<u8>, warning: Option<Warning>) -> (r: (BuildJob, Step))
        ensures
            records(self, fragment@, r.0, r.1),
            r.1.warning == warning,
    {
        let BuildJob {
            stage,
            image,
            vanilla,
            pk,
            files,
            uploaded,
            container,
            attached,
            output,
            exit_code,
        } = self;
        let text = match output {
            Some(text) => text,
            None => String::new(),
        };
        let b = BuildResult { pk, exit_code, output: text, fragment };
        (
            BuildJob {
                stage: Stage::Recording,
                image,
                vanilla,
                pk,
                files,
                uploaded,
                container,
                attached,
                output: None,
                exit_code,
            },
            Step { action: Action::Db(Query::SaveBuildResult { b }), warning },
        )
    }

    /// Takes note of what came of the last step and says what to do next.
    pub fn advance(self, event: Event) -> (r: (BuildJob, Step))
        ensures
            advances(self, event, r.0, r.1),
    {
        match (self.stage, event) {
            (Stage::Saving, Event::Saved(None)) => self.fail(Kind::Busy, None),
            (Stage::Saving, Event::Saved(Some(Err(_)))) => self.fail(Kind::DbError, None),
            (Stage::Saving, Event::Saved(Some(Ok(SaveBuildResult::Missing { missing })))) => {
                let step = Step {
                    action: Action::Finish {
                        response: missing_items(&missing),
                        cleanup: None,
                        failure: None,
                    },
                    warning: None,
                };
                (BuildJob { stage: Stage::Done, ..self }, step)
            },
            (Stage::Saving, Event::Saved(Some(Ok(SaveBuildResult::Inserted { pk })))) => (
                BuildJob { stage: Stage::Loading, pk, ..self },
                Step { action: Action::Db(Query::BuildItemFiles { pk }), warning: None },
            ),
            (Stage::Loading, Event::Loaded(None)) => self.fail(Kind::Busy, None),
            (Stage::Loading, Event::Loaded(Some(Err(_)))) => self.fail(Kind::DbError, None),
            (Stage::Loading, Event::Loaded(Some(Ok(loaded)))) => (
                BuildJob { stage: Stage::Acquiring, files: loaded.files, ..self },
                Step { action: Action::AcquirePermit, warning: None },
            ),
            (Stage::Acquiring, Event::Permit(false)) => self.fail(Kind::HttpError, None),
            (Stage::Acquiring, Event::Permit(true)) => {
                let mut items: Vec<i64> = Vec::new();
                let mut i: usize = 0;
                while i < self.files.len()
                    invariant
                        i <= self.files@.len(),
                        items@ == item_keys(self.files@.take(i as int)),
                    decreases self.files@.len() - i,
                {
                    items.push(self.files[i].0);
                    assert(items@ =~= item_keys(self.files@.take(i + 1)));
                    i += 1;
                }
                assert(self.files@.take(i as int) =~= self.files@);
                let spec = build_container(
                    self.pk,
                    &items,
                    self.image.as_str(),
                    self.vanilla.as_str(),
                );
                (
                    BuildJob { stage: Stage::Creating, ..self },
                    Step {
                        action: Action::Call { call: Call::Create { spec }, read: Read::Text },
                        warning: None,
                    },
                )
            },
            (Stage::Creating, Event::Text { status, body }) => {
                if status == 201 {
                    (
                        BuildJob { stage: Stage::Decoding, ..self },
                        Step { action: Action::DecodeCreated { body }, warning: None },
                    )
                } else {
                    self.fail(Kind::ContainerError, Some(body))
                }
            },
            (Stage::Decoding, Event::Created(None)) => self.fail(Kind::HttpError, None),
            (Stage::Decoding, Event::Created(Some(created))) => {
                let CreateResponse { id, warnings } = created;
                let container = id.clone();
                let warning = if warnings.len() > 0 {
                    Some(Warning::CreatedWithWarnings(warnings))
                } else {
                    None
                };
                (
                    BuildJob { stage: Stage::Attaching, container: Some(id), ..self },
                    Step {
                        action: Action::Call { call: Call::Attach { container }, read: Read::Status },
                        warning,
                    },
                )
            },
            (Stage::Attaching, Event::Status { status }) => {
                let attached = status == 200;
                let (job, step) = (BuildJob { attached, ..self }).upload(0);
                let warning = if attached || job.done() {
                    None
                } else {
                    Some(Warning::NotAttached)
                };
                (job, Step { action: step.action, warning })
            },
            (Stage::Attaching, Event::Unreachable) => {
                let (job, step) = (BuildJob { attached: false, ..self }).upload(0);
                let warning = if job.done() {
                    None
                } else {
                    Some(Warning::NotAttached)
                };
                (job, Step { action: step.action, warning })
            },
            (Stage::Uploading, Event::Text { status, body }) => {
                if status == 200 {
                    if self.uploaded == usize::MAX {
                        return self.fail(Kind::Panic, None);
                    }
                    let done = self.uploaded + 1;
                    self.upload(done)
                } else {
                    self.fail(Kind::ContainerError, Some(body))
                }
            },
            (Stage::Starting, Event::Text { status, body }) => {
                if status != 204 {
                    self.fail(Kind::ContainerError, Some(body))
                } else if self.attached {
                    (
                        BuildJob { stage: Stage::Reading, ..self },
                        Step { action: Action::ReadAttached, warning: None },
                    )
                } else {
                    self.wait(None)
                }
            },
            (Stage::Reading, Event::Output(output)) => {
                let warning = if output.is_none() {
                    Some(Warning::OutputUnread)
                } else {
                    None
                };
                (BuildJob { output, ..self }).wait(warning)
            },
            (Stage::Waiting, Event::Text { status, body }) => {
                if status != 200 {
                    return self.fail(Kind::ContainerError, Some(body));
                }
                let container = match copy_opt(&self.container) {
                    Some(c) => c,
                    None => return self.fail(Kind::Panic, None),
                };
                let code = exit_code(body.as_str());
                let unread = crate::text::parse_i64(crate::text::trim(body.as_str())).is_none();
                let warning = if unread {
                    Some(Warning::ExitCodeUnread(body))
                } else {
                    None
                };
                (
                    BuildJob { stage: Stage::Fetching, exit_code: code, ..self },
                    Step {
                        action: Action::Call {
                            call: Call::GetFiles { container, path: String::from_str(FRAGMENTS) },
                            read: Read::Bytes,
                        },
                        warning,
                    },
                )
            },
            (Stage::Fetching, Event::Bytes { status, body }) => {
                let packed = if status == 200 {
                    pack(body.as_slice())
                } else {
                    None
                };
                match packed {
                    Some(bytes) => self.record(bytes, None),
                    None => self.record(Vec::new(), Some(Warning::FragmentUnread)),
                }
            },
            (Stage::Fetching, Event::Unreachable) => self.record(
                Vec::new(),
                Some(Warning::FragmentUnread),
            ),
            (Stage::Recording, Event::Recorded(None)) => self.fail(Kind::Busy, None),
            (Stage::Recording, Event::Recorded(Some(Err(_)))) => self.fail(Kind::DbError, None),
            (Stage::Recording, Event::Recorded(Some(Ok(_)))) => (
                BuildJob { stage: Stage::Enqueueing, ..self },
                Step { action: Action::EnqueuePublish, warning: None },
            ),
            (Stage::Enqueueing, Event::Enqueued(taken)) => {
                let warning = if taken {
                    None
                } else {
                    Some(Warning::PublishNotRequested)
                };
                let cleanup = copy_opt(&self.container);
                let step = Step {
                    action: Action::Finish {
                        response: see_other(path_for_build(self.pk).as_str()),
                        cleanup,
                        failure: None,
                    },
                    warning,
                };
                (BuildJob { stage: Stage::Done, ..self }, step)
            },
            (Stage::Creating, Event::Unreachable) => self.fail(Kind::HttpError, None),
            (Stage::Uploading, Event::Unreachable) => self.fail(Kind::HttpError, None),
            (Stage::Starting, Event::Unreachable) => self.fail(Kind::HttpError, None),
            (Stage::Waiting, Event::Unreachable) => self.fail(Kind::HttpError, None),
            _ => self.fail(Kind::Panic, None),
        }
    }
}

impl BuildJob {
    /// A job has no container before the engine created one, and has one
    /// from then on until it is done.
    pub open spec fn wf(&self) -> bool {
        match self.stage {
            Stage::Saving | Stage::Loading | Stage::Acquiring | Stage::Creating | Stage::Decoding => self.container is None,
            Stage::Done => true,
            _ => self.container is Some,
        }
    }
}

/// The status that the engine must answer with at a stage at which the job
/// reads the engine's answer as text.
pub open spec fn expected_at(stage: Stage) -> u16 {
    match stage {
        Stage::Creating => 201,
        Stage::Starting => 204,
        _ => 200,
    }
}

/// A job stays well formed, and whenever it finishes, the container that it
/// had is handed over to be deleted: no path out of a job leaves a container
/// behind.
pub proof fn lemma_cleanup(pre: BuildJob, event: Event, post: BuildJob, step: Step)
    requires
        pre.wf(),
        advances(pre, event, post, step),
    ensures
        post.wf(),
        step.action matches Action::Finish { cleanup, .. } ==> (cleanup == pre.container
            && post.stage == Stage::Done),
        post.stage == Stage::Done ==> step.action is Finish,
        pre.stage != Stage::Decoding ==> post.container == pre.container,
{
}

/// The client is sent to its build only by a job that had the result
/// recorded, and is then sent to the build that the store created.
pub proof fn lemma_redirect_after_record(pre: BuildJob, event: Event, post: BuildJob, step: Step)
    requires
        advances(pre, event, post, step),
        (step.action matches Action::Finish { response, .. } && response.status == 303),
    ensures
        pre.stage == Stage::Enqueueing,
        event is Enqueued,
        ({
            &&& step.action matches Action::Finish { response, failure, .. }
            &&& failure is None
            &&& response.location matches Some(l)
            &&& l@ == build_path(pre.pk)
        }),
{
}

/// An answer of the engine with another status than the expected one ends
/// the job, wherever the job depends on what it asked for: the client sees
/// an internal error, and the failure is a container error that carries what
/// the engine said.
pub proof fn lemma_unexpected_status(
    pre: BuildJob,
    status: u16,
    body: String,
    post: BuildJob,
    step: Step,
)
    requires
        advances(pre, Event::Text { status, body }, post, step),
        pre.stage == Stage::Creating || pre.stage == Stage::Uploading || pre.stage
            == Stage::Starting || pre.stage == Stage::Waiting,
        status != expected_at(pre.stage),
    ensures
        post.stage == Stage::Done,
        ({
            &&& step.action matches Action::Finish { response, failure, cleanup }
            &&& response.status == 500
            &&& failure == Some(Failure { kind: Kind::ContainerError, body: Some(body) })
            &&& cleanup == pre.container
        }),
{
}

/// The archives are uploaded one by one in load order: an upload that the
/// engine accepted is followed by the upload of the next archive, into the
/// directory of its item, and the last one by the start of the container.
pub proof fn lemma_uploads_in_order(pre: BuildJob, body: String, post: BuildJob, step: Step)
    requires
        pre.wf(),
        pre.stage == Stage::Uploading,
        pre.uploaded < pre.files@.len(),
        advances(pre, Event::Text { status: 200, body }, post, step),
        post.stage != Stage::Done,
    ensures
        post.uploaded == pre.uploaded + 1,
        post.files == pre.files,
        post.uploaded < pre.files@.len() ==> ({
            &&& step.action matches Action::Call { call: Call::Upload { path, tar, .. }, .. }
            &&& path@ == mod_path(pre.files@[post.uploaded as int].0)
            &&& Some(tar@) == zstd_decoded(pre.files@[post.uploaded as int].1@)
        }),
        post.uploaded == pre.files@.len() ==> step.action matches Action::Call {
            call: Call::Start { .. },
            ..
        },
{
}

} // verus!
