//! The course of one packaging run, as decisions: which source to read
//! next, when to write the container out, and when the sources may go.
//!
//! The job itself touches no file. The caller performs each action that the
//! job hands out and reports what came of it; the job answers with the next
//! action. No source is handed out for removal before the caller has
//! reported that the container was written out.

use crate::error::ArchiveError;
use crate::io_helper::base_view;
use crate::io_helper::claim_name;
use crate::io_helper::container_of;
use crate::io_helper::contents_of;
use crate::io_helper::name_views;
use crate::io_helper::named_contents;
use crate::io_helper::names_distinct;
use crate::io_helper::pack;
use crate::io_helper::SourceFile;
use crate::text::base_name;
use crate::text::path_base_name;
use vstd::prelude::*;

verus! {

/// Where a job stands.
#[derive(Clone, Copy, Debug, PartialEq, Eq, Structural)]
pub enum JobPhase {
    /// Nothing has been asked for yet.
    Fresh,
    /// A source has its name and is being read.
    Reading,
    /// Every source is packed and the container is being written out.
    Writing,
    /// The container is written out and a source is being removed.
    Removing,
    /// The container is written out and every source is removed.
    Succeeded,
    /// The job has ended with this failure.
    Failed(ArchiveError),
}

/// What the caller reports to the job.
pub enum ArchiveEvent {
    /// The job may begin.
    Start,
    /// The source that was asked for: its contents, or `None` where it
    /// could not be read.
    SourceRead(Option<Vec<u8>>),
    /// Whether the container was written out in full.
    ContainerWritten(bool),
    /// Whether the source that was asked for is gone.
    SourceRemoved(bool),
}

/// What the job asks the caller to do.
pub enum ArchiveAction {
    /// Read the source of this index and report its contents.
    ReadSource(usize),
    /// Write these bytes out as the container and report whether it worked.
    WriteContainer(Vec<u8>),
    /// Remove the source of this index and report whether it worked.
    RemoveSource(usize),
    /// Nothing more: the run has ended, in this way.
    Done(Result<(), ArchiveError>),
}

/// An event as plain values.
pub enum EventView {
    Start,
    SourceRead(Option<Seq<u8>>),
    ContainerWritten(bool),
    SourceRemoved(bool),
}

/// An action as plain values.
pub enum ActionView {
    ReadSource(int),
    WriteContainer(Seq<u8>),
    RemoveSource(int),
    Done(Result<(), ArchiveError>),
}

impl View for ArchiveEvent {
    type V = EventView;

    open spec fn view(&self) -> EventView {
        match self {
            ArchiveEvent::Start => EventView::Start,
            ArchiveEvent::SourceRead(Some(bytes)) => EventView::SourceRead(Some(bytes@)),
            ArchiveEvent::SourceRead(None) => EventView::SourceRead(None),
            ArchiveEvent::ContainerWritten(done) => EventView::ContainerWritten(*done),
            ArchiveEvent::SourceRemoved(done) => EventView::SourceRemoved(*done),
        }
    }
}

impl View for ArchiveAction {
    type V = ActionView;

    open spec fn view(&self) -> ActionView {
        match self {
            ArchiveAction::ReadSource(i) => ActionView::ReadSource(*i as int),
            ArchiveAction::WriteContainer(bytes) => ActionView::WriteContainer(bytes@),
            ArchiveAction::RemoveSource(i) => ActionView::RemoveSource(*i as int),
            ArchiveAction::Done(outcome) => ActionView::Done(*outcome),
        }
    }
}

/// A job as plain values.
pub struct JobView {
    /// Where the job stands.
    pub phase: JobPhase,
    /// The paths of the sources, in their order.
    pub paths: Seq<Seq<char>>,
    /// The entry names of the sources that have one, in their order.
    pub names: Seq<Seq<char>>,
    /// The contents of the sources that have been read, in their order.
    pub contents: Seq<Seq<u8>>,
    /// How many removals the caller has reported.
    pub removed: nat,
    /// Whether one of these removals failed.
    pub removal_failed: bool,
}

/// The job before anything has happened.
pub open spec fn fresh(paths: Seq<Seq<char>>) -> JobView {
    JobView {
        phase: JobPhase::Fresh,
        paths,
        names: Seq::empty(),
        contents: Seq::empty(),
        removed: 0,
        removal_failed: false,
    }
}

/// The job ends with a failure, and what it has gathered stays as it is.
pub open spec fn gives_up(v: JobView, w: JobView, a: ActionView, e: ArchiveError) -> bool {
    w == (JobView { phase: JobPhase::Failed(e), ..v }) && a == ActionView::Done(Err(e))
}

/// The job takes the next source under the base name of its path (`None`
/// where the path has none), as `claim_name` does: without a base name it
/// gives up with `Io`, under a name that an earlier source has it gives up
/// with `DuplicateEntryName`, and under any other name it asks for the
/// source's contents.
pub open spec fn names_next(v: JobView, base: Option<Seq<char>>, w: JobView, a: ActionView) -> bool {
    match base {
        None => gives_up(v, w, a, ArchiveError::Io),
        Some(name) => if v.names.contains(name) {
            gives_up(v, w, a, ArchiveError::DuplicateEntryName)
        } else {
            w == (JobView { phase: JobPhase::Reading, names: v.names.push(name), ..v }) && a
                == ActionView::ReadSource(v.contents.len() as int)
        },
    }
}

/// The job goes on after the sources read so far. Where all are read, it
/// hands out the container of the sources under their names, and gives up
/// with `Io` exactly where a source is too long for the writer. Where one is
/// left, it takes that one under the base name of its path.
pub open spec fn goes_on_reading(v: JobView, w: JobView, a: ActionView) -> bool {
    if v.contents.len() == v.paths.len() {
        match container_of(named_contents(v.names, v.contents)) {
            Some(bytes) => w == (JobView { phase: JobPhase::Writing, ..v }) && a
                == ActionView::WriteContainer(bytes),
            None => gives_up(v, w, a, ArchiveError::Io),
        }
    } else {
        names_next(v, path_base_name(v.paths[v.contents.len() as int]), w, a)
    }
}

/// The job goes on after the removals reported so far: it asks for the next
/// source to be removed, or, where none is left, ends: with `Io` where a
/// removal failed, with success where none did.
pub open spec fn goes_on_removing(v: JobView, w: JobView, a: ActionView) -> bool {
    if v.removed < v.paths.len() {
        w == (JobView { phase: JobPhase::Removing, ..v }) && a == ActionView::RemoveSource(
            v.removed as int,
        )
    } else if v.removal_failed {
        gives_up(v, w, a, ArchiveError::Io)
    } else {
        w == (JobView { phase: JobPhase::Succeeded, ..v }) && a == ActionView::Done(Ok(()))
    }
}

/// Whether a job in state `v` may answer the event `e` with the action `a`
/// and go over into state `w`.
///
/// A job that has ended stays as it is and repeats how it ended. An event
/// that does not answer what the job asked for ends the job with `Io`.
pub open spec fn step_allowed(v: JobView, e: EventView, w: JobView, a: ActionView) -> bool {
    match v.phase {
        JobPhase::Succeeded => w == v && a == ActionView::Done(Ok(())),
        JobPhase::Failed(err) => w == v && a == ActionView::Done(Err(err)),
        JobPhase::Fresh => match e {
            EventView::Start => goes_on_reading(v, w, a),
            _ => gives_up(v, w, a, ArchiveError::Io),
        },
        JobPhase::Reading => match e {
            EventView::SourceRead(Some(bytes)) => goes_on_reading(
                JobView { contents: v.contents.push(bytes), ..v },
                w,
                a,
            ),
            _ => gives_up(v, w, a, ArchiveError::Io),
        },
        JobPhase::Writing => match e {
            EventView::ContainerWritten(true) => goes_on_removing(v, w, a),
            _ => gives_up(v, w, a, ArchiveError::Io),
        },
        JobPhase::Removing => match e {
            EventView::SourceRemoved(gone) => goes_on_removing(
                JobView {
                    removed: v.removed + 1,
                    removal_failed: v.removal_failed || !gone,
                    ..v
                },
                w,
                a,
            ),
            _ => gives_up(v, w, a, ArchiveError::Io),
        },
    }
}

/// What holds of every job that `fresh` and `step_allowed` lead to.
pub open spec fn consistent(v: JobView) -> bool {
    &&& v.contents.len() <= v.paths.len()
    &&& v.removed <= v.paths.len()
    &&& names_distinct(v.names)
    &&& match v.phase {
        JobPhase::Fresh => v.names.len() == 0 && v.contents.len() == 0 && v.removed == 0
            && !v.removal_failed,
        JobPhase::Reading => v.names.len() == v.contents.len() + 1 && v.contents.len()
            < v.paths.len() && v.removed == 0 && !v.removal_failed,
        JobPhase::Writing => v.names.len() == v.paths.len() && v.contents.len() == v.paths.len()
            && v.removed == 0 && !v.removal_failed,
        JobPhase::Removing => v.names.len() == v.paths.len() && v.contents.len()
            == v.paths.len() && v.removed < v.paths.len(),
        JobPhase::Succeeded => v.names.len() == v.paths.len() && v.contents.len()
            == v.paths.len() && v.removed == v.paths.len() && !v.removal_failed,
        JobPhase::Failed(_) => true,
    }
}

/// One packaging run: the sources it was given, and how far it has come.
pub struct ArchiveJob {
    paths: Vec<String>,
    names: Vec<String>,
    sources: Vec<SourceFile>,
    phase: JobPhase,
    removed: usize,
    removal_failed: bool,
}

/// The job that these parts make up, as plain values.
pub open spec fn job_view(
    phase: JobPhase,
    paths: Seq<String>,
    names: Seq<String>,
    sources: Seq<SourceFile>,
    removed: usize,
    removal_failed: bool,
) -> JobView {
    JobView {
        phase,
        paths: name_views(paths),
        names: name_views(names),
        contents: contents_of(sources),
        removed: removed as nat,
        removal_failed,
    }
}

impl View for ArchiveJob {
    type V = JobView;

    closed spec fn view(&self) -> JobView {
        job_view(
            self.phase,
            self.paths@,
            self.names@,
            self.sources@,
            self.removed,
            self.removal_failed,
        )
    }
}

impl ArchiveJob {
    #[verifier::type_invariant]
    spec fn well_formed(self) -> bool {
        consistent(self@)
    }

    /// A job for the sources at these paths, in this order.
    pub fn new(paths: Vec<String>) -> (job: ArchiveJob)
        ensures
            job@ == fresh(name_views(paths@)),
    {
        let job = ArchiveJob {
            paths,
            names: Vec::new(),
            sources: Vec::new(),
            phase: JobPhase::Fresh,
            removed: 0,
            removal_failed: false,
        };
        assert(job@.names == Seq::<Seq<char>>::empty());
        assert(job@.contents == Seq::<Seq<u8>>::empty());
        job
    }

    /// Where the job stands.
    pub fn phase(&self) -> (phase: JobPhase)
        ensures
            phase == self@.phase,
    {
        self.phase
    }

    /// Ends the job with a failure.
    fn give_up(
        phase: JobPhase,
        paths: Vec<String>,
        names: Vec<String>,
        sources: Vec<SourceFile>,
        removed: usize,
        removal_failed: bool,
        e: ArchiveError,
    ) -> (r: (ArchiveJob, ArchiveAction))
        requires
            sources@.len() <= paths@.len(),
            removed <= paths@.len(),
            names_distinct(name_views(names@)),
        ensures
            gives_up(
                job_view(phase, paths@, names@, sources@, removed, removal_failed),
                r.0@,
                r.1@,
                e,
            ),
    {
        let job = ArchiveJob {
            paths,
            names,
            sources,
            phase: JobPhase::Failed(e),
            removed,
            removal_failed,
        };
        (job, ArchiveAction::Done(Err(e)))
    }

    /// Names the next source and asks for it, or packs the container where
    /// every source is read.
    fn read_on(phase: JobPhase, paths: Vec<String>, names: Vec<String>, sources: Vec<SourceFile>) -> (r:
        (ArchiveJob, ArchiveAction))
        requires
            names@.len() == sources@.len(),
            sources@.len() <= paths@.len(),
            names_distinct(name_views(names@)),
        ensures
            goes_on_reading(
                job_view(phase, paths@, names@, sources@, 0, false),
                r.0@,
                r.1@,
            ),
    {
        let ghost v = job_view(phase, paths@, names@, sources@, 0, false);
        if sources.len() == paths.len() {
            match pack(&names, &sources) {
                Some(bytes) => {
                    let job = ArchiveJob {
                        paths,
                        names,
                        sources,
                        phase: JobPhase::Writing,
                        removed: 0,
                        removal_failed: false,
                    };
                    (job, ArchiveAction::WriteContainer(bytes))
                },
                None => Self::give_up(phase, paths, names, sources, 0, false, ArchiveError::Io),
            }
        } else {
            let next = sources.len();
            let base = base_name(paths[next].as_str());
            let ghost asked = base_view(base);
            match claim_name(&names, base) {
                Ok(name) => {
                    let mut names = names;
                    names.push(name);
                    assert(name_views(names@) == v.names.push(name@));
                    let job = ArchiveJob {
                        paths,
                        names,
                        sources,
                        phase: JobPhase::Reading,
                        removed: 0,
                        removal_failed: false,
                    };
                    assert(names_next(v, asked, job@, ActionView::ReadSource(next as int)));
                    (job, ArchiveAction::ReadSource(next))
                },
                Err(e) => {
                    let r = Self::give_up(phase, paths, names, sources, 0, false, e);
                    assert(names_next(v, asked, r.0@, r.1@));
                    r
                },
            }
        }
    }

    /// Asks for the next source to be removed, or ends the job where none
    /// is left.
    fn remove_on(
        phase: JobPhase,
        paths: Vec<String>,
        names: Vec<String>,
        sources: Vec<SourceFile>,
        removed: usize,
        removal_failed: bool,
    ) -> (r: (ArchiveJob, ArchiveAction))
        requires
            names@.len() == paths@.len(),
            sources@.len() == paths@.len(),
            removed <= paths@.len(),
            names_distinct(name_views(names@)),
        ensures
            goes_on_removing(
                job_view(phase, paths@, names@, sources@, removed, removal_failed),
                r.0@,
                r.1@,
            ),
    {
        if removed < paths.len() {
            let job = ArchiveJob {
                paths,
                names,
                sources,
                phase: JobPhase::Removing,
                removed,
                removal_failed,
            };
            (job, ArchiveAction::RemoveSource(removed))
        } else if removal_failed {
            Self::give_up(phase, paths, names, sources, removed, removal_failed, ArchiveError::Io)
        } else {
            let job = ArchiveJob {
                paths,
                names,
                sources,
                phase: JobPhase::Succeeded,
                removed,
                removal_failed,
            };
            (job, ArchiveAction::Done(Ok(())))
        }
    }

    /// Takes what the caller reports and answers with the job as it stands
    /// then and with what the caller is to do next.
    pub fn step(self, event: ArchiveEvent) -> (r: (ArchiveJob, ArchiveAction))
        ensures
            step_allowed(self@, event@, r.0@, r.1@),
    {
        proof {
            use_type_invariant(&self);
        }
        let ArchiveJob { paths, names, sources, phase, removed, removal_failed } = self;
        match phase {
            JobPhase::Succeeded => {
                let job = ArchiveJob { paths, names, sources, phase, removed, removal_failed };
                (job, ArchiveAction::Done(Ok(())))
            },
            JobPhase::Failed(e) => {
                let job = ArchiveJob { paths, names, sources, phase, removed, removal_failed };
                (job, ArchiveAction::Done(Err(e)))
            },
            JobPhase::Fresh => match event {
                ArchiveEvent::Start => Self::read_on(phase, paths, names, sources),
                _ => Self::give_up(
                    phase,
                    paths,
                    names,
                    sources,
                    removed,
                    removal_failed,
                    ArchiveError::Io,
                ),
            },
            JobPhase::Reading => match event {
                ArchiveEvent::SourceRead(Some(bytes)) => {
                    let ghost read = contents_of(sources@);
                    let mut sources = sources;
                    let path = paths[sources.len()].clone();
                    sources.push(SourceFile { path, contents: bytes });
                    assert(contents_of(sources@) == read.push(bytes@));
                    Self::read_on(phase, paths, names, sources)
                },
                _ => Self::give_up(
                    phase,
                    paths,
                    names,
                    sources,
                    removed,
                    removal_failed,
                    ArchiveError::Io,
                ),
            },
            JobPhase::Writing => match event {
                ArchiveEvent::ContainerWritten(true) => Self::remove_on(
                    phase,
                    paths,
                    names,
                    sources,
                    removed,
                    removal_failed,
                ),
                _ => Self::give_up(
                    phase,
                    paths,
                    names,
                    sources,
                    removed,
                    removal_failed,
                    ArchiveError::Io,
                ),
            },
            JobPhase::Removing => match event {
                ArchiveEvent::SourceRemoved(gone) => {
                    let total = paths.len();
                    assert(removed < total);
                    Self::remove_on(
                        phase,
                        paths,
                        names,
                        sources,
                        removed + 1,
                        removal_failed || !gone,
                    )
                },
                _ => Self::give_up(
                    phase,
                    paths,
                    names,
                    sources,
                    removed,
                    removal_failed,
                    ArchiveError::Io,
                ),
            },
        }
    }
}

} // verus!
