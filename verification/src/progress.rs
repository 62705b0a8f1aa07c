//! Reporting the progress of a running operation.
//!
//! Two services report progress: the manager reports the main steps and
//! says when the operation has finished, the software service reports the
//! details. A monitor decides, for each notice of a change, what the
//! presenter is told; how that is shown is the presenter's business.
use crate::text::str_eq;
use vstd::prelude::*;

verus! {

/// The progress that a service reports.
#[derive(Debug)]
pub struct Progress {
    /// Current step
    pub current_step: u32,
    /// Number of steps
    pub max_steps: u32,
    /// Title of the current step
    pub current_title: String,
    /// Whether the progress reporting is finished
    pub finished: bool,
}

/// A progress report as a mathematical value.
pub struct ProgressView {
    pub current_step: u32,
    pub max_steps: u32,
    pub current_title: Seq<char>,
    pub finished: bool,
}

impl View for Progress {
    type V = ProgressView;

    open spec fn view(&self) -> ProgressView {
        ProgressView {
            current_step: self.current_step,
            max_steps: self.max_steps,
            current_title: self.current_title@,
            finished: self.finished,
        }
    }
}

impl Default for Progress {
    fn default() -> (r: Self)
        ensures
            r@ == (ProgressView {
                current_step: 0,
                max_steps: 0,
                current_title: Seq::empty(),
                finished: false,
            }),
    {
        Progress { current_step: 0, max_steps: 0, current_title: String::new(), finished: false }
    }
}

impl Progress {
    /// The progress made of what a service's progress object gave: the
    /// current step with its title, the number of steps, and whether the
    /// operation has finished.
    pub fn from_proxy(current: (u32, String), total_steps: u32, finished: bool) -> (r: Progress)
        ensures
            r@ == (ProgressView {
                current_step: current.0,
                max_steps: total_steps,
                current_title: current.1@,
                finished,
            }),
    {
        Progress {
            current_step: current.0,
            max_steps: total_steps,
            current_title: current.1,
            finished,
        }
    }
}

/// Presents the progress to the user.
pub trait ProgressPresenter {
    /// Starts the progress reporting.
    ///
    /// * `progress`: current main progress.
    fn start(&mut self, progress: &Progress);

    /// Updates the progress.
    ///
    /// * `progress`: current progress.
    fn update_main(&mut self, progress: &Progress);

    /// Updates the progress detail.
    ///
    /// * `progress`: current progress detail.
    fn update_detail(&mut self, progress: &Progress);

    /// Finishes the progress reporting.
    fn finish(&mut self);
}

/// Where a notice of a change came from.
#[derive(Clone, Copy, PartialEq, Eq, Structural, Debug)]
pub enum ProgressSource {
    /// The manager, which reports the main progress.
    Manager,
    /// The software service, which reports the details.
    Software,
    /// Neither of the two.
    Unknown,
}

/// What the presenter is told about a change.
#[derive(Clone, Copy, PartialEq, Eq, Structural, Debug)]
pub enum Report {
    /// The main progress has changed.
    UpdateMain,
    /// The detail has changed.
    UpdateDetail,
    /// The operation has finished.
    Finish,
    /// Nothing: the notice came from an unknown object.
    Nothing,
}

/// The object path of the manager's progress.
pub open spec fn manager_path() -> Seq<char> {
    "/org/opensuse/Agama1/Manager"@
}

/// The object path of the software service's progress.
pub open spec fn software_path() -> Seq<char> {
    "/org/opensuse/Agama/Software1"@
}

/// The service that reports under the given object path.
pub open spec fn source_of(path: Seq<char>) -> ProgressSource {
    if path == manager_path() {
        ProgressSource::Manager
    } else if path == software_path() {
        ProgressSource::Software
    } else {
        ProgressSource::Unknown
    }
}

/// What the presenter is told when `source` reports a change and the
/// progress read from it says `finished`. Only the manager ends the
/// operation.
pub open spec fn report_for(source: ProgressSource, finished: bool) -> Report {
    match source {
        ProgressSource::Manager => if finished {
            Report::Finish
        } else {
            Report::UpdateMain
        },
        ProgressSource::Software => Report::UpdateDetail,
        ProgressSource::Unknown => Report::Nothing,
    }
}

/// Monitors the progress of the current operation and tells a presenter
/// about it.
#[derive(Debug)]
pub struct ProgressMonitor {
    finished: bool,
}

impl ProgressMonitor {
    /// Whether the monitor has seen the operation finish.
    pub closed spec fn is_finished(&self) -> bool {
        self.finished
    }

    /// A monitor for an operation that has not finished.
    pub fn new() -> (r: Self)
        ensures
            !r.is_finished(),
    {
        ProgressMonitor { finished: false }
    }

    /// Whether the monitor has seen the operation finish.
    pub fn finished(&self) -> (b: bool)
        ensures
            b == self.is_finished(),
    {
        self.finished
    }

    /// The service that a notice came from, by the object path that the
    /// notice carries.
    pub fn source(path: &str) -> (r: ProgressSource)
        ensures
            r == source_of(path@),
    {
        if str_eq(path, "/org/opensuse/Agama1/Manager") {
            ProgressSource::Manager
        } else if str_eq(path, "/org/opensuse/Agama/Software1") {
            ProgressSource::Software
        } else {
            ProgressSource::Unknown
        }
    }

    /// What the presenter is to be told about a change.
    pub fn report(source: ProgressSource, progress: &Progress) -> (r: Report)
        ensures
            r == report_for(source, progress.finished),
    {
        match source {
            ProgressSource::Manager => {
                if progress.finished {
                    Report::Finish
                } else {
                    Report::UpdateMain
                }
            },
            ProgressSource::Software => Report::UpdateDetail,
            ProgressSource::Unknown => Report::Nothing,
        }
    }

    /// Handles one change: tells the presenter what `report` says, and
    /// remembers when the operation has finished. Once it has, the monitor
    /// tells the presenter nothing more. Returns what it told.
    pub fn run<P: ProgressPresenter>(
        &mut self,
        presenter: &mut P,
        source: ProgressSource,
        progress: &Progress,
    ) -> (told: Report)
        ensures
            told == if old(self).is_finished() {
                Report::Nothing
            } else {
                report_for(source, progress.finished)
            },
            final(self).is_finished() == (old(self).is_finished() || told == Report::Finish),
    {
        if self.finished {
            return Report::Nothing;
        }
        let report = ProgressMonitor::report(source, progress);
        match report {
            Report::UpdateMain => {
                presenter.update_main(progress);
            },
            Report::UpdateDetail => {
                presenter.update_detail(progress);
            },
            Report::Finish => {
                presenter.finish();
                self.finished = true;
            },
            Report::Nothing => {},
        }
        report
    }
}

} // verus!
