use agama_network::progress::{
    Progress, ProgressMonitor, ProgressPresenter, ProgressSource, Report,
};

#[derive(Default)]
struct Recorder {
    log: Vec<String>,
}

impl ProgressPresenter for Recorder {
    fn start(&mut self, progress: &Progress) {
        self.log.push(format!("start {}/{}", progress.current_step, progress.max_steps));
    }

    fn update_main(&mut self, progress: &Progress) {
        self.log.push(format!("main {} {}", progress.current_step, progress.current_title));
    }

    fn update_detail(&mut self, progress: &Progress) {
        self.log.push(format!("detail {} {}", progress.current_step, progress.current_title));
    }

    fn finish(&mut self) {
        self.log.push("finish".to_string());
    }
}

fn progress(step: u32, title: &str, finished: bool) -> Progress {
    Progress::from_proxy((step, title.to_string()), 3, finished)
}

#[test]
fn a_progress_is_made_of_what_was_read() {
    let p = Progress::from_proxy((2, "Installing".to_string()), 5, false);
    assert_eq!(p.current_step, 2);
    assert_eq!(p.max_steps, 5);
    assert_eq!(p.current_title, "Installing");
    assert!(!p.finished);
    let d = Progress::default();
    assert_eq!((d.current_step, d.max_steps, d.finished), (0, 0, false));
    assert_eq!(d.current_title, "");
}

#[test]
fn notices_are_told_apart_by_their_path() {
    assert_eq!(ProgressMonitor::source("/org/opensuse/Agama1/Manager"), ProgressSource::Manager);
    assert_eq!(ProgressMonitor::source("/org/opensuse/Agama/Software1"), ProgressSource::Software);
    assert_eq!(ProgressMonitor::source("/org/opensuse/Agama1/Users"), ProgressSource::Unknown);
    assert_eq!(ProgressMonitor::source(""), ProgressSource::Unknown);
}

#[test]
fn only_the_manager_ends_the_operation() {
    let done = progress(3, "Done", true);
    let busy = progress(1, "Busy", false);
    assert_eq!(ProgressMonitor::report(ProgressSource::Manager, &done), Report::Finish);
    assert_eq!(ProgressMonitor::report(ProgressSource::Manager, &busy), Report::UpdateMain);
    assert_eq!(ProgressMonitor::report(ProgressSource::Software, &done), Report::UpdateDetail);
    assert_eq!(ProgressMonitor::report(ProgressSource::Software, &busy), Report::UpdateDetail);
    assert_eq!(ProgressMonitor::report(ProgressSource::Unknown, &done), Report::Nothing);
}

#[test]
fn the_monitor_tells_the_presenter_until_the_end() {
    let mut monitor = ProgressMonitor::new();
    let mut presenter = Recorder::default();
    presenter.start(&progress(0, "", false));
    assert!(!monitor.finished());
    let busy = progress(1, "Partition", false);
    assert_eq!(monitor.run(&mut presenter, ProgressSource::Manager, &busy), Report::UpdateMain);
    let detail = progress(7, "zypper", true);
    assert_eq!(monitor.run(&mut presenter, ProgressSource::Software, &detail), Report::UpdateDetail);
    let other = progress(9, "?", true);
    assert_eq!(monitor.run(&mut presenter, ProgressSource::Unknown, &other), Report::Nothing);
    assert!(!monitor.finished());
    let done = progress(3, "Done", true);
    assert_eq!(monitor.run(&mut presenter, ProgressSource::Manager, &done), Report::Finish);
    assert!(monitor.finished());
    let late = progress(1, "Late", false);
    assert_eq!(monitor.run(&mut presenter, ProgressSource::Manager, &late), Report::Nothing);
    assert!(monitor.finished());
    assert_eq!(
        presenter.log,
        vec!["start 0/3", "main 1 Partition", "detail 7 zypper", "finish"]
    );
}
