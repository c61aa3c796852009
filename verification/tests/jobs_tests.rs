use rsigild::daemon::init_hidden_console;
use rsigild::job_object::{assign_process, create_job, terminate_job};

#[test]
fn jobs_always_succeed_outside_windows() {
    init_hidden_console();
    let job = create_job();
    assert_eq!(job, Some(()));
    assert!(assign_process(&(), 1234));
    assert!(terminate_job(&()));
}
