use toy_core::flow::{flow_plan, service_step, ServiceAction, ServiceEvent};
use toy_core::supervisor::{Supervision, SupervisorAction, SupervisorEvent, TaskTable};

#[test]
fn flow_plan_chains_found_services() {
    assert!(flow_plan(&vec![]).is_empty());
    assert_eq!(
        flow_plan(&vec![true, true, true]),
        vec![Some((0, 1)), Some((1, 2)), Some((2, 3))]
    );
    assert_eq!(
        flow_plan(&vec![true, false, true]),
        vec![Some((1, 2)), None, Some((2, 3))]
    );
}

#[test]
fn task_table_tracks_running_tasks() {
    let mut t = TaskTable::new();
    t.insert(1);
    t.insert(2);
    t.insert(1);
    assert_eq!(t.ids(), vec![1, 2]);
    assert!(t.contains(2));
    t.remove(1);
    assert_eq!(t.ids(), vec![2]);
    assert!(!t.contains(1));
}

#[test]
fn supervision_decides_on_requests() {
    let mut s = Supervision::new();
    assert_eq!(s.step(SupervisorEvent::Task(7)), vec![SupervisorAction::StartTask(7)]);
    assert_eq!(s.step(SupervisorEvent::TaskStarted(7)), vec![]);
    assert_eq!(s.step(SupervisorEvent::Stop(8)), vec![]);
    assert_eq!(s.step(SupervisorEvent::Stop(7)), vec![SupervisorAction::StopTask(7)]);
    assert_eq!(s.step(SupervisorEvent::Services), vec![SupervisorAction::ReplyServices]);
    assert_eq!(s.step(SupervisorEvent::RequestError), vec![]);
    assert_eq!(s.step(SupervisorEvent::Shutdown), vec![SupervisorAction::StopTask(7)]);
    assert_eq!(s.step(SupervisorEvent::Services), vec![]);
    assert!(!s.is_finished());
    assert_eq!(s.step(SupervisorEvent::TaskFinished(7)), vec![SupervisorAction::Finish]);
    assert!(s.is_finished());
    assert_eq!(s.step(SupervisorEvent::Task(9)), vec![]);
}

#[test]
fn supervision_finishes_at_once_without_tasks() {
    let mut s = Supervision::new();
    assert_eq!(s.step(SupervisorEvent::Shutdown), vec![SupervisorAction::Finish]);
    let mut t = Supervision::new();
    assert_eq!(t.step(SupervisorEvent::RequestsClosed), vec![SupervisorAction::Finish]);
}

#[test]
fn service_step_decides_on_events() {
    assert_eq!(service_step(ServiceEvent::Received), ServiceAction::Handle);
    assert_eq!(service_step(ServiceEvent::ReceiveFailed), ServiceAction::ForwardError);
    assert_eq!(service_step(ServiceEvent::Closed), ServiceAction::Finish);
    assert_eq!(service_step(ServiceEvent::HandleFailed), ServiceAction::Fail);
    assert_eq!(service_step(ServiceEvent::ForwardFailed), ServiceAction::Fail);
}
