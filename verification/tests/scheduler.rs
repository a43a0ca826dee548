use presence_agent::config::{Column, ConfigError, RowError, RowFault};
use presence_agent::report::{Credentials, CredentialsError, Delivery, ReportRequest};
use presence_agent::scheduler::{
    Action, Agent, Event, Notice, Phase, StartupError, Step, PERIOD_SECONDS,
};
use presence_agent::table::{StateTable, StatusRecord};

const CONFIG: &[u8] = b"name,description\nnotepad.exe,Writing Notes\nCode.exe,Coding\n";

fn text(value: &str) -> Option<String> {
    Some(value.to_string())
}

fn agent() -> Agent {
    match Agent::start(text("http://example.test/state"), text("tok"), CONFIG) {
        Ok(agent) => agent,
        Err(error) => panic!("startup failed: {:?}", error),
    }
}

fn pause(notice: Option<Notice>) -> Option<Step> {
    Some(Step { phase: Phase::Waiting, action: Action::Sleep(10), notice })
}

fn sampled(name: &str) -> Event {
    Event::Sampled(Some(name.to_string()))
}

#[test]
fn period_is_ten_seconds() {
    assert_eq!(PERIOD_SECONDS, 10);
}

#[test]
fn loop_begins_with_an_inspection() {
    assert_eq!(agent().begin(), (Phase::Inspecting, Action::Inspect));
}

#[test]
fn cycle_without_sample_sends_nothing() {
    assert_eq!(agent().step(Phase::Inspecting, &Event::Sampled(None)), pause(None));
}

#[test]
fn cycle_with_unknown_name_sends_nothing() {
    assert_eq!(
        agent().step(Phase::Inspecting, &sampled("explorer.exe")),
        pause(Some(Notice::Unmatched))
    );
}

#[test]
fn cycle_with_known_name_posts_its_description() {
    let records = [StatusRecord {
        name: "notepad.exe".to_string(),
        description: "Writing Notes".to_string(),
    }];
    let credentials = Credentials::new(text("http://example.test/state"), text("tok"))
        .ok()
        .expect("both settings are given");
    let agent = Agent::new(credentials, StateTable::from_records(&records));
    assert_eq!(
        agent.step(Phase::Inspecting, &sampled("notepad.exe")),
        Some(Step {
            phase: Phase::Reporting,
            action: Action::Post(ReportRequest {
                url: "http://example.test/state".to_string(),
                authorization: "Bearer tok".to_string(),
                body: "Writing Notes".to_string(),
            }),
            notice: None,
        })
    );
}

#[test]
fn sample_is_matched_without_regard_to_case() {
    let agent = agent();
    for name in ["CODE.EXE", "code.exe", "Code.exe"] {
        match agent.step(Phase::Inspecting, &sampled(name)) {
            Some(Step { phase: Phase::Reporting, action: Action::Post(request), notice: None }) => {
                assert_eq!(request.body, "Coding");
            }
            other => panic!("unexpected step: {:?}", other),
        }
    }
}

#[test]
fn accepted_delivery_leads_to_the_pause() {
    assert_eq!(agent().step(Phase::Reporting, &Event::Delivered(Delivery::Answered(200))), pause(None));
}

#[test]
fn failed_delivery_is_noted_and_leads_to_the_pause() {
    assert_eq!(
        agent().step(Phase::Reporting, &Event::Delivered(Delivery::Failed)),
        pause(Some(Notice::Undelivered))
    );
}

#[test]
fn rejected_delivery_is_noted_and_leads_to_the_pause() {
    assert_eq!(
        agent().step(Phase::Reporting, &Event::Delivered(Delivery::Answered(503))),
        pause(Some(Notice::Rejected(503)))
    );
}

#[test]
fn tick_opens_the_next_cycle() {
    assert_eq!(
        agent().step(Phase::Waiting, &Event::TickElapsed),
        Some(Step { phase: Phase::Inspecting, action: Action::Inspect, notice: None })
    );
}

#[test]
fn next_cycle_runs_after_a_failed_delivery() {
    let agent = agent();
    let (mut phase, mut action) = agent.begin();
    let mut posts = 0;
    let mut inspections = 0;
    for _ in 0..12 {
        let event = match action {
            Action::Inspect => {
                inspections += 1;
                sampled("notepad.exe")
            }
            Action::Post(_) => {
                posts += 1;
                Event::Delivered(Delivery::Failed)
            }
            Action::Sleep(seconds) => {
                assert_eq!(seconds, 10);
                Event::TickElapsed
            }
        };
        let step = agent.step(phase, &event).expect("the event is the awaited one");
        phase = step.phase;
        action = step.action;
    }
    assert_eq!(inspections, 4);
    assert_eq!(posts, 4);
}

#[test]
fn unawaited_events_get_no_step() {
    let agent = agent();
    assert_eq!(agent.step(Phase::Inspecting, &Event::TickElapsed), None);
    assert_eq!(agent.step(Phase::Inspecting, &Event::Delivered(Delivery::Failed)), None);
    assert_eq!(agent.step(Phase::Reporting, &Event::TickElapsed), None);
    assert_eq!(agent.step(Phase::Reporting, &sampled("notepad.exe")), None);
    assert_eq!(agent.step(Phase::Waiting, &Event::Sampled(None)), None);
    assert_eq!(agent.step(Phase::Waiting, &Event::Delivered(Delivery::Answered(200))), None);
}

#[test]
fn delivery_notices() {
    assert_eq!(Delivery::Answered(200).notice(), None);
    assert_eq!(Delivery::Answered(299).notice(), None);
    assert_eq!(Delivery::Answered(301).notice(), Some(Notice::Rejected(301)));
    assert_eq!(Delivery::Failed.notice(), Some(Notice::Undelivered));
}

#[test]
fn start_keeps_credentials_and_builds_the_table() {
    let agent = agent();
    assert_eq!(agent.credentials().server(), "http://example.test/state");
    assert_eq!(agent.credentials().token(), "tok");
    assert_eq!(agent.table().len(), 2);
    assert_eq!(agent.table().lookup("CODE.exe").cloned(), Some("Coding".to_string()));
}

#[test]
fn start_fails_without_server() {
    assert_eq!(
        Agent::start(None, text("tok"), CONFIG).err(),
        Some(StartupError::Credentials(CredentialsError::MissingServer))
    );
}

#[test]
fn start_fails_without_token() {
    assert_eq!(
        Agent::start(text("http://example.test/state"), None, CONFIG).err(),
        Some(StartupError::Credentials(CredentialsError::MissingToken))
    );
}

#[test]
fn start_reports_credentials_before_configuration() {
    assert_eq!(
        Agent::start(None, None, b"name\nx\n").err(),
        Some(StartupError::Credentials(CredentialsError::MissingServer))
    );
}

#[test]
fn start_fails_on_a_row_without_record() {
    assert_eq!(
        Agent::start(text("u"), text("t"), b"name\nnotepad.exe\n").err(),
        Some(StartupError::Config(ConfigError::Row(RowError {
            row: 1,
            fault: RowFault::Absent(Column::Description),
        })))
    );
}

#[test]
fn start_fails_on_malformed_text() {
    let outcome = Agent::start(text("u"), text("t"), b"name,description\na,b,c\n");
    assert!(matches!(outcome.err(), Some(StartupError::Config(ConfigError::Syntax(_)))));
}

#[test]
fn start_with_empty_configuration_matches_nothing() {
    let agent = match Agent::start(text("u"), text("t"), b"") {
        Ok(agent) => agent,
        Err(error) => panic!("startup failed: {:?}", error),
    };
    assert!(agent.table().is_empty());
    assert_eq!(agent.step(Phase::Inspecting, &sampled("notepad.exe")), pause(Some(Notice::Unmatched)));
}
