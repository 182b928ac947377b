use dockerust::docker_parse::Ports as ReportedPorts;
use dockerust::{
    keep_containers, wait_at_least_one_second_after_container_was_started, ContainerInfo,
    DockerContainer, GenericImage, Image, ParseError, Phase, PortMapping, ReadEvent, Startup,
    StreamType, WaitError, WaitFor, WaitingReady, WatchStep, GRACE_MILLIS,
};

fn postgres() -> GenericImage {
    GenericImage::new("postgres:11-alpine")
        .with_wait_for(WaitFor::message_on_stderr(
            "database system is ready to accept connections",
            20,
        ))
        .with_env_var("POSTGRES_DB", "db")
        .with_env_var("POSTGRES_USER", "user")
        .with_env_var("POSTGRES_PASSWORD", "pass")
}

fn waiting(image: GenericImage, now: u64) -> WaitingReady<GenericImage> {
    match DockerContainer::new("0123456789abcdef".to_string(), image, now) {
        Some(Startup::Waiting(waiting)) => waiting,
        _ => panic!("the container must be waited for"),
    }
}

fn ready(now: u64) -> DockerContainer<GenericImage> {
    match DockerContainer::new("0123456789abcdef".to_string(), GenericImage::new("busybox"), now) {
        Some(Startup::Ready(handle)) => handle,
        _ => panic!("the container must be ready at once"),
    }
}

fn line(text: &str, elapsed: u64) -> ReadEvent {
    ReadEvent::Line { text: text.to_string(), elapsed }
}

#[test]
fn image_that_waits_for_nothing_is_ready_at_once() {
    let handle = ready(5);
    assert_eq!(handle.id(), "0123456789abcdef");
    assert_eq!(handle.image().descriptor(), "busybox");
    assert_eq!(handle.phase(), Phase::Ready);
}

#[test]
fn container_without_identifier_is_none() {
    assert!(DockerContainer::new(String::new(), GenericImage::new("busybox"), 0).is_none());
    assert!(DockerContainer::new(String::new(), postgres(), 0).is_none());
}

#[test]
fn postgres_becomes_ready_when_the_message_appears() {
    let waiting = waiting(postgres(), 1_000);
    assert_eq!(waiting.stream_type(), StreamType::StdErr);
    assert_eq!(waiting.logs_arguments(), vec!["logs", "-f", "0123456789abcdef"]);
    assert_eq!(waiting.delay(1_000), 1_000);
    let watch = waiting.watch();
    assert_eq!(watch.timeout(), 20_000);
    let events = vec![
        line("initdb: starting", 1_500),
        line("LOG:  database system is ready to accept connections", 18_500),
    ];
    let outcome = match watch.run(&events) {
        WatchStep::Done { outcome, compared } => {
            assert_eq!(compared, 2);
            outcome
        }
        WatchStep::Continue(_) => panic!("the watch must be over"),
    };
    assert_eq!(outcome, Ok(()));
    let handle = waiting.conclude(outcome).unwrap();
    assert_eq!(handle.id(), "0123456789abcdef");
    assert_eq!(handle.phase(), Phase::Ready);
    assert_eq!(handle.image().descriptor(), "postgres:11-alpine");
    assert_eq!(handle.run_background_logs(false, true), vec![StreamType::StdErr]);
}

#[test]
fn postgres_fails_when_the_message_is_late() {
    let waiting = waiting(postgres(), 0);
    let events = vec![
        line("initdb: starting", 19_000),
        line("LOG:  database system is ready to accept connections", 1_001),
    ];
    let outcome = match waiting.watch().run(&events) {
        WatchStep::Done { outcome, .. } => outcome,
        WatchStep::Continue(_) => panic!("the watch must be over"),
    };
    assert_eq!(outcome, Err(WaitError::WaitDurationExpired));
    assert!(matches!(waiting.conclude(outcome), Err(WaitError::WaitDurationExpired)));
}

#[test]
fn postgres_fails_when_no_line_comes_in_time() {
    let waiting = waiting(postgres(), 0);
    let outcome = match waiting.watch().run(&vec![ReadEvent::TimedOut]) {
        WatchStep::Done { outcome, .. } => outcome,
        WatchStep::Continue(_) => panic!("the watch must be over"),
    };
    assert!(matches!(waiting.conclude(outcome), Err(WaitError::WaitDurationExpired)));
}

#[test]
fn failed_wait_gives_no_handle() {
    let waiting1 = waiting(postgres(), 0);
    assert!(matches!(
        waiting1.conclude(Err(WaitError::EndOfStream)),
        Err(WaitError::EndOfStream)
    ));
    let waiting2 = waiting(postgres(), 0);
    match waiting2.conclude(Err(WaitError::Io("reset".to_string()))) {
        Err(WaitError::Io(cause)) => assert_eq!(cause, "reset"),
        _ => panic!("the fault must be handed on"),
    }
}

#[test]
fn deadline_in_seconds_becomes_milliseconds() {
    let image = GenericImage::new("x").with_wait_for(WaitFor::message_on_stdout("up", 3));
    assert_eq!(waiting(image, 0).watch().timeout(), 3_000);
    let image = GenericImage::new("x").with_wait_for(WaitFor::message_on_stdout("up", 0));
    assert_eq!(waiting(image, 0).watch().timeout(), 0);
    let image = GenericImage::new("x").with_wait_for(WaitFor::message_on_stdout("up", u64::MAX));
    assert_eq!(waiting(image, 0).watch().timeout(), u64::MAX);
    let edge = u64::MAX / 1000;
    let image = GenericImage::new("x").with_wait_for(WaitFor::message_on_stdout("up", edge));
    assert_eq!(waiting(image, 0).watch().timeout(), edge * 1000);
    let image = GenericImage::new("x").with_wait_for(WaitFor::message_on_stdout("up", edge + 1));
    assert_eq!(waiting(image, 0).watch().timeout(), u64::MAX);
}

#[test]
fn grace_period_is_one_second_from_start() {
    assert_eq!(GRACE_MILLIS, 1000);
    assert_eq!(wait_at_least_one_second_after_container_was_started(5_000, 5_000), 1_000);
    assert_eq!(wait_at_least_one_second_after_container_was_started(5_000, 5_300), 700);
    assert_eq!(wait_at_least_one_second_after_container_was_started(5_000, 5_999), 1);
    assert_eq!(wait_at_least_one_second_after_container_was_started(5_000, 6_000), 0);
    assert_eq!(wait_at_least_one_second_after_container_was_started(5_000, 60_000), 0);
    assert_eq!(wait_at_least_one_second_after_container_was_started(5_000, 4_000), 1_000);
    assert_eq!(wait_at_least_one_second_after_container_was_started(0, u64::MAX), 0);
    let handle = ready(100);
    assert_eq!(handle.log_access_delay(400), 700);
    assert_eq!(handle.logs_arguments(), vec!["logs", "-f", "0123456789abcdef"]);
}

#[test]
fn background_logs_tail_what_was_asked_for() {
    let handle = ready(0);
    assert_eq!(
        handle.run_background_logs(true, true),
        vec![StreamType::StdOut, StreamType::StdErr]
    );
    assert_eq!(handle.run_background_logs(true, false), vec![StreamType::StdOut]);
    assert_eq!(handle.run_background_logs(false, true), vec![StreamType::StdErr]);
    assert_eq!(handle.run_background_logs(false, false), Vec::<StreamType>::new());
}

#[test]
fn disposal_removes_by_default() {
    let mut handle = ready(0);
    let keep = keep_containers(None);
    assert!(!keep);
    assert_eq!(
        handle.dispose(keep),
        Some(vec![
            "rm".to_string(),
            "-f".to_string(),
            "-v".to_string(),
            "0123456789abcdef".to_string()
        ])
    );
    assert_eq!(handle.phase(), Phase::Removed);
}

#[test]
fn disposal_stops_when_containers_are_kept() {
    let mut handle = ready(0);
    let keep = keep_containers(Some("true"));
    assert!(keep);
    assert_eq!(
        handle.dispose(keep),
        Some(vec!["stop".to_string(), "0123456789abcdef".to_string()])
    );
    assert_eq!(handle.phase(), Phase::Stopped);
    assert_eq!(handle.id(), "0123456789abcdef");
}

#[test]
fn teardown_is_issued_once() {
    let mut handle = ready(0);
    assert!(handle.dispose(false).is_some());
    assert_eq!(handle.dispose(false), None);
    assert_eq!(handle.dispose(true), None);
    assert_eq!(handle.phase(), Phase::Removed);
    let mut kept = ready(0);
    assert!(kept.dispose(true).is_some());
    assert_eq!(kept.dispose(false), None);
    assert_eq!(kept.phase(), Phase::Stopped);
}

#[test]
fn keep_containers_reads_the_setting() {
    assert!(keep_containers(Some("true")));
    assert!(!keep_containers(Some("false")));
    assert!(!keep_containers(Some("TRUE")));
    assert!(!keep_containers(Some("1")));
    assert!(!keep_containers(Some("")));
    assert!(!keep_containers(Some(" true")));
    assert!(!keep_containers(None));
}

#[test]
fn host_port_is_read_from_the_inspection() {
    let handle = ready(0);
    let info = || ContainerInfo {
        id: "0123456789abcdef".to_string(),
        ports: ReportedPorts(vec![
            (
                "5432/tcp".to_string(),
                Some(vec![PortMapping { ip: "0.0.0.0".to_string(), port: "49155".to_string() }]),
            ),
            ("5433/tcp".to_string(), None),
        ]),
    };
    assert_eq!(handle.get_host_port(info(), 5432), Ok(Some(49155)));
    assert_eq!(handle.get_host_port(info(), 5433), Ok(None));
    assert_eq!(handle.get_host_port(info(), 1), Ok(None));
    let broken = ContainerInfo {
        id: "0123456789abcdef".to_string(),
        ports: ReportedPorts(vec![(
            "5432/tcp".to_string(),
            Some(vec![PortMapping { ip: "::".to_string(), port: "none".to_string() }]),
        )]),
    };
    assert_eq!(
        handle.get_host_port(broken, 5432),
        Err(ParseError::InvalidPort { text: "none".to_string() })
    );
}
