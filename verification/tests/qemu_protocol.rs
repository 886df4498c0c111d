use cubic::error::Error;
use cubic::json::Json;
use cubic::models::{HostIp, PortForward, Protocol};
use cubic::qemu::guest_agent::{exec_arguments, exec_exited, exec_pid, sync_arguments};
use cubic::qemu::monitor::{
    add_hostfwd_outcome, hmp_arguments, hmp_output, hostfwd_add_line, hostfwd_remove_line, remove_hostfwd_outcome,
};
use cubic::qemu::{Qmp, QmpError, QmpMessage, QmpTimestamp};

fn value(text: &str) -> serde_json::Value {
    serde_json::from_str(text).unwrap()
}

#[test]
fn decode_reads_the_greeting() {
    let message = Qmp::decode(r#"{"QMP": {"version": {}, "capabilities": []}}"#).unwrap();
    assert!(matches!(message, QmpMessage::Greeting { qmp: Json::Object(_) }));
}

#[test]
fn decode_reads_a_success_with_its_id() {
    let message = Qmp::decode(r#"{"return": {}, "id": "7"}"#).unwrap();
    assert!(Qmp::is_answer(&message, "7"));
    assert!(!Qmp::is_answer(&message, "8"));
    assert!(matches!(message, QmpMessage::Success { id: Some(ref i), ret: Json::Object(_) } if i == "7"));
}

#[test]
fn decode_reads_an_error() {
    let message = Qmp::decode(r#"{"error": {"class": "GenericError", "desc": "boom"}, "id": "1"}"#).unwrap();
    assert!(Qmp::is_answer(&message, "1"));
    match message {
        QmpMessage::Error { error, .. } => {
            assert_eq!(error.class, "GenericError");
            assert_eq!(error.desc, "boom");
        }
        other => panic!("unexpected {other:?}"),
    }
}

#[test]
fn decode_reads_an_event_without_an_id() {
    let message = Qmp::decode(
        r#"{"event": "SHUTDOWN", "data": {"guest": true}, "timestamp": {"seconds": 1700000000, "microseconds": -5}}"#,
    )
    .unwrap();
    assert!(!Qmp::is_answer(&message, "0"));
    match message {
        QmpMessage::Event { event, data, timestamp } => {
            assert_eq!(event, "SHUTDOWN");
            assert!(matches!(data, Some(Json::Object(_))));
            assert_eq!(timestamp.seconds, 1700000000);
            assert_eq!(timestamp.microseconds, -5);
        }
        other => panic!("unexpected {other:?}"),
    }
}

#[test]
fn decode_rejects_what_is_no_message() {
    assert!(matches!(Qmp::decode("not json"), Err(Error::InvalidMessage(_))));
    assert!(matches!(Qmp::decode(r#"{"id": "1"}"#), Err(Error::InvalidMessage(_))));
    assert!(matches!(Qmp::decode(r#"{"return": 1, "id": 5}"#), Err(Error::InvalidMessage(_))));
    assert!(matches!(Qmp::decode("[1]"), Err(Error::InvalidMessage(_))));
}

#[test]
fn commands_are_numbered_from_zero() {
    let mut qmp = Qmp::new();
    let (first, message) = qmp.command("qmp_capabilities", Json::Null);
    let (second, _) = qmp.command("system_powerdown", Json::Null);
    assert_eq!(first, "0");
    assert_eq!(second, "1");
    let text = Qmp::encode(message);
    let back: serde_json::Value = serde_json::from_str(&text).unwrap();
    assert_eq!(back, value(r#"{"id": "0", "execute": "qmp_capabilities"}"#));
}

#[test]
fn encode_keeps_the_arguments_of_a_command() {
    let mut qmp = Qmp::new();
    let (_, message) = qmp.command("human-monitor-command", hmp_arguments("info network"));
    let back: serde_json::Value = serde_json::from_str(&Qmp::encode(message)).unwrap();
    assert_eq!(
        back,
        value(r#"{"id": "0", "execute": "human-monitor-command", "arguments": {"command-line": "info network"}}"#)
    );
}

#[test]
fn encode_writes_an_event_and_an_error() {
    let event = QmpMessage::Event {
        event: "STOP".to_string(),
        data: None,
        timestamp: QmpTimestamp { seconds: -3, microseconds: 4 },
    };
    let back: serde_json::Value = serde_json::from_str(&Qmp::encode(event)).unwrap();
    assert_eq!(back, value(r#"{"event": "STOP", "timestamp": {"seconds": -3, "microseconds": 4}}"#));
    let error = QmpMessage::Error {
        id: None,
        error: QmpError { class: "C".to_string(), desc: "D".to_string() },
    };
    let back: serde_json::Value = serde_json::from_str(&Qmp::encode(error)).unwrap();
    assert_eq!(back, value(r#"{"error": {"class": "C", "desc": "D"}}"#));
}

#[test]
fn hostfwd_lines_name_the_user_network() {
    let fwd = PortForward::new(HostIp::V4(127, 0, 0, 1), 8080, 80, Protocol::Tcp);
    assert_eq!(hostfwd_add_line(&fwd), "hostfwd_add net0 tcp:127.0.0.1:8080-:80");
    assert_eq!(hostfwd_remove_line(&fwd), "hostfwd_remove net0 tcp:127.0.0.1:8080");
}

#[test]
fn hmp_output_trims_what_qemu_printed() {
    let success = QmpMessage::Success { id: Some("0".to_string()), ret: Json::Text("  done \r\n".to_string()) };
    assert_eq!(hmp_output(success).unwrap(), "done");
    let empty = QmpMessage::Success { id: None, ret: Json::Object(vec![]) };
    assert_eq!(hmp_output(empty).unwrap(), "");
    let failure = QmpMessage::Error { id: None, error: QmpError { class: "C".to_string(), desc: "bad".to_string() } };
    assert!(matches!(hmp_output(failure), Err(Error::HostfwdCommandFailed(d)) if d == "bad"));
}

#[test]
fn hostfwd_outcomes_follow_what_qemu_printed() {
    assert!(add_hostfwd_outcome(String::new()).is_ok());
    assert!(matches!(add_hostfwd_outcome("port in use".to_string()), Err(Error::HostfwdCommandFailed(o)) if o == "port in use"));
    assert!(remove_hostfwd_outcome("removed".to_string()).is_ok());
    assert!(matches!(
        remove_hostfwd_outcome("host forwarding rule for tcp:127.0.0.1:8080 not found".to_string()),
        Err(Error::HostfwdCommandFailed(_))
    ));
}

#[test]
fn guest_agent_reads_pid_and_exit_state() {
    let started = Qmp::decode(r#"{"return": {"pid": 42}, "id": "3"}"#);
    assert_eq!(exec_pid(started).unwrap(), 42);
    assert!(matches!(exec_pid(Err(Error::ExecFailed)), Err(Error::ExecFailed)));
    assert!(matches!(exec_pid(Qmp::decode(r#"{"return": {}}"#)), Err(Error::ExecFailed)));
    assert!(exec_exited(Qmp::decode(r#"{"return": {"exited": true}}"#)).unwrap());
    assert!(!exec_exited(Qmp::decode(r#"{"return": {"exited": 1}}"#)).unwrap());
    let sync: serde_json::Value = serde_json::from_str(&Qmp::encode(QmpMessage::Command {
        id: None,
        execute: "guest-sync".to_string(),
        arguments: sync_arguments(),
    }))
    .unwrap();
    assert_eq!(sync, value(r#"{"execute": "guest-sync", "arguments": {"id": 1}}"#));
    let exec = exec_arguments("/bin/ls", &vec!["-l".to_string()], &vec![]);
    match exec {
        Json::Object(ms) => {
            assert_eq!(ms[0].0, "path");
            assert_eq!(ms[1].0, "arg");
            assert_eq!(ms[2].0, "env");
        }
        other => panic!("unexpected {other:?}"),
    }
}

#[test]
fn a_written_message_reads_back_as_itself() {
    let mut qmp = Qmp::new();
    let (_, command) = qmp.command("human-monitor-command", hmp_arguments("info usernet"));
    match Qmp::decode(&Qmp::encode(command)).unwrap() {
        QmpMessage::Command { id, execute, arguments: Json::Object(ms) } => {
            assert_eq!(id.as_deref(), Some("0"));
            assert_eq!(execute, "human-monitor-command");
            assert_eq!(ms[0].0, "command-line");
        }
        other => panic!("unexpected {other:?}"),
    }
    let event = QmpMessage::Event {
        event: "RESET".to_string(),
        data: Some(Json::Bool(true)),
        timestamp: QmpTimestamp { seconds: 5, microseconds: -7 },
    };
    match Qmp::decode(&Qmp::encode(event)).unwrap() {
        QmpMessage::Event { event, data: Some(Json::Bool(true)), timestamp } => {
            assert_eq!(event, "RESET");
            assert_eq!((timestamp.seconds, timestamp.microseconds), (5, -7));
        }
        other => panic!("unexpected {other:?}"),
    }
    // A command without arguments leaves them out and so no longer reads as one.
    let bare = QmpMessage::Command { id: None, execute: "stop".to_string(), arguments: Json::Null };
    assert!(Qmp::decode(&Qmp::encode(bare)).is_err());
}
