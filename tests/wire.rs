use roomba::api::{Command, Extra, Info, Message, ParseRobotIdError, Region, StartRegions};
use roomba::cli;
use std::collections::HashMap;

fn start_regions(ordered: i64) -> Extra {
    Extra::StartRegions(StartRegions {
        pmap_id: "pmapA".to_string(),
        user_pmapv_id: "verA".to_string(),
        ordered,
        regions: vec![Region::from_id(3), Region::from_id(12)],
    })
}

fn info(hostname: &str, robot_id: Option<&str>) -> Info {
    Info {
        ip: "192.168.1.10".to_string(),
        hostname: hostname.to_string(),
        robot_id: robot_id.map(|s| s.to_string()),
        attrs: HashMap::new(),
    }
}

#[test]
fn start_without_extra_has_three_members() {
    let m = Message::command_at(Command::Start, None, 1700000000);
    assert_eq!(
        m.payload(),
        r#"{"command":"start","time":1700000000,"initiator":"localApp"}"#
    );
    let v: serde_json::Value = serde_json::from_str(&m.payload()).unwrap();
    let keys: Vec<&String> = v.as_object().unwrap().keys().collect();
    assert_eq!(keys.len(), 3);
}

#[test]
fn start_with_regions_merges_members_at_top_level() {
    let m = Message::command_at(Command::Start, Some(start_regions(1)), 5);
    assert_eq!(
        m.payload(),
        r#"{"command":"start","time":5,"initiator":"localApp","pmap_id":"pmapA","user_pmapv_id":"verA","ordered":1,"regions":[{"region_id":"3","type":"rid"},{"region_id":"12","type":"rid"}]}"#
    );
}

#[test]
fn negative_ordered_and_escaped_text() {
    let extra = Extra::StartRegions(StartRegions {
        pmap_id: "a\"b".to_string(),
        user_pmapv_id: "line\nbreak\u{1}\t\\".to_string(),
        ordered: -5,
        regions: vec![],
    });
    let m = Message::command_at(Command::Start, Some(extra), 0);
    assert_eq!(
        m.payload(),
        r#"{"command":"start","time":0,"initiator":"localApp","pmap_id":"a\"b","user_pmapv_id":"line\nbreak\u0001\t\\","ordered":-5,"regions":[]}"#
    );
}

#[test]
fn largest_time_and_smallest_ordered() {
    let extra = Extra::StartRegions(StartRegions {
        pmap_id: String::new(),
        user_pmapv_id: String::new(),
        ordered: i64::MIN,
        regions: vec![],
    });
    let m = Message::command_at(Command::Start, Some(extra), u64::MAX);
    let text = m.payload();
    assert!(text.contains(r#""time":18446744073709551615,"#));
    assert!(text.contains(r#""ordered":-9223372036854775808,"#));
}

#[test]
fn delta_is_null() {
    assert_eq!(Message::Delta.payload(), "null");
}

#[test]
fn new_command_is_signed_and_published_on_cmd() {
    let m = Message::new_command(Command::Pause, None);
    assert_eq!(m.topic(), "cmd");
    match m {
        Message::Cmd { command, initiator, extra, .. } => {
            assert!(matches!(command, Command::Pause));
            assert_eq!(initiator, "localApp");
            assert!(extra.is_none());
        }
        Message::Delta => panic!("expected a command"),
    }
}

#[test]
fn every_command_survives_the_round_trip() {
    let all = [
        Command::Start,
        Command::Clean,
        Command::Pause,
        Command::Stop,
        Command::Resume,
        Command::Dock,
        Command::Evac,
        Command::Train,
    ];
    for c in all {
        let m = Message::command_at(c, None, 1);
        let v: serde_json::Value = serde_json::from_str(&m.payload()).unwrap();
        let member = v.get("command").unwrap().to_string();
        assert_eq!(Command::from_json(&member), Some(c));
    }
}

#[test]
fn command_json_reading() {
    assert_eq!(Command::from_json("\"evac\""), Some(Command::Evac));
    assert_eq!(Command::from_json("\"st\\u0061rt\""), Some(Command::Start));
    assert_eq!(Command::from_json("\"fly\""), None);
    assert_eq!(Command::from_json("start"), None);
    assert_eq!(Command::from_tag("train"), Some(Command::Train));
    assert_eq!(Command::Resume.tag(), "resume");
}

#[test]
fn region_identifiers_are_numbers() {
    let r = Region::parse_id("42").unwrap();
    assert_eq!(r.region_id, "42");
    assert_eq!(r.type_, "rid");
    assert_eq!(Region::parse_id("+7").unwrap().region_id, "7");
    assert_eq!(Region::parse_id("007").unwrap().region_id, "7");
    assert_eq!(
        Region::parse_id("18446744073709551615").unwrap().region_id,
        "18446744073709551615"
    );
    assert!(Region::parse_id("18446744073709551616").is_err());
    assert!(Region::parse_id("").is_err());
    assert!(Region::parse_id("+").is_err());
    assert!(Region::parse_id("-1").is_err());
    assert!(Region::parse_id("kitchen").is_err());
    assert!(Region::parse_id("4 2").is_err());
    let parsed: Region = "9".parse().unwrap();
    assert_eq!(parsed.region_id, "9");
}

#[test]
fn region_constructors() {
    assert_eq!(Region::from_id(0).region_id, "0");
    assert_eq!(Region::from_id(7).to_json(), r#"{"region_id":"7","type":"rid"}"#);
}

#[test]
fn identity_from_vendor_prefixes() {
    assert_eq!(info("iRobot-ABC123", None).robot_id().unwrap(), "ABC123");
    assert_eq!(info("Roomba-X-Y", None).robot_id().unwrap(), "X-Y");
    assert_eq!(info("iRobot-", None).robot_id().unwrap(), "");
}

#[test]
fn identity_refused_for_other_hostnames() {
    assert_eq!(info("Braava-1", None).robot_id(), Err(ParseRobotIdError));
    assert_eq!(info("iRobot", None).robot_id(), Err(ParseRobotIdError));
    assert_eq!(info("irobot-1", None).robot_id(), Err(ParseRobotIdError));
    assert_eq!(info("", None).robot_id(), Err(ParseRobotIdError));
    assert_eq!(
        ParseRobotIdError.message(),
        "could not parse robot ID in hostname"
    );
}

#[test]
fn explicit_identifier_wins() {
    assert_eq!(info("Braava-1", Some("zzz")).robot_id().unwrap(), "zzz");
}

#[test]
fn operator_commands_map_to_wire_commands() {
    let (c, e) = cli::Command::Clean.into_command_with_extra("m", "v");
    assert!(matches!(c, Command::Clean));
    assert!(e.is_none());
    let regions = vec![Region::from_id(1), Region::from_id(2)];
    let (c, e) = cli::Command::StartRegions { ordered: true, regions }
        .into_command_with_extra("map", "ver");
    assert!(matches!(c, Command::Start));
    match e {
        Some(Extra::StartRegions(sr)) => {
            assert_eq!(sr.pmap_id, "map");
            assert_eq!(sr.user_pmapv_id, "ver");
            assert_eq!(sr.ordered, 1);
            assert_eq!(sr.regions.len(), 2);
            assert_eq!(sr.regions[1].region_id, "2");
        }
        None => panic!("expected a region selection"),
    }
    let (_, e) = cli::Command::StartRegions { ordered: false, regions: vec![] }
        .into_command_with_extra("map", "ver");
    match e {
        Some(Extra::StartRegions(sr)) => assert_eq!(sr.ordered, 0),
        None => panic!("expected a region selection"),
    }
}

#[test]
fn region_from_str_reads_numbers_only() {
    let r: Region = "12".parse().unwrap();
    assert_eq!(r.region_id, "12");
    assert_eq!(r.type_, "rid");
    assert!("kitchen".parse::<Region>().is_err());
    assert!("-1".parse::<Region>().is_err());
    assert!("".parse::<Region>().is_err());
}
