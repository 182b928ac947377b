use dockerust::docker_parse::Ports as ReportedPorts;
use dockerust::{ContainerInfo, ParseError, PortMapping, Ports};

fn binding(port: &str) -> PortMapping {
    PortMapping { ip: "0.0.0.0".to_string(), port: port.to_string() }
}

fn entry(key: &str, ports: Option<Vec<&str>>) -> (String, Option<Vec<PortMapping>>) {
    (key.to_string(), ports.map(|list| list.into_iter().map(binding).collect()))
}

#[test]
fn added_mapping_is_found() {
    let mut ports = Ports::default();
    ports.add_mapping(5432, 49155);
    assert_eq!(ports.map_to_host_port(5432), Some(49155));
}

#[test]
fn unregistered_port_is_absent() {
    let mut ports = Ports::default();
    assert_eq!(ports.map_to_host_port(80), None);
    ports.add_mapping(5432, 49155);
    assert_eq!(ports.map_to_host_port(5433), None);
}

#[test]
fn add_mapping_chains_and_replaces() {
    let mut ports = Ports::default();
    ports.add_mapping(80, 1).add_mapping(443, 2).add_mapping(80, 3);
    assert_eq!(ports.map_to_host_port(80), Some(3));
    assert_eq!(ports.map_to_host_port(443), Some(2));
}

#[test]
fn inspection_with_one_bound_and_one_unbound_port() {
    let info = ContainerInfo {
        id: "abc".to_string(),
        ports: ReportedPorts(vec![
            entry("5432/tcp", Some(vec!["49155"])),
            entry("5433/tcp", None),
        ]),
    };
    let ports = info.get_ports().unwrap();
    assert_eq!(ports.map_to_host_port(5432), Some(49155));
    assert_eq!(ports.map_to_host_port(5433), None);
}

#[test]
fn port_with_empty_binding_list_is_omitted() {
    let reported = ReportedPorts(vec![entry("8080/tcp", Some(vec![])), entry("80/tcp", None)]);
    let ports = reported.into_ports().unwrap();
    assert_eq!(ports.map_to_host_port(8080), None);
    assert_eq!(ports.map_to_host_port(80), None);
    assert_eq!(ports, Ports::default());
}

#[test]
fn unbound_port_is_not_parsed() {
    let reported = ReportedPorts(vec![entry("nonsense", None), entry("80/tcp", Some(vec!["1"]))]);
    let ports = reported.into_ports().unwrap();
    assert_eq!(ports.map_to_host_port(80), Some(1));
}

#[test]
fn first_binding_of_several_counts() {
    let reported = ReportedPorts(vec![entry("80/tcp", Some(vec!["32768", "32769"]))]);
    let ports = reported.into_ports().unwrap();
    assert_eq!(ports.map_to_host_port(80), Some(32768));
}

#[test]
fn first_report_of_an_internal_port_stands() {
    let reported = ReportedPorts(vec![
        entry("53/tcp", Some(vec!["1000"])),
        entry("53/udp", Some(vec!["2000"])),
    ]);
    let ports = reported.into_ports().unwrap();
    assert_eq!(ports.map_to_host_port(53), Some(1000));
}

#[test]
fn key_without_protocol_is_a_port() {
    let reported = ReportedPorts(vec![entry("8080", Some(vec!["9090"]))]);
    let ports = reported.into_ports().unwrap();
    assert_eq!(ports.map_to_host_port(8080), Some(9090));
}

#[test]
fn malformed_internal_port_is_a_fault() {
    let reported = ReportedPorts(vec![entry("http/tcp", Some(vec!["80"]))]);
    assert_eq!(
        reported.into_ports(),
        Err(ParseError::InvalidPort { text: "http".to_string() })
    );
}

#[test]
fn malformed_host_port_is_a_fault() {
    let reported = ReportedPorts(vec![
        entry("80/tcp", Some(vec!["8080"])),
        entry("81/tcp", Some(vec!["70000"])),
        entry("x/tcp", Some(vec!["1"])),
    ]);
    assert_eq!(
        reported.into_ports(),
        Err(ParseError::InvalidPort { text: "70000".to_string() })
    );
}

#[test]
fn parse_port_reads_decimal_ports() {
    assert_eq!(ReportedPorts::parse_port("5432"), Ok(5432));
    assert_eq!(ReportedPorts::parse_port("0"), Ok(0));
    assert_eq!(
        ReportedPorts::parse_port(""),
        Err(ParseError::InvalidPort { text: "".to_string() })
    );
    assert_eq!(
        ReportedPorts::parse_port("65536"),
        Err(ParseError::InvalidPort { text: "65536".to_string() })
    );
}

#[test]
fn port_of_key_cuts_at_first_slash() {
    assert_eq!(ReportedPorts::port_of_key("5432/tcp"), "5432");
    assert_eq!(ReportedPorts::port_of_key("5432"), "5432");
    assert_eq!(ReportedPorts::port_of_key("/tcp"), "");
    assert_eq!(ReportedPorts::port_of_key("1/2/3"), "1");
    assert_eq!(ReportedPorts::port_of_key(""), "");
    assert_eq!(ReportedPorts::port_of_key("\u{e9}\u{e9}/x"), "\u{e9}\u{e9}");
}

#[test]
fn single_takes_exactly_one_description() {
    let info = ContainerInfo { id: "abc".to_string(), ports: ReportedPorts(vec![]) };
    assert_eq!(ContainerInfo::single(vec![info.clone()]), Ok(info.clone()));
    assert_eq!(
        ContainerInfo::single(vec![]),
        Err(ParseError::NotOneContainer { found: 0 })
    );
    assert_eq!(
        ContainerInfo::single(vec![info.clone(), info]),
        Err(ParseError::NotOneContainer { found: 2 })
    );
}
