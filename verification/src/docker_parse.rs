//! What the engine reports of a container, and the port table that is read
//! from it.

use crate::commands::Ports as DockerPorts;
use crate::errors::{ParseError, ParseFault};
use crate::text::{chars_of, number_u16, parse_u16};
use vstd::prelude::*;
use vstd::string::{StrSliceExecFns, StringExecFns};

verus! {

/// One host binding of an internal port, as the engine reports it.
#[derive(Debug, Clone, PartialEq, Eq)]
pub struct PortMapping {
    /// The host address that the port is bound on.
    pub ip: String,
    /// The host port, in decimal.
    pub port: String,
}

/// The reported ports in the order of the report: each is a key made of the
/// internal port, a slash and the protocol, with its host bindings, if any.
#[derive(Debug, Clone, PartialEq, Eq)]
pub struct Ports(pub Vec<(String, Option<Vec<PortMapping>>)>);

/// The engine's description of one container.
#[derive(Debug, Clone, PartialEq, Eq)]
pub struct ContainerInfo {
    /// The container's identifier.
    pub id: String,
    /// Its reported ports.
    pub ports: Ports,
}

/// Where the port number of `key` ends: at the first slash at or after
/// `from`, or at the end of the key.
pub open spec fn port_end(key: Seq<char>, from: int) -> int
    decreases key.len() - from,
{
    if from < 0 || from >= key.len() || key[from] == '/' {
        from
    } else {
        port_end(key, from + 1)
    }
}

/// The port number's text in a key: what stands before the first slash.
pub open spec fn port_part(key: Seq<char>) -> Seq<char> {
    key.take(port_end(key, 0))
}

/// The host port's text of the first binding, if there is a binding.
pub open spec fn first_host(bindings: Option<Vec<PortMapping>>) -> Option<Seq<char>> {
    match bindings {
        Some(list) => if list@.len() > 0 {
            Some(list@[0].port@)
        } else {
            None
        },
        None => None,
    }
}

/// What one reported port says.
pub enum Reported {
    /// The port has no host binding.
    Unbound,
    /// The port is bound to a host port.
    Bound { internal: u16, host: u16 },
    /// This text should be a port number and is none.
    Invalid(Seq<char>),
}

/// What the reported port `key` with `bindings` says. A port without a host
/// binding is not looked at further; of several bindings the first counts.
pub open spec fn read_entry(key: Seq<char>, bindings: Option<Vec<PortMapping>>) -> Reported {
    match first_host(bindings) {
        None => Reported::Unbound,
        Some(host) => match number_u16(port_part(key)) {
            None => Reported::Invalid(port_part(key)),
            Some(internal) => match number_u16(host) {
                None => Reported::Invalid(host),
                Some(host) => Reported::Bound { internal, host },
            },
        },
    }
}

/// The port table that the first `n` reported ports give: each bound port
/// maps to its host port, the first report of an internal port stands, and
/// the first text that is no port number is the fault.
pub open spec fn project(entries: Seq<(String, Option<Vec<PortMapping>>)>, n: int) -> Result<
    Map<u16, u16>,
    ParseFault,
>
    decreases n,
{
    if n <= 0 {
        Ok(Map::empty())
    } else {
        match project(entries, n - 1) {
            Err(fault) => Err(fault),
            Ok(table) => match read_entry(entries[n - 1].0@, entries[n - 1].1) {
                Reported::Unbound => Ok(table),
                Reported::Invalid(text) => Err(ParseFault::InvalidPort { text }),
                Reported::Bound { internal, host } => if table.contains_key(internal) {
                    Ok(table)
                } else {
                    Ok(table.insert(internal, host))
                },
            },
        }
    }
}

/// A fault among the first `n` reported ports is the fault of every longer
/// run of them.
proof fn lemma_fault_stands(entries: Seq<(String, Option<Vec<PortMapping>>)>, n: int, m: int)
    requires
        n <= m,
        project(entries, n) is Err,
    ensures
        project(entries, m) == project(entries, n),
    decreases m - n,
{
    if n < m {
        lemma_fault_stands(entries, n, m - 1);
    }
}

/// Mathematical model of the result of reading a port table.
pub open spec fn table_view(result: Result<DockerPorts, ParseError>) -> Result<
    Map<u16, u16>,
    ParseFault,
> {
    match result {
        Ok(ports) => Ok(ports@),
        Err(e) => Err(e@),
    }
}

impl Ports {
    /// Reads `port` as a port number.
    pub fn parse_port(port: &str) -> (number: Result<u16, ParseError>)
        ensures
            match number_u16(port@) {
                Some(n) => number == Ok::<u16, ParseError>(n),
                None => number is Err && number->Err_0@ == (ParseFault::InvalidPort {
                    text: port@,
                }),
            },
    {
        let chars = chars_of(port);
        match parse_u16(&chars) {
            Some(n) => Ok(n),
            None => Err(ParseError::InvalidPort { text: String::from_str(port) }),
        }
    }

    /// The text before the first slash of `key`.
    pub fn port_of_key(key: &str) -> (part: &str)
        ensures
            part@ == port_part(key@),
    {
        let chars = chars_of(key);
        let mut end: usize = 0;
        while end < chars.len() && chars[end] != '/'
            invariant
                end <= chars.len(),
                chars@ == key@,
                port_end(key@, 0) == port_end(key@, end as int),
            decreases chars.len() - end,
        {
            end += 1;
        }
        key.substring_char(0, end)
    }

    /// Builds the port table from the reported ports.
    pub fn into_ports(self) -> (table: Result<DockerPorts, ParseError>)
        ensures
            table_view(table) == project(self.0@, self.0@.len() as int),
    {
        let mut ports = DockerPorts::default();
        let mut at: usize = 0;
        while at < self.0.len()
            invariant
                at <= self.0.len(),
                project(self.0@, at as int) == Ok::<Map<u16, u16>, ParseFault>(ports@),
            decreases self.0.len() - at,
        {
            let entry = &self.0[at];
            let host_text: Option<&String> = match &entry.1 {
                Some(list) => if list.len() > 0 {
                    Some(&list[0].port)
                } else {
                    None
                },
                None => None,
            };
            match host_text {
                None => {},
                Some(host_text) => {
                    let internal = match Self::parse_port(Self::port_of_key(entry.0.as_str())) {
                        Ok(n) => n,
                        Err(e) => {
                            proof {
                                lemma_fault_stands(self.0@, at + 1, self.0@.len() as int);
                            }
                            return Err(e);
                        },
                    };
                    let host = match Self::parse_port(host_text.as_str()) {
                        Ok(n) => n,
                        Err(e) => {
                            proof {
                                lemma_fault_stands(self.0@, at + 1, self.0@.len() as int);
                            }
                            return Err(e);
                        },
                    };
                    if ports.map_to_host_port(internal).is_none() {
                        ports.add_mapping(internal, host);
                    }
                },
            }
            at += 1;
        }
        Ok(ports)
    }
}

impl ContainerInfo {
    /// The one description of a response to an inspection of one container.
    /// A response that describes no container, or more than one, is refused.
    pub fn single(mut infos: Vec<ContainerInfo>) -> (info: Result<ContainerInfo, ParseError>)
        ensures
            infos@.len() == 1 ==> info == Ok::<ContainerInfo, ParseError>(infos@[0]),
            infos@.len() != 1 ==> info is Err && info->Err_0@ == (ParseFault::NotOneContainer {
                found: infos@.len(),
            }),
    {
        let found: usize = infos.len();
        if found != 1 {
            return Err(ParseError::NotOneContainer { found });
        }
        match infos.pop() {
            Some(info) => Ok(info),
            None => Err(ParseError::NotOneContainer { found }),
        }
    }

    /// The port table of this container.
    pub fn get_ports(self) -> (table: Result<DockerPorts, ParseError>)
        ensures
            table_view(table) == project(self.ports.0@, self.ports.0@.len() as int),
    {
        self.ports.into_ports()
    }
}

/// Whether reported port `i` binds the internal port `port` to `host`.
pub open spec fn binds(
    entries: Seq<(String, Option<Vec<PortMapping>>)>,
    i: int,
    port: u16,
    host: u16,
) -> bool {
    &&& 0 <= i < entries.len()
    &&& read_entry(entries[i].0@, entries[i].1) == (Reported::Bound { internal: port, host })
}

/// Whether reported port `i` is the first that binds the internal port
/// `port`, and binds it to `host`.
pub open spec fn binds_first(
    entries: Seq<(String, Option<Vec<PortMapping>>)>,
    i: int,
    port: u16,
    host: u16,
) -> bool {
    &&& binds(entries, i, port, host)
    &&& forall|j: int, other: u16| 0 <= j < i ==> !#[trigger] binds(entries, j, port, other)
}

/// A port table that was read without a fault answers `host` for `port`
/// exactly when the first reported port that binds `port` binds it to `host`.
pub proof fn law_table_holds_first_binding(
    entries: Seq<(String, Option<Vec<PortMapping>>)>,
    n: int,
    port: u16,
    host: u16,
)
    requires
        0 <= n <= entries.len(),
        project(entries, n) is Ok,
    ensures
        project(entries, n)->Ok_0.contains_pair(port, host) <==> exists|i: int|
            0 <= i < n && binds_first(entries, i, port, host),
    decreases n,
{
    if n > 0 {
        let before = project(entries, n - 1)->Ok_0;
        let after = project(entries, n)->Ok_0;
        law_table_holds_first_binding(entries, n - 1, port, host);
        if before.contains_key(port) {
            let first = before[port];
            law_table_holds_first_binding(entries, n - 1, port, first);
            let i = choose|i: int| 0 <= i < n - 1 && binds_first(entries, i, port, first);
            assert(binds(entries, i, port, first));
            assert(after.contains_pair(port, first));
            if binds_first(entries, n - 1, port, host) { }
        } else {
            assert forall|j: int, other: u16| 0 <= j < n - 1 implies !#[trigger] binds(
                entries,
                j,
                port,
                other,
            ) by {
                if binds(entries, j, port, other) {
                    lemma_bound_is_held(entries, n - 1, j, port, other);
                }
            }
            if after.contains_pair(port, host) {
                assert(binds_first(entries, n - 1, port, host));
            }
            if exists|i: int| 0 <= i < n && binds_first(entries, i, port, host) {
                let i = choose|i: int| 0 <= i < n && binds_first(entries, i, port, host);
                assert(i == n - 1);
            }
        }
    }
}

/// A port that some reported port binds is in the table.
proof fn lemma_bound_is_held(
    entries: Seq<(String, Option<Vec<PortMapping>>)>,
    n: int,
    i: int,
    port: u16,
    host: u16,
)
    requires
        0 <= i < n <= entries.len(),
        project(entries, n) is Ok,
        binds(entries, i, port, host),
    ensures
        project(entries, n)->Ok_0.contains_key(port),
    decreases n,
{
    if i < n - 1 {
        lemma_bound_is_held(entries, n - 1, i, port, host);
    }
}

/// A port that is reported without a host binding, and bound by no other
/// report, is not in the table.
pub proof fn law_unbound_port_is_omitted(
    entries: Seq<(String, Option<Vec<PortMapping>>)>,
    port: u16,
)
    requires
        project(entries, entries.len() as int) is Ok,
        forall|i: int|
            0 <= i < entries.len() && number_u16(port_part(#[trigger] entries[i].0@)) == Some(port)
                ==> first_host(entries[i].1) is None,
    ensures
        !project(entries, entries.len() as int)->Ok_0.contains_key(port),
{
    let table = project(entries, entries.len() as int)->Ok_0;
    if table.contains_key(port) {
        let host = table[port];
        law_table_holds_first_binding(entries, entries.len() as int, port, host);
        let i = choose|i: int| 0 <= i < entries.len() && binds_first(entries, i, port, host);
        assert(binds(entries, i, port, host));
        assert(number_u16(port_part(entries[i].0@)) == Some(port));
    }
}

} // verus!
