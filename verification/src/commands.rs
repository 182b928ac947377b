//! The port table, and the argument lists that the engine is invoked with.

use crate::image::{Image, StreamType};
use crate::string_map::StringMap;
use crate::text::strings_view;
use std::collections::HashMap;
use vstd::prelude::*;
use vstd::string::{StrSliceExecFns, StringExecFns};

verus! {

broadcast use vstd::std_specs::hash::group_hash_axioms;

/// The host port that `table` answers for `internal`, if it has one.
pub open spec fn lookup(table: Map<u16, u16>, internal: u16) -> Option<u16> {
    if table.contains_key(internal) {
        Some(table[internal])
    } else {
        None
    }
}

/// The exposed ports of a running container: internal port to host port.
#[derive(Debug, PartialEq)]
pub struct Ports {
    mapping: HashMap<u16, u16>,
}

impl View for Ports {
    type V = Map<u16, u16>;

    closed spec fn view(&self) -> Map<u16, u16> {
        self.mapping@
    }
}

impl Default for Ports {
    /// The table without any port.
    fn default() -> (ports: Ports)
        ensures
            ports@ == Map::<u16, u16>::empty(),
    {
        Ports { mapping: HashMap::new() }
    }
}

impl Ports {
    /// Registers the mapping of an exposed port. A port that was registered
    /// before answers the new host port from now on.
    pub fn add_mapping(&mut self, internal: u16, host: u16) -> (ports: &mut Self)
        ensures
            ports@ == old(self)@.insert(internal, host),
            *final(self) == *final(ports),
    {
        self.mapping.insert(internal, host);
        self
    }

    /// Returns the host port for the given internal port; a port that was
    /// never registered is not published to the host.
    pub fn map_to_host_port(&self, internal_port: u16) -> (host: Option<u16>)
        ensures
            host == lookup(self@, internal_port),
    {
        match self.mapping.get(&internal_port) {
            Some(host) => Some(*host),
            None => None,
        }
    }
}

/// A key and its value as the engine takes them: joined by an equals sign.
pub open spec fn assignment(pair: (Seq<char>, Seq<char>)) -> Seq<char> {
    pair.0 + seq!['='] + pair.1
}

/// The words that set the environment variables: `-e` and an assignment for
/// each, in their order.
pub open spec fn env_words(env_vars: Seq<(Seq<char>, Seq<char>)>) -> Seq<Seq<char>>
    decreases env_vars.len(),
{
    if env_vars.len() == 0 {
        Seq::empty()
    } else {
        env_words(env_vars.drop_last()) + seq!["-e"@, assignment(env_vars.last())]
    }
}

/// The options of one mount in one word: the assignments in their order,
/// with commas between them.
pub open spec fn mount_word(options: Seq<(Seq<char>, Seq<char>)>) -> Seq<char>
    decreases options.len(),
{
    if options.len() == 0 {
        Seq::empty()
    } else if options.len() == 1 {
        assignment(options[0])
    } else {
        mount_word(options.drop_last()) + seq![','] + assignment(options.last())
    }
}

/// The words that set the mounts: `--mount` and the options for each, in
/// their order.
pub open spec fn mount_words(mounts: Seq<Seq<(Seq<char>, Seq<char>)>>) -> Seq<Seq<char>>
    decreases mounts.len(),
{
    if mounts.len() == 0 {
        Seq::empty()
    } else {
        mount_words(mounts.drop_last()) + seq!["--mount"@, mount_word(mounts.last())]
    }
}

/// The words that set the network, if there is one.
pub open spec fn network_words(network: Option<Seq<char>>) -> Seq<Seq<char>> {
    match network {
        Some(name) => seq!["--network"@, name],
        None => Seq::empty(),
    }
}

/// The words that the engine is started with to run a container: the verb,
/// the environment, the mounts, the network, then detached and with all
/// ports published, the descriptor, and the image's own arguments.
pub open spec fn run_words(
    env_vars: Seq<(Seq<char>, Seq<char>)>,
    mounts: Seq<Seq<(Seq<char>, Seq<char>)>>,
    network: Option<Seq<char>>,
    descriptor: Seq<char>,
    args: Seq<Seq<char>>,
) -> Seq<Seq<char>> {
    seq!["run"@] + env_words(env_vars) + mount_words(mounts) + network_words(network) + seq![
        "-d"@,
        "-P"@,
        descriptor,
    ] + args
}

/// The words to follow a container's log.
pub open spec fn logs_words(container_id: Seq<char>) -> Seq<Seq<char>> {
    seq!["logs"@, "-f"@, container_id]
}

/// The words to have a container described.
pub open spec fn inspect_words(container_id: Seq<char>) -> Seq<Seq<char>> {
    seq!["inspect"@, container_id]
}

/// The words to remove a container by force, with its volumes.
pub open spec fn rm_words(container_id: Seq<char>) -> Seq<Seq<char>> {
    seq!["rm"@, "-f"@, "-v"@, container_id]
}

/// The words to stop a container.
pub open spec fn stop_words(container_id: Seq<char>) -> Seq<Seq<char>> {
    seq!["stop"@, container_id]
}

/// Puts `word` after the words of `words`.
fn push_word(words: &mut Vec<String>, word: String)
    ensures
        strings_view(final(words)@) == strings_view(old(words)@).push(word@),
{
    words.push(word);
    assert(strings_view(words@) =~= strings_view(old(words)@).push(word@));
}

/// The key and the value of `pair`, joined by an equals sign.
fn assignment_word(pair: &(String, String)) -> (word: String)
    ensures
        word@ == assignment((pair.0@, pair.1@)),
{
    proof {
        reveal_strlit("=");
    }
    let mut word = pair.0.clone();
    word.append("=");
    word.append(pair.1.as_str());
    assert(word@ =~= assignment((pair.0@, pair.1@)));
    word
}

/// The options of one mount in one word.
fn mount_option_word(options: &StringMap) -> (word: String)
    ensures
        word@ == mount_word(options@),
{
    proof {
        reveal_strlit(",");
    }
    let entries = options.entries();
    let mut word = String::new();
    let mut at: usize = 0;
    while at < entries.len()
        invariant
            at <= entries.len(),
            crate::string_map::pairs_view(entries@) == options@,
            word@ == mount_word(options@.take(at as int)),
            ","@ == seq![','],
        decreases entries.len() - at,
    {
        let ghost read = options@.take(at + 1);
        proof {
            assert(read.drop_last() =~= options@.take(at as int));
            assert(read.last() == (entries@[at as int].0@, entries@[at as int].1@));
        }
        if at > 0 {
            word.append(",");
        }
        let next = assignment_word(&entries[at]);
        word.append(next.as_str());
        assert(word@ =~= mount_word(read));
        at += 1;
    }
    assert(options@.take(at as int) =~= options@);
    word
}

/// The arguments that the engine is started with to run a container of
/// `image`.
pub fn run_arguments<I: Image>(image: &I) -> (arguments: Vec<String>)
    ensures
        strings_view(arguments@) == run_words(
            image.env_vars_view(),
            image.mounts_view(),
            image.network_view(),
            image.descriptor_view(),
            image.args_view(),
        ),
{
    let mut words: Vec<String> = Vec::new();
    push_word(&mut words, String::from_str("run"));
    let env_vars = image.env_vars();
    let entries = env_vars.entries();
    let mut at: usize = 0;
    while at < entries.len()
        invariant
            at <= entries.len(),
            crate::string_map::pairs_view(entries@) == env_vars@,
            strings_view(words@) == seq!["run"@] + env_words(env_vars@.take(at as int)),
        decreases entries.len() - at,
    {
        let ghost read = env_vars@.take(at + 1);
        let ghost before = strings_view(words@);
        proof {
            assert(read.drop_last() =~= env_vars@.take(at as int));
            assert(read.last() == (entries@[at as int].0@, entries@[at as int].1@));
        }
        push_word(&mut words, String::from_str("-e"));
        push_word(&mut words, assignment_word(&entries[at]));
        assert(strings_view(words@) =~= seq!["run"@] + env_words(read));
        at += 1;
    }
    assert(env_vars@.take(at as int) =~= env_vars@);
    let ghost head = seq!["run"@] + env_words(image.env_vars_view());
    let mounts = image.mounts();
    let mut at: usize = 0;
    while at < mounts.len()
        invariant
            at <= mounts.len(),
            crate::image::maps_view(mounts@) == image.mounts_view(),
            strings_view(words@) == head + mount_words(image.mounts_view().take(at as int)),
        decreases mounts.len() - at,
    {
        let ghost read = image.mounts_view().take(at + 1);
        proof {
            assert(read.drop_last() =~= image.mounts_view().take(at as int));
            assert(read.last() == mounts@[at as int]@);
        }
        push_word(&mut words, String::from_str("--mount"));
        push_word(&mut words, mount_option_word(&mounts[at]));
        assert(strings_view(words@) =~= head + mount_words(read));
        at += 1;
    }
    assert(image.mounts_view().take(at as int) =~= image.mounts_view());
    let ghost head = head + mount_words(image.mounts_view());
    match image.network() {
        Some(name) => {
            push_word(&mut words, String::from_str("--network"));
            push_word(&mut words, name);
        },
        None => {},
    }
    assert(strings_view(words@) =~= head + network_words(image.network_view()));
    let ghost head = head + network_words(image.network_view());
    push_word(&mut words, String::from_str("-d"));
    push_word(&mut words, String::from_str("-P"));
    push_word(&mut words, image.descriptor());
    let ghost head = head + seq!["-d"@, "-P"@, image.descriptor_view()];
    assert(strings_view(words@) =~= head);
    let args = image.args();
    let mut at: usize = 0;
    while at < args.len()
        invariant
            at <= args.len(),
            strings_view(args@) == image.args_view(),
            strings_view(words@) == head + image.args_view().take(at as int),
        decreases args.len() - at,
    {
        push_word(&mut words, args[at].clone());
        assert(strings_view(words@) =~= head + image.args_view().take(at + 1));
        at += 1;
    }
    assert(image.args_view().take(at as int) =~= image.args_view());
    words
}

/// The arguments that the engine is started with to follow the log of the
/// container `container_id`.
pub fn logs_arguments(container_id: &str) -> (arguments: Vec<String>)
    ensures
        strings_view(arguments@) == logs_words(container_id@),
{
    let mut words: Vec<String> = Vec::new();
    push_word(&mut words, String::from_str("logs"));
    push_word(&mut words, String::from_str("-f"));
    push_word(&mut words, String::from_str(container_id));
    assert(strings_view(words@) =~= logs_words(container_id@));
    words
}

/// The arguments that the engine is started with to describe the container
/// `container_id`.
pub fn inspect_arguments(container_id: &str) -> (arguments: Vec<String>)
    ensures
        strings_view(arguments@) == inspect_words(container_id@),
{
    let mut words: Vec<String> = Vec::new();
    push_word(&mut words, String::from_str("inspect"));
    push_word(&mut words, String::from_str(container_id));
    assert(strings_view(words@) =~= inspect_words(container_id@));
    words
}

/// The arguments that the engine is started with to remove the container
/// `container_id` by force, with its volumes.
pub fn rm_arguments(container_id: &str) -> (arguments: Vec<String>)
    ensures
        strings_view(arguments@) == rm_words(container_id@),
{
    let mut words: Vec<String> = Vec::new();
    push_word(&mut words, String::from_str("rm"));
    push_word(&mut words, String::from_str("-f"));
    push_word(&mut words, String::from_str("-v"));
    push_word(&mut words, String::from_str(container_id));
    assert(strings_view(words@) =~= rm_words(container_id@));
    words
}

/// The arguments that the engine is started with to stop the container
/// `container_id`.
pub fn stop_arguments(container_id: &str) -> (arguments: Vec<String>)
    ensures
        strings_view(arguments@) == stop_words(container_id@),
{
    let mut words: Vec<String> = Vec::new();
    push_word(&mut words, String::from_str("stop"));
    push_word(&mut words, String::from_str(container_id));
    assert(strings_view(words@) =~= stop_words(container_id@));
    words
}

/// The name of a stream as it stands before a tailed line.
pub open spec fn stream_name(stream: StreamType) -> Seq<char> {
    match stream {
        StreamType::StdOut => "stdout"@,
        StreamType::StdErr => "stderr"@,
    }
}

/// The first six characters of an identifier, or all of a shorter one.
pub open spec fn short_id(container_id: Seq<char>) -> Seq<char> {
    if container_id.len() > 6 {
        container_id.take(6)
    } else {
        container_id
    }
}

/// A tailed line as it is shown: the stream, the short identifier, the line.
pub open spec fn tail_text(stream: StreamType, container_id: Seq<char>, line: Seq<char>) -> Seq<
    char,
> {
    stream_name(stream) + seq![':'] + short_id(container_id) + seq![' ', '>', ' '] + line
}

/// The text that shows `line` of the log of `container_id` on `stream`.
pub fn tail_line(stream: StreamType, container_id: &str, line: &str) -> (text: String)
    ensures
        text@ == tail_text(stream, container_id@, line@),
{
    proof {
        reveal_strlit(":");
        reveal_strlit(" > ");
    }
    let mut text = match stream {
        StreamType::StdOut => String::from_str("stdout"),
        StreamType::StdErr => String::from_str("stderr"),
    };
    let length = container_id.unicode_len();
    let short = if length > 6 {
        container_id.substring_char(0, 6)
    } else {
        container_id
    };
    assert(short@ =~= short_id(container_id@));
    text.append(":");
    text.append(short);
    text.append(" > ");
    text.append(line);
    assert(text@ =~= tail_text(stream, container_id@, line@));
    text
}

/// A port answers the host port that it was last registered with, whatever
/// the table held before; registering it changes the answer for no other
/// port; and the empty table answers for none.
pub proof fn law_lookup_follows_registration(
    table: Map<u16, u16>,
    internal: u16,
    host: u16,
    other: u16,
)
    ensures
        lookup(table.insert(internal, host), internal) == Some(host),
        other != internal ==> lookup(table.insert(internal, host), other) == lookup(table, other),
        lookup(Map::<u16, u16>::empty(), other) is None,
{
}

} // verus!
