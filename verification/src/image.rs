//! What a container is made from: the image, and what tells that a
//! container made from it is ready.

use crate::string_map::{put, StringMap};
use crate::text::clone_strings;
use vstd::prelude::*;
use vstd::string::StringExecFns;

verus! {

/// The stream of a container's log that a message is looked for in.
#[derive(Debug, PartialEq, Eq, Clone, Copy, Structural)]
pub enum StreamType {
    StdOut,
    StdErr,
}

/// What tells that a container is ready for use.
#[derive(Debug, PartialEq, Eq)]
pub enum WaitFor {
    /// Nothing: the container is ready as soon as it has its identifier.
    Nothing,
    /// A line of the log that contains `message`, on the stream
    /// `stream_type`, within `wait_duration` seconds.
    LogMessage { message: String, stream_type: StreamType, wait_duration: u64 },
}

/// Mathematical model of a [`WaitFor`].
pub enum Readiness {
    Nothing,
    LogMessage { message: Seq<char>, stream_type: StreamType, wait_duration: u64 },
}

impl View for WaitFor {
    type V = Readiness;

    open spec fn view(&self) -> Readiness {
        match self {
            WaitFor::Nothing => Readiness::Nothing,
            WaitFor::LogMessage { message, stream_type, wait_duration } => Readiness::LogMessage {
                message: message@,
                stream_type: *stream_type,
                wait_duration: *wait_duration,
            },
        }
    }
}

impl Clone for WaitFor {
    fn clone(&self) -> (copy: Self)
        ensures
            copy@ == self@,
    {
        match self {
            WaitFor::Nothing => WaitFor::Nothing,
            WaitFor::LogMessage { message, stream_type, wait_duration } => WaitFor::LogMessage {
                message: message.clone(),
                stream_type: *stream_type,
                wait_duration: *wait_duration,
            },
        }
    }
}

impl WaitFor {
    /// Readiness by a message on standard output, within `wait_duration`
    /// seconds.
    pub fn message_on_stdout(message: &str, wait_duration: u64) -> (wait_for: WaitFor)
        ensures
            wait_for@ == (Readiness::LogMessage {
                message: message@,
                stream_type: StreamType::StdOut,
                wait_duration,
            }),
    {
        WaitFor::LogMessage {
            message: String::from_str(message),
            stream_type: StreamType::StdOut,
            wait_duration,
        }
    }

    /// Readiness by a message on standard error, within `wait_duration`
    /// seconds.
    pub fn message_on_stderr(message: &str, wait_duration: u64) -> (wait_for: WaitFor)
        ensures
            wait_for@ == (Readiness::LogMessage {
                message: message@,
                stream_type: StreamType::StdErr,
                wait_duration,
            }),
    {
        WaitFor::LogMessage {
            message: String::from_str(message),
            stream_type: StreamType::StdErr,
            wait_duration,
        }
    }
}

/// The models of a run of maps.
pub open spec fn maps_view(maps: Seq<StringMap>) -> Seq<Seq<(Seq<char>, Seq<char>)>> {
    maps.map_values(|m: StringMap| m@)
}

/// The model of a text that may be missing.
pub open spec fn optional_view(text: Option<String>) -> Option<Seq<char>> {
    match text {
        Some(text) => Some(text@),
        None => None,
    }
}

/// A container image: what the engine is asked to run, and how.
///
/// Each property has a model, and the method that reads the property gives a
/// value with that model.
pub trait Image: Sized + Clone + Default {
    /// Model of [`Image::descriptor`].
    spec fn descriptor_view(&self) -> Seq<char>;

    /// Model of [`Image::wait_for`].
    spec fn wait_for_view(&self) -> Readiness;

    /// Model of [`Image::env_vars`].
    spec fn env_vars_view(&self) -> Seq<(Seq<char>, Seq<char>)>;

    /// Model of [`Image::args`].
    spec fn args_view(&self) -> Seq<Seq<char>>;

    /// Model of [`Image::mounts`].
    spec fn mounts_view(&self) -> Seq<Seq<(Seq<char>, Seq<char>)>>;

    /// Model of [`Image::network`].
    spec fn network_view(&self) -> Option<Seq<char>>;

    /// The reference by which the engine finds the image.
    fn descriptor(&self) -> (descriptor: String)
        ensures
            descriptor@ == self.descriptor_view(),
    ;

    /// What tells that a container of this image is ready.
    fn wait_for(&self) -> (wait_for: WaitFor)
        ensures
            wait_for@ == self.wait_for_view(),
    ;

    /// The environment variables of the container.
    fn env_vars(&self) -> (env_vars: StringMap)
        ensures
            env_vars@ == self.env_vars_view(),
    ;

    /// The arguments that follow the descriptor.
    fn args(&self) -> (args: Vec<String>)
        ensures
            crate::text::strings_view(args@) == self.args_view(),
    ;

    /// The mounts of the container, each a map of mount options.
    fn mounts(&self) -> (mounts: Vec<StringMap>)
        ensures
            maps_view(mounts@) == self.mounts_view(),
    ;

    /// The network that the container joins, if any.
    fn network(&self) -> (network: Option<String>)
        ensures
            optional_view(network) == self.network_view(),
    ;

    /// This image with `args` for its arguments.
    fn with_args(self, args: Vec<String>) -> (image: Self)
        ensures
            image.args_view() == crate::text::strings_view(args@),
            image.descriptor_view() == self.descriptor_view(),
            image.wait_for_view() == self.wait_for_view(),
            image.env_vars_view() == self.env_vars_view(),
            image.mounts_view() == self.mounts_view(),
            image.network_view() == self.network_view(),
    ;
}

/// An image that is described by its parts.
#[derive(Debug)]
pub struct GenericImage {
    descriptor: String,
    env_vars: StringMap,
    args: Vec<String>,
    mounts: Vec<StringMap>,
    network: Option<String>,
    wait_for: WaitFor,
}

/// Mathematical model of a [`GenericImage`].
pub struct ImageParts {
    pub descriptor: Seq<char>,
    pub env_vars: Seq<(Seq<char>, Seq<char>)>,
    pub args: Seq<Seq<char>>,
    pub mounts: Seq<Seq<(Seq<char>, Seq<char>)>>,
    pub network: Option<Seq<char>>,
    pub wait_for: Readiness,
}

/// The parts of an image that has only a descriptor.
pub open spec fn bare(descriptor: Seq<char>) -> ImageParts {
    ImageParts {
        descriptor,
        env_vars: Seq::empty(),
        args: Seq::empty(),
        mounts: Seq::empty(),
        network: None,
        wait_for: Readiness::Nothing,
    }
}

impl View for GenericImage {
    type V = ImageParts;

    closed spec fn view(&self) -> ImageParts {
        ImageParts {
            descriptor: self.descriptor@,
            env_vars: self.env_vars@,
            args: crate::text::strings_view(self.args@),
            mounts: maps_view(self.mounts@),
            network: optional_view(self.network),
            wait_for: self.wait_for@,
        }
    }
}

/// A copy of `maps`.
pub fn clone_maps(maps: &Vec<StringMap>) -> (copy: Vec<StringMap>)
    ensures
        maps_view(copy@) == maps_view(maps@),
{
    let mut copy: Vec<StringMap> = Vec::new();
    let mut at: usize = 0;
    while at < maps.len()
        invariant
            at <= maps.len(),
            copy.len() == at,
            forall|i: int| 0 <= i < at ==> (#[trigger] copy@[i])@ == maps@[i]@,
        decreases maps.len() - at,
    {
        copy.push(maps[at].clone());
        at += 1;
    }
    assert(maps_view(copy@) =~= maps_view(maps@));
    copy
}

/// A copy of a text that may be missing.
pub fn clone_optional(text: &Option<String>) -> (copy: Option<String>)
    ensures
        copy == *text,
{
    match text {
        Some(text) => Some(text.clone()),
        None => None,
    }
}

impl Default for GenericImage {
    /// The image with an empty descriptor and nothing else.
    fn default() -> (image: GenericImage)
        ensures
            image@ == bare(Seq::empty()),
    {
        let image = GenericImage {
            descriptor: String::new(),
            env_vars: StringMap::new(),
            args: Vec::new(),
            mounts: Vec::new(),
            network: None,
            wait_for: WaitFor::Nothing,
        };
        assert(image@.args =~= Seq::empty());
        assert(image@.mounts =~= Seq::empty());
        image
    }
}

impl Clone for GenericImage {
    fn clone(&self) -> (copy: Self)
        ensures
            copy@ == self@,
    {
        GenericImage {
            descriptor: self.descriptor.clone(),
            env_vars: self.env_vars.clone(),
            args: clone_strings(&self.args),
            mounts: clone_maps(&self.mounts),
            network: clone_optional(&self.network),
            wait_for: self.wait_for.clone(),
        }
    }
}

impl GenericImage {
    /// The image with the given descriptor and nothing else.
    pub fn new(descriptor: &str) -> (image: GenericImage)
        ensures
            image@ == bare(descriptor@),
    {
        let image = GenericImage {
            descriptor: String::from_str(descriptor),
            env_vars: StringMap::new(),
            args: Vec::new(),
            mounts: Vec::new(),
            network: None,
            wait_for: WaitFor::Nothing,
        };
        assert(image@.args =~= Seq::empty());
        assert(image@.mounts =~= Seq::empty());
        image
    }

    /// This image with the environment variable `key` set to `value`. A
    /// variable that was set before takes the new value.
    pub fn with_env_var(self, key: &str, value: &str) -> (image: GenericImage)
        ensures
            image@ == (ImageParts { env_vars: put(self@.env_vars, key@, value@), ..self@ }),
    {
        GenericImage {
            descriptor: self.descriptor,
            env_vars: self.env_vars.with(String::from_str(key), String::from_str(value)),
            args: self.args,
            mounts: self.mounts,
            network: self.network,
            wait_for: self.wait_for,
        }
    }

    /// This image with one more mount, after those it has.
    pub fn with_mount(self, mount: StringMap) -> (image: GenericImage)
        ensures
            image@ == (ImageParts { mounts: self@.mounts.push(mount@), ..self@ }),
    {
        let mut mounts = self.mounts;
        mounts.push(mount);
        assert(maps_view(mounts@) =~= maps_view(self.mounts@).push(mount@));
        GenericImage {
            descriptor: self.descriptor,
            env_vars: self.env_vars,
            args: self.args,
            mounts,
            network: self.network,
            wait_for: self.wait_for,
        }
    }

    /// This image with `network` for the network that its containers join.
    pub fn with_network(self, network: String) -> (image: GenericImage)
        ensures
            image@ == (ImageParts { network: Some(network@), ..self@ }),
    {
        GenericImage {
            descriptor: self.descriptor,
            env_vars: self.env_vars,
            args: self.args,
            mounts: self.mounts,
            network: Some(network),
            wait_for: self.wait_for,
        }
    }

    /// This image with `wait_for` for what tells that a container is ready.
    pub fn with_wait_for(self, wait_for: WaitFor) -> (image: GenericImage)
        ensures
            image@ == (ImageParts { wait_for: wait_for@, ..self@ }),
    {
        GenericImage {
            descriptor: self.descriptor,
            env_vars: self.env_vars,
            args: self.args,
            mounts: self.mounts,
            network: self.network,
            wait_for,
        }
    }
}

impl Image for GenericImage {
    open spec fn descriptor_view(&self) -> Seq<char> {
        self@.descriptor
    }

    open spec fn wait_for_view(&self) -> Readiness {
        self@.wait_for
    }

    open spec fn env_vars_view(&self) -> Seq<(Seq<char>, Seq<char>)> {
        self@.env_vars
    }

    open spec fn args_view(&self) -> Seq<Seq<char>> {
        self@.args
    }

    open spec fn mounts_view(&self) -> Seq<Seq<(Seq<char>, Seq<char>)>> {
        self@.mounts
    }

    open spec fn network_view(&self) -> Option<Seq<char>> {
        self@.network
    }

    fn descriptor(&self) -> (descriptor: String) {
        self.descriptor.clone()
    }

    fn wait_for(&self) -> (wait_for: WaitFor) {
        self.wait_for.clone()
    }

    fn env_vars(&self) -> (env_vars: StringMap) {
        self.env_vars.clone()
    }

    fn args(&self) -> (args: Vec<String>) {
        clone_strings(&self.args)
    }

    fn mounts(&self) -> (mounts: Vec<StringMap>) {
        clone_maps(&self.mounts)
    }

    fn network(&self) -> (network: Option<String>) {
        clone_optional(&self.network)
    }

    fn with_args(self, args: Vec<String>) -> (image: Self) {
        GenericImage {
            descriptor: self.descriptor,
            env_vars: self.env_vars,
            args,
            mounts: self.mounts,
            network: self.network,
            wait_for: self.wait_for,
        }
    }
}

} // verus!
