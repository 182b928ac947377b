//! Lifecycle control for disposable containers that are driven through an
//! external engine's command line: argument assembly, the deadline-bounded
//! log watcher, port resolution and exactly-once teardown.

pub mod commands;
pub mod container;
pub mod docker_parse;
pub mod errors;
pub mod image;
pub mod registry;
pub mod string_map;
pub mod text;
pub mod wait_for_message;

pub use commands::{
    inspect_arguments, logs_arguments, rm_arguments, run_arguments, stop_arguments, tail_line,
    Ports,
};
pub use container::{
    keep_containers, wait_at_least_one_second_after_container_was_started, DockerContainer, Handle,
    Phase, Startup, WaitingReady, GRACE_MILLIS,
};
pub use docker_parse::{ContainerInfo, PortMapping};
pub use errors::{ParseError, ParseFault, WaitError, WaitFault};
pub use image::{GenericImage, Image, ImageParts, Readiness, StreamType, WaitFor};
pub use registry::StartRegistry;
pub use string_map::StringMap;
pub use wait_for_message::{LogWatch, ReadEvent, Reading, Step, WaitForMessage, Watch, WatchStep};
