//! The operator's commands, as the command line names them.
use vstd::prelude::*;
use crate::api;
use crate::api::Region;

verus! {

/// A command line.
pub struct Cli {
    pub command: AnyCommand,
}

/// A command that needs the session credential, or one that does not.
pub enum AnyCommand {
    Authenticated(AuthenticatedCommand),
    Unauthenticated(UnauthenticatedCommand),
}

/// A directive as the operator gives it: the plain commands, and a start limited to regions.
pub enum Command {
    Start,
    Clean,
    Pause,
    Stop,
    Resume,
    Dock,
    Evac,
    Train,
    StartRegions { ordered: bool, regions: Vec<Region> },
}

/// A directive to send, or none to follow the device's telemetry.
pub struct AuthenticatedCommand {
    pub command: Option<Command>,
}

/// Finding a device, or retrieving its credential.
pub enum UnauthenticatedCommand {
    FindIp { no_save: bool },
    GetPassword { hostname: Option<String>, no_save: bool },
}

/// The wire command of an operator's directive.
pub open spec fn wire_command(c: Command) -> api::Command {
    match c {
        Command::Start => api::Command::Start,
        Command::Clean => api::Command::Clean,
        Command::Pause => api::Command::Pause,
        Command::Stop => api::Command::Stop,
        Command::Resume => api::Command::Resume,
        Command::Dock => api::Command::Dock,
        Command::Evac => api::Command::Evac,
        Command::Train => api::Command::Train,
        Command::StartRegions { .. } => api::Command::Start,
    }
}

impl Command {
    /// The wire command, and for a start limited to regions, the selection on the given map:
    /// ordered execution is 1, unordered 0.
    pub fn into_command_with_extra(self, pmap_id: &str, user_pmapv_id: &str) -> (r: (
        api::Command,
        Option<api::Extra>,
    ))
        ensures
            r.0 == wire_command(self),
            r.1 is Some <==> self is StartRegions,
            r.1 is Some ==> ({
                let sr = r.1->0->StartRegions_0;
                &&& sr.pmap_id@ == pmap_id@
                &&& sr.user_pmapv_id@ == user_pmapv_id@
                &&& sr.ordered == (if self->StartRegions_ordered {
                    1i64
                } else {
                    0i64
                })
                &&& sr.regions == self->StartRegions_regions
            }),
    {
        match self {
            Command::StartRegions { ordered, regions } => (
                api::Command::Start,
                Some(
                    api::Extra::StartRegions(
                        api::StartRegions {
                            pmap_id: String::from_str(pmap_id),
                            user_pmapv_id: String::from_str(user_pmapv_id),
                            ordered: if ordered {
                                1
                            } else {
                                0
                            },
                            regions,
                        },
                    ),
                ),
            ),
            Command::Start => (api::Command::Start, None),
            Command::Clean => (api::Command::Clean, None),
            Command::Pause => (api::Command::Pause, None),
            Command::Stop => (api::Command::Stop, None),
            Command::Resume => (api::Command::Resume, None),
            Command::Dock => (api::Command::Dock, None),
            Command::Evac => (api::Command::Evac, None),
            Command::Train => (api::Command::Train, None),
        }
    }
}

} // verus!
