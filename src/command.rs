//! The command registry: symbolic commands and their wire ids.
use crate::error::OpenRGBError;
use vstd::prelude::*;

verus! {

/// The closed set of protocol operations.
#[derive(Debug, Clone, Copy, PartialEq, Eq, Structural)]
pub enum Command {
    SetClientName,
    RequestControllerCount,
    RequestControllerData,
    ResizeZone,
    UpdateLeds,
    UpdateZoneLeds,
    UpdateSingleLed,
    SetCustomMode,
    UpdateMode,
}

/// The wire id of each command.
pub open spec fn command_id(c: Command) -> u32 {
    match c {
        Command::SetClientName => 50,
        Command::RequestControllerCount => 0,
        Command::RequestControllerData => 1,
        Command::ResizeZone => 1000,
        Command::UpdateLeds => 1050,
        Command::UpdateZoneLeds => 1051,
        Command::UpdateSingleLed => 1052,
        Command::SetCustomMode => 1100,
        Command::UpdateMode => 1101,
    }
}

/// The ids of the registry.
pub open spec fn is_registered(id: u32) -> bool {
    id == 50 || id == 0 || id == 1 || id == 1000 || id == 1050 || id == 1051 || id == 1052 || id
        == 1100 || id == 1101
}

/// The command that a wire id names, if any.
pub open spec fn command_of(id: u32) -> Option<Command> {
    if id == 50 {
        Some(Command::SetClientName)
    } else if id == 0 {
        Some(Command::RequestControllerCount)
    } else if id == 1 {
        Some(Command::RequestControllerData)
    } else if id == 1000 {
        Some(Command::ResizeZone)
    } else if id == 1050 {
        Some(Command::UpdateLeds)
    } else if id == 1051 {
        Some(Command::UpdateZoneLeds)
    } else if id == 1052 {
        Some(Command::UpdateSingleLed)
    } else if id == 1100 {
        Some(Command::SetCustomMode)
    } else if id == 1101 {
        Some(Command::UpdateMode)
    } else {
        None
    }
}

pub open spec fn command_name(c: Command) -> Seq<char> {
    match c {
        Command::SetClientName => "SetClientName"@,
        Command::RequestControllerCount => "RequestControllerCount"@,
        Command::RequestControllerData => "RequestControllerData"@,
        Command::ResizeZone => "ResizeZone"@,
        Command::UpdateLeds => "UpdateLeds"@,
        Command::UpdateZoneLeds => "UpdateZoneLeds"@,
        Command::UpdateSingleLed => "UpdateSingleLed"@,
        Command::SetCustomMode => "SetCustomMode"@,
        Command::UpdateMode => "UpdateMode"@,
    }
}

/// Reading a registered id, writing the command back and reading again
/// gives the same command; every other id is unknown.
pub proof fn lemma_registry_total(id: u32)
    ensures
        is_registered(id) ==> (command_of(id) matches Some(c) && command_id(c) == id && command_of(
            command_id(c),
        ) == command_of(id)),
        !is_registered(id) ==> command_of(id) is None,
{
}

/// Every command reads back from its id, so no two commands share an id.
pub proof fn lemma_command_id_injective(a: Command, b: Command)
    ensures
        command_of(command_id(a)) == Some(a),
        command_id(a) == command_id(b) ==> a == b,
{
}

impl Command {
    /// The command's wire id.
    pub fn to_id(&self) -> (r: u32)
        ensures
            r == command_id(*self),
    {
        match self {
            Command::SetClientName => 50,
            Command::RequestControllerCount => 0,
            Command::RequestControllerData => 1,
            Command::ResizeZone => 1000,
            Command::UpdateLeds => 1050,
            Command::UpdateZoneLeds => 1051,
            Command::UpdateSingleLed => 1052,
            Command::SetCustomMode => 1100,
            Command::UpdateMode => 1101,
        }
    }

    /// The command with wire id `id`; an id outside the registry is an error.
    pub fn from_id(id: u32) -> (r: Result<Command, OpenRGBError>)
        ensures
            match command_of(id) {
                Some(c) => r == Ok::<Command, OpenRGBError>(c),
                None => r == Err::<Command, OpenRGBError>(OpenRGBError::UnknownCommand(id)),
            },
    {
        match id {
            50 => Ok(Command::SetClientName),
            0 => Ok(Command::RequestControllerCount),
            1 => Ok(Command::RequestControllerData),
            1000 => Ok(Command::ResizeZone),
            1050 => Ok(Command::UpdateLeds),
            1051 => Ok(Command::UpdateZoneLeds),
            1052 => Ok(Command::UpdateSingleLed),
            1100 => Ok(Command::SetCustomMode),
            1101 => Ok(Command::UpdateMode),
            _ => Err(OpenRGBError::UnknownCommand(id)),
        }
    }

    /// The command's symbolic name.
    pub fn name(&self) -> (r: &'static str)
        ensures
            r@ == command_name(*self),
    {
        match self {
            Command::SetClientName => "SetClientName",
            Command::RequestControllerCount => "RequestControllerCount",
            Command::RequestControllerData => "RequestControllerData",
            Command::ResizeZone => "ResizeZone",
            Command::UpdateLeds => "UpdateLeds",
            Command::UpdateZoneLeds => "UpdateZoneLeds",
            Command::UpdateSingleLed => "UpdateSingleLed",
            Command::SetCustomMode => "SetCustomMode",
            Command::UpdateMode => "UpdateMode",
        }
    }
}

} // verus!
