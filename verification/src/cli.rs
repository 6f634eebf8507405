//! The command line as the library sees it: which program a command selects.

use vstd::prelude::*;

verus! {

/// The two ends of the chat service.
#[derive(Clone, Copy, Debug, PartialEq, Eq, Structural)]
pub enum Wire {
    Client,
    Server,
}

/// Command-line interface: the subcommands and what they select.
#[derive(Clone, Copy, Debug, PartialEq, Eq, Structural)]
pub enum Cli {
    /// The chat service over the volatile store.
    Wire(Wire),
    /// The scale model of logical clocks.
    Lamport,
    /// The chat service over the durable store.
    Wire2(Wire),
}

/// A program that the command line can start.
#[derive(Clone, Copy, Debug, PartialEq, Eq, Structural)]
pub enum Program {
    /// The interactive client; the same for both servers.
    Client,
    /// The server that keeps its accounts in memory.
    VolatileServer,
    /// The server that keeps its accounts in the database and shares its
    /// address with other instances.
    DurableServer,
    /// The simulation of machines with logical clocks.
    Simulation,
}

impl Cli {
    /// The program that a command selects.
    pub open spec fn program(self) -> Program {
        match self {
            Cli::Wire(Wire::Client) => Program::Client,
            Cli::Wire(Wire::Server) => Program::VolatileServer,
            Cli::Lamport => Program::Simulation,
            Cli::Wire2(Wire::Client) => Program::Client,
            Cli::Wire2(Wire::Server) => Program::DurableServer,
        }
    }

    /// Resolves the command to the program that is to run. Starting it is up
    /// to the caller, who owns the sockets and the terminal.
    pub fn run(&self) -> (r: Program)
        ensures
            r == self.program(),
    {
        match self {
            Cli::Wire(Wire::Client) => Program::Client,
            Cli::Wire(Wire::Server) => Program::VolatileServer,
            Cli::Lamport => Program::Simulation,
            Cli::Wire2(Wire::Client) => Program::Client,
            Cli::Wire2(Wire::Server) => Program::DurableServer,
        }
    }
}

} // verus!
