use cs262::cli::{Cli, Program, Wire};

#[test]
fn each_command_selects_its_program() {
    assert_eq!(Cli::Wire(Wire::Client).run(), Program::Client);
    assert_eq!(Cli::Wire(Wire::Server).run(), Program::VolatileServer);
    assert_eq!(Cli::Lamport.run(), Program::Simulation);
    assert_eq!(Cli::Wire2(Wire::Client).run(), Program::Client);
    assert_eq!(Cli::Wire2(Wire::Server).run(), Program::DurableServer);
}
