//! Start and stop requests: whether one may reach the runtime, and what the
//! client is told.
use vstd::prelude::*;
use crate::containers::{bare_name, is_container_allowed};
use crate::text::{has_name, views};

verus! {

/// The status code of a request that was let through.
pub const STATUS_OK: u16 = 200;

/// The status code of a request that was turned away.
pub const STATUS_FORBIDDEN: u16 = 403;

/// What a client asks to be done with a container.
#[derive(Clone, Copy, Debug, PartialEq, Eq, Structural)]
pub enum Command {
    Start,
    Stop,
}

/// What is decided of a request: whether the command goes to the runtime,
/// and the status code and text of the answer.
#[derive(Debug)]
pub struct Decision {
    pub forward: bool,
    pub status: u16,
    pub body: String,
}

pub struct DecisionView {
    pub forward: bool,
    pub status: u16,
    pub body: Seq<char>,
}

impl View for Decision {
    type V = DecisionView;

    open spec fn view(&self) -> DecisionView {
        DecisionView { forward: self.forward, status: self.status, body: self.body@ }
    }
}

/// The text that confirms a command.
pub open spec fn confirmation(command: Command) -> Seq<char> {
    match command {
        Command::Start => "Container started"@,
        Command::Stop => "Container stopped"@,
    }
}

/// The decision on a request: a command on an allowed container goes to the
/// runtime and is confirmed; any other is turned away before it reaches the
/// runtime.
pub open spec fn decided(
    allowed: Seq<Seq<char>>,
    name: Seq<char>,
    command: Command,
) -> DecisionView {
    if has_name(allowed, bare_name(name)) {
        DecisionView { forward: true, status: STATUS_OK, body: confirmation(command) }
    } else {
        DecisionView { forward: false, status: STATUS_FORBIDDEN, body: "Container not allowed"@ }
    }
}

/// Decides a start or stop request for the container `name`.
pub fn decide(allowed: &Vec<String>, name: &str, command: Command) -> (r: Decision)
    ensures
        r@ == decided(views(allowed@), name@, command),
{
    if is_container_allowed(allowed, name) {
        let body = match command {
            Command::Start => "Container started".to_owned(),
            Command::Stop => "Container stopped".to_owned(),
        };
        Decision { forward: true, status: STATUS_OK, body }
    } else {
        Decision {
            forward: false,
            status: STATUS_FORBIDDEN,
            body: "Container not allowed".to_owned(),
        }
    }
}

/// No command on a container that is not allowed reaches the runtime.
pub proof fn lemma_gate(allowed: Seq<Seq<char>>, name: Seq<char>, command: Command)
    ensures
        decided(allowed, name, command).forward <==> has_name(allowed, bare_name(name)),
{
}

} // verus!
