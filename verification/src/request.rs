//! A remote procedure call, ready to be sent: a procedure name and its
//! arguments in order.

use vstd::prelude::*;
use crate::wire::{wires, Wire, WireValue};

verus! {

/// The mathematical content of a [`Request`].
pub struct RequestView {
    pub procedure: Seq<char>,
    pub args: Seq<Wire>,
}

/// A call of a named remote procedure.
#[derive(Debug, PartialEq)]
pub struct Request {
    procedure: String,
    args: Vec<WireValue>,
}

impl View for Request {
    type V = RequestView;

    closed spec fn view(&self) -> RequestView {
        RequestView { procedure: self.procedure@, args: wires(self.args@) }
    }
}

impl Request {
    /// A call of `procedure` with no arguments yet.
    pub fn new(procedure: &str) -> (request: Request)
        ensures
            request@ == (RequestView { procedure: procedure@, args: Seq::empty() }),
    {
        let request = Request { procedure: procedure.to_owned(), args: Vec::new() };
        assert(request@.args =~= Seq::empty());
        request
    }

    /// The same call with `value` appended to its arguments.
    pub fn arg(self, value: WireValue) -> (request: Request)
        ensures
            request@ == (RequestView {
                procedure: self@.procedure,
                args: self@.args.push(value@),
            }),
    {
        let mut args = self.args;
        args.push(value);
        let request = Request { procedure: self.procedure, args };
        assert(request@.args =~= self@.args.push(value@));
        request
    }

    /// An authenticated call: `username` and `password` are its first two
    /// arguments, and `args` follow in their order. Neither the number nor the
    /// types of `args` are held against the procedure.
    pub fn build(procedure: &str, username: &str, password: &str, args: Vec<WireValue>) -> (request:
        Request)
        ensures
            request@.procedure == procedure@,
            request@.args == seq![Wire::String(username@), Wire::String(password@)] + wires(args@),
    {
        let mut all: Vec<WireValue> = Vec::new();
        all.push(WireValue::String(username.to_owned()));
        all.push(WireValue::String(password.to_owned()));
        let mut args = args;
        let ghost rest = wires(args@);
        all.append(&mut args);
        let request = Request { procedure: procedure.to_owned(), args: all };
        assert(request@.args =~= seq![Wire::String(username@), Wire::String(password@)] + rest);
        request
    }

    /// The name of the procedure to call.
    pub fn procedure(&self) -> (name: &str)
        ensures
            name@ == self@.procedure,
    {
        self.procedure.as_str()
    }

    /// The arguments, in the order in which they are passed.
    pub fn args(&self) -> (args: &Vec<WireValue>)
        ensures
            wires(args@) == self@.args,
    {
        &self.args
    }
}

} // verus!
