//! Where a builtin leaves what it has to say.

use vstd::prelude::*;

verus! {

/// Something that the shell prints for all its builtins alike.
#[derive(Debug)]
pub enum BuiltinRequest {
    /// The help text of the command.
    PrintHelp { cmd: String },
    /// That an option lacks its argument, with or without a hint at the help text.
    MissingArgument { cmd: String, opt: String, print_hints: bool },
    /// That an option is not known, with or without a hint at the help text.
    UnknownOption { cmd: String, opt: String, print_hints: bool },
}

/// What a [`BuiltinRequest`] says.
pub ghost enum Request {
    PrintHelp { cmd: Seq<char> },
    MissingArgument { cmd: Seq<char>, opt: Seq<char>, print_hints: bool },
    UnknownOption { cmd: Seq<char>, opt: Seq<char>, print_hints: bool },
}

impl View for BuiltinRequest {
    type V = Request;

    open spec fn view(&self) -> Request {
        match *self {
            BuiltinRequest::PrintHelp { cmd } => Request::PrintHelp { cmd: cmd@ },
            BuiltinRequest::MissingArgument { cmd, opt, print_hints } => Request::MissingArgument {
                cmd: cmd@,
                opt: opt@,
                print_hints,
            },
            BuiltinRequest::UnknownOption { cmd, opt, print_hints } => Request::UnknownOption {
                cmd: cmd@,
                opt: opt@,
                print_hints,
            },
        }
    }
}

/// The output and the error stream of a builtin, and what it asks the shell to print.
#[derive(Debug)]
pub struct IoStreams {
    pub out: String,
    pub err: String,
    pub requests: Vec<BuiltinRequest>,
}

/// What is on the streams.
#[verifier::ext_equal]
pub ghost struct Written {
    pub out: Seq<char>,
    pub err: Seq<char>,
    pub requests: Seq<Request>,
}

impl Written {
    /// Nothing.
    pub open spec fn nothing() -> Written {
        Written { out: seq![], err: seq![], requests: seq![] }
    }

    /// Text on the output stream.
    pub open spec fn on_out(text: Seq<char>) -> Written {
        Written { out: text, ..Written::nothing() }
    }

    /// Text on the error stream.
    pub open spec fn on_err(text: Seq<char>) -> Written {
        Written { err: text, ..Written::nothing() }
    }

    /// A request to the shell.
    pub open spec fn request(request: Request) -> Written {
        Written { requests: seq![request], ..Written::nothing() }
    }

    /// `self`, and after it `more`.
    pub open spec fn plus(self, more: Written) -> Written {
        Written {
            out: self.out + more.out,
            err: self.err + more.err,
            requests: self.requests + more.requests,
        }
    }
}

impl View for IoStreams {
    type V = Written;

    open spec fn view(&self) -> Written {
        Written {
            out: self.out@,
            err: self.err@,
            requests: Seq::new(self.requests@.len(), |i: int| self.requests@[i]@),
        }
    }
}

impl IoStreams {
    /// Streams on which nothing is written yet.
    pub fn new() -> (r: IoStreams)
        ensures
            r@ == Written::nothing(),
    {
        let r = IoStreams { out: String::new(), err: String::new(), requests: Vec::new() };
        assert(r@ =~= Written::nothing());
        r
    }

    /// Writes to the output stream.
    pub fn append_out(&mut self, text: &str)
        ensures
            final(self)@ == old(self)@.plus(Written::on_out(text@)),
    {
        self.out.append(text);
        assert(self@ =~= old(self)@.plus(Written::on_out(text@)));
    }

    /// Writes to the error stream.
    pub fn append_err(&mut self, text: &str)
        ensures
            final(self)@ == old(self)@.plus(Written::on_err(text@)),
    {
        self.err.append(text);
        assert(self@ =~= old(self)@.plus(Written::on_err(text@)));
    }

    /// Asks the shell to print something.
    pub fn request(&mut self, request: BuiltinRequest)
        ensures
            final(self)@ == old(self)@.plus(Written::request(request@)),
    {
        self.requests.push(request);
        assert(self@ =~= old(self)@.plus(Written::request(request@)));
    }
}

/// What is written in two goes could have been written at once.
pub proof fn law_writing_adds_up(a: Written, b: Written, c: Written)
    ensures
        a.plus(b).plus(c) == a.plus(b.plus(c)),
        a.plus(Written::nothing()) == a,
{
    assert(a.plus(b).plus(c) =~= a.plus(b.plus(c)));
    assert(a.plus(Written::nothing()) =~= a);
}

/// What is written later stands behind what was written before, on the stream it was written to,
/// and the other streams stay as they are.
pub proof fn law_writing_appends(before: Written, text: Seq<char>, request: Request)
    ensures
        before.plus(Written::on_out(text)) == (Written { out: before.out + text, ..before }),
        before.plus(Written::on_err(text)) == (Written { err: before.err + text, ..before }),
        before.plus(Written::request(request)) == (Written {
            requests: before.requests.push(request),
            ..before
        }),
{
    assert(before.plus(Written::on_out(text)) =~= (Written { out: before.out + text, ..before }));
    assert(before.plus(Written::on_err(text)) =~= (Written { err: before.err + text, ..before }));
    assert(before.plus(Written::request(request)) =~= (Written {
        requests: before.requests.push(request),
        ..before
    }));
}

/// What is on the streams is what their fields hold.
pub proof fn law_streams_hold_what_is_written(streams: IoStreams)
    ensures
        streams@.out == streams.out@,
        streams@.err == streams.err@,
        streams@.requests.len() == streams.requests@.len(),
        forall|i: int|
            0 <= i < streams.requests@.len() ==> streams@.requests[i] == (
            #[trigger] streams.requests@[i])@,
{
}

} // verus!
