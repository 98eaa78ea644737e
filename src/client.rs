//! The protocol client: numbered commands out, typed replies back.
use vstd::prelude::*;
use vstd::string::StringSliceAdditionalSpecFns;
use vstd::utf8::encode_utf8;

use crate::dbgp::CommandResponse;
use crate::dbgp::ContextGetResponse;
use crate::dbgp::ContinuationResponse;
use crate::dbgp::EvalResponse;
use crate::dbgp::Init;
use crate::dbgp::Message;
use crate::dbgp::StackGetResponse;
use crate::decode::DbgpError;
use crate::text::base64_encoded;
use crate::text::decimal_bytes;
use crate::text::encode_base64;
use crate::text::push_decimal;
use crate::text::push_str_bytes;

verus! {

/// A command that the client issues.
#[derive(Debug)]
pub enum Command {
    Run,
    StepInto,
    StepOver,
    StepOut,
    /// `stack_get -n 0`: the whole stack.
    StackGet,
    /// `context_get -d <depth>`: the properties of the frame at that depth.
    ContextGet(u16),
    /// `source -f <uri>`.
    Source(String),
    /// `feature_set -n <name> -v <value>`.
    FeatureSet(String, String),
    /// `eval -d <depth> -- <base64 of the expression>`.
    Eval(String, u16),
}

/// The ASCII bytes of a literal.
pub open spec fn lit(s: &str) -> Seq<u8> {
    s.spec_bytes()
}

/// The command's name and argument tokens, as bytes.
pub open spec fn command_words(c: Command) -> (Seq<u8>, Seq<Seq<u8>>) {
    match c {
        Command::Run => (lit("run"), seq![]),
        Command::StepInto => (lit("step_into"), seq![]),
        Command::StepOver => (lit("step_over"), seq![]),
        Command::StepOut => (lit("step_out"), seq![]),
        Command::StackGet => (lit("stack_get"), seq![lit("-n"), lit("0")]),
        Command::ContextGet(d) => (lit("context_get"), seq![lit("-d"), decimal_bytes(d as nat)]),
        Command::Source(f) => (lit("source"), seq![lit("-f"), encode_utf8(f@)]),
        Command::FeatureSet(n, v) => (
            lit("feature_set"),
            seq![lit("-n"), encode_utf8(n@), lit("-v"), encode_utf8(v@)],
        ),
        Command::Eval(expr, d) => (
            lit("eval"),
            seq![
                lit("-d"),
                decimal_bytes(d as nat),
                lit("--"),
                encode_utf8(base64_encoded(encode_utf8(expr@))),
            ],
        ),
    }
}

/// Each argument preceded by one space.
pub open spec fn args_bytes(args: Seq<Seq<u8>>) -> Seq<u8>
    decreases args.len(),
{
    if args.len() == 0 {
        Seq::empty()
    } else {
        args_bytes(args.drop_last()) + seq![32u8] + args.last()
    }
}

/// The bytes on the wire: `<name> -i <tid>[ <arg>]*` and a NUL.
pub open spec fn command_bytes(c: Command, tid: u32) -> Seq<u8> {
    command_words(c).0 + lit(" -i ") + decimal_bytes(tid as nat) + args_bytes(command_words(c).1)
        + seq![0u8]
}

/// Whether a reply body is of the kind that the command asks for.
pub open spec fn reply_matches(c: Command, body: CommandResponse) -> bool {
    match c {
        Command::Run => body is Run,
        Command::StepInto => body is StepInto,
        Command::StepOver => body is StepOver,
        Command::StepOut => body is StepOut,
        Command::StackGet => body is StackGet,
        Command::ContextGet(_) => body is ContextGet,
        Command::Source(_) => body is Source,
        Command::FeatureSet(_, _) => body is Unknown,
        Command::Eval(_, _) => body is Eval,
    }
}

/// The transaction counter of a connection.
pub struct DbgpClient {
    pub tid: u32,
}

impl DbgpClient {
    /// A client whose first command carries transaction id 0.
    pub fn new() -> (r: DbgpClient)
        ensures
            r.tid == 0,
    {
        DbgpClient { tid: 0 }
    }

    /// The bytes to write for `c`; the transaction id then advances by one.
    pub fn command(&mut self, c: &Command) -> (r: Vec<u8>)
        requires
            old(self).tid < u32::MAX,
        ensures
            r@ == command_bytes(*c, old(self).tid),
            final(self).tid == old(self).tid + 1,
    {
        let mut out: Vec<u8> = Vec::new();
        let ghost words = command_words(*c);
        match c {
            Command::Run => push_str_bytes(&mut out, "run"),
            Command::StepInto => push_str_bytes(&mut out, "step_into"),
            Command::StepOver => push_str_bytes(&mut out, "step_over"),
            Command::StepOut => push_str_bytes(&mut out, "step_out"),
            Command::StackGet => push_str_bytes(&mut out, "stack_get"),
            Command::ContextGet(_) => push_str_bytes(&mut out, "context_get"),
            Command::Source(_) => push_str_bytes(&mut out, "source"),
            Command::FeatureSet(_, _) => push_str_bytes(&mut out, "feature_set"),
            Command::Eval(_, _) => push_str_bytes(&mut out, "eval"),
        }
        push_str_bytes(&mut out, " -i ");
        push_decimal(&mut out, self.tid);
        let ghost head = out@;
        assert(head == words.0 + lit(" -i ") + decimal_bytes(self.tid as nat));
        match c {
            Command::StackGet => {
                out.push(32u8);
                push_str_bytes(&mut out, "-n");
                out.push(32u8);
                push_str_bytes(&mut out, "0");
            },
            Command::ContextGet(d) => {
                out.push(32u8);
                push_str_bytes(&mut out, "-d");
                out.push(32u8);
                push_decimal(&mut out, *d as u32);
            },
            Command::Source(f) => {
                out.push(32u8);
                push_str_bytes(&mut out, "-f");
                out.push(32u8);
                push_str_bytes(&mut out, f.as_str());
            },
            Command::FeatureSet(n, v) => {
                out.push(32u8);
                push_str_bytes(&mut out, "-n");
                out.push(32u8);
                push_str_bytes(&mut out, n.as_str());
                out.push(32u8);
                push_str_bytes(&mut out, "-v");
                out.push(32u8);
                push_str_bytes(&mut out, v.as_str());
            },
            Command::Eval(expr, d) => {
                let encoded = encode_base64(expr.as_str().as_bytes());
                out.push(32u8);
                push_str_bytes(&mut out, "-d");
                out.push(32u8);
                push_decimal(&mut out, *d as u32);
                out.push(32u8);
                push_str_bytes(&mut out, "--");
                out.push(32u8);
                push_str_bytes(&mut out, encoded.as_str());
            },
            _ => {},
        }
        proof {
            reveal_with_fuel(args_bytes, 5);
            let args = words.1;
            if args.len() == 2 {
                assert(args.drop_last().drop_last() =~= Seq::<Seq<u8>>::empty());
                assert(args.drop_last() =~= seq![args[0]]);
            } else if args.len() == 4 {
                assert(args.drop_last().drop_last().drop_last().drop_last() =~= Seq::<
                    Seq<u8>,
                >::empty());
                assert(args.drop_last().drop_last().drop_last() =~= seq![args[0]]);
                assert(args.drop_last().drop_last() =~= seq![args[0], args[1]]);
                assert(args.drop_last() =~= seq![args[0], args[1], args[2]]);
            }
            assert(out@ =~= head + args_bytes(args));
        }
        out.push(0u8);
        self.tid = self.tid + 1;
        assert(out@ =~= command_bytes(*c, old(self).tid));
        out
    }

    /// Checks that a decoded frame is a reply of the kind that `c` asks for.
    pub fn reply(c: &Command, m: Message) -> (r: Result<CommandResponse, DbgpError>)
        ensures
            match m {
                Message::Response(resp) => if reply_matches(*c, resp.command) {
                    r == Ok::<CommandResponse, DbgpError>(resp.command)
                } else {
                    r == Err::<CommandResponse, DbgpError>(DbgpError::Protocol)
                },
                Message::Init(_) => r == Err::<CommandResponse, DbgpError>(DbgpError::Protocol),
            },
    {
        match m {
            Message::Response(resp) => {
                let ok = match c {
                    Command::Run => matches!(resp.command, CommandResponse::Run(_)),
                    Command::StepInto => matches!(resp.command, CommandResponse::StepInto(_)),
                    Command::StepOver => matches!(resp.command, CommandResponse::StepOver(_)),
                    Command::StepOut => matches!(resp.command, CommandResponse::StepOut(_)),
                    Command::StackGet => matches!(resp.command, CommandResponse::StackGet(_)),
                    Command::ContextGet(_) => matches!(resp.command, CommandResponse::ContextGet(_)),
                    Command::Source(_) => matches!(resp.command, CommandResponse::Source(_)),
                    Command::FeatureSet(_, _) => matches!(resp.command, CommandResponse::Unknown),
                    Command::Eval(_, _) => matches!(resp.command, CommandResponse::Eval(_)),
                };
                if ok {
                    Ok(resp.command)
                } else {
                    Err(DbgpError::Protocol)
                }
            },
            Message::Init(_) => Err(DbgpError::Protocol),
        }
    }

    /// The init packet that opens a connection.
    pub fn connect_reply(m: Message) -> (r: Result<Init, DbgpError>)
        ensures
            match m {
                Message::Init(i) => r == Ok::<Init, DbgpError>(i),
                _ => r == Err::<Init, DbgpError>(DbgpError::Protocol),
            },
    {
        match m {
            Message::Init(i) => Ok(i),
            _ => Err(DbgpError::Protocol),
        }
    }

    /// The continuation status of a reply to a continuation command.
    pub fn continuation_reply(body: CommandResponse) -> (r: Result<ContinuationResponse, DbgpError>)
        ensures
            match body {
                CommandResponse::Run(c) => r == Ok::<ContinuationResponse, DbgpError>(c),
                CommandResponse::StepInto(c) => r == Ok::<ContinuationResponse, DbgpError>(c),
                CommandResponse::StepOver(c) => r == Ok::<ContinuationResponse, DbgpError>(c),
                CommandResponse::StepOut(c) => r == Ok::<ContinuationResponse, DbgpError>(c),
                _ => r == Err::<ContinuationResponse, DbgpError>(DbgpError::Protocol),
            },
    {
        match body {
            CommandResponse::Run(c) => Ok(c),
            CommandResponse::StepInto(c) => Ok(c),
            CommandResponse::StepOver(c) => Ok(c),
            CommandResponse::StepOut(c) => Ok(c),
            _ => Err(DbgpError::Protocol),
        }
    }

    /// The stack of a `stack_get` reply.
    pub fn stack_reply(body: CommandResponse) -> (r: Result<StackGetResponse, DbgpError>)
        ensures
            match body {
                CommandResponse::StackGet(s) => r == Ok::<StackGetResponse, DbgpError>(s),
                _ => r == Err::<StackGetResponse, DbgpError>(DbgpError::Protocol),
            },
    {
        match body {
            CommandResponse::StackGet(s) => Ok(s),
            _ => Err(DbgpError::Protocol),
        }
    }

    /// The properties of a `context_get` reply.
    pub fn context_reply(body: CommandResponse) -> (r: Result<ContextGetResponse, DbgpError>)
        ensures
            match body {
                CommandResponse::ContextGet(c) => r == Ok::<ContextGetResponse, DbgpError>(c),
                _ => r == Err::<ContextGetResponse, DbgpError>(DbgpError::Protocol),
            },
    {
        match body {
            CommandResponse::ContextGet(c) => Ok(c),
            _ => Err(DbgpError::Protocol),
        }
    }

    /// The result of an `eval` reply.
    pub fn eval_reply(body: CommandResponse) -> (r: Result<EvalResponse, DbgpError>)
        ensures
            match body {
                CommandResponse::Eval(e) => r == Ok::<EvalResponse, DbgpError>(e),
                _ => r == Err::<EvalResponse, DbgpError>(DbgpError::Protocol),
            },
    {
        match body {
            CommandResponse::Eval(e) => Ok(e),
            _ => Err(DbgpError::Protocol),
        }
    }

    /// The text of a `source` reply.
    pub fn source_reply(body: CommandResponse) -> (r: Result<String, DbgpError>)
        ensures
            match body {
                CommandResponse::Source(s) => r == Ok::<String, DbgpError>(s),
                _ => r == Err::<String, DbgpError>(DbgpError::Protocol),
            },
    {
        match body {
            CommandResponse::Source(s) => Ok(s),
            _ => Err(DbgpError::Protocol),
        }
    }
}

} // verus!
