//! The decoder entry points: each takes a byte buffer, attempts to decode
//! exactly one message from its start, and returns the typed message with
//! the unconsumed remainder, or a classified reason why it cannot yet.
//!
//! Decoding is stateless and referentially transparent: a caller that
//! received `Incomplete` buffers more bytes and calls again with the whole
//! unconsumed buffer.  A prefix whose skeleton bytes or leading keyword
//! already rule out every extension is rejected as `Failed` at once.

use vstd::prelude::*;
use crate::command::{p_command, x_command};
use crate::frame::{
    find_crlf, find_crlf_x, scan_frame, scan_frame_x, tag_precheck, tag_precheck_x, Frame,
    FrameSpec, TagCheck, TagCheckX,
};
use crate::greeting::{p_greeting, x_greeting};
use crate::response::{p_response, x_response};
use crate::types::{
    command_m, greeting_m, response_m, Command, CommandDecodeError, CommandM, Greeting,
    GreetingDecodeError, GreetingM, LiteralMode, Response, ResponseDecodeError, ResponseM, Tag,
};
use crate::viable::{
    command_name_doomed, greeting_doomed, response_doomed, x_command_name_doomed,
    x_greeting_doomed, x_response_doomed,
};

verus! {

broadcast use vstd::slice::axiom_spec_len;

/// The specified outcome of decoding a greeting from `s`.
pub enum GreetingDec {
    Done { end: int, greeting: GreetingM },
    Incomplete,
    Failed,
}

pub open spec fn spec_decode_greeting(s: Seq<u8>) -> GreetingDec {
    if greeting_doomed(s) {
        GreetingDec::Failed
    } else {
        spec_decode_greeting_framed(s)
    }
}

/// The framed part of greeting decoding, after the early viability check.
pub open spec fn spec_decode_greeting_framed(s: Seq<u8>) -> GreetingDec {
    match find_crlf(s, 0) {
        None => GreetingDec::Incomplete,
        Some(ci) => match p_greeting(s.subrange(0, ci + 2)) {
            Some(g) => GreetingDec::Done { end: ci + 2, greeting: g },
            None => GreetingDec::Failed,
        },
    }
}

/// Decodes one greeting, returning the unconsumed remainder beside it.
pub fn decode_greeting(input: &[u8]) -> (r: Result<(Vec<u8>, Greeting), GreetingDecodeError>)
    ensures
        match (r, spec_decode_greeting(input@)) {
            (Ok((rem, g)), GreetingDec::Done { end, greeting }) => rem@ == input@.subrange(
                end,
                input@.len() as int,
            ) && greeting_m(g) == greeting,
            (Err(GreetingDecodeError::Incomplete), GreetingDec::Incomplete) => true,
            (Err(GreetingDecodeError::Failed), GreetingDec::Failed) => true,
            _ => false,
        },
{
    let n = input.len();
    if x_greeting_doomed(input) {
        return Err(GreetingDecodeError::Failed);
    }
    match find_crlf_x(input, 0) {
        None => Err(GreetingDecodeError::Incomplete),
        Some(ci) => {
            let frame = vstd::slice::slice_subrange(input, 0, ci + 2);
            match x_greeting(frame) {
                Some(g) => {
                    let rem = vstd::slice::slice_to_vec(
                        vstd::slice::slice_subrange(input, ci + 2, n),
                    );
                    Ok((rem, g))
                },
                None => Err(GreetingDecodeError::Failed),
            }
        },
    }
}

/// The specified outcome of decoding a response from `s`.
pub enum ResponseDec {
    Done { end: int, response: ResponseM },
    Incomplete,
    LiteralFound { length: u32 },
    Failed,
}

pub open spec fn spec_decode_response(s: Seq<u8>) -> ResponseDec {
    if response_doomed(s) {
        ResponseDec::Failed
    } else {
        spec_decode_response_framed(s)
    }
}

/// The framed part of response decoding, after the early viability check.
pub open spec fn spec_decode_response_framed(s: Seq<u8>) -> ResponseDec {
    match scan_frame(s, 0) {
        FrameSpec::Incomplete => ResponseDec::Incomplete,
        FrameSpec::Literal { length, plus } => ResponseDec::LiteralFound { length },
        FrameSpec::Done { end } => match p_response(s.subrange(0, end)) {
            Some(resp) => ResponseDec::Done { end, response: resp },
            None => ResponseDec::Failed,
        },
    }
}

/// Decodes one response, returning the unconsumed remainder beside it.
pub fn decode_response(input: &[u8]) -> (r: Result<(Vec<u8>, Response), ResponseDecodeError>)
    ensures
        match (r, spec_decode_response(input@)) {
            (Ok((rem, resp)), ResponseDec::Done { end, response }) => rem@ == input@.subrange(
                end,
                input@.len() as int,
            ) && response_m(resp) == response,
            (Err(ResponseDecodeError::Incomplete), ResponseDec::Incomplete) => true,
            (
                Err(ResponseDecodeError::LiteralFound { length: l1 }),
                ResponseDec::LiteralFound { length: l2 },
            ) => l1 == l2 && l1 >= 1,
            (Err(ResponseDecodeError::Failed), ResponseDec::Failed) => true,
            _ => false,
        },
{
    let n = input.len();
    if x_response_doomed(input) {
        return Err(ResponseDecodeError::Failed);
    }
    match scan_frame_x(input) {
        Frame::Incomplete => Err(ResponseDecodeError::Incomplete),
        Frame::Literal { length, plus } => {
            proof {
                crate::frame::lemma_scan_literal_nonzero(input@, 0);
            }
            Err(ResponseDecodeError::LiteralFound { length })
        },
        Frame::Done { end } => {
            let frame = vstd::slice::slice_subrange(input, 0, end);
            match x_response(frame) {
                Some(resp) => {
                    let rem = vstd::slice::slice_to_vec(
                        vstd::slice::slice_subrange(input, end, n),
                    );
                    Ok((rem, resp))
                },
                None => Err(ResponseDecodeError::Failed),
            }
        },
    }
}

/// The specified outcome of decoding a command from `s`.
pub enum CommandDec {
    Done { end: int, command: CommandM },
    Incomplete,
    LiteralFound { tag: Seq<u8>, length: u32, mode: LiteralMode },
    Failed,
}

pub open spec fn spec_decode_command(s: Seq<u8>) -> CommandDec {
    match tag_precheck(s, 0) {
        TagCheck::Bad => CommandDec::Failed,
        TagCheck::Incomplete => CommandDec::Incomplete,
        TagCheck::Found { sp } => if command_name_doomed(s, sp + 1) {
            CommandDec::Failed
        } else {
            match scan_frame(s, 0) {
                FrameSpec::Incomplete => CommandDec::Incomplete,
                FrameSpec::Literal { length, plus } => CommandDec::LiteralFound {
                    tag: s.subrange(0, sp),
                    length,
                    mode: if plus {
                        LiteralMode::NonSync
                    } else {
                        LiteralMode::Sync
                    },
                },
                FrameSpec::Done { end } => match p_command(s.subrange(0, end)) {
                    Some(c) => CommandDec::Done { end, command: c },
                    None => CommandDec::Failed,
                },
            }
        },
    }
}

/// Decodes one command, returning the unconsumed remainder beside it.
pub fn decode_command(input: &[u8]) -> (r: Result<(Vec<u8>, Command), CommandDecodeError>)
    ensures
        match (r, spec_decode_command(input@)) {
            (Ok((rem, c)), CommandDec::Done { end, command }) => rem@ == input@.subrange(
                end,
                input@.len() as int,
            ) && command_m(c) == command,
            (Err(CommandDecodeError::Incomplete), CommandDec::Incomplete) => true,
            (
                Err(CommandDecodeError::LiteralFound { tag: t1, length: l1, mode: m1 }),
                CommandDec::LiteralFound { tag: t2, length: l2, mode: m2 },
            ) => t1.bytes@ == t2 && l1 == l2 && m1 == m2 && l1 >= 1,
            (Err(CommandDecodeError::Failed), CommandDec::Failed) => true,
            _ => false,
        },
{
    let n = input.len();
    match tag_precheck_x(input) {
        TagCheckX::Bad => Err(CommandDecodeError::Failed),
        TagCheckX::Incomplete => Err(CommandDecodeError::Incomplete),
        TagCheckX::Found { sp } => {
            if x_command_name_doomed(input, sp + 1) {
                return Err(CommandDecodeError::Failed);
            }
            match scan_frame_x(input) {
                Frame::Incomplete => Err(CommandDecodeError::Incomplete),
                Frame::Literal { length, plus } => {
                    proof {
                        crate::frame::lemma_scan_literal_nonzero(input@, 0);
                    }
                    let tagb = vstd::slice::slice_to_vec(
                        vstd::slice::slice_subrange(input, 0, sp),
                    );
                    Err(
                        CommandDecodeError::LiteralFound {
                            tag: Tag { bytes: tagb },
                            length,
                            mode: if plus {
                                LiteralMode::NonSync
                            } else {
                                LiteralMode::Sync
                            },
                        },
                    )
                },
                Frame::Done { end } => {
                    let frame = vstd::slice::slice_subrange(input, 0, end);
                    match x_command(frame) {
                        Some(c) => {
                            let rem = vstd::slice::slice_to_vec(
                                vstd::slice::slice_subrange(input, end, n),
                            );
                            Ok((rem, c))
                        },
                        None => Err(CommandDecodeError::Failed),
                    }
                },
            }
        },
    }
}

} // verus!
