//! The decisions of one connection: what each received line does to the
//! command under assembly, and when the command is answered.
use vstd::prelude::*;
use vstd::utf8::{decode_utf8, valid_utf8};

use crate::instruction::{
    count_of, expiry_of, expiry_view, is_ready_spec, name_of, pending_empty, reply_of, store_after,
    Instruction, Pending, Response, MAX_ARGS,
};
use crate::reply::{DOLLAR, STAR};
use crate::storage::Storage;
use crate::text::utf8_text;

verus! {

broadcast use vstd::utf8::decode_utf8_encode_utf8;

/// Whether a line declares the number of tokens of a command (`*<n>`).
pub open spec fn is_count_line(line: Seq<u8>) -> bool {
    line.len() > 0 && line[0] == STAR
}

/// Whether a line declares the length of the next token (`$<n>`).
pub open spec fn is_length_line(line: Seq<u8>) -> bool {
    line.len() > 0 && line[0] == DOLLAR
}

/// The command under assembly after one more line. A line that is not UTF-8
/// text, or declares a length, changes nothing. So does a count that cannot be
/// read, or a name that names no command. A command whose argument slots are
/// full and still is not ready is dropped.
pub open spec fn line_step(p: Pending, line: Seq<u8>) -> Pending {
    if !valid_utf8(line) || is_length_line(line) {
        p
    } else if is_count_line(line) {
        match count_of(line) {
            Some(n) => Pending { expected: n, ..p },
            None => p,
        }
    } else if p.name is None {
        match name_of(decode_utf8(line)) {
            Some(n) => Pending { name: Some(n), ..p },
            None => p,
        }
    } else if p.args.len() < MAX_ARGS {
        Pending { args: p.args.push(line), ..p }
    } else {
        pending_empty()
    }
}

/// One connection's command under assembly.
pub struct Session {
    instruction: Instruction,
}

impl View for Session {
    type V = Pending;

    closed spec fn view(&self) -> Pending {
        self.instruction@
    }
}

impl Session {
    pub closed spec fn wf(&self) -> bool {
        self.instruction.wf()
    }

    /// A connection with no command under way.
    pub fn new() -> (r: Session)
        ensures
            r.wf(),
            r@ == pending_empty(),
    {
        Session { instruction: Instruction::new() }
    }

    /// Takes one line, without its terminator. Once the command is ready it is
    /// answered against `storage` and `config`, and the next command starts.
    pub fn on_line(&mut self, line: &[u8], storage: &mut Storage, config: &Storage) -> (r: Option<Response>)
        requires
            old(self).wf(),
            old(storage).wf(),
            config.wf(),
        ensures
            final(self).wf(),
            final(storage).wf(),
            ({
                let q = line_step(old(self)@, line@);
                if is_ready_spec(q) {
                    &&& r matches Some(resp)
                    &&& resp.bytes@ == reply_of(q.name->Some_0, q.args, old(storage)@, config@)
                    &&& expiry_view(resp.expiry) == expiry_of(q.name->Some_0, q.args)
                    &&& final(storage)@ == store_after(q.name->Some_0, q.args, old(storage)@)
                    &&& final(self)@ == pending_empty()
                } else {
                    &&& r is None
                    &&& final(storage)@ == old(storage)@
                    &&& final(self)@ == q
                }
            }),
    {
        match utf8_text(line) {
            None => {},
            Some(text) => {
                if line.len() > 0 && line[0] == STAR {
                    self.instruction.parse_args_length(text);
                } else if line.len() > 0 && line[0] == DOLLAR {
                } else if !self.instruction.has_name() {
                    self.instruction.parse_command(text);
                } else if self.instruction.has_room() {
                    self.instruction.parse_argument(text);
                } else {
                    self.instruction.clear();
                }
            },
        }
        if self.instruction.is_ready() {
            let resp = self.instruction.make_response(storage, config);
            self.instruction.clear();
            Some(resp)
        } else {
            None
        }
    }
}

} // verus!
