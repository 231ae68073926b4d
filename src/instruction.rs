//! A command under assembly, and what it does once complete.
use vstd::prelude::*;
use vstd::string::StringSliceAdditionalSpecFns;
use vstd::utf8::{decode_utf8, encode_utf8, valid_utf8};

use crate::bytes::{bytes_eq, bytes_of};
use crate::decoder::{CR, LF};
use crate::number::{parse_u64, push_decimal, unsigned_value};
use crate::reply::{
    invalid_expire, make_invalid_expire, make_null_bulk, make_ok, make_pong, make_simple_string,
    null_bulk, ok, pairs_body, pong, push_bulk_string, resp_array, simple_string, STAR,
};
use crate::storage::{Pairs, Storage};
use crate::text::{text_is, to_upper, trim, trimmed_of, upper_of, utf8_text};

verus! {

/// How many arguments a command can hold.
pub const MAX_ARGS: usize = 5;

/// The commands that are understood.
#[derive(Debug, Clone, Copy, PartialEq, Eq, Structural)]
pub enum InstructionName {
    Ping,
    Echo,
    Get,
    SetValue,
    Config,
}

/// A command name as compared: trimmed, upper-cased, trimmed again.
pub open spec fn normalized_name(s: Seq<char>) -> Seq<char> {
    trimmed_of(upper_of(trimmed_of(s)))
}

/// The command that a text names, if any; case does not matter.
pub open spec fn name_of(s: Seq<char>) -> Option<InstructionName> {
    let n = normalized_name(s);
    if n == "PING"@ {
        Some(InstructionName::Ping)
    } else if n == "ECHO"@ {
        Some(InstructionName::Echo)
    } else if n == "GET"@ {
        Some(InstructionName::Get)
    } else if n == "SET"@ {
        Some(InstructionName::SetValue)
    } else if n == "CONFIG"@ {
        Some(InstructionName::Config)
    } else {
        None
    }
}

impl InstructionName {
    /// The command named by `s`, which is trimmed before it is compared without
    /// regard to case.
    pub fn from_str(s: &str) -> (r: Result<InstructionName, ()>)
        ensures
            r matches Ok(n) ==> name_of(s@) == Some(n),
            r is Err ==> name_of(s@) is None,
    {
        let upper = to_upper(trim(s));
        let n = trim(upper.as_str());
        if text_is(n, "PING") {
            Ok(InstructionName::Ping)
        } else if text_is(n, "ECHO") {
            Ok(InstructionName::Echo)
        } else if text_is(n, "GET") {
            Ok(InstructionName::Get)
        } else if text_is(n, "SET") {
            Ok(InstructionName::SetValue)
        } else if text_is(n, "CONFIG") {
            Ok(InstructionName::Config)
        } else {
            Err(())
        }
    }
}

/// The state of a command under assembly: the declared number of tokens
/// (name and arguments), the name once resolved, and the arguments received.
pub struct Pending {
    pub expected: nat,
    pub name: Option<InstructionName>,
    pub args: Seq<Seq<u8>>,
}

/// The state in which a new command starts.
pub open spec fn pending_empty() -> Pending {
    Pending { expected: 0, name: None, args: Seq::empty() }
}

/// Argument `i`, or the empty text where none was received.
pub open spec fn slot(args: Seq<Seq<u8>>, i: int) -> Seq<u8> {
    if 0 <= i < args.len() {
        args[i]
    } else {
        Seq::empty()
    }
}

/// A command is ready once its name is known and each argument that its
/// declared count asks for, as far as the argument slots go, is non-empty.
pub open spec fn is_ready_spec(p: Pending) -> bool {
    &&& p.name is Some
    &&& forall|i: int| 0 <= i < p.expected - 1 && i < MAX_ARGS ==> (#[trigger] slot(p.args, i)).len() > 0
}

/// The number that a token declaring a count holds, after its leading marker.
pub open spec fn count_of(line: Seq<u8>) -> Option<nat> {
    if line.len() > 0 {
        unsigned_value(line.drop_first(), usize::MAX as nat)
    } else {
        None
    }
}

/// `px`
pub open spec fn px() -> Seq<u8> {
    seq![112u8, 120u8]
}

pub open spec fn is_px(a: Seq<u8>) -> bool {
    a == px()
}

/// The delay, in milliseconds, that an expiry argument gives: its text,
/// trimmed, read as an unsigned integer.
pub open spec fn duration_of(a: Seq<u8>) -> Option<nat> {
    if valid_utf8(a) {
        unsigned_value(encode_utf8(trimmed_of(decode_utf8(a))), u64::MAX as nat)
    } else {
        None
    }
}

/// Whether a `SET` carries an expiry option whose delay cannot be read.
pub open spec fn bad_expiry(args: Seq<Seq<u8>>) -> bool {
    is_px(slot(args, 2)) && duration_of(slot(args, 3)) is None
}

/// The configuration entries whose key is `k`.
pub open spec fn config_matches(config: Map<Seq<u8>, Seq<u8>>, k: Seq<u8>) -> Pairs {
    if config.contains_key(k) {
        seq![(k, config[k])]
    } else {
        Seq::empty()
    }
}

/// The reply to a complete command.
pub open spec fn reply_of(
    name: InstructionName,
    args: Seq<Seq<u8>>,
    store: Map<Seq<u8>, Seq<u8>>,
    config: Map<Seq<u8>, Seq<u8>>,
) -> Seq<u8> {
    match name {
        InstructionName::Ping => pong(),
        InstructionName::Echo => simple_string(slot(args, 0)),
        InstructionName::Get => if store.contains_key(slot(args, 0)) {
            simple_string(store[slot(args, 0)])
        } else {
            null_bulk()
        },
        InstructionName::SetValue => if bad_expiry(args) {
            invalid_expire()
        } else {
            ok()
        },
        InstructionName::Config => resp_array(config_matches(config, slot(args, 1))),
    }
}

/// The store after a complete command.
pub open spec fn store_after(
    name: InstructionName,
    args: Seq<Seq<u8>>,
    store: Map<Seq<u8>, Seq<u8>>,
) -> Map<Seq<u8>, Seq<u8>> {
    if name == InstructionName::SetValue && !bad_expiry(args) {
        store.insert(slot(args, 0), slot(args, 1))
    } else {
        store
    }
}

/// The expiry, key and delay, that a complete command schedules.
pub open spec fn expiry_of(name: InstructionName, args: Seq<Seq<u8>>) -> Option<(Seq<u8>, nat)> {
    if name == InstructionName::SetValue && is_px(slot(args, 2)) {
        match duration_of(slot(args, 3)) {
            Some(d) => Some((slot(args, 0), d)),
            None => None,
        }
    } else {
        None
    }
}

/// A request to drop `key` once `delay_ms` milliseconds have passed.
pub struct ExpiryRequest {
    pub key: Vec<u8>,
    pub delay_ms: u64,
}

/// What a complete command hands back: the bytes of the reply, and the expiry
/// that it schedules, if any.
pub struct Response {
    pub bytes: Vec<u8>,
    pub expiry: Option<ExpiryRequest>,
}

pub open spec fn expiry_view(e: Option<ExpiryRequest>) -> Option<(Seq<u8>, nat)> {
    match e {
        Some(r) => Some((r.key@, r.delay_ms as nat)),
        None => None,
    }
}

/// A command under assembly on one connection.
pub struct Instruction {
    len: usize,
    arg_idx: usize,
    arguments: Vec<Vec<u8>>,
    pub name: Option<InstructionName>,
}

impl View for Instruction {
    type V = Pending;

    closed spec fn view(&self) -> Pending {
        Pending {
            expected: self.len as nat,
            name: self.name,
            args: self.arguments@.subrange(0, self.arg_idx as int).map_values(|a: Vec<u8>| a@),
        }
    }
}

fn empty_slots() -> (r: Vec<Vec<u8>>)
    ensures
        r@.len() == MAX_ARGS,
        forall|i: int| 0 <= i < MAX_ARGS ==> (#[trigger] r@[i])@.len() == 0,
{
    let mut r: Vec<Vec<u8>> = Vec::new();
    let mut i: usize = 0;
    while i < MAX_ARGS
        invariant
            0 <= i <= MAX_ARGS,
            r@.len() == i,
            forall|j: int| 0 <= j < i ==> (#[trigger] r@[j])@.len() == 0,
        decreases MAX_ARGS - i,
    {
        r.push(Vec::new());
        i = i + 1;
    }
    r
}

impl Instruction {
    pub closed spec fn wf(&self) -> bool {
        &&& self.arguments@.len() == MAX_ARGS
        &&& self.arg_idx <= MAX_ARGS
        &&& forall|i: int| self.arg_idx <= i < MAX_ARGS ==> (#[trigger] self.arguments@[i])@.len() == 0
    }

    proof fn lemma_slots(&self)
        requires
            self.wf(),
        ensures
            self@.args.len() == self.arg_idx,
            self@.args.len() <= MAX_ARGS,
            forall|i: int| 0 <= i < MAX_ARGS ==> #[trigger] slot(self@.args, i) == self.arguments@[i]@,
    {
        assert forall|i: int| 0 <= i < MAX_ARGS implies #[trigger] slot(self@.args, i) == self.arguments@[i]@ by {
            if i >= self.arg_idx {
                assert(self.arguments@[i]@ =~= Seq::<u8>::empty());
            }
        }
    }

    /// A command with nothing received yet.
    pub fn new() -> (r: Instruction)
        ensures
            r.wf(),
            r@ == pending_empty(),
    {
        let r = Instruction { len: 0, arg_idx: 0, arguments: empty_slots(), name: None };
        assert(r@.args =~= Seq::<Seq<u8>>::empty());
        r
    }

    /// Forgets everything received, to start the next command.
    pub fn clear(&mut self)
        ensures
            final(self).wf(),
            final(self)@ == pending_empty(),
    {
        self.len = 0;
        self.arg_idx = 0;
        self.arguments = empty_slots();
        self.name = None;
        assert(self@.args =~= Seq::<Seq<u8>>::empty());
    }

    /// Whether the command can be answered.
    pub fn is_ready(&self) -> (r: bool)
        requires
            self.wf(),
        ensures
            r == is_ready_spec(self@),
    {
        proof { self.lemma_slots(); }
        if self.name.is_none() {
            return false;
        }
        let upto: usize = if self.len == 0 {
            0
        } else if self.len - 1 < MAX_ARGS {
            self.len - 1
        } else {
            MAX_ARGS
        };
        let mut i: usize = 0;
        while i < upto
            invariant
                self.wf(),
                upto <= MAX_ARGS,
                upto as int == if self.len as int - 1 < MAX_ARGS { if self.len == 0 { 0 } else { self.len - 1 } } else { MAX_ARGS as int },
                0 <= i <= upto,
                forall|i: int| 0 <= i < MAX_ARGS ==> #[trigger] slot(self@.args, i) == self.arguments@[i]@,
                forall|j: int| 0 <= j < i ==> (#[trigger] slot(self@.args, j)).len() > 0,
            decreases upto - i,
        {
            if self.arguments[i].len() == 0 {
                assert(slot(self@.args, i as int).len() == 0);
                return false;
            }
            i = i + 1;
        }
        true
    }

    /// Takes a token that declares the number of tokens of the command: a
    /// marker, then an unsigned integer. A token whose number cannot be read
    /// leaves the command as it was.
    pub fn parse_args_length(&mut self, instr: &str) -> (r: &mut Self)
        requires
            old(self).wf(),
        ensures
            *final(self) == *final(r),
            r.wf(),
            count_of(instr.spec_bytes()) matches Some(n) ==> r@ == (Pending { expected: n, ..old(self)@ }),
            count_of(instr.spec_bytes()) is None ==> r@ == old(self)@,
    {
        let b = instr.as_bytes();
        if b.len() > 0 {
            let rest = vstd::slice::slice_subrange(b, 1, b.len());
            assert(rest@ =~= b@.drop_first());
            match parse_u64(rest) {
                Some(n) => {
                    if n <= usize::MAX as u64 {
                        self.len = n as usize;
                    }
                },
                None => {},
            }
        }
        self
    }

    /// Takes a token that may name the command. A token that names no known
    /// command leaves the command as it was.
    pub fn parse_command(&mut self, instr: &str) -> (r: &mut Self)
        requires
            old(self).wf(),
        ensures
            *final(self) == *final(r),
            r.wf(),
            name_of(instr@) matches Some(n) ==> r@ == (Pending { name: Some(n), ..old(self)@ }),
            name_of(instr@) is None ==> r@ == old(self)@,
    {
        match InstructionName::from_str(instr) {
            Ok(name) => {
                self.name = Some(name);
            },
            Err(()) => {},
        }
        self
    }

    /// Whether the command's name is known.
    pub fn has_name(&self) -> (r: bool)
        ensures
            r == self@.name is Some,
    {
        self.name.is_some()
    }

    /// Whether there is room for one more argument.
    pub fn has_room(&self) -> (r: bool)
        requires
            self.wf(),
        ensures
            r == (self@.args.len() < MAX_ARGS),
    {
        proof { self.lemma_slots(); }
        self.arg_idx < MAX_ARGS
    }

    /// Takes the next argument, as its UTF-8 bytes.
    pub fn parse_argument(&mut self, instr: &str) -> (r: &mut Self)
        requires
            old(self).wf(),
            old(self)@.args.len() < MAX_ARGS,
        ensures
            *final(self) == *final(r),
            r.wf(),
            r@ == (Pending { args: old(self)@.args.push(instr.spec_bytes()), ..old(self)@ }),
    {
        proof { self.lemma_slots(); }
        let ghost before = self@.args;
        let arg = bytes_of(instr.as_bytes());
        self.arguments.set(self.arg_idx, arg);
        self.arg_idx = self.arg_idx + 1;
        assert(self@.args =~= before.push(instr.spec_bytes()));
        self
    }

    /// The array reply that lists every key of `map` followed by its value.
    pub fn serialize_resp(map: &Storage) -> (r: Vec<u8>)
        requires
            2 * map.pairs().len() <= u64::MAX,
        ensures
            r@ == resp_array(map.pairs()),
    {
        let n = map.len();
        let mut out: Vec<u8> = Vec::new();
        out.push(STAR);
        push_decimal(&mut out, 2 * (n as u64));
        out.push(CR);
        out.push(LF);
        let ghost head = out@;
        let mut i: usize = 0;
        while i < n
            invariant
                n == map.pairs().len(),
                0 <= i <= n,
                out@ == head + pairs_body(map.pairs().subrange(0, i as int)),
            decreases n - i,
        {
            push_bulk_string(&mut out, map.key_at(i).as_slice());
            push_bulk_string(&mut out, map.value_at(i).as_slice());
            let ghost es = map.pairs().subrange(0, i + 1);
            assert(es.drop_last() =~= map.pairs().subrange(0, i as int));
            i = i + 1;
        }
        assert(map.pairs().subrange(0, n as int) =~= map.pairs());
        assert(out@ =~= resp_array(map.pairs()));
        out
    }

    /// Answers the command, whose name must be known, against `storage` and
    /// `config`. A `SET` writes its key before its expiry is handed back; one
    /// whose expiry delay cannot be read changes nothing and is answered with
    /// an error.
    pub fn make_response(&mut self, storage: &mut Storage, config: &Storage) -> (r: Response)
        requires
            old(self).wf(),
            old(self)@.name is Some,
            old(storage).wf(),
            config.wf(),
        ensures
            *final(self) == *old(self),
            final(storage).wf(),
            r.bytes@ == reply_of(old(self)@.name->Some_0, old(self)@.args, old(storage)@, config@),
            final(storage)@ == store_after(old(self)@.name->Some_0, old(self)@.args, old(storage)@),
            expiry_view(r.expiry) == expiry_of(old(self)@.name->Some_0, old(self)@.args),
    {
        proof { self.lemma_slots(); }
        match self.name {
            Some(InstructionName::Ping) => Response { bytes: make_pong(), expiry: None },
            Some(InstructionName::Echo) => {
                Response { bytes: make_simple_string(self.arguments[0].as_slice()), expiry: None }
            },
            Some(InstructionName::Get) => {
                let bytes = match storage.get(self.arguments[0].as_slice()) {
                    Some(v) => make_simple_string(v.as_slice()),
                    None => make_null_bulk(),
                };
                Response { bytes, expiry: None }
            },
            Some(InstructionName::SetValue) => {
                let mut delay: Option<u64> = None;
                if bytes_eq(self.arguments[2].as_slice(), &[112u8, 120u8]) {
                    match read_duration(self.arguments[3].as_slice()) {
                        Some(d) => {
                            delay = Some(d);
                        },
                        None => {
                            return Response { bytes: make_invalid_expire(), expiry: None };
                        },
                    }
                }
                storage.insert(self.arguments[0].as_slice(), self.arguments[1].as_slice());
                let expiry = match delay {
                    Some(d) => Some(ExpiryRequest { key: bytes_of(self.arguments[0].as_slice()), delay_ms: d }),
                    None => None,
                };
                Response { bytes: make_ok(), expiry }
            },
            Some(InstructionName::Config) => {
                let key = self.arguments[1].as_slice();
                let mut filtered = Storage::new();
                match config.get(key) {
                    Some(v) => {
                        filtered.insert(key, v.as_slice());
                    },
                    None => {},
                }
                assert(filtered.pairs() =~= config_matches(config@, key@));
                Response { bytes: Self::serialize_resp(&filtered), expiry: None }
            },
            None => Response { bytes: Vec::new(), expiry: None },
        }
    }
}

/// Reads the delay of an expiry option.
fn read_duration(a: &[u8]) -> (r: Option<u64>)
    ensures
        r matches Some(d) ==> duration_of(a@) == Some(d as nat),
        r is None ==> duration_of(a@) is None,
{
    match utf8_text(a) {
        Some(s) => parse_u64(trim(s).as_bytes()),
        None => None,
    }
}

} // verus!
