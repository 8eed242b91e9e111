//! Reading RIPscrip commands out of a stream of bytes.
//!
//! A line that starts with `!` holds RIPscrip commands; each command starts
//! with `|` and runs up to the next `|` or the end of the line. A backslash
//! makes the byte after it part of the command. Each complete command that
//! reads as a well-formed command is recorded, where recording is on.
use vstd::prelude::*;
use crate::rip_command::{
    code_of, command_of, encode_args, lemma_command_of_serialize, parse_command, serialize,
    well_formed, widths_of, RipCommand, RipCommandView,
};
use crate::meganum::{all_digits, encode, is_digit, lemma_encode_len};
use crate::rip_text::{escape, escape_byte, is_line_end, needs_escape, valid_text};

verus! {

/// Where the reader stands in the stream.
#[derive(Clone, Copy, PartialEq, Eq, Structural, Debug)]
pub enum ParserState {
    /// Outside RIPscrip; whether the next byte starts a line.
    Text { at_line_start: bool },
    /// After the `!` that starts a line of commands.
    RipLine,
    /// Inside a command; whether the last byte was an escaping backslash.
    Command { escaped: bool },
}

#[verifier::ext_equal]
/// What the reader holds: whether it records commands, the commands it
/// recorded, the bytes of the command being read (`None` before its first
/// byte), and where it stands.
pub struct ParserView {
    pub record: bool,
    pub commands: Seq<RipCommandView>,
    pub command: Option<Seq<u8>>,
    pub state: ParserState,
}

/// The bytes read so far of the command being read.
pub open spec fn pending(command: Option<Seq<u8>>) -> Seq<u8> {
    match command {
        Some(s) => s,
        None => seq![],
    }
}

/// `b` added to the command being read.
pub open spec fn append_byte(p: ParserView, b: u8, escaped: bool) -> ParserView {
    ParserView { command: Some(pending(p.command).push(b)), state: ParserState::Command { escaped }, ..p }
}

/// The command being read ends: it is recorded if it reads as a command and
/// recording is on.
pub open spec fn finish(p: ParserView, next: ParserState) -> ParserView {
    let commands = match p.command {
        Some(bytes) => match command_of(bytes) {
            Some(c) => if p.record {
                p.commands.push(c)
            } else {
                p.commands
            },
            None => p.commands,
        },
        None => p.commands,
    };
    ParserView { commands, command: None, state: next, ..p }
}

/// What reading the byte `b` does.
pub open spec fn step(p: ParserView, b: u8) -> ParserView {
    match p.state {
        ParserState::Text { at_line_start } => if b == 33 && at_line_start {
            ParserView { state: ParserState::RipLine, ..p }
        } else {
            ParserView { state: ParserState::Text { at_line_start: is_line_end(b) }, ..p }
        },
        ParserState::RipLine => if b == 124 {
            ParserView { command: None, state: ParserState::Command { escaped: false }, ..p }
        } else {
            ParserView { state: ParserState::Text { at_line_start: is_line_end(b) }, ..p }
        },
        ParserState::Command { escaped } => if escaped {
            append_byte(p, b, false)
        } else if b == 124 {
            finish(p, ParserState::Command { escaped: false })
        } else if is_line_end(b) {
            finish(p, ParserState::Text { at_line_start: true })
        } else if b == 92 {
            append_byte(p, b, true)
        } else {
            append_byte(p, b, false)
        },
    }
}

/// What reading the bytes `s`, in order, does.
pub open spec fn feed_all(p: ParserView, s: Seq<u8>) -> ParserView
    decreases s.len(),
{
    if s.len() == 0 {
        p
    } else {
        step(feed_all(p, s.drop_last()), s.last())
    }
}

/// A reader that records commands and has read nothing yet.
pub open spec fn recording_start() -> ParserView {
    ParserView {
        record: true,
        commands: seq![],
        command: None,
        state: ParserState::Text { at_line_start: true },
    }
}

/// Reads RIPscrip commands out of a stream of bytes.
pub struct Parser {
    /// Whether the commands read are kept in `rip_commands`.
    pub record_rip_commands: bool,
    /// The commands read so far, where recording is on.
    pub rip_commands: Vec<RipCommand>,
    /// The bytes of the command being read, from its first byte on.
    pub command: Option<Vec<u8>>,
    /// Where the reader stands.
    pub state: ParserState,
}

impl View for Parser {
    type V = ParserView;

    open spec fn view(&self) -> ParserView {
        ParserView {
            record: self.record_rip_commands,
            commands: self.rip_commands@.map_values(|c: RipCommand| c@),
            command: match self.command {
                Some(v) => Some(v@),
                None => None,
            },
            state: self.state,
        }
    }
}

impl Parser {
    /// A reader at the start of a line, which records nothing.
    pub fn new() -> (r: Parser)
        ensures
            r@ == (ParserView {
                record: false,
                commands: seq![],
                command: None,
                state: ParserState::Text { at_line_start: true },
            }),
    {
        let r = Parser {
            record_rip_commands: false,
            rip_commands: Vec::new(),
            command: None,
            state: ParserState::Text { at_line_start: true },
        };
        proof {
            assert(r@.commands =~= Seq::<RipCommandView>::empty());
        }
        r
    }

    /// Where the reader stands.
    pub fn state(&self) -> (r: ParserState)
        ensures
            r == self@.state,
    {
        self.state
    }

    /// Adds a byte to the command being read.
    fn push_pending(&mut self, b: u8, escaped: bool)
        ensures
            final(self)@ == append_byte(old(self)@, b, escaped),
    {
        let mut bytes: Vec<u8> = match self.command.take() {
            Some(v) => v,
            None => Vec::new(),
        };
        bytes.push(b);
        self.command = Some(bytes);
        self.state = ParserState::Command { escaped };
        proof {
            assert(self@.commands =~= old(self)@.commands);
            assert(self@ == append_byte(old(self)@, b, escaped));
        }
    }

    /// Ends the command being read.
    fn finish_pending(&mut self, next: ParserState)
        ensures
            final(self)@ == finish(old(self)@, next),
    {
        let ghost before = self@;
        match self.command.take() {
            Some(bytes) => match parse_command(bytes.as_slice()) {
                Some(c) => {
                    if self.record_rip_commands {
                        self.rip_commands.push(c);
                    }
                },
                None => {},
            },
            None => {},
        }
        self.state = next;
        proof {
            if before.command is Some && command_of(before.command->Some_0) is Some && before.record {
                assert(self@.commands =~= before.commands.push(command_of(before.command->Some_0)->Some_0));
            } else {
                assert(self@.commands =~= before.commands);
            }
        }
    }

    /// Reads one byte.
    pub fn feed(&mut self, b: u8)
        ensures
            final(self)@ == step(old(self)@, b),
    {
        match self.state {
            ParserState::Text { at_line_start } => {
                if b == 33 && at_line_start {
                    self.state = ParserState::RipLine;
                } else {
                    self.state = ParserState::Text { at_line_start: b == 10 || b == 13 };
                }
            },
            ParserState::RipLine => {
                if b == 124 {
                    self.command = None;
                    self.state = ParserState::Command { escaped: false };
                } else {
                    self.state = ParserState::Text { at_line_start: b == 10 || b == 13 };
                }
            },
            ParserState::Command { escaped } => {
                if escaped {
                    self.push_pending(b, false);
                } else if b == 124 {
                    self.finish_pending(ParserState::Command { escaped: false });
                } else if b == 10 || b == 13 {
                    self.finish_pending(ParserState::Text { at_line_start: true });
                } else if b == 92 {
                    self.push_pending(b, true);
                } else {
                    self.push_pending(b, false);
                }
            },
        }
    }
}

/// Reads the bytes of `input`, in order.
pub fn create_buffer(parser: &mut Parser, input: &[u8])
    ensures
        final(parser)@ == feed_all(old(parser)@, input@),
{
    let n = input.len();
    let mut i: usize = 0;
    proof {
        assert(input@.subrange(0, 0) =~= Seq::<u8>::empty());
    }
    while i < n
        invariant
            n == input@.len(),
            i <= n,
            parser@ == feed_all(old(parser)@, input@.subrange(0, i as int)),
        decreases n - i,
    {
        proof {
            assert(input@.subrange(0, i + 1).drop_last() =~= input@.subrange(0, i as int));
        }
        parser.feed(input[i]);
        i = i + 1;
    }
    proof {
        assert(input@.subrange(0, n as int) =~= input@);
    }
}


// ---------------------------------------------------------------------------
// What reading a written command does.
/// Reading `a` and then `b` is reading them joined.
pub proof fn lemma_feed_all_concat(p: ParserView, a: Seq<u8>, b: Seq<u8>)
    ensures
        feed_all(p, a + b) == feed_all(feed_all(p, a), b),
    decreases b.len(),
{
    if b.len() == 0 {
        assert(a + b =~= a);
    } else {
        lemma_feed_all_concat(p, a, b.drop_last());
        assert((a + b).drop_last() =~= a + b.drop_last());
        assert((a + b).last() == b.last());
    }
}

/// The reader inside a command after it has read the bytes `e` of it.
pub open spec fn after_pending(p: ParserView, e: Seq<u8>) -> ParserView {
    if e.len() == 0 {
        p
    } else {
        ParserView { command: Some(pending(p.command) + e), state: ParserState::Command { escaped: false }, ..p }
    }
}

proof fn lemma_feed_one(p: ParserView, a: u8)
    ensures
        feed_all(p, seq![a]) == step(p, a),
{
    assert(seq![a].drop_last() =~= Seq::<u8>::empty());
    assert(feed_all(p, Seq::<u8>::empty()) == p);
    assert(seq![a].last() == a);
}

proof fn lemma_feed_two(p: ParserView, a: u8, b: u8)
    ensures
        feed_all(p, seq![a, b]) == step(step(p, a), b),
{
    assert(seq![a, b].drop_last() =~= seq![a]);
    lemma_feed_one(p, a);
}

/// Inside a command, the written form of a text is taken in as it is.
pub proof fn lemma_feed_escaped(p: ParserView, u: Seq<u8>)
    requires
        p.state == (ParserState::Command { escaped: false }),
        valid_text(u),
    ensures
        feed_all(p, escape(u)) == after_pending(p, escape(u)),
    decreases u.len(),
{
    if u.len() == 0 {
        assert(feed_all(p, escape(u)) == p);
    } else {
        let u0 = u[0];
        let rest = u.drop_first();
        assert(valid_text(rest)) by {
            assert forall|i: int| 0 <= i < rest.len() implies !is_line_end(#[trigger] rest[i]) by {
                assert(rest[i] == u[i + 1]);
            }
        }
        assert(!is_line_end(u0));
        let e0 = escape_byte(u0);
        lemma_feed_all_concat(p, e0, escape(rest));
        let p1 = feed_all(p, e0);
        if needs_escape(u0) {
            lemma_feed_two(p, 92, u0);
            assert(p1 =~= after_pending(p, e0)) by {
                assert(pending(p.command).push(92u8).push(u0) =~= pending(p.command) + e0);
            }
        } else {
            lemma_feed_one(p, u0);
            assert(p1 =~= after_pending(p, e0)) by {
                assert(pending(p.command).push(u0) =~= pending(p.command) + e0);
            }
        }
        lemma_feed_escaped(p1, rest);
        assert(feed_all(p, escape(u)) =~= after_pending(p, escape(u))) by {
            assert(pending(p1.command) + escape(rest) =~= pending(p.command) + escape(u));
        }
    }
}

proof fn lemma_encode_args_digits(args: Seq<u64>, ws: Seq<u8>)
    ensures
        all_digits(encode_args(args, ws)),
    decreases args.len(),
{
    if args.len() > 0 && ws.len() > 0 {
        lemma_encode_args_digits(args.drop_first(), ws.drop_first());
        lemma_encode_len(args[0] as nat, ws[0] as nat);
        let a = encode(args[0] as nat, ws[0] as nat);
        let b = encode_args(args.drop_first(), ws.drop_first());
        assert forall|i: int| 0 <= i < (a + b).len() implies is_digit(#[trigger] (a + b)[i]) by {
            if i < a.len() {
                assert((a + b)[i] == a[i]);
            } else {
                assert((a + b)[i] == b[i - a.len()]);
            }
        }
    }
}

/// A command is written as the written form of one text: its code, its
/// parameters and its own text.
proof fn lemma_serialize_escaped(c: RipCommandView)
    requires
        well_formed(c),
    ensures
        ({
            let u = code_of(c.level, c.letter) + encode_args(c.args, widths_of(c)) + c.text;
            valid_text(u) && serialize(c) == escape(u)
        }),
{
    crate::rip_command::lemma_layout_codes(c.level, c.letter);
    let code = code_of(c.level, c.letter);
    let enc = encode_args(c.args, widths_of(c));
    lemma_encode_args_digits(c.args, widths_of(c));
    let pre = code + enc;
    assert(crate::rip_text::plain(pre)) by {
        assert forall|i: int| 0 <= i < pre.len() implies !needs_escape(#[trigger] pre[i]) && !is_line_end(pre[i]) by {
            if i >= code.len() {
                assert(pre[i] == enc[i - code.len()]);
                assert(is_digit(enc[i - code.len()]));
            }
        }
    }
    crate::rip_text::lemma_escape_plain(pre);
    crate::rip_text::lemma_escape_concat(pre, c.text);
    let u = pre + c.text;
    assert(valid_text(u)) by {
        assert forall|i: int| 0 <= i < u.len() implies !is_line_end(#[trigger] u[i]) by {
            if i < pre.len() {
                assert(u[i] == pre[i]);
            } else {
                assert(u[i] == c.text[i - pre.len()]);
            }
        }
    }
}

/// Inside a line of commands, after a `|`, reading the bytes that write a
/// well-formed command and the `|` that ends it records that command (where
/// recording is on) and leaves the reader where it was, ready for the next
/// command.
pub proof fn lemma_read_written_command(p: ParserView, c: RipCommandView)
    requires
        well_formed(c),
        p.state == (ParserState::Command { escaped: false }),
        p.command is None,
    ensures
        feed_all(p, serialize(c).push(124)) == (ParserView {
            commands: if p.record {
                p.commands.push(c)
            } else {
                p.commands
            },
            ..p
        }),
{
    lemma_serialize_escaped(c);
    let u = code_of(c.level, c.letter) + encode_args(c.args, widths_of(c)) + c.text;
    let s = serialize(c);
    lemma_feed_escaped(p, u);
    assert(s.len() > 0);
    let q = feed_all(p, s);
    assert(q.command == Some(s)) by {
        assert(pending(p.command) + s =~= s);
    }
    assert(s.push(124).drop_last() =~= s);
    lemma_command_of_serialize(c);
    assert(feed_all(p, s.push(124)) =~= (ParserView {
        commands: if p.record {
            p.commands.push(c)
        } else {
            p.commands
        },
        ..p
    }));
}

/// A recording reader that reads a line `!|`, the bytes that write a
/// well-formed command, and `|`, has recorded exactly that command and holds
/// no command in progress.
pub proof fn lemma_line_with_one_command(c: RipCommandView)
    requires
        well_formed(c),
    ensures
        feed_all(recording_start(), seq![33u8, 124u8] + serialize(c).push(124)).commands == seq![c],
        feed_all(recording_start(), seq![33u8, 124u8] + serialize(c).push(124)).command is None,
{
    let p0 = recording_start();
    lemma_feed_two(p0, 33, 124);
    let p1 = feed_all(p0, seq![33u8, 124u8]);
    lemma_feed_all_concat(p0, seq![33u8, 124u8], serialize(c).push(124));
    lemma_read_written_command(p1, c);
    assert(p1.commands.push(c) =~= seq![c]);
}


/// Reading a line end leaves the reader at the start of a line, in any state
/// but right after an escaping backslash (which makes the line end part of
/// the command, continuing it on the next line).
pub proof fn lemma_line_end_starts_line(p: ParserView, b: u8)
    requires
        is_line_end(b),
        p.state != (ParserState::Command { escaped: true }),
    ensures
        step(p, b).state == (ParserState::Text { at_line_start: true }),
        step(p, b).record == p.record,
{
}

/// After any bytes that end with a line end (not one escaped by a
/// backslash), reading `!|`, the bytes that write a well-formed command and
/// `|` records that command (where recording is on) and holds no command in
/// progress: every line of commands is read, not only the first.
pub proof fn lemma_command_on_next_line(p: ParserView, s: Seq<u8>, c: RipCommandView)
    requires
        well_formed(c),
        s.len() > 0,
        is_line_end(s.last()),
        feed_all(p, s.drop_last()).state != (ParserState::Command { escaped: true }),
    ensures
        feed_all(p, s + seq![33u8, 124u8] + serialize(c).push(124)).commands == (if feed_all(p, s).record {
            feed_all(p, s).commands.push(c)
        } else {
            feed_all(p, s).commands
        }),
        feed_all(p, s + seq![33u8, 124u8] + serialize(c).push(124)).command is None,
{
    let q = feed_all(p, s);
    lemma_line_end_starts_line(feed_all(p, s.drop_last()), s.last());
    assert(q.state == (ParserState::Text { at_line_start: true }));
    let rest = serialize(c).push(124);
    let tail = seq![33u8, 124u8] + rest;
    assert(s + seq![33u8, 124u8] + rest =~= s + tail);
    lemma_feed_all_concat(p, s, tail);
    lemma_feed_all_concat(q, seq![33u8, 124u8], rest);
    lemma_feed_two(q, 33, 124);
    let q1 = feed_all(q, seq![33u8, 124u8]);
    lemma_read_written_command(q1, c);
}
} // verus!
