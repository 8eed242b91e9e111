//! RIPscrip commands: how one command is written between two `|`, and how it
//! is read back.
//!
//! A command is written as its code (a letter, with the digit `1` or `9` in
//! front for the commands of level 1 and 9), then its numeric parameters as
//! MegaNums of fixed widths, then, for some commands, a text. The polygon
//! commands take a count of points first and then that many pairs of
//! coordinates.
use vstd::prelude::*;
use crate::meganum::{
    all_digits, decode, encode, lemma_decode_encode, lemma_pow36_bound, lemma_encode_decode, lemma_encode_len, pow36,
};
use crate::meganum::{decode_digits, push_encoded};
use crate::rip_text::{
    escape, is_line_end, lemma_escape_unescape, lemma_unescape_escape, push_escaped, unescape,
    unescape_from, valid_text,
};

verus! {

/// What a command is: its level (0, 1 or 9), its letter, its numeric
/// parameters in order and its text (empty for a command without one).
#[verifier::ext_equal]
pub struct RipCommandView {
    pub level: u8,
    pub letter: u8,
    pub args: Seq<u64>,
    pub text: Seq<u8>,
}

/// The parameters of the command with level `level` and letter `letter`:
/// the widths of its numeric parameters, whether a text follows them, and
/// whether it is a polygon command (a count of points, then that many pairs of
/// coordinates, all of width 2). `None` for a code that names no command.
pub open spec fn layout(level: u8, letter: u8) -> Option<(Seq<u8>, bool, bool)> {
    if level == 0 {
        if letter == 119 {  // w: text window
            Some((seq![2u8, 2, 2, 2, 1, 1], false, false))
        } else if letter == 118 {  // v: view port
            Some((seq![2u8, 2, 2, 2], false, false))
        } else if letter == 42 || letter == 101 || letter == 69 || letter == 72 || letter == 62 {
            // *: reset windows, e: erase window, E: erase view, H: home, >: erase to end of line
            Some((seq![], false, false))
        } else if letter == 103 || letter == 97 || letter == 109 || letter == 88 || letter == 83 {
            // g: go to x/y, a: one palette entry, m: move, X: pixel, S: fill style
            Some((seq![2u8, 2], false, false))
        } else if letter == 99 || letter == 87 {  // c: color, W: write mode
            Some((seq![2u8], false, false))
        } else if letter == 81 {  // Q: set palette
            Some((Seq::new(16, |i: int| 2u8), false, false))
        } else if letter == 84 {  // T: text
            Some((seq![], true, false))
        } else if letter == 64 {  // @: text at x/y
            Some((seq![2u8, 2], true, false))
        } else if letter == 89 || letter == 76 || letter == 82 || letter == 66 || letter == 111 {
            // Y: font style, L: line, R: rectangle, B: bar, o: filled oval
            Some((seq![2u8, 2, 2, 2], false, false))
        } else if letter == 67 || letter == 70 {  // C: circle, F: flood fill
            Some((seq![2u8, 2, 2], false, false))
        } else if letter == 79 || letter == 86 || letter == 105 {
            // O: oval, V: oval arc, i: oval pie slice
            Some((Seq::new(6, |i: int| 2u8), false, false))
        } else if letter == 65 || letter == 73 {  // A: arc, I: pie slice
            Some((Seq::new(5, |i: int| 2u8), false, false))
        } else if letter == 90 || letter == 115 {  // Z: bezier, s: fill pattern
            Some((Seq::new(9, |i: int| 2u8), false, false))
        } else if letter == 80 || letter == 112 || letter == 108 {
            // P: polygon, p: filled polygon, l: poly line
            Some((seq![], false, true))
        } else if letter == 61 {  // =: line style
            Some((seq![2u8, 4, 2], false, false))
        } else {
            None
        }
    } else if level == 1 {
        if letter == 77 {  // M: mouse region
            Some((seq![2u8, 2, 2, 2, 2, 1, 1, 5], true, false))
        } else if letter == 75 || letter == 69 {  // K: kill mouse fields, E: end text
            Some((seq![], false, false))
        } else if letter == 84 {  // T: begin text
            Some((seq![2u8, 2, 2, 2, 2], false, false))
        } else if letter == 116 || letter == 87 {  // t: region text, W: write icon
            Some((seq![1u8], true, false))
        } else if letter == 67 {  // C: get image
            Some((seq![2u8, 2, 2, 2, 1], false, false))
        } else if letter == 80 {  // P: put image
            Some((seq![2u8, 2, 2, 1], false, false))
        } else if letter == 66 {  // B: button style
            Some((seq![2u8, 2, 2, 4, 2, 2, 2, 2, 2, 2, 2, 2, 2, 2, 6], false, false))
        } else if letter == 68 {  // D: define a text variable
            Some((seq![3u8, 2], true, false))
        } else if letter == 27 {  // ESC: query
            Some((seq![1u8, 3], true, false))
        } else if letter == 71 {  // G: copy region
            Some((Seq::new(6, |i: int| 2u8), false, false))
        } else if letter == 82 {  // R: read scene
            Some((seq![8u8], true, false))
        } else {
            None
        }
    } else if level == 9 {
        if letter == 27 {  // ESC: enter block transfer mode
            Some((seq![1u8, 1, 2, 4], true, false))
        } else {
            None
        }
    } else {
        None
    }
}

/// How the code of a command is written.
pub open spec fn code_of(level: u8, letter: u8) -> Seq<u8> {
    if level == 0 {
        seq![letter]
    } else {
        seq![(48 + level) as u8, letter]
    }
}

/// The widths of the numeric parameters of a command.
pub open spec fn widths_of(c: RipCommandView) -> Seq<u8> {
    let lay = layout(c.level, c.letter)->Some_0;
    if lay.2 {
        Seq::new(c.args.len(), |i: int| 2u8)
    } else {
        lay.0
    }
}

/// A command that can be written: a known code, as many parameters as the
/// code asks for, each within its width, and a text only where the code takes
/// one.
pub open spec fn well_formed(c: RipCommandView) -> bool {
    &&& layout(c.level, c.letter) is Some
    &&& if layout(c.level, c.letter)->Some_0.2 {
        c.args.len() >= 1 && c.args.len() == 1 + 2 * c.args[0]
    } else {
        c.args.len() == layout(c.level, c.letter)->Some_0.0.len()
    }
    &&& forall|i: int| 0 <= i < c.args.len() ==> #[trigger] c.args[i] < pow36(widths_of(c)[i] as nat)
    &&& if layout(c.level, c.letter)->Some_0.1 {
        valid_text(c.text)
    } else {
        c.text.len() == 0
    }
}

/// The parameters `args` written with the widths `ws`, one after the other.
pub open spec fn encode_args(args: Seq<u64>, ws: Seq<u8>) -> Seq<u8>
    decreases args.len(),
{
    if args.len() == 0 || ws.len() == 0 {
        seq![]
    } else {
        encode(args[0] as nat, ws[0] as nat) + encode_args(args.drop_first(), ws.drop_first())
    }
}

/// How a command is written between two `|`.
pub open spec fn serialize(c: RipCommandView) -> Seq<u8> {
    code_of(c.level, c.letter) + encode_args(c.args, widths_of(c)) + escape(c.text)
}

/// The command that the bytes `s` write, if they write one.
pub open spec fn command_of(s: Seq<u8>) -> Option<RipCommandView> {
    if exists|c: RipCommandView| well_formed(c) && serialize(c) == s {
        Some(choose|c: RipCommandView| well_formed(c) && serialize(c) == s)
    } else {
        None
    }
}

// ---------------------------------------------------------------------------
// Reading, step by step.
/// The level, letter and length of the code at the start of `s`.
spec fn split_code(s: Seq<u8>) -> Option<(u8, u8, int)> {
    if s.len() == 0 {
        None
    } else if s[0] == 49 || s[0] == 57 {
        if s.len() >= 2 {
            Some(((s[0] - 48) as u8, s[1], 2))
        } else {
            None
        }
    } else {
        Some((0u8, s[0], 1))
    }
}

/// Parameters of the widths `ws` read from the front of `s`, and what follows.
spec fn decode_args(s: Seq<u8>, ws: Seq<u8>) -> Option<(Seq<u64>, Seq<u8>)>
    decreases ws.len(),
{
    if ws.len() == 0 {
        Some((seq![], s))
    } else {
        let w = ws[0] as int;
        if s.len() < w || !all_digits(s.subrange(0, w)) {
            None
        } else {
            match decode_args(s.subrange(w, s.len() as int), ws.drop_first()) {
                Some((a, rest)) => Some((seq![decode(s.subrange(0, w)) as u64] + a, rest)),
                None => None,
            }
        }
    }
}

/// The widths with which the parameters of `body` are read.
spec fn read_widths(lay: (Seq<u8>, bool, bool), body: Seq<u8>) -> Option<Seq<u8>> {
    if lay.2 {
        if body.len() >= 2 && all_digits(body.subrange(0, 2)) {
            Some(Seq::new((1 + 2 * decode(body.subrange(0, 2))) as nat, |i: int| 2u8))
        } else {
            None
        }
    } else {
        Some(lay.0)
    }
}

/// Reading a command, step by step.
spec fn read_command(s: Seq<u8>) -> Option<RipCommandView> {
    match split_code(s) {
        None => None,
        Some((level, letter, pos)) => match layout(level, letter) {
            None => None,
            Some(lay) => {
                let body = s.subrange(pos, s.len() as int);
                match read_widths(lay, body) {
                    None => None,
                    Some(ws) => match decode_args(body, ws) {
                        None => None,
                        Some((args, rest)) => if lay.1 {
                            match unescape(rest) {
                                Some(t) => Some(RipCommandView { level, letter, args, text: t }),
                                None => None,
                            }
                        } else if rest.len() == 0 {
                            Some(RipCommandView { level, letter, args, text: seq![] })
                        } else {
                            None
                        },
                    },
                }
            },
        },
    }
}

/// The codes of the known commands: levels 0, 1 and 9, no level-0 letter
/// that is the digit of a level, no letter that ends a command or a line or
/// escapes, and widths from 1 to 8.
pub proof fn lemma_layout_codes(level: u8, letter: u8)
    requires
        layout(level, letter) is Some,
    ensures
        level == 0 ==> letter != 49 && letter != 57,
        letter != 124 && letter != 92 && letter != 10 && letter != 13,
        level == 0 || level == 1 || level == 9,
        forall|i: int| 0 <= i < layout(level, letter)->Some_0.0.len() ==>
            1 <= #[trigger] layout(level, letter)->Some_0.0[i] <= 8,
{
}

proof fn lemma_encode_args_split(args: Seq<u64>, ws: Seq<u8>)
    requires
        args.len() > 0,
        args.len() == ws.len(),
    ensures
        encode_args(args, ws) == encode(args[0] as nat, ws[0] as nat) + encode_args(args.drop_first(), ws.drop_first()),
{
}

proof fn lemma_decode_encode_args(args: Seq<u64>, ws: Seq<u8>, rest: Seq<u8>)
    requires
        args.len() == ws.len(),
        forall|i: int| 0 <= i < args.len() ==> #[trigger] args[i] < pow36(ws[i] as nat),
    ensures
        decode_args(encode_args(args, ws) + rest, ws) == Some((args, rest)),
    decreases args.len(),
{
    if args.len() > 0 {
        let a0 = args[0];
        let w = ws[0];
        let e0 = encode(a0 as nat, w as nat);
        let tail = encode_args(args.drop_first(), ws.drop_first());
        let s = encode_args(args, ws) + rest;
        lemma_encode_len(a0 as nat, w as nat);
        lemma_decode_encode(a0 as nat, w as nat);
        assert(args.drop_first().len() == ws.drop_first().len());
        assert forall|i: int| 0 <= i < args.drop_first().len() implies #[trigger] args.drop_first()[i] < pow36(ws.drop_first()[i] as nat) by {
            assert(args.drop_first()[i] == args[i + 1]);
            assert(ws.drop_first()[i] == ws[i + 1]);
        }
        lemma_decode_encode_args(args.drop_first(), ws.drop_first(), rest);
        assert(s =~= e0 + (tail + rest));
        assert(s.subrange(0, w as int) =~= e0);
        assert(s.subrange(w as int, s.len() as int) =~= tail + rest);
        assert(seq![a0] + args.drop_first() =~= args);
    } else {
        assert(encode_args(args, ws) + rest =~= rest);
    }
}

/// Widths that parameters of `u64` can have.
spec fn small_widths(ws: Seq<u8>) -> bool {
    forall|i: int| 0 <= i < ws.len() ==> #[trigger] ws[i] <= 8
}

proof fn lemma_encode_decode_args(s: Seq<u8>, ws: Seq<u8>)
    requires
        decode_args(s, ws) is Some,
        small_widths(ws),
    ensures
        ({
            let (a, rest) = decode_args(s, ws)->Some_0;
            &&& a.len() == ws.len()
            &&& forall|i: int| 0 <= i < a.len() ==> #[trigger] a[i] < pow36(ws[i] as nat)
            &&& encode_args(a, ws) + rest == s
        }),
    decreases ws.len(),
{
    if ws.len() > 0 {
        let w = ws[0] as int;
        let head = s.subrange(0, w);
        let tail = s.subrange(w, s.len() as int);
        assert(small_widths(ws.drop_first())) by {
            assert forall|i: int| 0 <= i < ws.drop_first().len() implies #[trigger] ws.drop_first()[i] <= 8 by {
                assert(ws.drop_first()[i] == ws[i + 1]);
            }
        }
        lemma_encode_decode_args(tail, ws.drop_first());
        let (a1, rest) = decode_args(tail, ws.drop_first())->Some_0;
        lemma_encode_decode(head);
        lemma_pow36_bound(w as nat);
        let d = decode(head);
        assert(d < 2821109907456);
        let (a, r2) = decode_args(s, ws)->Some_0;
        assert(r2 == rest);
        assert(a == seq![d as u64] + a1);
        assert(a[0] == d);
        assert(a.drop_first() =~= a1);
        assert forall|i: int| 0 <= i < a.len() implies #[trigger] a[i] < pow36(ws[i] as nat) by {
            if i > 0 {
                assert(a[i] == a1[i - 1]);
                assert(ws[i] == ws.drop_first()[i - 1]);
            }
        }
        assert(encode(a[0] as nat, ws[0] as nat) == head);
        assert(encode_args(a, ws) == encode(a[0] as nat, ws[0] as nat) + encode_args(a.drop_first(), ws.drop_first()));
        assert(encode_args(a, ws) + rest =~= head + (encode_args(a1, ws.drop_first()) + rest));
        assert(head + tail =~= s);
    } else {
        assert(encode_args(seq![], ws) + s =~= s);
    }
}

/// Reading what a command writes gives that command.
proof fn lemma_read_serialized(c: RipCommandView)
    requires
        well_formed(c),
    ensures
        read_command(serialize(c)) == Some(c),
{
    let lay = layout(c.level, c.letter)->Some_0;
    lemma_layout_codes(c.level, c.letter);
    let code = code_of(c.level, c.letter);
    let ws = widths_of(c);
    let enc = encode_args(c.args, ws);
    let s = serialize(c);
    let body = enc + escape(c.text);
    assert(split_code(s) == Some((c.level, c.letter, code.len() as int)));
    assert(s.subrange(code.len() as int, s.len() as int) =~= body);
    assert(ws.len() == c.args.len());
    lemma_decode_encode_args(c.args, ws, escape(c.text));
    if lay.2 {
        lemma_encode_args_split(c.args, ws);
        lemma_encode_len(c.args[0] as nat, 2);
        assert(c.args[0] < pow36(2));
        lemma_decode_encode(c.args[0] as nat, 2);
        assert(body.subrange(0, 2) =~= encode(c.args[0] as nat, 2));
        assert(read_widths(lay, body) == Some(ws)) by {
            assert(Seq::new((1 + 2 * decode(body.subrange(0, 2))) as nat, |i: int| 2u8) =~= ws);
        }
    }
    assert(read_widths(lay, body) == Some(ws));
    if lay.1 {
        lemma_unescape_escape(c.text);
    } else {
        assert(escape(c.text) =~= Seq::<u8>::empty());
        assert(c.text =~= Seq::<u8>::empty());
    }
    assert(read_command(s) =~= Some(c));
}

/// What reads as a command is that command written.
proof fn lemma_serialize_read(s: Seq<u8>)
    requires
        read_command(s) is Some,
    ensures
        well_formed(read_command(s)->Some_0),
        serialize(read_command(s)->Some_0) == s,
{
    let c = read_command(s)->Some_0;
    let (level, letter, pos) = split_code(s)->Some_0;
    let lay = layout(level, letter)->Some_0;
    lemma_layout_codes(level, letter);
    let body = s.subrange(pos, s.len() as int);
    let ws = read_widths(lay, body)->Some_0;
    let (args, rest) = decode_args(body, ws)->Some_0;
    assert(small_widths(ws));
    lemma_encode_decode_args(body, ws);
    assert(c.level == level && c.letter == letter && c.args == args);
    if lay.2 {
        lemma_encode_decode(body.subrange(0, 2));
        assert(pow36(2) == 1296) by {
            assert(pow36(0) == 1);
            assert(pow36(1) == 36);
        }
        assert(args[0] == decode(body.subrange(0, 2))) by {
            assert(ws.len() > 0);
            assert(ws[0] == 2);
            assert(decode(body.subrange(0, 2)) < 1296);
        }
        assert(ws =~= widths_of(c));
    } else {
        assert(ws == widths_of(c));
    }
    if lay.1 {
        lemma_escape_unescape(rest);
    } else {
        assert(escape(c.text) =~= rest);
    }
    assert(code_of(level, letter) =~= s.subrange(0, pos));
    assert(escape(c.text) == rest);
    assert(encode_args(c.args, widths_of(c)) + escape(c.text) == body);
    assert(s.subrange(0, pos) + body =~= s);
    assert(serialize(c) =~= code_of(level, letter) + (encode_args(c.args, widths_of(c)) + escape(c.text)));
}

/// Two well-formed commands that are written alike are the same command.
pub proof fn lemma_serialize_injective(c1: RipCommandView, c2: RipCommandView)
    requires
        well_formed(c1),
        well_formed(c2),
        serialize(c1) == serialize(c2),
    ensures
        c1 == c2,
{
    lemma_read_serialized(c1);
    lemma_read_serialized(c2);
}

/// The text that writes a command: `|` and the bytes of the command, each
/// byte read as the character with that code.
pub open spec fn rip_text(c: RipCommandView) -> Seq<char> {
    (seq![124u8] + serialize(c)).map_values(|b: u8| b as char)
}

/// The bytes that a well-formed command writes stand for that command.
pub proof fn lemma_command_of_serialize(c: RipCommandView)
    requires
        well_formed(c),
    ensures
        command_of(serialize(c)) == Some(c),
{
    let s = serialize(c);
    assert(exists|d: RipCommandView| well_formed(d) && serialize(d) == s);
    let d = choose|d: RipCommandView| well_formed(d) && serialize(d) == s;
    lemma_serialize_injective(c, d);
}

/// The bytes `T` and a text without `|`, `\\` or a line end stand for the
/// text command with that text.
pub proof fn lemma_text_command(t: Seq<u8>)
    requires
        forall|i: int| 0 <= i < t.len() ==> #[trigger] t[i] != 124 && t[i] != 92 && t[i] != 10 && t[i] != 13,
    ensures
        command_of(seq![84u8] + t) == Some(RipCommandView { level: 0, letter: 84, args: seq![], text: t }),
{
    let c = RipCommandView { level: 0, letter: 84, args: seq![], text: t };
    crate::rip_text::lemma_text_as_is(t);
    assert(widths_of(c) =~= Seq::<u8>::empty());
    assert(well_formed(c));
    assert(encode_args(c.args, widths_of(c)) =~= Seq::<u8>::empty());
    assert(serialize(c) =~= seq![84u8] + t);
    lemma_command_of_serialize(c);
}

/// What stands for a command is that command written.
pub proof fn lemma_command_of_some(s: Seq<u8>)
    requires
        command_of(s) is Some,
    ensures
        well_formed(command_of(s)->Some_0),
        serialize(command_of(s)->Some_0) == s,
{
}

proof fn lemma_read_is_command_of(s: Seq<u8>)
    ensures
        read_command(s) == command_of(s),
{
    if read_command(s) is Some {
        lemma_serialize_read(s);
        lemma_command_of_serialize(read_command(s)->Some_0);
    } else if exists|c: RipCommandView| well_formed(c) && serialize(c) == s {
        let c = choose|c: RipCommandView| well_formed(c) && serialize(c) == s;
        lemma_read_serialized(c);
    }
}

// ---------------------------------------------------------------------------
// Executable code.
/// A RIPscrip command, always well-formed.
pub struct RipCommand {
    level: u8,
    letter: u8,
    args: Vec<u64>,
    text: Vec<u8>,
}

impl View for RipCommand {
    type V = RipCommandView;

    closed spec fn view(&self) -> RipCommandView {
        RipCommandView { level: self.level, letter: self.letter, args: self.args@, text: self.text@ }
    }
}

/// The parameter layout of a command code, as `layout` gives it.
fn layout_of(level: u8, letter: u8) -> (r: Option<(Vec<u8>, bool, bool)>)
    ensures
        match r {
            Some(l) => layout(level, letter) == Some((l.0@, l.1, l.2)),
            None => layout(level, letter) is None,
        },
{
    let r: Option<(Vec<u8>, bool, bool)> = if level == 0 {
        if letter == 119 {
            Some((vec![2u8, 2, 2, 2, 1, 1], false, false))
        } else if letter == 118 {
            Some((vec![2u8, 2, 2, 2], false, false))
        } else if letter == 42 || letter == 101 || letter == 69 || letter == 72 || letter == 62 {
            Some((vec![], false, false))
        } else if letter == 103 || letter == 97 || letter == 109 || letter == 88 || letter == 83 {
            Some((vec![2u8, 2], false, false))
        } else if letter == 99 || letter == 87 {
            Some((vec![2u8], false, false))
        } else if letter == 81 {
            Some((vec![2u8, 2, 2, 2, 2, 2, 2, 2, 2, 2, 2, 2, 2, 2, 2, 2], false, false))
        } else if letter == 84 {
            Some((vec![], true, false))
        } else if letter == 64 {
            Some((vec![2u8, 2], true, false))
        } else if letter == 89 || letter == 76 || letter == 82 || letter == 66 || letter == 111 {
            Some((vec![2u8, 2, 2, 2], false, false))
        } else if letter == 67 || letter == 70 {
            Some((vec![2u8, 2, 2], false, false))
        } else if letter == 79 || letter == 86 || letter == 105 {
            Some((vec![2u8, 2, 2, 2, 2, 2], false, false))
        } else if letter == 65 || letter == 73 {
            Some((vec![2u8, 2, 2, 2, 2], false, false))
        } else if letter == 90 || letter == 115 {
            Some((vec![2u8, 2, 2, 2, 2, 2, 2, 2, 2], false, false))
        } else if letter == 80 || letter == 112 || letter == 108 {
            Some((vec![], false, true))
        } else if letter == 61 {
            Some((vec![2u8, 4, 2], false, false))
        } else {
            None
        }
    } else if level == 1 {
        if letter == 77 {
            Some((vec![2u8, 2, 2, 2, 2, 1, 1, 5], true, false))
        } else if letter == 75 || letter == 69 {
            Some((vec![], false, false))
        } else if letter == 84 {
            Some((vec![2u8, 2, 2, 2, 2], false, false))
        } else if letter == 116 || letter == 87 {
            Some((vec![1u8], true, false))
        } else if letter == 67 {
            Some((vec![2u8, 2, 2, 2, 1], false, false))
        } else if letter == 80 {
            Some((vec![2u8, 2, 2, 1], false, false))
        } else if letter == 66 {
            Some((vec![2u8, 2, 2, 4, 2, 2, 2, 2, 2, 2, 2, 2, 2, 2, 6], false, false))
        } else if letter == 68 {
            Some((vec![3u8, 2], true, false))
        } else if letter == 27 {
            Some((vec![1u8, 3], true, false))
        } else if letter == 71 {
            Some((vec![2u8, 2, 2, 2, 2, 2], false, false))
        } else if letter == 82 {
            Some((vec![8u8], true, false))
        } else {
            None
        }
    } else if level == 9 {
        if letter == 27 {
            Some((vec![1u8, 1, 2, 4], true, false))
        } else {
            None
        }
    } else {
        None
    };
    proof {
        if r is Some {
            assert(layout(level, letter)->Some_0.0 =~= r->Some_0.0@);
        }
    }
    r
}


/// `acc` put in front of the parameters in `o`, if there are any.
spec fn prepend_args(acc: Seq<u64>, o: Option<(Seq<u64>, Seq<u8>)>) -> Option<(Seq<u64>, Seq<u8>)> {
    match o {
        Some((a, r)) => Some((acc + a, r)),
        None => None,
    }
}

/// Reads parameters of the widths `ws` from `s[start..]`; gives them and the
/// position after them.
fn decode_args_from(s: &[u8], start: usize, ws: &Vec<u8>) -> (r: Option<(Vec<u64>, usize)>)
    requires
        start <= s@.len(),
        small_widths(ws@),
    ensures
        match r {
            Some((a, end)) => start <= end <= s@.len() && decode_args(s@.subrange(start as int, s@.len() as int), ws@)
                == Some((a@, s@.subrange(end as int, s@.len() as int))),
            None => decode_args(s@.subrange(start as int, s@.len() as int), ws@) is None,
        },
{
    let n = s.len();
    let wn = ws.len();
    let mut acc: Vec<u64> = Vec::new();
    let mut p: usize = start;
    let mut i: usize = 0;
    proof {
        assert(ws@.subrange(0, wn as int) =~= ws@);
        assert(prepend_args(acc@, decode_args(s@.subrange(start as int, n as int), ws@))
            =~= decode_args(s@.subrange(start as int, n as int), ws@)) by {
            let o = decode_args(s@.subrange(start as int, n as int), ws@);
            if o is Some {
                assert(acc@ + o->Some_0.0 =~= o->Some_0.0);
            }
        }
    }
    while i < wn
        invariant
            n == s@.len(),
            wn == ws@.len(),
            small_widths(ws@),
            start <= p <= n,
            i <= wn,
            decode_args(s@.subrange(start as int, n as int), ws@) == prepend_args(
                acc@,
                decode_args(s@.subrange(p as int, n as int), ws@.subrange(i as int, wn as int)),
            ),
        decreases wn - i,
    {
        let w = ws[i];
        let ghost here = s@.subrange(p as int, n as int);
        let ghost wrest = ws@.subrange(i as int, wn as int);
        proof {
            assert(wrest[0] == w);
            assert(w <= 8);
        }
        if (w as usize) > n - p {
            return None;
        }
        proof {
            assert(here.subrange(0, w as int) =~= s@.subrange(p as int, p + w));
        }
        match decode_digits(s, p, w as usize) {
            None => {
                return None;
            },
            Some(v) => {
                proof {
                    assert(here.subrange(w as int, here.len() as int) =~= s@.subrange(p + w, n as int));
                    assert(wrest.drop_first() =~= ws@.subrange(i + 1, wn as int));
                    lemma_encode_decode(s@.subrange(p as int, p + w));
                    lemma_pow36_bound(w as nat);
                    let o = decode_args(s@.subrange(p + w, n as int), ws@.subrange(i + 1, wn as int));
                    assert(decode_args(here, wrest) == prepend_args(seq![v], o));
                    assert(prepend_args(acc@, prepend_args(seq![v], o)) =~= prepend_args(acc@.push(v), o)) by {
                        if o is Some {
                            assert(acc@ + (seq![v] + o->Some_0.0) =~= acc@.push(v) + o->Some_0.0);
                        }
                    }
                }
                acc.push(v);
                p = p + w as usize;
                i = i + 1;
            },
        }
    }
    proof {
        assert(ws@.subrange(wn as int, wn as int) =~= Seq::<u8>::empty());
        assert(acc@ + Seq::<u64>::empty() =~= acc@);
    }
    Some((acc, p))
}

/// `count` widths of 2.
fn twos(count: usize) -> (r: Vec<u8>)
    ensures
        r@ == Seq::new(count as nat, |i: int| 2u8),
{
    let mut v: Vec<u8> = Vec::new();
    let mut i: usize = 0;
    while i < count
        invariant
            i <= count,
            v@ =~= Seq::new(i as nat, |j: int| 2u8),
        decreases count - i,
    {
        v.push(2);
        i = i + 1;
    }
    v
}

/// 36 to the power `w`.
fn pow36_of(w: u8) -> (r: u64)
    requires
        w <= 8,
    ensures
        r == pow36(w as nat),
{
    let mut r: u64 = 1;
    let mut i: u8 = 0;
    while i < w
        invariant
            i <= w <= 8,
            r == pow36(i as nat),
        decreases w - i,
    {
        proof {
            lemma_pow36_bound((i + 1) as nat);
        }
        r = r * 36;
        i = i + 1;
    }
    r
}

/// Reads one command, as `read_command` does.
fn read_command_exec(s: &[u8]) -> (r: Option<RipCommand>)
    ensures
        match r {
            Some(c) => read_command(s@) == Some(c@),
            None => read_command(s@) is None,
        },
{
    let n = s.len();
    if n == 0 {
        return None;
    }
    let level: u8;
    let letter: u8;
    let pos: usize;
    if s[0] == 49 || s[0] == 57 {
        if n >= 2 {
            level = s[0] - 48;
            letter = s[1];
            pos = 2;
        } else {
            return None;
        }
    } else {
        level = 0;
        letter = s[0];
        pos = 1;
    }
    assert(split_code(s@) == Some((level, letter, pos as int)));
    let (widths, has_text, poly) = match layout_of(level, letter) {
        Some(l) => l,
        None => {
            return None;
        },
    };
    let ghost lay = (widths@, has_text, poly);
    let ghost body = s@.subrange(pos as int, n as int);
    proof {
        lemma_layout_codes(level, letter);
    }
    let ws: Vec<u8> = if poly {
        if n - pos < 2 {
            return None;
        }
        proof {
            assert(body.subrange(0, 2) =~= s@.subrange(pos as int, pos + 2));
        }
        match decode_digits(s, pos, 2) {
            None => {
                return None;
            },
            Some(cnt) => {
                proof {
                    lemma_encode_decode(s@.subrange(pos as int, pos + 2));
                    assert(pow36(2) == 1296) by {
                        assert(pow36(0) == 1);
                        assert(pow36(1) == 36);
                    }
                }
                twos((1 + 2 * cnt) as usize)
            },
        }
    } else {
        widths
    };
    assert(read_widths(lay, body) == Some(ws@));
    let (args, end) = match decode_args_from(s, pos, &ws) {
        Some(x) => x,
        None => {
            return None;
        },
    };
    let text: Vec<u8> = if has_text {
        match unescape_from(s, end) {
            Some(t) => t,
            None => {
                return None;
            },
        }
    } else if end == n {
        Vec::new()
    } else {
        return None;
    };
    let ghost v = RipCommandView { level, letter, args: args@, text: text@ };
    proof {
        if !has_text {
            assert(s@.subrange(end as int, n as int).len() == 0);
        }
        assert(read_command(s@) =~= Some(v));
        lemma_serialize_read(s@);
    }
    Some(RipCommand { level, letter, args, text })
}

impl RipCommand {
    #[verifier::type_invariant]
    spec fn inv(self) -> bool {
        well_formed(self@)
    }

    /// The command with these parts, if they make a well-formed command.
    pub fn new(level: u8, letter: u8, args: Vec<u64>, text: Vec<u8>) -> (r: Option<RipCommand>)
        ensures
            r is Some <==> well_formed(RipCommandView { level, letter, args: args@, text: text@ }),
            r matches Some(c) ==> c@ == (RipCommandView { level, letter, args: args@, text: text@ }),
    {
        let ghost v = RipCommandView { level, letter, args: args@, text: text@ };
        let (widths, has_text, poly) = match layout_of(level, letter) {
            Some(l) => l,
            None => {
                return None;
            },
        };
        proof {
            lemma_layout_codes(level, letter);
        }
        let k = args.len();
        proof {
            assert(pow36(2) == 1296) by {
                assert(pow36(0) == 1);
                assert(pow36(1) == 36);
            }
        }
        if poly {
            if k < 1 || args[0] >= 1296 || k as u64 != 1 + 2 * args[0] {
                proof {
                    if k >= 1 && args[0] >= 1296 {
                        assert(widths_of(v)[0] == 2);
                        assert(!(args@[0] < pow36(widths_of(v)[0] as nat)));
                    }
                }
                return None;
            }
        } else if k != widths.len() {
            return None;
        }
        let mut i: usize = 0;
        while i < k
            invariant
                v == (RipCommandView { level, letter, args: args@, text: text@ }),
                k == args@.len(),
                widths_of(v).len() == k,
                poly ==> k >= 1 && k == 1 + 2 * args@[0],
                i <= k,
                layout(level, letter) == Some((widths@, has_text, poly)),
                !poly ==> widths@.len() == k,
                forall|j: int| 0 <= j < widths@.len() ==> 1 <= #[trigger] widths@[j] <= 8,
                forall|j: int| 0 <= j < i ==> #[trigger] args@[j] < pow36(widths_of(v)[j] as nat),
            decreases k - i,
        {
            let w: u8 = if poly {
                2
            } else {
                widths[i]
            };
            assert(w == widths_of(v)[i as int]);
            if args[i] >= pow36_of(w) {
                return None;
            }
            i = i + 1;
        }
        if has_text {
            let tn = text.len();
            let mut j: usize = 0;
            while j < tn
                invariant
                    tn == text@.len(),
                    j <= tn,
                    forall|m: int| 0 <= m < j ==> !is_line_end(#[trigger] text@[m]),
                decreases tn - j,
            {
                if text[j] == 10 || text[j] == 13 {
                    return None;
                }
                j = j + 1;
            }
        } else if text.len() != 0 {
            return None;
        }
        Some(RipCommand { level, letter, args, text })
    }

    /// The level of the command: 0, 1 or 9.
    pub fn level(&self) -> (r: u8)
        ensures
            r == self@.level,
    {
        self.level
    }

    /// The letter that names the command within its level.
    pub fn letter(&self) -> (r: u8)
        ensures
            r == self@.letter,
    {
        self.letter
    }

    /// The numeric parameters, in order.
    pub fn args(&self) -> (r: &Vec<u64>)
        ensures
            r@ == self@.args,
    {
        &self.args
    }

    /// The text of the command (empty for a command without one).
    pub fn text(&self) -> (r: &Vec<u8>)
        ensures
            r@ == self@.text,
    {
        &self.text
    }

    /// The bytes that write the command between two `|`.
    pub fn to_rip_bytes(&self) -> (r: Vec<u8>)
        ensures
            r@ == serialize(self@),
    {
        let mut out: Vec<u8> = Vec::new();
        self.write_to(&mut out);
        proof {
            assert(out@ =~= serialize(self@));
        }
        out
    }

    /// Appends the bytes that write the command.
    fn write_to(&self, out: &mut Vec<u8>)
        ensures
            final(out)@ == old(out)@ + serialize(self@),
    {
        proof {
            use_type_invariant(self);
            lemma_layout_codes(self.level, self.letter);
        }
        let ghost c = self@;
        let ghost ws = widths_of(c);
        let ghost start = out@;
        if self.level != 0 {
            out.push(48 + self.level);
        }
        out.push(self.letter);
        proof {
            assert(out@ =~= start + code_of(c.level, c.letter));
        }
        let (widths, _has_text, poly) = match layout_of(self.level, self.letter) {
            Some(l) => l,
            None => (Vec::new(), false, false),
        };
        let k = self.args.len();
        let mut i: usize = 0;
        proof {
            assert(c.args.subrange(0, k as int) =~= c.args);
            assert(ws.subrange(0, k as int) =~= ws);
        }
        while i < k
            invariant
                c == self@,
                ws == widths_of(c),
                well_formed(c),
                k == c.args.len(),
                ws.len() == k,
                layout(c.level, c.letter) == Some((widths@, _has_text, poly)),
                i <= k,
                out@ + encode_args(c.args.subrange(i as int, k as int), ws.subrange(i as int, k as int))
                    == start + code_of(c.level, c.letter) + encode_args(c.args, ws),
            decreases k - i,
        {
            let w: u8 = if poly {
                2
            } else {
                widths[i]
            };
            let a = self.args[i];
            proof {
                assert(w == ws[i as int]);
                assert(a < pow36(w as nat));
                let ra = c.args.subrange(i as int, k as int);
                let rw = ws.subrange(i as int, k as int);
                lemma_encode_args_split(ra, rw);
                assert(ra.drop_first() =~= c.args.subrange(i + 1, k as int));
                assert(rw.drop_first() =~= ws.subrange(i + 1, k as int));
            }
            let ghost before = out@;
            push_encoded(out, a, w as usize);
            proof {
                assert(out@ + encode_args(c.args.subrange(i + 1, k as int), ws.subrange(i + 1, k as int))
                    =~= before + (encode(a as nat, w as nat) + encode_args(c.args.subrange(i + 1, k as int), ws.subrange(i + 1, k as int))));
            }
            i = i + 1;
        }
        proof {
            assert(c.args.subrange(k as int, k as int) =~= Seq::<u64>::empty());
            assert(out@ + Seq::<u8>::empty() =~= out@);
        }
        push_escaped(out, &self.text);
        proof {
            assert(out@ =~= start + serialize(c));
        }
    }

    /// The text that writes the command: `|` and the bytes of the command,
    /// each byte read as the character with that code.
    pub fn to_rip_string(&self) -> (r: String)
        ensures
            r@ == rip_text(self@),
    {
        let mut bytes: Vec<u8> = Vec::new();
        bytes.push(124);
        self.write_to(&mut bytes);
        latin1_string(&bytes)
    }
}

/// Reads the bytes between two `|` as a command.
pub fn parse_command(s: &[u8]) -> (r: Option<RipCommand>)
    ensures
        match r {
            Some(c) => command_of(s@) == Some(c@),
            None => command_of(s@) is None,
        },
{
    proof {
        lemma_read_is_command_of(s@);
    }
    read_command_exec(s)
}

/// Appends the character `c` to `s`, through `String::push`.
#[verifier::external_body]
fn push_char(s: &mut String, c: char)
    ensures
        final(s)@ == old(s)@.push(c),
{
    s.push(c)
}

/// The `String` of the characters whose codes are the bytes, in order.
fn latin1_string(bytes: &Vec<u8>) -> (r: String)
    ensures
        r@ == bytes@.map_values(|b: u8| b as char),
{
    let mut out = String::new();
    let n = bytes.len();
    let mut i: usize = 0;
    while i < n
        invariant
            n == bytes@.len(),
            i <= n,
            out@ =~= bytes@.subrange(0, i as int).map_values(|b: u8| b as char),
        decreases n - i,
    {
        push_char(&mut out, bytes[i] as char);
        i = i + 1;
    }
    proof {
        assert(bytes@.subrange(0, n as int) =~= bytes@);
    }
    out
}

} // verus!
