//! The text parameter that ends some RIPscrip commands. In the command stream
//! `|` ends a command, so a `|` of the text is written `\|`, and a backslash
//! `\\`. A text lies on one line: it holds no line end.
use vstd::prelude::*;

verus! {

/// `|`, which ends a command.
pub open spec fn is_bar(b: u8) -> bool {
    b == 124
}

/// `\`, which escapes the byte after it.
pub open spec fn is_backslash(b: u8) -> bool {
    b == 92
}

/// A line feed or carriage return.
pub open spec fn is_line_end(b: u8) -> bool {
    b == 10 || b == 13
}

/// The bytes that a text writes behind a backslash.
pub open spec fn needs_escape(b: u8) -> bool {
    is_bar(b) || is_backslash(b)
}

/// A text that a command can carry: one without a line end.
pub open spec fn valid_text(t: Seq<u8>) -> bool {
    forall|i: int| 0 <= i < t.len() ==> !is_line_end(#[trigger] t[i])
}

/// How one byte of a text is written.
pub open spec fn escape_byte(b: u8) -> Seq<u8> {
    if needs_escape(b) {
        seq![92u8, b]
    } else {
        seq![b]
    }
}

/// How a text is written in a command.
pub open spec fn escape(t: Seq<u8>) -> Seq<u8>
    decreases t.len(),
{
    if t.len() == 0 {
        seq![]
    } else {
        escape_byte(t[0]) + escape(t.drop_first())
    }
}

/// `p` put in front of the text in `o`, if there is one.
pub open spec fn prepend(p: Seq<u8>, o: Option<Seq<u8>>) -> Option<Seq<u8>> {
    match o {
        Some(r) => Some(p + r),
        None => None,
    }
}

/// The text that the written form `s` stands for, if `s` is one.
pub open spec fn unescape(s: Seq<u8>) -> Option<Seq<u8>>
    decreases s.len(),
{
    if s.len() == 0 {
        Some(seq![])
    } else if is_backslash(s[0]) {
        if s.len() >= 2 && needs_escape(s[1]) {
            prepend(seq![s[1]], unescape(s.subrange(2, s.len() as int)))
        } else {
            None
        }
    } else if is_bar(s[0]) || is_line_end(s[0]) {
        None
    } else {
        prepend(seq![s[0]], unescape(s.drop_first()))
    }
}

/// A text read back from its written form is the same text.
pub proof fn lemma_unescape_escape(t: Seq<u8>)
    requires
        valid_text(t),
    ensures
        unescape(escape(t)) == Some(t),
    decreases t.len(),
{
    if t.len() > 0 {
        let rest = t.drop_first();
        assert(valid_text(rest)) by {
            assert forall|i: int| 0 <= i < rest.len() implies !is_line_end(#[trigger] rest[i]) by {
                assert(rest[i] == t[i + 1]);
            }
        }
        lemma_unescape_escape(rest);
        let e = escape(t);
        assert(!is_line_end(t[0]));
        if needs_escape(t[0]) {
            assert(e.subrange(2, e.len() as int) =~= escape(rest));
        } else {
            assert(e.drop_first() =~= escape(rest));
        }
        assert(seq![t[0]] + rest =~= t);
    }
}

/// Whatever reads as a text is that text written.
pub proof fn lemma_escape_unescape(s: Seq<u8>)
    requires
        unescape(s) is Some,
    ensures
        valid_text(unescape(s)->Some_0),
        escape(unescape(s)->Some_0) == s,
    decreases s.len(),
{
    if s.len() > 0 {
        let t = unescape(s)->Some_0;
        if is_backslash(s[0]) {
            let tail = s.subrange(2, s.len() as int);
            lemma_escape_unescape(tail);
            let r = unescape(tail)->Some_0;
            assert(t == seq![s[1]] + r);
            assert(t.drop_first() =~= r);
            assert(valid_text(t)) by {
                assert forall|i: int| 0 <= i < t.len() implies !is_line_end(#[trigger] t[i]) by {
                    if i > 0 {
                        assert(t[i] == r[i - 1]);
                    }
                }
            }
            assert(escape(t) =~= s);
        } else {
            let tail = s.drop_first();
            lemma_escape_unescape(tail);
            let r = unescape(tail)->Some_0;
            assert(t == seq![s[0]] + r);
            assert(t.drop_first() =~= r);
            assert(valid_text(t)) by {
                assert forall|i: int| 0 <= i < t.len() implies !is_line_end(#[trigger] t[i]) by {
                    if i > 0 {
                        assert(t[i] == r[i - 1]);
                    }
                }
            }
            assert(escape(t) =~= s);
        }
    }
}

/// A text none of whose bytes is escaped or ends a line.
pub open spec fn plain(u: Seq<u8>) -> bool {
    forall|i: int| 0 <= i < u.len() ==> !needs_escape(#[trigger] u[i]) && !is_line_end(u[i])
}

/// Writing two texts one after the other is writing them joined.
pub proof fn lemma_escape_concat(a: Seq<u8>, b: Seq<u8>)
    ensures
        escape(a + b) == escape(a) + escape(b),
    decreases a.len(),
{
    if a.len() == 0 {
        assert(a + b =~= b);
        assert(escape(a) + escape(b) =~= escape(b));
    } else {
        lemma_escape_concat(a.drop_first(), b);
        assert((a + b).drop_first() =~= a.drop_first() + b);
        assert((a + b)[0] == a[0]);
        assert(escape(a + b) =~= escape(a) + escape(b));
    }
}

/// A plain text is written as it is.
pub proof fn lemma_escape_plain(u: Seq<u8>)
    requires
        plain(u),
    ensures
        escape(u) == u,
    decreases u.len(),
{
    if u.len() > 0 {
        let rest = u.drop_first();
        assert(plain(rest)) by {
            assert forall|i: int| 0 <= i < rest.len() implies !needs_escape(#[trigger] rest[i]) && !is_line_end(rest[i]) by {
                assert(rest[i] == u[i + 1]);
            }
        }
        lemma_escape_plain(rest);
        assert(!needs_escape(u[0]));
        assert(escape(u) =~= u);
    }
}

/// Only `|` and `\\` are written behind a backslash; every other byte is
/// written as itself.
pub proof fn lemma_escape_byte_cases(b: u8)
    ensures
        (b == 124 || b == 92) ==> escape_byte(b) == seq![92u8, b],
        (b != 124 && b != 92) ==> escape_byte(b) == seq![b],
{
}

/// A text without `|`, `\\` or a line end is written as itself, and reads
/// back as itself.
pub proof fn lemma_text_as_is(t: Seq<u8>)
    requires
        forall|i: int| 0 <= i < t.len() ==> #[trigger] t[i] != 124 && t[i] != 92 && t[i] != 10 && t[i] != 13,
    ensures
        escape(t) == t,
        unescape(t) == Some(t),
{
    assert(plain(t));
    assert(valid_text(t));
    lemma_escape_plain(t);
    lemma_unescape_escape(t);
}

/// Appends the written form of the text `t`.
pub fn push_escaped(out: &mut Vec<u8>, t: &Vec<u8>)
    ensures
        final(out)@ == old(out)@ + escape(t@),
{
    let n = t.len();
    let mut i: usize = 0;
    proof {
        assert(t@.subrange(0, n as int) =~= t@);
        assert(out@ + escape(t@) =~= old(out)@ + escape(t@));
    }
    while i < n
        invariant
            n == t@.len(),
            i <= n,
            out@ + escape(t@.subrange(i as int, n as int)) == old(out)@ + escape(t@),
        decreases n - i,
    {
        let b = t[i];
        let ghost rest = t@.subrange(i as int, n as int);
        proof {
            assert(rest.drop_first() =~= t@.subrange(i + 1, n as int));
            assert(rest[0] == b);
        }
        if b == 124 || b == 92 {
            out.push(92);
            out.push(b);
        } else {
            out.push(b);
        }
        proof {
            assert(escape(rest) == escape_byte(b) + escape(t@.subrange(i + 1, n as int)));
        }
        i = i + 1;
    }
    proof {
        assert(t@.subrange(n as int, n as int) =~= Seq::<u8>::empty());
        assert(out@ + Seq::<u8>::empty() =~= out@);
    }
}

/// The text that `s[start..]` writes, if it writes one.
pub fn unescape_from(s: &[u8], start: usize) -> (r: Option<Vec<u8>>)
    requires
        start <= s@.len(),
    ensures
        match r {
            Some(t) => unescape(s@.subrange(start as int, s@.len() as int)) == Some(t@),
            None => unescape(s@.subrange(start as int, s@.len() as int)) is None,
        },
{
    let n = s.len();
    let mut out: Vec<u8> = Vec::new();
    let mut i: usize = start;
    proof {
        assert(prepend(out@, unescape(s@.subrange(start as int, n as int))) =~= unescape(s@.subrange(start as int, n as int)));
    }
    while i < n
        invariant
            n == s@.len(),
            start <= i <= n,
            unescape(s@.subrange(start as int, n as int)) == prepend(out@, unescape(s@.subrange(i as int, n as int))),
        decreases n - i,
    {
        let b = s[i];
        let ghost rest = s@.subrange(i as int, n as int);
        if b == 92 {
            if i + 1 < n && (s[i + 1] == 124 || s[i + 1] == 92) {
                let c = s[i + 1];
                proof {
                    assert(rest.subrange(2, rest.len() as int) =~= s@.subrange(i + 2, n as int));
                    let o = unescape(s@.subrange(i + 2, n as int));
                    assert(prepend(out@, prepend(seq![c], o)) =~= prepend(out@.push(c), o)) by {
                        if o is Some {
                            assert(out@ + (seq![c] + o->Some_0) =~= out@.push(c) + o->Some_0);
                        }
                    }
                }
                out.push(c);
                i = i + 2;
            } else {
                return None;
            }
        } else if b == 124 || b == 10 || b == 13 {
            return None;
        } else {
            proof {
                assert(rest.drop_first() =~= s@.subrange(i + 1, n as int));
                let o = unescape(s@.subrange(i + 1, n as int));
                assert(prepend(out@, prepend(seq![b], o)) =~= prepend(out@.push(b), o)) by {
                    if o is Some {
                        assert(out@ + (seq![b] + o->Some_0) =~= out@.push(b) + o->Some_0);
                    }
                }
            }
            out.push(b);
            i = i + 1;
        }
    }
    proof {
        assert(s@.subrange(n as int, n as int) =~= Seq::<u8>::empty());
        assert(out@ + Seq::<u8>::empty() =~= out@);
    }
    Some(out)
}

} // verus!
