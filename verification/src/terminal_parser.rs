//! Turning the byte stream a download process writes into terminal lines:
//! committed lines and the line still being written, as a terminal shows them.
use vstd::prelude::*;
use vstd::utf8::{
    decode_utf8, decode_utf8_encode_utf8, encode_utf8, encode_utf8_decode_utf8, encode_utf8_valid_utf8,
    valid_utf8,
};
use crate::text::{
    is_white_space, lemma_trim_has_no_outer_white_space, push_char, trim_seq,
    trimmed_owned,
};

verus! {

broadcast use vstd::string::group_string_axioms;

/// What the GB18030 decoder of `encoding_rs` makes of `bytes` (with its BOM
/// sniffing and with malformed sequences replaced by U+FFFD).
pub uninterp spec fn gb18030_decoded(bytes: Seq<u8>) -> Seq<char>;

/// `std::str::from_utf8`: the text of `bytes` when they are valid UTF-8. The
/// contract claims what the documentation says: a result exactly for valid
/// UTF-8, and then the characters the bytes encode.
#[verifier::external_body]
fn utf8_text(bytes: &[u8]) -> (r: Option<String>)
    ensures
        r is Some <==> valid_utf8(bytes@),
        r matches Some(s) ==> s@ == decode_utf8(bytes@),
{
    match std::str::from_utf8(bytes) {
        Ok(s) => Some(s.to_string()),
        Err(_) => None,
    }
}

/// `encoding_rs::GB18030.decode`: the text of `bytes` read as GB18030. The
/// contract only names the result, a function of the bytes alone; the
/// decoding table itself is left to the crate.
#[verifier::external_body]
fn gb18030_text(bytes: &[u8]) -> (r: String)
    ensures
        r@ == gb18030_decoded(bytes@),
{
    encoding_rs::GB18030.decode(bytes).0.into_owned()
}

/// How download output is read: as UTF-8 when it is valid UTF-8, otherwise as
/// GB18030, the code page of the Windows console the downloader writes to.
pub open spec fn cli_decoded(bytes: Seq<u8>) -> Seq<char> {
    if valid_utf8(bytes) {
        decode_utf8(bytes)
    } else {
        gb18030_decoded(bytes)
    }
}

pub fn decode_cli_bytes_lossy(bytes: &[u8]) -> (r: String)
    ensures
        r@ == cli_decoded(bytes@),
{
    match utf8_text(bytes) {
        Some(s) => s,
        None => gb18030_text(bytes),
    }
}

/// The lines of a terminal: those committed, the one being written, and whether
/// the next printed character starts that line afresh (after a lone `\r`).
pub struct TerminalState {
    pub committed: Seq<Seq<char>>,
    pub active: Seq<char>,
    pub replace_on_next_char: bool,
}

/// The state after the line being written is ended: it is committed, trimmed,
/// unless nothing but white space is left of it.
pub open spec fn commit_line(st: TerminalState) -> TerminalState {
    let line = trim_seq(st.active);
    TerminalState {
        committed: if line.len() > 0 {
            st.committed.push(line)
        } else {
            st.committed
        },
        active: Seq::empty(),
        replace_on_next_char: false,
    }
}

/// The state after the characters `cs` are printed: `\n` and `\r\n` end the
/// line; a lone `\r` makes the next printed character start the line afresh;
/// any other character is added to the line.
pub open spec fn feed_chars(st: TerminalState, cs: Seq<char>) -> TerminalState
    decreases cs.len(),
{
    if cs.len() == 0 {
        st
    } else if cs[0] == '\r' {
        if cs.len() > 1 && cs[1] == '\n' {
            feed_chars(commit_line(st), cs.subrange(2, cs.len() as int))
        } else {
            feed_chars(TerminalState { replace_on_next_char: true, ..st }, cs.drop_first())
        }
    } else if cs[0] == '\n' {
        feed_chars(commit_line(st), cs.drop_first())
    } else {
        let base = if st.replace_on_next_char {
            Seq::empty()
        } else {
            st.active
        };
        feed_chars(
            TerminalState { active: base.push(cs[0]), replace_on_next_char: false, ..st },
            cs.drop_first(),
        )
    }
}

/// Every committed line is non-empty with no white space at either end, and the
/// line being written holds no line break.
pub open spec fn terminal_well_formed(st: TerminalState) -> bool {
    &&& forall|i: int|
        0 <= i < st.committed.len() ==> {
            let l = #[trigger] st.committed[i];
            l.len() > 0 && !is_white_space(l[0]) && !is_white_space(l.last())
        }
    &&& forall|i: int| 0 <= i < st.active.len() ==> #[trigger] st.active[i] != '\r' && st.active[i] != '\n'
}

proof fn lemma_commit_keeps_well_formed(st: TerminalState)
    requires
        terminal_well_formed(st),
    ensures
        terminal_well_formed(commit_line(st)),
{
    lemma_trim_has_no_outer_white_space(st.active);
    let c = commit_line(st);
    assert forall|i: int| 0 <= i < c.committed.len() implies {
        let l = #[trigger] c.committed[i];
        l.len() > 0 && !is_white_space(l[0]) && !is_white_space(l.last())
    } by {
        if i < st.committed.len() {
            assert(c.committed[i] == st.committed[i]);
        }
    }
}

pub proof fn lemma_feed_keeps_well_formed(st: TerminalState, cs: Seq<char>)
    requires
        terminal_well_formed(st),
    ensures
        terminal_well_formed(feed_chars(st, cs)),
    decreases cs.len(),
{
    if cs.len() > 0 {
        if cs[0] == '\r' {
            if cs.len() > 1 && cs[1] == '\n' {
                lemma_commit_keeps_well_formed(st);
                lemma_feed_keeps_well_formed(commit_line(st), cs.subrange(2, cs.len() as int));
            } else {
                lemma_feed_keeps_well_formed(
                    TerminalState { replace_on_next_char: true, ..st },
                    cs.drop_first(),
                );
            }
        } else if cs[0] == '\n' {
            lemma_commit_keeps_well_formed(st);
            lemma_feed_keeps_well_formed(commit_line(st), cs.drop_first());
        } else {
            let base = if st.replace_on_next_char {
                Seq::empty()
            } else {
                st.active
            };
            let next = TerminalState {
                active: base.push(cs[0]),
                replace_on_next_char: false,
                ..st
            };
            assert forall|i: int| 0 <= i < next.active.len() implies #[trigger] next.active[i]
                != '\r' && next.active[i] != '\n' by {
                if i < base.len() {
                    assert(next.active[i] == base[i]);
                }
            }
            lemma_feed_keeps_well_formed(next, cs.drop_first());
        }
    }
}

/// Printing output in two pieces leaves the terminal as printing it at once
/// would, wherever the output is cut, a `\r\n` pair included.
pub proof fn law_feed_is_piecewise(st: TerminalState, a: Seq<char>, b: Seq<char>)
    ensures
        feed_chars(feed_chars(st, a), b) == feed_chars(st, a + b),
    decreases a.len(),
{
    if a.len() == 0 {
        assert(a + b =~= b);
    } else {
        let ab = a + b;
        assert(ab[0] == a[0]);
        if a[0] == '\r' {
            if a.len() > 1 && a[1] == '\n' {
                assert(ab[1] == '\n');
                assert(ab.subrange(2, ab.len() as int) =~= a.subrange(2, a.len() as int) + b);
                law_feed_is_piecewise(commit_line(st), a.subrange(2, a.len() as int), b);
            } else if a.len() > 1 {
                assert(ab[1] == a[1]);
                assert(ab.drop_first() =~= a.drop_first() + b);
                law_feed_is_piecewise(
                    TerminalState { replace_on_next_char: true, ..st },
                    a.drop_first(),
                    b,
                );
            } else {
                let r = TerminalState { replace_on_next_char: true, ..st };
                assert(a.drop_first() =~= Seq::<char>::empty());
                assert(feed_chars(st, a) == feed_chars(r, a.drop_first()));
                assert(ab.drop_first() =~= b);
                if b.len() > 0 && b[0] == '\n' {
                    assert(ab[1] == '\n');
                    assert(ab.subrange(2, ab.len() as int) =~= b.drop_first());
                    assert(commit_line(r) == commit_line(st));
                }
            }
        } else {
            assert(ab.drop_first() =~= a.drop_first() + b);
            if a[0] == '\n' {
                law_feed_is_piecewise(commit_line(st), a.drop_first(), b);
            } else {
                let base = if st.replace_on_next_char {
                    Seq::empty()
                } else {
                    st.active
                };
                law_feed_is_piecewise(
                    TerminalState { active: base.push(a[0]), replace_on_next_char: false, ..st },
                    a.drop_first(),
                    b,
                );
            }
        }
    }
}

/// The terminal of one download: committed lines not yet taken, the line being
/// written, and whether the next character starts that line afresh. Every byte
/// fed is decoded at once, so none is ever kept back.
pub struct TerminalBuffer {
    committed_lines: Vec<String>,
    active_line: String,
    replace_on_next_char: bool,
}

proof fn lemma_encode_utf8_concat(x: Seq<char>, y: Seq<char>)
    ensures
        encode_utf8(x + y) == encode_utf8(x) + encode_utf8(y),
    decreases x.len(),
{
    if x.len() == 0 {
        assert(x + y =~= y);
        assert(encode_utf8(x) + encode_utf8(y) =~= encode_utf8(y));
    } else {
        assert((x + y)[0] == x[0]);
        assert((x + y).drop_first() =~= x.drop_first() + y);
        lemma_encode_utf8_concat(x.drop_first(), y);
        assert(encode_utf8(x + y) =~= encode_utf8(x) + encode_utf8(y));
    }
}

/// Two pieces of valid UTF-8 decode, together, to the characters of the
/// first followed by those of the second.
proof fn lemma_cli_decoded_concat(a: Seq<u8>, b: Seq<u8>)
    requires
        valid_utf8(a),
        valid_utf8(b),
    ensures
        valid_utf8(a + b),
        cli_decoded(a + b) == cli_decoded(a) + cli_decoded(b),
{
    let x = decode_utf8(a);
    let y = decode_utf8(b);
    decode_utf8_encode_utf8(a);
    decode_utf8_encode_utf8(b);
    lemma_encode_utf8_concat(x, y);
    encode_utf8_valid_utf8(x + y);
    encode_utf8_decode_utf8(x + y);
}

/// Feeding two pieces of valid UTF-8 one after the other leaves the terminal
/// as feeding them at once: the same committed lines and the same line being
/// written, wherever the output is cut.
pub proof fn law_feed_bytes_is_piecewise(st: TerminalState, a: Seq<u8>, b: Seq<u8>)
    requires
        valid_utf8(a),
        valid_utf8(b),
    ensures
        feed_chars(feed_chars(st, cli_decoded(a)), cli_decoded(b)) == feed_chars(st, cli_decoded(a + b)),
{
    lemma_cli_decoded_concat(a, b);
    law_feed_is_piecewise(st, cli_decoded(a), cli_decoded(b));
}

/// The characters of each string.
pub open spec fn lines_view(v: Seq<String>) -> Seq<Seq<char>> {
    v.map_values(|s: String| s@)
}

impl TerminalBuffer {
    /// The terminal state this buffer holds.
    pub closed spec fn state(&self) -> TerminalState {
        TerminalState {
            committed: lines_view(self.committed_lines@),
            active: self.active_line@,
            replace_on_next_char: self.replace_on_next_char,
        }
    }

    /// Every committed line is non-empty and trimmed, and the line being
    /// written holds no line break.
    #[verifier::type_invariant]
    spec fn well_formed(&self) -> bool {
        terminal_well_formed(self.state())
    }

    pub fn new() -> (r: TerminalBuffer)
        ensures
            r.state() == (TerminalState {
                committed: Seq::empty(),
                active: Seq::empty(),
                replace_on_next_char: false,
            }),
            terminal_well_formed(r.state()),
    {
        let r = TerminalBuffer {
            committed_lines: Vec::new(),
            active_line: String::new(),
            replace_on_next_char: false,
        };
        proof {
            assert(lines_view(r.committed_lines@) =~= Seq::<Seq<char>>::empty());
        }
        r
    }

    /// Prints the characters decoded from `data`.
    pub fn feed(&mut self, data: &[u8])
        ensures
            final(self).state() == feed_chars(old(self).state(), cli_decoded(data@)),
            terminal_well_formed(old(self).state()),
            terminal_well_formed(final(self).state()),
    {
        proof {
            use_type_invariant(&*self);
        }
        let text = decode_cli_bytes_lossy(data);
        let chars = crate::text::char_vec(text.as_str());
        let ghost all = chars@;
        let ghost target = feed_chars(old(self).state(), all);
        let mut k: usize = 0;
        proof {
            assert(all.subrange(0, all.len() as int) =~= all);
        }
        while k < chars.len()
            invariant
                k <= chars.len(),
                chars@ == all,
                feed_chars(self.state(), all.subrange(k as int, all.len() as int)) == target,
            decreases chars.len() - k,
        {
            proof {
                use_type_invariant(&*self);
            }
            let ghost rest = all.subrange(k as int, all.len() as int);
            let ch = chars[k];
            proof {
                assert(rest[0] == ch);
                assert(rest.drop_first() =~= all.subrange(k + 1, all.len() as int));
            }
            if ch == '\r' {
                if k + 1 < chars.len() && chars[k + 1] == '\n' {
                    proof {
                        assert(rest[1] == '\n');
                        assert(rest.subrange(2, rest.len() as int) =~= all.subrange(
                            k + 2,
                            all.len() as int,
                        ));
                    }
                    self.commit_active_line();
                    k = k + 2;
                } else {
                    proof {
                        if rest.len() > 1 {
                            assert(rest[1] == chars@[k + 1]);
                        }
                    }
                    self.replace_on_next_char = true;
                    k = k + 1;
                }
            } else if ch == '\n' {
                self.commit_active_line();
                k = k + 1;
            } else {
                if self.replace_on_next_char {
                    self.active_line = String::new();
                    self.replace_on_next_char = false;
                }
                let mut line = self.active_line.clone();
                push_char(&mut line, ch);
                self.active_line = line;
                k = k + 1;
            }
        }
        proof {
            assert(all.subrange(k as int, all.len() as int) =~= Seq::<char>::empty());
            use_type_invariant(&*self);
        }
    }

    /// Ends the line being written.
    pub fn commit_active_line(&mut self)
        ensures
            final(self).state() == commit_line(old(self).state()),
    {
        let ghost before = self.state();
        let ghost after = commit_line(before);
        proof {
            use_type_invariant(&*self);
            lemma_commit_keeps_well_formed(before);
        }
        let line = trimmed_owned(self.active_line.as_str());
        if !line.as_str().is_empty() {
            let mut lines: Vec<String> = Vec::new();
            proof {
                assert(lines_view(lines@) =~= Seq::<Seq<char>>::empty());
            }
            std::mem::swap(&mut lines, &mut self.committed_lines);
            lines.push(line);
            proof {
                assert(lines_view(lines@) =~= after.committed);
                assert(terminal_well_formed(TerminalState { committed: after.committed, ..before }));
            }
            self.committed_lines = lines;
        }
        proof {
            assert(lines_view(self.committed_lines@) =~= after.committed);
            assert(terminal_well_formed(after));
        }
        self.active_line = String::new();
        self.replace_on_next_char = false;
        proof {
            assert(lines_view(self.committed_lines@) =~= commit_line(old(self).state()).committed);
        }
    }

    /// Hands over the committed lines, oldest first, and forgets them.
    pub fn take_committed(&mut self) -> (r: Vec<String>)
        ensures
            lines_view(r@) == old(self).state().committed,
            final(self).state() == (TerminalState {
                committed: Seq::empty(),
                ..old(self).state()
            }),
    {
        proof {
            use_type_invariant(&*self);
        }
        let mut taken: Vec<String> = Vec::new();
        proof {
            assert(lines_view(taken@) =~= Seq::<Seq<char>>::empty());
            assert(terminal_well_formed(TerminalState { committed: Seq::empty(), ..self.state() }));
        }
        std::mem::swap(&mut taken, &mut self.committed_lines);
        proof {
            assert(lines_view(self.committed_lines@) =~= Seq::<Seq<char>>::empty());
        }
        taken
    }

    /// The line being written.
    pub fn active_line(&self) -> (r: String)
        ensures
            r@ == self.state().active,
    {
        self.active_line.clone()
    }

    /// Commits the line being written unless it is only white space.
    pub fn finish(&mut self)
        ensures
            final(self).state() == if trim_seq(old(self).state().active).len() > 0 {
                commit_line(old(self).state())
            } else {
                old(self).state()
            },
    {
        let t = trimmed_owned(self.active_line.as_str());
        if !t.as_str().is_empty() {
            self.commit_active_line();
        }
    }
}

/// Feeding two pieces of valid UTF-8 to a buffer one after the other leaves
/// it as feeding them at once would leave a buffer in the same state: the
/// same committed lines and line being written, each committed line
/// non-empty and trimmed.
pub proof fn law_buffer_feed_is_piecewise(st: TerminalState, a: Seq<u8>, b: Seq<u8>)
    requires
        valid_utf8(a),
        valid_utf8(b),
        terminal_well_formed(st),
    ensures
        feed_chars(feed_chars(st, cli_decoded(a)), cli_decoded(b)) == feed_chars(st, cli_decoded(a + b)),
        terminal_well_formed(feed_chars(st, cli_decoded(a + b))),
{
    law_feed_bytes_is_piecewise(st, a, b);
    lemma_feed_keeps_well_formed(st, cli_decoded(a + b));
}

/// The position of the first `\r` or `\n` in `bytes`.
pub open spec fn first_line_break(bytes: Seq<u8>, i: int) -> bool {
    &&& 0 <= i < bytes.len()
    &&& (bytes[i] == 13u8 || bytes[i] == 10u8)
    &&& forall|j: int| 0 <= j < i ==> bytes[j] != 13u8 && bytes[j] != 10u8
}

/// Splits `input` at its first line break: the text before it, decoded and
/// trimmed, and the bytes after it (after both bytes of a `\r\n`).
pub fn take_cli_segment(input: &[u8]) -> (r: Option<(String, Vec<u8>)>)
    ensures
        match r {
            None => forall|j: int| 0 <= j < input@.len() ==> input@[j] != 13u8 && input@[j] != 10u8,
            Some((segment, rest)) => exists|i: int|
                first_line_break(input@, i) && segment@ == trim_seq(
                    cli_decoded(input@.subrange(0, i)),
                ) && rest@ == input@.subrange(
                    if input@[i] == 13u8 && i + 1 < input@.len() && input@[i + 1] == 10u8 {
                        i + 2
                    } else {
                        i + 1
                    },
                    input@.len() as int,
                ),
        },
{
    let mut split: usize = 0;
    while split < input.len()
        invariant
            split <= input.len(),
            forall|j: int| 0 <= j < split ==> input@[j] != 13u8 && input@[j] != 10u8,
        ensures
            split <= input.len(),
            forall|j: int| 0 <= j < split ==> input@[j] != 13u8 && input@[j] != 10u8,
            split < input.len() ==> (input@[split as int] == 13u8 || input@[split as int] == 10u8),
        decreases input.len() - split,
    {
        if input[split] == 13u8 || input[split] == 10u8 {
            break;
        }
        split = split + 1;
    }
    if split >= input.len() {
        return None;
    }
    let mut rest_start = split + 1;
    if input[split] == 13u8 && split + 1 < input.len() && input[split + 1] == 10u8 {
        rest_start = split + 2;
    }
    let mut head: Vec<u8> = Vec::new();
    let mut i: usize = 0;
    while i < split
        invariant
            i <= split < input.len(),
            head@ == input@.subrange(0, i as int),
        decreases split - i,
    {
        head.push(input[i]);
        proof {
            assert(input@.subrange(0, i as int).push(input@[i as int]) =~= input@.subrange(0, i + 1));
        }
        i = i + 1;
    }
    let mut rest: Vec<u8> = Vec::new();
    let mut j: usize = rest_start;
    while j < input.len()
        invariant
            rest_start <= j <= input.len(),
            rest@ == input@.subrange(rest_start as int, j as int),
        decreases input.len() - j,
    {
        rest.push(input[j]);
        proof {
            assert(input@.subrange(rest_start as int, j as int).push(input@[j as int])
                =~= input@.subrange(rest_start as int, j + 1));
        }
        j = j + 1;
    }
    let text = decode_cli_bytes_lossy(head.as_slice());
    let segment = trimmed_owned(text.as_str());
    proof {
        assert(first_line_break(input@, split as int));
    }
    Some((segment, rest))
}

} // verus!
