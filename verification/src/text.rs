//! Text as sequences of characters: numbers in decimal, white space,
//! lines, and the few searches the parsers and renderers share.

use vstd::prelude::*;

verus! {

/// The character of one decimal digit.
pub open spec fn digit_char(d: int) -> char {
    (('0' as int) + d) as char
}

/// The decimal numeral of `n`, without sign or padding.
pub open spec fn decimal(n: nat) -> Seq<char>
    decreases n,
{
    if n < 10 {
        seq![digit_char(n as int)]
    } else {
        decimal(n / 10).push(digit_char((n % 10) as int))
    }
}

/// The decimal numeral of `n`, with a leading minus sign below zero.
pub open spec fn signed_decimal(n: int) -> Seq<char> {
    if n < 0 {
        seq!['-'] + decimal((-n) as nat)
    } else {
        decimal(n as nat)
    }
}

/// Appends the decimal numeral of `n` to `out`.
pub fn push_decimal(out: &mut String, n: u64)
    ensures
        final(out)@ == old(out)@ + decimal(n as nat),
    decreases n,
{
    if n >= 10 {
        push_decimal(out, n / 10);
    }
    let d: u8 = (n % 10) as u8;
    let c: char = (48u8 + d) as char;
    assert(c == digit_char((n % 10) as int));
    out.push(c);
    assert(out@ == old(out)@ + decimal(n as nat)) by {
        if n >= 10 {
            assert(old(out)@ + decimal((n / 10) as nat).push(c) == (old(out)@ + decimal(
                (n / 10) as nat,
            )).push(c));
        } else {
            assert(old(out)@ + seq![c] == old(out)@.push(c));
        }
    }
}

/// Appends the decimal numeral of `n`, signed, to `out`.
pub fn push_signed_decimal(out: &mut String, n: i64)
    ensures
        final(out)@ == old(out)@ + signed_decimal(n as int),
{
    if n < 0 {
        out.push('-');
        let magnitude: u64 = ((-(n + 1)) as u64) + 1;
        push_decimal(out, magnitude);
        assert(out@ == old(out)@ + signed_decimal(n as int)) by {
            assert(old(out)@.push('-') + decimal(magnitude as nat) == old(out)@ + (seq!['-']
                + decimal(magnitude as nat)));
        }
    } else {
        push_decimal(out, n as u64);
    }
}

/// `String::push` of std: the character is appended, nothing else changes.
pub assume_specification[ String::push ](s: &mut String, c: char)
    ensures
        final(s)@ == old(s)@.push(c),
;

/// Whether a character has the Unicode property White_Space, as
/// `char::is_whitespace` of std reports it.
pub uninterp spec fn white_space(c: char) -> bool;

/// `char::is_whitespace` of std: its answer is given the name `white_space`.
pub assume_specification[ char::is_whitespace ](c: char) -> (r: bool)
    ensures
        r == white_space(c),
;

/// How many characters from `from` on, taken in a row, satisfy `keep`.
pub open spec fn run(s: Seq<char>, from: int, keep: spec_fn(char) -> bool) -> nat
    decreases s.len() - from,
{
    if from < 0 || from >= s.len() || !keep(s[from]) {
        0
    } else {
        1 + run(s, from + 1, keep)
    }
}

/// A run ends inside the text, on the first character that breaks it.
pub proof fn lemma_run_stops(s: Seq<char>, from: int, keep: spec_fn(char) -> bool)
    requires
        0 <= from <= s.len(),
    ensures
        from + run(s, from, keep) <= s.len(),
        forall|i: int| from <= i < from + run(s, from, keep) ==> keep(#[trigger] s[i]),
        from + run(s, from, keep) < s.len() ==> !keep(s[from + run(s, from, keep)]),
    decreases s.len() - from,
{
    if from < s.len() && keep(s[from]) {
        lemma_run_stops(s, from + 1, keep);
    }
}

/// A run that is known to hold up to `to` goes on from there.
pub proof fn lemma_run_resumes(s: Seq<char>, from: int, to: int, keep: spec_fn(char) -> bool)
    requires
        0 <= from <= to <= s.len(),
        forall|i: int| from <= i < to ==> keep(#[trigger] s[i]),
    ensures
        from + run(s, from, keep) == to + run(s, to, keep),
    decreases to - from,
{
    if from < to {
        lemma_run_resumes(s, from + 1, to, keep);
    }
}

/// The characters that are white space.
pub open spec fn blank() -> spec_fn(char) -> bool {
    |c: char| white_space(c)
}

/// The characters that are not white space.
pub open spec fn solid() -> spec_fn(char) -> bool {
    |c: char| !white_space(c)
}

/// The characters that do not end a line.
pub open spec fn within_line() -> spec_fn(char) -> bool {
    |c: char| c != '\n'
}

/// The index of the first white space at or after `from`, or the length.
pub fn skip_solid(chars: &Vec<char>, from: usize) -> (end: usize)
    requires
        from <= chars.len(),
    ensures
        end == from + run(chars@, from as int, solid()),
        from <= end <= chars.len(),
{
    let mut i: usize = from;
    while i < chars.len() && !chars[i].is_whitespace()
        invariant
            from <= i <= chars.len(),
            forall|k: int| from <= k < i ==> solid()(#[trigger] chars@[k]),
        decreases chars.len() - i,
    {
        i += 1;
    }
    proof {
        lemma_run_resumes(chars@, from as int, i as int, solid());
    }
    i
}

/// The index of the first character at or after `from` that is no white
/// space, or the length.
pub fn skip_blank(chars: &Vec<char>, from: usize) -> (end: usize)
    requires
        from <= chars.len(),
    ensures
        end == from + run(chars@, from as int, blank()),
        from <= end <= chars.len(),
{
    let mut i: usize = from;
    while i < chars.len() && chars[i].is_whitespace()
        invariant
            from <= i <= chars.len(),
            forall|k: int| from <= k < i ==> blank()(#[trigger] chars@[k]),
        decreases chars.len() - i,
    {
        i += 1;
    }
    proof {
        lemma_run_resumes(chars@, from as int, i as int, blank());
    }
    i
}

/// The index of the first line feed at or after `from`, or the length.
pub fn skip_line(chars: &Vec<char>, from: usize) -> (end: usize)
    requires
        from <= chars.len(),
    ensures
        end == from + run(chars@, from as int, within_line()),
        from <= end <= chars.len(),
{
    let mut i: usize = from;
    while i < chars.len() && chars[i] != '\n'
        invariant
            from <= i <= chars.len(),
            forall|k: int| from <= k < i ==> within_line()(#[trigger] chars@[k]),
        decreases chars.len() - i,
    {
        i += 1;
    }
    proof {
        lemma_run_resumes(chars@, from as int, i as int, within_line());
    }
    i
}

/// The characters of a text, one by one.
pub fn to_chars(text: &str) -> (out: Vec<char>)
    ensures
        out@ == text@,
{
    let mut out: Vec<char> = Vec::new();
    for c in it: text.chars()
        invariant
            out@ == it.seq().take(it.index() as int),
            it.seq() == text@,
    {
        out.push(c);
    }
    out
}

/// The text made of the characters from `from` up to `to`.
pub fn text_of(chars: &Vec<char>, from: usize, to: usize) -> (out: String)
    requires
        from <= to <= chars.len(),
    ensures
        out@ == chars@.subrange(from as int, to as int),
{
    let mut out = String::new();
    let mut i: usize = from;
    while i < to
        invariant
            from <= i <= to <= chars.len(),
            out@ == chars@.subrange(from as int, i as int),
        decreases to - i,
    {
        out.push(chars[i]);
        i += 1;
    }
    out
}

/// Appends the characters from `from` up to `to` to `out`.
pub fn push_chars(out: &mut String, chars: &Vec<char>, from: usize, to: usize)
    requires
        from <= to <= chars.len(),
    ensures
        final(out)@ == old(out)@ + chars@.subrange(from as int, to as int),
{
    let mut i: usize = from;
    while i < to
        invariant
            from <= i <= to <= chars.len(),
            out@ == old(out)@ + chars@.subrange(from as int, i as int),
        decreases to - i,
    {
        out.push(chars[i]);
        i += 1;
    }
}

/// Where the text ends once the white space at its end is left out.
pub open spec fn solid_end(s: Seq<char>) -> int
    decreases s.len(),
{
    if s.len() == 0 || !white_space(s.last()) {
        s.len() as int
    } else {
        solid_end(s.drop_last())
    }
}

/// The text without the white space at its two ends.
pub open spec fn trimmed(s: Seq<char>) -> Seq<char> {
    let start = run(s, 0, blank()) as int;
    let end = solid_end(s);
    if start < end {
        s.subrange(start, end)
    } else {
        Seq::empty()
    }
}

/// The bounds of the text without the white space at its two ends; both are
/// the length of the text when nothing else is in it.
pub fn trim_bounds(chars: &Vec<char>) -> (bounds: (usize, usize))
    ensures
        bounds.0 <= bounds.1 <= chars.len(),
        chars@.subrange(bounds.0 as int, bounds.1 as int) == trimmed(chars@),
{
    let start = skip_blank(chars, 0);
    let mut end: usize = chars.len();
    assert(chars@.take(end as int) == chars@);
    while end > 0 && chars[end - 1].is_whitespace()
        invariant
            end <= chars.len(),
            solid_end(chars@) == solid_end(chars@.take(end as int)),
        decreases end,
    {
        assert(chars@.take(end as int).drop_last() == chars@.take(end as int - 1));
        end -= 1;
    }
    assert(solid_end(chars@) == end) by {
        assert(chars@.take(end as int).len() == end);
        if end > 0 {
            assert(chars@.take(end as int).last() == chars@[end as int - 1]);
        }
    }
    if start < end {
        (start, end)
    } else {
        assert(chars@.subrange(start as int, start as int) == Seq::<char>::empty());
        (start, start)
    }
}

/// A line without the carriage return that stood before its line feed.
pub open spec fn without_return(line: Seq<char>) -> Seq<char> {
    if line.len() > 0 && line.last() == '\r' {
        line.drop_last()
    } else {
        line
    }
}

/// The lines of the text from `from` on. A line ends at a line feed, which
/// is left out together with one carriage return before it; what follows
/// the last line feed is a line when it is not empty.
pub open spec fn lines_from(s: Seq<char>, from: int) -> Seq<Seq<char>>
    decreases s.len() - from,
{
    if from < 0 || from >= s.len() {
        Seq::empty()
    } else {
        let end = from + run(s, from, within_line());
        if end >= s.len() {
            seq![s.subrange(from, s.len() as int)]
        } else {
            seq![without_return(s.subrange(from, end))] + lines_from(s, end + 1)
        }
    }
}

/// The lines but for the first `n` of them.
pub open spec fn lines_after(lines: Seq<Seq<char>>, n: int) -> Seq<Seq<char>> {
    if 0 <= n < lines.len() {
        lines.skip(n)
    } else {
        Seq::empty()
    }
}

/// The lines with one line feed between each two of them.
pub open spec fn join_lines(lines: Seq<Seq<char>>) -> Seq<char>
    decreases lines.len(),
{
    if lines.len() == 0 {
        Seq::empty()
    } else if lines.len() == 1 {
        lines[0]
    } else {
        join_lines(lines.drop_last()) + seq!['\n'] + lines.last()
    }
}

/// The text from `from` on without its first `skip` lines, the other lines
/// joined by line feeds.
pub fn rejoin_lines(chars: &Vec<char>, from: usize, skip: usize) -> (out: String)
    requires
        from <= chars.len(),
    ensures
        out@ == join_lines(lines_after(lines_from(chars@, from as int), skip as int)),
{
    let mut out = String::new();
    let mut pos: usize = from;
    let mut count: usize = 0;
    let ghost done: Seq<Seq<char>> = Seq::empty();
    assert(Seq::<Seq<char>>::empty() + lines_from(chars@, from as int) == lines_from(
        chars@,
        from as int,
    ));
    while pos < chars.len()
        invariant
            from <= pos <= chars.len(),
            count <= pos - from,
            done.len() == count,
            lines_from(chars@, from as int) == done + lines_from(chars@, pos as int),
            out@ == join_lines(lines_after(done, skip as int)),
        decreases chars.len() - pos,
    {
        let end = skip_line(chars, pos);
        let ghost rest = lines_from(chars@, pos as int);
        let ghost line: Seq<char>;
        let next: usize;
        let stop: usize;
        if end < chars.len() {
            next = end + 1;
            if end > pos && chars[end - 1] == '\r' {
                stop = end - 1;
            } else {
                stop = end;
            }
            proof {
                let raw = chars@.subrange(pos as int, end as int);
                line = without_return(raw);
                if end > pos {
                    assert(raw.last() == chars@[end as int - 1]);
                    assert(raw.drop_last() == chars@.subrange(pos as int, end as int - 1));
                }
                assert(rest == seq![line] + lines_from(chars@, next as int));
            }
        } else {
            next = end;
            stop = end;
            proof {
                line = chars@.subrange(pos as int, end as int);
                assert(lines_from(chars@, next as int) == Seq::<Seq<char>>::empty());
                assert(rest == seq![line] + lines_from(chars@, next as int));
            }
        }
        assert(line == chars@.subrange(pos as int, stop as int));
        if count >= skip {
            if count > skip {
                out.push('\n');
            }
            push_chars(&mut out, chars, pos, stop);
        }
        proof {
            let grown = done.push(line);
            assert(done + (seq![line] + lines_from(chars@, next as int)) == grown + lines_from(
                chars@,
                next as int,
            ));
            if count > skip {
                assert(lines_after(grown, skip as int) == lines_after(done, skip as int).push(
                    line,
                ));
                assert(lines_after(grown, skip as int).drop_last() == lines_after(
                    done,
                    skip as int,
                ));
            } else if count == skip {
                assert(lines_after(grown, skip as int) == seq![line]);
                assert(lines_after(done, skip as int) == Seq::<Seq<char>>::empty());
                assert(Seq::<char>::empty() + line == line);
            }
            done = grown;
        }
        count += 1;
        pos = next;
    }
    assert(lines_from(chars@, pos as int) == Seq::<Seq<char>>::empty());
    assert(done + Seq::<Seq<char>>::empty() == done);
    out
}

/// The text with a backslash put before each double quote.
pub open spec fn escape_quotes(s: Seq<char>) -> Seq<char>
    decreases s.len(),
{
    if s.len() == 0 {
        Seq::empty()
    } else if s.last() == '"' {
        escape_quotes(s.drop_last()) + seq!['\\', '"']
    } else {
        escape_quotes(s.drop_last()).push(s.last())
    }
}

/// Appends `text` to `out`, a backslash put before each double quote.
pub fn push_escaped(out: &mut String, text: &str)
    ensures
        final(out)@ == old(out)@ + escape_quotes(text@),
{
    let chars = to_chars(text);
    let mut i: usize = 0;
    assert(chars@.take(0) == Seq::<char>::empty());
    assert(old(out)@ + Seq::<char>::empty() == old(out)@);
    while i < chars.len()
        invariant
            i <= chars.len(),
            out@ == old(out)@ + escape_quotes(chars@.take(i as int)),
        decreases chars.len() - i,
    {
        let c = chars[i];
        let ghost before = chars@.take(i as int);
        let ghost now = chars@.take(i as int + 1);
        assert(now.drop_last() == before);
        assert(now.last() == c);
        if c == '"' {
            out.push('\\');
            out.push('"');
            assert(out@ == old(out)@ + (escape_quotes(before) + seq!['\\', '"']));
        } else {
            out.push(c);
            assert(out@ == old(out)@ + escape_quotes(before).push(c));
        }
        i += 1;
    }
    assert(chars@.take(chars.len() as int) == chars@);
}

/// Whether `chars` begins with `prefix`.
pub fn starts_with(chars: &Vec<char>, prefix: &Vec<char>) -> (found: bool)
    ensures
        found == prefix@.is_prefix_of(chars@),
{
    if prefix.len() > chars.len() {
        return false;
    }
    let mut i: usize = 0;
    while i < prefix.len()
        invariant
            i <= prefix.len() <= chars.len(),
            forall|k: int| 0 <= k < i ==> prefix@[k] == chars@[k],
        decreases prefix.len() - i,
    {
        if prefix[i] != chars[i] {
            assert(chars@.subrange(0, prefix.len() as int)[i as int] != prefix@[i as int]);
            return false;
        }
        i += 1;
    }
    assert(prefix@ =~= chars@.subrange(0, prefix.len() as int));
    true
}

} // verus!
