//! The schema script: splitting it into lines, reading version markers,
//! collecting each version's statement, and canonicalising whitespace.
use vstd::prelude::*;

use crate::text::{append_chars, chars_of, copy_range, string_of};

verus! {

/// The text that opens a version block: `-- v `.
pub open spec fn marker() -> Seq<char> {
    seq!['-', '-', ' ', 'v', ' ']
}

/// Unicode white space, as `char::is_whitespace` defines it.
pub open spec fn is_ws(c: char) -> bool {
    c == '\t' || c == '\n' || c == '\x0B' || c == '\x0C' || c == '\r' || c == ' '
        || c == '\u{85}' || c == '\u{A0}' || c == '\u{1680}' || ('\u{2000}' <= c && c
        <= '\u{200A}') || c == '\u{2028}' || c == '\u{2029}' || c == '\u{202F}' || c
        == '\u{205F}' || c == '\u{3000}'
}

pub fn is_whitespace(c: char) -> (r: bool)
    ensures
        r == is_ws(c),
{
    c == '\t' || c == '\n' || c == '\x0B' || c == '\x0C' || c == '\r' || c == ' '
        || c == '\u{85}' || c == '\u{A0}' || c == '\u{1680}' || ('\u{2000}' <= c && c
        <= '\u{200A}') || c == '\u{2028}' || c == '\u{2029}' || c == '\u{202F}' || c
        == '\u{205F}' || c == '\u{3000}'
}

pub open spec fn trim_start(s: Seq<char>) -> Seq<char>
    decreases s.len(),
{
    if s.len() > 0 && is_ws(s[0]) {
        trim_start(s.drop_first())
    } else {
        s
    }
}

pub open spec fn trim_end(s: Seq<char>) -> Seq<char>
    decreases s.len(),
{
    if s.len() > 0 && is_ws(s.last()) {
        trim_end(s.drop_last())
    } else {
        s
    }
}

/// `s` without white space at either end.
pub open spec fn trim(s: Seq<char>) -> Seq<char> {
    trim_end(trim_start(s))
}

pub fn trim_chars(s: &Vec<char>) -> (r: Vec<char>)
    ensures
        r@ == trim(s@),
{
    let n = s.len();
    let mut i: usize = 0;
    assert(s@.subrange(0, n as int) =~= s@);
    while i < n && is_whitespace(s[i])
        invariant
            i <= n == s@.len(),
            trim_start(s@.subrange(i as int, n as int)) == trim_start(s@),
        decreases n - i,
    {
        assert(s@.subrange(i as int, n as int).drop_first() =~= s@.subrange(i + 1, n as int));
        i += 1;
    }
    let mut j: usize = n;
    while j > i && is_whitespace(s[j - 1])
        invariant
            i <= j <= n == s@.len(),
            trim_end(s@.subrange(i as int, j as int)) == trim(s@),
        decreases j,
    {
        assert(s@.subrange(i as int, j as int).drop_last() =~= s@.subrange(i as int, j - 1));
        j -= 1;
    }
    copy_range(s, i, j)
}

/// `l` without a carriage return that ended it.
pub open spec fn strip_cr(l: Seq<char>) -> Seq<char> {
    if l.len() > 0 && l.last() == '\r' {
        l.drop_last()
    } else {
        l
    }
}

/// The lines of `s` after the line `cur` that has been read so far: a line
/// ends at `\n` or `\r\n`, and text after the last `\n` is a line only if it
/// is not empty.
pub open spec fn lines_after(s: Seq<char>, cur: Seq<char>) -> Seq<Seq<char>>
    decreases s.len(),
{
    if s.len() == 0 {
        if cur.len() == 0 {
            seq![]
        } else {
            seq![cur]
        }
    } else if s[0] == '\n' {
        seq![strip_cr(cur)] + lines_after(s.drop_first(), seq![])
    } else {
        lines_after(s.drop_first(), cur.push(s[0]))
    }
}

/// The lines of a text.
pub open spec fn lines(s: Seq<char>) -> Seq<Seq<char>> {
    lines_after(s, seq![])
}

pub fn split_lines(s: &Vec<char>) -> (r: Vec<Vec<char>>)
    ensures
        r@.len() == lines(s@).len(),
        forall|k: int| 0 <= k < r@.len() ==> #[trigger] r@[k]@ == lines(s@)[k],
{
    let n = s.len();
    let mut out: Vec<Vec<char>> = Vec::new();
    let mut cur: Vec<char> = Vec::new();
    let ghost mut done: Seq<Seq<char>> = seq![];
    let mut i: usize = 0;
    assert(s@.subrange(0, n as int) =~= s@);
    while i < n
        invariant
            i <= n == s@.len(),
            out@.len() == done.len(),
            forall|k: int| 0 <= k < out@.len() ==> #[trigger] out@[k]@ == done[k],
            done + lines_after(s@.subrange(i as int, n as int), cur@) == lines(s@),
        decreases n - i,
    {
        let c = s[i];
        let ghost rest = s@.subrange(i as int, n as int);
        assert(rest.drop_first() =~= s@.subrange(i + 1, n as int));
        if c == '\n' {
            let mut line = copy_range(&cur, 0, cur.len());
            assert(cur@.subrange(0, cur@.len() as int) =~= cur@);
            if line.len() > 0 && line[line.len() - 1] == '\r' {
                line.pop();
            }
            assert(line@ =~= strip_cr(cur@));
            out.push(line);
            proof {
                assert(done.push(strip_cr(cur@)) + lines_after(rest.drop_first(), seq![])
                    =~= done + lines_after(rest, cur@));
                done = done.push(strip_cr(cur@));
            }
            cur = Vec::new();
        } else {
            cur.push(c);
        }
        i += 1;
    }
    if cur.len() > 0 {
        proof {
            assert(done.push(cur@) =~= done + lines_after(s@.subrange(n as int, n as int), cur@));
            done = done.push(cur@);
        }
        out.push(cur);
    } else {
        assert(done =~= done + lines_after(s@.subrange(n as int, n as int), cur@));
    }
    out
}


/// The value of a decimal digit.
pub open spec fn digit_value(c: char) -> int {
    (c as int) - ('0' as int)
}

pub open spec fn is_digit(c: char) -> bool {
    '0' <= c && c <= '9'
}

/// The number that a run of decimal digits spells.
pub open spec fn digits_value(s: Seq<char>) -> int
    decreases s.len(),
{
    if s.len() == 0 {
        0
    } else {
        digits_value(s.drop_last()) * 10 + digit_value(s.last())
    }
}

/// The version that a run of characters spells: one or more decimal digits
/// whose value fits in a `u32`.
pub open spec fn version_of(s: Seq<char>) -> Option<u32> {
    if s.len() > 0 && (forall|k: int| 0 <= k < s.len() ==> is_digit(#[trigger] s[k]))
        && digits_value(s) <= u32::MAX {
        Some(digits_value(s) as u32)
    } else {
        None
    }
}

proof fn lemma_digits_nonneg(s: Seq<char>)
    requires
        forall|k: int| 0 <= k < s.len() ==> is_digit(#[trigger] s[k]),
    ensures
        digits_value(s) >= 0,
    decreases s.len(),
{
    if s.len() > 0 {
        assert forall|k: int| 0 <= k < s.drop_last().len() implies is_digit(
            #[trigger] s.drop_last()[k],
        ) by {
            assert(s.drop_last()[k] == s[k]);
        }
        lemma_digits_nonneg(s.drop_last());
    }
}

/// Reads the characters of `s` from `from` on as a version.
pub fn parse_version(s: &Vec<char>, from: usize) -> (r: Option<u32>)
    requires
        from <= s@.len(),
    ensures
        r == version_of(s@.subrange(from as int, s@.len() as int)),
{
    let n = s.len();
    let ghost t = s@.subrange(from as int, n as int);
    let mut acc: u64 = 0;
    let mut i: usize = from;
    assert(s@.subrange(from as int, from as int) =~= Seq::<char>::empty());
    while i < n
        invariant
            from <= i <= n == s@.len(),
            t == s@.subrange(from as int, n as int),
            forall|k: int| from <= k < i ==> is_digit(#[trigger] s@[k]),
            acc as int == if digits_value(s@.subrange(from as int, i as int)) <= u32::MAX {
                digits_value(s@.subrange(from as int, i as int))
            } else {
                u32::MAX + 1
            },
        decreases n - i,
    {
        let c = s[i];
        if !('0' <= c && c <= '9') {
            assert(t[i - from] == c);
            return None;
        }
        let d = (c as u32 - '0' as u32) as u64;
        let ghost p = s@.subrange(from as int, i as int);
        let ghost q = s@.subrange(from as int, i + 1);
        assert(q.drop_last() =~= p);
        proof {
            assert forall|k: int| 0 <= k < p.len() implies is_digit(#[trigger] p[k]) by {
                assert(p[k] == s@[from + k]);
            }
            lemma_digits_nonneg(p);
            assert(digits_value(q) == digits_value(p) * 10 + d);
            if digits_value(p) > u32::MAX {
                assert(digits_value(p) * 10 + d > u32::MAX) by (nonlinear_arith)
                    requires
                        digits_value(p) > u32::MAX,
                        d >= 0,
                ;
            }
        }
        let next = acc * 10 + d;
        if next > u32::MAX as u64 {
            acc = u32::MAX as u64 + 1;
        } else {
            acc = next;
        }
        i += 1;
    }
    assert(s@.subrange(from as int, n as int) == t);
    if from == n {
        None
    } else if acc > u32::MAX as u64 {
        None
    } else {
        proof {
            assert forall|k: int| 0 <= k < t.len() implies is_digit(#[trigger] t[k]) by {
                assert(t[k] == s@[from + k]);
            }
        }
        Some(acc as u32)
    }
}

/// Whether a line opens a version block.
pub open spec fn is_marker(l: Seq<char>) -> bool {
    l.len() >= 5 && l.subrange(0, 5) == marker()
}

/// The version that a marker line declares, if its text after the marker
/// spells one.
pub open spec fn marker_version(l: Seq<char>) -> Option<u32> {
    version_of(l.subrange(5, l.len() as int))
}

pub fn line_is_marker(l: &Vec<char>) -> (r: bool)
    ensures
        r == is_marker(l@),
{
    if l.len() < 5 {
        return false;
    }
    let r = l[0] == '-' && l[1] == '-' && l[2] == ' ' && l[3] == 'v' && l[4] == ' ';
    assert(r == (l@.subrange(0, 5) =~= marker()));
    r
}

/// One version step: the statement that brings the store to `version`.
pub struct Step {
    pub version: u32,
    pub statement: String,
}

impl View for Step {
    type V = (u32, Seq<char>);

    open spec fn view(&self) -> (u32, Seq<char>) {
        (self.version, self.statement@)
    }
}

/// A version marker whose text after `-- v ` is not a version number.
pub struct ParseError {
    pub line: String,
}

/// The step of the block that is open, if any, with its text trimmed.
pub open spec fn flush(cur: Option<u32>, acc: Seq<char>) -> Seq<(u32, Seq<char>)> {
    match cur {
        Some(v) => seq![(v, trim(acc))],
        None => seq![],
    }
}

/// `p` followed by the steps of `r`, or the error of `r`.
pub open spec fn prepend(
    p: Seq<(u32, Seq<char>)>,
    r: Result<Seq<(u32, Seq<char>)>, Seq<char>>,
) -> Result<Seq<(u32, Seq<char>)>, Seq<char>> {
    match r {
        Ok(q) => Ok(p + q),
        Err(e) => Err(e),
    }
}

/// The steps of lines `i..` of a script, where the block `cur` is open and has
/// collected the text `acc`; or the first marker line whose version does not
/// read.
pub open spec fn steps_from(
    ls: Seq<Seq<char>>,
    i: int,
    cur: Option<u32>,
    acc: Seq<char>,
) -> Result<Seq<(u32, Seq<char>)>, Seq<char>>
    decreases ls.len() - i,
{
    if i < 0 || i >= ls.len() {
        Ok(flush(cur, acc))
    } else if is_marker(ls[i]) {
        match marker_version(ls[i]) {
            None => Err(ls[i]),
            Some(v) => prepend(flush(cur, acc), steps_from(ls, i + 1, Some(v), seq![])),
        }
    } else {
        steps_from(ls, i + 1, cur, acc + ls[i].push('\n'))
    }
}

/// The steps of a script, in the order of the text, or the first marker line
/// whose version does not read.
pub open spec fn script_steps(s: Seq<char>) -> Result<Seq<(u32, Seq<char>)>, Seq<char>> {
    steps_from(lines(s), 0, None, seq![])
}

pub open spec fn parsed_view(r: Result<Vec<Step>, ParseError>) -> Result<
    Seq<(u32, Seq<char>)>,
    Seq<char>,
> {
    match r {
        Ok(v) => Ok(v@.map_values(|st: Step| st@)),
        Err(e) => Err(e.line@),
    }
}

proof fn lemma_prepend_prepend(
    a: Seq<(u32, Seq<char>)>,
    b: Seq<(u32, Seq<char>)>,
    r: Result<Seq<(u32, Seq<char>)>, Seq<char>>,
)
    ensures
        prepend(a, prepend(b, r)) == prepend(a + b, r),
{
    if let Ok(q) = r {
        assert(a + (b + q) =~= (a + b) + q);
    }
}

/// Splits a schema script into its version steps, in the order of the text.
pub fn parse_script(script: &str) -> (r: Result<Vec<Step>, ParseError>)
    ensures
        parsed_view(r) == script_steps(script@),
{
    let cs = chars_of(script);
    let ls = split_lines(&cs);
    let ghost gl = lines(script@);
    let mut steps: Vec<Step> = Vec::new();
    let mut version: Option<u32> = None;
    let mut acc: Vec<char> = Vec::new();
    let mut i: usize = 0;
    assert(steps@.map_values(|st: Step| st@) =~= Seq::<(u32, Seq<char>)>::empty());
    assert(prepend(seq![], script_steps(script@)) =~= script_steps(script@)) by {
        if let Ok(q) = script_steps(script@) {
            assert(Seq::<(u32, Seq<char>)>::empty() + q =~= q);
        }
    }
    while i < ls.len()
        invariant
            i <= ls@.len() == gl.len(),
            gl == lines(script@),
            forall|k: int| 0 <= k < ls@.len() ==> #[trigger] ls@[k]@ == gl[k],
            prepend(steps@.map_values(|st: Step| st@), steps_from(gl, i as int, version, acc@))
                == script_steps(script@),
        decreases ls@.len() - i,
    {
        let l = &ls[i];
        assert(l@ == gl[i as int]);
        let ghost before = steps@.map_values(|st: Step| st@);
        if line_is_marker(l) {
            match parse_version(l, 5) {
                None => {
                    return Err(ParseError { line: string_of(l) });
                },
                Some(v) => {
                    if let Some(pv) = version {
                        let t = trim_chars(&acc);
                        let st = Step { version: pv, statement: string_of(&t) };
                        steps.push(st);
                    }
                    proof {
                        assert(steps@.map_values(|st: Step| st@) =~= before + flush(
                            version,
                            acc@,
                        ));
                        lemma_prepend_prepend(
                            before,
                            flush(version, acc@),
                            steps_from(gl, i + 1, Some(v), seq![]),
                        );
                    }
                    version = Some(v);
                    acc = Vec::new();
                    assert(acc@ =~= Seq::<char>::empty());
                },
            }
        } else {
            let ghost a0 = acc@;
            append_chars(&mut acc, l);
            acc.push('\n');
            assert(acc@ =~= a0 + gl[i as int].push('\n'));
        }
        i += 1;
    }
    if let Some(pv) = version {
        let t = trim_chars(&acc);
        let st = Step { version: pv, statement: string_of(&t) };
        let ghost before = steps@.map_values(|st: Step| st@);
        steps.push(st);
        assert(steps@.map_values(|st: Step| st@) =~= before + flush(version, acc@));
    } else {
        assert(steps@.map_values(|st: Step| st@) =~= steps@.map_values(|st: Step| st@) + flush(
            version,
            acc@,
        ));
    }
    Ok(steps)
}


/// A space or a line break: the characters that canonical statements fold.
pub open spec fn is_blank(c: char) -> bool {
    c == ' ' || c == '\n'
}

/// The canonical form of `s`, given the last character written so far
/// (`last`) and whether blanks have been seen since it (`gap`). A run of
/// blanks becomes one space between two other characters, and disappears at
/// either end, after `(` and before `)`.
pub open spec fn squeeze(s: Seq<char>, last: Option<char>, gap: bool) -> Seq<char>
    decreases s.len(),
{
    if s.len() == 0 {
        seq![]
    } else if is_blank(s[0]) {
        squeeze(s.drop_first(), last, true)
    } else {
        let sep = gap && last is Some && last != Some('(') && s[0] != ')';
        (if sep {
            seq![' ', s[0]]
        } else {
            seq![s[0]]
        }) + squeeze(s.drop_first(), Some(s[0]), false)
    }
}

/// The canonical form of a statement: line breaks joined to spaces, runs of
/// spaces collapsed, and no space at either end, after `(` or before `)`.
pub open spec fn canonical(s: Seq<char>) -> Seq<char> {
    squeeze(s, None, false)
}

/// Brings a statement to its canonical form, so that the schema that the
/// store records reads the same whatever the layout of the script.
pub fn normalize_statement(statement: &str) -> (r: String)
    ensures
        r@ == canonical(statement@),
{
    let s = chars_of(statement);
    let n = s.len();
    let mut out: Vec<char> = Vec::new();
    let mut last: Option<char> = None;
    let mut gap = false;
    let mut i: usize = 0;
    assert(s@.subrange(0, n as int) =~= s@);
    assert(out@ + canonical(s@) =~= canonical(s@));
    while i < n
        invariant
            i <= n == s@.len(),
            s@ == statement@,
            out@ + squeeze(s@.subrange(i as int, n as int), last, gap) == canonical(s@),
        decreases n - i,
    {
        let c = s[i];
        let ghost rest = s@.subrange(i as int, n as int);
        let ghost o0 = out@;
        assert(rest.drop_first() =~= s@.subrange(i + 1, n as int));
        if c == ' ' || c == '\n' {
            gap = true;
        } else {
            let sep = match last {
                Some(p) => gap && p != '(' && c != ')',
                None => false,
            };
            if sep {
                out.push(' ');
            }
            out.push(c);
            proof {
                let head = if sep {
                    seq![' ', c]
                } else {
                    seq![c]
                };
                assert(out@ =~= o0 + head);
                assert(o0 + (head + squeeze(rest.drop_first(), Some(c), false)) =~= out@
                    + squeeze(rest.drop_first(), Some(c), false));
            }
            last = Some(c);
            gap = false;
        }
        i += 1;
    }
    assert(out@ =~= out@ + squeeze(s@.subrange(n as int, n as int), last, gap));
    string_of(&out)
}

proof fn lemma_no_marker_steps(ls: Seq<Seq<char>>, i: int, acc: Seq<char>)
    requires
        0 <= i,
        forall|k: int| 0 <= k < ls.len() ==> !is_marker(#[trigger] ls[k]),
    ensures
        steps_from(ls, i, None, acc) == Ok::<Seq<(u32, Seq<char>)>, Seq<char>>(seq![]),
    decreases ls.len() - i,
{
    if i < ls.len() {
        lemma_no_marker_steps(ls, i + 1, acc + ls[i].push('\n'));
    }
}

/// A script none of whose lines is a version marker has no steps, and
/// parses without error.
pub proof fn law_no_marker_no_steps(s: Seq<char>)
    requires
        forall|k: int| 0 <= k < lines(s).len() ==> !is_marker(#[trigger] lines(s)[k]),
    ensures
        script_steps(s) == Ok::<Seq<(u32, Seq<char>)>, Seq<char>>(seq![]),
{
    lemma_no_marker_steps(lines(s), 0, seq![]);
}

} // verus!
