use vstd::prelude::*;
use crate::diagnostics::{Diagnostic, DiagnosticSeverity, Position, Range};

verus! {

broadcast use vstd::string::group_string_axioms;

/// The characters of `s`.
fn chars_of(s: &str) -> (r: Vec<char>)
    ensures
        r@ == s@,
{
    let mut r: Vec<char> = Vec::new();
    for c in it: s.chars()
        invariant
            r@ == it.seq().subrange(0, it.index() as int),
            it.seq() == s@,
    {
        r.push(c);
    }
    r
}

/// The lines of `s` read so far, and the line being read: lines end at a
/// line feed.
pub open spec fn lines_acc(s: Seq<char>) -> (Seq<Seq<char>>, Seq<char>)
    decreases s.len(),
{
    if s.len() == 0 {
        (Seq::empty(), Seq::empty())
    } else {
        let (done, cur) = lines_acc(s.drop_last());
        if s.last() == '\n' {
            (done.push(cur), Seq::empty())
        } else {
            (done, cur.push(s.last()))
        }
    }
}

/// The lines of `s`: the text between line feeds, with a last line only
/// where text follows the last line feed.
pub open spec fn lines_of(s: Seq<char>) -> Seq<Seq<char>> {
    let (done, cur) = lines_acc(s);
    if cur.len() > 0 {
        done.push(cur)
    } else {
        done
    }
}

/// Line `l` without a carriage return at its end.
pub open spec fn strip_cr(l: Seq<char>) -> Seq<char> {
    if l.len() > 0 && l.last() == '\r' {
        l.drop_last()
    } else {
        l
    }
}

/// The first index at or after `i` that holds a colon; the length where
/// there is none.
pub open spec fn colon_from(l: Seq<char>, i: int) -> int
    decreases l.len() - i,
{
    if i >= l.len() {
        l.len() as int
    } else if l[i] == ':' {
        i
    } else {
        colon_from(l, i + 1)
    }
}

pub open spec fn is_digit(c: char) -> bool {
    '0' <= c && c <= '9'
}

/// Letters and digits of ASCII and the underscore.
pub open spec fn is_word_char(c: char) -> bool {
    ('a' <= c && c <= 'z') || ('A' <= c && c <= 'Z') || is_digit(c) || c == '_'
}

pub open spec fn all_digits(s: Seq<char>) -> bool {
    s.len() > 0 && forall|i: int| 0 <= i < s.len() ==> is_digit(#[trigger] s[i])
}

pub open spec fn all_word(s: Seq<char>) -> bool {
    s.len() > 0 && forall|i: int| 0 <= i < s.len() ==> is_word_char(#[trigger] s[i])
}

/// The number written in decimal by `s`.
pub open spec fn decimal_value(s: Seq<char>) -> nat
    decreases s.len(),
{
    if s.len() == 0 {
        0
    } else {
        decimal_value(s.drop_last()) * 10 + (s.last() as nat - '0' as nat) as nat
    }
}

/// One line of the linter's report, in the format `line:column:length:kind:code:message`.
pub struct LintRecord {
    pub line: nat,
    pub character: nat,
    pub length: nat,
    pub kind: Seq<char>,
    pub code: Seq<char>,
    pub message: Seq<char>,
}

/// The record on line `l`: three decimal numbers, a kind and a code of word
/// characters, and the message, separated by the first five colons.
pub open spec fn record_of_line(l: Seq<char>) -> Option<LintRecord> {
    let p0 = colon_from(l, 0);
    let p1 = colon_from(l, p0 + 1);
    let p2 = colon_from(l, p1 + 1);
    let p3 = colon_from(l, p2 + 1);
    let p4 = colon_from(l, p3 + 1);
    if p4 < l.len() && all_digits(l.subrange(0, p0)) && all_digits(l.subrange(p0 + 1, p1)) && all_digits(
        l.subrange(p1 + 1, p2),
    ) && all_word(l.subrange(p2 + 1, p3)) && all_word(l.subrange(p3 + 1, p4)) {
        Some(
            LintRecord {
                line: decimal_value(l.subrange(0, p0)),
                character: decimal_value(l.subrange(p0 + 1, p1)),
                length: decimal_value(l.subrange(p1 + 1, p2)),
                kind: l.subrange(p2 + 1, p3),
                code: l.subrange(p3 + 1, p4),
                message: l.subrange(p4 + 1, l.len() as int),
            },
        )
    } else {
        None
    }
}

/// Whether the numbers of `r` give a span of zero-based positions that fit
/// in 64 bits: lines and columns of the report count from one.
pub open spec fn record_in_range(r: LintRecord) -> bool {
    &&& r.line >= 1 && r.character >= 1
    &&& r.line <= u64::MAX && r.character <= u64::MAX && r.length <= u64::MAX
    &&& r.character - 1 + r.length <= u64::MAX
}

pub open spec fn severity_of(kind: Seq<char>) -> DiagnosticSeverity {
    if kind == "Message"@ {
        DiagnosticSeverity::Information
    } else if kind == "Warning"@ {
        DiagnosticSeverity::Warning
    } else {
        DiagnosticSeverity::Error
    }
}

/// Whether `d` is the diagnostic that record `r` reports.
pub open spec fn is_diagnostic_of(d: Diagnostic, r: LintRecord) -> bool {
    &&& d.range.start == Position { line: (r.line - 1) as u64, character: (r.character - 1) as u64 }
    &&& d.range.end == Position { line: (r.line - 1) as u64, character: (r.character - 1 + r.length) as u64 }
    &&& d.severity == severity_of(r.kind)
    &&& d.code@ == r.code
    &&& d.message@ == r.message
    &&& d.source@ == "chktex"@
}

/// Whether line `l` reports a diagnostic.
pub open spec fn line_reports(l: Seq<char>) -> bool {
    record_of_line(strip_cr(l)) is Some && record_in_range(record_of_line(strip_cr(l))->Some_0)
}

/// The records of the lines of `ls` that report a diagnostic, in order.
pub open spec fn records_of(ls: Seq<Seq<char>>) -> Seq<LintRecord>
    decreases ls.len(),
{
    if ls.len() == 0 {
        Seq::empty()
    } else if line_reports(ls.last()) {
        records_of(ls.drop_last()).push(record_of_line(strip_cr(ls.last()))->Some_0)
    } else {
        records_of(ls.drop_last())
    }
}

proof fn lemma_colon_from_ge(l: Seq<char>, i: int)
    requires
        0 <= i <= l.len(),
    ensures
        i <= colon_from(l, i) <= l.len(),
    decreases l.len() - i,
{
    if i < l.len() && l[i] != ':' {
        lemma_colon_from_ge(l, i + 1);
    }
}

fn colon_index(l: &Vec<char>, from: usize) -> (r: usize)
    ensures
        r == colon_from(l@, from as int),
        r <= l@.len(),
        from <= l@.len() ==> from <= r,
{
    let mut i = from;
    if i >= l.len() {
        return l.len();
    }
    proof {
        lemma_colon_from_ge(l@, from as int);
    }
    while i < l.len()
        invariant
            from <= i <= l@.len(),
            colon_from(l@, from as int) == colon_from(l@, i as int),
        decreases l@.len() - i,
    {
        if l[i] == ':' {
            return i;
        }
        i += 1;
    }
    i
}

proof fn lemma_decimal_grows(s: Seq<char>, j: int)
    requires
        all_digits(s),
        0 <= j <= s.len(),
    ensures
        decimal_value(s) >= decimal_value(s.subrange(0, j)),
    decreases s.len() - j,
{
    if j < s.len() {
        lemma_decimal_grows(s, j + 1);
        let t = s.subrange(0, j + 1);
        assert(t.drop_last() =~= s.subrange(0, j));
        assert(is_digit(s[j]));
        assert(decimal_value(t) == decimal_value(s.subrange(0, j)) * 10 + (t.last() as nat - '0' as nat) as nat);
        assert(decimal_value(t) >= decimal_value(s.subrange(0, j))) by (nonlinear_arith)
            requires decimal_value(t) >= decimal_value(s.subrange(0, j)) * 10;
    } else {
        assert(s.subrange(0, j) =~= s);
    }
}

/// The number written in decimal by the characters from `a` to `b` of `l`,
/// where they are all digits and it fits in 64 bits.
fn parse_decimal(l: &Vec<char>, a: usize, b: usize) -> (r: Option<u64>)
    requires
        a <= b <= l@.len(),
    ensures
        match r {
            Some(v) => all_digits(l@.subrange(a as int, b as int)) && v == decimal_value(l@.subrange(a as int, b as int)),
            None => !all_digits(l@.subrange(a as int, b as int)) || decimal_value(l@.subrange(a as int, b as int)) > u64::MAX,
        },
{
    let ghost s = l@.subrange(a as int, b as int);
    if a == b {
        return None;
    }
    let mut v: u64 = 0;
    let mut i = a;
    while i < b
        invariant
            a <= i <= b <= l@.len(),
            s == l@.subrange(a as int, b as int),
            forall|k: int| 0 <= k < i - a ==> is_digit(#[trigger] s[k]),
            v == decimal_value(s.subrange(0, i - a)),
        decreases b - i,
    {
        let c = l[i];
        let ghost t = s.subrange(0, i - a + 1);
        assert(t.drop_last() =~= s.subrange(0, i - a));
        assert(t.last() == c);
        if !('0' <= c && c <= '9') {
            assert(!is_digit(s[i - a]));
            return None;
        }
        let d = (c as u32 - '0' as u32) as u64;
        if v > (u64::MAX - d) / 10 {
            proof {
                assert(decimal_value(t) > u64::MAX) by (nonlinear_arith)
                    requires
                        decimal_value(t) == v * 10 + d,
                        v > (u64::MAX - d) / 10,
                        d <= 9;
                if all_digits(s) {
                    lemma_decimal_grows(s, i - a + 1);
                }
            }
            return None;
        }
        assert(v * 10 + d <= u64::MAX) by (nonlinear_arith)
            requires
                v <= (u64::MAX - d) / 10,
                d <= 9;
        v = v * 10 + d;
        i += 1;
    }
    assert(s.subrange(0, b - a) =~= s);
    Some(v)
}

/// Whether the characters from `a` to `b` of `l` are word characters, and
/// at least one.
fn is_word(l: &Vec<char>, a: usize, b: usize) -> (r: bool)
    requires
        a <= b <= l@.len(),
    ensures
        r == all_word(l@.subrange(a as int, b as int)),
{
    let ghost s = l@.subrange(a as int, b as int);
    if a == b {
        return false;
    }
    let mut i = a;
    while i < b
        invariant
            a <= i <= b <= l@.len(),
            s == l@.subrange(a as int, b as int),
            forall|k: int| 0 <= k < i - a ==> is_word_char(#[trigger] s[k]),
        decreases b - i,
    {
        let c = l[i];
        if !(('a' <= c && c <= 'z') || ('A' <= c && c <= 'Z') || ('0' <= c && c <= '9') || c == '_') {
            assert(!is_word_char(s[i - a]));
            return false;
        }
        i += 1;
    }
    true
}

/// The diagnostic reported on one line of the linter's output, in the
/// format `line:column:length:kind:code:message` with lines and columns
/// counted from one; none for a line of another shape or with numbers out
/// of range.
pub fn parse_lint_line(line: &str) -> (r: Option<Diagnostic>)
    ensures
        r is Some <==> line_reports(line@),
        r is Some ==> is_diagnostic_of(r->Some_0, record_of_line(strip_cr(line@))->Some_0),
{
    let all = chars_of(line);
    let mut n = all.len();
    if n > 0 && all[n - 1] == '\r' {
        n -= 1;
    }
    let text = line.substring_char(0, n);
    let l = chars_of(text);
    proof {
        assert(l@ == strip_cr(line@));
    }
    let p0 = colon_index(&l, 0);
    if p0 >= n {
        return None;
    }
    let p1 = colon_index(&l, p0 + 1);
    if p1 >= n {
        return None;
    }
    let p2 = colon_index(&l, p1 + 1);
    if p2 >= n {
        return None;
    }
    let p3 = colon_index(&l, p2 + 1);
    if p3 >= n {
        return None;
    }
    let p4 = colon_index(&l, p3 + 1);
    if p4 >= n {
        return None;
    }
    let line_no = parse_decimal(&l, 0, p0);
    let character = parse_decimal(&l, p0 + 1, p1);
    let length = parse_decimal(&l, p1 + 1, p2);
    if !is_word(&l, p2 + 1, p3) || !is_word(&l, p3 + 1, p4) {
        return None;
    }
    let (line_no, character, length) = match (line_no, character, length) {
        (Some(x), Some(y), Some(z)) => (x, y, z),
        _ => return None,
    };
    if line_no == 0 || character == 0 || length > u64::MAX - (character - 1) {
        return None;
    }
    let kind = text.substring_char(p2 + 1, p3).to_owned();
    let severity = if kind == "Message".to_owned() {
        DiagnosticSeverity::Information
    } else if kind == "Warning".to_owned() {
        DiagnosticSeverity::Warning
    } else {
        DiagnosticSeverity::Error
    };
    let start = Position { line: line_no - 1, character: character - 1 };
    let end = Position { line: line_no - 1, character: character - 1 + length };
    Some(Diagnostic {
        range: Range { start, end },
        severity,
        code: text.substring_char(p3 + 1, p4).to_owned(),
        message: text.substring_char(p4 + 1, n).to_owned(),
        source: "chktex".to_owned(),
    })
}

/// The diagnostics that the linter reported in its output `stdout`, in the
/// order of its lines.
pub fn parse_lint_output(stdout: &str) -> (r: Vec<Diagnostic>)
    ensures
        r@.len() == records_of(lines_of(stdout@)).len(),
        forall|i: int| 0 <= i < r@.len() ==> is_diagnostic_of(#[trigger] r@[i], records_of(lines_of(stdout@))[i]),
{
    let chars = chars_of(stdout);
    let ghost s = stdout@;
    let mut r: Vec<Diagnostic> = Vec::new();
    let mut a: usize = 0;
    let mut i: usize = 0;
    while i < chars.len()
        invariant
            chars@ == s,
            s == stdout@,
            a <= i <= s.len(),
            lines_acc(s.subrange(0, i as int)).1 == s.subrange(a as int, i as int),
            r@.len() == records_of(lines_acc(s.subrange(0, i as int)).0).len(),
            forall|k: int| 0 <= k < r@.len() ==> is_diagnostic_of(#[trigger] r@[k], records_of(lines_acc(s.subrange(0, i as int)).0)[k]),
        decreases s.len() - i,
    {
        let ghost t = s.subrange(0, i + 1);
        assert(t.drop_last() =~= s.subrange(0, i as int));
        assert(t.last() == chars@[i as int]);
        if chars[i] == '\n' {
            let line = stdout.substring_char(a, i);
            let ghost done = lines_acc(s.subrange(0, i as int)).0;
            assert(lines_acc(t).0 == done.push(line@));
            assert(done.push(line@).drop_last() =~= done);
            match parse_lint_line(line) {
                Some(d) => {
                    r.push(d);
                },
                None => {},
            }
            a = i + 1;
            assert(s.subrange(a as int, i + 1) =~= Seq::<char>::empty());
        } else {
            assert(s.subrange(a as int, i + 1) =~= s.subrange(a as int, i as int).push(chars@[i as int]));
        }
        i += 1;
    }
    assert(s.subrange(0, s.len() as int) =~= s);
    if a < chars.len() {
        let line = stdout.substring_char(a, chars.len());
        let ghost done = lines_acc(s).0;
        assert(lines_of(s) == done.push(line@));
        assert(done.push(line@).drop_last() =~= done);
        match parse_lint_line(line) {
            Some(d) => {
                r.push(d);
            },
            None => {},
        }
    }
    r
}

} // verus!
