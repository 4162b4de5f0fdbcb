use vstd::prelude::*;

use owo_colors::OwoColorize;

use crate::diagnostic::reporter::Reporter;
use crate::diagnostic::store::{count_kind, DiagnosticEntry};
use crate::diagnostic::{DiagnosticKind, DiagnosticReport};
use crate::source::CodeSource;
use crate::text::{decimal, push_char, push_decimal, push_str, str_eq, trim, trimmed, usize_to_string};
use vstd::utf8::encode_utf8;

verus! {

/// The escape character that opens an ANSI control sequence.
pub open spec fn esc() -> char {
    '\u{1b}'
}

/// `s` shown in the foreground colour with the ANSI code `code`, and the default foreground
/// after it, as owo-colors writes a coloured value.
pub open spec fn painted(code: Seq<char>, s: Seq<char>) -> Seq<char> {
    seq![esc(), '['] + code + seq!['m'] + s + seq![esc(), '[', '3', '9', 'm']
}

/// `s` in bold, and every style reset after it, as owo-colors writes a bold value.
pub open spec fn emboldened(s: Seq<char>) -> Seq<char> {
    seq![esc(), '[', '1', 'm'] + s + seq![esc(), '[', '0', 'm']
}

pub open spec fn red_code() -> Seq<char> {
    seq!['3', '1']
}

pub open spec fn yellow_code() -> Seq<char> {
    seq!['3', '3']
}

pub open spec fn blue_code() -> Seq<char> {
    seq!['3', '4']
}

pub open spec fn white_code() -> Seq<char> {
    seq!['3', '7']
}

pub open spec fn black_code() -> Seq<char> {
    seq!['3', '0']
}

pub open spec fn bright_black_code() -> Seq<char> {
    seq!['9', '0']
}

pub open spec fn bright_red_code() -> Seq<char> {
    seq!['9', '1']
}

/// `OwoColorize::red`, displayed: `s` in red (ANSI 31).
#[verifier::external_body]
fn red(s: &str) -> (r: String)
    ensures
        r@ == painted(red_code(), s@),
{
    s.red().to_string()
}

/// `OwoColorize::yellow`, displayed: `s` in yellow (ANSI 33).
#[verifier::external_body]
fn yellow(s: &str) -> (r: String)
    ensures
        r@ == painted(yellow_code(), s@),
{
    s.yellow().to_string()
}

/// `OwoColorize::blue`, displayed: `s` in blue (ANSI 34).
#[verifier::external_body]
fn blue(s: &str) -> (r: String)
    ensures
        r@ == painted(blue_code(), s@),
{
    s.blue().to_string()
}

/// `OwoColorize::white`, displayed: `s` in white (ANSI 37).
#[verifier::external_body]
fn white(s: &str) -> (r: String)
    ensures
        r@ == painted(white_code(), s@),
{
    s.white().to_string()
}

/// `OwoColorize::black`, displayed: `s` in black (ANSI 30).
#[verifier::external_body]
fn black(s: &str) -> (r: String)
    ensures
        r@ == painted(black_code(), s@),
{
    s.black().to_string()
}

/// `OwoColorize::bright_black`, displayed: `s` in bright black (ANSI 90).
#[verifier::external_body]
fn bright_black(s: &str) -> (r: String)
    ensures
        r@ == painted(bright_black_code(), s@),
{
    s.bright_black().to_string()
}

/// `OwoColorize::bright_red`, displayed: `s` in bright red (ANSI 91).
#[verifier::external_body]
fn bright_red(s: &str) -> (r: String)
    ensures
        r@ == painted(bright_red_code(), s@),
{
    s.bright_red().to_string()
}

/// `OwoColorize::bold`, displayed: `s` in bold, every style reset after it.
#[verifier::external_body]
fn bold(s: &str) -> (r: String)
    ensures
        r@ == emboldened(s@),
{
    s.bold().to_string()
}

/// A line as `str::lines` gives it: the `\r` of a `\r\n` ending is not part of it.
pub open spec fn strip_cr(l: Seq<char>) -> Seq<char> {
    if l.len() > 0 && l.last() == '\r' {
        l.drop_last()
    } else {
        l
    }
}

/// The lines of `s` that a newline has ended, and the characters after the last newline.
pub open spec fn lines_acc(s: Seq<char>) -> (Seq<Seq<char>>, Seq<char>)
    decreases s.len(),
{
    if s.len() == 0 {
        (Seq::empty(), Seq::empty())
    } else {
        let (done, cur) = lines_acc(s.drop_last());
        if s.last() == '\n' {
            (done.push(strip_cr(cur)), Seq::empty())
        } else {
            (done, cur.push(s.last()))
        }
    }
}

/// The lines of `s`, as `str::lines` splits it: at `\n` or `\r\n`, with no empty line after
/// a final line ending.
pub open spec fn text_lines(s: Seq<char>) -> Seq<Seq<char>> {
    let (done, cur) = lines_acc(s);
    if cur.len() == 0 {
        done
    } else {
        done.push(cur)
    }
}

/// The texts of a list of strings.
pub open spec fn texts(v: Seq<String>) -> Seq<Seq<char>> {
    v.map_values(|s: String| s@)
}

fn strip_cr_exec(l: String) -> (r: String)
    ensures
        r@ == strip_cr(l@),
{
    let n = l.as_str().unicode_len();
    if n > 0 && l.as_str().get_char(n - 1) == '\r' {
        l.as_str().substring_char(0, n - 1).to_owned()
    } else {
        l
    }
}

/// Splits `text` into its lines (see `text_lines`).
fn split_lines(text: &str) -> (r: Vec<String>)
    ensures
        texts(r@) == text_lines(text@),
{
    let n = text.unicode_len();
    let mut done: Vec<String> = Vec::new();
    let mut cur = String::new();
    let mut i: usize = 0;
    while i < n
        invariant
            n == text@.len(),
            i <= n,
            lines_acc(text@.take(i as int)) == (texts(done@), cur@),
        decreases n - i,
    {
        let c = text.get_char(i);
        proof {
            assert(text@.take(i + 1).drop_last() =~= text@.take(i as int));
            assert(text@.take(i + 1).last() == c);
        }
        if c == '\n' {
            let line = strip_cr_exec(cur);
            let ghost before = texts(done@);
            let ghost lv = line@;
            done.push(line);
            proof {
                assert(texts(done@) =~= before.push(lv));
            }
            cur = String::new();
        } else {
            push_char(&mut cur, c);
        }
        i = i + 1;
    }
    proof {
        assert(text@.take(n as int) =~= text@);
    }
    if cur.as_str().unicode_len() > 0 {
        let ghost before = texts(done@);
        let ghost cv = cur@;
        done.push(cur);
        proof {
            assert(texts(done@) =~= before.push(cv));
        }
    }
    done
}

/// `n` copies of `c`.
pub open spec fn repeated(c: char, n: nat) -> Seq<char> {
    Seq::new(n, |i: int| c)
}

/// Appends `n` copies of `c` to `f`.
fn push_repeated(f: &mut String, c: char, n: usize)
    ensures
        final(f)@ == old(f)@ + repeated(c, n as nat),
{
    let mut i: usize = 0;
    while i < n
        invariant
            i <= n,
            f@ == old(f)@ + repeated(c, i as nat),
        decreases n - i,
    {
        push_char(f, c);
        proof {
            assert(old(f)@ + repeated(c, i as nat) + seq![c] =~= old(f)@ + repeated(c, (i + 1) as nat));
        }
        i = i + 1;
    }
}

/// `s` aligned to the right in a field of `w` characters, as `{:>w$}` writes it.
pub open spec fn pad_left(s: Seq<char>, w: nat) -> Seq<char> {
    repeated(' ', if w > s.len() { (w - s.len()) as nat } else { 0 }) + s
}

fn push_padded(f: &mut String, s: &str, w: usize)
    ensures
        final(f)@ == old(f)@ + pad_left(s@, w as nat),
{
    let n = s.unicode_len();
    let pad: usize = if w > n { w - n } else { 0 };
    push_repeated(f, ' ', pad);
    push_str(f, s);
    proof {
        assert(old(f)@ + repeated(' ', pad as nat) + s@ =~= old(f)@ + pad_left(s@, w as nat));
    }
}

/// `a - b`, or zero where `b` is larger.
pub open spec fn sat_sub(a: int, b: int) -> nat {
    if a >= b {
        (a - b) as nat
    } else {
        0
    }
}

/// The lines from line `skip` on (counted from zero).
pub open spec fn window(ls: Seq<Seq<char>>, skip: nat) -> Seq<Seq<char>> {
    if skip < ls.len() {
        ls.skip(skip as int)
    } else {
        Seq::empty()
    }
}

/// How many of the lines `ls` are shown for a code range of `budget` bytes, `scanned` bytes
/// (each line counting its bytes and one for its newline) having been taken already: lines
/// are taken while what was taken before does not exceed the range.
pub open spec fn taken(ls: Seq<Seq<char>>, budget: nat, scanned: nat) -> nat
    decreases ls.len(),
{
    if ls.len() == 0 || scanned > budget {
        0
    } else {
        1 + taken(ls.drop_first(), budget, scanned + encode_utf8(ls[0]).len() + 1)
    }
}

/// The number of bytes the range of `d` covers.
pub open spec fn range_len(d: DiagnosticReport) -> nat {
    sat_sub(d.span.end as int, d.span.start as int)
}

/// The source lines shown for `d`: from its cursor's line on, as many as its range reaches.
pub open spec fn code_of(ls: Seq<Seq<char>>, d: DiagnosticReport) -> Seq<Seq<char>> {
    let w = window(ls, sat_sub(d.cursor.line as int, 1));
    w.take(taken(w, range_len(d), 0) as int)
}

/// A line of the code view: the line number (if any) aligned in `w` characters, a border,
/// then the text.
pub open spec fn bordered(pre: Option<usize>, line: Seq<char>, w: nat) -> Seq<char> {
    let num = match pre {
        Some(n) => painted(blue_code(), decimal(n as nat)),
        None => Seq::empty(),
    };
    pad_left(num, w) + painted(blue_code(), seq![' ', '|', ' ']) + line
}

/// The marks under a shown line: carets for the range, after the cursor's column on the
/// first line.
pub open spec fn underline(first: bool, column: nat, n: nat) -> Seq<char> {
    repeated(' ', if first { sat_sub(column as int, 1) } else { 0 }) + repeated('^', n)
}

/// The shown lines, numbered from `line`, each with its marks.
pub open spec fn code_block(code: Seq<Seq<char>>, line: nat, column: nat, n: nat, w: nat) -> Seq<char>
    decreases code.len(),
{
    if code.len() == 0 {
        Seq::empty()
    } else {
        let k = code.len() - 1;
        code_block(code.drop_last(), line, column, n, w) + bordered(Some((line + k) as usize), code.last(), w) + seq!['\n']
            + bordered(None, underline(k == 0, column, n), w) + seq!['\n']
    }
}

/// The heading of a diagnostic: its kind and message, where it is, and who reported it.
pub open spec fn entry_header(src_name: Seq<char>, e: DiagnosticEntry) -> Seq<char> {
    let d = e.diagnostic;
    painted(red_code(), d.message.spec_kind().spec_name().push(':')) + seq![' '] + emboldened(
        painted(bright_red_code(), d.message.spec_text()),
    ) + seq!['\n'] + painted(bright_black_code(), " at "@) + painted(
        white_code(),
        src_name + seq![':'] + decimal(d.cursor.line as nat) + seq![':'] + decimal(d.cursor.column as nat),
    ) + painted(black_code(), " (reported by "@) + emboldened(painted(bright_black_code(), e.reporter_name@)) + seq![
        ')',
        '\n',
    ]
}

/// The whole text of one diagnostic against the source lines `ls`.
pub open spec fn entry_text(src_name: Seq<char>, ls: Seq<Seq<char>>, e: DiagnosticEntry) -> Seq<char> {
    let d = e.diagnostic;
    let code = code_of(ls, d);
    let w = decimal((d.cursor.line + code.len()) as nat).len();
    entry_header(src_name, e) + bordered(None, seq!['\n'], w) + code_block(
        code,
        d.cursor.line as nat,
        d.cursor.column as nat,
        range_len(d),
        w,
    ) + bordered(None, seq!['\n'], w) + seq!['\n']
}

/// The texts of the diagnostics filed under the source named `own`, in order.
pub open spec fn entries_text(es: Seq<DiagnosticEntry>, own: Seq<char>, src_name: Seq<char>, ls: Seq<Seq<char>>) -> Seq<char>
    decreases es.len(),
{
    if es.len() == 0 {
        Seq::empty()
    } else {
        entries_text(es.drop_last(), own, src_name, ls) + if es.last().source_name@ == own {
            entry_text(src_name, ls, es.last())
        } else {
            Seq::empty()
        }
    }
}

/// The closing lines: how many warnings, and how many errors, where there are any.
pub open spec fn summary_text(warnings: nat, errors: nat) -> Seq<char> {
    (if warnings > 0 {
        painted(yellow_code(), "warning: found "@ + decimal(warnings) + " warnings\n"@)
    } else {
        Seq::empty()
    }) + (if errors > 0 {
        painted(red_code(), "error: could not compile due to "@ + decimal(errors) + " error(s)\n"@)
    } else {
        Seq::empty()
    })
}

/// The report of the diagnostics `es` filed under the source named `own`, shown against the
/// source named `src_name` with the text `content`, then the counts of every diagnostic,
/// with the white space at both ends cut.
pub open spec fn report_text(es: Seq<DiagnosticEntry>, own: Seq<char>, src_name: Seq<char>, content: Seq<char>) -> Seq<char> {
    trimmed(
        entries_text(es, own, src_name, text_lines(content)) + summary_text(
            count_kind(es, DiagnosticKind::Warning),
            count_kind(es, DiagnosticKind::Error),
        ),
    )
}

/// The numbers that showing `d` against the lines `ls` computes fit in a `usize`.
pub open spec fn entry_fits(d: DiagnosticReport, ls: Seq<Seq<char>>) -> bool {
    &&& d.cursor.line + ls.len() < usize::MAX
    &&& d.cursor.column + range_len(d) <= usize::MAX
    &&& forall|j: int| 0 <= j < ls.len() ==> range_len(d) + encode_utf8(#[trigger] ls[j]).len() + 1 <= usize::MAX
}

/// Every diagnostic filed under the source named `own` fits (see `entry_fits`).
pub open spec fn report_fits(es: Seq<DiagnosticEntry>, own: Seq<char>, ls: Seq<Seq<char>>) -> bool {
    forall|i: int| 0 <= i < es.len() && (#[trigger] es[i]).source_name@ == own ==> entry_fits(es[i].diagnostic, ls)
}

/// How many lines, from line `skip` on, show a code range of `budget` bytes (see `taken`).
fn count_code_lines(lines: &Vec<String>, Ghost(ls): Ghost<Seq<Seq<char>>>, skip: usize, budget: usize) -> (k: usize)
    requires
        texts(lines@) == ls,
        forall|j: int| 0 <= j < ls.len() ==> budget + encode_utf8(#[trigger] ls[j]).len() + 1 <= usize::MAX,
    ensures
        k == taken(window(ls, skip as nat), budget as nat, 0),
        k <= window(ls, skip as nat).len(),
{
    if skip >= lines.len() {
        return 0;
    }
    let ghost w = window(ls, skip as nat);
    let mut scanned: usize = 0;
    let mut k: usize = 0;
    let mut j: usize = skip;
    proof {
        assert(w.skip(0) =~= w);
    }
    while j < lines.len() && scanned <= budget
        invariant
            texts(lines@) == ls,
            skip < ls.len(),
            w == ls.skip(skip as int),
            j == skip + k,
            j <= ls.len(),
            forall|i: int| 0 <= i < ls.len() ==> budget + encode_utf8(#[trigger] ls[i]).len() + 1 <= usize::MAX,
            taken(w, budget as nat, 0) == k + taken(w.skip(k as int), budget as nat, scanned as nat),
        decreases ls.len() - j,
    {
        let ghost rest = w.skip(k as int);
        proof {
            assert(rest[0] == ls[j as int]);
            assert(rest.drop_first() =~= w.skip(k + 1));
            assert(lines@[j as int]@ == ls[j as int]);
        }
        let n = lines[j].as_str().len();
        scanned = scanned + n + 1;
        k = k + 1;
        j = j + 1;
    }
    proof {
        if j == ls.len() {
            assert(w.skip(k as int).len() == 0);
        }
    }
    k
}

/// Appends a line of the code view (see `bordered`).
fn write_bordered(f: &mut String, pre: Option<usize>, line: &str, w: usize)
    ensures
        final(f)@ == old(f)@ + bordered(pre, line@, w as nat),
{
    let num = match pre {
        Some(n) => blue(usize_to_string(n).as_str()),
        None => String::new(),
    };
    push_padded(f, num.as_str(), w);
    let border = blue(" | ");
    proof {
        reveal_strlit(" | ");
        assert(" | "@ =~= seq![' ', '|', ' ']);
    }
    push_str(f, border.as_str());
    push_str(f, line);
    proof {
        assert(f@ =~= old(f)@ + bordered(pre, line@, w as nat));
    }
}

/// Appends the heading of a diagnostic (see `entry_header`).
fn write_header(f: &mut String, entry: &DiagnosticEntry, src_name: &str)
    ensures
        final(f)@ == old(f)@ + entry_header(src_name@, *entry),
{
    let d = &entry.diagnostic;
    let mut kind = String::new();
    push_str(&mut kind, d.message.kind().name());
    push_char(&mut kind, ':');
    push_str(f, red(kind.as_str()).as_str());
    push_char(f, ' ');
    let text = d.message.text();
    push_str(f, bold(bright_red(text.as_str()).as_str()).as_str());
    push_char(f, '\n');
    push_str(f, bright_black(" at ").as_str());
    let mut loc = String::new();
    push_str(&mut loc, src_name);
    push_char(&mut loc, ':');
    push_decimal(&mut loc, d.cursor.line);
    push_char(&mut loc, ':');
    push_decimal(&mut loc, d.cursor.column);
    push_str(f, white(loc.as_str()).as_str());
    push_str(f, black(" (reported by ").as_str());
    push_str(f, bold(bright_black(entry.reporter_name.as_str()).as_str()).as_str());
    push_char(f, ')');
    push_char(f, '\n');
    proof {
        assert(kind@ =~= d.message.spec_kind().spec_name().push(':'));
        assert(loc@ =~= src_name@ + seq![':'] + decimal(d.cursor.line as nat) + seq![':'] + decimal(d.cursor.column as nat));
        assert(f@ =~= old(f)@ + entry_header(src_name@, *entry));
    }
}

/// Appends the whole text of a diagnostic (see `entry_text`).
#[verifier::spinoff_prover]
#[verifier::rlimit(40)]
fn write_entry(f: &mut String, entry: &DiagnosticEntry, src_name: &str, lines: &Vec<String>, Ghost(ls): Ghost<Seq<Seq<char>>>)
    requires
        texts(lines@) == ls,
        entry_fits(entry.diagnostic, ls),
    ensures
        final(f)@ == old(f)@ + entry_text(src_name@, ls, *entry),
{
    let d = &entry.diagnostic;
    let skip: usize = if d.cursor.line >= 1 { d.cursor.line - 1 } else { 0 };
    let byte_len: usize = if d.span.end >= d.span.start { (d.span.end - d.span.start) as usize } else { 0 };
    let count = count_code_lines(lines, Ghost(ls), skip, byte_len);
    let ghost win = window(ls, skip as nat);
    let ghost code = code_of(ls, *d);
    proof {
        assert(code =~= win.take(count as int));
    }
    let last_line = d.cursor.line + count;
    let w = usize_to_string(last_line).as_str().unicode_len();
    write_header(f, entry, src_name);
    write_bordered(f, None, "\n", w);
    proof {
        reveal_strlit("\n");
        assert("\n"@ =~= seq!['\n']);
    }
    let ghost start = f@;
    let mut k: usize = 0;
    proof {
        assert(code.take(0) =~= Seq::<Seq<char>>::empty());
    }
    while k < count
        invariant
            k <= count,
            count == code.len(),
            code == win.take(count as int),
            win == window(ls, skip as nat),
            skip < ls.len() || count == 0,
            count <= win.len(),
            win.len() + skip <= ls.len() || count == 0,
            texts(lines@) == ls,
            d.cursor.line + ls.len() < usize::MAX,
            d.cursor.column + byte_len <= usize::MAX,
            byte_len == range_len(*d),
            f@ == start + code_block(code.take(k as int), d.cursor.line as nat, d.cursor.column as nat, byte_len as nat, w as nat),
        decreases count - k,
    {
        proof {
            assert(win[k as int] == ls[skip + k]);
            assert(lines@[skip + k]@ == ls[skip + k]);
            assert(code.take(k + 1).drop_last() =~= code.take(k as int));
            assert(code.take(k + 1).last() == code[k as int]);
        }
        write_bordered(f, Some(d.cursor.line + k), lines[skip + k].as_str(), w);
        push_char(f, '\n');
        let first: usize = if k == 0 {
            if d.cursor.column >= 1 { d.cursor.column - 1 } else { 0 }
        } else {
            0
        };
        let mut marks = String::new();
        push_repeated(&mut marks, ' ', first);
        push_repeated(&mut marks, '^', byte_len);
        proof {
            assert(marks@ =~= underline(k == 0, d.cursor.column as nat, byte_len as nat));
        }
        write_bordered(f, None, marks.as_str(), w);
        push_char(f, '\n');
        k = k + 1;
        proof {
            assert(f@ =~= start + code_block(code.take(k as int), d.cursor.line as nat, d.cursor.column as nat, byte_len as nat, w as nat));
        }
    }
    proof {
        assert(code.take(count as int) =~= code);
    }
    write_bordered(f, None, "\n", w);
    push_char(f, '\n');
    proof {
        assert(f@ =~= old(f)@ + entry_text(src_name@, ls, *entry));
    }
}

impl Reporter {
    /// The diagnostics filed under this reporter's source, shown against `source`: for each,
    /// its kind and message, where it is and who reported it, and the source lines its range
    /// covers with the range marked; then the numbers of warnings and of errors reported; the
    /// whole in terminal colours, with the white space at both ends cut (see `report_text`).
    #[verifier::spinoff_prover]
    pub fn formatted_for(&self, source: &CodeSource) -> (r: String)
        requires
            report_fits(self.spec_entries(), self.spec_source().spec_source_name(), text_lines(source.content@)),
        ensures
            r@ == report_text(
                self.spec_entries(),
                self.spec_source().spec_source_name(),
                source.spec_source_file(),
                source.content@,
            ),
    {
        let warning_count = self.diagnostic_count(DiagnosticKind::Warning);
        let error_count = self.diagnostic_count(DiagnosticKind::Error);
        let lines = split_lines(source.source());
        let ghost ls = texts(lines@);
        let own = self.source().source_name();
        let src_name = source.kind().source_name();
        let entries = self.entries();
        let mut f = String::new();
        let mut i: usize = 0;
        proof {
            assert(entries@.take(0) =~= Seq::<DiagnosticEntry>::empty());
        }
        while i < entries.len()
            invariant
                i <= entries@.len(),
                entries@ == self.spec_entries(),
                own@ == self.spec_source().spec_source_name(),
                ls == text_lines(source.content@),
                texts(lines@) == ls,
                report_fits(entries@, own@, ls),
                f@ == entries_text(entries@.take(i as int), own@, src_name@, ls),
            decreases entries@.len() - i,
        {
            proof {
                assert(entries@.take(i + 1).drop_last() =~= entries@.take(i as int));
                assert(entries@.take(i + 1).last() == entries@[i as int]);
            }
            if str_eq(entries[i].source_name.as_str(), own.as_str()) {
                write_entry(&mut f, &entries[i], src_name.as_str(), &lines, Ghost(ls));
            }
            i = i + 1;
        }
        proof {
            assert(entries@.take(entries@.len() as int) =~= entries@);
        }
        let ghost body = f@;
        if warning_count > 0 {
            let mut m = String::new();
            push_str(&mut m, "warning: found ");
            push_decimal(&mut m, warning_count);
            push_str(&mut m, " warnings\n");
            push_str(&mut f, yellow(m.as_str()).as_str());
            proof {
                assert(m@ =~= "warning: found "@ + decimal(warning_count as nat) + " warnings\n"@);
            }
        }
        let ghost with_warnings = f@;
        if error_count > 0 {
            let mut m = String::new();
            push_str(&mut m, "error: could not compile due to ");
            push_decimal(&mut m, error_count);
            push_str(&mut m, " error(s)\n");
            push_str(&mut f, red(m.as_str()).as_str());
            proof {
                assert(m@ =~= "error: could not compile due to "@ + decimal(error_count as nat) + " error(s)\n"@);
            }
        }
        proof {
            assert(f@ =~= body + summary_text(warning_count as nat, error_count as nat));
        }
        trim(f.as_str()).to_owned()
    }
}

} // verus!
