//! File search tools: grep (regular expression over file contents) and glob
//! (file names by pattern).
//!
//! Reading directories and files, and listing glob matches, is done by the
//! caller; this module validates the tool arguments, decides which
//! directories to enter, finds and formats the matching lines of a file's
//! content, and formats the reports.

use vstd::prelude::*;
use crate::pattern::Pattern;
use crate::pattern::compile_pattern;
use crate::pattern::pattern_matches;
use crate::pattern::regex_error;
use crate::pattern::regex_is_match;
use crate::text::chars_to_string;
use crate::text::decimal;
use crate::text::find_char;
use crate::text::find_char_exec;
use crate::text::join;
use crate::text::lemma_find_char_props;
use crate::text::push_decimal;
use crate::text::push_joined;
use crate::text::push_str;
use crate::text::push_string;
use crate::text::str_chars;
use crate::text::str_eq;
use crate::text::sub_vec;
use crate::text::views;

verus! {

/// Deepest directory level grep descends to.
pub const DEFAULT_MAX_GREP_DEPTH: usize = 10;
/// Most directory entries grep visits.
pub const DEFAULT_MAX_GREP_ENTRIES: usize = 10_000;
/// Largest file grep reads, in bytes.
pub const DEFAULT_MAX_GREP_FILE_SIZE: u64 = 1_048_576;
/// Most paths glob lists.
pub const DEFAULT_MAX_GLOB_RESULTS: usize = 10_000;

/// Error of a tool call.
#[derive(Debug, Clone)]
pub enum ToolError {
    /// The arguments are invalid.
    Validation(String),
    /// Running the tool failed.
    Execution(String),
}

// ---------------------------------------------------------------------------
// grep
// ---------------------------------------------------------------------------

/// Tool searching file contents with regular expressions.
#[derive(Debug, Clone, Copy)]
pub struct GrepTool;

impl GrepTool {
    pub fn new() -> (t: Self) {
        GrepTool
    }

    /// The tool's name.
    pub fn name(&self) -> (s: &'static str)
        ensures
            s@ == "grep"@,
    {
        "grep"
    }

    /// The tool's description.
    pub fn description(&self) -> (s: &'static str)
        ensures
            s@ == "Search for patterns in file contents using regex. Returns matching lines with context."@,
    {
        "Search for patterns in file contents using regex. Returns matching lines with context."
    }
}

impl Default for GrepTool {
    fn default() -> (t: Self) {
        GrepTool
    }
}


/// The arguments of a grep call, as given.
#[derive(Debug, Clone)]
pub struct GrepArgs {
    pub pattern: Option<String>,
    pub path: Option<String>,
    /// Glob pattern that file names must match.
    pub name_filter: Option<String>,
    pub context: Option<u64>,
    pub max_results: Option<u64>,
}

/// A validated grep call.
pub struct GrepRequest {
    pub pattern: Pattern,
    pub path: String,
    /// Glob pattern that file names must match.
    pub name_filter: Option<String>,
    pub context: usize,
    pub max_results: usize,
}

/// Validate the arguments of a grep call: the pattern is required and must
/// compile; the path defaults to `.`, the context to 2 lines, the maximum
/// number of results to 100.
pub fn grep_request(args: &GrepArgs) -> (r: Result<GrepRequest, ToolError>)
    ensures
        match args.pattern {
            None => r matches Err(ToolError::Validation(m)) && m@ == "Missing 'pattern'"@,
            Some(p) => match regex_error(p@) {
                Some(e) => r matches Err(ToolError::Validation(m)) && m@ == "Invalid regex: "@ + e,
                None => r matches Ok(q) && {
                    &&& q.pattern.text() == p@
                    &&& q.path@ == (match args.path {
                        Some(x) => x@,
                        None => "."@,
                    })
                    &&& q.name_filter == args.name_filter
                    &&& q.context == (match args.context {
                        Some(c) => c as usize,
                        None => 2usize,
                    })
                    &&& q.max_results == (match args.max_results {
                        Some(m) => m as usize,
                        None => 100usize,
                    })
                },
            },
        },
{
    let pattern = match &args.pattern {
        Some(p) => p,
        None => return Err(ToolError::Validation(String::from_str("Missing 'pattern'"))),
    };
    let compiled = match compile_pattern(pattern.as_str()) {
        Ok(c) => c,
        Err(e) => {
            let mut m = str_chars("Invalid regex: ");
            push_string(&mut m, &e);
            return Err(ToolError::Validation(chars_to_string(&m)));
        },
    };
    let path = match &args.path {
        Some(x) => x.clone(),
        None => String::from_str("."),
    };
    let name_filter = match &args.name_filter {
        Some(x) => Some(x.clone()),
        None => None,
    };
    let context = match args.context {
        Some(c) => c as usize,
        None => 2,
    };
    let max_results = match args.max_results {
        Some(m) => m as usize,
        None => 100,
    };
    Ok(GrepRequest { pattern: compiled, path, name_filter, context, max_results })
}

/// `str::lines`: the text split at `\n`, a `\r` before the `\n` dropped,
/// no line after a final `\n`.
pub open spec fn lines_from(s: Seq<char>, i: int) -> Seq<Seq<char>>
    decreases s.len() - i,
{
    if i < 0 || i >= s.len() {
        Seq::empty()
    } else {
        match find_char(s, '\n', i, s.len() as int) {
            None => seq![s.subrange(i, s.len() as int)],
            Some(j) => {
                let piece = s.subrange(i, j);
                let line = if piece.len() > 0 && piece.last() == '\r' {
                    piece.drop_last()
                } else {
                    piece
                };
                if j + 1 > i && j < s.len() {
                    seq![line] + lines_from(s, j + 1)
                } else {
                    Seq::empty()
                }
            },
        }
    }
}

/// The lines of a text.
pub fn split_lines(content: &str) -> (v: Vec<String>)
    ensures
        views(v@) == lines_from(content@, 0),
{
    let s = str_chars(content);
    let mut v: Vec<String> = Vec::new();
    let mut i: usize = 0;
    assert(views(v@) + lines_from(s@, 0) =~= lines_from(s@, 0));
    while i < s.len()
        invariant
            i <= s.len(),
            s@ == content@,
            views(v@) + lines_from(s@, i as int) == lines_from(s@, 0),
        decreases s.len() - i,
    {
        proof {
            lemma_find_char_props(s@, '\n', i as int, s@.len() as int);
        }
        match find_char_exec(&s, '\n', i, s.len()) {
            None => {
                let piece = sub_vec(&s, i, s.len());
                let ghost before = views(v@);
                let line = chars_to_string(&piece);
                v.push(line);
                assert(views(v@) =~= before.push(line@));
                assert(views(v@) =~= before + lines_from(s@, i as int));
                assert(lines_from(s@, s@.len() as int) =~= Seq::<Seq<char>>::empty());
                i = s.len();
                assert(views(v@) + lines_from(s@, i as int) =~= views(v@));
            },
            Some(j) => {
                let end = if j > i && s[j - 1] == '\r' {
                    j - 1
                } else {
                    j
                };
                let piece = sub_vec(&s, i, end);
                proof {
                    let p = s@.subrange(i as int, j as int);
                    if j > i && s@[j - 1] == '\r' {
                        assert(piece@ =~= p.drop_last());
                    } else {
                        assert(piece@ =~= p);
                    }
                }
                let ghost before = views(v@);
                let line = chars_to_string(&piece);
                v.push(line);
                assert(views(v@) =~= before.push(line@));
                assert(lines_from(s@, i as int) =~= seq![line@] + lines_from(s@, j + 1));
                assert(views(v@) + lines_from(s@, j + 1) =~= before + lines_from(s@, i as int));
                i = j + 1;
            },
        }
    }
    assert(views(v@) + lines_from(s@, i as int) =~= views(v@));
    v
}

/// A number right-aligned in a field of four (`{:4}`).
pub open spec fn pad4(d: Seq<char>) -> Seq<char> {
    if d.len() >= 4 {
        d
    } else {
        Seq::new((4 - d.len()) as nat, |k: int| ' ') + d
    }
}

/// One line of a match block: a `>` marks the matching line.
pub open spec fn block_line(lines: Seq<Seq<char>>, j: int, hit: int) -> Seq<char> {
    "  "@ + (if j == hit {
        ">"@
    } else {
        " "@
    }) + " "@ + pad4(decimal((j + 1) as nat)) + ": "@ + lines[j]
}

/// First line of the context window around line `i`.
pub open spec fn window_start(i: int, ctx: int) -> int {
    if i >= ctx {
        i - ctx
    } else {
        0
    }
}

/// One past the last line of the context window around line `i`.
pub open spec fn window_end(i: int, ctx: int, n: int) -> int {
    if i + ctx + 1 < n {
        i + ctx + 1
    } else {
        n
    }
}

/// The report of a match at line `i`: the file, then its context window.
pub open spec fn match_block(path: Seq<char>, lines: Seq<Seq<char>>, i: int, ctx: int) -> Seq<char> {
    let a = window_start(i, ctx);
    let b = window_end(i, ctx, lines.len() as int);
    path + ":\n"@ + join(Seq::new((b - a) as nat, |k: int| block_line(lines, a + k, i)), "\n"@)
}

/// The match blocks of lines `i..`, given `count` results so far, stopping
/// once `max` results are collected.
pub open spec fn grep_blocks(
    path: Seq<char>,
    lines: Seq<Seq<char>>,
    pattern: Seq<char>,
    ctx: int,
    i: int,
    count: int,
    max: int,
) -> Seq<Seq<char>>
    decreases lines.len() - i,
{
    if i < 0 || i >= lines.len() || count >= max {
        Seq::empty()
    } else if regex_is_match(pattern, lines[i]) {
        seq![match_block(path, lines, i, ctx)] + grep_blocks(path, lines, pattern, ctx, i + 1, count + 1, max)
    } else {
        grep_blocks(path, lines, pattern, ctx, i + 1, count, max)
    }
}

/// A line of a match block that starts with two spaces, then a marker
/// character, and ends with `": "` and the text of the file's line `j`.
pub open spec fn marked_line(l: Seq<char>, marker: char, text: Seq<char>) -> bool {
    &&& l.len() >= 3 + 2 + text.len()
    &&& l[0] == ' ' && l[1] == ' '
    &&& l[2] == marker
    &&& l.subrange(l.len() - text.len() - 2, l.len() as int) == ": "@ + text
}

proof fn lemma_block_line_marked(lines: Seq<Seq<char>>, j: int, hit: int)
    requires
        0 <= j < lines.len(),
    ensures
        marked_line(block_line(lines, j, hit), if j == hit { '>' } else { ' ' }, lines[j]),
{
    reveal_strlit("  ");
    reveal_strlit(">");
    reveal_strlit(" ");
    reveal_strlit(": ");
    let m = if j == hit {
        ">"@
    } else {
        " "@
    };
    let head = "  "@ + m + " "@ + pad4(decimal((j + 1) as nat));
    let l = block_line(lines, j, hit);
    assert(l == head + ": "@ + lines[j]);
    assert(l[2] == m[0]);
    assert(l.subrange(l.len() - lines[j].len() - 2, l.len() as int) =~= ": "@ + lines[j]);
}

/// Law: a match block for line `i` is the file's name and `":\n"`, then the
/// lines of the context window around `i` (which holds `i`), one per line
/// joined by new lines; each begins with two spaces and a marker, which is
/// `>` on line `i` alone and a space on every context line, and ends with
/// `": "` and the text of its line.
pub proof fn law_match_block_marks_hit(path: Seq<char>, lines: Seq<Seq<char>>, i: int, ctx: int)
    requires
        0 <= i < lines.len(),
        0 <= ctx,
    ensures
        window_start(i, ctx) <= i < window_end(i, ctx, lines.len() as int) <= lines.len(),
        exists|ls: Seq<Seq<char>>|
            {
                &&& ls.len() == window_end(i, ctx, lines.len() as int) - window_start(i, ctx)
                &&& match_block(path, lines, i, ctx) == path + ":\n"@ + join(ls, "\n"@)
                &&& forall|k: int|
                    0 <= k < ls.len() ==> marked_line(
                        #[trigger] ls[k],
                        if window_start(i, ctx) + k == i { '>' } else { ' ' },
                        lines[window_start(i, ctx) + k],
                    )
            },
{
    let a = window_start(i, ctx);
    let b = window_end(i, ctx, lines.len() as int);
    let ls = Seq::new((b - a) as nat, |k: int| block_line(lines, a + k, i));
    assert forall|k: int| 0 <= k < ls.len() implies marked_line(
        #[trigger] ls[k],
        if a + k == i { '>' } else { ' ' },
        lines[a + k],
    ) by {
        lemma_block_line_marked(lines, a + k, i);
    }
}

/// `block` is the match block of a line at or after `i` that `pattern`
/// matches.
pub open spec fn block_of_matching_line(
    path: Seq<char>,
    lines: Seq<Seq<char>>,
    pattern: Seq<char>,
    ctx: int,
    i: int,
    block: Seq<char>,
) -> bool {
    exists|j: int| i <= j < lines.len() && regex_is_match(pattern, lines[j]) && block == match_block(path, lines, j, ctx)
}

/// Law: every result that grep reports for lines `i..` is the match block of
/// a line at or after `i` that the pattern matches.
pub proof fn law_grep_blocks_are_matches(
    path: Seq<char>,
    lines: Seq<Seq<char>>,
    pattern: Seq<char>,
    ctx: int,
    i: int,
    count: int,
    max: int,
)
    requires
        0 <= i,
    ensures
        forall|r: int|
            0 <= r < grep_blocks(path, lines, pattern, ctx, i, count, max).len() ==> block_of_matching_line(
                path,
                lines,
                pattern,
                ctx,
                i,
                #[trigger] grep_blocks(path, lines, pattern, ctx, i, count, max)[r],
            ),
    decreases lines.len() - i,
{
    let g = grep_blocks(path, lines, pattern, ctx, i, count, max);
    if i < lines.len() && count < max {
        let c2 = if regex_is_match(pattern, lines[i]) {
            count + 1
        } else {
            count
        };
        law_grep_blocks_are_matches(path, lines, pattern, ctx, i + 1, c2, max);
        let rest = grep_blocks(path, lines, pattern, ctx, i + 1, c2, max);
        assert forall|r: int| 0 <= r < g.len() implies block_of_matching_line(path, lines, pattern, ctx, i, #[trigger] g[r]) by {
            if regex_is_match(pattern, lines[i]) && r == 0 {
                assert(g[0] == match_block(path, lines, i, ctx));
            } else {
                let r2 = if regex_is_match(pattern, lines[i]) {
                    r - 1
                } else {
                    r
                };
                assert(g[r] == rest[r2]);
                assert(block_of_matching_line(path, lines, pattern, ctx, i + 1, rest[r2]));
                let j = choose|j: int|
                    i + 1 <= j < lines.len() && regex_is_match(pattern, lines[j]) && rest[r2] == match_block(path, lines, j, ctx);
                assert(i <= j);
            }
        }
    }
}

fn push_pad4(out: &mut Vec<char>, n: u64)
    ensures
        final(out)@ == old(out)@ + pad4(decimal(n as nat)),
{
    let mut d: Vec<char> = Vec::new();
    push_decimal(&mut d, n);
    let ghost dv = d@;
    assert(dv =~= Seq::<char>::empty() + decimal(n as nat));
    let mut k = d.len();
    let ghost start = out@;
    while k < 4
        invariant
            d@.len() <= k <= 4 || (k == d@.len() && k >= 4),
            d@ == dv,
            out@ == start + Seq::new((k - d@.len()) as nat, |q: int| ' '),
        decreases 4 - k,
    {
        out.push(' ');
        assert(out@ =~= start + Seq::new((k + 1 - d@.len()) as nat, |q: int| ' '));
        k = k + 1;
    }
    let ghost spaces = out@;
    crate::text::push_all(out, &d, 0, d.len());
    assert(d@.subrange(0, d@.len() as int) =~= d@);
    proof {
        if dv.len() >= 4 {
            assert(Seq::new(0nat, |q: int| ' ') =~= Seq::<char>::empty());
            assert(out@ =~= start + pad4(dv));
        } else {
            assert(out@ =~= start + pad4(dv));
        }
    }
}

fn match_block_text(path: &str, lines: &Vec<String>, i: usize, ctx: usize) -> (s: String)
    requires
        i < lines.len(),
        lines.len() + ctx < usize::MAX,
    ensures
        s@ == match_block(path@, views(lines@), i as int, ctx as int),
{
    let a = if i >= ctx {
        i - ctx
    } else {
        0
    };
    let b = if i + ctx + 1 < lines.len() {
        i + ctx + 1
    } else {
        lines.len()
    };
    let ghost want = Seq::new((b - a) as nat, |k: int| block_line(views(lines@), a + k, i as int));
    let mut parts: Vec<String> = Vec::new();
    let mut j = a;
    while j < b
        invariant
            a <= j <= b <= lines.len(),
            want == Seq::new((b - a) as nat, |k: int| block_line(views(lines@), a + k, i as int)),
            views(parts@) == want.take(j - a),
        decreases b - j,
    {
        let mut t = str_chars("  ");
        if j == i {
            push_str(&mut t, ">");
        } else {
            push_str(&mut t, " ");
        }
        push_str(&mut t, " ");
        push_pad4(&mut t, (j + 1) as u64);
        push_str(&mut t, ": ");
        push_string(&mut t, &lines[j]);
        let line = chars_to_string(&t);
        let ghost before = views(parts@);
        parts.push(line);
        assert(views(parts@) =~= before.push(line@));
        assert(want.take(j + 1 - a) =~= want.take(j - a).push(line@));
        j = j + 1;
    }
    assert(want.take(b - a) =~= want);
    let mut out = str_chars(path);
    push_str(&mut out, ":\n");
    push_joined(&mut out, &parts, "\n");
    chars_to_string(&out)
}

/// Append to `results` the match blocks of a file's content (at most `max`
/// results in all), each matching line shown with `context` lines around it.
pub fn grep_file_content(
    path: &str,
    content: &str,
    pattern: &Pattern,
    context: usize,
    results: &mut Vec<String>,
    max: usize,
)
    requires
        lines_from(content@, 0).len() + context < usize::MAX,
    ensures
        views(final(results)@) == views(old(results)@) + grep_blocks(
            path@,
            lines_from(content@, 0),
            pattern.text(),
            context as int,
            0,
            old(results)@.len() as int,
            max as int,
        ),
{
    let lines = split_lines(content);
    let ghost lv = views(lines@);
    let ghost want = views(results@) + grep_blocks(path@, lv, pattern.text(), context as int, 0, results@.len() as int, max as int);
    let mut i: usize = 0;
    while i < lines.len() && results.len() < max
        invariant
            i <= lines.len(),
            lv == views(lines@),
            lines.len() + context < usize::MAX,
            views(results@) + grep_blocks(path@, lv, pattern.text(), context as int, i as int, results@.len() as int, max as int) == want,
        decreases lines.len() - i,
    {
        if pattern_matches(pattern, lines[i].as_str()) {
            let block = match_block_text(path, &lines, i, context);
            let ghost before = views(results@);
            results.push(block);
            assert(views(results@) =~= before.push(block@));
            assert(views(results@) + grep_blocks(path@, lv, pattern.text(), context as int, i + 1, results@.len() as int, max as int)
                =~= before + grep_blocks(path@, lv, pattern.text(), context as int, i as int, before.len() as int, max as int));
        }
        i = i + 1;
    }
    assert(grep_blocks(path@, lv, pattern.text(), context as int, i as int, results@.len() as int, max as int) =~= Seq::<Seq<char>>::empty());
    assert(views(results@) =~= want);
}

/// The grep report: the results separated by new lines, or `No matches found.`.
pub fn grep_report(results: &Vec<String>) -> (s: String)
    ensures
        s@ == (if results@.len() == 0 {
            "No matches found."@
        } else {
            join(views(results@), "\n"@)
        }),
{
    if results.len() == 0 {
        return String::from_str("No matches found.");
    }
    let mut out: Vec<char> = Vec::new();
    push_joined(&mut out, results, "\n");
    assert(out@ =~= join(views(results@), "\n"@));
    chars_to_string(&out)
}

/// Grep descends into a directory unless it is hidden or one of
/// `node_modules`, `target`, `__pycache__`.
pub fn should_descend(name: &str) -> (b: bool)
    ensures
        b == !((name@.len() > 0 && name@[0] == '.') || name@ == "node_modules"@ || name@ == "target"@
            || name@ == "__pycache__"@),
{
    let c = str_chars(name);
    let hidden = c.len() > 0 && c[0] == '.';
    !(hidden || str_eq(name, "node_modules") || str_eq(name, "target") || str_eq(name, "__pycache__"))
}

/// Grep skips files larger than `DEFAULT_MAX_GREP_FILE_SIZE` bytes.
pub fn file_too_large(size: u64) -> (b: bool)
    ensures
        b == (size > DEFAULT_MAX_GREP_FILE_SIZE),
{
    size > DEFAULT_MAX_GREP_FILE_SIZE
}

// ---------------------------------------------------------------------------
// glob
// ---------------------------------------------------------------------------

/// Tool finding files by name pattern.
#[derive(Debug, Clone, Copy)]
pub struct GlobTool;

impl GlobTool {
    pub fn new() -> (t: Self) {
        GlobTool
    }

    /// The tool's name.
    pub fn name(&self) -> (s: &'static str)
        ensures
            s@ == "glob"@,
    {
        "glob"
    }

    /// The tool's description.
    pub fn description(&self) -> (s: &'static str)
        ensures
            s@ == "Find files matching a glob pattern. Returns matching file paths."@,
    {
        "Find files matching a glob pattern. Returns matching file paths."
    }
}

impl Default for GlobTool {
    fn default() -> (t: Self) {
        GlobTool
    }
}


/// The full glob pattern of a call: an absolute pattern as is, else the
/// pattern under the base directory (default `.`); the pattern is required.
pub fn glob_full_pattern(pattern: Option<&str>, base: Option<&str>) -> (r: Result<String, ToolError>)
    ensures
        match pattern {
            None => r matches Err(ToolError::Validation(m)) && m@ == "Missing 'pattern'"@,
            Some(p) => r matches Ok(s) && s@ == (if p@.len() > 0 && p@[0] == '/' {
                p@
            } else {
                (match base {
                    Some(b) => b@,
                    None => "."@,
                }) + "/"@ + p@
            }),
        },
{
    let p = match pattern {
        Some(p) => p,
        None => return Err(ToolError::Validation(String::from_str("Missing 'pattern'"))),
    };
    let c = str_chars(p);
    if c.len() > 0 && c[0] == '/' {
        return Ok(String::from_str(p));
    }
    let mut out = match base {
        Some(b) => str_chars(b),
        None => str_chars("."),
    };
    push_str(&mut out, "/");
    crate::text::push_all(&mut out, &c, 0, c.len());
    assert(c@.subrange(0, c@.len() as int) =~= c@);
    Ok(chars_to_string(&out))
}

/// The glob report for the matching paths listed in order (errors skipped):
/// at most `max` paths and then a truncation note, or `No files matched the
/// pattern.`.
pub fn glob_report(found: &Vec<String>, max: usize) -> (s: String)
    ensures
        s@ == (if found@.len() == 0 {
            "No files matched the pattern."@
        } else if found@.len() <= max {
            join(views(found@), "\n"@)
        } else {
            join(views(found@).take(max as int).push("... (truncated at "@ + decimal(max as nat) + " entries)"@), "\n"@)
        }),
{
    if found.len() == 0 {
        return String::from_str("No files matched the pattern.");
    }
    let mut shown: Vec<String> = Vec::new();
    let mut i: usize = 0;
    let n = if found.len() <= max {
        found.len()
    } else {
        max
    };
    while i < n
        invariant
            i <= n <= found.len(),
            views(shown@) == views(found@).take(i as int),
        decreases n - i,
    {
        let ghost before = views(shown@);
        let p = found[i].clone();
        shown.push(p);
        assert(views(shown@) =~= before.push(p@));
        assert(views(found@).take(i + 1) =~= views(found@).take(i as int).push(p@));
        i = i + 1;
    }
    if found.len() > max {
        let mut t = str_chars("... (truncated at ");
        push_decimal(&mut t, max as u64);
        push_str(&mut t, " entries)");
        let note = chars_to_string(&t);
        let ghost before = views(shown@);
        shown.push(note);
        assert(views(shown@) =~= before.push(note@));
    } else {
        assert(views(found@).take(n as int) =~= views(found@));
    }
    let mut out: Vec<char> = Vec::new();
    push_joined(&mut out, &shown, "\n");
    assert(out@ =~= join(views(shown@), "\n"@));
    chars_to_string(&out)
}

/// The bookkeeping of a directory walk: how deep it is and how many entries
/// it has looked at.
#[derive(Debug, Clone, Copy, PartialEq, Eq)]
pub struct GrepWalk {
    pub depth: usize,
    pub entry_count: usize,
}

impl GrepWalk {
    /// A walk at its root.
    pub fn new() -> (w: Self)
        ensures
            w.depth == 0,
            w.entry_count == 0,
    {
        GrepWalk { depth: 0, entry_count: 0 }
    }

    /// A directory at the current depth is read only within the depth limit.
    pub fn may_read_dir(&self) -> (b: bool)
        ensures
            b == (self.depth <= DEFAULT_MAX_GREP_DEPTH),
    {
        self.depth <= DEFAULT_MAX_GREP_DEPTH
    }

    /// Before the next directory entry: stop when the results are full;
    /// otherwise count the entry, and stop once more than
    /// `DEFAULT_MAX_GREP_ENTRIES` entries were seen (the count stops at the
    /// largest `usize`).
    pub fn next_entry(&mut self, results: usize, max_results: usize) -> (go: bool)
        ensures
            results >= max_results ==> !go && *final(self) == *old(self),
            results < max_results ==> final(self).entry_count == (if old(self).entry_count < usize::MAX {
                old(self).entry_count + 1
            } else {
                old(self).entry_count as int
            }) && final(self).depth == old(self).depth && go == (final(self).entry_count
                <= DEFAULT_MAX_GREP_ENTRIES),
    {
        if results >= max_results {
            return false;
        }
        if self.entry_count < usize::MAX {
            self.entry_count = self.entry_count + 1;
        }
        self.entry_count <= DEFAULT_MAX_GREP_ENTRIES
    }

    /// Descend into a subdirectory named `name`, when it is not skipped;
    /// returns whether to descend.
    pub fn enter(&mut self, name: &str) -> (b: bool)
        requires
            old(self).depth < usize::MAX,
        ensures
            b == !((name@.len() > 0 && name@[0] == '.') || name@ == "node_modules"@ || name@ == "target"@
                || name@ == "__pycache__"@),
            b ==> final(self).depth == old(self).depth + 1,
            !b ==> final(self).depth == old(self).depth,
            final(self).entry_count == old(self).entry_count,
    {
        let b = should_descend(name);
        if b {
            self.depth = self.depth + 1;
        }
        b
    }

    /// Back from a subdirectory.
    pub fn leave(&mut self)
        requires
            old(self).depth > 0,
        ensures
            final(self).depth == old(self).depth - 1,
            final(self).entry_count == old(self).entry_count,
    {
        self.depth = self.depth - 1;
    }
}

} // verus!
