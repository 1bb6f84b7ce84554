//! The surface-syntax parser: turns source text into nodes of parsed
//! statements.  A source holds one or more nodes, each a block of
//! `key: value` headers, a `---` separator, body lines, and a closing `===`.
//! Body lines are dialogue lines, `->` option lines (optionally guarded by a
//! trailing `<<if expr>>`), and `<<...>>` statements: `declare`, `set`,
//! `jump`, `stop`, or an arbitrary host command.  Syntax errors become
//! `Error` diagnostics and drop only the offending line or node.

use vstd::prelude::*;

verus! {

use crate::diagnostic::{Diagnostic, Position};
use crate::program::Header;
use crate::util::{chars_of, str_eq};
use crate::value::YarnValue;

/// An atomic expression: a literal or a variable reference.
#[derive(Debug)]
pub(crate) enum Term {
    Lit(YarnValue),
    Var(String),
}

/// An expression: a literal, a variable reference, or a call of a library
/// function on atomic arguments.
#[derive(Debug)]
pub(crate) enum Expr {
    Lit(YarnValue),
    Var(String),
    Call(String, Vec<Term>),
}

/// One parsed body statement.
#[derive(Debug)]
pub(crate) enum Stmt {
    Line { text: String, line_id: Option<String>, tags: Vec<String>, line: usize },
    OptionLine {
        text: String,
        condition: Option<Expr>,
        line_id: Option<String>,
        tags: Vec<String>,
        line: usize,
    },
    SetVar { variable: String, value: Expr, line: usize },
    Declare { variable: String, value: YarnValue, line: usize },
    Command { text: String, line: usize },
    JumpToNode { node: String, line: usize },
    StopHere { line: usize },
}

/// One parsed node: its title, its headers, and its body statements.
#[derive(Debug)]
pub(crate) struct ParsedNode {
    pub title: String,
    pub headers: Vec<Header>,
    pub statements: Vec<Stmt>,
    pub tracking: bool,
}

/// Trims spaces, tabs and carriage returns from both ends of `[a, b)`.
fn trim_range(chars: &Vec<char>, a: usize, b: usize) -> (r: (usize, usize))
    requires
        a <= b <= chars@.len(),
    ensures
        a <= r.0 <= r.1 <= b,
{
    let mut x = a;
    let mut y = b;
    while x < y && (chars[x] == ' ' || chars[x] == '\t' || chars[x] == '\r')
        invariant
            a <= x <= y <= b <= chars@.len(),
        decreases y - x,
    {
        x += 1;
    }
    while y > x && (chars[y - 1] == ' ' || chars[y - 1] == '\t' || chars[y - 1] == '\r')
        invariant
            a <= x <= y <= b <= chars@.len(),
        decreases y,
    {
        y -= 1;
    }
    (x, y)
}

/// Whether `[a, b)` starts with the pattern.
fn starts_with_at(chars: &Vec<char>, a: usize, b: usize, pat: &str) -> (r: bool)
    requires
        a <= b <= chars@.len(),
    ensures
        r ==> a + pat@.len() <= b,
{
    let pn = pat.unicode_len();
    if b - a < pn {
        return false;
    }
    let pc = chars_of(pat);
    let mut i: usize = 0;
    while i < pn
        invariant
            pn == pc@.len(),
            i <= pn,
            a + pn <= b <= chars@.len(),
        decreases pn - i,
    {
        if chars[a + i] != pc[i] {
            return false;
        }
        i += 1;
    }
    true
}

/// The first position of `c` in `[a, b)`, if any.
fn find_char(chars: &Vec<char>, a: usize, b: usize, c: char) -> (r: Option<usize>)
    requires
        a <= b <= chars@.len(),
    ensures
        r matches Some(p) ==> a <= p < b,
{
    let mut i = a;
    while i < b
        invariant
            a <= i <= b <= chars@.len(),
        decreases b - i,
    {
        if chars[i] == c {
            return Some(i);
        }
        i += 1;
    }
    None
}

/// Whether a character may stand in an identifier.
fn is_ident_char(c: char) -> bool {
    let u = c as u32;
    (u >= 97 && u <= 122) || (u >= 65 && u <= 90) || (u >= 48 && u <= 57) || c == '_'
}

/// Reads an identifier starting at `p`; yields it and the index after it.
fn read_ident(input: &str, chars: &Vec<char>, p: usize, b: usize) -> (r: Option<(String, usize)>)
    requires
        chars@ == input@,
        p <= b <= chars@.len(),
    ensures
        r matches Some(pair) ==> p < pair.1 <= b,
{
    let mut q = p;
    while q < b && is_ident_char(chars[q])
        invariant
            p <= q <= b <= chars@.len(),
        decreases b - q,
    {
        q += 1;
    }
    if q == p {
        None
    } else {
        Some((input.substring_char(p, q).to_owned(), q))
    }
}

/// Splits the trailing hashtag region of a line: from the first `'#'` on,
/// each space-separated `#token` is collected; a `#line:` token names the
/// line's stable identifier, every other token is a metadata tag.
fn read_hashtags(
    input: &str,
    chars: &Vec<char>,
    a: usize,
    b: usize,
) -> (r: (usize, Option<String>, Vec<String>))
    requires
        chars@ == input@,
        a <= b <= chars@.len(),
    ensures
        a <= r.0 <= b,
{
    let mut line_id: Option<String> = None;
    let mut tags: Vec<String> = Vec::new();
    let hash = match find_char(chars, a, b, '#') {
        Some(h) => h,
        None => {
            return (b, None, tags);
        },
    };
    let mut t = hash;
    while t < b
        invariant
            hash <= t <= b <= chars@.len(),
            chars@ == input@,
        decreases b - t,
    {
        let ghost t0 = t;
        // skip spaces between tokens
        while t < b && chars[t] == ' '
            invariant
                hash <= t <= b <= chars@.len(),
                t0 <= t,
            decreases b - t,
        {
            t += 1;
        }
        if t >= b {
            break;
        }
        // the token runs to the next space
        let mut e = t;
        while e < b && chars[e] != ' '
            invariant
                t <= e <= b <= chars@.len(),
                t < b,
                chars@[t as int] != ' ',
                chars@ == input@,
            decreases b - e,
        {
            e += 1;
        }
        if chars[t] == '#' && t + 1 < e {
            let content = input.substring_char(t + 1, e).to_owned();
            if starts_with_at(chars, t + 1, e, "line:") {
                line_id = Some(content);
            } else {
                tags.push(content);
            }
        }
        if e <= t {
            break;
        }
        t = e;
    }
    let (_, text_end) = trim_range(chars, a, hash);
    (text_end, line_id, tags)
}

/// Pushes an `Error` diagnostic for a source line.
fn syntax_error(diags: &mut Vec<Diagnostic>, message: &str, line: usize) {
    diags.push(
        Diagnostic::from_message(message.to_owned()).with_position(
            Position { line, character: 0 },
        ),
    );
}

/// Parses an atomic term: a literal or a `$variable`.
fn parse_term(input: &str, chars: &Vec<char>, a: usize, b: usize) -> (r: Option<Term>)
    requires
        chars@ == input@,
        a <= b <= chars@.len(),
{
    let (x, y) = trim_range(chars, a, b);
    if x >= y {
        return None;
    }
    let c = chars[x];
    if c == '$' {
        match read_ident(input, chars, x + 1, y) {
            Some((name, after)) => {
                if after == y {
                    return Some(Term::Var("$".to_owned().concat(name.as_str())));
                }
                return None;
            },
            None => {
                return None;
            },
        }
    }
    if c == '"' {
        if y > x + 1 && chars[y - 1] == '"' {
            return Some(Term::Lit(YarnValue::Str(input.substring_char(x + 1, y - 1).to_owned())));
        }
        return None;
    }
    if str_eq(input.substring_char(x, y), "true") {
        return Some(Term::Lit(YarnValue::Bool(true)));
    }
    if str_eq(input.substring_char(x, y), "false") {
        return Some(Term::Lit(YarnValue::Bool(false)));
    }
    // a number: optional minus then digits
    let neg = c == '-';
    let ds = if neg {
        x + 1
    } else {
        x
    };
    match crate::util::parse_i64(chars, ds, y) {
        Some(v) => {
            if neg {
                if v == i64::MIN {
                    None
                } else {
                    Some(Term::Lit(YarnValue::Number(-v)))
                }
            } else {
                Some(Term::Lit(YarnValue::Number(v)))
            }
        },
        None => None,
    }
}

/// Parses an expression: a term, or `name(term, ...)`.
fn parse_expr(input: &str, chars: &Vec<char>, a: usize, b: usize) -> (r: Option<Expr>)
    requires
        chars@ == input@,
        a <= b <= chars@.len(),
{
    let (x, y) = trim_range(chars, a, b);
    if x >= y {
        return None;
    }
    // a call: an identifier followed by a parenthesized argument list
    if is_ident_char(chars[x]) && chars[x] != '-' {
        match read_ident(input, chars, x, y) {
            Some((name, after)) => {
                if after < y && chars[after] == '(' && chars[y - 1] == ')' {
                    let inner_a = after + 1;
                    let inner_b = y - 1;
                    if inner_a > inner_b {
                        return None;
                    }
                    let mut args: Vec<Term> = Vec::new();
                    let (ia, ib) = trim_range(chars, inner_a, inner_b);
                    if ia < ib {
                        let mut start = ia;
                        let mut i = ia;
                        let mut ok = true;
                        while i <= ib
                            invariant
                                ia <= start <= i <= ib + 1,
                                ib < chars@.len(),
                                ib < usize::MAX,
                                chars@ == input@,
                            decreases ib + 1 - i,
                        {
                            if i == ib || chars[i] == ',' {
                                match parse_term(input, chars, start, i) {
                                    Some(t) => {
                                        args.push(t);
                                    },
                                    None => {
                                        ok = false;
                                    },
                                }
                                start = if i < ib {
                                    i + 1
                                } else {
                                    ib
                                };
                            }
                            i += 1;
                        }
                        if !ok {
                            return None;
                        }
                    }
                    return Some(Expr::Call(name, args));
                }
            },
            None => {},
        }
    }
    match parse_term(input, chars, x, y) {
        Some(Term::Lit(v)) => Some(Expr::Lit(v)),
        Some(Term::Var(n)) => Some(Expr::Var(n)),
        None => None,
    }
}

/// Parses one body line into a statement.  Yields nothing for an empty line
/// or a malformed one (which is diagnosed).
fn parse_statement(
    input: &str,
    chars: &Vec<char>,
    a: usize,
    b: usize,
    line_no: usize,
    diags: &mut Vec<Diagnostic>,
) -> (r: Option<Stmt>)
    requires
        chars@ == input@,
        a <= b <= chars@.len(),
{
    proof {
        reveal_strlit("->");
        reveal_strlit("<<");
        reveal_strlit("declare ");
        reveal_strlit("set ");
        reveal_strlit("jump ");
        reveal_strlit("to ");
        reveal_strlit("<<if ");
    }
    let (x, y) = trim_range(chars, a, b);
    if x >= y {
        return None;
    }
    if starts_with_at(chars, x, y, "->") {
        // an option line, optionally guarded by a trailing `<<if expr>>`
        let (tx, ty) = trim_range(chars, x + 2, y);
        let mut text_end = ty;
        let mut condition: Option<crate::parser::Expr> = None;
        let mut p = tx;
        let mut guard_at: Option<usize> = None;
        while p < ty
            invariant
                tx <= p <= ty <= chars@.len(),
                guard_at matches Some(gg) ==> tx <= gg < ty,
            decreases ty - p,
        {
            if p + 1 < ty && chars[p] == '<' && chars[p + 1] == '<' {
                guard_at = Some(p);
            }
            p += 1;
        }
        if let Some(g) = guard_at {
            if starts_with_at(chars, g, ty, "<<if ") && ty >= 2 && chars[ty - 1] == '>'
                && chars[ty - 2] == '>' && g + 5 <= ty - 2 {
                match parse_expr(input, chars, g + 5, ty - 2) {
                    Some(e) => {
                        condition = Some(e);
                        let (_, te) = trim_range(chars, tx, g);
                        text_end = te;
                    },
                    None => {
                        syntax_error(diags, "malformed option condition", line_no);
                        return None;
                    },
                }
            }
        }
        let (text_end2, line_id, tags) = read_hashtags(input, chars, tx, text_end);
        if tx >= text_end2 {
            syntax_error(diags, "option line has no text", line_no);
            return None;
        }
        return Some(
            Stmt::OptionLine {
                text: input.substring_char(tx, text_end2).to_owned(),
                condition,
                line_id,
                tags,
                line: line_no,
            },
        );
    }
    if starts_with_at(chars, x, y, "<<") && y >= 2 && chars[y - 1] == '>' && chars[y - 2] == '>'
        && x + 2 <= y - 2 {
        let (ix, iy) = trim_range(chars, x + 2, y - 2);
        if starts_with_at(chars, ix, iy, "declare ") {
            // <<declare $name = literal>>
            let (dx, dy) = trim_range(chars, ix + 8, iy);
            if dx < dy && chars[dx] == '$' {
                match read_ident(input, chars, dx + 1, dy) {
                    Some((name, after)) => {
                        let (ex, ey) = trim_range(chars, after, dy);
                        let value_range = if ex < ey && chars[ex] == '=' {
                            Some((ex + 1, ey))
                        } else if starts_with_at(chars, ex, ey, "to ") {
                            Some((ex + 3, ey))
                        } else {
                            None
                        };
                        if let Some((va, vb)) = value_range {
                            match parse_term(input, chars, va, vb) {
                                Some(Term::Lit(v)) => {
                                    return Some(
                                        Stmt::Declare {
                                            variable: "$".to_owned().concat(name.as_str()),
                                            value: v,
                                            line: line_no,
                                        },
                                    );
                                },
                                _ => {
                                    syntax_error(
                                        diags,
                                        "a declaration needs a literal default value",
                                        line_no,
                                    );
                                    return None;
                                },
                            }
                        }
                    },
                    None => {},
                }
            }
            syntax_error(diags, "malformed declaration", line_no);
            return None;
        }
        if starts_with_at(chars, ix, iy, "set ") {
            // <<set $name = expr>> or <<set $name to expr>>
            let (dx, dy) = trim_range(chars, ix + 4, iy);
            if dx < dy && chars[dx] == '$' {
                match read_ident(input, chars, dx + 1, dy) {
                    Some((name, after)) => {
                        let (ex, ey) = trim_range(chars, after, dy);
                        let value_range = if ex < ey && chars[ex] == '=' {
                            Some((ex + 1, ey))
                        } else if starts_with_at(chars, ex, ey, "to ") {
                            Some((ex + 3, ey))
                        } else {
                            None
                        };
                        if let Some((va, vb)) = value_range {
                            match parse_expr(input, chars, va, vb) {
                                Some(e) => {
                                    return Some(
                                        Stmt::SetVar {
                                            variable: "$".to_owned().concat(name.as_str()),
                                            value: e,
                                            line: line_no,
                                        },
                                    );
                                },
                                None => {
                                    syntax_error(diags, "malformed assignment value", line_no);
                                    return None;
                                },
                            }
                        }
                    },
                    None => {},
                }
            }
            syntax_error(diags, "malformed assignment", line_no);
            return None;
        }
        if starts_with_at(chars, ix, iy, "jump ") {
            let (jx, jy) = trim_range(chars, ix + 5, iy);
            if jx < jy {
                return Some(
                    Stmt::JumpToNode {
                        node: input.substring_char(jx, jy).to_owned(),
                        line: line_no,
                    },
                );
            }
            syntax_error(diags, "a jump needs a node name", line_no);
            return None;
        }
        if ix < iy && str_eq(input.substring_char(ix, iy), "stop") {
            return Some(Stmt::StopHere { line: line_no });
        }
        if ix >= iy {
            syntax_error(diags, "empty command", line_no);
            return None;
        }
        return Some(
            Stmt::Command { text: input.substring_char(ix, iy).to_owned(), line: line_no },
        );
    }
    let (text_end, line_id, tags) = read_hashtags(input, chars, x, y);
    if x >= text_end {
        return None;
    }
    Some(
        Stmt::Line {
            text: input.substring_char(x, text_end).to_owned(),
            line_id,
            tags,
            line: line_no,
        },
    )
}

/// Parses one source text into nodes.  Syntax errors become diagnostics and
/// drop only the affected line or node.
pub(crate) fn parse_source(source: &str, diags: &mut Vec<Diagnostic>) -> (r: Vec<ParsedNode>) {
    let chars = chars_of(source);
    let n = chars.len();
    let mut nodes: Vec<ParsedNode> = Vec::new();
    if n == usize::MAX {
        return nodes;
    }
    let mut in_body = false;
    let mut title: Option<String> = None;
    let mut headers: Vec<Header> = Vec::new();
    let mut statements: Vec<Stmt> = Vec::new();
    let mut tracking = false;
    let mut line_no: usize = 0;
    let mut i: usize = 0;
    while i <= n
        invariant
            n == chars@.len(),
            chars@ == source@,
            i <= n + 1,
            n < usize::MAX,
            line_no <= i,
        decreases n + 1 - i,
    {
        // the current line is [i, e)
        let mut e = i;
        while e < n && chars[e] != '\n'
            invariant
                i <= e <= n,
                n == chars@.len(),
            decreases n - e,
        {
            e += 1;
        }
        let (x, y) = trim_range(&chars, i, e);
        if !in_body {
            if x < y {
                if starts_with_at(&chars, x, y, "---") {
                    in_body = true;
                } else {
                    match find_char(&chars, x, y, ':') {
                        Some(colon) => {
                            let (kx, ky) = trim_range(&chars, x, colon);
                            let (vx, vy) = trim_range(&chars, colon + 1, y);
                            let key = source.substring_char(kx, ky).to_owned();
                            let value = source.substring_char(vx, vy).to_owned();
                            if str_eq(key.as_str(), "title") {
                                title = Some(value.clone());
                            }
                            if str_eq(key.as_str(), "tracking") && str_eq(
                                value.as_str(),
                                "always",
                            ) {
                                tracking = true;
                            }
                            headers.push(Header { key, value });
                        },
                        None => {
                            syntax_error(diags, "malformed header line", line_no);
                        },
                    }
                }
            }
        } else {
            if x < y && starts_with_at(&chars, x, y, "===") {
                // the node ends
                match title {
                    Some(t) => {
                        nodes.push(
                            ParsedNode { title: t, headers, statements, tracking },
                        );
                    },
                    None => {
                        syntax_error(diags, "node has no title header", line_no);
                    },
                }
                title = None;
                headers = Vec::new();
                statements = Vec::new();
                tracking = false;
                in_body = false;
            } else {
                match parse_statement(source, &chars, i, e, line_no, diags) {
                    Some(stmt) => {
                        statements.push(stmt);
                    },
                    None => {},
                }
            }
        }
        line_no = line_no + 1;
        i = e + 1;
    }
    if in_body {
        // an unterminated node still counts, so in-memory sources need no
        // trailing separator
        match title {
            Some(t) => {
                nodes.push(ParsedNode { title: t, headers, statements, tracking });
            },
            None => {
                syntax_error(diags, "node has no title header", line_no);
            },
        }
    }
    nodes
}

} // verus!
