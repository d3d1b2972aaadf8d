//! The persistence codec: renders the project list to its JSON text and
//! parses that text back. The renderer emits one canonical, compact form:
//! an array of `{"name":...,"tasks":[...]}` objects whose tasks are
//! `{"name":...,"done":...}` objects; in strings it escapes `"` and `\` with
//! a backslash and every control character as a lowercase `\u00..` sequence.
//! The parser accepts exactly that canonical form and rejects everything
//! else, so parsing inverts rendering on every project list.

use vstd::prelude::*;

use crate::domain::{Project, ProjectView, Task, TaskView};
use crate::text::{chars_to_string, str_to_chars};

verus! {

// ---------------------------------------------------------------------------
// Literal fragments of the canonical form.
// ---------------------------------------------------------------------------
/// `{"name":"` — the object opener up to and including the opening quote of
/// the name value.
pub open spec fn lit_name_prefix() -> Seq<char> {
    seq!['{', '"', 'n', 'a', 'm', 'e', '"', ':', '"']
}

/// `,"done":` — between the name value and the done value.
pub open spec fn lit_done_mid() -> Seq<char> {
    seq![',', '"', 'd', 'o', 'n', 'e', '"', ':']
}

/// `,"tasks":` — between the name value and the task array.
pub open spec fn lit_tasks_mid() -> Seq<char> {
    seq![',', '"', 't', 'a', 's', 'k', 's', '"', ':']
}

/// `true}` — a done flag that is set, with the object closer.
pub open spec fn lit_true_end() -> Seq<char> {
    seq!['t', 'r', 'u', 'e', '}']
}

/// `false}` — a done flag that is clear, with the object closer.
pub open spec fn lit_false_end() -> Seq<char> {
    seq!['f', 'a', 'l', 's', 'e', '}']
}

// ---------------------------------------------------------------------------
// String escaping.
// ---------------------------------------------------------------------------
/// The lowercase hexadecimal digit of a value below sixteen.
pub open spec fn hex_digit(v: int) -> char {
    if v == 0 {
        '0'
    } else if v == 1 {
        '1'
    } else if v == 2 {
        '2'
    } else if v == 3 {
        '3'
    } else if v == 4 {
        '4'
    } else if v == 5 {
        '5'
    } else if v == 6 {
        '6'
    } else if v == 7 {
        '7'
    } else if v == 8 {
        '8'
    } else if v == 9 {
        '9'
    } else if v == 10 {
        'a'
    } else if v == 11 {
        'b'
    } else if v == 12 {
        'c'
    } else if v == 13 {
        'd'
    } else if v == 14 {
        'e'
    } else {
        'f'
    }
}

/// The value of a lowercase hexadecimal digit; sixteen for any other
/// character.
pub open spec fn hex_val(c: char) -> int {
    if c == '0' {
        0
    } else if c == '1' {
        1
    } else if c == '2' {
        2
    } else if c == '3' {
        3
    } else if c == '4' {
        4
    } else if c == '5' {
        5
    } else if c == '6' {
        6
    } else if c == '7' {
        7
    } else if c == '8' {
        8
    } else if c == '9' {
        9
    } else if c == 'a' {
        10
    } else if c == 'b' {
        11
    } else if c == 'c' {
        12
    } else if c == 'd' {
        13
    } else if c == 'e' {
        14
    } else if c == 'f' {
        15
    } else {
        16
    }
}

/// The character whose Unicode scalar value is `v`.
pub open spec fn char_of(v: int) -> char {
    (v as u32) as char
}

/// How one character is written inside a JSON string: `"` and `\` get a
/// backslash escape, control characters become `\u00..`, everything else
/// stands as itself.
pub open spec fn escape_char(c: char) -> Seq<char> {
    if c == '"' {
        seq!['\\', '"']
    } else if c == '\\' {
        seq!['\\', '\\']
    } else if (c as u32) < 32 {
        seq!['\\', 'u', '0', '0', hex_digit((c as u32) as int / 16), hex_digit((c as u32) as int % 16)]
    } else {
        seq![c]
    }
}

/// A name written inside a JSON string, character by character.
pub open spec fn escape(s: Seq<char>) -> Seq<char>
    decreases s.len(),
{
    if s.len() == 0 {
        Seq::empty()
    } else {
        escape_char(s[0]) + escape(s.drop_first())
    }
}

// ---------------------------------------------------------------------------
// Rendering.
// ---------------------------------------------------------------------------
/// The canonical text of one task object.
pub open spec fn render_task(t: TaskView) -> Seq<char> {
    lit_name_prefix() + escape(t.name) + seq!['"'] + lit_done_mid() + (if t.done {
        lit_true_end()
    } else {
        lit_false_end()
    })
}

/// The canonical text of a non-empty task sequence: the elements separated
/// by commas, with the closing bracket folded in.
pub open spec fn render_tasks_items(ts: Seq<TaskView>) -> Seq<char>
    decreases ts.len(),
{
    if ts.len() <= 1 {
        render_task(ts[0]) + seq![']']
    } else {
        render_task(ts[0]) + seq![','] + render_tasks_items(ts.drop_first())
    }
}

/// The canonical text of a task array.
pub open spec fn render_tasks(ts: Seq<TaskView>) -> Seq<char> {
    if ts.len() == 0 {
        seq!['[', ']']
    } else {
        seq!['['] + render_tasks_items(ts)
    }
}

/// The canonical text of one project object.
pub open spec fn render_project(p: ProjectView) -> Seq<char> {
    lit_name_prefix() + escape(p.name) + seq!['"'] + lit_tasks_mid() + render_tasks(p.tasks)
        + seq!['}']
}

/// The canonical text of a non-empty project sequence, closing bracket
/// folded in.
pub open spec fn render_projects_items(ps: Seq<ProjectView>) -> Seq<char>
    decreases ps.len(),
{
    if ps.len() <= 1 {
        render_project(ps[0]) + seq![']']
    } else {
        render_project(ps[0]) + seq![','] + render_projects_items(ps.drop_first())
    }
}

/// The canonical text of the whole persisted state: a JSON array of project
/// objects.
pub open spec fn render_projects(ps: Seq<ProjectView>) -> Seq<char> {
    if ps.len() == 0 {
        seq!['[', ']']
    } else {
        seq!['['] + render_projects_items(ps)
    }
}

// ---------------------------------------------------------------------------
// Parsing.
// ---------------------------------------------------------------------------
/// Consumes the exact literal `lit` from the front of `s`.
pub open spec fn expect(s: Seq<char>, lit: Seq<char>) -> Option<Seq<char>> {
    if lit.is_prefix_of(s) {
        Some(s.skip(lit.len() as int))
    } else {
        None
    }
}

/// Consumes a string body up to and including its closing quote, undoing
/// the escaping. Raw control characters, unknown escapes, uppercase hex and
/// `\u` values outside the control range are rejected.
pub open spec fn parse_strbody(s: Seq<char>) -> Option<(Seq<char>, Seq<char>)>
    decreases s.len(),
{
    if s.len() == 0 {
        None
    } else if s[0] == '"' {
        Some((Seq::empty(), s.drop_first()))
    } else if s[0] == '\\' {
        if s.len() < 2 {
            None
        } else if s[1] == '"' || s[1] == '\\' {
            match parse_strbody(s.skip(2)) {
                Some((t, r)) => Some((seq![s[1]] + t, r)),
                None => None,
            }
        } else if s[1] == 'u' {
            if s.len() < 6 {
                None
            } else if s[2] == '0' && s[3] == '0' && hex_val(s[4]) < 16 && hex_val(s[5]) < 16 && 16
                * hex_val(s[4]) + hex_val(s[5]) < 32 {
                match parse_strbody(s.skip(6)) {
                    Some((t, r)) => Some((seq![char_of(16 * hex_val(s[4]) + hex_val(s[5]))] + t, r)),
                    None => None,
                }
            } else {
                None
            }
        } else {
            None
        }
    } else if (s[0] as u32) < 32 {
        None
    } else {
        match parse_strbody(s.drop_first()) {
            Some((t, r)) => Some((seq![s[0]] + t, r)),
            None => None,
        }
    }
}

/// Consumes one task object.
pub open spec fn parse_task(s: Seq<char>) -> Option<(TaskView, Seq<char>)> {
    match expect(s, lit_name_prefix()) {
        None => None,
        Some(r1) => match parse_strbody(r1) {
            None => None,
            Some((name, r2)) => match expect(r2, lit_done_mid()) {
                None => None,
                Some(r3) => match expect(r3, lit_true_end()) {
                    Some(r4) => Some((TaskView { name, done: true }, r4)),
                    None => match expect(r3, lit_false_end()) {
                        Some(r4) => Some((TaskView { name, done: false }, r4)),
                        None => None,
                    },
                },
            },
        },
    }
}

/// Consumes one or more comma-separated task objects and the closing
/// bracket.
pub open spec fn parse_tasks_items(s: Seq<char>) -> Option<(Seq<TaskView>, Seq<char>)>
    decreases s.len(),
{
    match parse_task(s) {
        None => None,
        Some((t, r)) => if r.len() == 0 {
            None
        } else if r[0] == ']' {
            Some((seq![t], r.drop_first()))
        } else if r[0] == ',' && r.len() < s.len() {
            match parse_tasks_items(r.drop_first()) {
                Some((ts, r2)) => Some((seq![t] + ts, r2)),
                None => None,
            }
        } else {
            None
        },
    }
}

/// Consumes a task array.
pub open spec fn parse_tasks(s: Seq<char>) -> Option<(Seq<TaskView>, Seq<char>)> {
    if s.len() < 2 || s[0] != '[' {
        None
    } else if s[1] == ']' {
        Some((Seq::empty(), s.skip(2)))
    } else {
        parse_tasks_items(s.drop_first())
    }
}

/// Consumes one project object.
pub open spec fn parse_project(s: Seq<char>) -> Option<(ProjectView, Seq<char>)> {
    match expect(s, lit_name_prefix()) {
        None => None,
        Some(r1) => match parse_strbody(r1) {
            None => None,
            Some((name, r2)) => match expect(r2, lit_tasks_mid()) {
                None => None,
                Some(r3) => match parse_tasks(r3) {
                    None => None,
                    Some((ts, r4)) => if r4.len() > 0 && r4[0] == '}' {
                        Some((ProjectView { name, tasks: ts }, r4.drop_first()))
                    } else {
                        None
                    },
                },
            },
        },
    }
}

/// Consumes one or more comma-separated project objects and the closing
/// bracket.
pub open spec fn parse_projects_items(s: Seq<char>) -> Option<(Seq<ProjectView>, Seq<char>)>
    decreases s.len(),
{
    match parse_project(s) {
        None => None,
        Some((p, r)) => if r.len() == 0 {
            None
        } else if r[0] == ']' {
            Some((seq![p], r.drop_first()))
        } else if r[0] == ',' && r.len() < s.len() {
            match parse_projects_items(r.drop_first()) {
                Some((ps, r2)) => Some((seq![p] + ps, r2)),
                None => None,
            }
        } else {
            None
        },
    }
}

/// Consumes a project array.
pub open spec fn parse_projects(s: Seq<char>) -> Option<(Seq<ProjectView>, Seq<char>)> {
    if s.len() < 2 || s[0] != '[' {
        None
    } else if s[1] == ']' {
        Some((Seq::empty(), s.skip(2)))
    } else {
        parse_projects_items(s.drop_first())
    }
}

/// The whole persisted text: a project array and nothing after it.
pub open spec fn parse_state(s: Seq<char>) -> Option<Seq<ProjectView>> {
    match parse_projects(s) {
        Some((ps, rest)) => if rest.len() == 0 {
            Some(ps)
        } else {
            None
        },
        None => None,
    }
}

// ---------------------------------------------------------------------------
// Round trip: parsing inverts rendering.
// ---------------------------------------------------------------------------
proof fn lemma_expect_prefix(lit: Seq<char>, rest: Seq<char>)
    ensures
        expect(lit + rest, lit) == Some(rest),
{
    assert((lit + rest).subrange(0, lit.len() as int) =~= lit);
    assert((lit + rest).skip(lit.len() as int) =~= rest);
}

proof fn lemma_hex_roundtrip(x: int)
    requires
        0 <= x < 16,
    ensures
        hex_val(hex_digit(x)) == x,
{
}

proof fn lemma_char_of_scalar(c: char)
    ensures
        char_of((c as u32) as int) == c,
{
    broadcast use vstd::utf8::char_u32_cast;

    assert(((c as u32) as int) as u32 == c as u32);
}

proof fn lemma_parse_escape(name: Seq<char>, rest: Seq<char>)
    ensures
        parse_strbody(escape(name) + seq!['"'] + rest) == Some((name, rest)),
    decreases name.len(),
{
    let s = escape(name) + seq!['"'] + rest;
    if name.len() == 0 {
        assert(s =~= seq!['"'] + rest);
        assert(s[0] == '"');
        assert(s.drop_first() =~= rest);
        assert(name =~= Seq::<char>::empty());
    } else {
        let c = name[0];
        let tail = name.drop_first();
        lemma_parse_escape(tail, rest);
        assert(escape(name) == escape_char(c) + escape(tail));
        if c == '"' || c == '\\' {
            assert(s =~= seq!['\\', c] + (escape(tail) + seq!['"'] + rest));
            assert(s[0] == '\\');
            assert(s[1] == c);
            assert(s.len() >= 2);
            assert(s.skip(2) =~= escape(tail) + seq!['"'] + rest);
            assert(parse_strbody(s) == Some((seq![c] + tail, rest)));
            assert(seq![c] + tail =~= name);
        } else if (c as u32) < 32 {
            let v = (c as u32) as int;
            let h1 = hex_digit(v / 16);
            let h2 = hex_digit(v % 16);
            assert(s =~= seq!['\\', 'u', '0', '0', h1, h2] + (escape(tail) + seq!['"'] + rest));
            assert(s[0] == '\\');
            assert(s[1] == 'u');
            assert(s.len() >= 6);
            assert(s[2] == '0');
            assert(s[3] == '0');
            assert(0 <= v / 16 < 16);
            assert(0 <= v % 16 < 16);
            lemma_hex_roundtrip(v / 16);
            lemma_hex_roundtrip(v % 16);
            assert(s[4] == h1);
            assert(s[5] == h2);
            assert(16 * hex_val(s[4]) + hex_val(s[5]) == v);
            lemma_char_of_scalar(c);
            assert(s.skip(6) =~= escape(tail) + seq!['"'] + rest);
            assert(parse_strbody(s) == Some((seq![c] + tail, rest)));
            assert(seq![c] + tail =~= name);
        } else {
            assert(s =~= seq![c] + (escape(tail) + seq!['"'] + rest));
            assert(s[0] == c);
            assert(s.drop_first() =~= escape(tail) + seq!['"'] + rest);
            assert(parse_strbody(s) == Some((seq![c] + tail, rest)));
            assert(seq![c] + tail =~= name);
        }
    }
}

proof fn lemma_parse_render_task(t: TaskView, rest: Seq<char>)
    ensures
        parse_task(render_task(t) + rest) == Some((t, rest)),
{
    let s = render_task(t) + rest;
    let done_lit = if t.done {
        lit_true_end()
    } else {
        lit_false_end()
    };
    let x1 = escape(t.name) + seq!['"'] + (lit_done_mid() + (done_lit + rest));
    assert(s =~= lit_name_prefix() + x1);
    lemma_expect_prefix(lit_name_prefix(), x1);
    assert(expect(s, lit_name_prefix()) == Some(x1));
    lemma_parse_escape(t.name, lit_done_mid() + (done_lit + rest));
    assert(parse_strbody(x1) == Some((t.name, lit_done_mid() + (done_lit + rest))));
    lemma_expect_prefix(lit_done_mid(), done_lit + rest);
    lemma_expect_prefix(done_lit, rest);
    assert(done_lit + rest =~= done_lit + rest);
    if t.done {
        assert(expect(done_lit + rest, lit_true_end()) == Some(rest));
        assert(parse_task(s) == Some((TaskView { name: t.name, done: true }, rest)));
        assert(TaskView { name: t.name, done: true } == t);
    } else {
        if lit_true_end().is_prefix_of(done_lit + rest) {
            assert((done_lit + rest).subrange(0, 5)[0] == (done_lit + rest)[0]);
            assert((done_lit + rest)[0] == 'f');
            assert(false);
        }
        assert(expect(done_lit + rest, lit_true_end()) is None);
        assert(expect(done_lit + rest, lit_false_end()) == Some(rest));
        assert(parse_task(s) == Some((TaskView { name: t.name, done: false }, rest)));
        assert(TaskView { name: t.name, done: false } == t);
    }
}

proof fn lemma_render_task_nonempty(t: TaskView)
    ensures
        render_task(t).len() >= 9,
        render_task(t)[0] == '{',
{
}

#[verifier::rlimit(60)]
proof fn lemma_parse_render_tasks_items(ts: Seq<TaskView>, rest: Seq<char>)
    requires
        ts.len() >= 1,
    ensures
        parse_tasks_items(render_tasks_items(ts) + rest) == Some((ts, rest)),
    decreases ts.len(),
{
    let s = render_tasks_items(ts) + rest;
    lemma_render_task_nonempty(ts[0]);
    if ts.len() == 1 {
        let r = seq![']'] + rest;
        assert(s =~= render_task(ts[0]) + r);
        lemma_parse_render_task(ts[0], r);
        assert(parse_task(s) == Some((ts[0], r)));
        assert(r[0] == ']');
        assert(r.drop_first() =~= rest);
        assert(seq![ts[0]] =~= ts);
    } else {
        let dt = ts.drop_first();
        let r = seq![','] + (render_tasks_items(dt) + rest);
        assert(s =~= render_task(ts[0]) + r);
        lemma_parse_render_task(ts[0], r);
        assert(parse_task(s) == Some((ts[0], r)));
        assert(r[0] == ',');
        assert(s.len() == render_task(ts[0]).len() + r.len());
        assert(r.len() < s.len());
        assert(r.drop_first() =~= render_tasks_items(dt) + rest);
        lemma_parse_render_tasks_items(dt, rest);
        assert(parse_tasks_items(r.drop_first()) == Some((dt, rest)));
        assert(parse_tasks_items(s) == Some((seq![ts[0]] + dt, rest)));
        assert(seq![ts[0]] + dt =~= ts);
    }
}

proof fn lemma_parse_render_tasks(ts: Seq<TaskView>, rest: Seq<char>)
    ensures
        parse_tasks(render_tasks(ts) + rest) == Some((ts, rest)),
{
    let s = render_tasks(ts) + rest;
    if ts.len() == 0 {
        assert(s =~= seq!['[', ']'] + rest);
        assert(s.len() >= 2);
        assert(s[0] == '[');
        assert(s[1] == ']');
        assert(s.skip(2) =~= rest);
        assert(ts =~= Seq::<TaskView>::empty());
    } else {
        lemma_render_task_nonempty(ts[0]);
        assert(s =~= seq!['['] + (render_tasks_items(ts) + rest));
        assert(s[0] == '[');
        assert(render_tasks_items(ts)[0] == render_task(ts[0])[0]);
        assert(s[1] == '{');
        assert(s.len() >= 2);
        assert(s.drop_first() =~= render_tasks_items(ts) + rest);
        lemma_parse_render_tasks_items(ts, rest);
    }
}

proof fn lemma_parse_render_project(p: ProjectView, rest: Seq<char>)
    ensures
        parse_project(render_project(p) + rest) == Some((p, rest)),
{
    let s = render_project(p) + rest;
    let x1 = escape(p.name) + seq!['"'] + (lit_tasks_mid() + (render_tasks(p.tasks) + (seq!['}']
        + rest)));
    assert(s =~= lit_name_prefix() + x1);
    lemma_expect_prefix(lit_name_prefix(), x1);
    assert(expect(s, lit_name_prefix()) == Some(x1));
    lemma_parse_escape(p.name, lit_tasks_mid() + (render_tasks(p.tasks) + (seq!['}'] + rest)));
    assert(parse_strbody(x1) == Some(
        (p.name, lit_tasks_mid() + (render_tasks(p.tasks) + (seq!['}'] + rest))),
    ));
    lemma_expect_prefix(lit_tasks_mid(), render_tasks(p.tasks) + (seq!['}'] + rest));
    lemma_parse_render_tasks(p.tasks, seq!['}'] + rest);
    let r4 = seq!['}'] + rest;
    assert(r4[0] == '}');
    assert(r4.drop_first() =~= rest);
    assert(parse_project(s) == Some((ProjectView { name: p.name, tasks: p.tasks }, rest)));
    assert(ProjectView { name: p.name, tasks: p.tasks } == p);
}

proof fn lemma_render_project_nonempty(p: ProjectView)
    ensures
        render_project(p).len() >= 9,
        render_project(p)[0] == '{',
{
}

#[verifier::rlimit(60)]
proof fn lemma_parse_render_projects_items(ps: Seq<ProjectView>, rest: Seq<char>)
    requires
        ps.len() >= 1,
    ensures
        parse_projects_items(render_projects_items(ps) + rest) == Some((ps, rest)),
    decreases ps.len(),
{
    let s = render_projects_items(ps) + rest;
    lemma_render_project_nonempty(ps[0]);
    if ps.len() == 1 {
        let r = seq![']'] + rest;
        assert(s =~= render_project(ps[0]) + r);
        lemma_parse_render_project(ps[0], r);
        assert(parse_project(s) == Some((ps[0], r)));
        assert(r[0] == ']');
        assert(r.drop_first() =~= rest);
        assert(seq![ps[0]] =~= ps);
    } else {
        let dp = ps.drop_first();
        let r = seq![','] + (render_projects_items(dp) + rest);
        assert(s =~= render_project(ps[0]) + r);
        lemma_parse_render_project(ps[0], r);
        assert(parse_project(s) == Some((ps[0], r)));
        assert(r[0] == ',');
        assert(s.len() == render_project(ps[0]).len() + r.len());
        assert(r.len() < s.len());
        assert(r.drop_first() =~= render_projects_items(dp) + rest);
        lemma_parse_render_projects_items(dp, rest);
        assert(parse_projects_items(s) == Some((seq![ps[0]] + dp, rest)));
        assert(seq![ps[0]] + dp =~= ps);
    }
}

#[verifier::rlimit(60)]
proof fn lemma_parse_render_projects(ps: Seq<ProjectView>, rest: Seq<char>)
    ensures
        parse_projects(render_projects(ps) + rest) == Some((ps, rest)),
{
    let s = render_projects(ps) + rest;
    if ps.len() == 0 {
        assert(s =~= seq!['[', ']'] + rest);
        assert(s.len() >= 2);
        assert(s[0] == '[');
        assert(s[1] == ']');
        assert(s.skip(2) =~= rest);
        assert(ps =~= Seq::<ProjectView>::empty());
    } else {
        lemma_render_project_nonempty(ps[0]);
        assert(s =~= seq!['['] + (render_projects_items(ps) + rest));
        assert(s[0] == '[');
        assert(render_projects_items(ps)[0] == render_project(ps[0])[0]);
        assert(s[1] == '{');
        assert(s.len() >= 2);
        assert(s.drop_first() =~= render_projects_items(ps) + rest);
        lemma_parse_render_projects_items(ps, rest);
    }
}

/// Round trip: parsing the rendered text of any project list yields that
/// list back, exactly.
pub proof fn lemma_state_round_trip(ps: Seq<ProjectView>)
    ensures
        parse_state(render_projects(ps)) == Some(ps),
{
    lemma_parse_render_projects(ps, Seq::empty());
    assert(render_projects(ps) + Seq::<char>::empty() =~= render_projects(ps));
}

// ---------------------------------------------------------------------------
// Executable rendering.
// ---------------------------------------------------------------------------
fn hex_digit_exec(v: u8) -> (c: char)
    requires
        v < 16,
    ensures
        c == hex_digit(v as int),
{
    if v == 0 {
        '0'
    } else if v == 1 {
        '1'
    } else if v == 2 {
        '2'
    } else if v == 3 {
        '3'
    } else if v == 4 {
        '4'
    } else if v == 5 {
        '5'
    } else if v == 6 {
        '6'
    } else if v == 7 {
        '7'
    } else if v == 8 {
        '8'
    } else if v == 9 {
        '9'
    } else if v == 10 {
        'a'
    } else if v == 11 {
        'b'
    } else if v == 12 {
        'c'
    } else if v == 13 {
        'd'
    } else if v == 14 {
        'e'
    } else {
        'f'
    }
}

/// Appends the written form of one string character.
fn emit_escaped_char(out: &mut Vec<char>, c: char)
    ensures
        final(out)@ == old(out)@ + escape_char(c),
{
    if c == '"' {
        out.push('\\');
        out.push('"');
        proof {
            assert(out@ =~= old(out)@ + escape_char(c));
        }
    } else if c == '\\' {
        out.push('\\');
        out.push('\\');
        proof {
            assert(out@ =~= old(out)@ + escape_char(c));
        }
    } else if (c as u32) < 32 {
        let v = c as u32;
        out.push('\\');
        out.push('u');
        out.push('0');
        out.push('0');
        out.push(hex_digit_exec((v / 16) as u8));
        out.push(hex_digit_exec((v % 16) as u8));
        proof {
            assert(out@ =~= old(out)@ + escape_char(c));
        }
    } else {
        out.push(c);
        proof {
            assert(out@ =~= old(out)@ + escape_char(c));
        }
    }
}

/// Appends the written form of a whole name (without the quotes).
fn emit_escaped(out: &mut Vec<char>, name: &String)
    ensures
        final(out)@ == old(out)@ + escape(name@),
{
    let cs = str_to_chars(name.as_str());
    let mut i: usize = 0;
    proof {
        assert(cs@.skip(0) =~= cs@);
    }
    while i < cs.len()
        invariant
            i <= cs@.len(),
            cs@ == name@,
            out@ + escape(cs@.skip(i as int)) == old(out)@ + escape(cs@),
        decreases cs@.len() - i,
    {
        let ghost pre = out@;
        emit_escaped_char(out, cs[i]);
        proof {
            assert(cs@.skip(i as int).drop_first() =~= cs@.skip(i + 1));
            assert(cs@.skip(i as int)[0] == cs@[i as int]);
            assert(escape(cs@.skip(i as int)) == escape_char(cs@[i as int]) + escape(
                cs@.skip(i + 1),
            ));
            assert(out@ + escape(cs@.skip(i + 1)) =~= pre + escape(cs@.skip(i as int)));
        }
        i = i + 1;
    }
    proof {
        assert(cs@.skip(cs@.len() as int) =~= Seq::<char>::empty());
        assert(out@ + Seq::<char>::empty() =~= out@);
    }
}

/// The canonical text of one task object, as characters.
fn render_task_chars(t: &Task) -> (r: Vec<char>)
    ensures
        r@ == render_task(t@),
{
    let mut out = vec!['{', '"', 'n', 'a', 'm', 'e', '"', ':', '"'];
    proof {
        assert(out@ =~= lit_name_prefix());
    }
    emit_escaped(&mut out, &t.name);
    out.push('"');
    let mut mid = vec![',', '"', 'd', 'o', 'n', 'e', '"', ':'];
    proof {
        assert(mid@ =~= lit_done_mid());
    }
    out.append(&mut mid);
    let mut done_part = if t.done {
        vec!['t', 'r', 'u', 'e', '}']
    } else {
        vec!['f', 'a', 'l', 's', 'e', '}']
    };
    proof {
        if t.done {
            assert(done_part@ =~= lit_true_end());
        } else {
            assert(done_part@ =~= lit_false_end());
        }
    }
    out.append(&mut done_part);
    proof {
        assert(out@ =~= render_task(t@));
    }
    out
}

/// The canonical text of a task array, as characters.
fn render_tasks_chars(ts: &Vec<Task>) -> (r: Vec<char>)
    ensures
        r@ == render_tasks(ts@.map_values(|t: Task| t@)),
{
    let ghost tviews = ts@.map_values(|t: Task| t@);
    if ts.len() == 0 {
        let out = vec!['[', ']'];
        proof {
            assert(out@ =~= render_tasks(tviews));
        }
        return out;
    }
    let mut out = vec!['['];
    let mut i: usize = 0;
    proof {
        assert(tviews.skip(0) =~= tviews);
        assert(out@ + render_tasks_items(tviews.skip(0)) =~= seq!['['] + render_tasks_items(
            tviews,
        ));
    }
    while i < ts.len()
        invariant
            i <= ts@.len(),
            ts@.len() == tviews.len(),
            tviews == ts@.map_values(|t: Task| t@),
            i < tviews.len() ==> out@ + render_tasks_items(tviews.skip(i as int)) == seq!['[']
                + render_tasks_items(tviews),
            i == tviews.len() ==> out@ == seq!['['] + render_tasks_items(tviews),
            tviews.len() > 0,
        decreases ts@.len() - i,
    {
        let ghost pre = out@;
        let mut piece = render_task_chars(&ts[i]);
        out.append(&mut piece);
        proof {
            assert(tviews.skip(i as int)[0] == tviews[i as int]);
            assert(tviews.skip(i as int).len() == tviews.len() - i);
        }
        if i + 1 == ts.len() {
            out.push(']');
            proof {
                assert(render_tasks_items(tviews.skip(i as int)) == render_task(tviews[i as int])
                    + seq![']']);
                assert(out@ =~= pre + render_tasks_items(tviews.skip(i as int)));
            }
        } else {
            out.push(',');
            proof {
                assert(tviews.skip(i as int).drop_first() =~= tviews.skip(i + 1));
                assert(render_tasks_items(tviews.skip(i as int)) == render_task(tviews[i as int])
                    + seq![','] + render_tasks_items(tviews.skip(i + 1)));
                assert(out@ + render_tasks_items(tviews.skip(i + 1)) =~= pre + render_tasks_items(
                    tviews.skip(i as int),
                ));
            }
        }
        i = i + 1;
    }
    proof {
        assert(out@ =~= render_tasks(tviews));
    }
    out
}

/// The canonical text of one project object, as characters.
fn render_project_chars(p: &Project) -> (r: Vec<char>)
    ensures
        r@ == render_project(p@),
{
    let mut out = vec!['{', '"', 'n', 'a', 'm', 'e', '"', ':', '"'];
    proof {
        assert(out@ =~= lit_name_prefix());
    }
    emit_escaped(&mut out, &p.name);
    out.push('"');
    let mut mid = vec![',', '"', 't', 'a', 's', 'k', 's', '"', ':'];
    proof {
        assert(mid@ =~= lit_tasks_mid());
    }
    out.append(&mut mid);
    let mut tasks_part = render_tasks_chars(&p.tasks);
    out.append(&mut tasks_part);
    out.push('}');
    proof {
        assert(out@ =~= render_project(p@));
    }
    out
}

/// The canonical text of the whole state, as characters.
fn render_projects_chars(ps: &Vec<Project>) -> (r: Vec<char>)
    ensures
        r@ == render_projects(ps@.map_values(|p: Project| p@)),
{
    let ghost pviews = ps@.map_values(|p: Project| p@);
    if ps.len() == 0 {
        let out = vec!['[', ']'];
        proof {
            assert(out@ =~= render_projects(pviews));
        }
        return out;
    }
    let mut out = vec!['['];
    let mut i: usize = 0;
    proof {
        assert(pviews.skip(0) =~= pviews);
        assert(out@ + render_projects_items(pviews.skip(0)) =~= seq!['['] + render_projects_items(
            pviews,
        ));
    }
    while i < ps.len()
        invariant
            i <= ps@.len(),
            ps@.len() == pviews.len(),
            pviews == ps@.map_values(|p: Project| p@),
            i < pviews.len() ==> out@ + render_projects_items(pviews.skip(i as int)) == seq!['[']
                + render_projects_items(pviews),
            i == pviews.len() ==> out@ == seq!['['] + render_projects_items(pviews),
            pviews.len() > 0,
        decreases ps@.len() - i,
    {
        let ghost pre = out@;
        let mut piece = render_project_chars(&ps[i]);
        out.append(&mut piece);
        proof {
            assert(pviews.skip(i as int)[0] == pviews[i as int]);
            assert(pviews.skip(i as int).len() == pviews.len() - i);
        }
        if i + 1 == ps.len() {
            out.push(']');
            proof {
                assert(render_projects_items(pviews.skip(i as int)) == render_project(
                    pviews[i as int],
                ) + seq![']']);
                assert(out@ =~= pre + render_projects_items(pviews.skip(i as int)));
            }
        } else {
            out.push(',');
            proof {
                assert(pviews.skip(i as int).drop_first() =~= pviews.skip(i + 1));
                assert(render_projects_items(pviews.skip(i as int)) == render_project(
                    pviews[i as int],
                ) + seq![','] + render_projects_items(pviews.skip(i + 1)));
                assert(out@ + render_projects_items(pviews.skip(i + 1)) =~= pre
                    + render_projects_items(pviews.skip(i as int)));
            }
        }
        i = i + 1;
    }
    proof {
        assert(out@ =~= render_projects(pviews));
    }
    out
}

/// Renders the whole project list to its canonical persisted text.
pub fn encode_state(projects: &Vec<Project>) -> (r: String)
    ensures
        r@ == render_projects(projects@.map_values(|p: Project| p@)),
{
    let chars = render_projects_chars(projects);
    chars_to_string(&chars)
}

// ---------------------------------------------------------------------------
// Executable parsing.
// ---------------------------------------------------------------------------
fn hex_val_exec(c: char) -> (v: u8)
    ensures
        v as int == hex_val(c),
{
    if c == '0' {
        0
    } else if c == '1' {
        1
    } else if c == '2' {
        2
    } else if c == '3' {
        3
    } else if c == '4' {
        4
    } else if c == '5' {
        5
    } else if c == '6' {
        6
    } else if c == '7' {
        7
    } else if c == '8' {
        8
    } else if c == '9' {
        9
    } else if c == 'a' {
        10
    } else if c == 'b' {
        11
    } else if c == 'c' {
        12
    } else if c == 'd' {
        13
    } else if c == 'e' {
        14
    } else if c == 'f' {
        15
    } else {
        16
    }
}

/// The control character with scalar value `v`.
fn ctrl_char_exec(v: u8) -> (c: char)
    requires
        v < 32,
    ensures
        c as u32 == v as u32,
{
    if v == 0 {
        '\u{00}'
    } else if v == 1 {
        '\u{01}'
    } else if v == 2 {
        '\u{02}'
    } else if v == 3 {
        '\u{03}'
    } else if v == 4 {
        '\u{04}'
    } else if v == 5 {
        '\u{05}'
    } else if v == 6 {
        '\u{06}'
    } else if v == 7 {
        '\u{07}'
    } else if v == 8 {
        '\u{08}'
    } else if v == 9 {
        '\u{09}'
    } else if v == 10 {
        '\u{0a}'
    } else if v == 11 {
        '\u{0b}'
    } else if v == 12 {
        '\u{0c}'
    } else if v == 13 {
        '\u{0d}'
    } else if v == 14 {
        '\u{0e}'
    } else if v == 15 {
        '\u{0f}'
    } else if v == 16 {
        '\u{10}'
    } else if v == 17 {
        '\u{11}'
    } else if v == 18 {
        '\u{12}'
    } else if v == 19 {
        '\u{13}'
    } else if v == 20 {
        '\u{14}'
    } else if v == 21 {
        '\u{15}'
    } else if v == 22 {
        '\u{16}'
    } else if v == 23 {
        '\u{17}'
    } else if v == 24 {
        '\u{18}'
    } else if v == 25 {
        '\u{19}'
    } else if v == 26 {
        '\u{1a}'
    } else if v == 27 {
        '\u{1b}'
    } else if v == 28 {
        '\u{1c}'
    } else if v == 29 {
        '\u{1d}'
    } else if v == 30 {
        '\u{1e}'
    } else {
        '\u{1f}'
    }
}

/// Consumes the literal `lit` at `pos`, yielding the position after it.
fn expect_exec(s: &Vec<char>, pos: usize, lit: &Vec<char>) -> (r: Option<usize>)
    requires
        pos <= s@.len(),
    ensures
        r is None ==> expect(s@.skip(pos as int), lit@) is None,
        r matches Some(np) ==> np == pos + lit@.len() && np <= s@.len() && expect(
            s@.skip(pos as int),
            lit@,
        ) == Some(s@.skip(np as int)),
{
    let ghost sp = s@.skip(pos as int);
    if s.len() - pos < lit.len() {
        proof {
            assert(sp.len() < lit@.len());
            assert(!lit@.is_prefix_of(sp));
        }
        return None;
    }
    let mut j: usize = 0;
    while j < lit.len()
        invariant
            s@.len() <= usize::MAX,
            j <= lit@.len(),
            pos + lit@.len() <= s@.len(),
            sp == s@.skip(pos as int),
            forall|k: int| 0 <= k < j ==> sp[k] == lit@[k],
        decreases lit@.len() - j,
    {
        if s[pos + j] != lit[j] {
            proof {
                assert(sp[j as int] == s@[pos + j]);
                if lit@.is_prefix_of(sp) {
                    assert(sp.subrange(0, lit@.len() as int)[j as int] == sp[j as int]);
                }
            }
            return None;
        }
        proof {
            assert(sp[j as int] == s@[pos + j]);
        }
        j = j + 1;
    }
    proof {
        assert(sp.subrange(0, lit@.len() as int) =~= lit@);
        assert(lit@.is_prefix_of(sp));
        assert(sp.skip(lit@.len() as int) =~= s@.skip(pos + lit@.len()));
    }
    Some(pos + lit.len())
}

/// Consumes a string body up to and including its closing quote.
fn parse_strbody_exec(s: &Vec<char>, pos: usize) -> (r: Option<(Vec<char>, usize)>)
    requires
        pos <= s@.len(),
    ensures
        r is None ==> parse_strbody(s@.skip(pos as int)) is None,
        r matches Some((name, np)) ==> pos < np <= s@.len() && parse_strbody(s@.skip(pos as int))
            == Some((name@, s@.skip(np as int))),
    decreases s@.len() - pos,
{
    let ghost sp = s@.skip(pos as int);
    if pos >= s.len() {
        return None;
    }
    let c = s[pos];
    proof {
        assert(sp[0] == c);
    }
    if c == '"' {
        proof {
            assert(sp.drop_first() =~= s@.skip(pos + 1));
        }
        let name: Vec<char> = Vec::new();
        proof {
            assert(name@ =~= Seq::<char>::empty());
        }
        return Some((name, pos + 1));
    }
    if c == '\\' {
        if pos + 1 >= s.len() {
            proof {
                assert(sp.len() < 2);
            }
            return None;
        }
        let d = s[pos + 1];
        proof {
            assert(sp[1] == d);
        }
        if d == '"' || d == '\\' {
            proof {
                assert(sp.skip(2) =~= s@.skip(pos + 2));
            }
            match parse_strbody_exec(s, pos + 2) {
                None => None,
                Some((mut name, np)) => {
                    let ghost tail = name@;
                    name.insert(0, d);
                    proof {
                        assert(name@ =~= seq![d] + tail);
                    }
                    Some((name, np))
                },
            }
        } else if d == 'u' {
            if s.len() - pos < 6 {
                proof {
                    assert(sp.len() < 6);
                }
                return None;
            }
            proof {
                assert(sp[2] == s@[pos + 2]);
                assert(sp[3] == s@[pos + 3]);
                assert(sp[4] == s@[pos + 4]);
                assert(sp[5] == s@[pos + 5]);
            }
            if s[pos + 2] != '0' || s[pos + 3] != '0' {
                return None;
            }
            let v1 = hex_val_exec(s[pos + 4]);
            let v2 = hex_val_exec(s[pos + 5]);
            if v1 >= 16 || v2 >= 16 {
                return None;
            }
            let v = 16 * v1 + v2;
            if v >= 32 {
                return None;
            }
            let c0 = ctrl_char_exec(v);
            proof {
                broadcast use vstd::utf8::char_u32_cast;

                assert(char_of(16 * hex_val(sp[4]) + hex_val(sp[5])) == c0);
                assert(sp.skip(6) =~= s@.skip(pos + 6));
            }
            match parse_strbody_exec(s, pos + 6) {
                None => None,
                Some((mut name, np)) => {
                    let ghost tail = name@;
                    name.insert(0, c0);
                    proof {
                        assert(name@ =~= seq![c0] + tail);
                    }
                    Some((name, np))
                },
            }
        } else {
            None
        }
    } else if (c as u32) < 32 {
        None
    } else {
        proof {
            assert(sp.drop_first() =~= s@.skip(pos + 1));
        }
        match parse_strbody_exec(s, pos + 1) {
            None => None,
            Some((mut name, np)) => {
                let ghost tail = name@;
                name.insert(0, c);
                proof {
                    assert(name@ =~= seq![c] + tail);
                }
                Some((name, np))
            },
        }
    }
}

/// Consumes one task object.
fn parse_task_exec(s: &Vec<char>, pos: usize) -> (r: Option<(Task, usize)>)
    requires
        pos <= s@.len(),
    ensures
        r is None ==> parse_task(s@.skip(pos as int)) is None,
        r matches Some((t, np)) ==> pos < np <= s@.len() && parse_task(s@.skip(pos as int)) == Some(
            (t@, s@.skip(np as int)),
        ),
{
    let lit = vec!['{', '"', 'n', 'a', 'm', 'e', '"', ':', '"'];
    proof {
        assert(lit@ =~= lit_name_prefix());
    }
    let p1 = match expect_exec(s, pos, &lit) {
        None => {
            return None;
        },
        Some(p1) => p1,
    };
    let (name, p2) = match parse_strbody_exec(s, p1) {
        None => {
            return None;
        },
        Some(x) => x,
    };
    let mid = vec![',', '"', 'd', 'o', 'n', 'e', '"', ':'];
    proof {
        assert(mid@ =~= lit_done_mid());
    }
    let p3 = match expect_exec(s, p2, &mid) {
        None => {
            return None;
        },
        Some(p3) => p3,
    };
    let tlit = vec!['t', 'r', 'u', 'e', '}'];
    proof {
        assert(tlit@ =~= lit_true_end());
    }
    match expect_exec(s, p3, &tlit) {
        Some(p4) => Some((Task { name: chars_to_string(&name), done: true }, p4)),
        None => {
            let flit = vec!['f', 'a', 'l', 's', 'e', '}'];
            proof {
                assert(flit@ =~= lit_false_end());
            }
            match expect_exec(s, p3, &flit) {
                Some(p4) => Some((Task { name: chars_to_string(&name), done: false }, p4)),
                None => None,
            }
        },
    }
}

/// Consumes one or more comma-separated task objects and the closing
/// bracket.
fn parse_tasks_items_exec(s: &Vec<char>, pos: usize) -> (r: Option<(Vec<Task>, usize)>)
    requires
        pos <= s@.len(),
    ensures
        r is None ==> parse_tasks_items(s@.skip(pos as int)) is None,
        r matches Some((ts, np)) ==> pos < np <= s@.len() && parse_tasks_items(
            s@.skip(pos as int),
        ) == Some((ts@.map_values(|t: Task| t@), s@.skip(np as int))),
    decreases s@.len() - pos,
{
    let ghost sp = s@.skip(pos as int);
    let (t, p1) = match parse_task_exec(s, pos) {
        None => {
            return None;
        },
        Some(x) => x,
    };
    if p1 >= s.len() {
        proof {
            assert(s@.skip(p1 as int).len() == 0);
        }
        return None;
    }
    let c = s[p1];
    proof {
        assert(s@.skip(p1 as int)[0] == c);
    }
    if c == ']' {
        let ts = vec![t];
        proof {
            assert(s@.skip(p1 as int).drop_first() =~= s@.skip(p1 + 1));
            assert(ts@.map_values(|t: Task| t@) =~= seq![t@]);
        }
        Some((ts, p1 + 1))
    } else if c == ',' {
        proof {
            assert(s@.skip(p1 as int).len() < sp.len());
            assert(s@.skip(p1 as int).drop_first() =~= s@.skip(p1 + 1));
        }
        match parse_tasks_items_exec(s, p1 + 1) {
            None => None,
            Some((mut ts, np)) => {
                let ghost tail = ts@;
                ts.insert(0, t);
                proof {
                    assert(ts@.map_values(|t: Task| t@) =~= seq![t@] + tail.map_values(
                        |t: Task| t@,
                    ));
                }
                Some((ts, np))
            },
        }
    } else {
        None
    }
}

/// Consumes a task array.
fn parse_tasks_exec(s: &Vec<char>, pos: usize) -> (r: Option<(Vec<Task>, usize)>)
    requires
        pos <= s@.len(),
    ensures
        r is None ==> parse_tasks(s@.skip(pos as int)) is None,
        r matches Some((ts, np)) ==> pos < np <= s@.len() && parse_tasks(s@.skip(pos as int))
            == Some((ts@.map_values(|t: Task| t@), s@.skip(np as int))),
{
    let ghost sp = s@.skip(pos as int);
    if s.len() - pos < 2 || s[pos] != '[' {
        proof {
            if s@.len() - pos >= 2 {
                assert(sp[0] == s@[pos as int]);
            }
        }
        return None;
    }
    proof {
        assert(sp[0] == s@[pos as int]);
        assert(sp[1] == s@[pos + 1]);
    }
    if s[pos + 1] == ']' {
        let ts: Vec<Task> = Vec::new();
        proof {
            assert(sp.skip(2) =~= s@.skip(pos + 2));
            assert(ts@.map_values(|t: Task| t@) =~= Seq::<TaskView>::empty());
        }
        Some((ts, pos + 2))
    } else {
        proof {
            assert(sp.drop_first() =~= s@.skip(pos + 1));
        }
        parse_tasks_items_exec(s, pos + 1)
    }
}

/// Consumes one project object.
fn parse_project_exec(s: &Vec<char>, pos: usize) -> (r: Option<(Project, usize)>)
    requires
        pos <= s@.len(),
    ensures
        r is None ==> parse_project(s@.skip(pos as int)) is None,
        r matches Some((p, np)) ==> pos < np <= s@.len() && parse_project(s@.skip(pos as int))
            == Some((p@, s@.skip(np as int))),
{
    let lit = vec!['{', '"', 'n', 'a', 'm', 'e', '"', ':', '"'];
    proof {
        assert(lit@ =~= lit_name_prefix());
    }
    let p1 = match expect_exec(s, pos, &lit) {
        None => {
            return None;
        },
        Some(p1) => p1,
    };
    let (name, p2) = match parse_strbody_exec(s, p1) {
        None => {
            return None;
        },
        Some(x) => x,
    };
    let mid = vec![',', '"', 't', 'a', 's', 'k', 's', '"', ':'];
    proof {
        assert(mid@ =~= lit_tasks_mid());
    }
    let p3 = match expect_exec(s, p2, &mid) {
        None => {
            return None;
        },
        Some(p3) => p3,
    };
    let (ts, p4) = match parse_tasks_exec(s, p3) {
        None => {
            return None;
        },
        Some(x) => x,
    };
    if p4 < s.len() && s[p4] == '}' {
        proof {
            assert(s@.skip(p4 as int)[0] == s@[p4 as int]);
            assert(s@.skip(p4 as int).drop_first() =~= s@.skip(p4 + 1));
        }
        Some((Project { name: chars_to_string(&name), tasks: ts }, p4 + 1))
    } else {
        proof {
            if s@.len() - p4 > 0 {
                assert(s@.skip(p4 as int)[0] == s@[p4 as int]);
            }
        }
        None
    }
}

/// Consumes one or more comma-separated project objects and the closing
/// bracket.
fn parse_projects_items_exec(s: &Vec<char>, pos: usize) -> (r: Option<(Vec<Project>, usize)>)
    requires
        pos <= s@.len(),
    ensures
        r is None ==> parse_projects_items(s@.skip(pos as int)) is None,
        r matches Some((ps, np)) ==> pos < np <= s@.len() && parse_projects_items(
            s@.skip(pos as int),
        ) == Some((ps@.map_values(|p: Project| p@), s@.skip(np as int))),
    decreases s@.len() - pos,
{
    let ghost sp = s@.skip(pos as int);
    let (p, p1) = match parse_project_exec(s, pos) {
        None => {
            return None;
        },
        Some(x) => x,
    };
    if p1 >= s.len() {
        proof {
            assert(s@.skip(p1 as int).len() == 0);
        }
        return None;
    }
    let c = s[p1];
    proof {
        assert(s@.skip(p1 as int)[0] == c);
    }
    if c == ']' {
        let ps = vec![p];
        proof {
            assert(s@.skip(p1 as int).drop_first() =~= s@.skip(p1 + 1));
            assert(ps@.map_values(|p: Project| p@) =~= seq![p@]);
        }
        Some((ps, p1 + 1))
    } else if c == ',' {
        proof {
            assert(s@.skip(p1 as int).len() < sp.len());
            assert(s@.skip(p1 as int).drop_first() =~= s@.skip(p1 + 1));
        }
        match parse_projects_items_exec(s, p1 + 1) {
            None => None,
            Some((mut ps, np)) => {
                let ghost tail = ps@;
                ps.insert(0, p);
                proof {
                    assert(ps@.map_values(|p: Project| p@) =~= seq![p@] + tail.map_values(
                        |p: Project| p@,
                    ));
                }
                Some((ps, np))
            },
        }
    } else {
        None
    }
}

/// Consumes a project array.
fn parse_projects_exec(s: &Vec<char>, pos: usize) -> (r: Option<(Vec<Project>, usize)>)
    requires
        pos <= s@.len(),
    ensures
        r is None ==> parse_projects(s@.skip(pos as int)) is None,
        r matches Some((ps, np)) ==> pos < np <= s@.len() && parse_projects(s@.skip(pos as int))
            == Some((ps@.map_values(|p: Project| p@), s@.skip(np as int))),
{
    let ghost sp = s@.skip(pos as int);
    if s.len() - pos < 2 || s[pos] != '[' {
        proof {
            if s@.len() - pos >= 2 {
                assert(sp[0] == s@[pos as int]);
            }
        }
        return None;
    }
    proof {
        assert(sp[0] == s@[pos as int]);
        assert(sp[1] == s@[pos + 1]);
    }
    if s[pos + 1] == ']' {
        let ps: Vec<Project> = Vec::new();
        proof {
            assert(sp.skip(2) =~= s@.skip(pos + 2));
            assert(ps@.map_values(|p: Project| p@) =~= Seq::<ProjectView>::empty());
        }
        Some((ps, pos + 2))
    } else {
        proof {
            assert(sp.drop_first() =~= s@.skip(pos + 1));
        }
        parse_projects_items_exec(s, pos + 1)
    }
}

/// Parses persisted text back into the project list. Text that is not the
/// canonical rendering of some project list yields an empty list: a
/// malformed or foreign file falls back to an empty state.
pub fn decode_state(content: &str) -> (r: Vec<Project>)
    ensures
        match parse_state(content@) {
            Some(ps) => r@.map_values(|p: Project| p@) == ps,
            None => r@.len() == 0,
        },
{
    let cs = str_to_chars(content);
    proof {
        assert(cs@.skip(0) =~= cs@);
    }
    match parse_projects_exec(&cs, 0) {
        None => Vec::new(),
        Some((ps, np)) => {
            if np == cs.len() {
                proof {
                    assert(cs@.skip(np as int).len() == 0);
                }
                ps
            } else {
                proof {
                    assert(cs@.skip(np as int).len() > 0);
                }
                Vec::new()
            }
        },
    }
}

} // verus!
