use vstd::prelude::*;
use vstd::string::StrSliceExecFns;
use vstd::string::StringExecFns;
use crate::task::{Task, TaskModel};

verus! {

/// The character for one digit value below sixteen, lowercase.
pub open spec fn digit_char(d: int) -> char {
    if d == 0 {
        '0'
    } else if d == 1 {
        '1'
    } else if d == 2 {
        '2'
    } else if d == 3 {
        '3'
    } else if d == 4 {
        '4'
    } else if d == 5 {
        '5'
    } else if d == 6 {
        '6'
    } else if d == 7 {
        '7'
    } else if d == 8 {
        '8'
    } else if d == 9 {
        '9'
    } else if d == 10 {
        'a'
    } else if d == 11 {
        'b'
    } else if d == 12 {
        'c'
    } else if d == 13 {
        'd'
    } else if d == 14 {
        'e'
    } else {
        'f'
    }
}

/// The decimal digits of `n`, most significant first, with no sign and no
/// leading zero (a single zero for `n == 0`).
pub open spec fn dec_digits(n: nat) -> Seq<char>
    decreases n,
{
    if n < 10 {
        seq![digit_char(n as int)]
    } else {
        dec_digits(n / 10) + seq![digit_char((n % 10) as int)]
    }
}

/// The decimal form of a signed integer: a leading minus sign when negative.
pub open spec fn dec_int(n: int) -> Seq<char> {
    if n < 0 {
        seq!['-'] + dec_digits((-n) as nat)
    } else {
        dec_digits(n as nat)
    }
}

/// How one character appears inside a JSON string: quote and backslash get a
/// backslash escape, the named control characters get their short escapes,
/// the remaining control characters a lowercase `\u00..` escape, and every
/// other character stands as itself.
pub open spec fn esc_char(c: char) -> Seq<char> {
    if c == '"' {
        seq!['\\', '"']
    } else if c == '\\' {
        seq!['\\', '\\']
    } else if c == '\u{8}' {
        seq!['\\', 'b']
    } else if c == '\t' {
        seq!['\\', 't']
    } else if c == '\n' {
        seq!['\\', 'n']
    } else if c == '\u{c}' {
        seq!['\\', 'f']
    } else if c == '\r' {
        seq!['\\', 'r']
    } else if (c as u32) < 0x20 {
        seq!['\\', 'u', '0', '0', digit_char((c as u32 / 16) as int), digit_char(
            (c as u32 % 16) as int,
        )]
    } else {
        seq![c]
    }
}

/// The JSON string contents for `s`: each character escaped in turn.
pub open spec fn escape(s: Seq<char>) -> Seq<char>
    decreases s.len(),
{
    if s.len() == 0 {
        Seq::empty()
    } else {
        escape(s.drop_last()) + esc_char(s.last())
    }
}

/// The JSON object for one task: `{"id":N,"title":"..."}`.
pub open spec fn json_task(t: TaskModel) -> Seq<char> {
    "{\"id\":"@ + dec_digits(t.id) + ",\"title\":\""@ + escape(t.title) + "\"}"@
}

/// The comma-separated task objects, in sequence order.
pub open spec fn json_tasks_body(ts: Seq<TaskModel>) -> Seq<char>
    decreases ts.len(),
{
    if ts.len() == 0 {
        Seq::empty()
    } else if ts.len() == 1 {
        json_task(ts[0])
    } else {
        json_tasks_body(ts.drop_last()) + ","@ + json_task(ts.last())
    }
}

/// The JSON array of tasks, in sequence order; `[]` when empty.
pub open spec fn json_tasks(ts: Seq<TaskModel>) -> Seq<char> {
    "["@ + json_tasks_body(ts) + "]"@
}

/// Relies on String::push: appends the given character to the end of the
/// string.
pub assume_specification[ String::push ](s: &mut String, ch: char)
    ensures
        final(s)@ == old(s)@.push(ch),
;

/// The character for one digit value below sixteen, lowercase.
fn digit(d: u32) -> (c: char)
    requires
        d < 16,
    ensures
        c == digit_char(d as int),
{
    if d == 0 {
        '0'
    } else if d == 1 {
        '1'
    } else if d == 2 {
        '2'
    } else if d == 3 {
        '3'
    } else if d == 4 {
        '4'
    } else if d == 5 {
        '5'
    } else if d == 6 {
        '6'
    } else if d == 7 {
        '7'
    } else if d == 8 {
        '8'
    } else if d == 9 {
        '9'
    } else if d == 10 {
        'a'
    } else if d == 11 {
        'b'
    } else if d == 12 {
        'c'
    } else if d == 13 {
        'd'
    } else if d == 14 {
        'e'
    } else {
        'f'
    }
}

/// The decimal form of an unsigned integer.
pub fn fmt_u64(n: u64) -> (s: String)
    ensures
        s@ == dec_digits(n as nat),
    decreases n,
{
    if n < 10 {
        let mut s = String::new();
        s.push(digit(n as u32));
        proof {
            assert(s@ =~= dec_digits(n as nat));
        }
        s
    } else {
        let mut s = fmt_u64(n / 10);
        s.push(digit((n % 10) as u32));
        proof {
            assert(s@ =~= dec_digits(n as nat));
        }
        s
    }
}

/// Appends the JSON escape of one character.
fn push_escaped(out: &mut String, c: char)
    ensures
        final(out)@ == old(out)@ + esc_char(c),
{
    if c == '"' {
        out.push('\\');
        out.push('"');
    } else if c == '\\' {
        out.push('\\');
        out.push('\\');
    } else if c == '\u{8}' {
        out.push('\\');
        out.push('b');
    } else if c == '\t' {
        out.push('\\');
        out.push('t');
    } else if c == '\n' {
        out.push('\\');
        out.push('n');
    } else if c == '\u{c}' {
        out.push('\\');
        out.push('f');
    } else if c == '\r' {
        out.push('\\');
        out.push('r');
    } else {
        let v = c as u32;
        if v < 0x20 {
            out.push('\\');
            out.push('u');
            out.push('0');
            out.push('0');
            out.push(digit(v / 16));
            out.push(digit(v % 16));
        } else {
            out.push(c);
        }
    }
    proof {
        assert(out@ =~= old(out)@ + esc_char(c));
    }
}

/// The JSON string contents for `s`, each character escaped as serde_json
/// would write it.
pub fn json_escape(s: &str) -> (out: String)
    ensures
        out@ == escape(s@),
{
    let n = s.unicode_len();
    let mut out = String::new();
    let mut i: usize = 0;
    while i < n
        invariant
            n == s@.len(),
            i <= n,
            out@ == escape(s@.take(i as int)),
        decreases n - i,
    {
        let c = s.get_char(i);
        push_escaped(&mut out, c);
        proof {
            assert(s@.take(i as int + 1).drop_last() =~= s@.take(i as int));
            assert(s@.take(i as int + 1).last() == s@[i as int]);
            assert(out@ == escape(s@.take(i as int + 1)));
        }
        i = i + 1;
    }
    proof {
        assert(s@.take(n as int) =~= s@);
    }
    out
}

/// The JSON object for one task.
pub fn json_task_str(t: &Task) -> (out: String)
    ensures
        out@ == json_task(t@),
{
    let mut out = String::from_str("{\"id\":");
    let ds = fmt_u64(t.id as u64);
    out.append(ds.as_str());
    out.append(",\"title\":\"");
    let es = json_escape(t.title.as_str());
    out.append(es.as_str());
    out.append("\"}");
    proof {
        assert(out@ =~= json_task(t@));
    }
    out
}

/// The JSON array for a list of tasks, in list order.
pub fn json_tasks_str(v: &Vec<Task>) -> (out: String)
    ensures
        out@ == json_tasks(v@.map_values(|t: Task| t@)),
{
    let ghost m = v@.map_values(|t: Task| t@);
    let mut out = String::from_str("[");
    let mut i: usize = 0;
    while i < v.len()
        invariant
            m == v@.map_values(|t: Task| t@),
            m.len() == v@.len(),
            i <= v@.len(),
            out@ == "["@ + json_tasks_body(m.take(i as int)),
        decreases v@.len() - i,
    {
        if i > 0 {
            out.append(",");
        }
        let ts = json_task_str(&v[i]);
        out.append(ts.as_str());
        proof {
            assert(m[i as int] == v@[i as int]@);
            assert(m.take(i as int + 1).drop_last() =~= m.take(i as int));
            assert(m.take(i as int + 1).last() == m[i as int]);
            if i == 0 {
                assert(m.take(1).len() == 1);
                assert(m.take(1)[0] == m[0]);
            }
            assert(out@ =~= "["@ + json_tasks_body(m.take(i as int + 1)));
        }
        i = i + 1;
    }
    out.append("]");
    proof {
        assert(m.take(v@.len() as int) =~= m);
    }
    out
}

} // verus!
