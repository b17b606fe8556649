//! Verified rendering of the service's JSON reply bodies: string escaping,
//! the hyphenated hexadecimal form of a row id, and the reply envelopes.

use vstd::prelude::*;
use crate::model::{TaskModel, TaskView};
use crate::store::rows_view;

verus! {

/// Relies on String::push from std: appends exactly the one character.
pub assume_specification[ String::push ](s: &mut String, c: char)
    ensures
        final(s)@ == old(s)@.push(c),
;

/// The lower-case hexadecimal digit for a value below sixteen.
pub open spec fn hex_digit(d: int) -> char
    recommends
        0 <= d < 16,
{
    if d == 0 {
        '0'
    } else if d == 1 {
        '1'
    } else if d == 2 {
        '2'
    } else if d == 3 {
        '3'
    } else if d == 4 {
        '4'
    } else if d == 5 {
        '5'
    } else if d == 6 {
        '6'
    } else if d == 7 {
        '7'
    } else if d == 8 {
        '8'
    } else if d == 9 {
        '9'
    } else if d == 10 {
        'a'
    } else if d == 11 {
        'b'
    } else if d == 12 {
        'c'
    } else if d == 13 {
        'd'
    } else if d == 14 {
        'e'
    } else {
        'f'
    }
}

/// The nibble of a 128-bit id at position `i`, counting from the most
/// significant end.
pub open spec fn nibble(n: u128, i: int) -> u8
    recommends
        0 <= i < 32,
{
    ((n >> (((31 - i) * 4) as u128)) as u8) & 0xf
}

/// The hexadecimal digits of the nibbles in positions [from, to).
pub open spec fn hex_seq(n: u128, from: int, to: int) -> Seq<char>
    decreases to - from,
{
    if from >= to {
        Seq::empty()
    } else {
        seq![hex_digit(nibble(n, from) as int)] + hex_seq(n, from + 1, to)
    }
}

/// The hyphenated, lower-case text form of a 128-bit id: five hexadecimal
/// groups of 8, 4, 4, 4 and 12 digits.
pub open spec fn uuid_hyphenated(n: u128) -> Seq<char> {
    hex_seq(n, 0, 8) + seq!['-'] + hex_seq(n, 8, 12) + seq!['-'] + hex_seq(n, 12, 16) + seq!['-']
        + hex_seq(n, 16, 20) + seq!['-'] + hex_seq(n, 20, 32)
}

/// How one character is written inside a JSON string: quote and backslash
/// get a backslash, control characters a four-digit escape, the rest stand
/// as they are.
pub open spec fn escape_char(c: char) -> Seq<char> {
    if c == '"' {
        seq!['\\', '"']
    } else if c == '\\' {
        seq!['\\', '\\']
    } else if (c as u32) < 32 {
        seq!['\\', 'u', '0', '0', hex_digit((c as u32) as int / 16), hex_digit(
            (c as u32) as int % 16,
        )]
    } else {
        seq![c]
    }
}

/// A text escaped for use inside a JSON string.
pub open spec fn json_escaped(s: Seq<char>) -> Seq<char>
    decreases s.len(),
{
    if s.len() == 0 {
        Seq::empty()
    } else {
        escape_char(s[0]) + json_escaped(s.drop_first())
    }
}

/// A JSON string: the escaped text between quotes.
pub open spec fn json_string(s: Seq<char>) -> Seq<char> {
    seq!['"'] + json_escaped(s) + seq!['"']
}

/// The JSON object for one task row.
pub open spec fn task_json(t: TaskView) -> Seq<char> {
    "{\"id\":\""@ + uuid_hyphenated(t.id) + "\",\"title\":"@ + json_string(t.title)
        + ",\"content\":"@ + json_string(t.content) + (match t.created_at {
        Some(s) => ",\"created_at\":"@ + json_string(s),
        None => Seq::<char>::empty(),
    }) + (match t.updated_at {
        Some(s) => ",\"updated_at\":"@ + json_string(s),
        None => Seq::<char>::empty(),
    }) + "}"@
}

/// The JSON objects of several rows, comma-separated.
pub open spec fn tasks_array(ts: Seq<TaskView>) -> Seq<char>
    decreases ts.len(),
{
    if ts.len() == 0 {
        Seq::empty()
    } else if ts.len() == 1 {
        task_json(ts[0])
    } else {
        tasks_array(ts.drop_last()) + seq![','] + task_json(ts.last())
    }
}

/// The liveness reply body.
pub open spec fn health_body() -> Seq<char> {
    "{\"status\":\"ok\"}"@
}

/// The reply body of a successful create: the stored row wrapped twice
/// under the field name, as the service has always written it.
pub open spec fn create_ok_body(t: TaskView) -> Seq<char> {
    "{\"status\":\"ok\",\"task\":{\"task\":"@ + task_json(t) + "}}"@
}

/// The reply body of a successful single-row read or update.
pub open spec fn task_ok_body(t: TaskView) -> Seq<char> {
    "{\"status\":\"ok\",\"task\":"@ + task_json(t) + "}"@
}

/// The reply body of a successful listing.
pub open spec fn tasks_ok_body(ts: Seq<TaskView>) -> Seq<char> {
    "{\"status\":\"ok\",\"tasks\":["@ + tasks_array(ts) + "]}"@
}

/// The reply body of a failed store call.
pub open spec fn error_body(msg: Seq<char>) -> Seq<char> {
    "{\"status\":\"error\",\"message\":"@ + json_string(msg) + "}"@
}

/// A masked byte is a nibble.
proof fn lemma_low_nibble(b: u8)
    ensures
        (b & 0xf) < 16,
{
    assert((b & 0xf) < 16) by (bit_vector);
}

/// Escaping a text one character at a time agrees with escaping it whole.
proof fn lemma_json_escaped_snoc(s: Seq<char>, c: char)
    ensures
        json_escaped(s.push(c)) == json_escaped(s) + escape_char(c),
    decreases s.len(),
{
    if s.len() == 0 {
        assert(s.push(c) =~= seq![c]);
        assert(seq![c].drop_first() =~= Seq::<char>::empty());
        assert(json_escaped(Seq::<char>::empty()) =~= Seq::<char>::empty());
        assert(json_escaped(s.push(c)) =~= json_escaped(s) + escape_char(c));
    } else {
        lemma_json_escaped_snoc(s.drop_first(), c);
        assert(s.push(c).drop_first() =~= s.drop_first().push(c));
        assert(s.push(c)[0] == s[0]);
        assert(s.push(c).len() > 0);
        assert(json_escaped(s.push(c)) == escape_char(s[0]) + json_escaped(
            s.drop_first().push(c),
        ));
        assert(json_escaped(s.push(c)) =~= json_escaped(s) + escape_char(c));
    }
}

/// Writing the digits of [from, to) and then one more is writing the
/// digits of [from, to + 1).
proof fn lemma_hex_seq_snoc(n: u128, from: int, to: int)
    requires
        from <= to,
    ensures
        hex_seq(n, from, to + 1) == hex_seq(n, from, to) + seq![
            hex_digit(nibble(n, to) as int),
        ],
    decreases to - from,
{
    if from == to {
        assert(hex_seq(n, to + 1, to + 1) =~= Seq::<char>::empty());
        assert(hex_seq(n, from, to) =~= Seq::<char>::empty());
        assert(hex_seq(n, from, to + 1) =~= hex_seq(n, from, to) + seq![
            hex_digit(nibble(n, to) as int),
        ]);
    } else {
        lemma_hex_seq_snoc(n, from + 1, to);
        assert(hex_seq(n, from, to + 1) =~= hex_seq(n, from, to) + seq![
            hex_digit(nibble(n, to) as int),
        ]);
    }
}

/// The lower-case hexadecimal digit character of a value below sixteen.
fn hex_char(d: u8) -> (c: char)
    requires
        d < 16,
    ensures
        c == hex_digit(d as int),
{
    if d == 0 {
        '0'
    } else if d == 1 {
        '1'
    } else if d == 2 {
        '2'
    } else if d == 3 {
        '3'
    } else if d == 4 {
        '4'
    } else if d == 5 {
        '5'
    } else if d == 6 {
        '6'
    } else if d == 7 {
        '7'
    } else if d == 8 {
        '8'
    } else if d == 9 {
        '9'
    } else if d == 10 {
        'a'
    } else if d == 11 {
        'b'
    } else if d == 12 {
        'c'
    } else if d == 13 {
        'd'
    } else if d == 14 {
        'e'
    } else {
        'f'
    }
}

/// Append the hexadecimal digits of the nibbles in positions [from, to).
fn push_hex_range(out: &mut String, n: u128, from: usize, to: usize)
    requires
        from <= to,
        to <= 32,
    ensures
        final(out)@ == old(out)@ + hex_seq(n, from as int, to as int),
{
    let mut i: usize = from;
    proof {
        assert(out@ =~= old(out)@ + hex_seq(n, from as int, from as int));
    }
    while i < to
        invariant
            from <= i <= to,
            to <= 32,
            out@ == old(out)@ + hex_seq(n, from as int, i as int),
        decreases to - i,
    {
        let sh: u128 = ((31 - i) * 4) as u128;
        let d: u8 = ((n >> sh) as u8) & 0xf;
        proof {
            lemma_low_nibble((n >> sh) as u8);
            assert(d == nibble(n, i as int));
        }
        let c = hex_char(d);
        out.push(c);
        proof {
            lemma_hex_seq_snoc(n, from as int, i as int);
            assert(out@ =~= old(out)@ + hex_seq(n, from as int, (i + 1) as int));
        }
        i += 1;
    }
}

/// The hyphenated text form of a row id.
pub fn uuid_string(n: u128) -> (r: String)
    ensures
        r@ == uuid_hyphenated(n),
{
    let mut out = String::new();
    push_hex_range(&mut out, n, 0, 8);
    out.push('-');
    push_hex_range(&mut out, n, 8, 12);
    out.push('-');
    push_hex_range(&mut out, n, 12, 16);
    out.push('-');
    push_hex_range(&mut out, n, 16, 20);
    out.push('-');
    push_hex_range(&mut out, n, 20, 32);
    proof {
        assert(out@ =~= uuid_hyphenated(n));
    }
    out
}

/// Append the escape of one character.
fn push_escaped_char(out: &mut String, c: char)
    ensures
        final(out)@ == old(out)@ + escape_char(c),
{
    if c == '"' {
        out.push('\\');
        out.push('"');
    } else if c == '\\' {
        out.push('\\');
        out.push('\\');
    } else if (c as u32) < 32 {
        out.push('\\');
        out.push('u');
        out.push('0');
        out.push('0');
        let code: u32 = c as u32;
        let hi: u8 = (code / 16) as u8;
        let lo: u8 = (code % 16) as u8;
        let c1 = hex_char(hi);
        let c2 = hex_char(lo);
        out.push(c1);
        out.push(c2);
    } else {
        out.push(c);
    }
    proof {
        assert(out@ =~= old(out)@ + escape_char(c));
    }
}

/// Append a text as a JSON string: quoted, with its characters escaped.
fn push_json_string(out: &mut String, s: &str)
    ensures
        final(out)@ == old(out)@ + json_string(s@),
{
    out.push('"');
    let ghost opened = out@;
    let n = s.unicode_len();
    let mut i: usize = 0;
    proof {
        assert(out@ =~= opened + json_escaped(s@.subrange(0, 0)));
    }
    while i < n
        invariant
            i <= n,
            n == s@.len(),
            out@ == opened + json_escaped(s@.subrange(0, i as int)),
            opened == old(out)@.push('"'),
        decreases n - i,
    {
        let c = s.get_char(i);
        push_escaped_char(out, c);
        proof {
            assert(s@.subrange(0, (i + 1) as int) =~= s@.subrange(0, i as int).push(c));
            lemma_json_escaped_snoc(s@.subrange(0, i as int), c);
        }
        i += 1;
    }
    out.push('"');
    proof {
        assert(s@.subrange(0, s@.len() as int) =~= s@);
        assert(out@ =~= old(out)@ + json_string(s@));
    }
}

/// The JSON object for one task row.
pub fn render_task(t: &TaskModel) -> (r: String)
    ensures
        r@ == task_json(t@),
{
    let mut out = String::from_str("{\"id\":\"");
    let idtext = uuid_string(t.id);
    out.append(idtext.as_str());
    out.append("\",\"title\":");
    push_json_string(&mut out, t.title.as_str());
    out.append(",\"content\":");
    push_json_string(&mut out, t.content.as_str());
    if let Some(s) = &t.created_at {
        out.append(",\"created_at\":");
        push_json_string(&mut out, s.as_str());
    }
    if let Some(s) = &t.updated_at {
        out.append(",\"updated_at\":");
        push_json_string(&mut out, s.as_str());
    }
    out.append("}");
    proof {
        assert(out@ =~= task_json(t@));
    }
    out
}

/// The liveness reply body.
pub fn render_health() -> (r: String)
    ensures
        r@ == health_body(),
{
    String::from_str("{\"status\":\"ok\"}")
}

/// The reply body of a successful create.
pub fn render_create_ok(t: &TaskModel) -> (r: String)
    ensures
        r@ == create_ok_body(t@),
{
    let mut out = String::from_str("{\"status\":\"ok\",\"task\":{\"task\":");
    let tj = render_task(t);
    out.append(tj.as_str());
    out.append("}}");
    proof {
        assert(out@ =~= create_ok_body(t@));
    }
    out
}

/// The reply body of a successful single-row read or update.
pub fn render_task_ok(t: &TaskModel) -> (r: String)
    ensures
        r@ == task_ok_body(t@),
{
    let mut out = String::from_str("{\"status\":\"ok\",\"task\":");
    let tj = render_task(t);
    out.append(tj.as_str());
    out.append("}");
    proof {
        assert(out@ =~= task_ok_body(t@));
    }
    out
}

/// The reply body of a successful listing.
pub fn render_tasks_ok(ts: &Vec<TaskModel>) -> (r: String)
    ensures
        r@ == tasks_ok_body(rows_view(ts@)),
{
    let mut out = String::from_str("{\"status\":\"ok\",\"tasks\":[");
    let ghost opened = out@;
    let mut i: usize = 0;
    proof {
        assert(rows_view(ts@).subrange(0, 0) =~= Seq::<TaskView>::empty());
    }
    while i < ts.len()
        invariant
            i <= ts.len(),
            out@ == opened + tasks_array(rows_view(ts@).subrange(0, i as int)),
            opened == "{\"status\":\"ok\",\"tasks\":["@,
        decreases ts.len() - i,
    {
        if i > 0 {
            out.push(',');
        }
        let tj = render_task(&ts[i]);
        out.append(tj.as_str());
        proof {
            let v = rows_view(ts@);
            assert(v.subrange(0, (i + 1) as int).drop_last() =~= v.subrange(0, i as int));
            assert(v.subrange(0, (i + 1) as int).last() == v[i as int]);
            if i == 0 {
                assert(tasks_array(v.subrange(0, 1)) == task_json(v[0]));
            }
            assert(out@ =~= opened + tasks_array(v.subrange(0, (i + 1) as int)));
        }
        i += 1;
    }
    out.append("]}");
    proof {
        assert(rows_view(ts@).subrange(0, ts@.len() as int) =~= rows_view(ts@));
        assert(out@ =~= tasks_ok_body(rows_view(ts@)));
    }
    out
}

/// The reply body of a failed store call.
pub fn render_error(msg: &str) -> (r: String)
    ensures
        r@ == error_body(msg@),
{
    let mut out = String::from_str("{\"status\":\"error\",\"message\":");
    push_json_string(&mut out, msg);
    out.append("}");
    proof {
        assert(out@ =~= error_body(msg@));
    }
    out
}

} // verus!
