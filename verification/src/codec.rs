//! The executable wire codec: encoding an operation to its canonical
//! JSON text and decoding a received text. Both are proved to implement
//! the mathematical printer and parser of [`crate::wire`] exactly.

use vstd::prelude::*;

use crate::tasks::{
    FinishedTask, LiveTask, StateSnapshot, TaskStatus, WebsocketOp, WebsocketOpKind, fin_view,
    live_view,
};
use crate::wire::{
    dec, dec_digit, esc, esc_char, hex_digit, is_digit, is_hex, digit_val, hex_val, jstr,
    p_fin_items, p_fin_list, p_fin_task, p_kind, p_lit, p_live_items, p_live_list, p_live_task,
    p_snapshot, p_status, p_str_body, p_string, p_u64, p_u64_loop, p_id_payload,
    p_two_string_payload, parse_op, print_fin_items, print_fin_list, print_fin_task, print_kind,
    print_live_items, print_live_list, print_live_task, print_op, print_snapshot, print_status,
};

verus! {

/// Relies on String::push: appends exactly the one character.
#[verifier::external_body]
fn push_char(s: &mut String, c: char)
    ensures
        final(s)@ == old(s)@.push(c),
{
    s.push(c);
}

/// Relies on char::from_u32: a character for every value that is a
/// Unicode scalar value, and nothing for the surrogate and out-of-range
/// values.
#[verifier::external_body]
fn char_from_u32(v: u32) -> (r: Option<char>)
    ensures
        r is Some <==> (v < 0xD800 || (0xE000 <= v && v <= 0x10FFFF)),
        r matches Some(c) ==> c as u32 == v,
{
    char::from_u32(v)
}

/// The characters of a string slice, one by one.
pub(crate) fn str_to_chars(s: &str) -> (r: Vec<char>)
    ensures
        r@ == s@,
{
    let n = s.unicode_len();
    let mut r: Vec<char> = Vec::new();
    let mut i: usize = 0;
    while i < n
        invariant
            n == s@.len(),
            i <= n,
            r@ == s@.take(i as int),
        decreases n - i,
    {
        r.push(s.get_char(i));
        i = i + 1;
        proof {
            assert(r@ =~= s@.take(i as int));
        }
    }
    proof {
        assert(s@.take(n as int) =~= s@);
    }
    r
}

/// The decimal digit character with value `d`.
fn dec_digit_char(d: u64) -> (c: char)
    requires
        d < 10,
    ensures
        c == dec_digit(d as int),
{
    if d == 0 {
        '0'
    } else if d == 1 {
        '1'
    } else if d == 2 {
        '2'
    } else if d == 3 {
        '3'
    } else if d == 4 {
        '4'
    } else if d == 5 {
        '5'
    } else if d == 6 {
        '6'
    } else if d == 7 {
        '7'
    } else if d == 8 {
        '8'
    } else {
        '9'
    }
}

/// The lower-case hexadecimal digit character with value `d`.
fn hex_digit_char(d: u32) -> (c: char)
    requires
        d < 16,
    ensures
        c == hex_digit(d as int),
{
    if d < 10 {
        dec_digit_char(d as u64)
    } else if d == 10 {
        'a'
    } else if d == 11 {
        'b'
    } else if d == 12 {
        'c'
    } else if d == 13 {
        'd'
    } else if d == 14 {
        'e'
    } else {
        'f'
    }
}

/// Appends the decimal digits of `n`.
pub(crate) fn push_u64(out: &mut String, n: u64)
    ensures
        final(out)@ == old(out)@ + dec(n as nat),
    decreases n,
{
    if n < 10 {
        push_char(out, dec_digit_char(n));
        proof {
            assert(final(out)@ =~= old(out)@ + dec(n as nat));
        }
    } else {
        push_u64(out, n / 10);
        push_char(out, dec_digit_char(n % 10));
        proof {
            assert(final(out)@ =~= old(out)@ + dec(n as nat));
        }
    }
}

/// Escaping a string one character longer appends that character's
/// escape.
proof fn lemma_esc_snoc(s: Seq<char>, c: char)
    ensures
        esc(s.push(c)) == esc(s) + esc_char(c),
    decreases s.len(),
{
    if s.len() == 0 {
        assert(s.push(c)[0] == c);
        assert(s.push(c).drop_first() =~= s);
        assert(esc(s.push(c)) =~= esc(s) + esc_char(c));
    } else {
        assert(s.push(c).drop_first() =~= s.drop_first().push(c));
        lemma_esc_snoc(s.drop_first(), c);
        assert(s.push(c)[0] == s[0]);
        assert(esc(s.push(c)) =~= esc(s) + esc_char(c));
    }
}

/// Appends the escaped body of `s`.
fn push_escaped(out: &mut String, s: &str)
    ensures
        final(out)@ == old(out)@ + esc(s@),
{
    let n = s.unicode_len();
    let mut i: usize = 0;
    while i < n
        invariant
            n == s@.len(),
            i <= n,
            out@ == old(out)@ + esc(s@.take(i as int)),
        decreases n - i,
    {
        let c = s.get_char(i);
        let u = c as u32;
        if c == '"' {
            push_char(out, '\\');
            push_char(out, '"');
        } else if c == '\\' {
            push_char(out, '\\');
            push_char(out, '\\');
        } else if c == '\n' {
            push_char(out, '\\');
            push_char(out, 'n');
        } else if c == '\r' {
            push_char(out, '\\');
            push_char(out, 'r');
        } else if c == '\t' {
            push_char(out, '\\');
            push_char(out, 't');
        } else if u == 8 {
            push_char(out, '\\');
            push_char(out, 'b');
        } else if u == 12 {
            push_char(out, '\\');
            push_char(out, 'f');
        } else if u < 32 {
            push_char(out, '\\');
            push_char(out, 'u');
            push_char(out, '0');
            push_char(out, '0');
            push_char(out, hex_digit_char(u / 16));
            push_char(out, hex_digit_char(u % 16));
        } else {
            push_char(out, c);
        }
        i = i + 1;
        proof {
            lemma_esc_snoc(s@.take(i - 1), c);
            assert(s@.take(i as int) =~= s@.take(i - 1).push(c));
            assert(out@ =~= old(out)@ + esc(s@.take(i as int)));
        }
    }
    proof {
        assert(s@.take(n as int) =~= s@);
    }
}

/// Appends the quoted, escaped JSON text of `s`.
fn push_json_string(out: &mut String, s: &str)
    ensures
        final(out)@ == old(out)@ + jstr(s@),
{
    push_char(out, '"');
    push_escaped(out, s);
    push_char(out, '"');
    proof {
        assert(final(out)@ =~= old(out)@ + jstr(s@));
    }
}

/// Appends the JSON text of a status.
fn push_status(out: &mut String, st: &TaskStatus)
    ensures
        final(out)@ == old(out)@ + print_status(*st),
{
    match st {
        TaskStatus::Succeeded => out.append("\"Succeeded\""),
        TaskStatus::Failed => out.append("\"Failed\""),
        TaskStatus::Obsoleted => out.append("\"Obsoleted\""),
    }
}

/// Appends the JSON text of one live task.
fn push_live_task(out: &mut String, t: &LiveTask)
    ensures
        final(out)@ == old(out)@ + print_live_task(t@),
{
    out.append("{\"id\":");
    push_json_string(out, t.id.as_str());
    out.append(",\"value\":");
    push_json_string(out, t.value.as_str());
    out.append("}");
}

/// Appends the JSON text of one finished task.
fn push_fin_task(out: &mut String, t: &FinishedTask)
    ensures
        final(out)@ == old(out)@ + print_fin_task(t@),
{
    out.append("{\"id\":");
    push_json_string(out, t.id.as_str());
    out.append(",\"value\":");
    push_json_string(out, t.value.as_str());
    out.append(",\"status\":");
    push_status(out, &t.status);
    out.append("}");
}

/// Appends the comma-separated items of a non-empty live-task list,
/// from position `i` on.
fn push_live_items(out: &mut String, v: &Vec<LiveTask>, i: usize)
    requires
        i < v@.len(),
    ensures
        final(out)@ == old(out)@ + print_live_items(live_view(v@).skip(i as int)),
    decreases v@.len() - i,
{
    let n = v.len();
    let ghost ts = live_view(v@).skip(i as int);
    push_live_task(out, &v[i]);
    proof {
        assert(ts[0] == v@[i as int]@);
    }
    if i + 1 < n {
        out.append(",");
        push_live_items(out, v, i + 1);
        proof {
            assert(ts.drop_first() =~= live_view(v@).skip(i + 1 as int));
            assert(final(out)@ =~= old(out)@ + print_live_items(ts));
        }
    } else {
        proof {
            assert(ts.len() == 1);
        }
    }
}

/// Appends the comma-separated items of a non-empty finished-task list,
/// from position `i` on.
fn push_fin_items(out: &mut String, v: &Vec<FinishedTask>, i: usize)
    requires
        i < v@.len(),
    ensures
        final(out)@ == old(out)@ + print_fin_items(fin_view(v@).skip(i as int)),
    decreases v@.len() - i,
{
    let n = v.len();
    let ghost ts = fin_view(v@).skip(i as int);
    push_fin_task(out, &v[i]);
    proof {
        assert(ts[0] == v@[i as int]@);
    }
    if i + 1 < n {
        out.append(",");
        push_fin_items(out, v, i + 1);
        proof {
            assert(ts.drop_first() =~= fin_view(v@).skip(i + 1 as int));
            assert(final(out)@ =~= old(out)@ + print_fin_items(ts));
        }
    } else {
        proof {
            assert(ts.len() == 1);
        }
    }
}

/// Appends the JSON array of a live-task list.
fn push_live_list(out: &mut String, v: &Vec<LiveTask>)
    ensures
        final(out)@ == old(out)@ + print_live_list(live_view(v@)),
{
    if v.len() == 0 {
        out.append("[]");
    } else {
        out.append("[");
        push_live_items(out, v, 0);
        out.append("]");
        proof {
            assert(live_view(v@).skip(0) =~= live_view(v@));
            assert(final(out)@ =~= old(out)@ + print_live_list(live_view(v@)));
        }
    }
}

/// Appends the JSON array of a finished-task list.
fn push_fin_list(out: &mut String, v: &Vec<FinishedTask>)
    ensures
        final(out)@ == old(out)@ + print_fin_list(fin_view(v@)),
{
    if v.len() == 0 {
        out.append("[]");
    } else {
        out.append("[");
        push_fin_items(out, v, 0);
        out.append("]");
        proof {
            assert(fin_view(v@).skip(0) =~= fin_view(v@));
            assert(final(out)@ =~= old(out)@ + print_fin_list(fin_view(v@)));
        }
    }
}

/// Appends the JSON text of a snapshot.
fn push_snapshot(out: &mut String, s: &StateSnapshot)
    ensures
        final(out)@ == old(out)@ + print_snapshot(s@),
{
    out.append("{\"live\":");
    push_live_list(out, &s.live);
    out.append(",\"finished\":");
    push_fin_list(out, &s.finished);
    out.append("}");
}

/// Appends the JSON text of an operation kind.
#[verifier::rlimit(60)]
fn push_kind(out: &mut String, k: &WebsocketOpKind)
    ensures
        final(out)@ == old(out)@ + print_kind(k@),
{
    match k {
        WebsocketOpKind::OverwriteState(s) => {
            out.append("{\"OverwriteState\":");
            push_snapshot(out, s);
            out.append("}");
        },
        WebsocketOpKind::InsLiveTask { id, value } => {
            out.append("{\"InsLiveTask\":");
            out.append("{\"id\":");
            push_json_string(out, id.as_str());
            out.append(",\"value\":");
            push_json_string(out, value.as_str());
            out.append("}}");
        },
        WebsocketOpKind::EditLiveTask { id, value } => {
            out.append("{\"EditLiveTask\":");
            out.append("{\"id\":");
            push_json_string(out, id.as_str());
            out.append(",\"value\":");
            push_json_string(out, value.as_str());
            out.append("}}");
        },
        WebsocketOpKind::DelLiveTask { id } => {
            out.append("{\"DelLiveTask\":");
            out.append("{\"id\":");
            push_json_string(out, id.as_str());
            out.append("}}");
        },
        WebsocketOpKind::FinishLiveTask { id, status } => {
            out.append("{\"FinishLiveTask\":");
            out.append("{\"id\":");
            push_json_string(out, id.as_str());
            out.append(",\"status\":");
            push_status(out, status);
            out.append("}}");
        },
        WebsocketOpKind::RestoreFinishedTask { id } => {
            out.append("{\"RestoreFinishedTask\":");
            out.append("{\"id\":");
            push_json_string(out, id.as_str());
            out.append("}}");
        },
        WebsocketOpKind::MvLiveTask { id_del, id_ins } => {
            out.append("{\"MvLiveTask\":");
            out.append("{\"id_del\":");
            push_json_string(out, id_del.as_str());
            out.append(",\"id_ins\":");
            push_json_string(out, id_ins.as_str());
            out.append("}}");
        },
        WebsocketOpKind::RevLiveTask { id1, id2 } => {
            out.append("{\"RevLiveTask\":");
            out.append("{\"id1\":");
            push_json_string(out, id1.as_str());
            out.append(",\"id2\":");
            push_json_string(out, id2.as_str());
            out.append("}}");
        },
    }
}

/// The canonical JSON text of a wire operation: exactly what the
/// mathematical printer of the grammar states.
pub fn encode_op(op: &WebsocketOp) -> (r: String)
    ensures
        r@ == print_op(op@),
{
    let mut out = String::new();
    out.append("{\"alleged_time\":");
    push_u64(&mut out, op.alleged_time);
    out.append(",\"kind\":");
    push_kind(&mut out, &op.kind);
    out.append("}");
    proof {
        assert(out@ =~= print_op(op@));
    }
    out
}


/// Whether `c` is a decimal digit.
fn is_digit_char(c: char) -> (b: bool)
    ensures
        b == is_digit(c),
{
    let u = c as u32;
    48 <= u && u <= 57
}

/// Whether `c` is a hexadecimal digit.
fn is_hex_char(c: char) -> (b: bool)
    ensures
        b == is_hex(c),
{
    let u = c as u32;
    (48 <= u && u <= 57) || (97 <= u && u <= 102) || (65 <= u && u <= 70)
}

/// The value of a decimal digit.
fn digit_value(c: char) -> (r: u64)
    requires
        is_digit(c),
    ensures
        r == digit_val(c),
        r < 10,
{
    (c as u32 - 48) as u64
}

/// The value of a hexadecimal digit.
fn hex_value(c: char) -> (r: u32)
    requires
        is_hex(c),
    ensures
        r == hex_val(c),
        r < 16,
{
    let u = c as u32;
    if 48 <= u && u <= 57 {
        u - 48
    } else if 97 <= u && u <= 102 {
        u - 87
    } else {
        u - 55
    }
}

/// Consumes the literal `tok` at position `i`, as the grammar's
/// `p_lit` states.
#[verifier::loop_isolation(false)]
fn e_lit(cs: &Vec<char>, i: usize, tok: &str) -> (r: Option<usize>)
    ensures
        match r {
            Some(j) => p_lit(cs@, i as int, tok@) == Some(j as int),
            None => p_lit(cs@, i as int, tok@) is None,
        },
{
    let tv = str_to_chars(tok);
    if i > cs.len() || cs.len() - i < tv.len() {
        return None;
    }
    let mut k: usize = 0;
    while k < tv.len()
        invariant
            i + tv@.len() <= cs@.len(),
            k <= tv@.len(),
            tv@ == tok@,
            forall|m: int| 0 <= m < k as int ==> cs@[i + m] == tok@[m],
        decreases tv@.len() - k,
    {
        if !(cs[i + k] == tv[k]) {
            proof {
                assert(cs@.subrange(i as int, i + tok@.len()) != tok@);
            }
            return None;
        }
        k = k + 1;
    }
    proof {
        assert(cs@.subrange(i as int, i + tok@.len()) =~= tok@);
    }
    Some(i + tv.len())
}

/// Reads the body of a string up to and over the closing quote, as the
/// grammar's `p_str_body` states.
#[verifier::loop_isolation(false)]
fn e_str_body(cs: &Vec<char>, i: usize) -> (r: Option<(String, usize)>)
    ensures
        match r {
            Some(p) => p_str_body(cs@, i as int) == Some((p.0@, p.1 as int)),
            None => p_str_body(cs@, i as int) is None,
        },
{
    let mut out = String::new();
    let mut pos: usize = i;
    loop
        invariant
            i <= pos,
            match p_str_body(cs@, pos as int) {
                Some(p) => p_str_body(cs@, i as int) == Some((out@ + p.0, p.1)),
                None => p_str_body(cs@, i as int) is None,
            },
        decreases cs@.len() - pos,
    {
        if pos >= cs.len() {
            return None;
        }
        let c = cs[pos];
        if c == '"' {
            proof {
                assert(out@ + Seq::<char>::empty() =~= out@);
            }
            return Some((out, pos + 1));
        }
        let ghost out0 = out@;
        let ghost pos0 = pos as int;
        let mut consumed: char = c;
        if c == '\\' {
            if cs.len() - pos < 2 {
                return None;
            }
            let e = cs[pos + 1];
            if e == 'u' {
                if cs.len() - pos < 6 {
                    return None;
                }
                let h2 = cs[pos + 2];
                let h3 = cs[pos + 3];
                let h4 = cs[pos + 4];
                let h5 = cs[pos + 5];
                if !(is_hex_char(h2) && is_hex_char(h3) && is_hex_char(h4) && is_hex_char(h5)) {
                    return None;
                }
                let v = hex_value(h2) * 4096 + hex_value(h3) * 256 + hex_value(h4) * 16
                    + hex_value(h5);
                if !(v < 0xD800 || v >= 0xE000) {
                    return None;
                }
                proof {
                    assert(v <= 0xFFFF);
                }
                let ch = match char_from_u32(v) {
                    Some(ch) => ch,
                    None => {
                        proof {
                            assert(false);
                        }
                        ' '
                    },
                };
                proof {
                    vstd::utf8::char_u32_cast(ch, v);
                    assert(ch == (v as u32) as char);
                }
                consumed = ch;
                push_char(&mut out, ch);
                pos = pos + 6;
            } else {
                let ch: char = if e == '"' {
                    '"'
                } else if e == '\\' {
                    '\\'
                } else if e == '/' {
                    '/'
                } else if e == 'n' {
                    '\n'
                } else if e == 'r' {
                    '\r'
                } else if e == 't' {
                    '\t'
                } else if e == 'b' {
                    8u8 as char
                } else if e == 'f' {
                    12u8 as char
                } else {
                    ' '
                };
                if !(e == '"' || e == '\\' || e == '/' || e == 'n' || e == 'r' || e == 't' || e
                    == 'b' || e == 'f') {
                    return None;
                }
                consumed = ch;
                push_char(&mut out, ch);
                pos = pos + 2;
            }
        } else {
            push_char(&mut out, c);
            pos = pos + 1;
        }
        proof {
            assert(p_str_body(cs@, pos0) == (match p_str_body(cs@, pos as int) {
                Some(p) => Some((seq![consumed] + p.0, p.1)),
                None => None::<(Seq<char>, int)>,
            }));
            match p_str_body(cs@, pos as int) {
                Some(p) => {
                    assert(out0 + (seq![consumed] + p.0) =~= out@ + p.0);
                },
                None => {},
            }
        }
    }
}

/// Reads a quoted string, as the grammar's `p_string` states.
fn e_string(cs: &Vec<char>, i: usize) -> (r: Option<(String, usize)>)
    ensures
        match r {
            Some(p) => p_string(cs@, i as int) == Some((p.0@, p.1 as int)),
            None => p_string(cs@, i as int) is None,
        },
{
    if i < cs.len() && cs[i] == '"' {
        e_str_body(cs, i + 1)
    } else {
        None
    }
}

/// Reads a canonical decimal integer, as the grammar's `p_u64` states.
#[verifier::loop_isolation(false)]
fn e_u64(cs: &Vec<char>, i: usize) -> (r: Option<(u64, usize)>)
    ensures
        match r {
            Some(p) => p_u64(cs@, i as int) == Some((p.0, p.1 as int)),
            None => p_u64(cs@, i as int) is None,
        },
{
    if i >= cs.len() || !is_digit_char(cs[i]) {
        return None;
    }
    if cs[i] == '0' && i + 1 < cs.len() && is_digit_char(cs[i + 1]) {
        return None;
    }
    let mut acc: u64 = 0;
    let mut pos: usize = i;
    loop
        invariant
            i <= pos <= cs@.len(),
            p_u64_loop(cs@, i as int, 0) == p_u64_loop(cs@, pos as int, acc),
        decreases cs@.len() - pos,
    {
        if pos < cs.len() && is_digit_char(cs[pos]) {
            let d = digit_value(cs[pos]);
            let stepped = match acc.checked_mul(10) {
                Some(m) => m.checked_add(d),
                None => None,
            };
            match stepped {
                Some(a2) => {
                    acc = a2;
                    pos = pos + 1;
                },
                None => {
                    return None;
                },
            }
        } else {
            return Some((acc, pos));
        }
    }
}

/// Reads a task status, as the grammar's `p_status` states.
fn e_status(cs: &Vec<char>, i: usize) -> (r: Option<(TaskStatus, usize)>)
    ensures
        match r {
            Some(p) => p_status(cs@, i as int) == Some((p.0, p.1 as int)),
            None => p_status(cs@, i as int) is None,
        },
{
    match e_lit(cs, i, "\"Succeeded\"") {
        Some(j) => Some((TaskStatus::Succeeded, j)),
        None => match e_lit(cs, i, "\"Failed\"") {
            Some(j) => Some((TaskStatus::Failed, j)),
            None => match e_lit(cs, i, "\"Obsoleted\"") {
                Some(j) => Some((TaskStatus::Obsoleted, j)),
                None => None,
            },
        },
    }
}

/// Reads one live task object, as the grammar's `p_live_task` states.
fn e_live_task(cs: &Vec<char>, i: usize) -> (r: Option<(LiveTask, usize)>)
    ensures
        match r {
            Some(p) => p_live_task(cs@, i as int) == Some((p.0@, p.1 as int)),
            None => p_live_task(cs@, i as int) is None,
        },
{
    match e_lit(cs, i, "{\"id\":") {
        None => None,
        Some(j1) => match e_string(cs, j1) {
            None => None,
            Some((id, j2)) => match e_lit(cs, j2, ",\"value\":") {
                None => None,
                Some(j3) => match e_string(cs, j3) {
                    None => None,
                    Some((value, j4)) => match e_lit(cs, j4, "}") {
                        None => None,
                        Some(j5) => Some((LiveTask { id, value }, j5)),
                    },
                },
            },
        },
    }
}

/// Reads one finished task object, as the grammar's `p_fin_task`
/// states.
fn e_fin_task(cs: &Vec<char>, i: usize) -> (r: Option<(FinishedTask, usize)>)
    ensures
        match r {
            Some(p) => p_fin_task(cs@, i as int) == Some((p.0@, p.1 as int)),
            None => p_fin_task(cs@, i as int) is None,
        },
{
    match e_lit(cs, i, "{\"id\":") {
        None => None,
        Some(j1) => match e_string(cs, j1) {
            None => None,
            Some((id, j2)) => match e_lit(cs, j2, ",\"value\":") {
                None => None,
                Some(j3) => match e_string(cs, j3) {
                    None => None,
                    Some((value, j4)) => match e_lit(cs, j4, ",\"status\":") {
                        None => None,
                        Some(j5) => match e_status(cs, j5) {
                            None => None,
                            Some((status, j6)) => match e_lit(cs, j6, "}") {
                                None => None,
                                Some(j7) => Some((FinishedTask { id, value, status }, j7)),
                            },
                        },
                    },
                },
            },
        },
    }
}

/// Reads the items of a live-task array, as the grammar's
/// `p_live_items` states.
fn e_live_items(cs: &Vec<char>, i: usize) -> (r: Option<(Vec<LiveTask>, usize)>)
    ensures
        match r {
            Some(p) => p_live_items(cs@, i as int) == Some((live_view(p.0@), p.1 as int)),
            None => p_live_items(cs@, i as int) is None,
        },
    decreases cs@.len() - i,
{
    match e_live_task(cs, i) {
        None => None,
        Some((t, j)) => {
            proof {
                crate::wire::lemma_p_live_task_advances(cs@, i as int);
            }
            if j < cs.len() && cs[j] == ',' {
                match e_live_items(cs, j + 1) {
                    None => None,
                    Some((more, k)) => {
                        let ghost more0 = more@;
                        let mut v = more;
                        v.insert(0, t);
                        proof {
                            assert(live_view(v@) =~= seq![t@] + live_view(more0));
                        }
                        Some((v, k))
                    },
                }
            } else if j < cs.len() && cs[j] == ']' {
                let mut v: Vec<LiveTask> = Vec::new();
                v.push(t);
                proof {
                    assert(live_view(v@) =~= seq![t@]);
                }
                Some((v, j + 1))
            } else {
                None
            }
        },
    }
}

/// Reads the items of a finished-task array, as the grammar's
/// `p_fin_items` states.
fn e_fin_items(cs: &Vec<char>, i: usize) -> (r: Option<(Vec<FinishedTask>, usize)>)
    ensures
        match r {
            Some(p) => p_fin_items(cs@, i as int) == Some((fin_view(p.0@), p.1 as int)),
            None => p_fin_items(cs@, i as int) is None,
        },
    decreases cs@.len() - i,
{
    match e_fin_task(cs, i) {
        None => None,
        Some((t, j)) => {
            proof {
                crate::wire::lemma_p_fin_task_advances(cs@, i as int);
            }
            if j < cs.len() && cs[j] == ',' {
                match e_fin_items(cs, j + 1) {
                    None => None,
                    Some((more, k)) => {
                        let ghost more0 = more@;
                        let mut v = more;
                        v.insert(0, t);
                        proof {
                            assert(fin_view(v@) =~= seq![t@] + fin_view(more0));
                        }
                        Some((v, k))
                    },
                }
            } else if j < cs.len() && cs[j] == ']' {
                let mut v: Vec<FinishedTask> = Vec::new();
                v.push(t);
                proof {
                    assert(fin_view(v@) =~= seq![t@]);
                }
                Some((v, j + 1))
            } else {
                None
            }
        },
    }
}

/// Reads a live-task array, as the grammar's `p_live_list` states.
fn e_live_list(cs: &Vec<char>, i: usize) -> (r: Option<(Vec<LiveTask>, usize)>)
    ensures
        match r {
            Some(p) => p_live_list(cs@, i as int) == Some((live_view(p.0@), p.1 as int)),
            None => p_live_list(cs@, i as int) is None,
        },
{
    match e_lit(cs, i, "[]") {
        Some(j) => {
            let v: Vec<LiveTask> = Vec::new();
            proof {
                assert(live_view(v@) =~= Seq::<crate::tasks::LiveTaskV>::empty());
            }
            Some((v, j))
        },
        None => match e_lit(cs, i, "[") {
            None => None,
            Some(j) => e_live_items(cs, j),
        },
    }
}

/// Reads a finished-task array, as the grammar's `p_fin_list` states.
fn e_fin_list(cs: &Vec<char>, i: usize) -> (r: Option<(Vec<FinishedTask>, usize)>)
    ensures
        match r {
            Some(p) => p_fin_list(cs@, i as int) == Some((fin_view(p.0@), p.1 as int)),
            None => p_fin_list(cs@, i as int) is None,
        },
{
    match e_lit(cs, i, "[]") {
        Some(j) => {
            let v: Vec<FinishedTask> = Vec::new();
            proof {
                assert(fin_view(v@) =~= Seq::<crate::tasks::FinishedTaskV>::empty());
            }
            Some((v, j))
        },
        None => match e_lit(cs, i, "[") {
            None => None,
            Some(j) => e_fin_items(cs, j),
        },
    }
}

/// Reads a snapshot object, as the grammar's `p_snapshot` states.
fn e_snapshot(cs: &Vec<char>, i: usize) -> (r: Option<(StateSnapshot, usize)>)
    ensures
        match r {
            Some(p) => p_snapshot(cs@, i as int) == Some((p.0@, p.1 as int)),
            None => p_snapshot(cs@, i as int) is None,
        },
{
    match e_lit(cs, i, "{\"live\":") {
        None => None,
        Some(j1) => match e_live_list(cs, j1) {
            None => None,
            Some((live, j2)) => match e_lit(cs, j2, ",\"finished\":") {
                None => None,
                Some(j3) => match e_fin_list(cs, j3) {
                    None => None,
                    Some((finished, j4)) => match e_lit(cs, j4, "}") {
                        None => None,
                        Some(j5) => Some((StateSnapshot { live, finished }, j5)),
                    },
                },
            },
        },
    }
}

/// Reads an id-only payload, as the grammar's `p_id_payload` states.
fn e_id_payload(cs: &Vec<char>, i: usize) -> (r: Option<(String, usize)>)
    ensures
        match r {
            Some(p) => p_id_payload(cs@, i as int) == Some((p.0@, p.1 as int)),
            None => p_id_payload(cs@, i as int) is None,
        },
{
    match e_lit(cs, i, "{\"id\":") {
        None => None,
        Some(j1) => match e_string(cs, j1) {
            None => None,
            Some((id, j2)) => match e_lit(cs, j2, "}}") {
                None => None,
                Some(j3) => Some((id, j3)),
            },
        },
    }
}

/// Reads a payload of two strings under the given keys, as the
/// grammar's `p_two_string_payload` states.
fn e_two_string_payload(cs: &Vec<char>, i: usize, key1: &str, key2: &str) -> (r: Option<
    (String, String, usize),
>)
    ensures
        match r {
            Some(p) => p_two_string_payload(cs@, i as int, key1@, key2@) == Some(
                (p.0@, p.1@, p.2 as int),
            ),
            None => p_two_string_payload(cs@, i as int, key1@, key2@) is None,
        },
{
    match e_lit(cs, i, key1) {
        None => None,
        Some(j1) => match e_string(cs, j1) {
            None => None,
            Some((a, j2)) => match e_lit(cs, j2, key2) {
                None => None,
                Some(j3) => match e_string(cs, j3) {
                    None => None,
                    Some((b, j4)) => match e_lit(cs, j4, "}}") {
                        None => None,
                        Some(j5) => Some((a, b, j5)),
                    },
                },
            },
        },
    }
}

/// Reads an operation kind, as the grammar's `p_kind` states.
fn e_kind(cs: &Vec<char>, i: usize) -> (r: Option<(WebsocketOpKind, usize)>)
    ensures
        match r {
            Some(p) => p_kind(cs@, i as int) == Some((p.0@, p.1 as int)),
            None => p_kind(cs@, i as int) is None,
        },
{
    if let Some(j1) = e_lit(cs, i, "{\"OverwriteState\":") {
        match e_snapshot(cs, j1) {
            None => None,
            Some((snap, j2)) => match e_lit(cs, j2, "}") {
                None => None,
                Some(j3) => Some((WebsocketOpKind::OverwriteState(snap), j3)),
            },
        }
    } else if let Some(j1) = e_lit(cs, i, "{\"InsLiveTask\":") {
        match e_two_string_payload(cs, j1, "{\"id\":", ",\"value\":") {
            None => None,
            Some((id, value, j2)) => Some((WebsocketOpKind::InsLiveTask { id, value }, j2)),
        }
    } else if let Some(j1) = e_lit(cs, i, "{\"EditLiveTask\":") {
        match e_two_string_payload(cs, j1, "{\"id\":", ",\"value\":") {
            None => None,
            Some((id, value, j2)) => Some((WebsocketOpKind::EditLiveTask { id, value }, j2)),
        }
    } else if let Some(j1) = e_lit(cs, i, "{\"DelLiveTask\":") {
        match e_id_payload(cs, j1) {
            None => None,
            Some((id, j2)) => Some((WebsocketOpKind::DelLiveTask { id }, j2)),
        }
    } else if let Some(j1) = e_lit(cs, i, "{\"FinishLiveTask\":") {
        match e_lit(cs, j1, "{\"id\":") {
            None => None,
            Some(j2) => match e_string(cs, j2) {
                None => None,
                Some((id, j3)) => match e_lit(cs, j3, ",\"status\":") {
                    None => None,
                    Some(j4) => match e_status(cs, j4) {
                        None => None,
                        Some((status, j5)) => match e_lit(cs, j5, "}}") {
                            None => None,
                            Some(j6) => Some(
                                (WebsocketOpKind::FinishLiveTask { id, status }, j6),
                            ),
                        },
                    },
                },
            },
        }
    } else if let Some(j1) = e_lit(cs, i, "{\"RestoreFinishedTask\":") {
        match e_id_payload(cs, j1) {
            None => None,
            Some((id, j2)) => Some((WebsocketOpKind::RestoreFinishedTask { id }, j2)),
        }
    } else if let Some(j1) = e_lit(cs, i, "{\"MvLiveTask\":") {
        match e_two_string_payload(cs, j1, "{\"id_del\":", ",\"id_ins\":") {
            None => None,
            Some((id_del, id_ins, j2)) => Some(
                (WebsocketOpKind::MvLiveTask { id_del, id_ins }, j2),
            ),
        }
    } else if let Some(j1) = e_lit(cs, i, "{\"RevLiveTask\":") {
        match e_two_string_payload(cs, j1, "{\"id1\":", ",\"id2\":") {
            None => None,
            Some((id1, id2, j2)) => Some((WebsocketOpKind::RevLiveTask { id1, id2 }, j2)),
        }
    } else {
        None
    }
}

/// Decodes a received text into a wire operation: exactly what the
/// mathematical parser of the grammar states, including the form that
/// omits the time, which is read as zero.
pub fn decode_op(s: &str) -> (r: Option<WebsocketOp>)
    ensures
        match r {
            Some(op) => parse_op(s@) == Some(op@),
            None => parse_op(s@) is None,
        },
{
    let cs = str_to_chars(s);
    if let Some(j1) = e_lit(&cs, 0, "{\"alleged_time\":") {
        match e_u64(&cs, j1) {
            None => None,
            Some((t, j2)) => match e_lit(&cs, j2, ",\"kind\":") {
                None => None,
                Some(j3) => match e_kind(&cs, j3) {
                    None => None,
                    Some((kind, j4)) => match e_lit(&cs, j4, "}") {
                        None => None,
                        Some(j5) => if j5 == cs.len() {
                            Some(WebsocketOp { alleged_time: t, kind })
                        } else {
                            None
                        },
                    },
                },
            },
        }
    } else if let Some(j1) = e_lit(&cs, 0, "{\"kind\":") {
        match e_kind(&cs, j1) {
            None => None,
            Some((kind, j2)) => match e_lit(&cs, j2, "}") {
                None => None,
                Some(j3) => if j3 == cs.len() {
                    Some(WebsocketOp { alleged_time: 0, kind })
                } else {
                    None
                },
            },
        }
    } else {
        None
    }
}

} // verus!
