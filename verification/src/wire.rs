//! The wire grammar of operations: a mathematical printer that gives the
//! canonical JSON text of every operation, and a mathematical parser that
//! reads it back. The executable codec is proved to implement
//! these two functions exactly.
//!
//! The payload is the object `{"alleged_time":<integer>,"kind":<kind>}`;
//! a payload that omits the time, `{"kind":<kind>}`, is also read, with
//! the time taken as zero. Strings carry the usual JSON escapes; the
//! printer escapes exactly the quote, the backslash and the control
//! characters.

use vstd::prelude::*;

use crate::tasks::{FinishedTaskV, LiveTaskV, OpKindV, OpV, SnapshotV, TaskStatus};

verus! {

// ---------------------------------------------------------------------
// Characters and digits
// ---------------------------------------------------------------------
/// Whether `c` is a decimal digit.
pub open spec fn is_digit(c: char) -> bool {
    48 <= c as u32 && c as u32 <= 57
}

/// Numeric value of a decimal digit.
pub open spec fn digit_val(c: char) -> int {
    c as u32 - 48
}

/// The decimal digit with value `d`.
pub open spec fn dec_digit(d: int) -> char {
    if d == 0 {
        '0'
    } else if d == 1 {
        '1'
    } else if d == 2 {
        '2'
    } else if d == 3 {
        '3'
    } else if d == 4 {
        '4'
    } else if d == 5 {
        '5'
    } else if d == 6 {
        '6'
    } else if d == 7 {
        '7'
    } else if d == 8 {
        '8'
    } else {
        '9'
    }
}

/// The lower-case hexadecimal digit with value `d`.
pub open spec fn hex_digit(d: int) -> char {
    if d < 10 {
        dec_digit(d)
    } else if d == 10 {
        'a'
    } else if d == 11 {
        'b'
    } else if d == 12 {
        'c'
    } else if d == 13 {
        'd'
    } else if d == 14 {
        'e'
    } else {
        'f'
    }
}

/// Whether `c` is a hexadecimal digit, upper or lower case.
pub open spec fn is_hex(c: char) -> bool {
    is_digit(c) || (97 <= c as u32 && c as u32 <= 102) || (65 <= c as u32 && c as u32 <= 70)
}

/// Numeric value of a hexadecimal digit.
pub open spec fn hex_val(c: char) -> int {
    if is_digit(c) {
        digit_val(c)
    } else if 97 <= c as u32 && c as u32 <= 102 {
        c as u32 - 87
    } else {
        c as u32 - 55
    }
}

/// Decimal digits of `n`, most significant first, without leading zeros.
pub open spec fn dec(n: nat) -> Seq<char>
    decreases n,
{
    if n < 10 {
        seq![dec_digit(n as int)]
    } else {
        dec(n / 10) + seq![dec_digit((n % 10) as int)]
    }
}

/// Value of a sequence of decimal digits, most significant first.
pub open spec fn dec_val(s: Seq<char>) -> int
    decreases s.len(),
{
    if s.len() == 0 {
        0
    } else {
        dec_val(s.drop_last()) * 10 + digit_val(s.last())
    }
}

// ---------------------------------------------------------------------
// Printing
// ---------------------------------------------------------------------
/// What the printer emits for one character of a string: the named
/// escapes for the quote, the backslash and the common control
/// characters, `\u00XX` for the other control characters, the character
/// itself for everything else.
pub open spec fn esc_char(c: char) -> Seq<char> {
    if c == '"' {
        seq!['\\', '"']
    } else if c == '\\' {
        seq!['\\', '\\']
    } else if c == '\n' {
        seq!['\\', 'n']
    } else if c == '\r' {
        seq!['\\', 'r']
    } else if c == '\t' {
        seq!['\\', 't']
    } else if c as u32 == 8 {
        seq!['\\', 'b']
    } else if c as u32 == 12 {
        seq!['\\', 'f']
    } else if (c as u32) < 32 {
        seq!['\\', 'u', '0', '0', hex_digit(c as u32 as int / 16), hex_digit(c as u32 as int % 16)]
    } else {
        seq![c]
    }
}

/// The escaped body of a string.
pub open spec fn esc(s: Seq<char>) -> Seq<char>
    decreases s.len(),
{
    if s.len() == 0 {
        Seq::empty()
    } else {
        esc_char(s[0]) + esc(s.drop_first())
    }
}

/// A quoted, escaped JSON string.
pub open spec fn jstr(s: Seq<char>) -> Seq<char> {
    seq!['"'] + esc(s) + seq!['"']
}

/// The JSON text of a task status.
pub open spec fn print_status(st: TaskStatus) -> Seq<char> {
    match st {
        TaskStatus::Succeeded => "\"Succeeded\""@,
        TaskStatus::Failed => "\"Failed\""@,
        TaskStatus::Obsoleted => "\"Obsoleted\""@,
    }
}

/// The JSON text of one live task.
pub open spec fn print_live_task(t: LiveTaskV) -> Seq<char> {
    "{\"id\":"@ + jstr(t.id) + ",\"value\":"@ + jstr(t.value) + "}"@
}

/// The JSON text of one finished task.
pub open spec fn print_fin_task(t: FinishedTaskV) -> Seq<char> {
    "{\"id\":"@ + jstr(t.id) + ",\"value\":"@ + jstr(t.value) + ",\"status\":"@ + print_status(
        t.status,
    ) + "}"@
}

/// The comma-separated items of a non-empty list of live tasks.
pub open spec fn print_live_items(ts: Seq<LiveTaskV>) -> Seq<char>
    decreases ts.len(),
{
    if ts.len() <= 1 {
        print_live_task(ts[0])
    } else {
        print_live_task(ts[0]) + ","@ + print_live_items(ts.drop_first())
    }
}

/// The JSON array of a list of live tasks.
pub open spec fn print_live_list(ts: Seq<LiveTaskV>) -> Seq<char> {
    if ts.len() == 0 {
        "[]"@
    } else {
        "["@ + print_live_items(ts) + "]"@
    }
}

/// The comma-separated items of a non-empty list of finished tasks.
pub open spec fn print_fin_items(ts: Seq<FinishedTaskV>) -> Seq<char>
    decreases ts.len(),
{
    if ts.len() <= 1 {
        print_fin_task(ts[0])
    } else {
        print_fin_task(ts[0]) + ","@ + print_fin_items(ts.drop_first())
    }
}

/// The JSON array of a list of finished tasks.
pub open spec fn print_fin_list(ts: Seq<FinishedTaskV>) -> Seq<char> {
    if ts.len() == 0 {
        "[]"@
    } else {
        "["@ + print_fin_items(ts) + "]"@
    }
}

/// The JSON text of a whole snapshot.
pub open spec fn print_snapshot(s: SnapshotV) -> Seq<char> {
    "{\"live\":"@ + print_live_list(s.live) + ",\"finished\":"@ + print_fin_list(s.finished)
        + "}"@
}

/// The JSON text of an operation kind: an object with the variant name
/// as its single key.
pub open spec fn print_kind(k: OpKindV) -> Seq<char> {
    match k {
        OpKindV::OverwriteState(s) => "{\"OverwriteState\":"@ + print_snapshot(s) + "}"@,
        OpKindV::InsLiveTask { id, value } => "{\"InsLiveTask\":"@ + "{\"id\":"@ + jstr(id)
            + ",\"value\":"@ + jstr(value) + "}}"@,
        OpKindV::EditLiveTask { id, value } => "{\"EditLiveTask\":"@ + "{\"id\":"@ + jstr(id)
            + ",\"value\":"@ + jstr(value) + "}}"@,
        OpKindV::DelLiveTask { id } => "{\"DelLiveTask\":"@ + "{\"id\":"@ + jstr(id) + "}}"@,
        OpKindV::FinishLiveTask { id, status } => "{\"FinishLiveTask\":"@ + "{\"id\":"@ + jstr(
            id,
        ) + ",\"status\":"@ + print_status(status) + "}}"@,
        OpKindV::RestoreFinishedTask { id } => "{\"RestoreFinishedTask\":"@ + "{\"id\":"@ + jstr(
            id,
        ) + "}}"@,
        OpKindV::MvLiveTask { id_del, id_ins } => "{\"MvLiveTask\":"@ + "{\"id_del\":"@ + jstr(
            id_del,
        ) + ",\"id_ins\":"@ + jstr(id_ins) + "}}"@,
        OpKindV::RevLiveTask { id1, id2 } => "{\"RevLiveTask\":"@ + "{\"id1\":"@ + jstr(id1)
            + ",\"id2\":"@ + jstr(id2) + "}}"@,
    }
}

/// The canonical JSON text of a wire operation.
pub open spec fn print_op(v: OpV) -> Seq<char> {
    "{\"alleged_time\":"@ + dec(v.alleged_time as nat) + ",\"kind\":"@ + print_kind(v.kind)
        + "}"@
}

// ---------------------------------------------------------------------
// Parsing
// ---------------------------------------------------------------------
/// Consumes the literal `tok` at position `i`; the position after it.
pub open spec fn p_lit(s: Seq<char>, i: int, tok: Seq<char>) -> Option<int> {
    if 0 <= i && i + tok.len() <= s.len() && s.subrange(i, i + tok.len()) == tok {
        Some(i + tok.len())
    } else {
        None
    }
}

/// Reads the body of a string up to and over the closing quote: the
/// characters denoted and the position after the quote.
pub open spec fn p_str_body(s: Seq<char>, i: int) -> Option<(Seq<char>, int)>
    decreases s.len() - i,
{
    if i < 0 || i >= s.len() {
        None
    } else if s[i] == '"' {
        Some((Seq::empty(), i + 1))
    } else if s[i] == '\\' {
        if i + 1 < s.len() {
            let e = s[i + 1];
            if e == 'u' {
                if i + 5 < s.len() && is_hex(s[i + 2]) && is_hex(s[i + 3]) && is_hex(s[i + 4])
                    && is_hex(s[i + 5]) {
                    let v = hex_val(s[i + 2]) * 4096 + hex_val(s[i + 3]) * 256 + hex_val(
                        s[i + 4],
                    ) * 16 + hex_val(s[i + 5]);
                    if v < 0xD800 || v >= 0xE000 {
                        match p_str_body(s, i + 6) {
                            Some((cs, j)) => Some((seq![(v as u32) as char] + cs, j)),
                            None => None,
                        }
                    } else {
                        None
                    }
                } else {
                    None
                }
            } else {
                let c: char = if e == '"' {
                    '"'
                } else if e == '\\' {
                    '\\'
                } else if e == '/' {
                    '/'
                } else if e == 'n' {
                    '\n'
                } else if e == 'r' {
                    '\r'
                } else if e == 't' {
                    '\t'
                } else if e == 'b' {
                    8u32 as char
                } else if e == 'f' {
                    12u32 as char
                } else {
                    ' '
                };
                if e == '"' || e == '\\' || e == '/' || e == 'n' || e == 'r' || e == 't' || e
                    == 'b' || e == 'f' {
                    match p_str_body(s, i + 2) {
                        Some((cs, j)) => Some((seq![c] + cs, j)),
                        None => None,
                    }
                } else {
                    None
                }
            }
        } else {
            None
        }
    } else {
        match p_str_body(s, i + 1) {
            Some((cs, j)) => Some((seq![s[i]] + cs, j)),
            None => None,
        }
    }
}

/// Reads a quoted string at position `i`.
pub open spec fn p_string(s: Seq<char>, i: int) -> Option<(Seq<char>, int)> {
    if 0 <= i && i < s.len() && s[i] == '"' {
        p_str_body(s, i + 1)
    } else {
        None
    }
}

/// Accumulates the digits of an integer, refusing values that do not
/// fit in a `u64`.
pub open spec fn p_u64_loop(s: Seq<char>, i: int, acc: u64) -> Option<(u64, int)>
    decreases s.len() - i,
{
    if 0 <= i && i < s.len() && is_digit(s[i]) {
        if acc * 10 + digit_val(s[i]) <= u64::MAX {
            p_u64_loop(s, i + 1, (acc * 10 + digit_val(s[i])) as u64)
        } else {
            None
        }
    } else if 0 <= i && i <= s.len() {
        Some((acc, i))
    } else {
        None
    }
}

/// Reads a canonical decimal integer: at least one digit, no leading
/// zero, a value that fits in a `u64`.
pub open spec fn p_u64(s: Seq<char>, i: int) -> Option<(u64, int)> {
    if 0 <= i && i < s.len() && is_digit(s[i]) {
        if s[i] == '0' && i + 1 < s.len() && is_digit(s[i + 1]) {
            None
        } else {
            p_u64_loop(s, i, 0)
        }
    } else {
        None
    }
}

/// Reads a task status.
pub open spec fn p_status(s: Seq<char>, i: int) -> Option<(TaskStatus, int)> {
    if p_lit(s, i, "\"Succeeded\""@) is Some {
        Some((TaskStatus::Succeeded, p_lit(s, i, "\"Succeeded\""@)->Some_0))
    } else if p_lit(s, i, "\"Failed\""@) is Some {
        Some((TaskStatus::Failed, p_lit(s, i, "\"Failed\""@)->Some_0))
    } else if p_lit(s, i, "\"Obsoleted\""@) is Some {
        Some((TaskStatus::Obsoleted, p_lit(s, i, "\"Obsoleted\""@)->Some_0))
    } else {
        None
    }
}

/// Reads one live task object.
pub open spec fn p_live_task(s: Seq<char>, i: int) -> Option<(LiveTaskV, int)> {
    match p_lit(s, i, "{\"id\":"@) {
        None => None,
        Some(j1) => match p_string(s, j1) {
            None => None,
            Some((id, j2)) => match p_lit(s, j2, ",\"value\":"@) {
                None => None,
                Some(j3) => match p_string(s, j3) {
                    None => None,
                    Some((value, j4)) => match p_lit(s, j4, "}"@) {
                        None => None,
                        Some(j5) => Some((LiveTaskV { id, value }, j5)),
                    },
                },
            },
        },
    }
}

/// Reads one finished task object.
pub open spec fn p_fin_task(s: Seq<char>, i: int) -> Option<(FinishedTaskV, int)> {
    match p_lit(s, i, "{\"id\":"@) {
        None => None,
        Some(j1) => match p_string(s, j1) {
            None => None,
            Some((id, j2)) => match p_lit(s, j2, ",\"value\":"@) {
                None => None,
                Some(j3) => match p_string(s, j3) {
                    None => None,
                    Some((value, j4)) => match p_lit(s, j4, ",\"status\":"@) {
                        None => None,
                        Some(j5) => match p_status(s, j5) {
                            None => None,
                            Some((status, j6)) => match p_lit(s, j6, "}"@) {
                                None => None,
                                Some(j7) => Some((FinishedTaskV { id, value, status }, j7)),
                            },
                        },
                    },
                },
            },
        },
    }
}

/// The string body always moves the position forward.
pub proof fn lemma_p_str_body_advances(s: Seq<char>, i: int)
    ensures
        match p_str_body(s, i) {
            Some(r) => i < r.1 <= s.len(),
            None => true,
        },
    decreases s.len() - i,
{
    if 0 <= i && i < s.len() {
        if s[i] == '"' {
        } else if s[i] == '\\' {
            if i + 1 < s.len() {
                if s[i + 1] == 'u' {
                    if i + 5 < s.len() {
                        lemma_p_str_body_advances(s, i + 6);
                    }
                } else {
                    lemma_p_str_body_advances(s, i + 2);
                }
            }
        } else {
            lemma_p_str_body_advances(s, i + 1);
        }
    }
}

/// Reading a live task always moves the position forward.
pub proof fn lemma_p_live_task_advances(s: Seq<char>, i: int)
    ensures
        match p_live_task(s, i) {
            Some(r) => i < r.1 <= s.len(),
            None => true,
        },
{
    if p_live_task(s, i) is Some {
        let j1 = p_lit(s, i, "{\"id\":"@)->Some_0;
        lemma_p_str_body_advances(s, j1 + 1);
        let j2 = p_string(s, j1)->Some_0.1;
        let j3 = p_lit(s, j2, ",\"value\":"@)->Some_0;
        lemma_p_str_body_advances(s, j3 + 1);
    }
}

/// Reading a finished task always moves the position forward.
pub proof fn lemma_p_fin_task_advances(s: Seq<char>, i: int)
    ensures
        match p_fin_task(s, i) {
            Some(r) => i < r.1 <= s.len(),
            None => true,
        },
{
    if p_fin_task(s, i) is Some {
        let j1 = p_lit(s, i, "{\"id\":"@)->Some_0;
        lemma_p_str_body_advances(s, j1 + 1);
        let j2 = p_string(s, j1)->Some_0.1;
        let j3 = p_lit(s, j2, ",\"value\":"@)->Some_0;
        lemma_p_str_body_advances(s, j3 + 1);
    }
}

/// Reads the comma-separated items of a live-task array, up to and over
/// the closing bracket.
pub open spec fn p_live_items(s: Seq<char>, i: int) -> Option<(Seq<LiveTaskV>, int)>
    decreases s.len() - i,
    via p_live_items_dec
{
    match p_live_task(s, i) {
        None => None,
        Some((t, j)) => if 0 <= j && j < s.len() && s[j] == ',' {
            match p_live_items(s, j + 1) {
                None => None,
                Some((ts, k)) => Some((seq![t] + ts, k)),
            }
        } else if 0 <= j && j < s.len() && s[j] == ']' {
            Some((seq![t], j + 1))
        } else {
            None
        },
    }
}

#[via_fn]
proof fn p_live_items_dec(s: Seq<char>, i: int) {
    lemma_p_live_task_advances(s, i);
}

/// Reads the comma-separated items of a finished-task array, up to and
/// over the closing bracket.
pub open spec fn p_fin_items(s: Seq<char>, i: int) -> Option<(Seq<FinishedTaskV>, int)>
    decreases s.len() - i,
    via p_fin_items_dec
{
    match p_fin_task(s, i) {
        None => None,
        Some((t, j)) => if 0 <= j && j < s.len() && s[j] == ',' {
            match p_fin_items(s, j + 1) {
                None => None,
                Some((ts, k)) => Some((seq![t] + ts, k)),
            }
        } else if 0 <= j && j < s.len() && s[j] == ']' {
            Some((seq![t], j + 1))
        } else {
            None
        },
    }
}

#[via_fn]
proof fn p_fin_items_dec(s: Seq<char>, i: int) {
    lemma_p_fin_task_advances(s, i);
}

/// Reads a live-task array.
pub open spec fn p_live_list(s: Seq<char>, i: int) -> Option<(Seq<LiveTaskV>, int)> {
    match p_lit(s, i, "[]"@) {
        Some(j) => Some((Seq::empty(), j)),
        None => match p_lit(s, i, "["@) {
            None => None,
            Some(j) => p_live_items(s, j),
        },
    }
}

/// Reads a finished-task array.
pub open spec fn p_fin_list(s: Seq<char>, i: int) -> Option<(Seq<FinishedTaskV>, int)> {
    match p_lit(s, i, "[]"@) {
        Some(j) => Some((Seq::empty(), j)),
        None => match p_lit(s, i, "["@) {
            None => None,
            Some(j) => p_fin_items(s, j),
        },
    }
}

/// Reads a snapshot object.
pub open spec fn p_snapshot(s: Seq<char>, i: int) -> Option<(SnapshotV, int)> {
    match p_lit(s, i, "{\"live\":"@) {
        None => None,
        Some(j1) => match p_live_list(s, j1) {
            None => None,
            Some((live, j2)) => match p_lit(s, j2, ",\"finished\":"@) {
                None => None,
                Some(j3) => match p_fin_list(s, j3) {
                    None => None,
                    Some((finished, j4)) => match p_lit(s, j4, "}"@) {
                        None => None,
                        Some(j5) => Some((SnapshotV { live, finished }, j5)),
                    },
                },
            },
        },
    }
}

/// Reads an id-only payload: the shape of the delete and restore kinds.
pub open spec fn p_id_payload(s: Seq<char>, i: int) -> Option<(Seq<char>, int)> {
    match p_lit(s, i, "{\"id\":"@) {
        None => None,
        Some(j1) => match p_string(s, j1) {
            None => None,
            Some((id, j2)) => match p_lit(s, j2, "}}"@) {
                None => None,
                Some(j3) => Some((id, j3)),
            },
        },
    }
}

/// Reads a payload of two strings under the given keys, the shape of
/// the insert, edit, move and reverse kinds.
pub open spec fn p_two_string_payload(
    s: Seq<char>,
    i: int,
    key1: Seq<char>,
    key2: Seq<char>,
) -> Option<(Seq<char>, Seq<char>, int)> {
    match p_lit(s, i, key1) {
        None => None,
        Some(j1) => match p_string(s, j1) {
            None => None,
            Some((a, j2)) => match p_lit(s, j2, key2) {
                None => None,
                Some(j3) => match p_string(s, j3) {
                    None => None,
                    Some((b, j4)) => match p_lit(s, j4, "}}"@) {
                        None => None,
                        Some(j5) => Some((a, b, j5)),
                    },
                },
            },
        },
    }
}

/// Reads an operation kind: dispatches on the variant name.
pub open spec fn p_kind(s: Seq<char>, i: int) -> Option<(OpKindV, int)> {
    if p_lit(s, i, "{\"OverwriteState\":"@) is Some {
        let j1 = p_lit(s, i, "{\"OverwriteState\":"@)->Some_0;
        match p_snapshot(s, j1) {
            None => None,
            Some((snap, j2)) => match p_lit(s, j2, "}"@) {
                None => None,
                Some(j3) => Some((OpKindV::OverwriteState(snap), j3)),
            },
        }
    } else if p_lit(s, i, "{\"InsLiveTask\":"@) is Some {
        let j1 = p_lit(s, i, "{\"InsLiveTask\":"@)->Some_0;
        match p_two_string_payload(s, j1, "{\"id\":"@, ",\"value\":"@) {
            None => None,
            Some((id, value, j2)) => Some((OpKindV::InsLiveTask { id, value }, j2)),
        }
    } else if p_lit(s, i, "{\"EditLiveTask\":"@) is Some {
        let j1 = p_lit(s, i, "{\"EditLiveTask\":"@)->Some_0;
        match p_two_string_payload(s, j1, "{\"id\":"@, ",\"value\":"@) {
            None => None,
            Some((id, value, j2)) => Some((OpKindV::EditLiveTask { id, value }, j2)),
        }
    } else if p_lit(s, i, "{\"DelLiveTask\":"@) is Some {
        let j1 = p_lit(s, i, "{\"DelLiveTask\":"@)->Some_0;
        match p_id_payload(s, j1) {
            None => None,
            Some((id, j2)) => Some((OpKindV::DelLiveTask { id }, j2)),
        }
    } else if p_lit(s, i, "{\"FinishLiveTask\":"@) is Some {
        let j1 = p_lit(s, i, "{\"FinishLiveTask\":"@)->Some_0;
        match p_lit(s, j1, "{\"id\":"@) {
            None => None,
            Some(j2) => match p_string(s, j2) {
                None => None,
                Some((id, j3)) => match p_lit(s, j3, ",\"status\":"@) {
                    None => None,
                    Some(j4) => match p_status(s, j4) {
                        None => None,
                        Some((status, j5)) => match p_lit(s, j5, "}}"@) {
                            None => None,
                            Some(j6) => Some((OpKindV::FinishLiveTask { id, status }, j6)),
                        },
                    },
                },
            },
        }
    } else if p_lit(s, i, "{\"RestoreFinishedTask\":"@) is Some {
        let j1 = p_lit(s, i, "{\"RestoreFinishedTask\":"@)->Some_0;
        match p_id_payload(s, j1) {
            None => None,
            Some((id, j2)) => Some((OpKindV::RestoreFinishedTask { id }, j2)),
        }
    } else if p_lit(s, i, "{\"MvLiveTask\":"@) is Some {
        let j1 = p_lit(s, i, "{\"MvLiveTask\":"@)->Some_0;
        match p_two_string_payload(s, j1, "{\"id_del\":"@, ",\"id_ins\":"@) {
            None => None,
            Some((id_del, id_ins, j2)) => Some((OpKindV::MvLiveTask { id_del, id_ins }, j2)),
        }
    } else if p_lit(s, i, "{\"RevLiveTask\":"@) is Some {
        let j1 = p_lit(s, i, "{\"RevLiveTask\":"@)->Some_0;
        match p_two_string_payload(s, j1, "{\"id1\":"@, ",\"id2\":"@) {
            None => None,
            Some((id1, id2, j2)) => Some((OpKindV::RevLiveTask { id1, id2 }, j2)),
        }
    } else {
        None
    }
}

/// Reads a whole operation payload: the full form with the time first,
/// else the form with the kind alone, whose time is zero. The text must
/// end with the object.
pub open spec fn parse_op(s: Seq<char>) -> Option<OpV> {
    if p_lit(s, 0, "{\"alleged_time\":"@) is Some {
        let j1 = p_lit(s, 0, "{\"alleged_time\":"@)->Some_0;
        match p_u64(s, j1) {
            None => None,
            Some((t, j2)) => match p_lit(s, j2, ",\"kind\":"@) {
                None => None,
                Some(j3) => match p_kind(s, j3) {
                    None => None,
                    Some((kind, j4)) => match p_lit(s, j4, "}"@) {
                        None => None,
                        Some(j5) => if j5 == s.len() {
                            Some(OpV { alleged_time: t, kind })
                        } else {
                            None
                        },
                    },
                },
            },
        }
    } else if p_lit(s, 0, "{\"kind\":"@) is Some {
        let j1 = p_lit(s, 0, "{\"kind\":"@)->Some_0;
        match p_kind(s, j1) {
            None => None,
            Some((kind, j2)) => match p_lit(s, j2, "}"@) {
                None => None,
                Some(j3) => if j3 == s.len() {
                    Some(OpV { alleged_time: 0, kind })
                } else {
                    None
                },
            },
        }
    } else {
        None
    }
}


// ---------------------------------------------------------------------
// The printer and the parser agree
// ---------------------------------------------------------------------
/// Powers of ten.
pub open spec fn pow10(k: nat) -> int
    decreases k,
{
    if k == 0 {
        1
    } else {
        10 * pow10((k - 1) as nat)
    }
}

proof fn lemma_pow10_pos(k: nat)
    ensures
        pow10(k) >= 1,
    decreases k,
{
    if k > 0 {
        lemma_pow10_pos((k - 1) as nat);
    }
}

/// When a stretch of the text holds a concatenation, its two halves
/// hold the parts.
proof fn lemma_sub_align(full: Seq<char>, i: int, a: Seq<char>, b: Seq<char>)
    requires
        0 <= i,
        i + a.len() + b.len() <= full.len(),
        full.subrange(i, i + a.len() + b.len()) == a + b,
    ensures
        full.subrange(i, i + a.len()) == a,
        full.subrange(i + a.len(), i + a.len() + b.len()) == b,
{
    let ab = a + b;
    assert forall|k: int| 0 <= k < ab.len() implies full[i + k] == ab[k] by {
        assert(full.subrange(i, i + ab.len())[k] == full[i + k]);
    }
    assert forall|k: int| 0 <= k < a.len() implies full.subrange(i, i + a.len())[k] == a[k] by {
        assert(full.subrange(i, i + a.len())[k] == full[i + k]);
        assert(ab[k] == a[k]);
    }
    assert(full.subrange(i, i + a.len()) =~= a);
    assert forall|k: int| 0 <= k < b.len() implies full.subrange(
        i + a.len(),
        i + a.len() + b.len(),
    )[k] == b[k] by {
        assert(full.subrange(i + a.len(), i + a.len() + b.len())[k] == full[i + a.len() + k]);
        assert(ab[a.len() + k] == b[k]);
    }
    assert(full.subrange(i + a.len(), i + a.len() + b.len()) =~= b);
}

/// The text of a stretch that holds a printed form gives each of its
/// characters.
proof fn lemma_sub_index(full: Seq<char>, i: int, a: Seq<char>)
    requires
        0 <= i,
        i + a.len() <= full.len(),
        full.subrange(i, i + a.len()) == a,
    ensures
        forall|k: int| 0 <= k < a.len() ==> full[i + k] == a[k],
{
    assert forall|k: int| 0 <= k < a.len() implies full[i + k] == a[k] by {
        assert(full.subrange(i, i + a.len())[k] == full[i + k]);
    }
}

/// The decimal digits of a number: at least one, all digits, no
/// leading zero unless the number is zero.
proof fn lemma_dec_props(n: nat)
    ensures
        dec(n).len() >= 1,
        forall|k: int| 0 <= k < dec(n).len() ==> is_digit(#[trigger] dec(n)[k]),
        n >= 1 ==> dec(n)[0] != '0',
        n < 10 ==> dec(n).len() == 1,
    decreases n,
{
    if n < 10 {
        assert(dec(n) == seq![dec_digit(n as int)]);
    } else {
        lemma_dec_props(n / 10);
        let prefix = dec(n / 10);
        assert forall|k: int| 0 <= k < dec(n).len() implies is_digit(#[trigger] dec(n)[k]) by {
            if k < prefix.len() {
                assert(dec(n)[k] == prefix[k]);
            } else {
                assert(dec(n)[k] == dec_digit((n % 10) as int));
            }
        }
        assert(dec(n)[0] == prefix[0]);
    }
}

/// The value of the digit character with value `d` is `d`.
proof fn lemma_digit_val_dec_digit(d: int)
    requires
        0 <= d < 10,
    ensures
        digit_val(dec_digit(d)) == d,
        is_digit(dec_digit(d)),
{
}

/// Reading the digits of a number back gives the number.
proof fn lemma_dec_val_of_dec(n: nat)
    ensures
        dec_val(dec(n)) == n,
    decreases n,
{
    if n < 10 {
        assert(dec(n) == seq![dec_digit(n as int)]);
        assert(dec(n).drop_last() =~= Seq::<char>::empty());
        assert(dec_val(Seq::<char>::empty()) == 0);
        lemma_digit_val_dec_digit(n as int);
    } else {
        lemma_dec_val_of_dec(n / 10);
        assert(dec(n).drop_last() =~= dec(n / 10));
        assert(dec(n).last() == dec_digit((n % 10) as int));
        lemma_digit_val_dec_digit((n % 10) as int);
    }
}

/// The value of a digit string, taken from the front.
proof fn lemma_dec_val_cons(t: Seq<char>)
    requires
        t.len() >= 1,
    ensures
        dec_val(t) == digit_val(t[0]) * pow10((t.len() - 1) as nat) + dec_val(t.drop_first()),
    decreases t.len(),
{
    if t.len() == 1 {
        assert(t.drop_last() =~= Seq::<char>::empty());
        assert(t.drop_first() =~= Seq::<char>::empty());
    } else {
        let u = t.drop_last();
        lemma_dec_val_cons(u);
        assert(u[0] == t[0]);
        assert(u.drop_first() =~= t.drop_first().drop_last());
        assert(t.drop_first().last() == t.last());
        let l1 = (t.len() - 2) as nat;
        assert(dec_val(t) == dec_val(u) * 10 + digit_val(t.last()));
        assert(dec_val(u) == digit_val(t[0]) * pow10(l1) + dec_val(t.drop_first().drop_last()));
        assert((digit_val(t[0]) * pow10(l1) + dec_val(t.drop_first().drop_last())) * 10
            == digit_val(t[0]) * (pow10(l1) * 10) + dec_val(t.drop_first().drop_last()) * 10)
            by (nonlinear_arith);
        assert(pow10(l1) * 10 == pow10((t.len() - 1) as nat));
        assert(dec_val(t.drop_first()) == dec_val(t.drop_first().drop_last()) * 10 + digit_val(
            t.drop_first().last(),
        ));
    }
}

/// Digit strings have non-negative values.
proof fn lemma_dec_val_ge0(t: Seq<char>)
    requires
        forall|k: int| 0 <= k < t.len() ==> is_digit(#[trigger] t[k]),
    ensures
        dec_val(t) >= 0,
    decreases t.len(),
{
    if t.len() > 0 {
        assert(forall|k: int| 0 <= k < t.drop_last().len() ==> is_digit(
            #[trigger] t.drop_last()[k],
        ));
        lemma_dec_val_ge0(t.drop_last());
    }
}

/// What the digit-accumulating loop yields on a stretch of digits
/// bounded by a non-digit: the whole value when it fits, nothing when
/// it does not.
proof fn lemma_p_u64_loop_total(s: Seq<char>, i: int, e: int, acc: u64)
    requires
        0 <= i <= e <= s.len(),
        forall|k: int| i <= k < e ==> is_digit(#[trigger] s[k]),
        e == s.len() || !is_digit(s[e]),
    ensures
        ({
            let total = acc * pow10((e - i) as nat) + dec_val(s.subrange(i, e));
            if total <= u64::MAX {
                p_u64_loop(s, i, acc) == Some((total as u64, e))
            } else {
                p_u64_loop(s, i, acc) is None
            }
        }),
    decreases e - i,
{
    let d = s.subrange(i, e);
    assert(forall|k: int| 0 <= k < d.len() ==> is_digit(#[trigger] d[k]));
    lemma_dec_val_ge0(d);
    if i == e {
        assert(d =~= Seq::<char>::empty());
        assert(acc * pow10(0) + dec_val(d) == acc);
    } else {
        let dv = digit_val(s[i]);
        let rest = s.subrange(i + 1, e);
        lemma_dec_val_cons(d);
        assert(d[0] == s[i]);
        assert(d.drop_first() =~= rest);
        let l1 = (e - i - 1) as nat;
        lemma_pow10_pos(l1);
        assert(forall|k: int| 0 <= k < rest.len() ==> is_digit(#[trigger] rest[k]));
        lemma_dec_val_ge0(rest);
        let total = acc * pow10((e - i) as nat) + dec_val(d);
        let acc2 = acc * 10 + dv;
        assert(acc * pow10((e - i) as nat) == (acc * 10) * pow10(l1)) by (nonlinear_arith)
            requires
                pow10((e - i) as nat) == 10 * pow10(l1),
        ;
        assert(total == acc2 * pow10(l1) + dec_val(rest)) by (nonlinear_arith)
            requires
                acc * pow10((e - i) as nat) == (acc * 10) * pow10(l1),
                dec_val(d) == dv * pow10(l1) + dec_val(rest),
                total == acc * pow10((e - i) as nat) + dec_val(d),
                acc2 == acc * 10 + dv,
        ;
        if acc2 <= u64::MAX {
            lemma_p_u64_loop_total(s, i + 1, e, acc2 as u64);
        } else {
            assert(acc2 * pow10(l1) >= acc2) by (nonlinear_arith)
                requires
                    pow10(l1) >= 1,
                    acc2 >= 0,
            ;
            assert(total > u64::MAX);
        }
    }
}

/// Reading a printed number back, with a non-digit after it, yields
/// the number.
proof fn lemma_p_u64_of_dec(s: Seq<char>, i: int, n: u64)
    requires
        0 <= i,
        i + dec(n as nat).len() <= s.len(),
        s.subrange(i, i + dec(n as nat).len()) == dec(n as nat),
        i + dec(n as nat).len() == s.len() || !is_digit(s[i + dec(n as nat).len()]),
    ensures
        p_u64(s, i) == Some((n, i + dec(n as nat).len())),
{
    let d = dec(n as nat);
    let e = i + d.len();
    lemma_dec_props(n as nat);
    lemma_sub_index(s, i, d);
    assert forall|k: int| i <= k < e implies is_digit(#[trigger] s[k]) by {
        assert(s[k] == d[k - i]);
        assert(is_digit(d[k - i]));
    }
    assert(s[i] == d[0]);
    assert(is_digit(s[i]));
    if s[i] == '0' {
        assert(n == 0);
        assert(d.len() == 1);
    }
    assert(s.subrange(i, e) == d);
    lemma_p_u64_loop_total(s, i, e, 0);
    lemma_dec_val_of_dec(n as nat);
    assert(0 * pow10((e - i) as nat) + dec_val(d) == n);
}



/// Hexadecimal digits read back as their values.
proof fn lemma_hex_digit(x: int)
    requires
        0 <= x < 16,
    ensures
        is_hex(hex_digit(x)),
        hex_val(hex_digit(x)) == x,
{
}

/// Reading an escaped string body back, up to the closing quote,
/// yields the original characters.
proof fn lemma_p_str_body_of_esc(content: Seq<char>, full: Seq<char>, i: int)
    requires
        0 <= i,
        i + esc(content).len() < full.len(),
        full.subrange(i, i + esc(content).len()) == esc(content),
        full[i + esc(content).len()] == '"',
    ensures
        p_str_body(full, i) == Some((content, i + esc(content).len() + 1)),
    decreases content.len(),
{
    if content.len() == 0 {
        assert(esc(content).len() == 0);
    } else {
        let c = content[0];
        let rest = content.drop_first();
        assert(esc(content) == esc_char(c) + esc(rest));
        lemma_sub_align(full, i, esc_char(c), esc(rest));
        lemma_sub_index(full, i, esc_char(c));
        let i2 = i + esc_char(c).len();
        lemma_p_str_body_of_esc(rest, full, i2);
        assert(seq![c] + rest =~= content);
        if c == '"' {
            assert(full[i] == '\\' && full[i + 1] == '"');
        } else if c == '\\' {
            assert(full[i] == '\\' && full[i + 1] == '\\');
        } else if c == '\n' {
            assert(full[i] == '\\' && full[i + 1] == 'n');
        } else if c == '\r' {
            assert(full[i] == '\\' && full[i + 1] == 'r');
        } else if c == '\t' {
            assert(full[i] == '\\' && full[i + 1] == 't');
        } else if c as u32 == 8 {
            assert(full[i] == '\\' && full[i + 1] == 'b');
            assert((8u32 as char) == c) by {
                vstd::utf8::char_u32_cast(c, 8u32);
            }
        } else if c as u32 == 12 {
            assert(full[i] == '\\' && full[i + 1] == 'f');
            assert((12u32 as char) == c) by {
                vstd::utf8::char_u32_cast(c, 12u32);
            }
        } else if (c as u32) < 32 {
            let hi = c as u32 as int / 16;
            let lo = c as u32 as int % 16;
            assert(full[i] == '\\' && full[i + 1] == 'u' && full[i + 2] == '0' && full[i + 3]
                == '0' && full[i + 4] == hex_digit(hi) && full[i + 5] == hex_digit(lo));
            lemma_hex_digit(hi);
            lemma_hex_digit(lo);
            let v = hex_val(full[i + 2]) * 4096 + hex_val(full[i + 3]) * 256 + hex_val(
                full[i + 4],
            ) * 16 + hex_val(full[i + 5]);
            assert(hex_val('0') == 0);
            assert(v == hi * 16 + lo);
            assert(v == c as u32);
            assert((v as u32) as char == c) by {
                vstd::utf8::char_u32_cast(c, v as u32);
            }
        } else {
            assert(full[i] == c);
            assert(c != '"' && c != '\\');
        }
    }
}

/// Reading a printed JSON string back yields the original characters.
proof fn lemma_p_string_of_jstr(full: Seq<char>, i: int, content: Seq<char>)
    requires
        0 <= i,
        i + jstr(content).len() <= full.len(),
        full.subrange(i, i + jstr(content).len()) == jstr(content),
    ensures
        p_string(full, i) == Some((content, i + jstr(content).len())),
{
    let tail = esc(content) + seq!['"'];
    assert(jstr(content) =~= seq!['"'] + tail);
    lemma_sub_align(full, i, seq!['"'], tail);
    lemma_sub_align(full, i + 1, esc(content), seq!['"']);
    let q = i + 1 + esc(content).len();
    assert(full[i] == '"') by {
        assert(full.subrange(i, i + 1)[0] == full[i]);
    }
    assert(full[q] == '"') by {
        assert(full.subrange(q, q + 1)[0] == full[q]);
    }
    lemma_p_str_body_of_esc(content, full, i + 1);
}



/// A literal that the text holds at this position is consumed.
proof fn lemma_p_lit_here(full: Seq<char>, i: int, tok: Seq<char>)
    requires
        0 <= i,
        i + tok.len() <= full.len(),
        full.subrange(i, i + tok.len()) == tok,
    ensures
        p_lit(full, i, tok) == Some(i + tok.len()),
{
}

/// A literal that differs from the text at some position is refused.
proof fn lemma_p_lit_fails(full: Seq<char>, i: int, tok: Seq<char>, m: int)
    requires
        0 <= i,
        0 <= m < tok.len(),
        i + m < full.len(),
        full[i + m] != tok[m],
    ensures
        p_lit(full, i, tok) is None,
{
    if i + tok.len() <= full.len() && full.subrange(i, i + tok.len()) == tok {
        assert(full.subrange(i, i + tok.len())[m] == full[i + m]);
    }
}

/// One character of a stretch that holds a printed form.
proof fn lemma_char_at(full: Seq<char>, i: int, a: Seq<char>, k: int)
    requires
        0 <= i,
        i + a.len() <= full.len(),
        full.subrange(i, i + a.len()) == a,
        0 <= k < a.len(),
    ensures
        full[i + k] == a[k],
{
    assert(full.subrange(i, i + a.len())[k] == full[i + k]);
}

/// Reading a printed status back yields the status.
proof fn lemma_p_status_of_print(full: Seq<char>, i: int, st: TaskStatus)
    requires
        0 <= i,
        i + print_status(st).len() <= full.len(),
        full.subrange(i, i + print_status(st).len()) == print_status(st),
    ensures
        p_status(full, i) == Some((st, i + print_status(st).len())),
{
    reveal_strlit("\"Succeeded\"");
    reveal_strlit("\"Failed\"");
    reveal_strlit("\"Obsoleted\"");
    match st {
        TaskStatus::Succeeded => {
            lemma_p_lit_here(full, i, "\"Succeeded\""@);
        },
        TaskStatus::Failed => {
            lemma_char_at(full, i, print_status(st), 1);
            lemma_p_lit_fails(full, i, "\"Succeeded\""@, 1);
            lemma_p_lit_here(full, i, "\"Failed\""@);
        },
        TaskStatus::Obsoleted => {
            lemma_char_at(full, i, print_status(st), 1);
            lemma_p_lit_fails(full, i, "\"Succeeded\""@, 1);
            lemma_p_lit_fails(full, i, "\"Failed\""@, 1);
            lemma_p_lit_here(full, i, "\"Obsoleted\""@);
        },
    }
}

/// Reading a printed live task back yields the task.
proof fn lemma_p_live_task_of_print(full: Seq<char>, i: int, t: LiveTaskV)
    requires
        0 <= i,
        i + print_live_task(t).len() <= full.len(),
        full.subrange(i, i + print_live_task(t).len()) == print_live_task(t),
    ensures
        p_live_task(full, i) == Some((t, i + print_live_task(t).len())),
{
    let k1 = "{\"id\":"@;
    let k2 = ",\"value\":"@;
    let k3 = "}"@;
    let r1 = jstr(t.id) + k2 + jstr(t.value) + k3;
    assert(print_live_task(t) =~= k1 + r1);
    lemma_sub_align(full, i, k1, r1);
    lemma_p_lit_here(full, i, k1);
    let j1 = i + k1.len();
    let r2 = k2 + jstr(t.value) + k3;
    assert(r1 =~= jstr(t.id) + r2);
    lemma_sub_align(full, j1, jstr(t.id), r2);
    lemma_p_string_of_jstr(full, j1, t.id);
    let j2 = j1 + jstr(t.id).len();
    let r3 = jstr(t.value) + k3;
    assert(r2 =~= k2 + r3);
    lemma_sub_align(full, j2, k2, r3);
    lemma_p_lit_here(full, j2, k2);
    let j3 = j2 + k2.len();
    lemma_sub_align(full, j3, jstr(t.value), k3);
    lemma_p_string_of_jstr(full, j3, t.value);
    let j4 = j3 + jstr(t.value).len();
    lemma_p_lit_here(full, j4, k3);
    assert(LiveTaskV { id: t.id, value: t.value } == t);
}

/// Reading a printed finished task back yields the task.
proof fn lemma_p_fin_task_of_print(full: Seq<char>, i: int, t: FinishedTaskV)
    requires
        0 <= i,
        i + print_fin_task(t).len() <= full.len(),
        full.subrange(i, i + print_fin_task(t).len()) == print_fin_task(t),
    ensures
        p_fin_task(full, i) == Some((t, i + print_fin_task(t).len())),
{
    let k1 = "{\"id\":"@;
    let k2 = ",\"value\":"@;
    let k3 = ",\"status\":"@;
    let k4 = "}"@;
    let r1 = jstr(t.id) + k2 + jstr(t.value) + k3 + print_status(t.status) + k4;
    assert(print_fin_task(t) =~= k1 + r1);
    lemma_sub_align(full, i, k1, r1);
    lemma_p_lit_here(full, i, k1);
    let j1 = i + k1.len();
    let r2 = k2 + jstr(t.value) + k3 + print_status(t.status) + k4;
    assert(r1 =~= jstr(t.id) + r2);
    lemma_sub_align(full, j1, jstr(t.id), r2);
    lemma_p_string_of_jstr(full, j1, t.id);
    let j2 = j1 + jstr(t.id).len();
    let r3 = jstr(t.value) + k3 + print_status(t.status) + k4;
    assert(r2 =~= k2 + r3);
    lemma_sub_align(full, j2, k2, r3);
    lemma_p_lit_here(full, j2, k2);
    let j3 = j2 + k2.len();
    let r4 = k3 + print_status(t.status) + k4;
    assert(r3 =~= jstr(t.value) + r4);
    lemma_sub_align(full, j3, jstr(t.value), r4);
    lemma_p_string_of_jstr(full, j3, t.value);
    let j4 = j3 + jstr(t.value).len();
    let r5 = print_status(t.status) + k4;
    assert(r4 =~= k3 + r5);
    lemma_sub_align(full, j4, k3, r5);
    lemma_p_lit_here(full, j4, k3);
    let j5 = j4 + k3.len();
    lemma_sub_align(full, j5, print_status(t.status), k4);
    lemma_p_status_of_print(full, j5, t.status);
    let j6 = j5 + print_status(t.status).len();
    lemma_p_lit_here(full, j6, k4);
    assert(FinishedTaskV { id: t.id, value: t.value, status: t.status } == t);
}

/// Reading printed live-task items back, with the closing bracket
/// after them, yields the items.
proof fn lemma_p_live_items_of_print(full: Seq<char>, i: int, ts: Seq<LiveTaskV>)
    requires
        0 <= i,
        ts.len() >= 1,
        i + print_live_items(ts).len() < full.len(),
        full.subrange(i, i + print_live_items(ts).len()) == print_live_items(ts),
        full[i + print_live_items(ts).len()] == ']',
    ensures
        p_live_items(full, i) == Some((ts, i + print_live_items(ts).len() + 1)),
    decreases ts.len(),
{
    let t0 = print_live_task(ts[0]);
    if ts.len() == 1 {
        lemma_p_live_task_of_print(full, i, ts[0]);
        let j = i + t0.len();
        assert(full[j] == ']');
        assert(seq![ts[0]] =~= ts);
    } else {
        let comma = ","@;
        let rest = print_live_items(ts.drop_first());
        let r1 = comma + rest;
        assert(print_live_items(ts) =~= t0 + r1);
        lemma_sub_align(full, i, t0, r1);
        lemma_p_live_task_of_print(full, i, ts[0]);
        let j = i + t0.len();
        lemma_sub_align(full, j, comma, rest);
        reveal_strlit(",");
        lemma_char_at(full, j, comma, 0);
        assert(full[j] == ',');
        lemma_p_live_items_of_print(full, j + 1, ts.drop_first());
        assert(seq![ts[0]] + ts.drop_first() =~= ts);
    }
}

/// Reading printed finished-task items back yields the items.
proof fn lemma_p_fin_items_of_print(full: Seq<char>, i: int, ts: Seq<FinishedTaskV>)
    requires
        0 <= i,
        ts.len() >= 1,
        i + print_fin_items(ts).len() < full.len(),
        full.subrange(i, i + print_fin_items(ts).len()) == print_fin_items(ts),
        full[i + print_fin_items(ts).len()] == ']',
    ensures
        p_fin_items(full, i) == Some((ts, i + print_fin_items(ts).len() + 1)),
    decreases ts.len(),
{
    let t0 = print_fin_task(ts[0]);
    if ts.len() == 1 {
        lemma_p_fin_task_of_print(full, i, ts[0]);
        let j = i + t0.len();
        assert(full[j] == ']');
        assert(seq![ts[0]] =~= ts);
    } else {
        let comma = ","@;
        let rest = print_fin_items(ts.drop_first());
        let r1 = comma + rest;
        assert(print_fin_items(ts) =~= t0 + r1);
        lemma_sub_align(full, i, t0, r1);
        lemma_p_fin_task_of_print(full, i, ts[0]);
        let j = i + t0.len();
        lemma_sub_align(full, j, comma, rest);
        reveal_strlit(",");
        lemma_char_at(full, j, comma, 0);
        assert(full[j] == ',');
        lemma_p_fin_items_of_print(full, j + 1, ts.drop_first());
        assert(seq![ts[0]] + ts.drop_first() =~= ts);
    }
}

/// Reading a printed live-task array back yields the list.
proof fn lemma_p_live_list_of_print(full: Seq<char>, i: int, ts: Seq<LiveTaskV>)
    requires
        0 <= i,
        i + print_live_list(ts).len() <= full.len(),
        full.subrange(i, i + print_live_list(ts).len()) == print_live_list(ts),
    ensures
        p_live_list(full, i) == Some((ts, i + print_live_list(ts).len())),
{
    reveal_strlit("[]");
    reveal_strlit("[");
    reveal_strlit("{\"id\":");
    if ts.len() == 0 {
        lemma_p_lit_here(full, i, "[]"@);
        assert(Seq::<LiveTaskV>::empty() =~= ts);
    } else {
        let open = "["@;
        let close = "]"@;
        let items = print_live_items(ts);
        let r1 = items + close;
        assert(print_live_list(ts) =~= open + r1);
        lemma_sub_align(full, i, open, r1);
        lemma_sub_align(full, i + 1, items, close);
        reveal_strlit("]");
        lemma_char_at(full, i + 1 + items.len(), close, 0);
        assert(items[0] == print_live_task(ts[0])[0]);
        assert(print_live_task(ts[0])[0] == '{');
        lemma_char_at(full, i + 1, items, 0);
        lemma_p_lit_fails(full, i, "[]"@, 1);
        lemma_p_lit_here(full, i, "["@);
        lemma_p_live_items_of_print(full, i + 1, ts);
    }
}

/// Reading a printed finished-task array back yields the list.
proof fn lemma_p_fin_list_of_print(full: Seq<char>, i: int, ts: Seq<FinishedTaskV>)
    requires
        0 <= i,
        i + print_fin_list(ts).len() <= full.len(),
        full.subrange(i, i + print_fin_list(ts).len()) == print_fin_list(ts),
    ensures
        p_fin_list(full, i) == Some((ts, i + print_fin_list(ts).len())),
{
    reveal_strlit("[]");
    reveal_strlit("[");
    reveal_strlit("{\"id\":");
    if ts.len() == 0 {
        lemma_p_lit_here(full, i, "[]"@);
        assert(Seq::<FinishedTaskV>::empty() =~= ts);
    } else {
        let open = "["@;
        let close = "]"@;
        let items = print_fin_items(ts);
        let r1 = items + close;
        assert(print_fin_list(ts) =~= open + r1);
        lemma_sub_align(full, i, open, r1);
        lemma_sub_align(full, i + 1, items, close);
        reveal_strlit("]");
        lemma_char_at(full, i + 1 + items.len(), close, 0);
        assert(items[0] == print_fin_task(ts[0])[0]);
        assert(print_fin_task(ts[0])[0] == '{');
        lemma_char_at(full, i + 1, items, 0);
        lemma_p_lit_fails(full, i, "[]"@, 1);
        lemma_p_lit_here(full, i, "["@);
        lemma_p_fin_items_of_print(full, i + 1, ts);
    }
}

/// Reading a printed snapshot back yields the snapshot.
#[verifier::rlimit(60)]
proof fn lemma_p_snapshot_of_print(full: Seq<char>, i: int, s: SnapshotV)
    requires
        0 <= i,
        i + print_snapshot(s).len() <= full.len(),
        full.subrange(i, i + print_snapshot(s).len()) == print_snapshot(s),
    ensures
        p_snapshot(full, i) == Some((s, i + print_snapshot(s).len())),
{
    let k1 = "{\"live\":"@;
    let k2 = ",\"finished\":"@;
    let k3 = "}"@;
    let ll = print_live_list(s.live);
    let fl = print_fin_list(s.finished);
    let r1 = ll + k2 + fl + k3;
    assert(print_snapshot(s) =~= k1 + r1);
    lemma_sub_align(full, i, k1, r1);
    lemma_p_lit_here(full, i, k1);
    let j1 = i + k1.len();
    let r2 = k2 + fl + k3;
    assert(r1 =~= ll + r2);
    lemma_sub_align(full, j1, ll, r2);
    lemma_p_live_list_of_print(full, j1, s.live);
    let j2 = j1 + ll.len();
    let r3 = fl + k3;
    assert(r2 =~= k2 + r3);
    lemma_sub_align(full, j2, k2, r3);
    lemma_p_lit_here(full, j2, k2);
    let j3 = j2 + k2.len();
    lemma_sub_align(full, j3, fl, k3);
    lemma_p_fin_list_of_print(full, j3, s.finished);
    let j4 = j3 + fl.len();
    lemma_p_lit_here(full, j4, k3);
    assert(SnapshotV { live: s.live, finished: s.finished } == s);
}

/// Reading a printed two-string payload back yields the two strings.
proof fn lemma_p_two_string_of_print(
    full: Seq<char>,
    i: int,
    key1: Seq<char>,
    key2: Seq<char>,
    a: Seq<char>,
    b: Seq<char>,
)
    requires
        0 <= i,
        i + (key1 + jstr(a) + key2 + jstr(b) + "}}"@).len() <= full.len(),
        full.subrange(i, i + (key1 + jstr(a) + key2 + jstr(b) + "}}"@).len()) == key1 + jstr(a)
            + key2 + jstr(b) + "}}"@,
    ensures
        p_two_string_payload(full, i, key1, key2) == Some(
            (a, b, i + (key1 + jstr(a) + key2 + jstr(b) + "}}"@).len()),
        ),
{
    let k3 = "}}"@;
    let whole = key1 + jstr(a) + key2 + jstr(b) + k3;
    let r1 = jstr(a) + key2 + jstr(b) + k3;
    assert(whole =~= key1 + r1);
    lemma_sub_align(full, i, key1, r1);
    lemma_p_lit_here(full, i, key1);
    let j1 = i + key1.len();
    let r2 = key2 + jstr(b) + k3;
    assert(r1 =~= jstr(a) + r2);
    lemma_sub_align(full, j1, jstr(a), r2);
    lemma_p_string_of_jstr(full, j1, a);
    let j2 = j1 + jstr(a).len();
    let r3 = jstr(b) + k3;
    assert(r2 =~= key2 + r3);
    lemma_sub_align(full, j2, key2, r3);
    lemma_p_lit_here(full, j2, key2);
    let j3 = j2 + key2.len();
    lemma_sub_align(full, j3, jstr(b), k3);
    lemma_p_string_of_jstr(full, j3, b);
    let j4 = j3 + jstr(b).len();
    lemma_p_lit_here(full, j4, k3);
}

/// Reading a printed id-only payload back yields the id.
proof fn lemma_p_id_payload_of_print(full: Seq<char>, i: int, id: Seq<char>)
    requires
        0 <= i,
        i + ("{\"id\":"@ + jstr(id) + "}}"@).len() <= full.len(),
        full.subrange(i, i + ("{\"id\":"@ + jstr(id) + "}}"@).len()) == "{\"id\":"@ + jstr(id)
            + "}}"@,
    ensures
        p_id_payload(full, i) == Some((id, i + ("{\"id\":"@ + jstr(id) + "}}"@).len())),
{
    let k1 = "{\"id\":"@;
    let k2 = "}}"@;
    let whole = k1 + jstr(id) + k2;
    let r1 = jstr(id) + k2;
    assert(whole =~= k1 + r1);
    lemma_sub_align(full, i, k1, r1);
    lemma_p_lit_here(full, i, k1);
    let j1 = i + k1.len();
    lemma_sub_align(full, j1, jstr(id), k2);
    lemma_p_string_of_jstr(full, j1, id);
    let j2 = j1 + jstr(id).len();
    lemma_p_lit_here(full, j2, k2);
}



/// The tags of the earlier variant names fail on this printed kind.
proof fn lemma_earlier_tags_fail(full: Seq<char>, i: int, k: OpKindV)
    requires
        0 <= i,
        i + print_kind(k).len() <= full.len(),
        full.subrange(i, i + print_kind(k).len()) == print_kind(k),
        !(k is OverwriteState),
    ensures
        k is InsLiveTask ==> p_lit(full, i, "{\"OverwriteState\":"@) is None,
        k is EditLiveTask ==> p_lit(full, i, "{\"OverwriteState\":"@) is None && p_lit(
            full,
            i,
            "{\"InsLiveTask\":"@,
        ) is None,
        k is DelLiveTask ==> p_lit(full, i, "{\"OverwriteState\":"@) is None && p_lit(
            full,
            i,
            "{\"InsLiveTask\":"@,
        ) is None && p_lit(full, i, "{\"EditLiveTask\":"@) is None,
        k is FinishLiveTask ==> p_lit(full, i, "{\"OverwriteState\":"@) is None && p_lit(
            full,
            i,
            "{\"InsLiveTask\":"@,
        ) is None && p_lit(full, i, "{\"EditLiveTask\":"@) is None && p_lit(
            full,
            i,
            "{\"DelLiveTask\":"@,
        ) is None,
        k is RestoreFinishedTask ==> p_lit(full, i, "{\"OverwriteState\":"@) is None && p_lit(
            full,
            i,
            "{\"InsLiveTask\":"@,
        ) is None && p_lit(full, i, "{\"EditLiveTask\":"@) is None && p_lit(
            full,
            i,
            "{\"DelLiveTask\":"@,
        ) is None && p_lit(full, i, "{\"FinishLiveTask\":"@) is None,
        k is MvLiveTask ==> p_lit(full, i, "{\"OverwriteState\":"@) is None && p_lit(
            full,
            i,
            "{\"InsLiveTask\":"@,
        ) is None && p_lit(full, i, "{\"EditLiveTask\":"@) is None && p_lit(
            full,
            i,
            "{\"DelLiveTask\":"@,
        ) is None && p_lit(full, i, "{\"FinishLiveTask\":"@) is None && p_lit(
            full,
            i,
            "{\"RestoreFinishedTask\":"@,
        ) is None,
        k is RevLiveTask ==> p_lit(full, i, "{\"OverwriteState\":"@) is None && p_lit(
            full,
            i,
            "{\"InsLiveTask\":"@,
        ) is None && p_lit(full, i, "{\"EditLiveTask\":"@) is None && p_lit(
            full,
            i,
            "{\"DelLiveTask\":"@,
        ) is None && p_lit(full, i, "{\"FinishLiveTask\":"@) is None && p_lit(
            full,
            i,
            "{\"RestoreFinishedTask\":"@,
        ) is None && p_lit(full, i, "{\"MvLiveTask\":"@) is None,
{
    reveal_strlit("{\"OverwriteState\":");
    reveal_strlit("{\"InsLiveTask\":");
    reveal_strlit("{\"EditLiveTask\":");
    reveal_strlit("{\"DelLiveTask\":");
    reveal_strlit("{\"FinishLiveTask\":");
    reveal_strlit("{\"RestoreFinishedTask\":");
    reveal_strlit("{\"MvLiveTask\":");
    reveal_strlit("{\"RevLiveTask\":");
    lemma_char_at(full, i, print_kind(k), 2);
    lemma_char_at(full, i, print_kind(k), 4);
    match k {
        OpKindV::OverwriteState(_) => {},
        OpKindV::InsLiveTask { .. } => {
            lemma_p_lit_fails(full, i, "{\"OverwriteState\":"@, 2);
        },
        OpKindV::EditLiveTask { .. } => {
            lemma_p_lit_fails(full, i, "{\"OverwriteState\":"@, 2);
            lemma_p_lit_fails(full, i, "{\"InsLiveTask\":"@, 2);
        },
        OpKindV::DelLiveTask { .. } => {
            lemma_p_lit_fails(full, i, "{\"OverwriteState\":"@, 2);
            lemma_p_lit_fails(full, i, "{\"InsLiveTask\":"@, 2);
            lemma_p_lit_fails(full, i, "{\"EditLiveTask\":"@, 2);
        },
        OpKindV::FinishLiveTask { .. } => {
            lemma_p_lit_fails(full, i, "{\"OverwriteState\":"@, 2);
            lemma_p_lit_fails(full, i, "{\"InsLiveTask\":"@, 2);
            lemma_p_lit_fails(full, i, "{\"EditLiveTask\":"@, 2);
            lemma_p_lit_fails(full, i, "{\"DelLiveTask\":"@, 2);
        },
        OpKindV::RestoreFinishedTask { .. } => {
            lemma_p_lit_fails(full, i, "{\"OverwriteState\":"@, 2);
            lemma_p_lit_fails(full, i, "{\"InsLiveTask\":"@, 2);
            lemma_p_lit_fails(full, i, "{\"EditLiveTask\":"@, 2);
            lemma_p_lit_fails(full, i, "{\"DelLiveTask\":"@, 2);
            lemma_p_lit_fails(full, i, "{\"FinishLiveTask\":"@, 2);
        },
        OpKindV::MvLiveTask { .. } => {
            lemma_p_lit_fails(full, i, "{\"OverwriteState\":"@, 2);
            lemma_p_lit_fails(full, i, "{\"InsLiveTask\":"@, 2);
            lemma_p_lit_fails(full, i, "{\"EditLiveTask\":"@, 2);
            lemma_p_lit_fails(full, i, "{\"DelLiveTask\":"@, 2);
            lemma_p_lit_fails(full, i, "{\"FinishLiveTask\":"@, 2);
            lemma_p_lit_fails(full, i, "{\"RestoreFinishedTask\":"@, 2);
        },
        OpKindV::RevLiveTask { .. } => {
            lemma_p_lit_fails(full, i, "{\"OverwriteState\":"@, 2);
            lemma_p_lit_fails(full, i, "{\"InsLiveTask\":"@, 2);
            lemma_p_lit_fails(full, i, "{\"EditLiveTask\":"@, 2);
            lemma_p_lit_fails(full, i, "{\"DelLiveTask\":"@, 2);
            lemma_p_lit_fails(full, i, "{\"FinishLiveTask\":"@, 2);
            lemma_p_lit_fails(full, i, "{\"RestoreFinishedTask\":"@, 4);
            lemma_p_lit_fails(full, i, "{\"MvLiveTask\":"@, 2);
        },
    }
}

/// Reading a printed finish payload back yields its id and status.
proof fn lemma_p_finish_payload_of_print(
    full: Seq<char>,
    i: int,
    id: Seq<char>,
    status: TaskStatus,
)
    requires
        0 <= i,
        i + ("{\"id\":"@ + jstr(id) + ",\"status\":"@ + print_status(status) + "}}"@).len()
            <= full.len(),
        full.subrange(
            i,
            i + ("{\"id\":"@ + jstr(id) + ",\"status\":"@ + print_status(status) + "}}"@).len(),
        ) == "{\"id\":"@ + jstr(id) + ",\"status\":"@ + print_status(status) + "}}"@,
    ensures
        ({
            let e = i + ("{\"id\":"@ + jstr(id) + ",\"status\":"@ + print_status(status)
                + "}}"@).len();
            &&& p_lit(full, i, "{\"id\":"@) == Some(i + "{\"id\":"@.len())
            &&& p_string(full, i + "{\"id\":"@.len()) == Some(
                (id, i + "{\"id\":"@.len() + jstr(id).len()),
            )
            &&& ({
                let j3 = i + "{\"id\":"@.len() + jstr(id).len();
                &&& p_lit(full, j3, ",\"status\":"@) == Some(j3 + ",\"status\":"@.len())
                &&& p_status(full, j3 + ",\"status\":"@.len()) == Some(
                    (status, e - "}}"@.len()),
                )
                &&& p_lit(full, e - "}}"@.len(), "}}"@) == Some(e)
            })
        }),
{
    let k1 = "{\"id\":"@;
    let k2 = ",\"status\":"@;
    let k3 = "}}"@;
    let payload = k1 + jstr(id) + k2 + print_status(status) + k3;
    let r1 = jstr(id) + k2 + print_status(status) + k3;
    assert(payload =~= k1 + r1);
    lemma_sub_align(full, i, k1, r1);
    lemma_p_lit_here(full, i, k1);
    let j2 = i + k1.len();
    let r2 = k2 + print_status(status) + k3;
    assert(r1 =~= jstr(id) + r2);
    lemma_sub_align(full, j2, jstr(id), r2);
    lemma_p_string_of_jstr(full, j2, id);
    let j3 = j2 + jstr(id).len();
    let r3 = print_status(status) + k3;
    assert(r2 =~= k2 + r3);
    lemma_sub_align(full, j3, k2, r3);
    lemma_p_lit_here(full, j3, k2);
    let j4 = j3 + k2.len();
    lemma_sub_align(full, j4, print_status(status), k3);
    lemma_p_status_of_print(full, j4, status);
    lemma_p_lit_here(full, j4 + print_status(status).len(), k3);
}

/// Reading a printed overwrite kind back yields it.
#[verifier::rlimit(100)]
proof fn lemma_p_kind_ovw(full: Seq<char>, i: int, k: OpKindV)
    requires
        0 <= i,
        k is OverwriteState,
        i + print_kind(k).len() <= full.len(),
        full.subrange(i, i + print_kind(k).len()) == print_kind(k),
    ensures
        p_kind(full, i) == Some((k, i + print_kind(k).len())),
{
    let t_ovw = "{\"OverwriteState\":"@;
    let s = k->OverwriteState_0;
    let rest = print_snapshot(s) + "}"@;
    assert(print_kind(k) =~= t_ovw + rest);
    lemma_sub_align(full, i, t_ovw, rest);
    lemma_p_lit_here(full, i, t_ovw);
    let j1 = i + t_ovw.len();
    lemma_sub_align(full, j1, print_snapshot(s), "}"@);
    lemma_p_snapshot_of_print(full, j1, s);
    lemma_p_lit_here(full, j1 + print_snapshot(s).len(), "}"@);
}

/// Reading a printed insert kind back yields it.
#[verifier::rlimit(100)]
proof fn lemma_p_kind_ins(full: Seq<char>, i: int, k: OpKindV)
    requires
        0 <= i,
        k is InsLiveTask,
        i + print_kind(k).len() <= full.len(),
        full.subrange(i, i + print_kind(k).len()) == print_kind(k),
    ensures
        p_kind(full, i) == Some((k, i + print_kind(k).len())),
{
    lemma_earlier_tags_fail(full, i, k);
    let t_ins = "{\"InsLiveTask\":"@;
    let id = k->InsLiveTask_id;
    let value = k->InsLiveTask_value;
    let payload = "{\"id\":"@ + jstr(id) + ",\"value\":"@ + jstr(value) + "}}"@;
    assert(print_kind(k) =~= t_ins + payload);
    lemma_sub_align(full, i, t_ins, payload);
    lemma_p_lit_here(full, i, t_ins);
    lemma_p_two_string_of_print(full, i + t_ins.len(), "{\"id\":"@, ",\"value\":"@, id, value);
}

/// Reading a printed edit kind back yields it.
#[verifier::rlimit(100)]
proof fn lemma_p_kind_edit(full: Seq<char>, i: int, k: OpKindV)
    requires
        0 <= i,
        k is EditLiveTask,
        i + print_kind(k).len() <= full.len(),
        full.subrange(i, i + print_kind(k).len()) == print_kind(k),
    ensures
        p_kind(full, i) == Some((k, i + print_kind(k).len())),
{
    lemma_earlier_tags_fail(full, i, k);
    let t_edit = "{\"EditLiveTask\":"@;
    let id = k->EditLiveTask_id;
    let value = k->EditLiveTask_value;
    let payload = "{\"id\":"@ + jstr(id) + ",\"value\":"@ + jstr(value) + "}}"@;
    assert(print_kind(k) =~= t_edit + payload);
    lemma_sub_align(full, i, t_edit, payload);
    lemma_p_lit_here(full, i, t_edit);
    lemma_p_two_string_of_print(full, i + t_edit.len(), "{\"id\":"@, ",\"value\":"@, id, value);
}

/// Reading a printed delete kind back yields it.
#[verifier::rlimit(100)]
proof fn lemma_p_kind_del(full: Seq<char>, i: int, k: OpKindV)
    requires
        0 <= i,
        k is DelLiveTask,
        i + print_kind(k).len() <= full.len(),
        full.subrange(i, i + print_kind(k).len()) == print_kind(k),
    ensures
        p_kind(full, i) == Some((k, i + print_kind(k).len())),
{
    lemma_earlier_tags_fail(full, i, k);
    let t_del = "{\"DelLiveTask\":"@;
    let id = k->DelLiveTask_id;
    let payload = "{\"id\":"@ + jstr(id) + "}}"@;
    assert(print_kind(k) =~= t_del + payload);
    lemma_sub_align(full, i, t_del, payload);
    lemma_p_lit_here(full, i, t_del);
    lemma_p_id_payload_of_print(full, i + t_del.len(), id);
}

/// Reading a printed finish kind back yields it.
#[verifier::rlimit(100)]
proof fn lemma_p_kind_fin(full: Seq<char>, i: int, k: OpKindV)
    requires
        0 <= i,
        k is FinishLiveTask,
        i + print_kind(k).len() <= full.len(),
        full.subrange(i, i + print_kind(k).len()) == print_kind(k),
    ensures
        p_kind(full, i) == Some((k, i + print_kind(k).len())),
{
    lemma_earlier_tags_fail(full, i, k);
    let t_fin = "{\"FinishLiveTask\":"@;
    let id = k->FinishLiveTask_id;
    let status = k->FinishLiveTask_status;
    let payload = "{\"id\":"@ + jstr(id) + ",\"status\":"@ + print_status(status) + "}}"@;
    assert(print_kind(k) =~= t_fin + payload);
    lemma_sub_align(full, i, t_fin, payload);
    lemma_p_lit_here(full, i, t_fin);
    lemma_p_finish_payload_of_print(full, i + t_fin.len(), id, status);
}

/// Reading a printed restore kind back yields it.
#[verifier::rlimit(100)]
proof fn lemma_p_kind_res(full: Seq<char>, i: int, k: OpKindV)
    requires
        0 <= i,
        k is RestoreFinishedTask,
        i + print_kind(k).len() <= full.len(),
        full.subrange(i, i + print_kind(k).len()) == print_kind(k),
    ensures
        p_kind(full, i) == Some((k, i + print_kind(k).len())),
{
    lemma_earlier_tags_fail(full, i, k);
    let t_res = "{\"RestoreFinishedTask\":"@;
    let id = k->RestoreFinishedTask_id;
    let payload = "{\"id\":"@ + jstr(id) + "}}"@;
    assert(print_kind(k) =~= t_res + payload);
    lemma_sub_align(full, i, t_res, payload);
    lemma_p_lit_here(full, i, t_res);
    lemma_p_id_payload_of_print(full, i + t_res.len(), id);
}

/// Reading a printed move kind back yields it.
#[verifier::rlimit(100)]
proof fn lemma_p_kind_mv(full: Seq<char>, i: int, k: OpKindV)
    requires
        0 <= i,
        k is MvLiveTask,
        i + print_kind(k).len() <= full.len(),
        full.subrange(i, i + print_kind(k).len()) == print_kind(k),
    ensures
        p_kind(full, i) == Some((k, i + print_kind(k).len())),
{
    lemma_earlier_tags_fail(full, i, k);
    let t_mv = "{\"MvLiveTask\":"@;
    let id_del = k->MvLiveTask_id_del;
    let id_ins = k->MvLiveTask_id_ins;
    let payload = "{\"id_del\":"@ + jstr(id_del) + ",\"id_ins\":"@ + jstr(id_ins) + "}}"@;
    assert(print_kind(k) =~= t_mv + payload);
    lemma_sub_align(full, i, t_mv, payload);
    lemma_p_lit_here(full, i, t_mv);
    lemma_p_two_string_of_print(
        full,
        i + t_mv.len(),
        "{\"id_del\":"@,
        ",\"id_ins\":"@,
        id_del,
        id_ins,
    );
}

/// Reading a printed reverse kind back yields it.
#[verifier::rlimit(100)]
proof fn lemma_p_kind_rev(full: Seq<char>, i: int, k: OpKindV)
    requires
        0 <= i,
        k is RevLiveTask,
        i + print_kind(k).len() <= full.len(),
        full.subrange(i, i + print_kind(k).len()) == print_kind(k),
    ensures
        p_kind(full, i) == Some((k, i + print_kind(k).len())),
{
    lemma_earlier_tags_fail(full, i, k);
    let t_rev = "{\"RevLiveTask\":"@;
    let id1 = k->RevLiveTask_id1;
    let id2 = k->RevLiveTask_id2;
    let payload = "{\"id1\":"@ + jstr(id1) + ",\"id2\":"@ + jstr(id2) + "}}"@;
    assert(print_kind(k) =~= t_rev + payload);
    lemma_sub_align(full, i, t_rev, payload);
    lemma_p_lit_here(full, i, t_rev);
    lemma_p_two_string_of_print(full, i + t_rev.len(), "{\"id1\":"@, ",\"id2\":"@, id1, id2);
}

/// Reading a printed operation kind back yields the kind: the variant
/// names are told apart by their first differing characters.
proof fn lemma_p_kind_of_print(full: Seq<char>, i: int, k: OpKindV)
    requires
        0 <= i,
        i + print_kind(k).len() <= full.len(),
        full.subrange(i, i + print_kind(k).len()) == print_kind(k),
    ensures
        p_kind(full, i) == Some((k, i + print_kind(k).len())),
{
    match k {
        OpKindV::OverwriteState(_) => lemma_p_kind_ovw(full, i, k),
        OpKindV::InsLiveTask { .. } => lemma_p_kind_ins(full, i, k),
        OpKindV::EditLiveTask { .. } => lemma_p_kind_edit(full, i, k),
        OpKindV::DelLiveTask { .. } => lemma_p_kind_del(full, i, k),
        OpKindV::FinishLiveTask { .. } => lemma_p_kind_fin(full, i, k),
        OpKindV::RestoreFinishedTask { .. } => lemma_p_kind_res(full, i, k),
        OpKindV::MvLiveTask { .. } => lemma_p_kind_mv(full, i, k),
        OpKindV::RevLiveTask { .. } => lemma_p_kind_rev(full, i, k),
    }
}

/// Assembles a whole-payload parse from the parses of its parts.
proof fn lemma_parse_op_assemble(s: Seq<char>, t: u64, k: OpKindV, j1: int, j2: int, j3: int, j4: int)
    requires
        p_lit(s, 0, "{\"alleged_time\":"@) == Some(j1),
        p_u64(s, j1) == Some((t, j2)),
        p_lit(s, j2, ",\"kind\":"@) == Some(j3),
        p_kind(s, j3) == Some((k, j4)),
        p_lit(s, j4, "}"@) == Some(j4 + 1),
        j4 + 1 == s.len(),
    ensures
        parse_op(s) == Some(OpV { alleged_time: t, kind: k }),
{
}

/// The five stretches of a five-part concatenation.
proof fn lemma_concat5_align(full: Seq<char>, a: Seq<char>, b: Seq<char>, c: Seq<char>, d: Seq<
    char,
>, e: Seq<char>)
    requires
        full == a + b + c + d + e,
    ensures
        full.len() == a.len() + b.len() + c.len() + d.len() + e.len(),
        full.subrange(0, a.len() as int) == a,
        full.subrange(a.len() as int, a.len() as int + b.len()) == b,
        full.subrange(a.len() as int + b.len(), a.len() as int + b.len() + c.len()) == c,
        full.subrange(
            a.len() as int + b.len() + c.len(),
            a.len() as int + b.len() + c.len() + d.len(),
        ) == d,
        full.subrange(a.len() as int + b.len() + c.len() + d.len(), full.len() as int) == e,
{
    assert(full.subrange(0, full.len() as int) =~= full);
    assert(full =~= a + (b + c + d + e));
    lemma_sub_align(full, 0, a, b + c + d + e);
    assert(b + c + d + e =~= b + (c + d + e));
    lemma_sub_align(full, a.len() as int, b, c + d + e);
    assert(c + d + e =~= c + (d + e));
    lemma_sub_align(full, a.len() as int + b.len(), c, d + e);
    lemma_sub_align(full, a.len() as int + b.len() + c.len(), d, e);
}

/// The printer and the parser agree: reading a printed operation back
/// yields exactly the operation. Together with the exact contracts of
/// the executable codec, what the dock sends is what a peer running
/// the same grammar reads.
#[verifier::rlimit(100)]
pub proof fn lemma_parse_print_round_trip(v: OpV)
    ensures
        parse_op(print_op(v)) == Some(v),
{
    let full = print_op(v);
    let key_t = "{\"alleged_time\":"@;
    let key_k = ",\"kind\":"@;
    let end = "}"@;
    let d = dec(v.alleged_time as nat);
    let kp = print_kind(v.kind);
    lemma_concat5_align(full, key_t, d, key_k, kp, end);
    lemma_p_lit_here(full, 0, key_t);
    let j1 = key_t.len() as int;
    let j2 = j1 + d.len();
    reveal_strlit(",\"kind\":");
    lemma_char_at(full, j2, key_k, 0);
    assert(full[j2] == ',');
    assert(!is_digit(','));
    lemma_p_u64_of_dec(full, j1, v.alleged_time);
    lemma_p_lit_here(full, j2, key_k);
    let j3 = j2 + key_k.len();
    lemma_p_kind_of_print(full, j3, v.kind);
    let j4 = j3 + kp.len();
    reveal_strlit("}");
    assert(end.len() == 1);
    lemma_p_lit_here(full, j4, end);
    assert(j4 + 1 == full.len());
    lemma_parse_op_assemble(full, v.alleged_time, v.kind, j1, j2, j3, j4);
    assert(OpV { alleged_time: v.alleged_time, kind: v.kind } == v);
}

} // verus!
