//! The command interpreter: parses one line of free text into a
//! structured intent against the current snapshot. Fixed one- and
//! two-letter verbs take priority; anything else creates a new live task
//! whose text is the whole line. Indices out of range silently produce
//! no operation.

use vstd::prelude::*;

use crate::codec::str_to_chars;
use crate::tasks::{FinishedTaskV, LiveTaskV, SnapshotV, StateSnapshot, TaskStatus};
use crate::wire::{dec_val, digit_val, is_digit};

verus! {

/// A user intent that becomes one outgoing operation.
#[derive(Debug)]
pub enum Op {
    /// Create a new live task with this text.
    NewLive(String),
    /// Restore the finished task with this id.
    RestoreFinished(String),
    /// Finish the live task with this id, with this status.
    Pop(String, TaskStatus),
    /// Replace the text of the live task with this id.
    Edit(String, String),
    /// Move the first task to just before the second.
    Move(String, String),
    /// Reverse the live range between the two ids.
    Rev(String, String),
}

/// Mathematical model of a user operation.
pub enum UserOpV {
    NewLive(Seq<char>),
    RestoreFinished(Seq<char>),
    Pop(Seq<char>, TaskStatus),
    Edit(Seq<char>, Seq<char>),
    Move(Seq<char>, Seq<char>),
    Rev(Seq<char>, Seq<char>),
}

impl View for Op {
    type V = UserOpV;

    open spec fn view(&self) -> UserOpV {
        match self {
            Op::NewLive(v) => UserOpV::NewLive(v@),
            Op::RestoreFinished(id) => UserOpV::RestoreFinished(id@),
            Op::Pop(id, st) => UserOpV::Pop(id@, *st),
            Op::Edit(id, v) => UserOpV::Edit(id@, v@),
            Op::Move(a, b) => UserOpV::Move(a@, b@),
            Op::Rev(a, b) => UserOpV::Rev(a@, b@),
        }
    }
}

/// What one line of input asks for.
#[derive(Debug)]
pub enum Intent {
    /// Nothing: an out-of-range index or an empty target list.
    Nop,
    /// Collapse the dock.
    Collapse,
    /// Toggle showing finished tasks instead of live ones.
    ToggleFinished,
    /// Send this operation.
    Submit(Op),
}

/// Mathematical model of an intent.
pub enum IntentV {
    Nop,
    Collapse,
    ToggleFinished,
    Submit(UserOpV),
}

impl View for Intent {
    type V = IntentV;

    open spec fn view(&self) -> IntentV {
        match self {
            Intent::Nop => IntentV::Nop,
            Intent::Collapse => IntentV::Collapse,
            Intent::ToggleFinished => IntentV::ToggleFinished,
            Intent::Submit(op) => IntentV::Submit(op@),
        }
    }
}

/// Index of the first space at or after `i`; the length when there is
/// none.
pub open spec fn first_space_from(s: Seq<char>, i: int) -> int
    decreases s.len() - i,
{
    if i < 0 || i >= s.len() {
        s.len() as int
    } else if s[i] == ' ' {
        i
    } else {
        first_space_from(s, i + 1)
    }
}

/// Index of the first space; the length when there is none.
pub open spec fn first_space(s: Seq<char>) -> int {
    first_space_from(s, 0)
}

/// A non-empty run of decimal digits read as an index, when its value
/// fits; leading zeros are tolerated here.
pub open spec fn parse_usize(s: Seq<char>) -> Option<usize> {
    if s.len() > 0 && (forall|k: int| 0 <= k < s.len() ==> is_digit(s[k])) && dec_val(s)
        <= usize::MAX {
        Some(dec_val(s) as usize)
    } else {
        None
    }
}

/// The intent of the `r` verb: restore the finished task at the given
/// index, at the front when no index is given.
pub open spec fn restore_intent(rest: Option<Seq<char>>, fin: Seq<FinishedTaskV>) -> IntentV {
    match rest {
        Some(arg) => match parse_usize(arg) {
            Some(i) => if i < fin.len() {
                IntentV::Submit(UserOpV::RestoreFinished(fin[i as int].id))
            } else {
                IntentV::Nop
            },
            None => IntentV::Nop,
        },
        None => if fin.len() > 0 {
            IntentV::Submit(UserOpV::RestoreFinished(fin[0].id))
        } else {
            IntentV::Nop
        },
    }
}

/// The intent of the `q` verb: move the task at the given index, by
/// default the front one, to the back.
pub open spec fn queue_intent(rest: Option<Seq<char>>, live: Seq<LiveTaskV>) -> IntentV {
    match rest {
        Some(arg) => match parse_usize(arg) {
            Some(i) => if i < live.len() && live.len() > 1 {
                IntentV::Submit(
                    UserOpV::Move(live[i as int].id, live[live.len() - 1].id),
                )
            } else {
                IntentV::Nop
            },
            None => IntentV::Nop,
        },
        None => if live.len() > 1 {
            IntentV::Submit(UserOpV::Move(live[0].id, live[live.len() - 1].id))
        } else {
            IntentV::Nop
        },
    }
}

/// The arguments of a two-index verb: both indices when the rest is
/// `i j`, one when it is `i`, none when it is absent.
pub open spec fn two_index_args(rest: Option<Seq<char>>) -> Option<(Option<usize>, Option<
    (usize, usize),
>)> {
    match rest {
        None => Some((None, None)),
        Some(arg) => {
            let sp = first_space(arg);
            if sp < arg.len() {
                match (parse_usize(arg.take(sp)), parse_usize(arg.skip(sp + 1))) {
                    (Some(i), Some(j)) => Some((None, Some((i, j)))),
                    _ => None,
                }
            } else {
                match parse_usize(arg) {
                    Some(i) => Some((Some(i), None)),
                    None => None,
                }
            }
        },
    }
}

/// The intent of the `mv` verb: move the task at the first index to
/// just before the one at the second; one index moves that task to the
/// front, none moves the front task behind the second.
pub open spec fn move_intent(rest: Option<Seq<char>>, live: Seq<LiveTaskV>) -> IntentV {
    match two_index_args(rest) {
        None => IntentV::Nop,
        Some((one, two)) => match two {
            Some((i, j)) => if i < live.len() && j < live.len() && i != j {
                IntentV::Submit(UserOpV::Move(live[i as int].id, live[j as int].id))
            } else {
                IntentV::Nop
            },
            None => match one {
                Some(i) => if i < live.len() && live.len() > 1 {
                    IntentV::Submit(UserOpV::Move(live[i as int].id, live[0].id))
                } else {
                    IntentV::Nop
                },
                None => if live.len() > 1 {
                    IntentV::Submit(UserOpV::Move(live[0].id, live[1].id))
                } else {
                    IntentV::Nop
                },
            },
        },
    }
}

/// The intent of the `rev` verb: reverse between the two indices; one
/// index reverses between it and the front; none does nothing.
pub open spec fn rev_intent(rest: Option<Seq<char>>, live: Seq<LiveTaskV>) -> IntentV {
    match two_index_args(rest) {
        None => IntentV::Nop,
        Some((one, two)) => match two {
            Some((i, j)) => if i < live.len() && j < live.len() && i != j {
                IntentV::Submit(UserOpV::Rev(live[i as int].id, live[j as int].id))
            } else {
                IntentV::Nop
            },
            None => match one {
                Some(i) => if i < live.len() && live.len() > 1 {
                    IntentV::Submit(UserOpV::Rev(live[i as int].id, live[0].id))
                } else {
                    IntentV::Nop
                },
                None => IntentV::Nop,
            },
        },
    }
}

/// The intent of a finish verb: finish the front live task with the
/// given status.
pub open spec fn pop_intent(live: Seq<LiveTaskV>, status: TaskStatus) -> IntentV {
    if live.len() > 0 {
        IntentV::Submit(UserOpV::Pop(live[0].id, status))
    } else {
        IntentV::Nop
    }
}

/// What one line of input asks for, against the given snapshot: the
/// whole interpretation table of the command language. The verb is the
/// text up to the first space; what follows it, when anything does, is
/// the verb's argument text.
pub open spec fn spec_interpret(input: Seq<char>, s: SnapshotV) -> IntentV {
    let e = first_space(input);
    let tok = input.take(e);
    let rest: Option<Seq<char>> = if e < input.len() {
        Some(input.skip(e + 1))
    } else {
        None
    };
    if tok == "c"@ {
        IntentV::Collapse
    } else if tok == "t"@ {
        IntentV::ToggleFinished
    } else if tok == "s"@ {
        pop_intent(s.live, TaskStatus::Succeeded)
    } else if tok == "f"@ {
        pop_intent(s.live, TaskStatus::Failed)
    } else if tok == "o"@ {
        pop_intent(s.live, TaskStatus::Obsoleted)
    } else if tok == "r"@ {
        restore_intent(rest, s.finished)
    } else if tok == "q"@ {
        queue_intent(rest, s.live)
    } else if tok == "mv"@ {
        move_intent(rest, s.live)
    } else if tok == "rev"@ {
        rev_intent(rest, s.live)
    } else {
        IntentV::Submit(UserOpV::NewLive(input))
    }
}

/// Index of the first space in `cs` at or after `from`, as
/// [`first_space_from`] states.
fn find_space(cs: &Vec<char>, from: usize) -> (r: usize)
    requires
        from <= cs@.len(),
    ensures
        r as int == first_space_from(cs@, from as int),
        from <= r <= cs@.len(),
{
    let mut i: usize = from;
    while i < cs.len()
        invariant
            from <= i <= cs@.len(),
            first_space_from(cs@, from as int) == first_space_from(cs@, i as int),
        decreases cs@.len() - i,
    {
        if cs[i] == ' ' {
            return i;
        }
        i = i + 1;
    }
    i
}

/// Digit sequences have non-negative values.
proof fn lemma_dec_val_nonneg(s: Seq<char>)
    requires
        forall|k: int| 0 <= k < s.len() ==> is_digit(s[k]),
    ensures
        dec_val(s) >= 0,
    decreases s.len(),
{
    if s.len() > 0 {
        lemma_dec_val_nonneg(s.drop_last());
    }
}

/// The value of a digit prefix never exceeds the value of the whole.
proof fn lemma_dec_val_take_le(s: Seq<char>, i: int)
    requires
        forall|k: int| 0 <= k < s.len() ==> is_digit(s[k]),
        0 <= i <= s.len(),
    ensures
        dec_val(s.take(i)) <= dec_val(s),
    decreases s.len() - i,
{
    if i < s.len() {
        lemma_dec_val_take_le(s, i + 1);
        let t = s.take(i + 1);
        assert(t.drop_last() =~= s.take(i));
        lemma_dec_val_nonneg(s.take(i));
        assert(dec_val(s.take(i)) <= dec_val(t));
    } else {
        assert(s.take(i) =~= s);
    }
}

/// Reads a run of digits as an index, exactly as [`parse_usize`]
/// states.
#[verifier::loop_isolation(false)]
fn read_usize(cs: &Vec<char>, from: usize, to: usize) -> (r: Option<usize>)
    requires
        from <= to <= cs@.len(),
    ensures
        r == parse_usize(cs@.subrange(from as int, to as int)),
{
    let ghost arg = cs@.subrange(from as int, to as int);
    if from == to {
        return None;
    }
    let mut acc: usize = 0;
    let mut i: usize = from;
    while i < to
        invariant
            from <= i <= to,
            forall|k: int| 0 <= k < i - from ==> is_digit(arg[k]),
            acc == dec_val(arg.take(i - from)),
        decreases to - i,
    {
        let c = cs[i];
        let u = c as u32;
        if !(48 <= u && u <= 57) {
            proof {
                assert(!is_digit(arg[i - from]));
            }
            return None;
        }
        let d = (u - 48) as usize;
        let stepped = match acc.checked_mul(10) {
            Some(m) => m.checked_add(d),
            None => None,
        };
        match stepped {
            Some(a2) => {
                proof {
                    assert(arg.take(i + 1 - from).drop_last() =~= arg.take(i - from));
                }
                acc = a2;
                i = i + 1;
            },
            None => {
                proof {
                    assert(arg.take(i + 1 - from).drop_last() =~= arg.take(i - from));
                    assert(dec_val(arg.take(i + 1 - from)) > usize::MAX);
                    if forall|k: int| 0 <= k < arg.len() ==> is_digit(arg[k]) {
                        lemma_dec_val_take_le(arg, i + 1 - from);
                    }
                }
                return None;
            },
        }
    }
    proof {
        assert(arg.take(to - from) =~= arg);
    }
    Some(acc)
}

/// Whether the characters `cs[0..e]` are exactly the verb `lit`.
fn token_is(cs: &Vec<char>, e: usize, lit: &str) -> (b: bool)
    requires
        e <= cs@.len(),
    ensures
        b == (cs@.take(e as int) == lit@),
{
    let lv = str_to_chars(lit);
    if e != lv.len() {
        proof {
            assert(cs@.take(e as int) != lit@);
        }
        return false;
    }
    let mut k: usize = 0;
    while k < e
        invariant
            e == lv@.len() == lit@.len(),
            e <= cs@.len(),
            k <= e,
            lv@ == lit@,
            forall|m: int| 0 <= m < k as int ==> cs@[m] == lit@[m],
        decreases e - k,
    {
        if !(cs[k] == lv[k]) {
            proof {
                assert(cs@.take(e as int)[k as int] != lit@[k as int]);
            }
            return false;
        }
        k = k + 1;
    }
    proof {
        assert(cs@.take(e as int) =~= lit@);
    }
    true
}

/// Reads the argument text of a two-index verb, as [`two_index_args`]
/// states over the model of the argument.
fn read_two_index_args(cs: &Vec<char>, e: usize) -> (r: Option<(Option<usize>, Option<
    (usize, usize),
>)>)
    requires
        e <= cs@.len(),
    ensures
        r == two_index_args(
            if (e as int) < cs@.len() {
                Some(cs@.skip(e + 1))
            } else {
                None::<Seq<char>>
            },
        ),
{
    if e >= cs.len() {
        return Some((None, None));
    }
    let ghost arg = cs@.skip(e + 1);
    let start = e + 1;
    let sp = find_space(cs, start);
    proof {
        lemma_first_space_skip(cs@, start as int);
        assert(first_space(arg) == sp - start);
    }
    if sp < cs.len() {
        let i = read_usize(cs, start, sp);
        let j = read_usize(cs, sp + 1, cs.len());
        proof {
            assert(cs@.subrange(start as int, sp as int) =~= arg.take(sp - start));
            assert(cs@.subrange(sp + 1, cs@.len() as int) =~= arg.skip(sp - start + 1));
        }
        match (i, j) {
            (Some(i), Some(j)) => Some((None, Some((i, j)))),
            _ => None,
        }
    } else {
        let i = read_usize(cs, start, cs.len());
        proof {
            assert(cs@.subrange(start as int, cs@.len() as int) =~= arg);
        }
        match i {
            Some(i) => Some((Some(i), None)),
            None => None,
        }
    }
}

/// The first space of a suffix stands where the first space of the
/// whole does, when the search starts at the suffix.
proof fn lemma_first_space_skip(s: Seq<char>, start: int)
    requires
        0 <= start <= s.len(),
    ensures
        first_space(s.skip(start)) == first_space_from(s, start) - start,
    decreases s.len() - start,
{
    lemma_first_space_from_shift(s, start, start);
}

/// Searching the suffix from position `i` mirrors searching the whole.
proof fn lemma_first_space_from_shift(s: Seq<char>, start: int, i: int)
    requires
        0 <= start <= i <= s.len(),
    ensures
        first_space_from(s.skip(start), i - start) == first_space_from(s, i) - start,
    decreases s.len() - i,
{
    if i < s.len() {
        assert(s.skip(start)[i - start] == s[i]);
        if s[i] != ' ' {
            lemma_first_space_from_shift(s, start, i + 1);
        }
    }
}

/// Interprets one line of input against the snapshot, exactly as
/// [`spec_interpret`] states: the verb table of the command language.
pub fn interpret(input: &String, snapshot: &StateSnapshot) -> (r: Intent)
    ensures
        r@ == spec_interpret(input@, snapshot@),
{
    let cs = str_to_chars(input.as_str());
    let e = find_space(&cs, 0);
    let live = &snapshot.live;
    let fin = &snapshot.finished;
    if token_is(&cs, e, "c") {
        Intent::Collapse
    } else if token_is(&cs, e, "t") {
        Intent::ToggleFinished
    } else if token_is(&cs, e, "s") {
        pop_front(live, TaskStatus::Succeeded)
    } else if token_is(&cs, e, "f") {
        pop_front(live, TaskStatus::Failed)
    } else if token_is(&cs, e, "o") {
        pop_front(live, TaskStatus::Obsoleted)
    } else if token_is(&cs, e, "r") {
        if e < cs.len() {
            let idx = read_usize(&cs, e + 1, cs.len());
            proof {
                assert(cs@.subrange(e + 1, cs@.len() as int) =~= cs@.skip(e + 1));
            }
            match idx {
                Some(i) => {
                    if i < fin.len() {
                        Intent::Submit(Op::RestoreFinished(fin[i].id.clone()))
                    } else {
                        Intent::Nop
                    }
                },
                None => Intent::Nop,
            }
        } else {
            if fin.len() > 0 {
                Intent::Submit(Op::RestoreFinished(fin[0].id.clone()))
            } else {
                Intent::Nop
            }
        }
    } else if token_is(&cs, e, "q") {
        if e < cs.len() {
            let idx = read_usize(&cs, e + 1, cs.len());
            proof {
                assert(cs@.subrange(e + 1, cs@.len() as int) =~= cs@.skip(e + 1));
            }
            match idx {
                Some(i) => {
                    if i < live.len() && live.len() > 1 {
                        Intent::Submit(
                            Op::Move(live[i].id.clone(), live[live.len() - 1].id.clone()),
                        )
                    } else {
                        Intent::Nop
                    }
                },
                None => Intent::Nop,
            }
        } else {
            if live.len() > 1 {
                Intent::Submit(Op::Move(live[0].id.clone(), live[live.len() - 1].id.clone()))
            } else {
                Intent::Nop
            }
        }
    } else if token_is(&cs, e, "mv") {
        match read_two_index_args(&cs, e) {
            None => Intent::Nop,
            Some((one, two)) => match two {
                Some((i, j)) => {
                    if i < live.len() && j < live.len() && i != j {
                        Intent::Submit(Op::Move(live[i].id.clone(), live[j].id.clone()))
                    } else {
                        Intent::Nop
                    }
                },
                None => match one {
                    Some(i) => {
                        if i < live.len() && live.len() > 1 {
                            Intent::Submit(Op::Move(live[i].id.clone(), live[0].id.clone()))
                        } else {
                            Intent::Nop
                        }
                    },
                    None => {
                        if live.len() > 1 {
                            Intent::Submit(Op::Move(live[0].id.clone(), live[1].id.clone()))
                        } else {
                            Intent::Nop
                        }
                    },
                },
            },
        }
    } else if token_is(&cs, e, "rev") {
        match read_two_index_args(&cs, e) {
            None => Intent::Nop,
            Some((one, two)) => match two {
                Some((i, j)) => {
                    if i < live.len() && j < live.len() && i != j {
                        Intent::Submit(Op::Rev(live[i].id.clone(), live[j].id.clone()))
                    } else {
                        Intent::Nop
                    }
                },
                None => match one {
                    Some(i) => {
                        if i < live.len() && live.len() > 1 {
                            Intent::Submit(Op::Rev(live[i].id.clone(), live[0].id.clone()))
                        } else {
                            Intent::Nop
                        }
                    },
                    None => Intent::Nop,
                },
            },
        }
    } else {
        Intent::Submit(Op::NewLive(input.clone()))
    }
}

/// Finishes the front live task with the given status, when one exists.
fn pop_front(live: &Vec<crate::tasks::LiveTask>, status: TaskStatus) -> (r: Intent)
    ensures
        r@ == pop_intent(crate::tasks::live_view(live@), status),
{
    if live.len() > 0 {
        Intent::Submit(Op::Pop(live[0].id.clone(), status))
    } else {
        Intent::Nop
    }
}

} // verus!
