//! The control loop's line protocol: a line of decimal digits selects the
//! device at that index, `quit` ends the loop, and any other line is ignored.
use vstd::prelude::*;
use vstd::string::StringSliceAdditionalSpecFns;

verus! {

/// What one console line asks for.
#[derive(Clone, Copy, Debug, PartialEq, Eq, Structural)]
pub enum Command {
    /// Send a selection message carrying this device index.
    Select(usize),
    /// End the control loop.
    Quit,
    /// Not a command; the loop reads on.
    Ignore,
}

/// The line without its terminator: one trailing `\n`, then one trailing
/// `\r`, are dropped.
pub open spec fn line_body(b: Seq<u8>) -> Seq<u8> {
    let b1 = if b.len() > 0 && b.last() == 10 {
        b.drop_last()
    } else {
        b
    };
    if b1.len() > 0 && b1.last() == 13 {
        b1.drop_last()
    } else {
        b1
    }
}

/// An ASCII decimal digit.
pub open spec fn is_digit(c: u8) -> bool {
    48 <= c <= 57
}

/// Every byte is a decimal digit.
pub open spec fn all_digits(b: Seq<u8>) -> bool {
    forall|i: int| 0 <= i < b.len() ==> is_digit(#[trigger] b[i])
}

/// The number that a run of decimal digits denotes, most significant first.
pub open spec fn decimal_value(b: Seq<u8>) -> int
    decreases b.len(),
{
    if b.len() == 0 {
        0
    } else {
        decimal_value(b.drop_last()) * 10 + (b.last() - 48)
    }
}

/// The bytes of `quit`.
pub open spec fn quit_word() -> Seq<u8> {
    seq![113u8, 117u8, 105u8, 116u8]
}

/// The command a line holds, given its bytes.
pub open spec fn command_of(b: Seq<u8>) -> Command {
    let t = line_body(b);
    if t == quit_word() {
        Command::Quit
    } else if t.len() > 0 && all_digits(t) && decimal_value(t) <= usize::MAX {
        Command::Select(decimal_value(t) as usize)
    } else {
        Command::Ignore
    }
}

/// A longer prefix of digits never denotes a smaller number.
proof fn lemma_decimal_prefix_monotone(b: Seq<u8>, i: int, j: int)
    requires
        all_digits(b),
        0 <= i <= j <= b.len(),
    ensures
        0 <= decimal_value(b.take(i)) <= decimal_value(b.take(j)),
    decreases j - i,
{
    if i < j {
        lemma_decimal_prefix_monotone(b, i, j - 1);
        assert(b.take(j).drop_last() =~= b.take(j - 1));
        assert(is_digit(b[j - 1]));
    } else {
        lemma_decimal_nonnegative(b.take(i));
    }
}

/// Digits denote a non-negative number.
proof fn lemma_decimal_nonnegative(b: Seq<u8>)
    requires
        all_digits(b),
    ensures
        decimal_value(b) >= 0,
    decreases b.len(),
{
    if b.len() > 0 {
        assert(all_digits(b.drop_last()));
        lemma_decimal_nonnegative(b.drop_last());
        assert(is_digit(b[b.len() - 1]));
    }
}

/// Reads one console line, with or without its terminator.
pub fn parse_command(line: &str) -> (c: Command)
    ensures
        c == command_of(line.spec_bytes()),
{
    let b = line.as_bytes();
    let ghost full = b@;
    let mut end: usize = b.len();
    if end > 0 && b[end - 1] == 10 {
        end = end - 1;
    }
    if end > 0 && b[end - 1] == 13 {
        end = end - 1;
    }
    let ghost t = line_body(full);
    assert(t =~= full.take(end as int));
    if end == 4 && b[0] == 113 && b[1] == 117 && b[2] == 105 && b[3] == 116 {
        assert(t =~= quit_word());
        return Command::Quit;
    }
    proof {
        if t == quit_word() {
            assert(t[0] == 113 && t[1] == 117 && t[2] == 105 && t[3] == 116);
        }
    }
    if end == 0 {
        return Command::Ignore;
    }
    let mut value: usize = 0;
    let mut i: usize = 0;
    while i < end
        invariant
            b@ == full,
            full == line.spec_bytes(),
            t == line_body(full),
            end <= b.len(),
            0 < end,
            t == full.take(end as int),
            t != quit_word(),
            i <= end,
            all_digits(t.take(i as int)),
            value == decimal_value(t.take(i as int)),
        decreases end - i,
    {
        let c = b[i];
        if c < 48 || c > 57 {
            assert(!is_digit(t[i as int]));
            assert(!all_digits(t));
            return Command::Ignore;
        }
        assert(t.take(i as int + 1).drop_last() =~= t.take(i as int));
        assert(all_digits(t.take(i as int + 1)));
        let next = match value.checked_mul(10) {
            Some(v) => v.checked_add((c - 48) as usize),
            None => None,
        };
        match next {
            Some(v) => {
                value = v;
            },
            None => {
                proof {
                    if all_digits(t) {
                        lemma_decimal_prefix_monotone(t, i as int + 1, end as int);
                        assert(t.take(end as int) =~= t);
                    }
                }
                return Command::Ignore;
            },
        }
        i = i + 1;
    }
    assert(t.take(end as int) =~= t);
    Command::Select(value)
}

} // verus!
