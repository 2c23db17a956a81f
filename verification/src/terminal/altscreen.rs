//! Detects whether the terminal is showing the alternate screen buffer.
//!
//! Programs like `vim` / `htop` switch to the alt screen with
//! `ESC [ ? 1049 h` (or `1047` / `47`) and back with the `l` variant. While the
//! alt screen is active we must not inject highlighting or rewrite output:
//! this is the safety gate that keeps ncurses TUIs intact.

use vstd::prelude::*;

verus! {

/// `ESC`.
pub const ESC: u8 = 0x1b;

/// Whether a byte is an ASCII digit.
pub open spec fn is_digit(b: u8) -> bool {
    48 <= b <= 57
}

/// Where the digits that begin at `at` end.
pub open spec fn digits_end(bytes: Seq<u8>, at: int) -> int
    decreases bytes.len() - at,
{
    if 0 <= at < bytes.len() && is_digit(bytes[at]) {
        digits_end(bytes, at + 1)
    } else {
        at
    }
}

/// The number that the digits from `from` up to `to` write.
pub open spec fn number(bytes: Seq<u8>, from: int, to: int) -> nat
    decreases to - from,
{
    if to <= from {
        0
    } else {
        (number(bytes, from, to - 1) * 10 + (bytes[to - 1] - 48)) as nat
    }
}

/// The private modes that select the alternate screen.
pub open spec fn is_alt_screen_mode(n: nat) -> bool {
    n == 47 || n == 1047 || n == 1049
}

/// The screen that a sequence beginning at `at` selects, where one does:
/// `ESC [ ? <n> h` the alternate screen, `ESC [ ? <n> l` the main one.
pub open spec fn switch_at(bytes: Seq<u8>, at: int) -> Option<bool> {
    let end = digits_end(bytes, at + 3);
    if 0 <= at && at + 2 < bytes.len() && bytes[at] == ESC && bytes[at + 1] == 91 && bytes[at + 2]
        == 63 && at + 3 < end < bytes.len() && (bytes[end] == 104 || bytes[end] == 108)
        && is_alt_screen_mode(number(bytes, at + 3, end)) {
        Some(bytes[end] == 104)
    } else {
        None
    }
}

/// Whether the alternate screen is active behind the sequences that begin at
/// `at` or later, if it was `was` before.
pub open spec fn screen_from(bytes: Seq<u8>, at: int, was: bool) -> bool
    decreases bytes.len() - at,
{
    if at >= bytes.len() {
        was
    } else {
        screen_from(
            bytes,
            at + 1,
            match switch_at(bytes, at) {
                Some(alt) => alt,
                None => was,
            },
        )
    }
}

proof fn lemma_digits_end(bytes: Seq<u8>, at: int)
    requires
        0 <= at <= bytes.len(),
    ensures
        at <= digits_end(bytes, at) <= bytes.len(),
        forall|k: int| at <= k < digits_end(bytes, at) ==> is_digit(#[trigger] bytes[k]),
        digits_end(bytes, at) < bytes.len() ==> !is_digit(bytes[digits_end(bytes, at)]),
    decreases bytes.len() - at,
{
    if at < bytes.len() && is_digit(bytes[at]) {
        lemma_digits_end(bytes, at + 1);
    }
}

/// Positions without a switch do not matter.
proof fn lemma_screen_skips(bytes: Seq<u8>, from: int, to: int, was: bool)
    requires
        0 <= from <= to <= bytes.len(),
        forall|k: int| from <= k < to ==> #[trigger] switch_at(bytes, k) is None,
    ensures
        screen_from(bytes, from, was) == screen_from(bytes, to, was),
    decreases to - from,
{
    if from < to {
        assert(switch_at(bytes, from) is None);
        lemma_screen_skips(bytes, from + 1, to, was);
    }
}

proof fn lemma_digits_end_at(bytes: Seq<u8>, from: int, to: int)
    requires
        0 <= from <= to <= bytes.len(),
        forall|k: int| from <= k < to ==> is_digit(#[trigger] bytes[k]),
        to < bytes.len() ==> !is_digit(bytes[to]),
    ensures
        digits_end(bytes, from) == to,
    decreases to - from,
{
    if from < to {
        assert(is_digit(bytes[from]));
        lemma_digits_end_at(bytes, from + 1, to);
    }
}

/// Tracks alt-screen state across a byte stream.
#[derive(Debug, Default)]
pub struct AltScreenTracker {
    in_alt: bool,
}

impl View for AltScreenTracker {
    type V = bool;

    closed spec fn view(&self) -> bool {
        self.in_alt
    }
}

impl AltScreenTracker {
    pub fn new() -> (r: AltScreenTracker)
        ensures
            !r@,
    {
        AltScreenTracker { in_alt: false }
    }

    pub fn in_alt_screen(&self) -> (r: bool)
        ensures
            r == self@,
    {
        self.in_alt
    }

    /// Feed a chunk of raw terminal output; updates internal state.
    ///
    /// Recognizes the private-mode sequences `ESC [ ? <n> h|l` for
    /// `n in {47, 1047, 1049}`. Intentionally minimal but covers what common
    /// full-screen programs emit.
    pub fn feed(&mut self, bytes: &[u8])
        ensures
            final(self)@ == screen_from(bytes@, 0, old(self)@),
    {
        let len: usize = bytes.len();
        let mut i: usize = 0;
        while i < len
            invariant
                len == bytes@.len(),
                i <= len,
                screen_from(bytes@, i as int, self@) == screen_from(bytes@, 0, old(self)@),
            decreases len - i,
        {
            let is_csi_private: bool = bytes[i] == ESC && len - i > 2 && bytes[i + 1] == 91
                && bytes[i + 2] == 63;
            let mut next: usize = i + 1;
            let mut alt: bool = self.in_alt;
            if is_csi_private {
                let start: usize = i + 3;
                let mut j: usize = start;
                let mut num: u32 = 0;
                while j < len && 48 <= bytes[j] && bytes[j] <= 57
                    invariant
                        len == bytes@.len(),
                        start <= j <= len,
                        forall|k: int| start <= k < j ==> is_digit(#[trigger] bytes@[k]),
                        num == number(bytes@, start as int, j as int) || (num == u32::MAX && number(
                            bytes@,
                            start as int,
                            j as int,
                        ) >= u32::MAX),
                    decreases len - j,
                {
                    let wide: u64 = num as u64 * 10 + (bytes[j] - 48) as u64;
                    num =
                    if wide > u32::MAX as u64 {
                        u32::MAX
                    } else {
                        wide as u32
                    };
                    j = j + 1;
                }
                proof {
                    lemma_digits_end_at(bytes@, start as int, j as int);
                }
                if j > start && j < len && (bytes[j] == 104 || bytes[j] == 108) {
                    if num == 47 || num == 1047 || num == 1049 {
                        alt = bytes[j] == 104;
                    }
                    next = j + 1;
                }
            }
            proof {
                assert forall|k: int| i < k < next implies #[trigger] switch_at(bytes@, k) is None by {
                    assert(bytes@[k] != ESC);
                }
                lemma_screen_skips(bytes@, i + 1, next as int, alt);
            }
            self.in_alt = alt;
            i = next;
        }
    }
}

proof fn lemma_last_switch(bytes: Seq<u8>, from: int, at: int, was: bool)
    requires
        0 <= from <= at < bytes.len(),
        switch_at(bytes, at) is Some,
        forall|k: int| at < k < bytes.len() ==> #[trigger] switch_at(bytes, k) is None,
    ensures
        Some(screen_from(bytes, from, was)) == switch_at(bytes, at),
    decreases at - from,
{
    let now = match switch_at(bytes, from) {
        Some(alt) => alt,
        None => was,
    };
    if from < at {
        lemma_last_switch(bytes, from + 1, at, now);
    } else {
        lemma_screen_skips(bytes, at + 1, bytes.len() as int, now);
    }
}

/// The last switch in a chunk decides, whatever came before it.
pub proof fn law_last_switch_decides(bytes: Seq<u8>, at: int, was: bool)
    requires
        0 <= at < bytes.len(),
        switch_at(bytes, at) is Some,
        forall|k: int| at < k < bytes.len() ==> #[trigger] switch_at(bytes, k) is None,
    ensures
        Some(screen_from(bytes, 0, was)) == switch_at(bytes, at),
{
    lemma_last_switch(bytes, 0, at, was);
}

/// Output without a switch leaves the screen as it was.
pub proof fn law_plain_output_keeps_screen(bytes: Seq<u8>, was: bool)
    requires
        forall|k: int| 0 <= k < bytes.len() ==> #[trigger] switch_at(bytes, k) is None,
    ensures
        screen_from(bytes, 0, was) == was,
{
    lemma_screen_skips(bytes, 0, bytes.len() as int, was);
}

proof fn lemma_number_agrees(a: Seq<u8>, b: Seq<u8>, shift: int, from: int, to: int)
    requires
        forall|k: int| from <= k < to ==> #[trigger] a[k] == b[k + shift],
    ensures
        number(a, from, to) == number(b, from + shift, to + shift),
    decreases to - from,
{
    if from < to {
        lemma_number_agrees(a, b, shift, from, to - 1);
        assert(a[to - 1] == b[to - 1 + shift]);
    }
}

/// A switch that is complete in a chunk is the same switch when more follows.
proof fn lemma_switch_stays(a: Seq<u8>, b: Seq<u8>, at: int)
    requires
        switch_at(a, at) is Some,
    ensures
        switch_at(a + b, at) == switch_at(a, at),
{
    let end = digits_end(a, at + 3);
    lemma_digits_end(a, at + 3);
    let both = a + b;
    assert forall|k: int| at + 3 <= k < end implies is_digit(#[trigger] both[k]) by {
        assert(is_digit(a[k]));
    }
    lemma_digits_end_at(both, at + 3, end);
    lemma_number_agrees(a, both, 0, at + 3, end);
}

proof fn lemma_switch_shifts(a: Seq<u8>, b: Seq<u8>, at: int)
    requires
        0 <= at < b.len(),
    ensures
        switch_at(a + b, a.len() + at) == switch_at(b, at),
{
    let both = a + b;
    let n = a.len() as int;
    if at + 3 <= b.len() {
        let end = digits_end(b, at + 3);
        lemma_digits_end(b, at + 3);
        assert forall|k: int| n + at + 3 <= k < n + end implies is_digit(#[trigger] both[k]) by {
            assert(is_digit(b[k - n]));
        }
        lemma_digits_end_at(both, n + at + 3, n + end);
        lemma_number_agrees(b, both, n, at + 3, end);
    }
}

proof fn lemma_screen_shifts(a: Seq<u8>, b: Seq<u8>, at: int, was: bool)
    requires
        0 <= at <= b.len(),
    ensures
        screen_from(a + b, a.len() + at, was) == screen_from(b, at, was),
    decreases b.len() - at,
{
    if at < b.len() {
        lemma_switch_shifts(a, b, at);
        let now = match switch_at(b, at) {
            Some(alt) => alt,
            None => was,
        };
        lemma_screen_shifts(a, b, at + 1, now);
    }
}

proof fn lemma_screen_joins(a: Seq<u8>, b: Seq<u8>, at: int, was: bool)
    requires
        0 <= at <= a.len(),
        forall|k: int|
            0 <= k < a.len() && switch_at(a, k) is None ==> #[trigger] switch_at(a + b, k) is None,
    ensures
        screen_from(a + b, at, was) == screen_from(b, 0, screen_from(a, at, was)),
    decreases a.len() - at,
{
    if at < a.len() {
        if switch_at(a, at) is Some {
            lemma_switch_stays(a, b, at);
        } else {
            assert(switch_at(a + b, at) is None);
        }
        let now = match switch_at(a, at) {
            Some(alt) => alt,
            None => was,
        };
        lemma_screen_joins(a, b, at + 1, now);
    } else {
        lemma_screen_shifts(a, b, 0, was);
    }
}

/// It does not matter how the output is cut into chunks, as long as no sequence
/// is cut in two: feeding `a` and then `b` is feeding both at once.
pub proof fn law_chunks_join(a: Seq<u8>, b: Seq<u8>, was: bool)
    requires
        forall|k: int|
            0 <= k < a.len() && switch_at(a, k) is None ==> #[trigger] switch_at(a + b, k) is None,
    ensures
        screen_from(b, 0, screen_from(a, 0, was)) == screen_from(a + b, 0, was),
{
    lemma_screen_joins(a, b, 0, was);
}

/// Digits write a number in the usual way: one more digit makes it ten times as
/// large and adds the value of the digit.
pub proof fn law_digits_write_numbers(bytes: Seq<u8>, from: int, to: int)
    requires
        0 <= from <= to < bytes.len(),
        48 <= bytes[to] <= 57,
    ensures
        number(bytes, from, from) == 0,
        number(bytes, from, to + 1) == number(bytes, from, to) * 10 + (bytes[to] - 48),
{
}

proof fn lemma_switch_of_sequence(bytes: Seq<u8>, at: int, end: int)
    requires
        0 <= at,
        at + 3 < end < bytes.len(),
        bytes[at] == 27,
        bytes[at + 1] == 91,
        bytes[at + 2] == 63,
        forall|k: int| at + 3 <= k < end ==> 48 <= #[trigger] bytes[k] <= 57,
        bytes[end] == 104 || bytes[end] == 108,
    ensures
        switch_at(bytes, at) == (if number(bytes, at + 3, end) == 47 || number(
            bytes,
            at + 3,
            end,
        ) == 1047 || number(bytes, at + 3, end) == 1049 {
            Some(bytes[end] == 104)
        } else {
            None
        }),
{
    assert forall|k: int| at + 3 <= k < end implies is_digit(#[trigger] bytes[k]) by {}
    lemma_digits_end_at(bytes, at + 3, end);
}

/// Only the modes 47, 1047 and 1049 select a screen: output in which every
/// private-mode sequence `ESC [ ? <n> h|l` has another number leaves the screen
/// as it was.
pub proof fn law_other_modes_keep_the_screen(bytes: Seq<u8>, was: bool)
    requires
        forall|at: int, end: int|
            #![trigger bytes[at], bytes[end]]
            0 <= at && at + 3 < end < bytes.len() && bytes[at] == 27 && bytes[at + 1] == 91
                && bytes[at + 2] == 63 && (forall|k: int|
                at + 3 <= k < end ==> 48 <= #[trigger] bytes[k] <= 57) && (bytes[end] == 104
                || bytes[end] == 108) ==> number(bytes, at + 3, end) != 47 && number(bytes, at + 3, end)
                != 1047 && number(bytes, at + 3, end) != 1049,
    ensures
        screen_from(bytes, 0, was) == was,
{
    assert forall|k: int| 0 <= k < bytes.len() implies #[trigger] switch_at(bytes, k) is None by {
        if switch_at(bytes, k) is Some {
            let end = digits_end(bytes, k + 3);
            lemma_digits_end(bytes, k + 3);
            assert forall|i: int| k + 3 <= i < end implies 48 <= #[trigger] bytes[i] <= 57 by {
                assert(is_digit(bytes[i]));
            }
            assert(bytes[k] == 27 && (bytes[end] == 104 || bytes[end] == 108));
        }
    }
    law_plain_output_keeps_screen(bytes, was);
}

/// A private-mode sequence with one of the numbers 47, 1047 and 1049 selects the
/// alternate screen with `h` and the main one with `l`, whatever came before it,
/// where no other such sequence comes behind it.
pub proof fn law_three_modes_select_the_screen(bytes: Seq<u8>, from: int, to: int, was: bool)
    requires
        0 <= from,
        from + 3 < to < bytes.len(),
        bytes[from] == 27,
        bytes[from + 1] == 91,
        bytes[from + 2] == 63,
        forall|k: int| from + 3 <= k < to ==> 48 <= #[trigger] bytes[k] <= 57,
        bytes[to] == 104 || bytes[to] == 108,
        number(bytes, from + 3, to) == 47 || number(bytes, from + 3, to) == 1047 || number(
            bytes,
            from + 3,
            to,
        ) == 1049,
        forall|at: int, end: int|
            #![trigger bytes[at], bytes[end]]
            from < at && 0 <= at && at + 3 < end < bytes.len() && bytes[at] == 27 && bytes[at + 1] == 91
                && bytes[at + 2] == 63 && (forall|k: int|
                at + 3 <= k < end ==> 48 <= #[trigger] bytes[k] <= 57) && (bytes[end] == 104
                || bytes[end] == 108) ==> number(bytes, at + 3, end) != 47 && number(bytes, at + 3, end)
                != 1047 && number(bytes, at + 3, end) != 1049,
    ensures
        screen_from(bytes, 0, was) == (bytes[to] == 104),
{
    lemma_switch_of_sequence(bytes, from, to);
    assert forall|k: int| from < k < bytes.len() implies #[trigger] switch_at(bytes, k) is None by {
        if switch_at(bytes, k) is Some {
            let end = digits_end(bytes, k + 3);
            lemma_digits_end(bytes, k + 3);
            assert forall|i: int| k + 3 <= i < end implies 48 <= #[trigger] bytes[i] <= 57 by {
                assert(is_digit(bytes[i]));
            }
            assert(bytes[k] == 27 && (bytes[end] == 104 || bytes[end] == 108));
        }
    }
    law_last_switch_decides(bytes, from, was);
}

/// The digits of one of the three modes.
spec fn mode_digits(mode: int) -> Seq<u8> {
    if mode == 47 {
        seq![52u8, 55]
    } else if mode == 1047 {
        seq![49u8, 48, 52, 55]
    } else {
        seq![49u8, 48, 52, 57]
    }
}

proof fn lemma_mode_switches(before: Seq<u8>, mode: int, enter: bool, after: Seq<u8>, was: bool)
    requires
        mode == 47 || mode == 1047 || mode == 1049,
        forall|k: int| 0 <= k < after.len() ==> #[trigger] after[k] != 27,
    ensures
        screen_from(
            before + seq![27u8, 91, 63] + mode_digits(mode) + seq![if enter {
                104u8
            } else {
                108u8
            }] + after,
            0,
            was,
        ) == enter,
{
    let last = if enter {
        104u8
    } else {
        108u8
    };
    let digits = mode_digits(mode);
    let bytes = before + seq![27u8, 91, 63] + digits + seq![last] + after;
    let from = before.len() as int;
    let to = from + 3 + digits.len();
    assert(bytes[from] == 27 && bytes[from + 1] == 91 && bytes[from + 2] == 63 && bytes[to]
        == last);
    assert forall|k: int| from + 3 <= k < to implies 48 <= #[trigger] bytes[k] <= 57 by {
        assert(bytes[k] == digits[k - from - 3]);
    }
    assert(number(bytes, from + 3, to) == mode) by {
        reveal_with_fuel(number, 6);
        assert(bytes[from + 3] == digits[0] && bytes[from + 4] == digits[1]);
        if mode != 47 {
            assert(bytes[from + 5] == digits[2] && bytes[from + 6] == digits[3]);
        }
    }
    assert forall|at: int, end: int|
        #![trigger bytes[at], bytes[end]]
        from < at && 0 <= at && at + 3 < end < bytes.len() && bytes[at] == 27 && bytes[at + 1] == 91
                && bytes[at + 2] == 63 && (forall|k: int|
                at + 3 <= k < end ==> 48 <= #[trigger] bytes[k] <= 57) && (bytes[end] == 104
                || bytes[end] == 108) implies number(bytes, at + 3, end) != 47 && number(
        bytes,
        at + 3,
        end,
    ) != 1047 && number(bytes, at + 3, end) != 1049 by {
        if at < to {
            assert(bytes[at] != 27);
        } else if at > to {
            assert(bytes[at] == after[at - to - 1]);
        }
    }
    law_three_modes_select_the_screen(bytes, from, to, was);
}

/// `ESC[?47h`, `ESC[?1047h` and `ESC[?1049h` show the alternate screen and
/// `ESC[?47l`, `ESC[?1047l` and `ESC[?1049l` leave it, in the middle of any
/// output that goes on without another escape.
pub proof fn law_full_screen_programs_are_noticed(before: Seq<u8>, after: Seq<u8>, was: bool)
    requires
        forall|k: int| 0 <= k < after.len() ==> #[trigger] after[k] != 27,
    ensures
        screen_from(before + seq![27u8, 91, 63, 52, 55, 104] + after, 0, was),
        screen_from(before + seq![27u8, 91, 63, 49, 48, 52, 55, 104] + after, 0, was),
        screen_from(before + seq![27u8, 91, 63, 49, 48, 52, 57, 104] + after, 0, was),
        !screen_from(before + seq![27u8, 91, 63, 52, 55, 108] + after, 0, was),
        !screen_from(before + seq![27u8, 91, 63, 49, 48, 52, 55, 108] + after, 0, was),
        !screen_from(before + seq![27u8, 91, 63, 49, 48, 52, 57, 108] + after, 0, was),
{
    lemma_mode_switches(before, 47, true, after, was);
    lemma_mode_switches(before, 1047, true, after, was);
    lemma_mode_switches(before, 1049, true, after, was);
    lemma_mode_switches(before, 47, false, after, was);
    lemma_mode_switches(before, 1047, false, after, was);
    lemma_mode_switches(before, 1049, false, after, was);
    let head = seq![27u8, 91, 63];
    assert(before + head + mode_digits(47) + seq![104u8] + after =~= before + seq![
        27u8,
        91,
        63,
        52,
        55,
        104,
    ] + after);
    assert(before + head + mode_digits(1047) + seq![104u8] + after =~= before + seq![
        27u8,
        91,
        63,
        49,
        48,
        52,
        55,
        104,
    ] + after);
    assert(before + head + mode_digits(1049) + seq![104u8] + after =~= before + seq![
        27u8,
        91,
        63,
        49,
        48,
        52,
        57,
        104,
    ] + after);
    assert(before + head + mode_digits(47) + seq![108u8] + after =~= before + seq![
        27u8,
        91,
        63,
        52,
        55,
        108,
    ] + after);
    assert(before + head + mode_digits(1047) + seq![108u8] + after =~= before + seq![
        27u8,
        91,
        63,
        49,
        48,
        52,
        55,
        108,
    ] + after);
    assert(before + head + mode_digits(1049) + seq![108u8] + after =~= before + seq![
        27u8,
        91,
        63,
        49,
        48,
        52,
        57,
        108,
    ] + after);
}

/// Output without an escape leaves the screen as it was.
pub proof fn law_text_keeps_the_screen(bytes: Seq<u8>, was: bool)
    requires
        forall|k: int| 0 <= k < bytes.len() ==> #[trigger] bytes[k] != 27,
    ensures
        screen_from(bytes, 0, was) == was,
{
    assert forall|k: int| 0 <= k < bytes.len() implies #[trigger] switch_at(bytes, k) is None by {
        assert(bytes[k] != 27);
    }
    law_plain_output_keeps_screen(bytes, was);
}

} // verus!
