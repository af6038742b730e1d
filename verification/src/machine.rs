//! The state machine that recognises IRC color codes byte by byte.

use vstd::prelude::*;

use crate::color::{
    color_sequence, output_color, output_reset, reset_sequence, COLOR_COUNT, COMMA, INTRODUCER,
    NEWLINE,
};
use crate::filter::{Filter, Filtered};

verus! {

/// ASCII `0`.
pub const DIGIT_ZERO: u8 = 0x30;

/// ASCII `9`.
pub const DIGIT_NINE: u8 = 0x39;

/// Where the machine stands inside a color code.
#[derive(Clone, Copy, Debug, PartialEq, Eq)]
pub enum IRCatState {
    /// Outside any color code.
    Normal,
    /// Just after the introducer byte.
    Start,
    /// After one foreground digit, whose value is held.
    Foreground1(u8),
    /// After two foreground digits.
    Foreground2,
    /// After the comma that follows a foreground number.
    Comma,
    /// After one background digit, whose value is held.
    Background1(u8),
}

/// A color index that the color table does not hold.
#[derive(Clone, Copy, Debug, PartialEq, Eq)]
pub struct UnknownColor {
    /// The index that was asked for.
    pub color: u8,
}

/// The state of the machine between two bytes.
pub struct FilterState {
    /// Where the machine stands inside a color code.
    pub mode: IRCatState,
    /// Whether a color span is open, so that a reset is due at its end.
    pub in_color: bool,
}

/// What the machine makes of one byte, if it accepts it.
pub struct Step {
    /// The state after the byte.
    pub next: FilterState,
    /// The bytes emitted for it.
    pub output: Seq<u8>,
}

/// Whether `byte` is an ASCII digit.
pub open spec fn is_digit(byte: u8) -> bool {
    DIGIT_ZERO <= byte <= DIGIT_NINE
}

/// The value of an ASCII digit.
pub open spec fn digit_value(byte: u8) -> int
    recommends
        is_digit(byte),
{
    byte - DIGIT_ZERO
}

/// The reset sequence if a span is open, else nothing.
pub open spec fn closing(in_color: bool) -> Seq<u8> {
    if in_color {
        reset_sequence()
    } else {
        Seq::empty()
    }
}

/// The color index that `byte` completes in mode `mode`, if it completes one.
/// A second digit completes a two-digit number; any other byte after a single
/// digit completes that digit.
pub open spec fn selected_color(mode: IRCatState, byte: u8) -> Option<int> {
    match mode {
        IRCatState::Foreground1(digit) | IRCatState::Background1(digit) => Some(
            if is_digit(byte) {
                digit * 10 + digit_value(byte)
            } else {
                digit as int
            },
        ),
        _ => None,
    }
}

/// Whether the machine rejects `byte` in mode `mode`: the byte completes a
/// color index that the table does not hold.
pub open spec fn rejects(mode: IRCatState, byte: u8) -> bool {
    selected_color(mode, byte) matches Some(color) && color >= COLOR_COUNT
}

/// The state after `byte`, and the bytes emitted for it, where the machine
/// accepts the byte.
pub open spec fn step(state: FilterState, byte: u8) -> Step
    recommends
        !rejects(state.mode, byte),
{
    let normal = FilterState { mode: IRCatState::Normal, in_color: state.in_color };
    match state.mode {
        IRCatState::Normal => if byte == INTRODUCER {
            Step {
                next: FilterState { mode: IRCatState::Start, in_color: state.in_color },
                output: Seq::empty(),
            }
        } else if byte == NEWLINE {
            Step {
                next: FilterState { mode: IRCatState::Normal, in_color: false },
                output: closing(state.in_color).push(byte),
            }
        } else {
            Step { next: normal, output: seq![byte] }
        },
        IRCatState::Start => if is_digit(byte) {
            Step {
                next: FilterState {
                    mode: IRCatState::Foreground1(digit_value(byte) as u8),
                    in_color: true,
                },
                output: Seq::empty(),
            }
        } else {
            Step {
                next: FilterState { mode: IRCatState::Normal, in_color: false },
                output: closing(state.in_color).push(byte),
            }
        },
        IRCatState::Foreground1(digit) => if is_digit(byte) {
            Step {
                next: FilterState { mode: IRCatState::Foreground2, in_color: state.in_color },
                output: color_sequence(true, (digit * 10 + digit_value(byte)) as u8),
            }
        } else if byte == COMMA {
            Step {
                next: FilterState { mode: IRCatState::Comma, in_color: state.in_color },
                output: color_sequence(true, digit),
            }
        } else {
            Step { next: normal, output: color_sequence(true, digit).push(byte) }
        },
        IRCatState::Foreground2 => if byte == COMMA {
            Step {
                next: FilterState { mode: IRCatState::Comma, in_color: state.in_color },
                output: Seq::empty(),
            }
        } else {
            Step { next: normal, output: seq![byte] }
        },
        IRCatState::Comma => if is_digit(byte) {
            Step {
                next: FilterState {
                    mode: IRCatState::Background1(digit_value(byte) as u8),
                    in_color: state.in_color,
                },
                output: Seq::empty(),
            }
        } else {
            Step { next: normal, output: seq![COMMA, byte] }
        },
        IRCatState::Background1(digit) => if is_digit(byte) {
            Step {
                next: normal,
                output: color_sequence(false, (digit * 10 + digit_value(byte)) as u8),
            }
        } else {
            Step { next: normal, output: color_sequence(false, digit).push(byte) }
        },
    }
}

/// The state before the first byte of a stream.
pub open spec fn initial_state() -> FilterState {
    FilterState { mode: IRCatState::Normal, in_color: false }
}

/// What the machine makes of `input`, read from `state`: the bytes it emits
/// and the state it ends in. It stops at the first byte it rejects, with the
/// state and the output reached before that byte and the unknown color index
/// as the error.
pub open spec fn run(state: FilterState, input: Seq<u8>) -> Filtered<FilterState, UnknownColor>
    decreases input.len(),
{
    if input.len() == 0 {
        Filtered { state, output: Seq::empty(), error: None }
    } else if rejects(state.mode, input[0]) {
        Filtered {
            state,
            output: Seq::empty(),
            error: Some(UnknownColor { color: selected_color(state.mode, input[0])->0 as u8 }),
        }
    } else {
        let first = step(state, input[0]);
        let rest = run(first.next, input.skip(1));
        Filtered { state: rest.state, output: first.output + rest.output, error: rest.error }
    }
}

/// What the machine makes of `chunks`, fed one after the other from `state`:
/// each chunk is read from the state that the one before has left, and what
/// they emit is joined in order. A chunk that is rejected ends the run.
pub open spec fn run_chunks(state: FilterState, chunks: Seq<Seq<u8>>) -> Filtered<
    FilterState,
    UnknownColor,
>
    decreases chunks.len(),
{
    if chunks.len() == 0 {
        Filtered { state, output: Seq::empty(), error: None }
    } else {
        let first = run(state, chunks.first());
        if first.error is Some {
            first
        } else {
            let rest = run_chunks(first.state, chunks.drop_first());
            Filtered { state: rest.state, output: first.output + rest.output, error: rest.error }
        }
    }
}

impl FilterState {
    /// A held digit is at most 9, and inside a color code a span is open.
    pub open spec fn wf(self) -> bool {
        match self.mode {
            IRCatState::Normal | IRCatState::Start => true,
            IRCatState::Foreground1(digit) | IRCatState::Background1(digit) => digit <= 9
                && self.in_color,
            IRCatState::Foreground2 | IRCatState::Comma => self.in_color,
        }
    }
}

/// The filter that rewrites IRC color codes into ANSI escape sequences.
pub struct IRCatFilter {
    state: IRCatState,
    in_color: bool,
}

impl View for IRCatFilter {
    type V = FilterState;

    closed spec fn view(&self) -> FilterState {
        FilterState { mode: self.state, in_color: self.in_color }
    }
}

impl IRCatFilter {
    #[verifier::type_invariant]
    spec fn inv(self) -> bool {
        self@.wf()
    }

    /// Where the filter stands inside a color code.
    pub fn state(&self) -> (mode: IRCatState)
        ensures
            mode == self@.mode,
            self@.wf(),
    {
        proof {
            use_type_invariant(self);
        }
        self.state
    }

    /// Whether a color span is open.
    pub fn in_color(&self) -> (span_open: bool)
        ensures
            span_open == self@.in_color,
            self@.wf(),
    {
        proof {
            use_type_invariant(self);
        }
        self.in_color
    }
}

impl Filter for IRCatFilter {
    type Error = UnknownColor;

    open spec fn initial() -> FilterState {
        initial_state()
    }

    open spec fn filtered(state: FilterState, input: Seq<u8>) -> Filtered<
        FilterState,
        UnknownColor,
    > {
        run(state, input)
    }

    /// Creates a filter outside any color code, with no span open.
    fn init() -> (filter: Self)
        ensures
            filter@.wf(),
    {
        Self { state: IRCatState::Normal, in_color: false }
    }

    /// Rewrites `input` into `output`, from the state that the bytes fed
    /// before have left. Stops at the first byte that completes a color index
    /// outside the table and returns that index as the error.
    fn filter(&mut self, input: &[u8], output: &mut Vec<u8>) -> (result: Result<(), UnknownColor>)
        ensures
            final(self)@.wf(),
    {
        proof {
            use_type_invariant(&*self);
            assert(input@.skip(0) == input@);
        }
        output.reserve(input.len());
        let mut i: usize = 0;
        while i < input.len()
            invariant
                i <= input.len(),
                self@.wf(),
                run(old(self)@, input@).state == run(self@, input@.skip(i as int)).state,
                run(old(self)@, input@).error == run(self@, input@.skip(i as int)).error,
                old(output)@ + run(old(self)@, input@).output == output@ + run(
                    self@,
                    input@.skip(i as int),
                ).output,
            decreases input.len() - i,
        {
            let c = input[i];
            proof {
                assert(input@.skip(i as int).skip(1) == input@.skip(i + 1));
            }
            match self.state {
                IRCatState::Normal => {
                    if c == INTRODUCER {
                        self.state = IRCatState::Start;
                    } else if c == NEWLINE {
                        if self.in_color {
                            output_reset(output);
                            self.in_color = false;
                        }
                        output.push(c);
                    } else {
                        output.push(c);
                    }
                },
                IRCatState::Start => {
                    if DIGIT_ZERO <= c && c <= DIGIT_NINE {
                        self.in_color = true;
                        self.state = IRCatState::Foreground1(c - DIGIT_ZERO);
                    } else {
                        if self.in_color {
                            self.in_color = false;
                            output_reset(output);
                        }
                        output.push(c);
                        self.state = IRCatState::Normal;
                    }
                },
                IRCatState::Foreground1(digit) => {
                    if DIGIT_ZERO <= c && c <= DIGIT_NINE {
                        let fg_color: u8 = digit * 10 + (c - DIGIT_ZERO);
                        if fg_color >= COLOR_COUNT {
                            return Err(UnknownColor { color: fg_color });
                        }
                        output_color(output, true, fg_color);
                        self.state = IRCatState::Foreground2;
                    } else if c == COMMA {
                        output_color(output, true, digit);
                        self.state = IRCatState::Comma;
                    } else {
                        output_color(output, true, digit);
                        output.push(c);
                        self.state = IRCatState::Normal;
                    }
                },
                IRCatState::Foreground2 => {
                    if c == COMMA {
                        self.state = IRCatState::Comma;
                    } else {
                        output.push(c);
                        self.state = IRCatState::Normal;
                    }
                },
                IRCatState::Comma => {
                    if DIGIT_ZERO <= c && c <= DIGIT_NINE {
                        self.state = IRCatState::Background1(c - DIGIT_ZERO);
                    } else {
                        output.push(COMMA);
                        output.push(c);
                        self.state = IRCatState::Normal;
                    }
                },
                IRCatState::Background1(digit) => {
                    if DIGIT_ZERO <= c && c <= DIGIT_NINE {
                        let bg_color: u8 = digit * 10 + (c - DIGIT_ZERO);
                        if bg_color >= COLOR_COUNT {
                            return Err(UnknownColor { color: bg_color });
                        }
                        output_color(output, false, bg_color);
                        self.state = IRCatState::Normal;
                    } else {
                        output_color(output, false, digit);
                        output.push(c);
                        self.state = IRCatState::Normal;
                    }
                },
            }
            i += 1;
        }
        Ok(())
    }
}

} // verus!
