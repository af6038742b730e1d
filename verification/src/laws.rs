//! What holds of the state machine on every input.

use vstd::prelude::*;

use crate::color::{reset_sequence, INTRODUCER, NEWLINE};
use crate::filter::Filtered;
use crate::machine::{
    initial_state, rejects, run, run_chunks, selected_color, step, FilterState, IRCatState,
    UnknownColor,
};

verus! {

/// Nothing is emitted for an empty input, and the state stays as it is.
pub proof fn lemma_empty_input(state: FilterState)
    ensures
        run(state, Seq::empty()) == (Filtered::<FilterState, UnknownColor> {
            state,
            output: Seq::empty(),
            error: None,
        }),
{
}

/// Every step of the machine leads from a well-formed state to a well-formed
/// state.
pub proof fn lemma_step_keeps_wf(state: FilterState, byte: u8)
    requires
        state.wf(),
    ensures
        step(state, byte).next.wf(),
{
}

/// The machine ends every input in a well-formed state, if it started in
/// one.
pub proof fn lemma_run_keeps_wf(state: FilterState, input: Seq<u8>)
    requires
        state.wf(),
    ensures
        run(state, input).state.wf(),
    decreases input.len(),
{
    if input.len() != 0 && !rejects(state.mode, input[0]) {
        lemma_step_keeps_wf(state, input[0]);
        lemma_run_keeps_wf(step(state, input[0]).next, input.skip(1));
    }
}

/// An input without the introducer byte, read outside any color code and
/// with no span open, comes out byte for byte and leaves the state as it
/// was.
pub proof fn lemma_plain_input_unchanged(input: Seq<u8>)
    requires
        !input.contains(INTRODUCER),
    ensures
        run(initial_state(), input) == (Filtered::<FilterState, UnknownColor> {
            state: initial_state(),
            output: input,
            error: None,
        }),
    decreases input.len(),
{
    if input.len() != 0 {
        let rest = input.skip(1);
        assert(!rest.contains(INTRODUCER));
        lemma_plain_input_unchanged(rest);
        assert(seq![input[0]] + rest == input);
    } else {
        assert(input == Seq::<u8>::empty());
    }
}

/// Text without introducer or newline, read outside any color code, comes
/// out byte for byte and leaves the state as it was, whether a span is open
/// or not.
pub proof fn lemma_text_passes_through(state: FilterState, text: Seq<u8>)
    requires
        state.mode == IRCatState::Normal,
        !text.contains(INTRODUCER),
        !text.contains(NEWLINE),
    ensures
        run(state, text) == (Filtered::<FilterState, UnknownColor> {
            state,
            output: text,
            error: None,
        }),
    decreases text.len(),
{
    if text.len() != 0 {
        let rest = text.skip(1);
        assert(!rest.contains(INTRODUCER) && !rest.contains(NEWLINE));
        lemma_text_passes_through(state, rest);
        assert(seq![text[0]] + rest == text);
    } else {
        assert(text == Seq::<u8>::empty());
    }
}

/// A span that is open when a line of text ends is closed there: the reset
/// sequence comes out right before the newline, and no span is open after
/// it. The line is read outside any color code and holds no introducer.
pub proof fn lemma_newline_closes_span(state: FilterState, text: Seq<u8>)
    requires
        state.mode == IRCatState::Normal,
        state.in_color,
        !text.contains(INTRODUCER),
        !text.contains(NEWLINE),
    ensures
        run(state, text.push(NEWLINE)) == (Filtered::<FilterState, UnknownColor> {
            state: initial_state(),
            output: text + reset_sequence() + seq![NEWLINE],
            error: None,
        }),
{
    lemma_text_passes_through(state, text);
    lemma_run_concat(state, text, seq![NEWLINE]);
    let line_end = seq![NEWLINE];
    assert(run(step(state, NEWLINE).next, line_end.skip(1)).output == Seq::<u8>::empty());
    assert(text.push(NEWLINE) == text + line_end);
    assert(text + (reset_sequence().push(NEWLINE) + Seq::<u8>::empty()) == text
        + reset_sequence() + seq![NEWLINE]);
}

/// Splitting an input in two changes nothing: reading `head` and then
/// `tail` from the state that `head` has left emits the same bytes, ends in
/// the same state and fails on the same color index as reading the whole
/// input at once. Once `head` is rejected, `tail` is not read.
pub proof fn lemma_run_concat(state: FilterState, head: Seq<u8>, tail: Seq<u8>)
    ensures
        run(state, head).error is Some ==> run(state, head + tail) == run(state, head),
        run(state, head).error is None ==> run(state, head + tail) == (Filtered::<
            FilterState,
            UnknownColor,
        > {
            state: run(run(state, head).state, tail).state,
            output: run(state, head).output + run(run(state, head).state, tail).output,
            error: run(run(state, head).state, tail).error,
        }),
    decreases head.len(),
{
    let first = run(state, head);
    let second = run(first.state, tail);
    if head.len() != 0 && !rejects(state.mode, head[0]) {
        assert((head + tail).skip(1) == head.skip(1) + tail);
        let next = step(state, head[0]);
        lemma_run_concat(next.next, head.skip(1), tail);
        let inner = run(next.next, head.skip(1));
        if inner.error is None {
            assert(next.output + (inner.output + second.output) == (next.output + inner.output)
                + second.output);
        }
    }
}

/// However an input is split into chunks, feeding the chunks one after the
/// other emits the same bytes, ends in the same state and fails on the same
/// color index as reading the whole input at once.
pub proof fn lemma_chunks_do_not_matter(state: FilterState, chunks: Seq<Seq<u8>>)
    ensures
        run_chunks(state, chunks) == run(state, chunks.flatten()),
    decreases chunks.len(),
{
    if chunks.len() != 0 {
        let first = run(state, chunks.first());
        let rest = chunks.drop_first();
        lemma_run_concat(state, chunks.first(), rest.flatten());
        if first.error is None {
            lemma_chunks_do_not_matter(first.state, rest);
        }
    }
}

/// A byte that completes a color index outside the table ends the run: the
/// error names that index, and nothing is emitted for the byte or for what
/// follows it. Here the byte stands at `at`, and the input before it is
/// accepted.
pub proof fn lemma_unknown_color_ends_run(state: FilterState, input: Seq<u8>, at: int)
    requires
        0 <= at < input.len(),
        run(state, input.take(at)).error is None,
        rejects(run(state, input.take(at)).state.mode, input[at]),
    ensures
        run(state, input) == (Filtered::<FilterState, UnknownColor> {
            state: run(state, input.take(at)).state,
            output: run(state, input.take(at)).output,
            error: Some(
                UnknownColor {
                    color: selected_color(
                        run(state, input.take(at)).state.mode,
                        input[at],
                    )->0 as u8,
                },
            ),
        }),
        selected_color(run(state, input.take(at)).state.mode, input[at])->0 >= 16,
{
    let head = input.take(at);
    let tail = input.skip(at);
    assert(head + tail == input);
    lemma_run_concat(state, head, tail);
}

} // verus!
