use vstd::prelude::*;
use crate::instruction::{instruction_of, load, tokens, Instruction};
use crate::memory::{TapeState, TAPE_LEN};
use crate::program::{
    effect_spec, scan_backward, scan_forward, scan_target, step_spec, transition, Effect,
    MachineState,
};

verus! {

/// Opening brackets minus closing brackets among the first `k` instructions.
pub open spec fn depth(s: Seq<Instruction>, k: int) -> int
    decreases k,
{
    if k <= 0 || k > s.len() {
        0
    } else {
        depth(s, k - 1) + if s[k - 1] is JumpIfZero {
            1int
        } else if s[k - 1] is JumpIfNonZero {
            -1int
        } else {
            0int
        }
    }
}

/// The brackets are balanced and none lies inside another loop: every
/// prefix opens at most one loop more than it closes, and never fewer.
pub open spec fn flat_balanced(s: Seq<Instruction>) -> bool {
    &&& forall|k: int| 0 <= k <= s.len() ==> 0 <= #[trigger] depth(s, k) <= 1
    &&& depth(s, s.len() as int) == 0
}

/// The `]` that closes a loop whose body starts at `k`, counting nesting
/// depth `d`; -1 when there is none.
pub open spec fn depth_close(s: Seq<Instruction>, k: int, d: int) -> int
    decreases s.len() - k,
{
    if k < 0 || k >= s.len() {
        -1
    } else if s[k] is JumpIfNonZero {
        if d == 0 {
            k
        } else {
            depth_close(s, k + 1, d - 1)
        }
    } else if s[k] is JumpIfZero {
        depth_close(s, k + 1, d + 1)
    } else {
        depth_close(s, k + 1, d)
    }
}

/// The `[` that opens a loop whose body ends just before `k`, counting
/// nesting depth `d`; -1 when there is none.
pub open spec fn depth_open(s: Seq<Instruction>, k: int, d: int) -> int
    decreases k,
{
    if k <= 0 || k > s.len() {
        -1
    } else if s[k - 1] is JumpIfZero {
        if d == 0 {
            k - 1
        } else {
            depth_open(s, k - 1, d - 1)
        }
    } else if s[k - 1] is JumpIfNonZero {
        depth_open(s, k - 1, d + 1)
    } else {
        depth_open(s, k - 1, d)
    }
}

/// The true partner of the bracket at `ip`, found by depth counting.
pub open spec fn matched_target(s: Seq<Instruction>, ip: int) -> int {
    if s[ip] is JumpIfZero {
        depth_close(s, ip + 1, 0)
    } else {
        depth_open(s, ip, 0)
    }
}

/// One step of the textbook semantics, where each bracket jumps to its
/// depth-matched partner.
pub open spec fn reference_step(v: MachineState, input: Option<u8>) -> MachineState {
    transition(
        v,
        input,
        if 0 <= v.ip < v.instrs.len() {
            matched_target(v.instrs, v.ip)
        } else {
            -1
        },
    )
}

/// The engine's state after one step per entry of `inputs`, each entry being
/// the byte available to that step.
pub open spec fn engine_run(v: MachineState, inputs: Seq<Option<u8>>) -> MachineState
    decreases inputs.len(),
{
    if inputs.len() == 0 {
        v
    } else {
        engine_run(step_spec(v, inputs[0]), inputs.drop_first())
    }
}

/// The bytes that the engine emits over the steps of `engine_run`.
pub open spec fn engine_output(v: MachineState, inputs: Seq<Option<u8>>) -> Seq<u8>
    decreases inputs.len(),
{
    if inputs.len() == 0 {
        Seq::empty()
    } else {
        let emitted = match effect_spec(v, inputs[0]) {
            Effect::Output(b) => seq![b],
            _ => Seq::empty(),
        };
        emitted + engine_output(step_spec(v, inputs[0]), inputs.drop_first())
    }
}

/// The textbook semantics' state after one step per entry of `inputs`.
pub open spec fn reference_run(v: MachineState, inputs: Seq<Option<u8>>) -> MachineState
    decreases inputs.len(),
{
    if inputs.len() == 0 {
        v
    } else {
        reference_run(reference_step(v, inputs[0]), inputs.drop_first())
    }
}

/// Number of output instructions in `s`.
pub open spec fn count_outputs(s: Seq<Instruction>) -> nat
    decreases s.len(),
{
    if s.len() == 0 {
        0
    } else {
        count_outputs(s.drop_last()) + if s.last() is Output {
            1nat
        } else {
            0nat
        }
    }
}

/// No instruction of `s` is a bracket.
pub open spec fn bracket_free(s: Seq<Instruction>) -> bool {
    forall|i: int| 0 <= i < s.len() ==> !(#[trigger] s[i] is JumpIfZero) && !(s[i] is JumpIfNonZero)
}

proof fn lemma_forward(s: Seq<Instruction>, k: int)
    requires
        flat_balanced(s),
        0 <= k <= s.len(),
        depth(s, k) == 1,
    ensures
        depth_close(s, k, 0) == scan_forward(s, k),
    decreases s.len() - k,
{
    if k < s.len() {
        assert(depth(s, k + 1) == depth(s, k) + if s[k] is JumpIfZero {
            1int
        } else if s[k] is JumpIfNonZero {
            -1int
        } else {
            0int
        });
        if !(s[k] is JumpIfNonZero) {
            lemma_forward(s, k + 1);
        }
    }
}

proof fn lemma_backward(s: Seq<Instruction>, k: int)
    requires
        flat_balanced(s),
        0 <= k <= s.len(),
        depth(s, k) == 1,
    ensures
        depth_open(s, k, 0) == scan_backward(s, k),
    decreases k,
{
    if k > 0 {
        assert(0 <= depth(s, k - 1) <= 1);
        if !(s[k - 1] is JumpIfZero) {
            lemma_backward(s, k - 1);
        }
    }
}

/// In a program whose brackets are balanced and not nested, the nearest
/// opposite bracket that the engine scans for is the bracket's true partner.
pub proof fn lemma_scan_finds_partner(s: Seq<Instruction>, ip: int)
    requires
        flat_balanced(s),
        0 <= ip < s.len(),
        s[ip] is JumpIfZero || s[ip] is JumpIfNonZero,
    ensures
        scan_target(s, ip) == matched_target(s, ip),
{
    assert(0 <= depth(s, ip) <= 1);
    assert(0 <= depth(s, ip + 1) <= 1);
    if s[ip] is JumpIfZero {
        lemma_forward(s, ip + 1);
    } else {
        lemma_backward(s, ip);
    }
}

/// For a program whose brackets are balanced and not nested, every step of
/// the engine agrees with the textbook semantics.
pub proof fn lemma_step_matches_reference(v: MachineState, input: Option<u8>)
    requires
        flat_balanced(v.instrs),
    ensures
        step_spec(v, input) == reference_step(v, input),
{
    if 0 <= v.ip < v.instrs.len() && (v.instrs[v.ip] is JumpIfZero
        || v.instrs[v.ip] is JumpIfNonZero) {
        lemma_scan_finds_partner(v.instrs, v.ip);
    }
}

/// For a program whose brackets are balanced and not nested, any run of the
/// engine ends in the same state, tape included, as the textbook semantics.
pub proof fn lemma_run_matches_reference(v: MachineState, inputs: Seq<Option<u8>>)
    requires
        flat_balanced(v.instrs),
    ensures
        engine_run(v, inputs) == reference_run(v, inputs),
        engine_run(v, inputs).tape == reference_run(v, inputs).tape,
    decreases inputs.len(),
{
    if inputs.len() > 0 {
        lemma_step_matches_reference(v, inputs[0]);
        lemma_run_matches_reference(step_spec(v, inputs[0]), inputs.drop_first());
    }
}

/// A pointer move that would leave the tape, below cell 0 or at
/// `TAPE_LEN` and beyond, changes nothing; repeating it changes nothing either.
pub proof fn lemma_move_off_tape_is_noop(t: TapeState, delta: int)
    requires
        t.wf(),
        t.dp + delta < 0 || t.dp + delta >= TAPE_LEN,
    ensures
        t.moved(delta) == t,
        t.moved(delta).moved(delta) == t,
{
}

/// An increment of a cell holding 255 and a decrement of a cell holding 0
/// leave the tape as it was.
pub proof fn lemma_saturation(t: TapeState)
    requires
        t.wf(),
    ensures
        t.current() == 255 ==> t.incremented() == t,
        t.current() == 0 ==> t.decremented() == t,
{
}

proof fn lemma_count_concat(a: Seq<Instruction>, b: Seq<Instruction>)
    ensures
        count_outputs(a + b) == count_outputs(a) + count_outputs(b),
    decreases b.len(),
{
    if b.len() == 0 {
        assert(a + b =~= a);
    } else {
        assert((a + b).drop_last() =~= a + b.drop_last());
        lemma_count_concat(a, b.drop_last());
    }
}

proof fn lemma_load_tokens(s: Seq<char>)
    ensures
        count_outputs(load(s)) == count_outputs(tokens(s)),
        bracket_free(tokens(s)) ==> bracket_free(load(s)),
    decreases s.len(),
{
    if s.len() > 0 {
        assert(tokens(s).drop_last() =~= tokens(s.drop_last()));
        assert(tokens(s).last() == instruction_of(s.last()));
        lemma_load_tokens(s.drop_last());
        let rest = load(s.drop_last());
        assert(rest.push(instruction_of(s.last())).drop_last() =~= rest);
        if bracket_free(tokens(s)) {
            assert(tokens(s)[s.len() - 1] == instruction_of(s.last()));
            assert(bracket_free(tokens(s.drop_last()))) by {
                assert forall|i: int| 0 <= i < tokens(s.drop_last()).len() implies
                    !(#[trigger] tokens(s.drop_last())[i] is JumpIfZero)
                    && !(tokens(s.drop_last())[i] is JumpIfNonZero) by {
                    assert(tokens(s.drop_last())[i] == tokens(s)[i]);
                }
            }
        }
    }
}

proof fn lemma_straight_run(v: MachineState, inputs: Seq<Option<u8>>)
    requires
        bracket_free(v.instrs),
        0 <= v.ip <= v.instrs.len(),
        inputs.len() == v.instrs.len() - v.ip,
        forall|i: int| 0 <= i < inputs.len() ==> #[trigger] inputs[i] is Some,
    ensures
        engine_output(v, inputs).len() == count_outputs(v.instrs.subrange(v.ip, v.instrs.len() as int)),
        engine_run(v, inputs).ip == v.instrs.len(),
    decreases inputs.len(),
{
    let s = v.instrs;
    if inputs.len() == 0 {
        assert(s.subrange(v.ip, s.len() as int) =~= Seq::empty());
    } else {
        assert(inputs[0] is Some);
        assert(!(s[v.ip] is JumpIfZero) && !(s[v.ip] is JumpIfNonZero));
        let next = step_spec(v, inputs[0]);
        assert(next.ip == v.ip + 1);
        assert(next.instrs == s);
        lemma_straight_run(next, inputs.drop_first());
        assert(s.subrange(v.ip, s.len() as int) =~= seq![s[v.ip]] + s.subrange(v.ip + 1, s.len() as int));
        lemma_count_concat(seq![s[v.ip]], s.subrange(v.ip + 1, s.len() as int));
        assert(count_outputs(seq![s[v.ip]]) == if s[v.ip] is Output { 1nat } else { 0nat }) by {
            assert(seq![s[v.ip]].drop_last() =~= Seq::<Instruction>::empty());
            assert(seq![s[v.ip]].last() == s[v.ip]);
            assert(count_outputs(Seq::<Instruction>::empty()) == 0);
        }
    }
}

/// A source text without brackets, loaded on a fresh tape and run until it
/// halts with input available to every step, emits exactly one byte per `.`
/// in the text and ends one past its last instruction.
pub proof fn lemma_output_count(src: Seq<char>, inputs: Seq<Option<u8>>)
    requires
        forall|i: int| 0 <= i < src.len() ==> #[trigger] src[i] != '[' && src[i] != ']',
        inputs.len() == load(src).len(),
        forall|i: int| 0 <= i < inputs.len() ==> #[trigger] inputs[i] is Some,
    ensures
        ({
            let start = MachineState { instrs: load(src), ip: 0, tape: TapeState::fresh() };
            &&& engine_output(start, inputs).len() == count_outputs(tokens(src))
            &&& engine_run(start, inputs).ip == load(src).len()
        }),
{
    let start = MachineState { instrs: load(src), ip: 0, tape: TapeState::fresh() };
    assert(bracket_free(tokens(src))) by {
        assert forall|i: int| 0 <= i < tokens(src).len() implies
            !(#[trigger] tokens(src)[i] is JumpIfZero) && !(tokens(src)[i] is JumpIfNonZero) by {
            assert(src[i] != '[' && src[i] != ']');
        }
    }
    lemma_load_tokens(src);
    lemma_straight_run(start, inputs);
    assert(load(src).subrange(0, load(src).len() as int) =~= load(src));
}

/// A source text with no instruction characters loads as an empty stream,
/// and the program built from it halts at once, leaving its tape untouched.
pub proof fn lemma_no_instructions(src: Seq<char>, tape: TapeState, input: Option<u8>)
    requires
        forall|i: int| 0 <= i < src.len() ==> #[trigger] instruction_of(src[i]) is Discard,
    ensures
        load(src).len() == 0,
        ({
            let v = MachineState { instrs: load(src), ip: 0, tape };
            &&& step_spec(v, input) == v
            &&& effect_spec(v, input) == Effect::Halted
        }),
    decreases src.len(),
{
    if src.len() > 0 {
        assert(instruction_of(src[src.len() - 1]) is Discard);
        lemma_no_instructions(src.drop_last(), tape, input);
    }
}

} // verus!
