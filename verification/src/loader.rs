//! What loading makes of a list of instructions and label markers.

use vstd::prelude::*;
use crate::instruction::InstructionView;
use crate::machine::Machine;
use crate::memory::Memory;

verus! {

/// The number of live objects above which a freshly loaded machine collects.
pub const DEFAULT_THRESHOLD: usize = 10;

/// The instructions among the first `n` entries of `input` that are stored,
/// in their order: all but the label markers.
pub open spec fn stored(input: Seq<InstructionView>, n: nat) -> Seq<InstructionView>
    decreases n,
{
    if n == 0 {
        Seq::empty()
    } else if input[n - 1].is_real() {
        stored(input, (n - 1) as nat).push(input[n - 1])
    } else {
        stored(input, (n - 1) as nat)
    }
}

/// The number of leading entries of `input`, among the first `n`, up to and
/// including the last one that is stored. Label markers beyond it are
/// followed by no instruction.
pub open spec fn bound_part(input: Seq<InstructionView>, n: nat) -> nat
    decreases n,
{
    if n == 0 {
        0
    } else if input[n - 1].is_real() {
        n
    } else {
        bound_part(input, (n - 1) as nat)
    }
}

/// The label table of the first `n` entries of `input`, each of whose label
/// markers is followed by an instruction: a name stands for the position of
/// the next stored instruction, which is the number of instructions stored
/// before the marker. Of two markers with one name the later counts.
pub open spec fn bindings(input: Seq<InstructionView>, n: nat) -> Map<Seq<char>, int>
    decreases n,
{
    if n == 0 {
        Map::empty()
    } else {
        let before = bindings(input, (n - 1) as nat);
        match input[n - 1] {
            InstructionView::Label(name) => before.insert(
                name,
                stored(input, (n - 1) as nat).len() as int,
            ),
            _ => before,
        }
    }
}

/// The machine that loading `input` gives: an empty memory that collects
/// above [`DEFAULT_THRESHOLD`] objects, the stored instructions, the label
/// table without the markers that no instruction follows, the instruction
/// pointer at the first instruction if there is one, and no locals.
pub open spec fn loaded(input: Seq<InstructionView>) -> Machine {
    let code = stored(input, input.len());
    Machine {
        memory: Memory {
            heap: Map::empty(),
            stack: Seq::empty(),
            threshold: DEFAULT_THRESHOLD,
            gc_enabled: true,
            generation: 0,
        },
        code,
        labels: bindings(input, bound_part(input, input.len())),
        ip: if code.len() > 0 {
            Some(0)
        } else {
            None
        },
        locals: Seq::empty(),
    }
}

/// Every label that loading binds stands for a position in the stored code.
pub proof fn law_labels_point_into_code(input: Seq<InstructionView>, n: nat, name: Seq<char>)
    requires
        n <= input.len(),
        bindings(input, bound_part(input, n)).contains_key(name),
    ensures
        0 <= bindings(input, bound_part(input, n))[name] < stored(input, n).len(),
    decreases n,
{
    if n > 0 {
        if input[n - 1].is_real() {
            lemma_bindings_below(input, n, name);
        } else {
            law_labels_point_into_code(input, (n - 1) as nat, name);
        }
    }
}

/// A label among the first `n` entries stands for a position that is at most
/// the number of instructions stored among them.
pub proof fn lemma_bindings_below(input: Seq<InstructionView>, n: nat, name: Seq<char>)
    requires
        bindings(input, n).contains_key(name),
    ensures
        0 <= bindings(input, n)[name] <= stored(input, n).len(),
        n > 0 && input[n - 1].is_real() ==> bindings(input, n)[name] < stored(input, n).len(),
    decreases n,
{
    if n > 0 {
        let before = bindings(input, (n - 1) as nat);
        match input[n - 1] {
            InstructionView::Label(label) => {
                if label != name {
                    lemma_bindings_below(input, (n - 1) as nat, name);
                }
            },
            _ => {
                lemma_bindings_below(input, (n - 1) as nat, name);
            },
        }
    }
}

} // verus!
