//! The canonical text of values: integers as `<value>i`, floating-point
//! values as `<value>f`, structures as `Struct(<field>, <field>, ...)`.

use vstd::prelude::*;
use vstd::string::StringExecFns;
use generational_arena::Arena;
use crate::arena::{heap_get, heap_objects};
use crate::id::Id;
use crate::object::{views, Object, ObjectView};
use crate::traits::DisplayArena;
use crate::value::{Value, ValueView};

verus! {

/// The character of a decimal digit.
pub open spec fn digit(d: int) -> char {
    if d == 0 {
        '0'
    } else if d == 1 {
        '1'
    } else if d == 2 {
        '2'
    } else if d == 3 {
        '3'
    } else if d == 4 {
        '4'
    } else if d == 5 {
        '5'
    } else if d == 6 {
        '6'
    } else if d == 7 {
        '7'
    } else if d == 8 {
        '8'
    } else {
        '9'
    }
}

/// The decimal digits of a natural number, most significant first, without
/// leading zeros.
pub open spec fn digits(n: nat) -> Seq<char>
    decreases n,
{
    if n < 10 {
        seq![digit(n as int)]
    } else {
        digits(n / 10).push(digit((n % 10) as int))
    }
}

/// An integer in decimal, with a minus sign in front of a negative one.
pub open spec fn decimal(i: int) -> Seq<char> {
    if i < 0 {
        seq!['-'] + digits((-i) as nat)
    } else {
        digits(i as nat)
    }
}

/// The one-character string of a decimal digit.
fn digit_str(d: u64) -> (s: &'static str)
    requires
        d < 10,
    ensures
        s@ == seq![digit(d as int)],
{
    proof {
        reveal_strlit("0");
        reveal_strlit("1");
        reveal_strlit("2");
        reveal_strlit("3");
        reveal_strlit("4");
        reveal_strlit("5");
        reveal_strlit("6");
        reveal_strlit("7");
        reveal_strlit("8");
        reveal_strlit("9");
    }
    let s = if d == 0 {
        "0"
    } else if d == 1 {
        "1"
    } else if d == 2 {
        "2"
    } else if d == 3 {
        "3"
    } else if d == 4 {
        "4"
    } else if d == 5 {
        "5"
    } else if d == 6 {
        "6"
    } else if d == 7 {
        "7"
    } else if d == 8 {
        "8"
    } else {
        "9"
    };
    assert(s@ =~= seq![digit(d as int)]);
    s
}

/// Appends the decimal digits of `n` to `out`.
fn push_digits(out: &mut String, n: u64)
    ensures
        final(out)@ == old(out)@ + digits(n as nat),
    decreases n,
{
    if n >= 10 {
        push_digits(out, n / 10);
    }
    out.append(digit_str(n % 10));
    proof {
        if n >= 10 {
            assert(final(out)@ =~= old(out)@ + digits(n as nat));
        } else {
            assert(final(out)@ =~= old(out)@ + digits(n as nat));
        }
    }
}

/// Appends `i` in decimal to `out`.
pub fn push_decimal(out: &mut String, i: i32)
    ensures
        final(out)@ == old(out)@ + decimal(i as int),
{
    let wide: i64 = i as i64;
    if wide < 0 {
        proof {
            reveal_strlit("-");
        }
        out.append("-");
        push_digits(out, (-wide) as u64);
        assert(final(out)@ =~= old(out)@ + decimal(i as int));
    } else {
        push_digits(out, wide as u64);
    }
}

/// The text that a printer gives for a floating-point value.
pub open spec fn float_text<R: Fn(u32) -> String>(printer: R, bits: u32) -> Seq<char> {
    (choose|out: String| call_ensures(printer, (bits,), out))@
}

/// A printer of floating-point values can be called on every bit pattern and
/// gives one text for each.
pub open spec fn is_printer<R: Fn(u32) -> String>(printer: R) -> bool {
    &&& forall|bits: u32| call_requires(printer, (bits,))
    &&& forall|bits: u32, a: String, b: String|
        call_ensures(printer, (bits,), a) && call_ensures(printer, (bits,), b) ==> a@ == b@
}

/// The text of `value`, or `None` where an identifier met in it is not live
/// or structures are nested more than `depth` deep in it.
pub open spec fn value_text<R: Fn(u32) -> String>(
    heap: Map<Id, ObjectView>,
    printer: R,
    value: ValueView,
    depth: nat,
) -> Option<Seq<char>>
    decreases depth, 0nat,
{
    match value {
        ValueView::Int(i) => Some(decimal(i as int) + "i"@),
        ValueView::Float(bits) => Some(float_text(printer, bits) + "f"@),
        ValueView::Struct(fields) => if depth == 0 {
            None
        } else {
            match rendering_of_fields(heap, printer, fields, fields.len(), (depth - 1) as nat) {
                Some(body) => Some("Struct("@ + body + ")"@),
                None => None,
            }
        },
    }
}

/// The text of the object under `id`, or `None` where `id` or an identifier
/// met on the way is not live, or structures are nested more than `depth`
/// deep.
pub open spec fn rendering<R: Fn(u32) -> String>(
    heap: Map<Id, ObjectView>,
    printer: R,
    id: Id,
    depth: nat,
) -> Option<Seq<char>>
    decreases depth, 1nat,
{
    if heap.contains_key(id) {
        value_text(heap, printer, heap[id].value, depth)
    } else {
        None
    }
}

/// The texts of the first `n` of `fields`, separated by a comma and a space.
pub open spec fn rendering_of_fields<R: Fn(u32) -> String>(
    heap: Map<Id, ObjectView>,
    printer: R,
    fields: Seq<Id>,
    n: nat,
    depth: nat,
) -> Option<Seq<char>>
    decreases depth, 2 + n,
{
    if n == 0 {
        Some(Seq::empty())
    } else {
        match (
            rendering_of_fields(heap, printer, fields, (n - 1) as nat, depth),
            rendering(heap, printer, fields[n - 1], depth),
        ) {
            (Some(head), Some(item)) => Some(
                if n == 1 {
                    item
                } else {
                    head + ", "@ + item
                },
            ),
            _ => None,
        }
    }
}

/// Where one field has no text, the fields up to and beyond it have none.
pub proof fn lemma_field_without_text<R: Fn(u32) -> String>(
    heap: Map<Id, ObjectView>,
    printer: R,
    fields: Seq<Id>,
    k: nat,
    n: nat,
    depth: nat,
)
    requires
        k < n,
        rendering(heap, printer, fields[k as int], depth) is None,
    ensures
        rendering_of_fields(heap, printer, fields, n, depth) is None,
    decreases n,
{
    if k + 1 < n {
        lemma_field_without_text(heap, printer, fields, k, (n - 1) as nat, depth);
    }
}

/// The text of a value does not depend on the depth allowed, once that
/// is enough for the value to have a text.
pub proof fn law_value_text_is_stable<R: Fn(u32) -> String>(
    heap: Map<Id, ObjectView>,
    printer: R,
    value: ValueView,
    depth: nat,
    more: nat,
)
    requires
        depth <= more,
        value_text(heap, printer, value, depth) is Some,
    ensures
        value_text(heap, printer, value, more) == value_text(heap, printer, value, depth),
    decreases depth, 0nat,
{
    match value {
        ValueView::Struct(fields) => {
            lemma_fields_text_is_stable(
                heap,
                printer,
                fields,
                fields.len(),
                (depth - 1) as nat,
                (more - 1) as nat,
            );
        },
        _ => {},
    }
}

/// The text of an object does not depend on the depth allowed, once that
/// is enough for the object to have a text.
pub proof fn law_text_is_stable<R: Fn(u32) -> String>(
    heap: Map<Id, ObjectView>,
    printer: R,
    id: Id,
    depth: nat,
    more: nat,
)
    requires
        depth <= more,
        rendering(heap, printer, id, depth) is Some,
    ensures
        rendering(heap, printer, id, more) == rendering(heap, printer, id, depth),
    decreases depth, 1nat,
{
    law_value_text_is_stable(heap, printer, heap[id].value, depth, more);
}

/// The text of the fields of a structure does not depend on the depth
/// allowed, once that is enough for them to have a text.
proof fn lemma_fields_text_is_stable<R: Fn(u32) -> String>(
    heap: Map<Id, ObjectView>,
    printer: R,
    fields: Seq<Id>,
    n: nat,
    depth: nat,
    more: nat,
)
    requires
        depth <= more,
        rendering_of_fields(heap, printer, fields, n, depth) is Some,
    ensures
        rendering_of_fields(heap, printer, fields, n, more) == rendering_of_fields(
            heap,
            printer,
            fields,
            n,
            depth,
        ),
    decreases depth, 2 + n,
{
    if n > 0 {
        lemma_fields_text_is_stable(heap, printer, fields, (n - 1) as nat, depth, more);
        law_text_is_stable(heap, printer, fields[n - 1], depth, more);
    }
}

impl<R: Fn(u32) -> String> DisplayArena<R> for Value {
    open spec fn text(&self, heap: Map<Id, ObjectView>, printer: R, depth: nat) -> Option<Seq<char>> {
        value_text(heap, printer, self@, depth)
    }

    fn display_arena(&self, arena: &Arena<Object>, printer: &R, depth: usize) -> (r: Option<String>)
        decreases depth, 0nat,
    {
        let ghost heap = views(heap_objects(*arena));
        match self {
            Value::Int(i) => {
                let mut out = String::new();
                push_decimal(&mut out, *i);
                out.append("i");
                proof {
                    assert(out@ =~= decimal(*i as int) + "i"@);
                }
                Some(out)
            },
            Value::Float(bits) => {
                let mut out = printer(*bits);
                out.append("f");
                Some(out)
            },
            Value::Struct(fields) => {
                if depth == 0 {
                    return None;
                }
                let mut out = String::new();
                let mut k: usize = 0;
                while k < fields.len()
                    invariant
                        k <= fields.len(),
                        depth > 0,
                        is_printer(*printer),
                        heap == views(heap_objects(*arena)),
                        self@ == ValueView::Struct(fields@),
                        rendering_of_fields(heap, *printer, fields@, k as nat, (depth - 1) as nat)
                            == Some(out@),
                    decreases fields.len() - k,
                {
                    let item = match heap_get(arena, fields[k]) {
                        Some(object) => object.display_arena(arena, printer, depth - 1),
                        None => None,
                    };
                    let item = match item {
                        Some(item) => item,
                        None => {
                            proof {
                                lemma_field_without_text(
                                    heap,
                                    *printer,
                                    fields@,
                                    k as nat,
                                    fields@.len(),
                                    (depth - 1) as nat,
                                );
                            }
                            return None;
                        },
                    };
                    if k > 0 {
                        out.append(", ");
                    }
                    out.append(item.as_str());
                    k += 1;
                }
                let mut text = String::from_str("Struct(");
                text.append(out.as_str());
                text.append(")");
                Some(text)
            },
        }
    }
}

impl<R: Fn(u32) -> String> DisplayArena<R> for Object {
    open spec fn text(&self, heap: Map<Id, ObjectView>, printer: R, depth: nat) -> Option<Seq<char>> {
        value_text(heap, printer, self.value@, depth)
    }

    fn display_arena(&self, arena: &Arena<Object>, printer: &R, depth: usize) -> (r: Option<String>)
        decreases depth, 1nat,
    {
        self.value.display_arena(arena, printer, depth)
    }
}

} // verus!
