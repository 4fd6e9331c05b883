use crate::interner::{Interner, StrId};
use crate::native::Native;
use crate::number::{Comparison, Number, NumberOps};
use crate::text::{decimal, push_decimal};
use vstd::prelude::*;

verus! {

/// A value of the language.
///
/// An array value is a handle into the [`Heap`] of the machine that made it:
/// copying the value copies the handle, and all copies see one array.
#[derive(Clone, Copy, PartialEq, Eq, Structural, Debug)]
pub enum Value {
    Bool(bool),
    Number(Number),
    Str(StrId),
    Identifier(StrId),
    Array(usize),
    Function(usize),
    NativeFunction(Native),
    Nil,
}

/// The elements of one array.
pub type ValueArray = Vec<Value>;

impl Value {
    /// The name of the value's kind.
    pub open spec fn kind_name_spec(self) -> Seq<char> {
        match self {
            Value::Bool(_) => "Bool"@,
            Value::Number(_) => "Number"@,
            Value::Str(_) => "Str"@,
            Value::Identifier(_) => "Identifier"@,
            Value::Array(_) => "Array"@,
            Value::Function(_) => "Function"@,
            Value::NativeFunction(_) => "NativeFunction"@,
            Value::Nil => "Nil"@,
        }
    }

    /// The name of the value's kind.
    pub fn kind_name(&self) -> (s: &'static str)
        ensures
            s@ == self.kind_name_spec(),
    {
        match self {
            Value::Bool(_) => "Bool",
            Value::Number(_) => "Number",
            Value::Str(_) => "Str",
            Value::Identifier(_) => "Identifier",
            Value::Array(_) => "Array",
            Value::Function(_) => "Function",
            Value::NativeFunction(_) => "NativeFunction",
            Value::Nil => "Nil",
        }
    }

    /// Whether the value is `Nil`.
    pub fn is_nil(&self) -> (r: bool)
        ensures
            r == (*self == Value::Nil),
    {
        match self {
            Value::Nil => true,
            _ => false,
        }
    }
}

/// The arrays that a machine has made. An array's handle is its position
/// here; arrays are never removed, so a handle stays good.
pub struct Heap {
    pub arrays: Vec<ValueArray>,
}

impl View for Heap {
    type V = Seq<Seq<Value>>;

    open spec fn view(&self) -> Seq<Seq<Value>> {
        Seq::new(self.arrays@.len(), |i: int| self.arrays@[i]@)
    }
}

impl Heap {
    /// A heap without arrays.
    pub fn new() -> (heap: Heap)
        ensures
            heap@.len() == 0,
    {
        Heap { arrays: Vec::new() }
    }

    /// Makes an array of `len` elements, all `Nil`, and hands out its
    /// handle, which no earlier array has.
    pub fn allocate(&mut self, len: usize) -> (handle: usize)
        ensures
            handle == old(self)@.len(),
            final(self)@ == old(self)@.push(Seq::new(len as nat, |i: int| Value::Nil)),
    {
        let mut elements: Vec<Value> = Vec::new();
        let mut i: usize = 0;
        while i < len
            invariant
                i <= len,
                elements@ == Seq::new(i as nat, |k: int| Value::Nil),
            decreases len - i,
        {
            elements.push(Value::Nil);
            i += 1;
            assert(elements@ =~= Seq::new(i as nat, |k: int| Value::Nil));
        }
        let handle: usize = self.arrays.len();
        self.arrays.push(elements);
        assert(self@ =~= old(self)@.push(Seq::new(len as nat, |i: int| Value::Nil)));
        handle
    }

    /// The length of the array with this handle, if there is one.
    pub fn len_of(&self, handle: usize) -> (n: Option<usize>)
        ensures
            n is Some <==> handle < self@.len(),
            n is Some ==> n.unwrap() == self@[handle as int].len(),
    {
        if handle < self.arrays.len() {
            Some(self.arrays[handle].len())
        } else {
            None
        }
    }

    /// The element at `index` of the array with this handle, if both exist.
    pub fn get(&self, handle: usize, index: usize) -> (v: Option<Value>)
        ensures
            v == (if handle < self@.len() && index < self@[handle as int].len() {
                Some(self@[handle as int][index as int])
            } else {
                None
            }),
    {
        if handle < self.arrays.len() {
            if index < self.arrays[handle].len() {
                return Some(self.arrays[handle][index]);
            }
        }
        None
    }

    /// Replaces the element at `index` of the array with this handle, if
    /// both exist; says whether it did. Nothing else changes.
    pub fn set(&mut self, handle: usize, index: usize, value: Value) -> (done: bool)
        ensures
            done == (handle < old(self)@.len() && index < old(self)@[handle as int].len()),
            done ==> final(self)@ == old(self)@.update(
                handle as int,
                old(self)@[handle as int].update(index as int, value),
            ),
            !done ==> final(self)@ == old(self)@,
    {
        if handle < self.arrays.len() {
            if index < self.arrays[handle].len() {
                let mut elements: Vec<Value> = Vec::new();
                std::mem::swap(&mut elements, &mut self.arrays[handle]);
                elements.set(index, value);
                self.arrays.set(handle, elements);
                assert(self@ =~= old(self)@.update(
                    handle as int,
                    old(self)@[handle as int].update(index as int, value),
                ));
                return true;
            }
        }
        assert(self@ =~= old(self)@);
        false
    }
}

/// What the language's `==` says of two values, where `near` is what the
/// number arithmetic says of two numbers: numbers are equal when near,
/// booleans and strings when the same, `Nil` equals `Nil`, arrays are equal
/// only when they are one array, and everything else is unequal.
pub open spec fn equal_values(a: Value, b: Value, near: bool) -> bool {
    match (a, b) {
        (Value::Number(_), Value::Number(_)) => near,
        (Value::Bool(x), Value::Bool(y)) => x == y,
        (Value::Str(x), Value::Str(y)) => x == y,
        (Value::Nil, Value::Nil) => true,
        (Value::Array(x), Value::Array(y)) => x == y,
        _ => false,
    }
}

/// Whether `r` is what the language's `==` says of `a` and `b`: for two
/// numbers what `ops` may say of their being near, in this order, and
/// for every other pair what [`equal_values`] lays down.
pub open spec fn equal_under<N: NumberOps>(ops: &N, a: Value, b: Value, r: bool) -> bool {
    match (a, b) {
        (Value::Number(x), Value::Number(y)) => ops.compare_gives(Comparison::Near, x, y, r),
        _ => r == equal_values(a, b, false),
    }
}

/// The language's `==`. Two numbers are compared by `ops`; for every other
/// pair the answer is fixed: see [`equal_values`].
pub fn values_equal<N: NumberOps>(a: &Value, b: &Value, ops: &N) -> (r: bool)
    ensures
        exists|near: bool| r == equal_values(*a, *b, near),
        !(a is Number && b is Number) ==> r == equal_values(*a, *b, false),
        equal_under(ops, *a, *b, r),
{
    match (a, b) {
        (Value::Number(x), Value::Number(y)) => {
            let near = ops.compare(Comparison::Near, *x, *y);
            assert(near == equal_values(*a, *b, near));
            near
        },
        (Value::Bool(x), Value::Bool(y)) => {
            assert((*x == *y) == equal_values(*a, *b, false));
            *x == *y
        },
        (Value::Str(x), Value::Str(y)) => {
            assert((*x == *y) == equal_values(*a, *b, false));
            *x == *y
        },
        (Value::Nil, Value::Nil) => {
            assert(true == equal_values(*a, *b, false));
            true
        },
        (Value::Array(x), Value::Array(y)) => {
            assert((*x == *y) == equal_values(*a, *b, false));
            *x == *y
        },
        _ => {
            assert(false == equal_values(*a, *b, false));
            false
        },
    }
}

/// Whether a value counts as false, where `zero` is what the number
/// arithmetic says of a number being near zero: `Nil`, `false`, a number
/// near zero and an array without elements do.
pub open spec fn falsey(value: Value, heap: Seq<Seq<Value>>, zero: bool) -> bool {
    match value {
        Value::Nil => true,
        Value::Bool(b) => !b,
        Value::Number(_) => zero,
        Value::Array(handle) => 0 <= handle < heap.len() && heap[handle as int].len() == 0,
        _ => false,
    }
}

/// Whether `r` is whether `value` counts as false: for a number what
/// `ops` may say of its being near the number that `ops` may give for
/// 0, and for every other value what [`falsey`] lays down.
pub open spec fn falsey_under<N: NumberOps>(
    ops: &N,
    value: Value,
    heap: Seq<Seq<Value>>,
    r: bool,
) -> bool {
    match value {
        Value::Number(n) => exists|nought: Number| #[trigger]
            ops.number_gives(0, nought) && ops.compare_gives(Comparison::Near, n, nought, r),
        _ => r == falsey(value, heap, false),
    }
}

/// Whether a value counts as false. A number is compared with zero by
/// `ops`; for every other value the answer is fixed: see [`falsey`].
pub fn is_falsey<N: NumberOps>(value: &Value, heap: &Heap, ops: &N) -> (r: bool)
    ensures
        exists|zero: bool| r == falsey(*value, heap@, zero),
        !(value is Number) ==> r == falsey(*value, heap@, false),
        falsey_under(ops, *value, heap@, r),
{
    match value {
        Value::Nil => {
            assert(true == falsey(*value, heap@, false));
            true
        },
        Value::Bool(b) => {
            assert(!*b == falsey(*value, heap@, false));
            !*b
        },
        Value::Number(n) => {
            let nought = ops.from_integer(0);
            let zero = ops.compare(Comparison::Near, *n, nought);
            assert(zero == falsey(*value, heap@, zero));
            assert(ops.number_gives(0, nought));
            zero
        },
        Value::Array(handle) => {
            let r = match heap.len_of(*handle) {
                Some(n) => n == 0,
                None => false,
            };
            assert(r == falsey(*value, heap@, false));
            r
        },
        _ => {
            assert(false == falsey(*value, heap@, false));
            false
        },
    }
}

/// How deep arrays inside arrays are written out; an array that lies
/// deeper is written as `Array<...>`.
pub const MAX_TEXT_DEPTH: usize = 16;

/// How many elements of an array are written out; `...` stands for the
/// rest.
pub const MAX_TEXT_ELEMENTS: usize = 10;

/// The text of a value that is no number and no array, given the strings of
/// the interner. A handle that the interner does not know has no text.
pub open spec fn scalar_text(value: Value, strings: Seq<Seq<char>>) -> Option<Seq<char>> {
    match value {
        Value::Bool(b) => Some(
            if b {
                "true"@
            } else {
                "false"@
            },
        ),
        Value::Nil => Some("Nil"@),
        Value::Str(id) => Some(
            if 0 <= id.index() < strings.len() {
                strings[id.index()]
            } else {
                Seq::empty()
            },
        ),
        Value::Identifier(id) => Some(
            "Identifier: "@ + (if 0 <= id.index() < strings.len() {
                strings[id.index()]
            } else {
                Seq::empty()
            }),
        ),
        Value::Function(index) => Some("<Function "@ + decimal(index as nat) + ">"@),
        Value::NativeFunction(native) => Some("<Native Function "@ + native.name_spec() + ">"@),
        _ => None,
    }
}

/// The texts `parts[from..]`, each but the first of all parts after `, `.
pub open spec fn joined(parts: Seq<Seq<char>>, from: int) -> Seq<char>
    decreases parts.len() - from,
{
    if from < 0 || from >= parts.len() {
        Seq::empty()
    } else {
        (if from == 0 {
            Seq::<char>::empty()
        } else {
            ", "@
        }) + parts[from] + joined(parts, from + 1)
    }
}

/// The text of an array of `len` elements, given the texts of its first
/// elements: `Array<3 elements [1, 2, 3]>`, and `, ...` after the tenth
/// element of a longer array.
pub open spec fn array_text(len: nat, parts: Seq<Seq<char>>) -> Seq<char> {
    "Array<"@ + decimal(len) + " elements ["@ + joined(parts, 0) + (if len > MAX_TEXT_ELEMENTS {
        ", ..."@
    } else {
        Seq::<char>::empty()
    }) + "]>"@
}

/// Whether `text` is `value` written out, as far as that does not rest
/// on how the embedder writes numbers: a value that is no number and no
/// array is written as [`scalar_text`] lays down; an array is written
/// with its length and the texts of its first ten elements, each written
/// out in the same way, or as `Array<...>` where it lies deeper than
/// `depth` or is not in the heap. The text of a number is one that `ops`
/// may give for it.
pub open spec fn array_written<N: NumberOps>(
    ops: &N,
    value: Value,
    strings: Seq<Seq<char>>,
    heap: Seq<Seq<Value>>,
    depth: nat,
    text: Seq<char>,
) -> bool
    decreases depth,
{
    match value {
        Value::Array(handle) => {
            if depth == 0 || handle >= heap.len() {
                text == "Array<...>"@
            } else {
                exists|parts: Seq<Seq<char>>|
                    parts.len() == (if heap[handle as int].len() < MAX_TEXT_ELEMENTS {
                        heap[handle as int].len()
                    } else {
                        MAX_TEXT_ELEMENTS as nat
                    }) && text == #[trigger] array_text(heap[handle as int].len(), parts)
                        && forall|k: int|
                        0 <= k < parts.len() ==> array_written(
                            ops,
                            heap[handle as int][k],
                            strings,
                            heap,
                            (depth - 1) as nat,
                            #[trigger] parts[k],
                        )
            }
        },
        Value::Number(n) => ops.format_gives(n, text),
        _ => scalar_text(value, strings) is Some && text == scalar_text(value, strings).unwrap(),
    }
}

/// Writes an array of `len` elements out, given the texts of its first
/// elements.
pub fn array_as_string(len: usize, parts: &Vec<String>) -> (text: String)
    ensures
        text@ == array_text(len as nat, Seq::new(parts@.len(), |i: int| parts@[i]@)),
{
    let ghost views = Seq::new(parts@.len(), |i: int| parts@[i]@);
    let mut inner = String::new();
    let mut i: usize = parts.len();
    assert(joined(views, i as int) =~= Seq::<char>::empty());
    while i > 0
        invariant
            i <= parts@.len(),
            views == Seq::new(parts@.len(), |i: int| parts@[i]@),
            inner@ == joined(views, i as int),
        decreases i,
    {
        i -= 1;
        let mut piece = if i == 0 {
            String::new()
        } else {
            String::from_str(", ")
        };
        piece.append(parts[i].as_str());
        piece.append(inner.as_str());
        assert(piece@ =~= joined(views, i as int));
        inner = piece;
    }
    let mut text = String::from_str("Array<");
    push_decimal(&mut text, len);
    text.append(" elements [");
    text.append(inner.as_str());
    if len > MAX_TEXT_ELEMENTS {
        text.append(", ...");
    }
    text.append("]>");
    assert(text@ =~= array_text(len as nat, views));
    text
}

/// Writes a value out, the way the language prints it: a string as its
/// characters, `true`, `false`, `Nil`, a number as `ops` formats it, and an
/// array with its first ten elements.
pub fn value_as_string<N: NumberOps>(value: &Value, interner: &Interner, heap: &Heap, ops: &N) -> (text:
    String)
    ensures
        scalar_text(*value, interner@) is Some ==> text@ == scalar_text(*value, interner@).unwrap(),
        array_written(ops, *value, interner@, heap@, MAX_TEXT_DEPTH as nat, text@),
{
    value_as_string_within(value, interner, heap, ops, MAX_TEXT_DEPTH)
}

/// Writes a value out, with arrays inside arrays down to `depth` levels.
pub fn value_as_string_within<N: NumberOps>(
    value: &Value,
    interner: &Interner,
    heap: &Heap,
    ops: &N,
    depth: usize,
) -> (text: String)
    ensures
        scalar_text(*value, interner@) is Some ==> text@ == scalar_text(*value, interner@).unwrap(),
        array_written(ops, *value, interner@, heap@, depth as nat, text@),
    decreases depth,
{
    match value {
        Value::Number(n) => ops.format(*n),
        Value::Bool(b) => {
            if *b {
                String::from_str("true")
            } else {
                String::from_str("false")
            }
        },
        Value::Nil => String::from_str("Nil"),
        Value::Str(id) => {
            match interner.get(*id) {
                Some(s) => String::from_str(s),
                None => String::new(),
            }
        },
        Value::Identifier(id) => {
            let mut text = String::from_str("Identifier: ");
            match interner.get(*id) {
                Some(s) => {
                    text.append(s);
                },
                None => {
                    assert(text@ + Seq::<char>::empty() =~= text@);
                },
            }
            text
        },
        Value::Array(handle) => {
            if depth == 0 || *handle >= heap.arrays.len() {
                return String::from_str("Array<...>");
            }
            let len: usize = heap.arrays[*handle].len();
            let mut parts: Vec<String> = Vec::new();
            let mut i: usize = 0;
            while i < len && i < MAX_TEXT_ELEMENTS
                invariant
                    *handle < heap.arrays@.len(),
                    len == heap.arrays@[*handle as int]@.len(),
                    depth > 0,
                    i <= len,
                    i <= MAX_TEXT_ELEMENTS,
                    parts@.len() == i,
                    forall|k: int|
                        0 <= k < i ==> array_written(
                            ops,
                            heap@[*handle as int][k],
                            interner@,
                            heap@,
                            (depth - 1) as nat,
                            #[trigger] parts@[k]@,
                        ),
                decreases len - i,
            {
                let element = heap.arrays[*handle][i];
                assert(heap@[*handle as int] == heap.arrays@[*handle as int]@);
                parts.push(value_as_string_within(&element, interner, heap, ops, depth - 1));
                i += 1;
            }
            let text = array_as_string(len, &parts);
            proof {
                let views = Seq::new(parts@.len(), |i: int| parts@[i]@);
                assert(views.len() == parts@.len());
                assert(heap@[*handle as int] == heap.arrays@[*handle as int]@);
                assert(text@ == array_text(heap@[*handle as int].len(), views));
                assert forall|k: int| 0 <= k < views.len() implies array_written(
                    ops,
                    heap@[*handle as int][k],
                    interner@,
                    heap@,
                    (depth - 1) as nat,
                    #[trigger] views[k],
                ) by {
                    assert(views[k] == parts@[k]@);
                }
                assert(array_written(ops, *value, interner@, heap@, depth as nat, text@));
            }
            text
        },
        Value::Function(index) => {
            let mut text = String::from_str("<Function ");
            push_decimal(&mut text, *index);
            text.append(">");
            text
        },
        Value::NativeFunction(native) => {
            let mut text = String::from_str("<Native Function ");
            text.append(native.name());
            text.append(">");
            text
        },
    }
}

/// Equality of arrays is identity: two array values are equal exactly when
/// they are handles of one array, whatever the arrays hold.
pub proof fn lemma_array_equality_is_identity(a: usize, b: usize, near: bool)
    ensures
        equal_values(Value::Array(a), Value::Array(b), near) <==> a == b,
{
}

/// An array that is made later is another array: `allocate` hands out
/// handles in rising order, and the values of two arrays with different
/// handles are unequal, even where both arrays hold the same elements.
pub proof fn lemma_new_array_is_unequal(earlier: usize, made: usize, near: bool)
    requires
        earlier < made,
    ensures
        !equal_values(Value::Array(earlier), Value::Array(made), near),
{
}

} // verus!
