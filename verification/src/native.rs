use crate::globals::{globals_insert, Globals};
use crate::interner::{handle_of, has_room, interned, Interner, StrId};
use crate::number::{reading, same_text, Comparison, Number, NumberOps, Unary};
use crate::value::{value_as_string, values_equal, Heap, Value};
use crate::vm::{to_index, Signal, ERR_STRING};
use vstd::prelude::*;

verus! {

/// The built-in functions that scripts can call.
#[derive(Clone, Copy, PartialEq, Eq, Structural, Debug)]
pub enum Native {
    Clock,
    Sleep,
    Print,
    ReadString,
    ReadNumber,
    ReadBool,
    TypeOf,
    ToString,
    ToNumber,
    StringAt,
    StrLen,
    ArrLen,
    Ceil,
    Floor,
    Abs,
    Sort,
    IndexOf,
    Rand,
}

impl Native {
    /// How many arguments the function takes.
    pub open spec fn arity_spec(self) -> nat {
        match self {
            Native::Clock | Native::ReadBool | Native::Rand => 0,
            Native::StringAt | Native::IndexOf => 2,
            _ => 1,
        }
    }

    /// The name under which scripts find the function.
    pub open spec fn name_spec(self) -> Seq<char> {
        match self {
            Native::Clock => "Clock"@,
            Native::Sleep => "Sleep"@,
            Native::Print => "Print"@,
            Native::ReadString => "ReadString"@,
            Native::ReadNumber => "ReadNumber"@,
            Native::ReadBool => "ReadBool"@,
            Native::TypeOf => "TypeOf"@,
            Native::ToString => "ToString"@,
            Native::ToNumber => "ToNumber"@,
            Native::StringAt => "StringAt"@,
            Native::StrLen => "StrLen"@,
            Native::ArrLen => "ArrLen"@,
            Native::Ceil => "Ceil"@,
            Native::Floor => "Floor"@,
            Native::Abs => "Abs"@,
            Native::Sort => "Sort"@,
            Native::IndexOf => "IndexOf"@,
            Native::Rand => "Rand"@,
        }
    }

    /// Whether the function takes its first argument from the embedder's
    /// reader.
    pub open spec fn reads_input(self) -> bool {
        self == Native::ReadString || self == Native::ReadNumber || self == Native::ReadBool
    }

    /// How many arguments the function takes.
    pub fn arity(self) -> (n: usize)
        ensures
            n == self.arity_spec(),
            n <= 2,
    {
        match self {
            Native::Clock | Native::ReadBool | Native::Rand => 0,
            Native::StringAt | Native::IndexOf => 2,
            _ => 1,
        }
    }

    /// The name under which scripts find the function.
    pub fn name(self) -> (s: &'static str)
        ensures
            s@ == self.name_spec(),
    {
        match self {
            Native::Clock => "Clock",
            Native::Sleep => "Sleep",
            Native::Print => "Print",
            Native::ReadString => "ReadString",
            Native::ReadNumber => "ReadNumber",
            Native::ReadBool => "ReadBool",
            Native::TypeOf => "TypeOf",
            Native::ToString => "ToString",
            Native::ToNumber => "ToNumber",
            Native::StringAt => "StringAt",
            Native::StrLen => "StrLen",
            Native::ArrLen => "ArrLen",
            Native::Ceil => "Ceil",
            Native::Floor => "Floor",
            Native::Abs => "Abs",
            Native::Sort => "Sort",
            Native::IndexOf => "IndexOf",
            Native::Rand => "Rand",
        }
    }

    /// Whether the function takes its first argument from the embedder's
    /// reader.
    pub fn takes_input(self) -> (r: bool)
        ensures
            r == self.reads_input(),
    {
        match self {
            Native::ReadString | Native::ReadNumber | Native::ReadBool => true,
            _ => false,
        }
    }
}

/// `web_time::SystemTime::now`, measured by `duration_since` from
/// `web_time::UNIX_EPOCH`, in milliseconds. `None` when the clock reads a
/// time before the epoch. Nothing is claimed of the number.
#[verifier::external_body]
fn now_millis() -> (millis: Option<u128>) {
    match web_time::SystemTime::now().duration_since(web_time::UNIX_EPOCH) {
        Ok(elapsed) => Some(elapsed.as_millis()),
        Err(_) => None,
    }
}

/// `rand::random`: a random `u32`. Nothing is claimed of it.
#[verifier::external_body]
fn random_u32() -> (n: u32) {
    rand::random::<u32>()
}

/// What a native hands back: its result, and what it asks of the embedder.
#[derive(Debug)]
pub struct NativeOutcome {
    pub value: Value,
    pub signal: Option<Signal>,
}

/// Whether `later` are the globals after the error global was set to
/// `message`: it holds the string `message`, if the interner holds that
/// string and the error global's name afterwards; else nothing changed.
pub open spec fn error_set(
    strings: Seq<Seq<char>>,
    globals: Map<u32, Value>,
    later: Map<u32, Value>,
    message: Seq<char>,
) -> bool {
    if strings.contains(ERR_STRING@) && strings.contains(message) {
        later == globals.insert(
            strings.index_of(ERR_STRING@) as u32,
            Value::Str(StrId(strings.index_of(message) as u32)),
        )
    } else {
        later == globals
    }
}

/// Tells the script why a native failed: sets the error global to the
/// string `message`.
pub fn set_global_error(interner: &mut Interner, globals: &mut Globals, message: &str)
    requires
        old(interner).wf(),
    ensures
        final(interner).wf(),
        old(interner).kept_by(final(interner)),
        final(interner)@ == interned(interned(old(interner)@, ERR_STRING@), message@),
        error_set(final(interner)@, old(globals)@, final(globals)@, message@),
{
    let name = interner.try_intern(ERR_STRING);
    let text = interner.try_intern(message);
    proof {
        interner.lemma_distinct();
    }
    match (name, text) {
        (Some(name), Some(text)) => {
            globals_insert(globals, name.0, Value::Str(text));
            proof {
                assert(interner@[name.index()] == ERR_STRING@);
                assert(interner@[text.index()] == message@);
                assert(interner@.index_of(ERR_STRING@) == name.index());
                assert(interner@.index_of(message@) == text.index());
            }
        },
        _ => {
            proof {
                if name is None {
                    assert(!interner@.contains(ERR_STRING@));
                } else {
                    assert(!interner@.contains(message@));
                }
            }
        },
    }
}

/// Sets the error global to `message` and gives `Nil`, the result of a
/// native that failed.
fn failed(interner: &mut Interner, globals: &mut Globals, message: &str) -> (value: Value)
    requires
        old(interner).wf(),
    ensures
        final(interner).wf(),
        old(interner).kept_by(final(interner)),
        final(interner)@ == interned(interned(old(interner)@, ERR_STRING@), message@),
        error_set(final(interner)@, old(globals)@, final(globals)@, message@),
        value == Value::Nil,
{
    set_global_error(interner, globals, message);
    Value::Nil
}

/// The string value of `text`, interned; `Nil` if the interner is full.
fn string_value(interner: &mut Interner, text: &str) -> (value: Value)
    requires
        old(interner).wf(),
    ensures
        final(interner).wf(),
        old(interner).kept_by(final(interner)),
        match value {
            Value::Str(id) => final(interner).knows(id) && final(interner)@[id.index()] == text@,
            _ => value == Value::Nil,
        },
        final(interner)@ == interned(old(interner)@, text@),
        value == (if has_room(old(interner)@, text@) {
            Value::Str(handle_of(old(interner)@, text@))
        } else {
            Value::Nil
        }),
{
    match interner.try_intern(text) {
        Some(id) => Value::Str(id),
        None => Value::Nil,
    }
}

/// How the message for a text that is no number starts; the embedder's
/// reason follows.
pub const PARSE_FAILURE: &'static str = "Failed to parse number: ";

/// Whether `value`, `strings` and `later` are what reading a number
/// leaves, where `parsed` is what the embedder read: the number, with
/// nothing changed; or `Nil`, with the error global set to the message
/// for the embedder's reason.
pub open spec fn number_read(
    parsed: Result<Number, Seq<char>>,
    before: Seq<Seq<char>>,
    strings: Seq<Seq<char>>,
    globals: Map<u32, Value>,
    later: Map<u32, Value>,
    value: Value,
) -> bool {
    match parsed {
        Ok(number) => value == Value::Number(number) && strings == before && later == globals,
        Err(reason) => {
            &&& value == Value::Nil
            &&& strings == interned(interned(before, ERR_STRING@), PARSE_FAILURE@ + reason)
            &&& error_set(strings, globals, later, PARSE_FAILURE@ + reason)
        },
    }
}

/// The value of a number that the embedder read, or failed to read: the
/// number; or `Nil`, with the error global set to say why there is none.
pub fn read_number(
    interner: &mut Interner,
    globals: &mut Globals,
    parsed: Result<Number, String>,
) -> (value: Value)
    requires
        old(interner).wf(),
    ensures
        final(interner).wf(),
        old(interner).kept_by(final(interner)),
        number_read(
            reading(parsed),
            old(interner)@,
            final(interner)@,
            old(globals)@,
            final(globals)@,
            value,
        ),
{
    match parsed {
        Ok(number) => Value::Number(number),
        Err(reason) => {
            let mut message = String::from_str(PARSE_FAILURE);
            message.append(reason.as_str());
            failed(interner, globals, message.as_str())
        },
    }
}

/// Reads a number from `text`; failing that, sets the error global and
/// gives `Nil`.
///
/// Whatever `ops` makes of the text, the result is a number and nothing
/// has changed, or it is `Nil` and the error global holds the message
/// for the reason that `ops` gave.
fn parsed_number<N: NumberOps>(
    interner: &mut Interner,
    globals: &mut Globals,
    text: &str,
    ops: &N,
) -> (value: Value)
    requires
        old(interner).wf(),
    ensures
        final(interner).wf(),
        old(interner).kept_by(final(interner)),
        value is Number || value == Value::Nil,
        value is Number ==> final(globals)@ == old(globals)@ && final(interner)@ == old(interner)@,
        exists|parsed: Result<Number, Seq<char>>| #[trigger]
            number_read(
                parsed,
                old(interner)@,
                final(interner)@,
                old(globals)@,
                final(globals)@,
                value,
            ) && ops.parse_gives(text@, parsed),
{
    let parsed = ops.parse(text);
    let ghost read = reading(parsed);
    let value = read_number(interner, globals, parsed);
    assert(number_read(
        read,
        old(interner)@,
        interner@,
        old(globals)@,
        globals@,
        value,
    ));
    value
}

/// Whether the number `x` may stand before the number `y` in ascending
/// order, as `ops` compares them: `ops` may say that `y` is not less than
/// `x`, or that `x` is less than `y`.
pub open spec fn in_order<N: NumberOps>(ops: &N, x: Value, y: Value) -> bool {
    match (x, y) {
        (Value::Number(a), Value::Number(b)) => ops.compare_gives(Comparison::Less, b, a, false)
            || ops.compare_gives(Comparison::Less, a, b, true),
        _ => false,
    }
}

/// Sorts numbers in ascending order, as `ops` compares them; numbers of
/// which neither is less than the other keep their order. With a value
/// among them that is no number nothing is sorted, and the result is
/// `false`.
pub fn sort_numbers<N: NumberOps>(elements: &mut Vec<Value>, ops: &N) -> (sorted: bool)
    ensures
        sorted <==> forall|i: int| 0 <= i < old(elements)@.len() ==> old(elements)@[i] is Number,
        !sorted ==> final(elements)@ == old(elements)@,
        final(elements)@.len() == old(elements)@.len(),
        final(elements)@.to_multiset() == old(elements)@.to_multiset(),
        sorted ==> forall|i: int|
            0 <= i < final(elements)@.len() - 1 ==> in_order(
                ops,
                #[trigger] final(elements)@[i],
                final(elements)@[i + 1],
            ),
{
    broadcast use vstd::seq_lib::group_to_multiset_ensures;

    let mut i: usize = 0;
    while i < elements.len()
        invariant
            i <= elements@.len(),
            elements@ == old(elements)@,
            forall|k: int| 0 <= k < i ==> elements@[k] is Number,
        decreases elements@.len() - i,
    {
        match elements[i] {
            Value::Number(_) => {},
            _ => { return false; },
        }
        i += 1;
    }
    let mut result: Vec<Value> = Vec::new();
    let mut i: usize = 0;
    assert(elements@.subrange(0, 0) =~= Seq::<Value>::empty());
    while i < elements.len()
        invariant
            i <= elements@.len(),
            elements@ == old(elements)@,
            forall|k: int| 0 <= k < elements@.len() ==> elements@[k] is Number,
            result@.len() == i,
            forall|k: int| 0 <= k < result@.len() ==> result@[k] is Number,
            result@.to_multiset() == elements@.subrange(0, i as int).to_multiset(),
            forall|k: int|
                0 <= k < result@.len() - 1 ==> in_order(ops, #[trigger] result@[k], result@[k + 1]),
        decreases elements@.len() - i,
    {
        let value = elements[i];
        let mut at: usize = 0;
        loop
            invariant_except_break
                at <= result@.len(),
                value is Number,
                forall|k: int| 0 <= k < result@.len() ==> result@[k] is Number,
                forall|k: int|
                    0 <= k < at ==> ops.compare_gives(
                        Comparison::Less,
                        value->Number_0,
                        (#[trigger] result@[k])->Number_0,
                        false,
                    ),
            ensures
                at <= result@.len(),
                forall|k: int|
                    0 <= k < at ==> ops.compare_gives(
                        Comparison::Less,
                        value->Number_0,
                        (#[trigger] result@[k])->Number_0,
                        false,
                    ),
                at < result@.len() ==> ops.compare_gives(
                    Comparison::Less,
                    value->Number_0,
                    result@[at as int]->Number_0,
                    true,
                ),
            decreases result@.len() - at,
        {
            if at >= result.len() {
                break;
            }
            if less(&value, &result[at], ops) {
                break;
            }
            at += 1;
        }
        let ghost before = result@;
        result.insert(at, value);
        i += 1;
        proof {
            assert forall|k: int| 0 <= k < result@.len() - 1 implies in_order(
                ops,
                #[trigger] result@[k],
                result@[k + 1],
            ) by {
                if k + 1 < at {
                    assert(result@[k] == before[k] && result@[k + 1] == before[k + 1]);
                } else if k + 1 == at {
                    assert(result@[k] == before[k] && result@[k + 1] == value);
                } else if k == at {
                    assert(result@[k] == value && result@[k + 1] == before[at as int]);
                } else {
                    assert(result@[k] == before[k - 1] && result@[k + 1] == before[k]);
                    assert(in_order(ops, before[k - 1], before[k - 1 + 1]));
                }
            }
            assert(elements@.subrange(0, i as int) =~= elements@.subrange(0, i - 1).push(value));
            assert(result@ == before.insert(at as int, value));
            vstd::seq_lib::to_multiset_insert(before, at as int, value);
            vstd::seq_lib::to_multiset_build(elements@.subrange(0, i - 1), value);
        }
    }
    assert(elements@.subrange(0, i as int) =~= elements@);
    *elements = result;
    true
}

/// Whether the number `a` is less than the number `b`, as `ops` compares
/// them.
fn less<N: NumberOps>(a: &Value, b: &Value, ops: &N) -> (r: bool)
    requires
        a is Number,
        b is Number,
    ensures
        ops.compare_gives(Comparison::Less, a->Number_0, b->Number_0, r),
{
    match (a, b) {
        (Value::Number(x), Value::Number(y)) => ops.compare(Comparison::Less, *x, *y),
        _ => false,
    }
}

/// The number of an integer.
fn number_of<N: NumberOps>(i: usize, ops: &N) -> (value: Value)
    ensures
        value is Number,
        ops.number_gives(i as u128, value->Number_0),
{
    Value::Number(ops.from_integer(i as u128))
}

/// Whether `value`, `later_strings` and `later` are what reading the
/// character at the place of `whole` in the string with handle `id`
/// leaves: the character as a string, interned; or `Nil`, with the error
/// global set, where `whole` is `None`, for a number that is negative or
/// not whole, or lies outside the string, or `id` is no string.
pub open spec fn character_read(
    strings: Seq<Seq<char>>,
    id: StrId,
    whole: Option<u64>,
    later_strings: Seq<Seq<char>>,
    globals: Map<u32, Value>,
    later: Map<u32, Value>,
    value: Value,
) -> bool {
    if whole is Some && 0 <= id.index() < strings.len() && crate::vm::within(whole.unwrap())
        < strings[id.index()].len() {
        let text = seq![strings[id.index()][crate::vm::within(whole.unwrap())]];
        &&& later_strings == interned(strings, text)
        &&& later == globals
        &&& value == (if has_room(strings, text) {
            Value::Str(handle_of(strings, text))
        } else {
            Value::Nil
        })
    } else {
        &&& value == Value::Nil
        &&& later_strings == interned(interned(strings, ERR_STRING@), "Index out of bounds"@)
        &&& error_set(later_strings, globals, later, "Index out of bounds"@)
    }
}

/// Whether `at` is the position of the first of `elements` that equals
/// `value`, as `ops` compares numbers, or the length of `elements` if
/// none does.
pub open spec fn found_at<N: NumberOps>(ops: &N, elements: Seq<Value>, value: Value, at: int)
    -> bool {
    &&& 0 <= at <= elements.len()
    &&& forall|k: int|
        0 <= k < at ==> crate::value::equal_under(ops, #[trigger] elements[k], value, false)
    &&& at < elements.len() ==> crate::value::equal_under(ops, elements[at], value, true)
}

/// The position of the first element of the array that equals `value`, or
/// the array's length if none does.
pub fn index_of<N: NumberOps>(elements: &Vec<Value>, value: &Value, ops: &N) -> (at: usize)
    ensures
        at <= elements@.len(),
        !(value is Number) ==> (forall|k: int|
            0 <= k < at ==> !crate::value::equal_values(#[trigger] elements@[k], *value, false))
            && (at < elements@.len() ==> crate::value::equal_values(
            elements@[at as int],
            *value,
            false,
        )),
        found_at(ops, elements@, *value, at as int),
{
    let mut i: usize = 0;
    while i < elements.len()
        invariant
            i <= elements@.len(),
            !(value is Number) ==> forall|k: int|
                0 <= k < i ==> !crate::value::equal_values(#[trigger] elements@[k], *value, false),
            forall|k: int|
                0 <= k < i ==> crate::value::equal_under(ops, #[trigger] elements@[k], *value, false),
        decreases elements@.len() - i,
    {
        if values_equal(&elements[i], value, ops) {
            return i;
        }
        i += 1;
    }
    i
}

impl Native {
    /// All natives, in the order in which a machine defines them.
    pub open spec fn all_spec() -> Seq<Native> {
        seq![
            Native::Clock,
            Native::Sleep,
            Native::TypeOf,
            Native::Print,
            Native::ReadNumber,
            Native::ReadString,
            Native::ReadBool,
            Native::ToString,
            Native::ToNumber,
            Native::StringAt,
            Native::StrLen,
            Native::ArrLen,
            Native::Ceil,
            Native::Floor,
            Native::Abs,
            Native::Sort,
            Native::IndexOf,
            Native::Rand,
        ]
    }

    /// All natives, in the order in which a machine defines them.
    pub fn all() -> (natives: Vec<Native>)
        ensures
            natives@.len() == 18,
            natives@ == Native::all_spec(),
    {
        vec![
            Native::Clock,
            Native::Sleep,
            Native::TypeOf,
            Native::Print,
            Native::ReadNumber,
            Native::ReadString,
            Native::ReadBool,
            Native::ToString,
            Native::ToNumber,
            Native::StringAt,
            Native::StrLen,
            Native::ArrLen,
            Native::Ceil,
            Native::Floor,
            Native::Abs,
            Native::Sort,
            Native::IndexOf,
            Native::Rand,
        ]
    }

    /// Whether the native leaves the arrays as they are: all but `Sort` do.
    pub open spec fn keeps_heap(self) -> bool {
        self != Native::Sort
    }

    /// Calls the native with these arguments. `input` is the line that the
    /// embedder read, for the natives that read.
    ///
    /// A native never fails: given arguments that it cannot use, it sets
    /// the error global and returns `Nil`. `Print` and `Sleep` hand a
    /// signal back for the embedder to act on.
    pub fn call<N: NumberOps>(
        self,
        interner: &mut Interner,
        globals: &mut Globals,
        heap: &mut Heap,
        args: &Vec<Value>,
        input: Option<&str>,
        ops: &N,
    ) -> (outcome: NativeOutcome)
        requires
            old(interner).wf(),
            args@.len() == self.arity_spec(),
        ensures
            final(interner).wf(),
            old(interner).kept_by(final(interner)),
            self.keeps_heap() ==> final(heap)@ == old(heap)@,
            final(heap)@.len() == old(heap)@.len(),
            forall|h: int|
                0 <= h < old(heap)@.len() ==> (#[trigger] final(heap)@[h]).to_multiset() == old(heap)@[h].to_multiset(),
            outcome.signal is Some ==> (self == Native::Print && outcome.signal.unwrap() is Print)
                || (self == Native::Sleep && outcome.signal.unwrap() is Sleep),
            self.returns_number() ==> outcome.value is Number || outcome.value == Value::Nil,
            self.returns_string() ==> outcome.value is Str || outcome.value == Value::Nil,
            self == Native::ReadBool ==> outcome.value == (match input {
                Some(line) => if line@ == "true"@ {
                    Value::Bool(true)
                } else if line@ == "false"@ {
                    Value::Bool(false)
                } else {
                    Value::Nil
                },
                None => Value::Nil,
            }),
            self == Native::ReadString ==> outcome.value == (if args@[0] is Str {
                args@[0]
            } else {
                Value::Nil
            }),
            self == Native::TypeOf && outcome.value is Str ==> final(interner)@[outcome.value->Str_0.index()] == args@[0].kind_name_spec(),
            self == Native::TypeOf ==> final(interner)@ == interned(
                old(interner)@,
                args@[0].kind_name_spec(),
            ) && final(globals)@ == old(globals)@ && outcome.value == (if has_room(
                old(interner)@,
                args@[0].kind_name_spec(),
            ) {
                Value::Str(handle_of(old(interner)@, args@[0].kind_name_spec()))
            } else {
                Value::Nil
            }),
            self == Native::Print || self == Native::Sleep || self == Native::Sort
                ==> outcome.value == Value::Nil,
            self.misuse(args@) is Some ==> outcome.value == Value::Nil && outcome.signal is None
                && error_set(
                final(interner)@,
                old(globals)@,
                final(globals)@,
                self.misuse(args@).unwrap(),
            ) && final(heap)@ == old(heap)@,
            self == Native::Sleep && args@[0] is Number ==> outcome.signal is Some,
            self == Native::Print ==> outcome.signal is Some && (crate::value::scalar_text(
                args@[0],
                old(interner)@,
            ) is Some ==> outcome.signal.unwrap()->Print_0@ == crate::value::scalar_text(
                args@[0],
                old(interner)@,
            ).unwrap()),
            self.performed(
                ops,
                args@,
                match input {
                    Some(line) => Some(line@),
                    None => None,
                },
                old(interner)@,
                final(interner)@,
                old(globals)@,
                final(globals)@,
                old(heap)@,
                final(heap)@,
                outcome.value,
                outcome.signal,
            ),
    {
        let mut signal: Option<Signal> = None;
        let value = match self {
            Native::Clock => {
                match now_millis() {
                    Some(millis) => Value::Number(ops.from_integer(millis)),
                    None => failed(interner, globals, "The clock reads a time before the epoch"),
                }
            },
            Native::Sleep => {
                match args[0] {
                    Value::Number(n) => {
                        let wait: u64 = match ops.to_integer(n) {
                            Some(wait) => wait,
                            None => 0,
                        };
                        signal = Some(Signal::Sleep(wait));
                        Value::Nil
                    },
                    _ => failed(interner, globals, "Expected number as argument to sleep"),
                }
            },
            Native::Print => {
                signal = Some(Signal::Print(value_as_string(&args[0], interner, heap, ops)));
                Value::Nil
            },
            Native::ReadString => {
                match args[0] {
                    Value::Str(_) => args[0],
                    _ => failed(interner, globals, "Expected string as argument to read"),
                }
            },
            Native::ReadNumber => {
                match args[0] {
                    Value::Str(id) => {
                        let text = match interner.get(id) {
                            Some(s) => s.to_owned(),
                            None => String::new(),
                        };
                        let value = parsed_number(interner, globals, text.as_str(), ops);
                        proof {
                            let parsed = choose|parsed: Result<Number, Seq<char>>|
                                #[trigger] number_read(
                                    parsed,
                                    old(interner)@,
                                    interner@,
                                    old(globals)@,
                                    globals@,
                                    value,
                                ) && ops.parse_gives(text@, parsed);
                            assert(text@ == crate::vm::string_of(old(interner)@, id));
                            assert(ops.parse_gives(
                                crate::vm::string_of(old(interner)@, id),
                                parsed,
                            ));
                        }
                        value
                    },
                    _ => failed(interner, globals, "Expected string as argument to read"),
                }
            },
            Native::ReadBool => {
                match input {
                    Some(line) => {
                        if same_text(line, "true") {
                            Value::Bool(true)
                        } else if same_text(line, "false") {
                            Value::Bool(false)
                        } else {
                            failed(interner, globals, "Expected 'true' or 'false'")
                        }
                    },
                    None => failed(interner, globals, "Expected 'true' or 'false'"),
                }
            },
            Native::TypeOf => string_value(interner, args[0].kind_name()),
            Native::ToString => {
                let text = value_as_string(&args[0], interner, heap, ops);
                let value = string_value(interner, text.as_str());
                proof {
                    assert(crate::value::array_written(
                        ops,
                        args@[0],
                        old(interner)@,
                        old(heap)@,
                        crate::value::MAX_TEXT_DEPTH as nat,
                        text@,
                    ));
                }
                value
            },
            Native::ToNumber => {
                match args[0] {
                    Value::Number(n) => Value::Number(n),
                    Value::Bool(b) => number_of(
                        if b {
                            1
                        } else {
                            0
                        },
                        ops,
                    ),
                    Value::Str(id) => {
                        let text = match interner.get(id) {
                            Some(s) => s.to_owned(),
                            None => String::new(),
                        };
                        let value = parsed_number(interner, globals, text.as_str(), ops);
                        proof {
                            let parsed = choose|parsed: Result<Number, Seq<char>>|
                                #[trigger] number_read(
                                    parsed,
                                    old(interner)@,
                                    interner@,
                                    old(globals)@,
                                    globals@,
                                    value,
                                ) && ops.parse_gives(text@, parsed);
                            assert(text@ == crate::vm::string_of(old(interner)@, id));
                            assert(ops.parse_gives(
                                crate::vm::string_of(old(interner)@, id),
                                parsed,
                            ));
                        }
                        value
                    },
                    _ => failed(
                        interner,
                        globals,
                        "Expected number, bool, or string as argument to tonumber",
                    ),
                }
            },
            Native::StringAt => {
                match (args[0], args[1]) {
                    (Value::Str(id), Value::Number(n)) => {
                        let position = to_index(n, ops);
                        let ghost whole = choose|whole: Option<u64>| #[trigger]
                            ops.integer_gives(n, whole) && position == (match whole {
                                Some(wide) => Some(crate::vm::within(wide) as usize),
                                None => None,
                            });
                        let found: Option<char> = match (position, interner.get(id)) {
                            (Some(at), Some(s)) => {
                                if at < s.unicode_len() {
                                    Some(s.get_char(at))
                                } else {
                                    None
                                }
                            },
                            _ => None,
                        };
                        let value = match found {
                            Some(c) => {
                                let mut text = String::new();
                                text.push(c);
                                assert(text@ =~= seq![c]);
                                string_value(interner, text.as_str())
                            },
                            None => failed(interner, globals, "Index out of bounds"),
                        };
                        proof {
                            assert(character_read(
                                old(interner)@,
                                id,
                                whole,
                                interner@,
                                old(globals)@,
                                globals@,
                                value,
                            ));
                        }
                        value
                    },
                    _ => failed(
                        interner,
                        globals,
                        "Expected string and number as arguments to stringat",
                    ),
                }
            },
            Native::StrLen => {
                match args[0] {
                    Value::Str(id) => {
                        let len: usize = match interner.get(id) {
                            Some(s) => s.len(),
                            None => 0,
                        };
                        number_of(len, ops)
                    },
                    _ => failed(interner, globals, "Expected string as argument to strlen"),
                }
            },
            Native::ArrLen => {
                match args[0] {
                    Value::Array(handle) => {
                        match heap.len_of(handle) {
                            Some(len) => number_of(len, ops),
                            None => failed(interner, globals, "Expected array as argument to arrlen"),
                        }
                    },
                    _ => failed(interner, globals, "Expected array as argument to arrlen"),
                }
            },
            Native::Ceil => {
                match args[0] {
                    Value::Number(n) => Value::Number(ops.unary(Unary::Ceil, n)),
                    _ => failed(interner, globals, "Expected number as argument to ceil"),
                }
            },
            Native::Floor => {
                match args[0] {
                    Value::Number(n) => Value::Number(ops.unary(Unary::Floor, n)),
                    _ => failed(interner, globals, "Expected number as argument to floor"),
                }
            },
            Native::Abs => {
                match args[0] {
                    Value::Number(n) => Value::Number(ops.unary(Unary::Abs, n)),
                    _ => failed(interner, globals, "Expected number as argument to abs"),
                }
            },
            Native::Sort => {
                match args[0] {
                    Value::Array(handle) => {
                        if handle < heap.arrays.len() {
                            let mut elements: Vec<Value> = Vec::new();
                            std::mem::swap(&mut elements, &mut heap.arrays[handle]);
                            let sorted = sort_numbers(&mut elements, ops);
                            heap.arrays.set(handle, elements);
                            proof {
                                assert(heap@.len() == old(heap)@.len());
                                assert forall|h: int| 0 <= h < old(heap)@.len() implies (
                                #[trigger] heap@[h]).to_multiset() == old(heap)@[h].to_multiset() by {
                                    if h != handle {
                                        assert(heap@[h] == old(heap)@[h]);
                                    }
                                }
                            }
                            if sorted {
                                Value::Nil
                            } else {
                                failed(interner, globals, "Expected array of numbers")
                            }
                        } else {
                            failed(interner, globals, "Expected array as argument to sort")
                        }
                    },
                    _ => failed(interner, globals, "Expected array as argument to sort"),
                }
            },
            Native::IndexOf => {
                match args[0] {
                    Value::Array(handle) => {
                        if handle < heap.arrays.len() {
                            let at = index_of(&heap.arrays[handle], &args[1], ops);
                            let value = number_of(at, ops);
                            proof {
                                assert(heap@[handle as int] == heap.arrays@[handle as int]@);
                                assert(found_at(
                                    ops,
                                    old(heap)@[handle as int],
                                    args@[1],
                                    at as int,
                                ));
                            }
                            value
                        } else {
                            failed(
                                interner,
                                globals,
                                "Expected array and value as arguments to find",
                            )
                        }
                    },
                    _ => failed(interner, globals, "Expected array and value as arguments to find"),
                }
            },
            Native::Rand => number_of(random_u32() as usize, ops),
        };
        NativeOutcome { value, signal }
    }

    /// Whether `value` and `signal` are what the native hands back when it
    /// is called with `args`, and `later_strings`, `later_globals` and
    /// `later_heap` what it leaves. `input` is the line that was read, for
    /// the natives that read. What rests on the arithmetic of numbers is
    /// laid down over what `ops` may give.
    pub open spec fn performed<N: NumberOps>(
        self,
        ops: &N,
        args: Seq<Value>,
        input: Option<Seq<char>>,
        strings: Seq<Seq<char>>,
        later_strings: Seq<Seq<char>>,
        globals: Map<u32, Value>,
        later_globals: Map<u32, Value>,
        heap: Seq<Seq<Value>>,
        later_heap: Seq<Seq<Value>>,
        value: Value,
        signal: Option<Signal>,
    ) -> bool {
        &&& self.keeps_heap() ==> later_heap == heap
        &&& later_heap.len() == heap.len()
        &&& forall|h: int|
            0 <= h < heap.len() ==> (#[trigger] later_heap[h]).to_multiset()
                == heap[h].to_multiset()
        &&& signal is Some ==> (self == Native::Print && signal.unwrap() is Print) || (self
            == Native::Sleep && signal.unwrap() is Sleep)
        &&& self.returns_number() ==> value is Number || value == Value::Nil
        &&& self.returns_string() ==> value is Str || value == Value::Nil
        &&& self == Native::ReadBool ==> value == (match input {
            Some(line) => if line == "true"@ {
                Value::Bool(true)
            } else if line == "false"@ {
                Value::Bool(false)
            } else {
                Value::Nil
            },
            None => Value::Nil,
        })
        &&& self == Native::ReadString ==> value == (if args[0] is Str {
            args[0]
        } else {
            Value::Nil
        })
        &&& self == Native::TypeOf && value is Str ==> later_strings[value->Str_0.index()]
            == args[0].kind_name_spec()
        &&& self == Native::TypeOf ==> later_strings == interned(
            strings,
            args[0].kind_name_spec(),
        ) && later_globals == globals && value == (if has_room(
            strings,
            args[0].kind_name_spec(),
        ) {
            Value::Str(handle_of(strings, args[0].kind_name_spec()))
        } else {
            Value::Nil
        })
        &&& self == Native::Print || self == Native::Sleep || self == Native::Sort ==> value
            == Value::Nil
        &&& self.misuse(args) is Some ==> value == Value::Nil && signal is None && error_set(
            later_strings,
            globals,
            later_globals,
            self.misuse(args).unwrap(),
        ) && later_heap == heap
        &&& self == Native::Sleep && args[0] is Number ==> signal is Some
        &&& self == Native::Sleep ==> (match (args[0], signal) {
            (Value::Number(n), Some(Signal::Sleep(wait))) => exists|whole: Option<u64>|
                #[trigger] ops.integer_gives(n, whole) && wait == (match whole {
                    Some(wide) => wide,
                    None => 0,
                }),
            (Value::Number(_), _) => false,
            _ => true,
        })
        &&& self == Native::Ceil || self == Native::Floor || self == Native::Abs ==> (match (
            args[0],
            value,
        ) {
            (Value::Number(a), Value::Number(r)) => ops.unary_gives(self.unary_spec(), a, r)
                && later_strings == strings && later_globals == globals,
            (Value::Number(_), _) => false,
            _ => true,
        })
        &&& self == Native::ArrLen ==> (match (args[0], value) {
            (Value::Array(handle), Value::Number(r)) => handle < heap.len() && ops.number_gives(
                heap[handle as int].len() as u128,
                r,
            ) && later_strings == strings && later_globals == globals,
            (Value::Array(handle), _) => handle >= heap.len(),
            _ => true,
        })
        &&& self == Native::ToNumber ==> (match (args[0], value) {
            (Value::Number(n), _) => value == args[0] && later_strings == strings && later_globals
                == globals,
            (Value::Bool(b), Value::Number(r)) => ops.number_gives(
                if b {
                    1
                } else {
                    0
                },
                r,
            ) && later_strings == strings && later_globals == globals,
            (Value::Bool(_), _) => false,
            _ => true,
        })
        &&& self == Native::ToString ==> exists|text: Seq<char>|
            #[trigger] crate::value::array_written(
                ops,
                args[0],
                strings,
                heap,
                crate::value::MAX_TEXT_DEPTH as nat,
                text,
            ) && later_strings == interned(strings, text) && later_globals == globals && value
                == (if has_room(strings, text) {
                Value::Str(handle_of(strings, text))
            } else {
                Value::Nil
            })
        &&& self == Native::ReadNumber || self == Native::ToNumber ==> (match args[0] {
            Value::Str(id) => exists|parsed: Result<Number, Seq<char>>|
                #[trigger] ops.parse_gives(crate::vm::string_of(strings, id), parsed) && number_read(parsed, strings, later_strings, globals, later_globals, value),
            _ => true,
        })
        &&& self == Native::IndexOf ==> (match (args[0], value) {
            (Value::Array(handle), Value::Number(r)) => handle < heap.len() && exists|at: int|
                #[trigger] found_at(ops, heap[handle as int], args[1], at) && ops.number_gives(
                    at as u128,
                    r,
                ) && later_strings == strings && later_globals == globals,
            (Value::Array(handle), _) => handle >= heap.len(),
            _ => true,
        })
        &&& self == Native::StringAt ==> (match (args[0], args[1]) {
            (Value::Str(id), Value::Number(n)) => exists|whole: Option<u64>|
                #[trigger] ops.integer_gives(n, whole) && character_read(
                    strings,
                    id,
                    whole,
                    later_strings,
                    globals,
                    later_globals,
                    value,
                ),
            _ => true,
        })
        &&& self == Native::Sort ==> (match args[0] {
            Value::Array(handle) => handle < heap.len() && (forall|i: int|
                0 <= i < heap[handle as int].len() ==> (#[trigger] heap[handle as int][i])
                    is Number) ==> later_strings == strings && later_globals == globals && forall|
                i: int,
            |
                0 <= i < later_heap[handle as int].len() - 1 ==> in_order(
                    ops,
                    #[trigger] later_heap[handle as int][i],
                    later_heap[handle as int][i + 1],
                ),
            _ => true,
        })
        &&& self == Native::Print ==> (match signal {
            Some(Signal::Print(text)) => crate::value::array_written(
                ops,
                args[0],
                strings,
                heap,
                crate::value::MAX_TEXT_DEPTH as nat,
                text@,
            ),
            _ => false,
        })
        &&& self == Native::Print ==> signal is Some && (crate::value::scalar_text(
            args[0],
            strings,
        ) is Some ==> signal.unwrap()->Print_0@ == crate::value::scalar_text(
            args[0],
            strings,
        ).unwrap())
    }

    /// The operator that a native of one number applies.
    pub open spec fn unary_spec(self) -> Unary {
        match self {
            Native::Ceil => Unary::Ceil,
            Native::Floor => Unary::Floor,
            _ => Unary::Abs,
        }
    }

    /// The message in the error global after the native was called with
    /// arguments of kinds that it does not take; `None` for arguments of
    /// the right kinds.
    pub open spec fn misuse(self, args: Seq<Value>) -> Option<Seq<char>> {
        match self {
            Native::Sleep => if args[0] is Number {
                None
            } else {
                Some("Expected number as argument to sleep"@)
            },
            Native::ReadString | Native::ReadNumber => if args[0] is Str {
                None
            } else {
                Some("Expected string as argument to read"@)
            },
            Native::ToNumber => if args[0] is Number || args[0] is Bool || args[0] is Str {
                None
            } else {
                Some("Expected number, bool, or string as argument to tonumber"@)
            },
            Native::StringAt => if args[0] is Str && args[1] is Number {
                None
            } else {
                Some("Expected string and number as arguments to stringat"@)
            },
            Native::StrLen => if args[0] is Str {
                None
            } else {
                Some("Expected string as argument to strlen"@)
            },
            Native::ArrLen => if args[0] is Array {
                None
            } else {
                Some("Expected array as argument to arrlen"@)
            },
            Native::Ceil => if args[0] is Number {
                None
            } else {
                Some("Expected number as argument to ceil"@)
            },
            Native::Floor => if args[0] is Number {
                None
            } else {
                Some("Expected number as argument to floor"@)
            },
            Native::Abs => if args[0] is Number {
                None
            } else {
                Some("Expected number as argument to abs"@)
            },
            Native::Sort => if args[0] is Array {
                None
            } else {
                Some("Expected array as argument to sort"@)
            },
            Native::IndexOf => if args[0] is Array {
                None
            } else {
                Some("Expected array and value as arguments to find"@)
            },
            _ => None,
        }
    }

    /// Whether the native returns a number when it succeeds.
    pub open spec fn returns_number(self) -> bool {
        match self {
            Native::Clock
            | Native::ReadNumber
            | Native::ToNumber
            | Native::StrLen
            | Native::ArrLen
            | Native::Ceil
            | Native::Floor
            | Native::Abs
            | Native::IndexOf
            | Native::Rand => true,
            _ => false,
        }
    }

    /// Whether the native returns a string when it succeeds.
    pub open spec fn returns_string(self) -> bool {
        match self {
            Native::TypeOf | Native::ToString | Native::StringAt | Native::ReadString => true,
            _ => false,
        }
    }
}

} // verus!
