use vstd::prelude::*;

verus! {

/// A number of the language: the 64 bits of an IEEE 754 double.
///
/// The library moves numbers around and never looks inside one. What the
/// bits mean is known to the [`NumberOps`] that the embedder supplies.
#[derive(Clone, Copy, PartialEq, Eq, Structural, Debug)]
pub struct Number {
    pub bits: u64,
}

/// The arithmetic operators on two numbers.
#[derive(Clone, Copy, PartialEq, Eq, Structural, Debug)]
pub enum Arithmetic {
    Add,
    Subtract,
    Multiply,
    Divide,
    Modulo,
}

/// The operators on one number.
#[derive(Clone, Copy, PartialEq, Eq, Structural, Debug)]
pub enum Unary {
    Negate,
    Ceil,
    Floor,
    Abs,
}

/// The comparisons of two numbers.
#[derive(Clone, Copy, PartialEq, Eq, Structural, Debug)]
pub enum Comparison {
    /// The first is greater than the second.
    Greater,
    /// The first is less than the second.
    Less,
    /// The two differ by less than the machine epsilon; this is the
    /// language's equality on numbers.
    Near,
}

/// What the embedder read, with the reason as plain text.
pub open spec fn reading(parsed: Result<Number, String>) -> Result<Number, Seq<char>> {
    match parsed {
        Ok(number) => Ok(number),
        Err(reason) => Err(reason@),
    }
}

/// The arithmetic of the language's numbers, supplied by the embedder.
///
/// The compiler and the virtual machine are verified for every
/// implementation. Each method has a relation beside it that says which
/// results it may give for which arguments; the library states what it
/// hands to a method and what it does with the result over these
/// relations. A relation that is not defined admits every result, so
/// that nothing is assumed of an implementation that defines none.
pub trait NumberOps {
    /// Whether `parse` may give `r` for `text`.
    open spec fn parse_gives(&self, text: Seq<char>, r: Result<Number, Seq<char>>) -> bool {
        true
    }

    /// Whether `format` may give `text` for `n`.
    open spec fn format_gives(&self, n: Number, text: Seq<char>) -> bool {
        true
    }

    /// Whether `binary` may give `r` for `a` and `b`, in this order.
    open spec fn binary_gives(&self, op: Arithmetic, a: Number, b: Number, r: Number) -> bool {
        true
    }

    /// Whether `unary` may give `r` for `a`.
    open spec fn unary_gives(&self, op: Unary, a: Number, r: Number) -> bool {
        true
    }

    /// Whether `compare` may give `r` for `a` and `b`, in this order.
    open spec fn compare_gives(&self, op: Comparison, a: Number, b: Number, r: bool) -> bool {
        true
    }

    /// Whether `to_integer` may give `r` for `n`.
    open spec fn integer_gives(&self, n: Number, r: Option<u64>) -> bool {
        true
    }

    /// Whether `from_integer` may give `r` for `i`.
    open spec fn number_gives(&self, i: u128, r: Number) -> bool {
        true
    }

    /// Reads a decimal numeral; `Err` carries the reason it is none.
    fn parse(&self, text: &str) -> (r: Result<Number, String>)
        ensures
            self.parse_gives(text@, reading(r)),
    ;

    /// Writes a number the way the language prints it.
    fn format(&self, n: Number) -> (text: String)
        ensures
            self.format_gives(n, text@),
    ;

    /// Applies an arithmetic operator.
    fn binary(&self, op: Arithmetic, a: Number, b: Number) -> (r: Number)
        ensures
            self.binary_gives(op, a, b, r),
    ;

    /// Applies an operator on one number.
    fn unary(&self, op: Unary, a: Number) -> (r: Number)
        ensures
            self.unary_gives(op, a, r),
    ;

    /// Decides a comparison.
    fn compare(&self, op: Comparison, a: Number, b: Number) -> (r: bool)
        ensures
            self.compare_gives(op, a, b, r),
    ;

    /// The whole number that a number is, as far as 64 bits without sign
    /// hold it; `None` for a number that is negative or not whole.
    fn to_integer(&self, n: Number) -> (r: Option<u64>)
        ensures
            self.integer_gives(n, r),
    ;

    /// The number nearest to an integer.
    fn from_integer(&self, i: u128) -> (r: Number)
        ensures
            self.number_gives(i, r),
    ;
}

/// What a numeral of a source text means: the number that the embedder
/// read from it.
#[derive(Debug)]
pub struct Numeral {
    pub text: String,
    pub value: Number,
}

/// The number of the first of `numerals[from..]` with this text, if there
/// is one.
pub open spec fn numeral_value(numerals: Seq<Numeral>, text: Seq<char>, from: int) -> Option<
    Number,
>
    decreases numerals.len() - from,
{
    if from < 0 || from >= numerals.len() {
        None
    } else if numerals[from].text@ == text {
        Some(numerals[from].value)
    } else {
        numeral_value(numerals, text, from + 1)
    }
}

/// The number of the first numeral with this text, if there is one.
pub fn find_numeral(numerals: &Vec<Numeral>, text: &str) -> (value: Option<Number>)
    ensures
        value == numeral_value(numerals@, text@, 0),
{
    let mut i: usize = 0;
    while i < numerals.len()
        invariant
            i <= numerals@.len(),
            numeral_value(numerals@, text@, 0) == numeral_value(numerals@, text@, i as int),
        decreases numerals@.len() - i,
    {
        if same_text(numerals[i].text.as_str(), text) {
            return Some(numerals[i].value);
        }
        i += 1;
    }
    None
}

/// Whether two texts are the same.
pub fn same_text(a: &str, b: &str) -> (r: bool)
    ensures
        r == (a@ == b@),
{
    let n: usize = a.unicode_len();
    if b.unicode_len() != n {
        return false;
    }
    let mut i: usize = 0;
    while i < n
        invariant
            n == a@.len(),
            n == b@.len(),
            i <= n,
            forall|k: int| 0 <= k < i ==> a@[k] == b@[k],
        decreases n - i,
    {
        if a.get_char(i) != b.get_char(i) {
            return false;
        }
        i += 1;
    }
    assert(a@ =~= b@);
    true
}

/// The texts of a list of strings.
pub open spec fn texts_of(texts: Seq<String>) -> Seq<Seq<char>> {
    Seq::new(texts.len(), |i: int| texts[i]@)
}

/// The numerals of a list as plain values: each text with its number.
pub open spec fn entries(numerals: Seq<Numeral>) -> Seq<(Seq<char>, Number)> {
    Seq::new(numerals.len(), |i: int| (numerals[i].text@, numerals[i].value))
}

/// The numerals that reading the first `upto` of `texts` gives, where
/// `parsed` holds for each text the number that was read from it, if any:
/// the texts that are numerals, in their order, each with its number.
pub open spec fn numerals_read(
    texts: Seq<Seq<char>>,
    parsed: Seq<Option<Number>>,
    upto: int,
) -> Seq<(Seq<char>, Number)>
    decreases upto,
{
    if upto <= 0 {
        Seq::empty()
    } else {
        match parsed[upto - 1] {
            Some(number) => numerals_read(texts, parsed, upto - 1).push(
                (texts[upto - 1], number),
            ),
            None => numerals_read(texts, parsed, upto - 1),
        }
    }
}

/// Whether `parsed` is what reading `text` with `ops` may give: the
/// number that `ops` may read from it, or nothing where `ops` may refuse
/// it.
pub open spec fn read_as<N: NumberOps>(ops: &N, text: Seq<char>, parsed: Option<Number>) -> bool {
    match parsed {
        Some(number) => ops.parse_gives(text, Ok(number)),
        None => exists|reason: Seq<char>| #[trigger] ops.parse_gives(text, Err(reason)),
    }
}

/// Records what reading `text` gave: a numeral with the number that was
/// read, or nothing where `text` is no numeral.
pub fn record_numeral(numerals: &mut Vec<Numeral>, text: &str, parsed: Option<Number>)
    ensures
        entries(final(numerals)@) == (match parsed {
            Some(number) => entries(old(numerals)@).push((text@, number)),
            None => entries(old(numerals)@),
        }),
{
    match parsed {
        Some(value) => {
            numerals.push(Numeral { text: text.to_owned(), value });
            assert(entries(numerals@) =~= entries(old(numerals)@).push((text@, value)));
        },
        None => {},
    }
}

/// Reads the numerals `texts` with `ops`; a text that `ops` does not take
/// for a numeral gets no entry.
///
/// Whatever `ops` reads, the result holds the texts that it took for
/// numerals, in their order and as often as they occur, each with the
/// number that `ops` read from it.
pub fn read_numerals<N: NumberOps>(texts: &Vec<String>, ops: &N) -> (numerals: Vec<Numeral>)
    ensures
        numerals@.len() <= texts@.len(),
        exists|parsed: Seq<Option<Number>>|
            parsed.len() == texts@.len() && entries(numerals@) == #[trigger] numerals_read(
                texts_of(texts@),
                parsed,
                texts@.len() as int,
            ) && forall|k: int|
                0 <= k < parsed.len() ==> read_as(ops, texts@[k]@, #[trigger] parsed[k]),
{
    let mut numerals: Vec<Numeral> = Vec::new();
    let ghost mut parsed: Seq<Option<Number>> = Seq::empty();
    let mut i: usize = 0;
    assert(entries(numerals@) =~= numerals_read(texts_of(texts@), parsed, 0));
    while i < texts.len()
        invariant
            i <= texts@.len(),
            numerals@.len() <= i,
            parsed.len() == i,
            entries(numerals@) == numerals_read(texts_of(texts@), parsed, i as int),
            forall|k: int| 0 <= k < parsed.len() ==> read_as(ops, texts@[k]@, #[trigger] parsed[k]),
        decreases texts@.len() - i,
    {
        let answer = ops.parse(texts[i].as_str());
        let ghost told = reading(answer);
        let read: Option<Number> = match answer {
            Ok(value) => Some(value),
            Err(_) => None,
        };
        assert(read_as(ops, texts@[i as int]@, read)) by {
            assert(ops.parse_gives(texts@[i as int]@, told));
        }
        let ghost before = parsed;
        proof {
            parsed = parsed.push(read);
            lemma_numerals_read_agree(texts_of(texts@), before, parsed, i as int);
        }
        let ghost kept = entries(numerals@);
        record_numeral(&mut numerals, texts[i].as_str(), read);
        assert(kept.len() <= i && entries(numerals@).len() <= kept.len() + 1);
        i += 1;
    }
    numerals
}

/// What reading the first `upto` texts gives depends only on what was read
/// from those.
proof fn lemma_numerals_read_agree(
    texts: Seq<Seq<char>>,
    first: Seq<Option<Number>>,
    second: Seq<Option<Number>>,
    upto: int,
)
    requires
        upto <= first.len(),
        upto <= second.len(),
        forall|k: int| 0 <= k < upto ==> first[k] == second[k],
    ensures
        numerals_read(texts, first, upto) == numerals_read(texts, second, upto),
    decreases upto,
{
    if upto > 0 {
        lemma_numerals_read_agree(texts, first, second, upto - 1);
    }
}

} // verus!
