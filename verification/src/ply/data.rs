use vstd::prelude::*;
use vstd::slice::slice_subrange;
use crate::ply::binary::{DecodeError, FloatBits};
use crate::ply::header::{property_views, Property, PropertyView};
use crate::ply::text::{decimal_within, parse_i64, parse_usize, token, tokens};
use crate::ply::{DataType, Format};

verus! {

/// Why a row of text does not hold the value of a property.
#[derive(Clone, Copy, Debug, PartialEq, Eq, Structural)]
pub enum RowError {
    /// The row ends before the value.
    MissingScalarValue,
    /// The row ends before the count of a list.
    MissingListCount,
    /// The token at the given place in the row should be the count of a list, and is not a
    /// whole number, or is negative, or is more than `usize` holds.
    BadListCount(usize),
    /// The row ends before the last value of a list.
    MissingListValue,
    /// The token at the given place in the row should be a whole number and is not, or is
    /// one that `i64` does not hold.
    BadInt(usize),
}

/// The value of a property in one row of text, as far as bytes tell it: whole numbers are
/// read, and floating-point numbers are left as the tokens that spell them.
#[derive(Clone, Debug, PartialEq, Eq)]
pub enum AsciiValue<'a> {
    Int(i64),
    IntList(Vec<i64>),
    Float(&'a [u8]),
    FloatList(Vec<&'a [u8]>),
}

/// What a value is, to its users.
pub enum AsciiValueView {
    Int(i64),
    IntList(Seq<i64>),
    Float(Seq<u8>),
    FloatList(Seq<Seq<u8>>),
}

impl<'a> View for AsciiValue<'a> {
    type V = AsciiValueView;

    open spec fn view(&self) -> AsciiValueView {
        match self {
            AsciiValue::Int(value) => AsciiValueView::Int(*value),
            AsciiValue::IntList(values) => AsciiValueView::IntList(values@),
            AsciiValue::Float(text) => AsciiValueView::Float(text@),
            AsciiValue::FloatList(texts) => AsciiValueView::FloatList(Seq::new(texts@.len(), |i: int| texts@[i]@)),
        }
    }
}

/// The whole number that a token spells, as `i64`.
pub open spec fn int_of(token: Seq<u8>) -> Option<i64> {
    match decimal_within(token, true, i64::MIN as int, i64::MAX as int) {
        Some(value) => Some(value as i64),
        None => None,
    }
}

/// The whole numbers that tokens spell, or the place of the first token that spells none.
pub open spec fn ints_of(tokens: Seq<Seq<u8>>) -> Result<Seq<i64>, int>
    decreases tokens.len(),
{
    if tokens.len() == 0 {
        Ok(Seq::empty())
    } else {
        match ints_of(tokens.drop_last()) {
            Ok(front) => match int_of(tokens.last()) {
                Some(value) => Ok(front.push(value)),
                None => Err(tokens.len() - 1),
            },
            Err(place) => Err(place),
        }
    }
}

/// The value of a property in a row, and the place of the token after it, where the value
/// starts at the token at `first`. A scalar is one token. A list is the token of its count,
/// and then as many tokens as the count says. The row must hold all of these tokens before
/// any of the values is read.
pub open spec fn ascii_value(row: Seq<Seq<u8>>, first: int, property: PropertyView) -> Result<
    (AsciiValueView, int),
    RowError,
> {
    if property.count_type is Some {
        if first >= row.len() {
            Err(RowError::MissingListCount)
        } else {
            match decimal_within(row[first], false, 0, usize::MAX as int) {
                None => Err(RowError::BadListCount(first as usize)),
                Some(count) => {
                    let end = first + 1 + count;
                    if end > row.len() {
                        Err(RowError::MissingListValue)
                    } else if property.value_type.is_int_spec() {
                        match ints_of(row.subrange(first + 1, end)) {
                            Ok(values) => Ok((AsciiValueView::IntList(values), end)),
                            Err(place) => Err(RowError::BadInt((first + 1 + place) as usize)),
                        }
                    } else {
                        Ok((AsciiValueView::FloatList(row.subrange(first + 1, end)), end))
                    }
                },
            }
        }
    } else if first >= row.len() {
        Err(RowError::MissingScalarValue)
    } else if property.value_type.is_int_spec() {
        match int_of(row[first]) {
            Some(value) => Ok((AsciiValueView::Int(value), first + 1)),
            None => Err(RowError::BadInt(first as usize)),
        }
    } else {
        Ok((AsciiValueView::Float(row[first]), first + 1))
    }
}

/// A line has at most one token more than it has bytes.
pub proof fn lemma_tokens_len_bound(text: Seq<u8>)
    ensures
        1 <= tokens(text).len() <= text.len() + 1,
    decreases text.len(),
{
    let n = crate::ply::text::first_token_len(text);
    crate::ply::text::lemma_first_token_len_bound(text);
    if n < text.len() {
        lemma_tokens_len_bound(text.skip(n as int + 1));
    }
}

/// The tokens of a row from `first` up to `end`, each as it stands in the line.
fn tokens_between<'a>(line: &'a [u8], first: usize, end: usize) -> (found: Vec<&'a [u8]>)
    requires
        first <= end <= tokens(line@).len(),
    ensures
        found@.len() == end - first,
        forall|i: int| 0 <= i < found@.len() ==> (#[trigger] found@[i])@ == tokens(line@)[first + i],
{
    let mut found: Vec<&'a [u8]> = Vec::new();
    let mut at = first;
    while at < end
        invariant
            first <= at <= end <= tokens(line@).len(),
            found@.len() == at - first,
            forall|i: int| 0 <= i < found@.len() ==> (#[trigger] found@[i])@ == tokens(line@)[first + i],
        decreases end - at,
    {
        match token(line, at) {
            Some(text) => {
                found.push(text);
            },
            None => {},
        }
        at += 1;
    }
    found
}

/// The whole numbers that the tokens from `first` up to `end` spell, or the place in the
/// row of the first that spells none.
fn ints_between(line: &[u8], first: usize, end: usize) -> (r: Result<Vec<i64>, usize>)
    requires
        first <= end <= tokens(line@).len(),
    ensures
        match ints_of(tokens(line@).subrange(first as int, end as int)) {
            Ok(values) => r matches Ok(v) && v@ == values,
            Err(place) => r == Err::<Vec<i64>, usize>((first + place) as usize),
        },
{
    let ghost texts = tokens(line@).subrange(first as int, end as int);
    let mut values: Vec<i64> = Vec::new();
    let mut at = first;
    proof {
        assert(texts.take(0) =~= Seq::<Seq<u8>>::empty());
    }
    while at < end
        invariant
            first <= at <= end <= tokens(line@).len(),
            texts == tokens(line@).subrange(first as int, end as int),
            ints_of(texts.take(at - first)) == Ok::<Seq<i64>, int>(values@),
        decreases end - at,
    {
        proof {
            assert(texts.take(at - first + 1).drop_last() =~= texts.take(at - first));
            assert(texts.take(at - first + 1).last() == tokens(line@)[at as int]);
        }
        let value = match token(line, at) {
            Some(text) => parse_i64(text),
            None => None,
        };
        match value {
            Some(v) => {
                values.push(v);
            },
            None => {
                proof {
                    lemma_first_failure_stays(texts, at - first + 1);
                }
                return Err(at);
            },
        }
        at += 1;
    }
    proof {
        assert(texts.take(at - first) =~= texts);
    }
    Ok(values)
}

/// Where the first tokens fail to spell whole numbers, all of them fail at the same place.
proof fn lemma_first_failure_stays(tokens: Seq<Seq<u8>>, n: int)
    requires
        0 <= n <= tokens.len(),
        ints_of(tokens.take(n)) is Err,
    ensures
        ints_of(tokens) == ints_of(tokens.take(n)),
    decreases tokens.len() - n,
{
    if n < tokens.len() {
        assert(tokens.take(n + 1).drop_last() =~= tokens.take(n));
        lemma_first_failure_stays(tokens, n + 1);
    } else {
        assert(tokens.take(n) =~= tokens);
    }
}

/// Reads the value of a property from a row of text, where the value starts at the token at
/// `first`, and returns it with the place of the token after it. The places of all tokens
/// of the row must be numbers that `usize` holds.
pub fn read_ascii_value<'a>(line: &'a [u8], first: usize, property: &Property) -> (r: Result<
    (AsciiValue<'a>, usize),
    RowError,
>)
    requires
        line@.len() < usize::MAX,
    ensures
        match ascii_value(tokens(line@), first as int, property@) {
            Ok((value, next)) => r matches Ok((v, n)) && v@ == value && n == next,
            Err(error) => r == Err::<(AsciiValue<'a>, usize), RowError>(error),
        },
{
    proof {
        lemma_tokens_len_bound(line@);
    }
    let start = match token(line, first) {
        Some(text) => text,
        None => {
            if property.is_list() {
                return Err(RowError::MissingListCount);
            } else {
                return Err(RowError::MissingScalarValue);
            }
        },
    };
    if !property.is_list() {
        if property.is_int() {
            return match parse_i64(start) {
                Some(value) => Ok((AsciiValue::Int(value), first + 1)),
                None => Err(RowError::BadInt(first)),
            };
        } else {
            return Ok((AsciiValue::Float(start), first + 1));
        }
    }
    let count = match parse_usize(start) {
        Some(count) => count,
        None => { return Err(RowError::BadListCount(first)); },
    };
    // The row holds its tokens from `first` on: at most as many as it has bytes.
    if count > line.len() - first {
        return Err(RowError::MissingListValue);
    }
    let end = first + 1 + count;
    if token(line, end - 1).is_none() {
        return Err(RowError::MissingListValue);
    }
    if property.is_int() {
        match ints_between(line, first + 1, end) {
            Ok(values) => Ok((AsciiValue::IntList(values), end)),
            Err(place) => Err(RowError::BadInt(place)),
        }
    } else {
        let texts = tokens_between(line, first + 1, end);
        let value = AsciiValue::FloatList(texts);
        proof {
            assert(value@ == AsciiValueView::FloatList(tokens(line@).subrange(first + 1, end as int))) by {
                assert(Seq::new(texts@.len(), |i: int| texts@[i]@) =~= tokens(line@).subrange(first + 1, end as int));
            }
        }
        Ok((value, end))
    }
}

/// The value of a property in one row of binary data, as far as bytes tell it: whole
/// numbers are read, and floating-point numbers are left as the bits that spell them.
#[derive(Clone, Debug, PartialEq, Eq)]
pub enum BinaryValue {
    Int(i64),
    IntList(Vec<i64>),
    Float(FloatBits),
    FloatList(Vec<FloatBits>),
}

/// What a value is, to its users.
pub enum BinaryValueView {
    Int(i64),
    IntList(Seq<i64>),
    Float(FloatBits),
    FloatList(Seq<FloatBits>),
}

impl View for BinaryValue {
    type V = BinaryValueView;

    open spec fn view(&self) -> BinaryValueView {
        match self {
            BinaryValue::Int(value) => BinaryValueView::Int(*value),
            BinaryValue::IntList(values) => BinaryValueView::IntList(values@),
            BinaryValue::Float(bits) => BinaryValueView::Float(*bits),
            BinaryValue::FloatList(bits) => BinaryValueView::FloatList(bits@),
        }
    }
}

/// What is left of bytes after the first `n`: nothing, where there are fewer.
pub open spec fn after(bytes: Seq<u8>, n: int) -> Seq<u8> {
    if 0 <= n <= bytes.len() {
        bytes.skip(n)
    } else {
        Seq::empty()
    }
}

/// The first `n` whole numbers of the given type that bytes spell one after the other, or
/// why the first of them that cannot be decoded cannot.
pub open spec fn ints_in(bytes: Seq<u8>, data_type: DataType, format: Format, n: nat) -> Result<
    Seq<i64>,
    DecodeError,
>
    decreases n,
{
    if n == 0 {
        Ok(Seq::empty())
    } else {
        match ints_in(bytes, data_type, format, (n - 1) as nat) {
            Ok(front) => match data_type.decode_int_spec(
                after(bytes, (n - 1) * data_type.byte_size_spec()),
                format,
            ) {
                Ok(value) => Ok(front.push(value)),
                Err(error) => Err(error),
            },
            Err(error) => Err(error),
        }
    }
}

/// The first `n` floating-point numbers of the given type that bytes spell one after the
/// other, or why the first of them that cannot be decoded cannot.
pub open spec fn floats_in(bytes: Seq<u8>, data_type: DataType, format: Format, n: nat) -> Result<
    Seq<FloatBits>,
    DecodeError,
>
    decreases n,
{
    if n == 0 {
        Ok(Seq::empty())
    } else {
        match floats_in(bytes, data_type, format, (n - 1) as nat) {
            Ok(front) => match data_type.decode_float_spec(
                after(bytes, (n - 1) * data_type.byte_size_spec()),
                format,
            ) {
                Ok(value) => Ok(front.push(value)),
                Err(error) => Err(error),
            },
            Err(error) => Err(error),
        }
    }
}

/// The number of values in a list whose count was read as `count`: none for a count that
/// is negative.
pub open spec fn list_len(count: i64) -> nat {
    if count > 0 {
        count as nat
    } else {
        0
    }
}

/// The value of a property at the front of binary data, and the number of bytes that it
/// takes. A scalar is one value of its type. A list is its count, in the type of the
/// counts, and then as many values as the count says, one after the other.
pub open spec fn binary_value(bytes: Seq<u8>, property: PropertyView, format: Format) -> Result<
    (BinaryValueView, int),
    DecodeError,
> {
    let value_type = property.value_type;
    let size = value_type.byte_size_spec();
    match property.count_type {
        Some(count_type) => match count_type.decode_int_spec(bytes, format) {
            Ok(count) => {
                let n = list_len(count);
                let values = after(bytes, count_type.byte_size_spec());
                let taken = count_type.byte_size_spec() + n * size;
                if value_type.is_int_spec() {
                    match ints_in(values, value_type, format, n) {
                        Ok(list) => Ok((BinaryValueView::IntList(list), taken)),
                        Err(error) => Err(error),
                    }
                } else {
                    match floats_in(values, value_type, format, n) {
                        Ok(list) => Ok((BinaryValueView::FloatList(list), taken)),
                        Err(error) => Err(error),
                    }
                }
            },
            Err(error) => Err(error),
        },
        None => if value_type.is_int_spec() {
            match value_type.decode_int_spec(bytes, format) {
                Ok(value) => Ok((BinaryValueView::Int(value), size)),
                Err(error) => Err(error),
            }
        } else {
            match value_type.decode_float_spec(bytes, format) {
                Ok(bits) => Ok((BinaryValueView::Float(bits), size)),
                Err(error) => Err(error),
            }
        },
    }
}

/// Where the first whole numbers cannot all be decoded, more of them fail in the same way.
proof fn lemma_ints_failure_stays(bytes: Seq<u8>, data_type: DataType, format: Format, m: nat, n: nat)
    requires
        m <= n,
        ints_in(bytes, data_type, format, m) is Err,
    ensures
        ints_in(bytes, data_type, format, n) == ints_in(bytes, data_type, format, m),
    decreases n,
{
    if m < n {
        lemma_ints_failure_stays(bytes, data_type, format, m, (n - 1) as nat);
    }
}

/// Where the first floating-point numbers cannot all be decoded, more of them fail in the
/// same way.
proof fn lemma_floats_failure_stays(bytes: Seq<u8>, data_type: DataType, format: Format, m: nat, n: nat)
    requires
        m <= n,
        floats_in(bytes, data_type, format, m) is Err,
    ensures
        floats_in(bytes, data_type, format, n) == floats_in(bytes, data_type, format, m),
    decreases n,
{
    if m < n {
        lemma_floats_failure_stays(bytes, data_type, format, m, (n - 1) as nat);
    }
}

/// Decodes the `n` whole numbers of a list, which start at `start`.
fn read_ints(bytes: &[u8], start: usize, data_type: DataType, format: Format, n: u64) -> (r: Result<
    (Vec<i64>, usize),
    DecodeError,
>)
    requires
        start <= bytes@.len(),
    ensures
        match ints_in(after(bytes@, start as int), data_type, format, n as nat) {
            Ok(values) => r matches Ok((v, end)) && v@ == values && end == start + n * data_type.byte_size_spec()
                && end <= bytes@.len(),
            Err(error) => r == Err::<(Vec<i64>, usize), DecodeError>(error),
        },
{
    let ghost rest = after(bytes@, start as int);
    let size = data_type.byte_size() as usize;
    let mut values: Vec<i64> = Vec::new();
    let mut at = start;
    let mut done: u64 = 0;
    while done < n
        invariant
            start <= at <= bytes@.len(),
            done <= n,
            rest == after(bytes@, start as int),
            size == data_type.byte_size_spec(),
            at == start + done * size,
            ints_in(rest, data_type, format, done as nat) == Ok::<Seq<i64>, DecodeError>(values@),
        decreases n - done,
    {
        proof {
            assert(after(rest, done * size) =~= bytes@.subrange(at as int, bytes@.len() as int));
            assert((done + 1) * size == done * size + size) by (nonlinear_arith);
        }
        match data_type.decode_int(slice_subrange(bytes, at, bytes.len()), format) {
            Ok(value) => {
                values.push(value);
                at += size;
                done += 1;
            },
            Err(error) => {
                proof {
                    lemma_ints_failure_stays(rest, data_type, format, (done + 1) as nat, n as nat);
                }
                return Err(error);
            },
        }
    }
    Ok((values, at))
}

/// Decodes the `n` floating-point numbers of a list, which start at `start`.
fn read_floats(bytes: &[u8], start: usize, data_type: DataType, format: Format, n: u64) -> (r: Result<
    (Vec<FloatBits>, usize),
    DecodeError,
>)
    requires
        start <= bytes@.len(),
    ensures
        match floats_in(after(bytes@, start as int), data_type, format, n as nat) {
            Ok(values) => r matches Ok((v, end)) && v@ == values && end == start + n * data_type.byte_size_spec()
                && end <= bytes@.len(),
            Err(error) => r == Err::<(Vec<FloatBits>, usize), DecodeError>(error),
        },
{
    let ghost rest = after(bytes@, start as int);
    let size = data_type.byte_size() as usize;
    let mut values: Vec<FloatBits> = Vec::new();
    let mut at = start;
    let mut done: u64 = 0;
    while done < n
        invariant
            start <= at <= bytes@.len(),
            done <= n,
            rest == after(bytes@, start as int),
            size == data_type.byte_size_spec(),
            at == start + done * size,
            floats_in(rest, data_type, format, done as nat) == Ok::<Seq<FloatBits>, DecodeError>(values@),
        decreases n - done,
    {
        proof {
            assert(after(rest, done * size) =~= bytes@.subrange(at as int, bytes@.len() as int));
            assert((done + 1) * size == done * size + size) by (nonlinear_arith);
        }
        match data_type.decode_float(slice_subrange(bytes, at, bytes.len()), format) {
            Ok(value) => {
                values.push(value);
                at += size;
                done += 1;
            },
            Err(error) => {
                proof {
                    lemma_floats_failure_stays(rest, data_type, format, (done + 1) as nat, n as nat);
                }
                return Err(error);
            },
        }
    }
    Ok((values, at))
}

/// Reads the value of a property from the front of binary data, and returns it with the
/// number of bytes that it takes, which the data hold.
pub fn read_binary_value(bytes: &[u8], property: &Property, format: Format) -> (r: Result<
    (BinaryValue, usize),
    DecodeError,
>)
    ensures
        match binary_value(bytes@, property@, format) {
            Ok((value, taken)) => r matches Ok((v, n)) && v@ == value && n == taken && n <= bytes@.len(),
            Err(error) => r == Err::<(BinaryValue, usize), DecodeError>(error),
        },
{
    let value_type = property.value_type();
    match property.count_type() {
        Some(count_type) => {
            let count = match count_type.decode_int(bytes, format) {
                Ok(count) => count,
                Err(error) => { return Err(error); },
            };
            let n: u64 = if count > 0 {
                count as u64
            } else {
                0
            };
            let start = count_type.byte_size() as usize;
            if value_type.is_int() {
                match read_ints(bytes, start, value_type, format, n) {
                    Ok((values, end)) => Ok((BinaryValue::IntList(values), end)),
                    Err(error) => Err(error),
                }
            } else {
                match read_floats(bytes, start, value_type, format, n) {
                    Ok((values, end)) => Ok((BinaryValue::FloatList(values), end)),
                    Err(error) => Err(error),
                }
            }
        },
        None => {
            if value_type.is_int() {
                match value_type.decode_int(bytes, format) {
                    Ok(value) => Ok((BinaryValue::Int(value), value_type.byte_size() as usize)),
                    Err(error) => Err(error),
                }
            } else {
                match value_type.decode_float(bytes, format) {
                    Ok(bits) => Ok((BinaryValue::Float(bits), value_type.byte_size() as usize)),
                    Err(error) => Err(error),
                }
            }
        },
    }
}

/// The models of a sequence of values of binary data.
pub open spec fn binary_views(values: Seq<BinaryValue>) -> Seq<BinaryValueView> {
    Seq::new(values.len(), |i: int| values[i]@)
}

/// The models of a sequence of values of text.
pub open spec fn ascii_views<'a>(values: Seq<AsciiValue<'a>>) -> Seq<AsciiValueView> {
    Seq::new(values.len(), |i: int| values[i]@)
}

/// The values of a row of binary data, one for each property in turn, and the number of
/// bytes that the row takes: each value starts where the one before it ends. The row is
/// refused for what its first value that cannot be decoded is refused for.
pub open spec fn binary_row(bytes: Seq<u8>, properties: Seq<PropertyView>, format: Format) -> Result<
    (Seq<BinaryValueView>, int),
    DecodeError,
>
    decreases properties.len(),
{
    if properties.len() == 0 {
        Ok((Seq::empty(), 0))
    } else {
        match binary_row(bytes, properties.drop_last(), format) {
            Ok((values, taken)) => match binary_value(after(bytes, taken), properties.last(), format) {
                Ok((value, more)) => Ok((values.push(value), taken + more)),
                Err(error) => Err(error),
            },
            Err(error) => Err(error),
        }
    }
}

/// The values of a row of text, one for each property in turn, and the place of the token
/// after the last of them: each value starts at the token after the one before it. Tokens
/// that are left over are no fault. Where a value is refused, the row is refused for the
/// same, and the values before it are still told.
pub open spec fn ascii_row(row: Seq<Seq<u8>>, properties: Seq<PropertyView>) -> Result<
    (Seq<AsciiValueView>, int),
    (Seq<AsciiValueView>, RowError),
>
    decreases properties.len(),
{
    if properties.len() == 0 {
        Ok((Seq::empty(), 0))
    } else {
        match ascii_row(row, properties.drop_last()) {
            Ok((values, next)) => match ascii_value(row, next, properties.last()) {
                Ok((value, after)) => Ok((values.push(value), after)),
                Err(error) => Err((values, error)),
            },
            Err(fault) => Err(fault),
        }
    }
}

/// Where the first properties of a row of binary data are refused, the row is.
proof fn lemma_binary_row_fails(bytes: Seq<u8>, properties: Seq<PropertyView>, format: Format, n: int)
    requires
        0 <= n <= properties.len(),
        binary_row(bytes, properties.take(n), format) is Err,
    ensures
        binary_row(bytes, properties, format) == binary_row(bytes, properties.take(n), format),
    decreases properties.len() - n,
{
    if n < properties.len() {
        assert(properties.take(n + 1).drop_last() =~= properties.take(n));
        lemma_binary_row_fails(bytes, properties, format, n + 1);
    } else {
        assert(properties.take(n) =~= properties);
    }
}

/// Where the first properties of a row of text are refused, the row is.
proof fn lemma_ascii_row_fails(row: Seq<Seq<u8>>, properties: Seq<PropertyView>, n: int)
    requires
        0 <= n <= properties.len(),
        ascii_row(row, properties.take(n)) is Err,
    ensures
        ascii_row(row, properties) == ascii_row(row, properties.take(n)),
    decreases properties.len() - n,
{
    if n < properties.len() {
        assert(properties.take(n + 1).drop_last() =~= properties.take(n));
        lemma_ascii_row_fails(row, properties, n + 1);
    } else {
        assert(properties.take(n) =~= properties);
    }
}

/// Reads one row of binary data from the front of `bytes`: the value of each property in
/// turn. It returns the values with the number of bytes that the row takes, which the data
/// hold.
pub fn read_binary_row(bytes: &[u8], properties: &[Property], format: Format) -> (r: Result<
    (Vec<BinaryValue>, usize),
    DecodeError,
>)
    ensures
        match binary_row(bytes@, property_views(properties@), format) {
            Ok((values, taken)) => r matches Ok((v, n)) && binary_views(v@) == values && n == taken && n
                <= bytes@.len(),
            Err(error) => r == Err::<(Vec<BinaryValue>, usize), DecodeError>(error),
        },
{
    let ghost views = property_views(properties@);
    let mut values: Vec<BinaryValue> = Vec::new();
    let mut at: usize = 0;
    let mut i: usize = 0;
    proof {
        assert(views.take(0) =~= Seq::<PropertyView>::empty());
        assert(binary_views(values@) =~= Seq::<BinaryValueView>::empty());
    }
    while i < properties.len()
        invariant
            i <= properties@.len(),
            at <= bytes@.len(),
            views == property_views(properties@),
            binary_row(bytes@, views.take(i as int), format) == Ok::<(Seq<BinaryValueView>, int), DecodeError>(
                (binary_views(values@), at as int),
            ),
        decreases properties@.len() - i,
    {
        proof {
            assert(views.take(i + 1).drop_last() =~= views.take(i as int));
            assert(views.take(i + 1).last() == properties@[i as int]@);
        }
        let ghost before = binary_views(values@);
        match read_binary_value(slice_subrange(bytes, at, bytes.len()), &properties[i], format) {
            Ok((value, taken)) => {
                values.push(value);
                at += taken;
                proof {
                    assert(binary_views(values@) =~= before.push(value@));
                }
            },
            Err(error) => {
                proof {
                    lemma_binary_row_fails(bytes@, views, format, i + 1);
                }
                return Err(error);
            },
        }
        i += 1;
    }
    proof {
        assert(views.take(i as int) =~= views);
    }
    Ok((values, at))
}

/// Reads one row of text: the value of each property in turn. It returns the values with
/// the place of the token after the last of them; or, where a value is refused, the values
/// before it and why it is refused. The places of all tokens of the row must be numbers
/// that `usize` holds.
pub fn read_ascii_row<'a>(line: &'a [u8], properties: &[Property]) -> (r: Result<
    (Vec<AsciiValue<'a>>, usize),
    (Vec<AsciiValue<'a>>, RowError),
>)
    requires
        line@.len() < usize::MAX,
    ensures
        match ascii_row(tokens(line@), property_views(properties@)) {
            Ok((values, next)) => r matches Ok((v, n)) && ascii_views(v@) == values && n == next,
            Err((values, error)) => r matches Err((v, e)) && ascii_views(v@) == values && e == error,
        },
{
    let ghost views = property_views(properties@);
    let mut values: Vec<AsciiValue<'a>> = Vec::new();
    let mut next: usize = 0;
    let mut i: usize = 0;
    proof {
        assert(views.take(0) =~= Seq::<PropertyView>::empty());
        assert(ascii_views(values@) =~= Seq::<AsciiValueView>::empty());
    }
    while i < properties.len()
        invariant
            i <= properties@.len(),
            line@.len() < usize::MAX,
            views == property_views(properties@),
            ascii_row(tokens(line@), views.take(i as int)) == Ok::<
                (Seq<AsciiValueView>, int),
                (Seq<AsciiValueView>, RowError),
            >((ascii_views(values@), next as int)),
        decreases properties@.len() - i,
    {
        proof {
            assert(views.take(i + 1).drop_last() =~= views.take(i as int));
            assert(views.take(i + 1).last() == properties@[i as int]@);
        }
        let ghost before = ascii_views(values@);
        match read_ascii_value(line, next, &properties[i]) {
            Ok((value, after)) => {
                values.push(value);
                next = after;
                proof {
                    assert(ascii_views(values@) =~= before.push(value@));
                }
            },
            Err(error) => {
                proof {
                    lemma_ascii_row_fails(tokens(line@), views, i + 1);
                }
                return Err((values, error));
            },
        }
        i += 1;
    }
    proof {
        assert(views.take(i as int) =~= views);
    }
    Ok((values, next))
}

} // verus!
