//! Literal values and their order.

use vstd::prelude::*;
use vstd::utf8::encode_utf8;

use crate::schema::{DataType, DataTypeV, DecimalType, PrimitiveType};

verus! {

/// A literal value. Floating-point values are held by their IEEE-754 bit pattern.
#[derive(Debug, PartialEq)]
pub enum Scalar {
    Integer(i32),
    Long(i64),
    Short(i16),
    Byte(i8),
    Float(u32),
    Double(u64),
    String(String),
    Boolean(bool),
    Timestamp(i64),
    TimestampNtz(i64),
    Date(i32),
    Binary(Vec<u8>),
    Decimal(i128, DecimalType),
    Null(DataType),
}

/// A [`Scalar`] with its text and bytes as sequences.
pub enum ScalarV {
    Integer(i32),
    Long(i64),
    Short(i16),
    Byte(i8),
    Float(u32),
    Double(u64),
    String(Seq<char>),
    Boolean(bool),
    Timestamp(i64),
    TimestampNtz(i64),
    Date(i32),
    Binary(Seq<u8>),
    Decimal(i128, DecimalType),
    Null(DataTypeV),
}

/// The outcome of comparing two values.
#[derive(Debug, Clone, Copy, PartialEq, Eq, Structural)]
pub enum Comparison {
    Less,
    Equal,
    Greater,
}

impl View for Scalar {
    type V = ScalarV;

    open spec fn view(&self) -> ScalarV {
        match *self {
            Scalar::Integer(v) => ScalarV::Integer(v),
            Scalar::Long(v) => ScalarV::Long(v),
            Scalar::Short(v) => ScalarV::Short(v),
            Scalar::Byte(v) => ScalarV::Byte(v),
            Scalar::Float(v) => ScalarV::Float(v),
            Scalar::Double(v) => ScalarV::Double(v),
            Scalar::String(v) => ScalarV::String(v@),
            Scalar::Boolean(v) => ScalarV::Boolean(v),
            Scalar::Timestamp(v) => ScalarV::Timestamp(v),
            Scalar::TimestampNtz(v) => ScalarV::TimestampNtz(v),
            Scalar::Date(v) => ScalarV::Date(v),
            Scalar::Binary(v) => ScalarV::Binary(v@),
            Scalar::Decimal(v, t) => ScalarV::Decimal(v, t),
            Scalar::Null(t) => ScalarV::Null(t@),
        }
    }
}

impl Clone for Scalar {
    fn clone(&self) -> (copy: Scalar)
        ensures
            copy@ == self@,
    {
        match self {
            Scalar::Integer(v) => Scalar::Integer(*v),
            Scalar::Long(v) => Scalar::Long(*v),
            Scalar::Short(v) => Scalar::Short(*v),
            Scalar::Byte(v) => Scalar::Byte(*v),
            Scalar::Float(v) => Scalar::Float(*v),
            Scalar::Double(v) => Scalar::Double(*v),
            Scalar::String(v) => Scalar::String(v.clone()),
            Scalar::Boolean(v) => Scalar::Boolean(*v),
            Scalar::Timestamp(v) => Scalar::Timestamp(*v),
            Scalar::TimestampNtz(v) => Scalar::TimestampNtz(*v),
            Scalar::Date(v) => Scalar::Date(*v),
            Scalar::Binary(v) => {
                let bytes = v.clone();
                assert(bytes@ =~= v@);
                Scalar::Binary(bytes)
            },
            Scalar::Decimal(v, t) => Scalar::Decimal(*v, *t),
            Scalar::Null(t) => Scalar::Null(t.clone()),
        }
    }
}

impl ScalarV {
    pub open spec fn is_null(self) -> bool {
        self is Null
    }

    pub open spec fn data_type(self) -> DataTypeV {
        match self {
            ScalarV::Integer(_) => DataTypeV::Primitive(PrimitiveType::Integer),
            ScalarV::Long(_) => DataTypeV::Primitive(PrimitiveType::Long),
            ScalarV::Short(_) => DataTypeV::Primitive(PrimitiveType::Short),
            ScalarV::Byte(_) => DataTypeV::Primitive(PrimitiveType::Byte),
            ScalarV::Float(_) => DataTypeV::Primitive(PrimitiveType::Float),
            ScalarV::Double(_) => DataTypeV::Primitive(PrimitiveType::Double),
            ScalarV::String(_) => DataTypeV::Primitive(PrimitiveType::String),
            ScalarV::Boolean(_) => DataTypeV::Primitive(PrimitiveType::Boolean),
            ScalarV::Timestamp(_) => DataTypeV::Primitive(PrimitiveType::Timestamp),
            ScalarV::TimestampNtz(_) => DataTypeV::Primitive(PrimitiveType::TimestampNtz),
            ScalarV::Date(_) => DataTypeV::Primitive(PrimitiveType::Date),
            ScalarV::Binary(_) => DataTypeV::Primitive(PrimitiveType::Binary),
            ScalarV::Decimal(_, t) => DataTypeV::Primitive(PrimitiveType::Decimal(t)),
            ScalarV::Null(t) => t,
        }
    }
}

pub open spec fn compare_ints(a: int, b: int) -> Comparison {
    if a < b {
        Comparison::Less
    } else if a == b {
        Comparison::Equal
    } else {
        Comparison::Greater
    }
}

/// Lexicographic order of byte strings.
pub open spec fn compare_bytes(a: Seq<u8>, b: Seq<u8>) -> Comparison
    decreases a.len(),
{
    if a.len() == 0 && b.len() == 0 {
        Comparison::Equal
    } else if a.len() == 0 {
        Comparison::Less
    } else if b.len() == 0 {
        Comparison::Greater
    } else if a[0] != b[0] {
        compare_ints(a[0] as int, b[0] as int)
    } else {
        compare_bytes(a.drop_first(), b.drop_first())
    }
}

/// The position of a floating-point bit pattern in the order of its numeric values; `None`
/// for NaN. `sign` is the weight of the sign bit, `infinity` the pattern of infinity.
pub open spec fn float_rank(bits: int, sign: int, infinity: int) -> Option<int> {
    let magnitude = if bits >= sign {
        bits - sign
    } else {
        bits
    };
    if magnitude > infinity {
        None
    } else if bits >= sign {
        Some(-magnitude)
    } else {
        Some(magnitude)
    }
}

/// The type and the place in that type's order of a value whose order is that of an integer.
/// `None` for NULL, NaN, text and bytes.
pub open spec fn integer_key(s: ScalarV) -> Option<(PrimitiveType, int)> {
    match s {
        ScalarV::Integer(x) => Some((PrimitiveType::Integer, x as int)),
        ScalarV::Long(x) => Some((PrimitiveType::Long, x as int)),
        ScalarV::Short(x) => Some((PrimitiveType::Short, x as int)),
        ScalarV::Byte(x) => Some((PrimitiveType::Byte, x as int)),
        ScalarV::Float(x) => match float_rank(x as int, 0x8000_0000, 0x7f80_0000) {
            Some(rank) => Some((PrimitiveType::Float, rank)),
            None => None,
        },
        ScalarV::Double(x) => match float_rank(
            x as int,
            0x8000_0000_0000_0000,
            0x7ff0_0000_0000_0000,
        ) {
            Some(rank) => Some((PrimitiveType::Double, rank)),
            None => None,
        },
        ScalarV::Boolean(x) => Some((PrimitiveType::Boolean, bool_rank(x))),
        ScalarV::Timestamp(x) => Some((PrimitiveType::Timestamp, x as int)),
        ScalarV::TimestampNtz(x) => Some((PrimitiveType::TimestampNtz, x as int)),
        ScalarV::Date(x) => Some((PrimitiveType::Date, x as int)),
        ScalarV::Decimal(x, t) => Some((PrimitiveType::Decimal(t), x as int)),
        _ => None,
    }
}

/// The type and the bytes by which a text or a byte string is ordered. `None` for other values.
pub open spec fn bytes_key(s: ScalarV) -> Option<(PrimitiveType, Seq<u8>)> {
    match s {
        ScalarV::String(x) => Some((PrimitiveType::String, encode_utf8(x))),
        ScalarV::Binary(x) => Some((PrimitiveType::Binary, x)),
        _ => None,
    }
}

/// The order of two values: defined for two non-null values of one type. Strings are ordered by
/// their UTF-8 bytes; NaN is comparable with nothing.
#[verifier::opaque]
pub open spec fn scalar_order(a: ScalarV, b: ScalarV) -> Option<Comparison> {
    match (integer_key(a), integer_key(b)) {
        (Some((t, x)), Some((u, y))) => if t == u {
            Some(compare_ints(x, y))
        } else {
            None
        },
        _ => match (bytes_key(a), bytes_key(b)) {
            (Some((t, x)), Some((u, y))) => if t == u {
                Some(compare_bytes(x, y))
            } else {
                None
            },
            _ => None,
        },
    }
}

/// FALSE precedes TRUE.
pub open spec fn bool_rank(b: bool) -> int {
    if b {
        1
    } else {
        0
    }
}

fn order_of_ints(a: i128, b: i128) -> (order: Comparison)
    ensures
        order == compare_ints(a as int, b as int),
{
    if a < b {
        Comparison::Less
    } else if a == b {
        Comparison::Equal
    } else {
        Comparison::Greater
    }
}

fn order_of_bytes(a: &[u8], b: &[u8]) -> (order: Comparison)
    ensures
        order == compare_bytes(a@, b@),
{
    let mut i: usize = 0;
    assert(a@.skip(0) =~= a@);
    assert(b@.skip(0) =~= b@);
    while i < a.len() && i < b.len()
        invariant
            i <= a@.len(),
            i <= b@.len(),
            compare_bytes(a@, b@) == compare_bytes(a@.skip(i as int), b@.skip(i as int)),
        decreases a@.len() - i,
    {
        assert(a@.skip(i as int)[0] == a@[i as int]);
        assert(b@.skip(i as int)[0] == b@[i as int]);
        if a[i] != b[i] {
            return order_of_ints(a[i] as i128, b[i] as i128);
        }
        assert(a@.skip(i as int).drop_first() =~= a@.skip(i as int + 1));
        assert(b@.skip(i as int).drop_first() =~= b@.skip(i as int + 1));
        i += 1;
    }
    if a.len() == b.len() {
        Comparison::Equal
    } else if a.len() < b.len() {
        Comparison::Less
    } else {
        Comparison::Greater
    }
}

fn rank_of_float(bits: u64, sign: u64, infinity: u64) -> (rank: Option<i128>)
    ensures
        match rank {
            Some(r) => float_rank(bits as int, sign as int, infinity as int) == Some(r as int),
            None => float_rank(bits as int, sign as int, infinity as int) is None,
        },
{
    let magnitude: u64 = if bits >= sign {
        bits - sign
    } else {
        bits
    };
    if magnitude > infinity {
        None
    } else if bits >= sign {
        Some(-(magnitude as i128))
    } else {
        Some(magnitude as i128)
    }
}

/// The place of a value in the order of its type, where that is the order of an integer.
fn integer_rank(s: &Scalar) -> (rank: Option<(PrimitiveType, i128)>)
    ensures
        match rank {
            Some((t, r)) => integer_key(s@) == Some((t, r as int)),
            None => integer_key(s@) is None,
        },
{
    match s {
        Scalar::Integer(x) => Some((PrimitiveType::Integer, *x as i128)),
        Scalar::Long(x) => Some((PrimitiveType::Long, *x as i128)),
        Scalar::Short(x) => Some((PrimitiveType::Short, *x as i128)),
        Scalar::Byte(x) => Some((PrimitiveType::Byte, *x as i128)),
        Scalar::Float(x) => match rank_of_float(*x as u64, 0x8000_0000, 0x7f80_0000) {
            Some(rank) => Some((PrimitiveType::Float, rank)),
            None => None,
        },
        Scalar::Double(x) => match rank_of_float(
            *x,
            0x8000_0000_0000_0000,
            0x7ff0_0000_0000_0000,
        ) {
            Some(rank) => Some((PrimitiveType::Double, rank)),
            None => None,
        },
        Scalar::Boolean(x) => Some((PrimitiveType::Boolean, rank_of_bool(*x))),
        Scalar::Timestamp(x) => Some((PrimitiveType::Timestamp, *x as i128)),
        Scalar::TimestampNtz(x) => Some((PrimitiveType::TimestampNtz, *x as i128)),
        Scalar::Date(x) => Some((PrimitiveType::Date, *x as i128)),
        Scalar::Decimal(x, t) => Some((PrimitiveType::Decimal(*t), *x)),
        _ => None,
    }
}

fn rank_of_bool(b: bool) -> (rank: i128)
    ensures
        rank == bool_rank(b),
{
    if b {
        1
    } else {
        0
    }
}

impl Scalar {
    /// Whether this is the NULL of some type.
    pub fn is_null(&self) -> (null: bool)
        ensures
            null == self@.is_null(),
    {
        matches!(self, Scalar::Null(_))
    }

    /// The type of the value.
    pub fn data_type(&self) -> (data_type: DataType)
        ensures
            data_type@ == self@.data_type(),
    {
        match self {
            Scalar::Integer(_) => DataType::Primitive(PrimitiveType::Integer),
            Scalar::Long(_) => DataType::Primitive(PrimitiveType::Long),
            Scalar::Short(_) => DataType::Primitive(PrimitiveType::Short),
            Scalar::Byte(_) => DataType::Primitive(PrimitiveType::Byte),
            Scalar::Float(_) => DataType::Primitive(PrimitiveType::Float),
            Scalar::Double(_) => DataType::Primitive(PrimitiveType::Double),
            Scalar::String(_) => DataType::Primitive(PrimitiveType::String),
            Scalar::Boolean(_) => DataType::Primitive(PrimitiveType::Boolean),
            Scalar::Timestamp(_) => DataType::Primitive(PrimitiveType::Timestamp),
            Scalar::TimestampNtz(_) => DataType::Primitive(PrimitiveType::TimestampNtz),
            Scalar::Date(_) => DataType::Primitive(PrimitiveType::Date),
            Scalar::Binary(_) => DataType::Primitive(PrimitiveType::Binary),
            Scalar::Decimal(_, t) => DataType::Primitive(PrimitiveType::Decimal(*t)),
            Scalar::Null(t) => t.clone(),
        }
    }

    /// Compares two values; `None` when they are not comparable.
    pub fn order(&self, other: &Scalar) -> (order: Option<Comparison>)
        ensures
            order == scalar_order(self@, other@),
    {
        reveal(scalar_order);
        match (integer_rank(self), integer_rank(other)) {
            (Some((t, x)), Some((u, y))) => if t == u {
                Some(order_of_ints(x, y))
            } else {
                None
            },
            _ => match (self, other) {
                (Scalar::String(x), Scalar::String(y)) => Some(
                    order_of_bytes(x.as_str().as_bytes(), y.as_str().as_bytes()),
                ),
                (Scalar::Binary(x), Scalar::Binary(y)) => Some(
                    order_of_bytes(x.as_slice(), y.as_slice()),
                ),
                _ => None,
            },
        }
    }
}

} // verus!
