//! Table and read schemas.

use std::sync::Arc;

use vstd::prelude::*;

use crate::text::{clone_opt_string, opt_string_view};

verus! {

/// Precision and scale of a decimal column.
#[derive(Debug, Clone, Copy, PartialEq, Eq, Structural)]
pub struct DecimalType {
    pub precision: u8,
    pub scale: u8,
}

/// The type of a leaf column.
#[derive(Debug, Clone, Copy, PartialEq, Eq, Structural)]
pub enum PrimitiveType {
    String,
    Long,
    Integer,
    Short,
    Byte,
    Float,
    Double,
    Boolean,
    Binary,
    Date,
    Timestamp,
    TimestampNtz,
    Decimal(DecimalType),
    IntervalYearMonth,
    IntervalDayTime,
}

/// The type of a column.
#[derive(Debug, PartialEq)]
pub enum DataType {
    Primitive(PrimitiveType),
    Array(Box<ArrayType>),
    Struct(Box<StructType>),
    KeyValue(Box<MapType>),
    Variant,
}

/// A list column.
#[derive(Debug, PartialEq)]
pub struct ArrayType {
    pub element_type: DataType,
    pub contains_null: bool,
}

/// A key-value column.
#[derive(Debug, PartialEq)]
pub struct MapType {
    pub key_type: DataType,
    pub value_type: DataType,
    pub value_contains_null: bool,
}

/// A named column. `physical_name` is the name under which column mapping stores it, when
/// the table assigned one.
#[derive(Debug, PartialEq)]
pub struct StructField {
    pub name: String,
    pub data_type: DataType,
    pub nullable: bool,
    pub physical_name: Option<String>,
}

/// An ordered list of columns.
#[derive(Debug, PartialEq)]
pub struct StructType {
    pub fields: Vec<StructField>,
}

/// A schema is a top-level struct.
pub type Schema = StructType;

/// A shared schema.
pub type SchemaRef = Arc<StructType>;

/// How logical column names relate to the names stored in data files.
#[derive(Debug, Clone, Copy, PartialEq, Eq, Structural)]
pub enum ColumnMappingMode {
    Unmapped,
    Id,
    Name,
}

/// A [`DataType`] with its names as character sequences.
#[verifier::ext_equal]
pub enum DataTypeV {
    Primitive(PrimitiveType),
    Array(Box<DataTypeV>, bool),
    Struct(Seq<FieldV>),
    KeyValue(Box<DataTypeV>, Box<DataTypeV>, bool),
    Variant,
}

/// A [`StructField`] with its names as character sequences.
#[verifier::ext_equal]
pub struct FieldV {
    pub name: Seq<char>,
    pub data_type: DataTypeV,
    pub nullable: bool,
    pub physical_name: Option<Seq<char>>,
}

/// A [`StructType`] as the sequence of its fields.
pub type SchemaV = Seq<FieldV>;

pub open spec fn data_type_view(t: DataType) -> DataTypeV
    decreases t,
{
    match t {
        DataType::Primitive(p) => DataTypeV::Primitive(p),
        DataType::Array(a) => DataTypeV::Array(
            Box::new(data_type_view(a.element_type)),
            a.contains_null,
        ),
        DataType::Struct(s) => DataTypeV::Struct(struct_view(*s)),
        DataType::KeyValue(m) => DataTypeV::KeyValue(
            Box::new(data_type_view(m.key_type)),
            Box::new(data_type_view(m.value_type)),
            m.value_contains_null,
        ),
        DataType::Variant => DataTypeV::Variant,
    }
}

pub open spec fn field_view(f: StructField) -> FieldV
    decreases f,
{
    FieldV {
        name: f.name@,
        data_type: data_type_view(f.data_type),
        nullable: f.nullable,
        physical_name: opt_string_view(f.physical_name),
    }
}

pub open spec fn struct_view(s: StructType) -> SchemaV
    decreases s,
{
    Seq::new(
        s.fields@.len(),
        |i: int|
            if 0 <= i < s.fields@.len() {
                field_view(s.fields@[i])
            } else {
                arbitrary()
            },
    )
}

impl View for DataType {
    type V = DataTypeV;

    open spec fn view(&self) -> DataTypeV {
        data_type_view(*self)
    }
}

impl View for StructField {
    type V = FieldV;

    open spec fn view(&self) -> FieldV {
        field_view(*self)
    }
}

impl View for StructType {
    type V = SchemaV;

    open spec fn view(&self) -> SchemaV {
        struct_view(*self)
    }
}

impl Clone for DataType {
    fn clone(&self) -> (copy: DataType)
        ensures
            copy@ == self@,
        decreases self,
    {
        match self {
            DataType::Primitive(p) => DataType::Primitive(*p),
            DataType::Array(a) => DataType::Array(
                Box::new(
                    ArrayType {
                        element_type: a.element_type.clone(),
                        contains_null: a.contains_null,
                    },
                ),
            ),
            DataType::Struct(s) => {
                let inner: StructType = (&**s).clone();
                DataType::Struct(Box::new(inner))
            },
            DataType::KeyValue(m) => DataType::KeyValue(
                Box::new(
                    MapType {
                        key_type: m.key_type.clone(),
                        value_type: m.value_type.clone(),
                        value_contains_null: m.value_contains_null,
                    },
                ),
            ),
            DataType::Variant => DataType::Variant,
        }
    }
}

impl Clone for StructField {
    fn clone(&self) -> (copy: StructField)
        ensures
            copy@ == self@,
        decreases self,
    {
        StructField {
            name: self.name.clone(),
            data_type: self.data_type.clone(),
            nullable: self.nullable,
            physical_name: clone_opt_string(&self.physical_name),
        }
    }
}

impl Clone for StructType {
    fn clone(&self) -> (copy: StructType)
        ensures
            copy@ == self@,
        decreases self,
    {
        let mut fields: Vec<StructField> = Vec::new();
        for i in 0..self.fields.len()
            invariant
                fields@.len() == i,
                forall|j: int| 0 <= j < i ==> #[trigger] fields@[j]@ == self.fields@[j]@,
        {
            assert(decreases_to!(*self => self.fields));
            assert(decreases_to!(self.fields => self.fields@));
            assert(decreases_to!(self.fields@ => self.fields@[i as int]));
            fields.push(self.fields[i].clone());
        }
        let copy = StructType { fields };
        assert forall|j: int| 0 <= j < self.fields@.len() implies #[trigger] copy@[j]
            == self@[j] by {
            assert(fields@[j]@ == self.fields@[j]@);
        }
        assert(copy@ =~= self@);
        copy
    }
}

impl FieldV {
    /// A column that may be NULL.
    pub open spec fn nullable(name: Seq<char>, data_type: DataTypeV) -> FieldV {
        FieldV { name, data_type, nullable: true, physical_name: None }
    }

    /// A column that is never NULL.
    pub open spec fn not_null(name: Seq<char>, data_type: DataTypeV) -> FieldV {
        FieldV { name, data_type, nullable: false, physical_name: None }
    }

    /// The name under which the column is stored.
    pub open spec fn stored_name(self, mode: ColumnMappingMode) -> Seq<char> {
        if mode == ColumnMappingMode::Unmapped {
            self.name
        } else {
            match self.physical_name {
                Some(name) => name,
                None => self.name,
            }
        }
    }
}

impl StructField {
    /// A column that may be NULL.
    pub fn nullable(name: &str, data_type: DataType) -> (field: StructField)
        ensures
            field@ == FieldV::nullable(name@, data_type@),
    {
        StructField { name: name.to_string(), data_type, nullable: true, physical_name: None }
    }

    /// A column that is never NULL.
    pub fn not_null(name: &str, data_type: DataType) -> (field: StructField)
        ensures
            field@ == FieldV::not_null(name@, data_type@),
    {
        StructField { name: name.to_string(), data_type, nullable: false, physical_name: None }
    }

    /// The name under which the column is stored: the one that column mapping assigned, or the
    /// column's own name when there is no mapping.
    pub fn physical_name(&self, mode: ColumnMappingMode) -> (name: &String)
        ensures
            name@ == self@.stored_name(mode),
    {
        match mode {
            ColumnMappingMode::Unmapped => &self.name,
            _ => match &self.physical_name {
                Some(name) => name,
                None => &self.name,
            },
        }
    }
}

/// The views of a list of fields.
pub open spec fn fields_view(fields: Seq<StructField>) -> SchemaV {
    fields.map_values(|f: StructField| f@)
}

impl StructType {
    /// The schema with the given columns.
    pub fn new(fields: Vec<StructField>) -> (schema: StructType)
        ensures
            schema@ == fields_view(fields@),
    {
        let schema = StructType { fields };
        assert(schema@ =~= fields_view(fields@));
        schema
    }
}

/// Copies an optional schema handle.
pub fn clone_opt_schema(schema: &Option<SchemaRef>) -> (copy: Option<SchemaRef>)
    ensures
        copy == *schema,
{
    match schema {
        Some(s) => Some(s.clone()),
        None => None,
    }
}

/// What an optional schema handle refers to.
pub open spec fn opt_schema_view(schema: Option<SchemaRef>) -> Option<SchemaV> {
    match schema {
        Some(s) => Some(s@),
        None => None,
    }
}

} // verus!
