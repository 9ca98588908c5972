use vstd::prelude::*;
use crate::text::{ascii_lower, chars_of, lower_ascii, same_chars};

verus! {

/// A diagram as read from text: its entities and relationships, in order of appearance.
#[derive(Debug, Clone)]
pub struct Schema {
    pub entities: Vec<Entity>,
    pub relationships: Vec<Relationship>,
}

#[derive(Debug, Clone)]
pub struct Entity {
    pub name: String,
    pub attributes: Vec<Attribute>,
}

#[derive(Debug, Clone)]
pub struct Attribute {
    pub name: String,
    pub data_type: String,
    pub is_primary_key: bool,
    pub is_foreign_key: bool,
    pub is_nullable: bool,
}

#[derive(Debug, Clone)]
pub struct Relationship {
    pub from_entity: String,
    pub to_entity: String,
    pub relationship_type: RelationshipType,
    pub from_cardinality: Cardinality,
    pub to_cardinality: Cardinality,
}

#[derive(Clone, Copy, Debug, PartialEq, Eq, Structural)]
pub enum RelationshipType {
    OneToOne,
    OneToMany,
    ManyToMany,
}

#[derive(Clone, Copy, Debug, PartialEq, Eq, Structural)]
pub enum Cardinality {
    Zero,
    One,
    ZeroOrOne,
    ZeroOrMany,
    OneOrMany,
}

pub ghost struct AttributeModel {
    pub name: Seq<char>,
    pub data_type: Seq<char>,
    pub is_primary_key: bool,
    pub is_foreign_key: bool,
    pub is_nullable: bool,
}

pub ghost struct EntityModel {
    pub name: Seq<char>,
    pub attributes: Seq<AttributeModel>,
}

pub ghost struct RelationshipModel {
    pub from_entity: Seq<char>,
    pub to_entity: Seq<char>,
    pub relationship_type: RelationshipType,
    pub from_cardinality: Cardinality,
    pub to_cardinality: Cardinality,
}

pub ghost struct SchemaModel {
    pub entities: Seq<EntityModel>,
    pub relationships: Seq<RelationshipModel>,
}

impl View for Attribute {
    type V = AttributeModel;

    open spec fn view(&self) -> AttributeModel {
        AttributeModel {
            name: self.name@,
            data_type: self.data_type@,
            is_primary_key: self.is_primary_key,
            is_foreign_key: self.is_foreign_key,
            is_nullable: self.is_nullable,
        }
    }
}

impl View for Entity {
    type V = EntityModel;

    open spec fn view(&self) -> EntityModel {
        EntityModel {
            name: self.name@,
            attributes: self.attributes@.map_values(|a: Attribute| a@),
        }
    }
}

impl View for Relationship {
    type V = RelationshipModel;

    open spec fn view(&self) -> RelationshipModel {
        RelationshipModel {
            from_entity: self.from_entity@,
            to_entity: self.to_entity@,
            relationship_type: self.relationship_type,
            from_cardinality: self.from_cardinality,
            to_cardinality: self.to_cardinality,
        }
    }
}

impl View for Schema {
    type V = SchemaModel;

    open spec fn view(&self) -> SchemaModel {
        SchemaModel {
            entities: self.entities@.map_values(|e: Entity| e@),
            relationships: self.relationships@.map_values(|r: Relationship| r@),
        }
    }
}

/// A column type of the code generator: a type family together with one of three
/// variants, written as the family's token alone (nullable), followed by `!`
/// (required) or by `^` (unique).
#[derive(Clone, Copy, Debug, PartialEq, Eq, Structural)]
pub enum LocoDataType {
    UuidNullable,
    Uuid,
    UuidUnique,
    StringNullable,
    String,
    StringUnique,
    TextNullable,
    Text,
    TextUnique,
    SmallUnsignedNullable,
    SmallUnsigned,
    SmallUnsignedUnique,
    BigUnsignedNullable,
    BigUnsigned,
    BigUnsignedUnique,
    SmallIntNullable,
    SmallInt,
    SmallIntUnique,
    IntNullable,
    Int,
    IntUnique,
    BigIntNullable,
    BigInt,
    BigIntUnique,
    FloatNullable,
    Float,
    FloatUnique,
    DoubleNullable,
    Double,
    DoubleUnique,
    DecimalNullable,
    Decimal,
    DecimalUnique,
    DecimalLenNullable,
    DecimalLen,
    BooleanNullable,
    Boolean,
    TimestampWithTimeZoneNullable,
    TimestampWithTimeZone,
    DateNullable,
    Date,
    DateUnique,
    DateTimeNullable,
    DateTime,
    DateTimeUnique,
    BlobNullable,
    Blob,
    BlobUnique,
    JsonNullable,
    Json,
    JsonBinaryNullable,
    JsonBinary,
    JsonBinaryUnique,
    MoneyNullable,
    Money,
    MoneyUnique,
    UnsignedNullable,
    Unsigned,
    UnsignedUnique,
    BinaryLenNullable,
    BinaryLen,
    BinaryLenUnique,
    VarBinaryNullable,
    VarBinary,
    ArrayNullable,
    Array,
    ArrayUnique,
}

/// The token that stands for each column type.
pub open spec fn token_of(t: LocoDataType) -> Seq<char> {
    match t {
        LocoDataType::UuidNullable => "uuid"@,
        LocoDataType::Uuid => "uuid!"@,
        LocoDataType::UuidUnique => "uuid^"@,
        LocoDataType::StringNullable => "string"@,
        LocoDataType::String => "string!"@,
        LocoDataType::StringUnique => "string^"@,
        LocoDataType::TextNullable => "text"@,
        LocoDataType::Text => "text!"@,
        LocoDataType::TextUnique => "text^"@,
        LocoDataType::SmallUnsignedNullable => "small_unsigned"@,
        LocoDataType::SmallUnsigned => "small_unsigned!"@,
        LocoDataType::SmallUnsignedUnique => "small_unsigned^"@,
        LocoDataType::BigUnsignedNullable => "big_unsigned"@,
        LocoDataType::BigUnsigned => "big_unsigned!"@,
        LocoDataType::BigUnsignedUnique => "big_unsigned^"@,
        LocoDataType::SmallIntNullable => "small_int"@,
        LocoDataType::SmallInt => "small_int!"@,
        LocoDataType::SmallIntUnique => "small_int^"@,
        LocoDataType::IntNullable => "int"@,
        LocoDataType::Int => "int!"@,
        LocoDataType::IntUnique => "int^"@,
        LocoDataType::BigIntNullable => "big_int"@,
        LocoDataType::BigInt => "big_int!"@,
        LocoDataType::BigIntUnique => "big_int^"@,
        LocoDataType::FloatNullable => "float"@,
        LocoDataType::Float => "float!"@,
        LocoDataType::FloatUnique => "float^"@,
        LocoDataType::DoubleNullable => "double"@,
        LocoDataType::Double => "double!"@,
        LocoDataType::DoubleUnique => "double^"@,
        LocoDataType::DecimalNullable => "decimal"@,
        LocoDataType::Decimal => "decimal!"@,
        LocoDataType::DecimalUnique => "decimal^"@,
        LocoDataType::DecimalLenNullable => "decimal_len"@,
        LocoDataType::DecimalLen => "decimal_len!"@,
        LocoDataType::BooleanNullable => "bool"@,
        LocoDataType::Boolean => "bool!"@,
        LocoDataType::TimestampWithTimeZoneNullable => "tstz"@,
        LocoDataType::TimestampWithTimeZone => "tstz!"@,
        LocoDataType::DateNullable => "date"@,
        LocoDataType::Date => "date!"@,
        LocoDataType::DateUnique => "date^"@,
        LocoDataType::DateTimeNullable => "date_time"@,
        LocoDataType::DateTime => "date_time!"@,
        LocoDataType::DateTimeUnique => "date_time^"@,
        LocoDataType::BlobNullable => "blob"@,
        LocoDataType::Blob => "blob!"@,
        LocoDataType::BlobUnique => "blob^"@,
        LocoDataType::JsonNullable => "json"@,
        LocoDataType::Json => "json!"@,
        LocoDataType::JsonBinaryNullable => "jsonb"@,
        LocoDataType::JsonBinary => "jsonb!"@,
        LocoDataType::JsonBinaryUnique => "jsonb^"@,
        LocoDataType::MoneyNullable => "money"@,
        LocoDataType::Money => "money!"@,
        LocoDataType::MoneyUnique => "money^"@,
        LocoDataType::UnsignedNullable => "unsigned"@,
        LocoDataType::Unsigned => "unsigned!"@,
        LocoDataType::UnsignedUnique => "unsigned^"@,
        LocoDataType::BinaryLenNullable => "binary_len"@,
        LocoDataType::BinaryLen => "binary_len!"@,
        LocoDataType::BinaryLenUnique => "binary_len^"@,
        LocoDataType::VarBinaryNullable => "var_binary"@,
        LocoDataType::VarBinary => "var_binary!"@,
        LocoDataType::ArrayNullable => "array"@,
        LocoDataType::Array => "array!"@,
        LocoDataType::ArrayUnique => "array^"@,
    }
}

/// The column type that a token names, compared without regard to ASCII case;
/// the nullable string type for anything else.
pub open spec fn from_token(s: Seq<char>) -> LocoDataType {
    let low = ascii_lower(s);
    if low == "uuid"@ {
        LocoDataType::UuidNullable
    } else if low == "uuid!"@ {
        LocoDataType::Uuid
    } else if low == "uuid^"@ {
        LocoDataType::UuidUnique
    } else if low == "string"@ {
        LocoDataType::StringNullable
    } else if low == "string!"@ {
        LocoDataType::String
    } else if low == "string^"@ {
        LocoDataType::StringUnique
    } else if low == "text"@ {
        LocoDataType::TextNullable
    } else if low == "text!"@ {
        LocoDataType::Text
    } else if low == "text^"@ {
        LocoDataType::TextUnique
    } else if low == "small_unsigned"@ {
        LocoDataType::SmallUnsignedNullable
    } else if low == "small_unsigned!"@ {
        LocoDataType::SmallUnsigned
    } else if low == "small_unsigned^"@ {
        LocoDataType::SmallUnsignedUnique
    } else if low == "big_unsigned"@ {
        LocoDataType::BigUnsignedNullable
    } else if low == "big_unsigned!"@ {
        LocoDataType::BigUnsigned
    } else if low == "big_unsigned^"@ {
        LocoDataType::BigUnsignedUnique
    } else if low == "small_int"@ {
        LocoDataType::SmallIntNullable
    } else if low == "small_int!"@ {
        LocoDataType::SmallInt
    } else if low == "small_int^"@ {
        LocoDataType::SmallIntUnique
    } else if low == "int"@ {
        LocoDataType::IntNullable
    } else if low == "int!"@ {
        LocoDataType::Int
    } else if low == "int^"@ {
        LocoDataType::IntUnique
    } else if low == "big_int"@ {
        LocoDataType::BigIntNullable
    } else if low == "big_int!"@ {
        LocoDataType::BigInt
    } else if low == "big_int^"@ {
        LocoDataType::BigIntUnique
    } else if low == "float"@ {
        LocoDataType::FloatNullable
    } else if low == "float!"@ {
        LocoDataType::Float
    } else if low == "float^"@ {
        LocoDataType::FloatUnique
    } else if low == "double"@ {
        LocoDataType::DoubleNullable
    } else if low == "double!"@ {
        LocoDataType::Double
    } else if low == "double^"@ {
        LocoDataType::DoubleUnique
    } else if low == "decimal"@ {
        LocoDataType::DecimalNullable
    } else if low == "decimal!"@ {
        LocoDataType::Decimal
    } else if low == "decimal^"@ {
        LocoDataType::DecimalUnique
    } else if low == "decimal_len"@ {
        LocoDataType::DecimalLenNullable
    } else if low == "decimal_len!"@ {
        LocoDataType::DecimalLen
    } else if low == "bool"@ {
        LocoDataType::BooleanNullable
    } else if low == "bool!"@ {
        LocoDataType::Boolean
    } else if low == "tstz"@ {
        LocoDataType::TimestampWithTimeZoneNullable
    } else if low == "tstz!"@ {
        LocoDataType::TimestampWithTimeZone
    } else if low == "date"@ {
        LocoDataType::DateNullable
    } else if low == "date!"@ {
        LocoDataType::Date
    } else if low == "date^"@ {
        LocoDataType::DateUnique
    } else if low == "date_time"@ {
        LocoDataType::DateTimeNullable
    } else if low == "date_time!"@ {
        LocoDataType::DateTime
    } else if low == "date_time^"@ {
        LocoDataType::DateTimeUnique
    } else if low == "blob"@ {
        LocoDataType::BlobNullable
    } else if low == "blob!"@ {
        LocoDataType::Blob
    } else if low == "blob^"@ {
        LocoDataType::BlobUnique
    } else if low == "json"@ {
        LocoDataType::JsonNullable
    } else if low == "json!"@ {
        LocoDataType::Json
    } else if low == "jsonb"@ {
        LocoDataType::JsonBinaryNullable
    } else if low == "jsonb!"@ {
        LocoDataType::JsonBinary
    } else if low == "jsonb^"@ {
        LocoDataType::JsonBinaryUnique
    } else if low == "money"@ {
        LocoDataType::MoneyNullable
    } else if low == "money!"@ {
        LocoDataType::Money
    } else if low == "money^"@ {
        LocoDataType::MoneyUnique
    } else if low == "unsigned"@ {
        LocoDataType::UnsignedNullable
    } else if low == "unsigned!"@ {
        LocoDataType::Unsigned
    } else if low == "unsigned^"@ {
        LocoDataType::UnsignedUnique
    } else if low == "binary_len"@ {
        LocoDataType::BinaryLenNullable
    } else if low == "binary_len!"@ {
        LocoDataType::BinaryLen
    } else if low == "binary_len^"@ {
        LocoDataType::BinaryLenUnique
    } else if low == "var_binary"@ {
        LocoDataType::VarBinaryNullable
    } else if low == "var_binary!"@ {
        LocoDataType::VarBinary
    } else if low == "array"@ {
        LocoDataType::ArrayNullable
    } else if low == "array!"@ {
        LocoDataType::Array
    } else if low == "array^"@ {
        LocoDataType::ArrayUnique
    } else {
        LocoDataType::StringNullable
    }
}

impl LocoDataType {
    /// Reads a type token of a diagram or a column, without regard to case.
    /// A token that names no type stands for the nullable string type.
    pub fn from_mermaid_type(mermaid_type: &str) -> (r: LocoDataType)
        ensures
            r == from_token(mermaid_type@),
    {
        let low = lower_ascii(&chars_of(mermaid_type));
        if same_chars(&low, "uuid") {
            LocoDataType::UuidNullable
        } else if same_chars(&low, "uuid!") {
            LocoDataType::Uuid
        } else if same_chars(&low, "uuid^") {
            LocoDataType::UuidUnique
        } else if same_chars(&low, "string") {
            LocoDataType::StringNullable
        } else if same_chars(&low, "string!") {
            LocoDataType::String
        } else if same_chars(&low, "string^") {
            LocoDataType::StringUnique
        } else if same_chars(&low, "text") {
            LocoDataType::TextNullable
        } else if same_chars(&low, "text!") {
            LocoDataType::Text
        } else if same_chars(&low, "text^") {
            LocoDataType::TextUnique
        } else if same_chars(&low, "small_unsigned") {
            LocoDataType::SmallUnsignedNullable
        } else if same_chars(&low, "small_unsigned!") {
            LocoDataType::SmallUnsigned
        } else if same_chars(&low, "small_unsigned^") {
            LocoDataType::SmallUnsignedUnique
        } else if same_chars(&low, "big_unsigned") {
            LocoDataType::BigUnsignedNullable
        } else if same_chars(&low, "big_unsigned!") {
            LocoDataType::BigUnsigned
        } else if same_chars(&low, "big_unsigned^") {
            LocoDataType::BigUnsignedUnique
        } else if same_chars(&low, "small_int") {
            LocoDataType::SmallIntNullable
        } else if same_chars(&low, "small_int!") {
            LocoDataType::SmallInt
        } else if same_chars(&low, "small_int^") {
            LocoDataType::SmallIntUnique
        } else if same_chars(&low, "int") {
            LocoDataType::IntNullable
        } else if same_chars(&low, "int!") {
            LocoDataType::Int
        } else if same_chars(&low, "int^") {
            LocoDataType::IntUnique
        } else if same_chars(&low, "big_int") {
            LocoDataType::BigIntNullable
        } else if same_chars(&low, "big_int!") {
            LocoDataType::BigInt
        } else if same_chars(&low, "big_int^") {
            LocoDataType::BigIntUnique
        } else if same_chars(&low, "float") {
            LocoDataType::FloatNullable
        } else if same_chars(&low, "float!") {
            LocoDataType::Float
        } else if same_chars(&low, "float^") {
            LocoDataType::FloatUnique
        } else if same_chars(&low, "double") {
            LocoDataType::DoubleNullable
        } else if same_chars(&low, "double!") {
            LocoDataType::Double
        } else if same_chars(&low, "double^") {
            LocoDataType::DoubleUnique
        } else if same_chars(&low, "decimal") {
            LocoDataType::DecimalNullable
        } else if same_chars(&low, "decimal!") {
            LocoDataType::Decimal
        } else if same_chars(&low, "decimal^") {
            LocoDataType::DecimalUnique
        } else if same_chars(&low, "decimal_len") {
            LocoDataType::DecimalLenNullable
        } else if same_chars(&low, "decimal_len!") {
            LocoDataType::DecimalLen
        } else if same_chars(&low, "bool") {
            LocoDataType::BooleanNullable
        } else if same_chars(&low, "bool!") {
            LocoDataType::Boolean
        } else if same_chars(&low, "tstz") {
            LocoDataType::TimestampWithTimeZoneNullable
        } else if same_chars(&low, "tstz!") {
            LocoDataType::TimestampWithTimeZone
        } else if same_chars(&low, "date") {
            LocoDataType::DateNullable
        } else if same_chars(&low, "date!") {
            LocoDataType::Date
        } else if same_chars(&low, "date^") {
            LocoDataType::DateUnique
        } else if same_chars(&low, "date_time") {
            LocoDataType::DateTimeNullable
        } else if same_chars(&low, "date_time!") {
            LocoDataType::DateTime
        } else if same_chars(&low, "date_time^") {
            LocoDataType::DateTimeUnique
        } else if same_chars(&low, "blob") {
            LocoDataType::BlobNullable
        } else if same_chars(&low, "blob!") {
            LocoDataType::Blob
        } else if same_chars(&low, "blob^") {
            LocoDataType::BlobUnique
        } else if same_chars(&low, "json") {
            LocoDataType::JsonNullable
        } else if same_chars(&low, "json!") {
            LocoDataType::Json
        } else if same_chars(&low, "jsonb") {
            LocoDataType::JsonBinaryNullable
        } else if same_chars(&low, "jsonb!") {
            LocoDataType::JsonBinary
        } else if same_chars(&low, "jsonb^") {
            LocoDataType::JsonBinaryUnique
        } else if same_chars(&low, "money") {
            LocoDataType::MoneyNullable
        } else if same_chars(&low, "money!") {
            LocoDataType::Money
        } else if same_chars(&low, "money^") {
            LocoDataType::MoneyUnique
        } else if same_chars(&low, "unsigned") {
            LocoDataType::UnsignedNullable
        } else if same_chars(&low, "unsigned!") {
            LocoDataType::Unsigned
        } else if same_chars(&low, "unsigned^") {
            LocoDataType::UnsignedUnique
        } else if same_chars(&low, "binary_len") {
            LocoDataType::BinaryLenNullable
        } else if same_chars(&low, "binary_len!") {
            LocoDataType::BinaryLen
        } else if same_chars(&low, "binary_len^") {
            LocoDataType::BinaryLenUnique
        } else if same_chars(&low, "var_binary") {
            LocoDataType::VarBinaryNullable
        } else if same_chars(&low, "var_binary!") {
            LocoDataType::VarBinary
        } else if same_chars(&low, "array") {
            LocoDataType::ArrayNullable
        } else if same_chars(&low, "array!") {
            LocoDataType::Array
        } else if same_chars(&low, "array^") {
            LocoDataType::ArrayUnique
        } else {
            LocoDataType::StringNullable
        }
    }

    /// The token of this type, as the code generator writes it.
    pub fn to_loco_type(&self) -> (r: &'static str)
        ensures
            r@ == token_of(*self),
    {
        match self {
            LocoDataType::UuidNullable => "uuid",
            LocoDataType::Uuid => "uuid!",
            LocoDataType::UuidUnique => "uuid^",
            LocoDataType::StringNullable => "string",
            LocoDataType::String => "string!",
            LocoDataType::StringUnique => "string^",
            LocoDataType::TextNullable => "text",
            LocoDataType::Text => "text!",
            LocoDataType::TextUnique => "text^",
            LocoDataType::SmallUnsignedNullable => "small_unsigned",
            LocoDataType::SmallUnsigned => "small_unsigned!",
            LocoDataType::SmallUnsignedUnique => "small_unsigned^",
            LocoDataType::BigUnsignedNullable => "big_unsigned",
            LocoDataType::BigUnsigned => "big_unsigned!",
            LocoDataType::BigUnsignedUnique => "big_unsigned^",
            LocoDataType::SmallIntNullable => "small_int",
            LocoDataType::SmallInt => "small_int!",
            LocoDataType::SmallIntUnique => "small_int^",
            LocoDataType::IntNullable => "int",
            LocoDataType::Int => "int!",
            LocoDataType::IntUnique => "int^",
            LocoDataType::BigIntNullable => "big_int",
            LocoDataType::BigInt => "big_int!",
            LocoDataType::BigIntUnique => "big_int^",
            LocoDataType::FloatNullable => "float",
            LocoDataType::Float => "float!",
            LocoDataType::FloatUnique => "float^",
            LocoDataType::DoubleNullable => "double",
            LocoDataType::Double => "double!",
            LocoDataType::DoubleUnique => "double^",
            LocoDataType::DecimalNullable => "decimal",
            LocoDataType::Decimal => "decimal!",
            LocoDataType::DecimalUnique => "decimal^",
            LocoDataType::DecimalLenNullable => "decimal_len",
            LocoDataType::DecimalLen => "decimal_len!",
            LocoDataType::BooleanNullable => "bool",
            LocoDataType::Boolean => "bool!",
            LocoDataType::TimestampWithTimeZoneNullable => "tstz",
            LocoDataType::TimestampWithTimeZone => "tstz!",
            LocoDataType::DateNullable => "date",
            LocoDataType::Date => "date!",
            LocoDataType::DateUnique => "date^",
            LocoDataType::DateTimeNullable => "date_time",
            LocoDataType::DateTime => "date_time!",
            LocoDataType::DateTimeUnique => "date_time^",
            LocoDataType::BlobNullable => "blob",
            LocoDataType::Blob => "blob!",
            LocoDataType::BlobUnique => "blob^",
            LocoDataType::JsonNullable => "json",
            LocoDataType::Json => "json!",
            LocoDataType::JsonBinaryNullable => "jsonb",
            LocoDataType::JsonBinary => "jsonb!",
            LocoDataType::JsonBinaryUnique => "jsonb^",
            LocoDataType::MoneyNullable => "money",
            LocoDataType::Money => "money!",
            LocoDataType::MoneyUnique => "money^",
            LocoDataType::UnsignedNullable => "unsigned",
            LocoDataType::Unsigned => "unsigned!",
            LocoDataType::UnsignedUnique => "unsigned^",
            LocoDataType::BinaryLenNullable => "binary_len",
            LocoDataType::BinaryLen => "binary_len!",
            LocoDataType::BinaryLenUnique => "binary_len^",
            LocoDataType::VarBinaryNullable => "var_binary",
            LocoDataType::VarBinary => "var_binary!",
            LocoDataType::ArrayNullable => "array",
            LocoDataType::Array => "array!",
            LocoDataType::ArrayUnique => "array^",
        }
    }
}

/// Every token is written in small letters.
proof fn lemma_token_is_lower(t: LocoDataType)
    ensures
        ascii_lower(token_of(t)) == token_of(t),
{
    match t {
        LocoDataType::UuidNullable => {
            reveal_strlit("uuid");
            assert(ascii_lower(token_of(t)) =~= token_of(t));
        },
        LocoDataType::Uuid => {
            reveal_strlit("uuid!");
            assert(ascii_lower(token_of(t)) =~= token_of(t));
        },
        LocoDataType::UuidUnique => {
            reveal_strlit("uuid^");
            assert(ascii_lower(token_of(t)) =~= token_of(t));
        },
        LocoDataType::StringNullable => {
            reveal_strlit("string");
            assert(ascii_lower(token_of(t)) =~= token_of(t));
        },
        LocoDataType::String => {
            reveal_strlit("string!");
            assert(ascii_lower(token_of(t)) =~= token_of(t));
        },
        LocoDataType::StringUnique => {
            reveal_strlit("string^");
            assert(ascii_lower(token_of(t)) =~= token_of(t));
        },
        LocoDataType::TextNullable => {
            reveal_strlit("text");
            assert(ascii_lower(token_of(t)) =~= token_of(t));
        },
        LocoDataType::Text => {
            reveal_strlit("text!");
            assert(ascii_lower(token_of(t)) =~= token_of(t));
        },
        LocoDataType::TextUnique => {
            reveal_strlit("text^");
            assert(ascii_lower(token_of(t)) =~= token_of(t));
        },
        LocoDataType::SmallUnsignedNullable => {
            reveal_strlit("small_unsigned");
            assert(ascii_lower(token_of(t)) =~= token_of(t));
        },
        LocoDataType::SmallUnsigned => {
            reveal_strlit("small_unsigned!");
            assert(ascii_lower(token_of(t)) =~= token_of(t));
        },
        LocoDataType::SmallUnsignedUnique => {
            reveal_strlit("small_unsigned^");
            assert(ascii_lower(token_of(t)) =~= token_of(t));
        },
        LocoDataType::BigUnsignedNullable => {
            reveal_strlit("big_unsigned");
            assert(ascii_lower(token_of(t)) =~= token_of(t));
        },
        LocoDataType::BigUnsigned => {
            reveal_strlit("big_unsigned!");
            assert(ascii_lower(token_of(t)) =~= token_of(t));
        },
        LocoDataType::BigUnsignedUnique => {
            reveal_strlit("big_unsigned^");
            assert(ascii_lower(token_of(t)) =~= token_of(t));
        },
        LocoDataType::SmallIntNullable => {
            reveal_strlit("small_int");
            assert(ascii_lower(token_of(t)) =~= token_of(t));
        },
        LocoDataType::SmallInt => {
            reveal_strlit("small_int!");
            assert(ascii_lower(token_of(t)) =~= token_of(t));
        },
        LocoDataType::SmallIntUnique => {
            reveal_strlit("small_int^");
            assert(ascii_lower(token_of(t)) =~= token_of(t));
        },
        LocoDataType::IntNullable => {
            reveal_strlit("int");
            assert(ascii_lower(token_of(t)) =~= token_of(t));
        },
        LocoDataType::Int => {
            reveal_strlit("int!");
            assert(ascii_lower(token_of(t)) =~= token_of(t));
        },
        LocoDataType::IntUnique => {
            reveal_strlit("int^");
            assert(ascii_lower(token_of(t)) =~= token_of(t));
        },
        LocoDataType::BigIntNullable => {
            reveal_strlit("big_int");
            assert(ascii_lower(token_of(t)) =~= token_of(t));
        },
        LocoDataType::BigInt => {
            reveal_strlit("big_int!");
            assert(ascii_lower(token_of(t)) =~= token_of(t));
        },
        LocoDataType::BigIntUnique => {
            reveal_strlit("big_int^");
            assert(ascii_lower(token_of(t)) =~= token_of(t));
        },
        LocoDataType::FloatNullable => {
            reveal_strlit("float");
            assert(ascii_lower(token_of(t)) =~= token_of(t));
        },
        LocoDataType::Float => {
            reveal_strlit("float!");
            assert(ascii_lower(token_of(t)) =~= token_of(t));
        },
        LocoDataType::FloatUnique => {
            reveal_strlit("float^");
            assert(ascii_lower(token_of(t)) =~= token_of(t));
        },
        LocoDataType::DoubleNullable => {
            reveal_strlit("double");
            assert(ascii_lower(token_of(t)) =~= token_of(t));
        },
        LocoDataType::Double => {
            reveal_strlit("double!");
            assert(ascii_lower(token_of(t)) =~= token_of(t));
        },
        LocoDataType::DoubleUnique => {
            reveal_strlit("double^");
            assert(ascii_lower(token_of(t)) =~= token_of(t));
        },
        LocoDataType::DecimalNullable => {
            reveal_strlit("decimal");
            assert(ascii_lower(token_of(t)) =~= token_of(t));
        },
        LocoDataType::Decimal => {
            reveal_strlit("decimal!");
            assert(ascii_lower(token_of(t)) =~= token_of(t));
        },
        LocoDataType::DecimalUnique => {
            reveal_strlit("decimal^");
            assert(ascii_lower(token_of(t)) =~= token_of(t));
        },
        LocoDataType::DecimalLenNullable => {
            reveal_strlit("decimal_len");
            assert(ascii_lower(token_of(t)) =~= token_of(t));
        },
        LocoDataType::DecimalLen => {
            reveal_strlit("decimal_len!");
            assert(ascii_lower(token_of(t)) =~= token_of(t));
        },
        LocoDataType::BooleanNullable => {
            reveal_strlit("bool");
            assert(ascii_lower(token_of(t)) =~= token_of(t));
        },
        LocoDataType::Boolean => {
            reveal_strlit("bool!");
            assert(ascii_lower(token_of(t)) =~= token_of(t));
        },
        LocoDataType::TimestampWithTimeZoneNullable => {
            reveal_strlit("tstz");
            assert(ascii_lower(token_of(t)) =~= token_of(t));
        },
        LocoDataType::TimestampWithTimeZone => {
            reveal_strlit("tstz!");
            assert(ascii_lower(token_of(t)) =~= token_of(t));
        },
        LocoDataType::DateNullable => {
            reveal_strlit("date");
            assert(ascii_lower(token_of(t)) =~= token_of(t));
        },
        LocoDataType::Date => {
            reveal_strlit("date!");
            assert(ascii_lower(token_of(t)) =~= token_of(t));
        },
        LocoDataType::DateUnique => {
            reveal_strlit("date^");
            assert(ascii_lower(token_of(t)) =~= token_of(t));
        },
        LocoDataType::DateTimeNullable => {
            reveal_strlit("date_time");
            assert(ascii_lower(token_of(t)) =~= token_of(t));
        },
        LocoDataType::DateTime => {
            reveal_strlit("date_time!");
            assert(ascii_lower(token_of(t)) =~= token_of(t));
        },
        LocoDataType::DateTimeUnique => {
            reveal_strlit("date_time^");
            assert(ascii_lower(token_of(t)) =~= token_of(t));
        },
        LocoDataType::BlobNullable => {
            reveal_strlit("blob");
            assert(ascii_lower(token_of(t)) =~= token_of(t));
        },
        LocoDataType::Blob => {
            reveal_strlit("blob!");
            assert(ascii_lower(token_of(t)) =~= token_of(t));
        },
        LocoDataType::BlobUnique => {
            reveal_strlit("blob^");
            assert(ascii_lower(token_of(t)) =~= token_of(t));
        },
        LocoDataType::JsonNullable => {
            reveal_strlit("json");
            assert(ascii_lower(token_of(t)) =~= token_of(t));
        },
        LocoDataType::Json => {
            reveal_strlit("json!");
            assert(ascii_lower(token_of(t)) =~= token_of(t));
        },
        LocoDataType::JsonBinaryNullable => {
            reveal_strlit("jsonb");
            assert(ascii_lower(token_of(t)) =~= token_of(t));
        },
        LocoDataType::JsonBinary => {
            reveal_strlit("jsonb!");
            assert(ascii_lower(token_of(t)) =~= token_of(t));
        },
        LocoDataType::JsonBinaryUnique => {
            reveal_strlit("jsonb^");
            assert(ascii_lower(token_of(t)) =~= token_of(t));
        },
        LocoDataType::MoneyNullable => {
            reveal_strlit("money");
            assert(ascii_lower(token_of(t)) =~= token_of(t));
        },
        LocoDataType::Money => {
            reveal_strlit("money!");
            assert(ascii_lower(token_of(t)) =~= token_of(t));
        },
        LocoDataType::MoneyUnique => {
            reveal_strlit("money^");
            assert(ascii_lower(token_of(t)) =~= token_of(t));
        },
        LocoDataType::UnsignedNullable => {
            reveal_strlit("unsigned");
            assert(ascii_lower(token_of(t)) =~= token_of(t));
        },
        LocoDataType::Unsigned => {
            reveal_strlit("unsigned!");
            assert(ascii_lower(token_of(t)) =~= token_of(t));
        },
        LocoDataType::UnsignedUnique => {
            reveal_strlit("unsigned^");
            assert(ascii_lower(token_of(t)) =~= token_of(t));
        },
        LocoDataType::BinaryLenNullable => {
            reveal_strlit("binary_len");
            assert(ascii_lower(token_of(t)) =~= token_of(t));
        },
        LocoDataType::BinaryLen => {
            reveal_strlit("binary_len!");
            assert(ascii_lower(token_of(t)) =~= token_of(t));
        },
        LocoDataType::BinaryLenUnique => {
            reveal_strlit("binary_len^");
            assert(ascii_lower(token_of(t)) =~= token_of(t));
        },
        LocoDataType::VarBinaryNullable => {
            reveal_strlit("var_binary");
            assert(ascii_lower(token_of(t)) =~= token_of(t));
        },
        LocoDataType::VarBinary => {
            reveal_strlit("var_binary!");
            assert(ascii_lower(token_of(t)) =~= token_of(t));
        },
        LocoDataType::ArrayNullable => {
            reveal_strlit("array");
            assert(ascii_lower(token_of(t)) =~= token_of(t));
        },
        LocoDataType::Array => {
            reveal_strlit("array!");
            assert(ascii_lower(token_of(t)) =~= token_of(t));
        },
        LocoDataType::ArrayUnique => {
            reveal_strlit("array^");
            assert(ascii_lower(token_of(t)) =~= token_of(t));
        },
    }
}

/// Reading a type's token back and writing it again gives the same token.
pub proof fn lemma_token_round_trip(t: LocoDataType)
    ensures
        token_of(from_token(token_of(t))) == token_of(t),
{
    lemma_token_is_lower(t);
}

/// Reading any valid token, in any ASCII case, gives the type whose token is that
/// token in small letters.
pub proof fn lemma_valid_token_normalizes(s: Seq<char>, t: LocoDataType)
    requires
        token_of(t) == ascii_lower(s),
    ensures
        token_of(from_token(s)) == ascii_lower(s),
{
}

} // verus!
