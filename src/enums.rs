use vstd::prelude::*;

verus! {

/// Whether an index is rebuilt in batch or kept up to date online.
#[derive(Clone, Copy, Debug, PartialEq, Eq, Structural)]
pub enum IndexType {
    Batch,
    Online,
    Unknown,
}

impl Default for IndexType {
    fn default() -> (r: Self)
        ensures
            r == IndexType::Unknown,
    {
        IndexType::Unknown
    }
}

impl IndexType {
    /// The type of an index whose batch flag is `batch`.
    pub fn from_flag(batch: bool) -> (r: IndexType)
        ensures
            r == (if batch { IndexType::Batch } else { IndexType::Online }),
    {
        if batch {
            IndexType::Batch
        } else {
            IndexType::Online
        }
    }

    pub fn name(&self) -> (r: &'static str)
        ensures
            *self == IndexType::Batch ==> r@ == "BATCH"@,
            *self == IndexType::Online ==> r@ == "ONLINE"@,
            *self == IndexType::Unknown ==> r@ == "UNKNOWN"@,
    {
        match self {
            IndexType::Batch => "BATCH",
            IndexType::Online => "ONLINE",
            IndexType::Unknown => "UNKNOWN",
        }
    }
}

/// An index's sort order.
#[derive(Clone, Copy, Debug, PartialEq, Eq, Structural)]
pub enum IndexCollation {
    Default,
    Ascending,
    Uppercase,
    Unknown,
}

impl Default for IndexCollation {
    fn default() -> (r: Self)
        ensures
            r == IndexCollation::Unknown,
    {
        IndexCollation::Unknown
    }
}

/// The collation that an index's collation byte stands for.
pub open spec fn collation_of(code: u8) -> IndexCollation {
    if code == 0 {
        IndexCollation::Default
    } else if code == 1 {
        IndexCollation::Ascending
    } else if code == 2 {
        IndexCollation::Uppercase
    } else {
        IndexCollation::Unknown
    }
}

impl IndexCollation {
    /// Reads a collation byte: 0 default, 1 ascending, 2 uppercase.
    pub fn from_code(code: u8) -> (r: IndexCollation)
        ensures
            r == collation_of(code),
    {
        match code {
            0 => IndexCollation::Default,
            1 => IndexCollation::Ascending,
            2 => IndexCollation::Uppercase,
            _ => IndexCollation::Unknown,
        }
    }

    pub fn name(&self) -> (r: &'static str)
        ensures
            *self == IndexCollation::Default ==> r@ == "DEFAULT"@,
            *self == IndexCollation::Ascending ==> r@ == "ASCENDING"@,
            *self == IndexCollation::Uppercase ==> r@ == "UPPERCASE"@,
            *self == IndexCollation::Unknown ==> r@ == "UNKNOWN"@,
    {
        match self {
            IndexCollation::Default => "DEFAULT",
            IndexCollation::Ascending => "ASCENDING",
            IndexCollation::Uppercase => "UPPERCASE",
            IndexCollation::Unknown => "UNKNOWN",
        }
    }
}

/// The kind of data a column holds.
#[derive(Clone, Copy, Debug, PartialEq, Eq, Structural)]
pub enum DataType {
    Int,
    Date,
    Text,
    Ascii,
    Float,
    Binary,
    Unknown,
}

impl Default for DataType {
    fn default() -> (r: Self)
        ensures
            r == DataType::Unknown,
    {
        DataType::Unknown
    }
}

/// The data type of a column's type code; numeric columns are `Int`
/// without decimal places and `Float` with them.
pub open spec fn data_type_of(code: u8, decimal_points: int) -> DataType {
    if code == 0 {
        DataType::Ascii
    } else if code == 1 {
        if decimal_points > 0 { DataType::Float } else { DataType::Int }
    } else if code == 2 {
        DataType::Date
    } else if code == 5 {
        DataType::Text
    } else {
        DataType::Binary
    }
}

impl DataType {
    pub fn from_code(code: u8, decimal_points: u64) -> (r: DataType)
        ensures
            r == data_type_of(code, decimal_points as int),
    {
        match code {
            0 => DataType::Ascii,
            1 => if decimal_points > 0 {
                DataType::Float
            } else {
                DataType::Int
            },
            2 => DataType::Date,
            5 => DataType::Text,
            _ => DataType::Binary,
        }
    }

    pub fn name(&self) -> (r: &'static str)
        ensures
            *self == DataType::Date ==> r@ == "DATE"@,
            *self == DataType::Text ==> r@ == "TEXT"@,
            *self == DataType::Ascii ==> r@ == "ASCII"@,
            *self == DataType::Int ==> r@ == "NUMERIC"@,
            *self == DataType::Binary ==> r@ == "BINARY"@,
            *self == DataType::Float ==> r@ == "NUMERIC"@,
            *self == DataType::Unknown ==> r@ == "UNKNOWN"@,
    {
        match self {
            DataType::Date => "DATE",
            DataType::Text => "TEXT",
            DataType::Ascii => "ASCII",
            DataType::Int => "NUMERIC",
            DataType::Binary => "BINARY",
            DataType::Float => "NUMERIC",
            DataType::Unknown => "UNKNOWN",
        }
    }
}

/// The compression applied to a table's records.
#[derive(Clone, Copy, Debug, PartialEq, Eq, Structural)]
pub enum CompressionType {
    Uncompressed,
    Fast,
    Standard,
    Custom,
    Unknown,
}

impl Default for CompressionType {
    fn default() -> (r: Self)
        ensures
            r == CompressionType::Unknown,
    {
        CompressionType::Unknown
    }
}

/// The compression that a header's compression byte stands for, if any.
pub open spec fn compression_of(code: u8) -> Option<CompressionType> {
    if code == 0 {
        Some(CompressionType::Uncompressed)
    } else if code == 1 {
        Some(CompressionType::Fast)
    } else if code == 2 {
        Some(CompressionType::Standard)
    } else {
        None
    }
}

impl CompressionType {
    pub fn from_code(code: u8) -> (r: Option<CompressionType>)
        ensures
            r == compression_of(code),
    {
        match code {
            0 => Some(CompressionType::Uncompressed),
            1 => Some(CompressionType::Fast),
            2 => Some(CompressionType::Standard),
            _ => None,
        }
    }

    pub fn name(&self) -> (r: &'static str)
        ensures
            *self == CompressionType::Uncompressed ==> r@ == "NONE"@,
            *self == CompressionType::Fast ==> r@ == "FAST"@,
            *self == CompressionType::Custom ==> r@ == "CUSTOM"@,
            *self == CompressionType::Unknown ==> r@ == "UNKNOWN"@,
            *self == CompressionType::Standard ==> r@ == "STANDARD"@,
    {
        match self {
            CompressionType::Uncompressed => "NONE",
            CompressionType::Fast => "FAST",
            CompressionType::Custom => "CUSTOM",
            CompressionType::Unknown => "UNKNOWN",
            CompressionType::Standard => "STANDARD",
        }
    }
}

/// The transaction discipline of a table.
#[derive(Clone, Copy, Debug, PartialEq, Eq, Structural)]
pub enum TransactionType {
    Unlogged,
    Unknown,
    ClientAtomic,
    ServerAtomic,
    ServerLogged,
}

impl Default for TransactionType {
    fn default() -> (r: Self)
        ensures
            r == TransactionType::Unknown,
    {
        TransactionType::Unknown
    }
}

impl TransactionType {
    pub fn name(&self) -> (r: &'static str)
        ensures
            *self == TransactionType::Unlogged ==> r@ == "NONE"@,
            *self == TransactionType::Unknown ==> r@ == "UNKNOWN"@,
            *self == TransactionType::ClientAtomic ==> r@ == "CLIENT ATOMIC"@,
            *self == TransactionType::ServerAtomic ==> r@ == "SERVER ATOMIC"@,
            *self == TransactionType::ServerLogged ==> r@ == "SERVER LOGGED"@,
    {
        match self {
            TransactionType::Unlogged => "NONE",
            TransactionType::Unknown => "UNKNOWN",
            TransactionType::ClientAtomic => "CLIENT ATOMIC",
            TransactionType::ServerAtomic => "SERVER ATOMIC",
            TransactionType::ServerLogged => "SERVER LOGGED",
        }
    }
}

/// The file locking in use on a table.
#[derive(Clone, Copy, Debug, PartialEq, Eq, Structural)]
pub enum LockType {
    Unlocked,
    File,
    Record,
    Unknown,
}

impl Default for LockType {
    fn default() -> (r: Self)
        ensures
            r == LockType::Unknown,
    {
        LockType::Unknown
    }
}

impl LockType {
    pub fn name(&self) -> (r: &'static str)
        ensures
            *self == LockType::Unlocked ==> r@ == "NONE"@,
            *self == LockType::File ==> r@ == "FILE"@,
            *self == LockType::Record ==> r@ == "RECORD"@,
            *self == LockType::Unknown ==> r@ == "UNKNOWN"@,
    {
        match self {
            LockType::Unlocked => "NONE",
            LockType::File => "FILE",
            LockType::Record => "RECORD",
            LockType::Unknown => "UNKNOWN",
        }
    }
}

/// The layout generation of a table header: 2.3b (512 bytes) or 3.0
/// (3072 bytes).
#[derive(Clone, Copy, Debug, PartialEq, Eq, Structural)]
pub enum Version {
    Unknown,
    V23B,
    V30,
}

impl Default for Version {
    fn default() -> (r: Self)
        ensures
            r == Version::Unknown,
    {
        Version::Unknown
    }
}

impl Version {
    /// The version with the given number: 2 or 23 for 2.3b, 3 or 30 for 3.0.
    pub fn from_number(value: i64) -> (r: Version)
        ensures
            r == (if value == 2 || value == 23 {
                Version::V23B
            } else if value == 3 || value == 30 {
                Version::V30
            } else {
                Version::Unknown
            }),
    {
        match value {
            2 | 23 => Version::V23B,
            3 | 30 => Version::V30,
            _ => Version::Unknown,
        }
    }

    pub fn name(&self) -> (r: &'static str)
        ensures
            *self == Version::Unknown ==> r@ == "UNKNOWN"@,
            *self == Version::V23B ==> r@ == "2.3b"@,
            *self == Version::V30 ==> r@ == "3.0"@,
    {
        match self {
            Version::Unknown => "UNKNOWN",
            Version::V23B => "2.3b",
            Version::V30 => "3.0",
        }
    }
}

} // verus!
