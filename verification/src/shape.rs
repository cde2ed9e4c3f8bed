//! The geometry of the PIR database.

use vstd::prelude::*;

use crate::record::RECORD_BYTES;

verus! {

/// How responses are collapsed.
#[derive(Clone, Copy, Debug, PartialEq, Eq, Structural)]
pub enum Collapse {
    /// The recursive construction, with its three packing widths.
    Recursion { gamma0: usize, gamma1: usize, gamma2: usize },
}

/// The parameters of the PIR construction.
#[derive(Clone, Copy, Debug, PartialEq, Eq, Structural)]
pub struct Config {
    pub collapse: Collapse,
}

/// The shape of the database: a matrix of 16-bit digits.
#[derive(Clone, Copy, Debug, PartialEq, Eq, Structural)]
pub struct DatabaseLayout {
    pub rows: usize,
    pub cols: usize,
}

/// Bytes of one digit.
pub const DIGIT_BYTES: usize = 2;

/// The addresses that the fixed deployment shape has room for.
pub const DEFAULT_CAPACITY: usize = 33_554_432;

impl DatabaseLayout {
    pub fn new(rows: usize, cols: usize) -> (layout: DatabaseLayout)
        ensures
            layout == (DatabaseLayout { rows, cols }),
    {
        DatabaseLayout { rows, cols }
    }
}

/// The construction of the fixed deployment shape.
pub open spec fn default_config() -> Config {
    Config { collapse: Collapse::Recursion { gamma0: 32, gamma1: 1024, gamma2: 32 } }
}

/// The database of the fixed deployment shape.
pub open spec fn default_layout() -> DatabaseLayout {
    DatabaseLayout { rows: 16384, cols: 65536 }
}

/// The fixed deployment shape: the 2 GiB `InsPIRe2-g32-2GiB-c65536` geometry
/// carrying 64 B records, for a capacity of 33,554,432 addresses: the records fill
/// the matrix.
pub fn default_shape() -> (shape: (Config, DatabaseLayout))
    ensures
        shape == (default_config(), default_layout()),
        shape.1.rows * shape.1.cols * DIGIT_BYTES == DEFAULT_CAPACITY * RECORD_BYTES,
{
    let collapse = Collapse::Recursion { gamma0: 32, gamma1: 1024, gamma2: 32 };
    (Config { collapse }, DatabaseLayout::new(16384, 65536))
}

} // verus!
