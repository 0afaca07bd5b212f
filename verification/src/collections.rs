//! Composite views over anchored foreign values: typed accessors for
//! table- and array-shaped values, and the key protocol they share.

mod array;
mod index;
mod table;

pub use array::Array;
pub use array::ArrayIterator;
pub use index::LuaIndex;
pub use table::Table;
pub use table::TableIterator;
