use vstd::prelude::*;

verus! {

/// Something that serialises to bytes.
pub trait BinWriter {
    /// Whether the value is complete enough to be serialised.
    spec fn can_write(&self) -> bool;

    fn write(&self) -> std::io::Result<Vec<u8>>
        requires
            self.can_write(),
    ;
}

/// Something that reads a `T` from bytes.
pub trait BinReader<T> {
    fn read(data: &[u8]) -> std::io::Result<T>;
}

} // verus!
