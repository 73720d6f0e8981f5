use vstd::prelude::*;

verus! {

/// An embedding: an ordered sequence of 32-bit floating-point components.
///
/// Each component is held as its IEEE-754 bit pattern, so that a vector is
/// stored, compared and read back exactly. The length is fixed when the
/// vector is built and never changes.
#[derive(Debug, Clone)]
pub struct Vector {
    data: Vec<u32>,
}

impl View for Vector {
    type V = Seq<u32>;

    closed spec fn view(&self) -> Seq<u32> {
        self.data@
    }
}

impl Vector {
    /// Builds a vector that copies the given component bit patterns.
    pub fn from_slice(data: &[u32]) -> (r: Vector)
        ensures
            r@ == data@,
    {
        let mut copy: Vec<u32> = Vec::new();
        let mut i: usize = 0;
        while i < data.len()
            invariant
                i <= data@.len(),
                copy@ == data@.subrange(0, i as int),
            decreases data@.len() - i,
        {
            copy.push(data[i]);
            i = i + 1;
        }
        assert(copy@ =~= data@);
        Vector { data: copy }
    }

    /// Builds a vector that takes ownership of the given bit patterns.
    pub fn from_vec(data: Vec<u32>) -> (r: Vector)
        ensures
            r@ == data@,
    {
        Vector { data }
    }

    /// The number of components.
    pub fn dim(&self) -> (r: usize)
        ensures
            r == self@.len(),
    {
        self.data.len()
    }

    /// Read-only access to the component bit patterns.
    pub fn as_slice(&self) -> (r: &[u32])
        ensures
            r@ == self@,
    {
        self.data.as_slice()
    }
}

} // verus!
