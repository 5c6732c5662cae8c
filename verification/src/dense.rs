//! A dense, row-major array: the values an appended entry, a whole dataset
//! read back, or a fixed-size array to store are made of.

use vstd::prelude::*;

use crate::shape::{shape_product, shape_size};

verus! {

/// An array of `T` with a shape, its elements stored in row-major order
/// (the last axis varies fastest).  The number of elements always matches
/// the shape.
pub struct DenseArray<T> {
    shape: Vec<usize>,
    data: Vec<T>,
}

impl<T> DenseArray<T> {
    #[verifier::type_invariant]
    spec fn well_formed(&self) -> bool {
        self.data@.len() == shape_product(self.shape@)
    }

    /// The lengths of the array's axes.
    pub closed spec fn shape_of(&self) -> Seq<usize> {
        self.shape@
    }

    /// The array's elements in row-major order.
    pub closed spec fn elems(&self) -> Seq<T> {
        self.data@
    }

    /// Builds an array of the given shape from its elements in row-major
    /// order; `None` when the number of elements does not match the shape.
    pub fn from_shape_vec(shape: Vec<usize>, data: Vec<T>) -> (r: Option<Self>)
        ensures
            r is Some <==> data@.len() == shape_product(shape@),
            r matches Some(a) ==> a.shape_of() == shape@ && a.elems() == data@,
    {
        let len = data.len();
        match shape_size(&shape) {
            Some(n) => {
                if n == len {
                    Some(DenseArray { shape, data })
                } else {
                    None
                }
            },
            None => None,
        }
    }

    /// A zero-dimensional array holding the single value `value`.
    pub fn scalar(value: T) -> (r: Self)
        ensures
            r.shape_of() == Seq::<usize>::empty(),
            r.elems() == seq![value],
    {
        let mut data: Vec<T> = Vec::new();
        data.push(value);
        let shape: Vec<usize> = Vec::new();
        proof {
            assert(shape_product(shape@) == 1);
        }
        DenseArray { shape, data }
    }

    /// The lengths of the array's axes.
    pub fn shape(&self) -> (r: &Vec<usize>)
        ensures
            r@ == self.shape_of(),
            self.elems().len() == shape_product(self.shape_of()),
    {
        proof {
            use_type_invariant(self);
        }
        &self.shape
    }

    /// The array's elements in row-major order.
    pub fn elements(&self) -> (r: &Vec<T>)
        ensures
            r@ == self.elems(),
            self.elems().len() == shape_product(self.shape_of()),
    {
        proof {
            use_type_invariant(self);
        }
        &self.data
    }

    /// The number of elements of the array.
    pub fn len(&self) -> (r: usize)
        ensures
            r == self.elems().len(),
            r == shape_product(self.shape_of()),
    {
        proof {
            use_type_invariant(self);
        }
        self.data.len()
    }

    /// Splits the array into its shape and its row-major elements.
    pub fn into_parts(self) -> (r: (Vec<usize>, Vec<T>))
        ensures
            r.0@ == self.shape_of(),
            r.1@ == self.elems(),
            r.1@.len() == shape_product(r.0@),
    {
        proof {
            use_type_invariant(&self);
        }
        (self.shape, self.data)
    }
}

} // verus!
