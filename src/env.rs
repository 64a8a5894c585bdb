use vstd::prelude::*;

verus! {

/// A block of data together with a view `b` that reads it back.
pub struct A {
    pub data: [u8; 10],
    pub b: B,
}

/// A view that reads data through the environment it was given.
pub struct B {
    pub env: Option<Box<A>>,
}

impl A {
    /// Holds `data`, with a view whose environment holds the same data.
    pub fn new(data: [u8; 10]) -> (r: A)
        ensures
            r.data == data,
            r.b.env is Some,
            r.b.env.unwrap().data == data,
    {
        let inner = A { data, b: B { env: None } };
        A { data, b: B { env: Some(Box::new(inner)) } }
    }

    /// Byte `idx` of the data.
    pub fn get_data(&self, idx: usize) -> (r: u8)
        requires
            idx < 10,
        ensures
            r == self.data@[idx as int],
    {
        self.data[idx]
    }
}

impl B {
    /// Byte `idx` of the environment's data.
    pub fn get_data(&self, idx: usize) -> (r: u8)
        requires
            self.env is Some,
            idx < 10,
        ensures
            r == self.env.unwrap().data@[idx as int],
    {
        match &self.env {
            Some(a) => a.get_data(idx),
            None => 0,
        }
    }
}

} // verus!
