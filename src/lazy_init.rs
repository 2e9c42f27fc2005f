use vstd::prelude::*;

verus! {

/// A cell that starts empty and is filled exactly once.
pub struct LazyInit<T> {
    data: Option<T>,
}

impl<T> View for LazyInit<T> {
    type V = Option<T>;

    closed spec fn view(&self) -> Option<T> {
        self.data
    }
}

impl<T> LazyInit<T> {
    /// An uninitialised cell.
    pub fn new() -> (r: Self)
        ensures
            r@ is None,
    {
        LazyInit { data: None }
    }

    /// Stores `data`; filling a cell twice is a caller error.
    pub fn init_by(&mut self, data: T)
        requires
            old(self)@ is None,
        ensures
            final(self)@ == Some(data),
    {
        self.data = Some(data);
    }

    pub fn is_init(&self) -> (r: bool)
        ensures
            r == self@ is Some,
    {
        self.data.is_some()
    }

    /// The stored value, or `None` before initialisation.
    pub fn try_get(&self) -> (r: Option<&T>)
        ensures
            r is Some <==> self@ is Some,
            r is Some ==> *r->0 == self@->0,
    {
        match &self.data {
            Some(v) => Some(v),
            None => None,
        }
    }

    /// Reading an uninitialised cell is a caller error.
    pub fn check_init(&self)
        requires
            self@ is Some,
    {
    }

    /// The stored value of an initialised cell.
    pub fn get(&self) -> (r: &T)
        requires
            self@ is Some,
        ensures
            *r == self@->0,
    {
        self.check_init();
        self.get_unchecked()
    }

    /// Mutable access to the stored value of an initialised cell.
    pub fn get_mut(&mut self) -> (r: &mut T)
        requires
            old(self)@ is Some,
        ensures
            *r == old(self)@->0,
            final(self)@ == Some(*final(r)),
    {
        self.check_init();
        self.get_mut_unchecked()
    }

    pub fn get_unchecked(&self) -> (r: &T)
        requires
            self@ is Some,
        ensures
            *r == self@->0,
    {
        self.data.as_ref().unwrap()
    }

    pub fn get_mut_unchecked(&mut self) -> (r: &mut T)
        requires
            old(self)@ is Some,
        ensures
            *r == old(self)@->0,
            final(self)@ == Some(*final(r)),
    {
        self.data.as_mut().unwrap()
    }
}

impl<T> Default for LazyInit<T> {
    fn default() -> (r: Self)
        ensures
            r@ is None,
    {
        Self::new()
    }
}

} // verus!
