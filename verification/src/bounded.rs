//! Collections with a fixed capacity, kept in the storage of the `heapless` crate.
use vstd::prelude::*;
use vstd::std_specs::cmp::PartialEqSpec;

verus! {

#[verifier::external_type_specification]
#[verifier::external_body]
#[verifier::reject_recursive_types(T)]
pub struct ExHeaplessVec<T, const N: usize>(heapless::Vec<T, N>);

#[verifier::external_type_specification]
#[verifier::external_body]
pub struct ExHeaplessString<const N: usize>(heapless::String<N>);

/// A vector that never holds more than `N` items.
///
/// `items` is the storage and `model` the sequence that it holds. The storage is
/// reached only by the methods below, and each says what becomes of the sequence.
#[verifier::reject_recursive_types(T)]
pub struct BoundedVec<T, const N: usize> {
    items: heapless::Vec<T, N>,
    model: Ghost<Seq<T>>,
}

impl<T, const N: usize> View for BoundedVec<T, N> {
    type V = Seq<T>;

    closed spec fn view(&self) -> Seq<T> {
        self.model@
    }
}

impl<T, const N: usize> BoundedVec<T, N> {
    /// `heapless::Vec::new`: it holds nothing.
    #[verifier::external_body]
    fn new_storage() -> (v: Self)
        ensures
            v@ == Seq::<T>::empty(),
    {
        BoundedVec { items: heapless::Vec::new(), model: Ghost(Seq::empty()) }
    }

    /// `heapless::Vec::push`: while fewer than `N` items are held the item goes to the end,
    /// otherwise it is handed back and nothing changes.
    #[verifier::external_body]
    fn push_to_storage(&mut self, item: T) -> (r: Result<(), T>)
        ensures
            match r {
                Ok(()) => old(self)@.len() < N && final(self)@ == old(self)@.push(item),
                Err(back) => !(old(self)@.len() < N) && back == item && final(self)@ == old(self)@,
            },
    {
        self.items.push(item)
    }

    /// `heapless::Vec::clear`: removes every item.
    #[verifier::external_body]
    fn clear_storage(&mut self)
        ensures
            final(self)@ == Seq::<T>::empty(),
    {
        self.items.clear()
    }

    /// `heapless::Vec::as_slice`: the items in order, of which there are at most `N`.
    #[verifier::external_body]
    fn storage(&self) -> (s: &[T])
        ensures
            s@ == self@ && s@.len() <= N,
    {
        self.items.as_slice()
    }

    /// An empty vector.
    pub fn new() -> (v: Self)
        ensures
            v@ == Seq::<T>::empty(),
    {
        Self::new_storage()
    }

    /// Appends `item`, or hands it back if there are `N` items.
    pub fn push(&mut self, item: T) -> (r: Result<(), T>)
        ensures
            match r {
                Ok(()) => old(self)@.len() < N && final(self)@ == old(self)@.push(item),
                Err(back) => old(self)@.len() >= N && back == item && final(self)@ == old(self)@,
            },
    {
        self.push_to_storage(item)
    }

    /// Removes every item.
    pub fn clear(&mut self)
        ensures
            final(self)@ == Seq::<T>::empty(),
    {
        self.clear_storage()
    }

    /// The items in order.
    pub fn as_slice(&self) -> (s: &[T])
        ensures
            s@ == self@,
            s@.len() <= N,
    {
        self.storage()
    }

    /// The number of items.
    pub fn len(&self) -> (n: usize)
        ensures
            n == self@.len(),
            n <= N,
    {
        self.as_slice().len()
    }

    /// Whether there are no items.
    pub fn is_empty(&self) -> (r: bool)
        ensures
            r == (self@.len() == 0),
    {
        self.as_slice().len() == 0
    }
}

impl<const N: usize> BoundedVec<u8, N> {
    /// `heapless::Vec::extend_from_slice`: either all of `other` fits below the capacity and
    /// goes to the end, or nothing changes.
    #[verifier::external_body]
    fn extend_storage(&mut self, other: &[u8]) -> (r: Result<(), ()>)
        ensures
            match r {
                Ok(()) => old(self)@.len() + other@.len() <= N && final(self)@ == old(self)@ + other@,
                Err(()) => !(old(self)@.len() + other@.len() <= N) && final(self)@ == old(self)@,
            },
    {
        self.items.extend_from_slice(other)
    }

    /// Appends all of `other`, or nothing if that is too much.
    pub fn extend_from_slice(&mut self, other: &[u8]) -> (r: Result<(), ()>)
        ensures
            match r {
                Ok(()) => old(self)@.len() + other@.len() <= N && final(self)@ == old(self)@ + other@,
                Err(()) => old(self)@.len() + other@.len() > N && final(self)@ == old(self)@,
            },
    {
        self.extend_storage(other)
    }
}

impl<T: Clone, const N: usize> Clone for BoundedVec<T, N> {
    fn clone(&self) -> (r: Self)
        ensures
            r@.len() == self@.len(),
            forall|k: int| 0 <= k < self@.len() ==> cloned(self@[k], #[trigger] r@[k]),
    {
        let a = self.as_slice();
        let mut r: BoundedVec<T, N> = BoundedVec::new();
        let mut i: usize = 0;
        while i < a.len()
            invariant
                i <= a@.len() <= N,
                a@ == self@,
                r@.len() == i,
                forall|k: int| 0 <= k < i ==> cloned(self@[k], #[trigger] r@[k]),
            decreases a.len() - i,
        {
            let _ = r.push(a[i].clone());
            i = i + 1;
        }
        r
    }
}

impl<T: PartialEq, const N: usize> PartialEq for BoundedVec<T, N> {
    fn eq(&self, other: &Self) -> (r: bool) {
        let a = self.as_slice();
        let b = other.as_slice();
        if a.len() != b.len() {
            return false;
        }
        let mut i: usize = 0;
        while i < a.len()
            invariant
                a@ == self@,
                b@ == other@,
                a@.len() == b@.len(),
                i <= a@.len(),
                <T as PartialEqSpec>::obeys_eq_spec() ==> forall|k: int|
                    0 <= k < i ==> #[trigger] a@[k].eq_spec(&b@[k]),
            decreases a.len() - i,
        {
            if a[i] != b[i] {
                return false;
            }
            i = i + 1;
        }
        true
    }
}

impl<T: PartialEq, const N: usize> vstd::std_specs::cmp::PartialEqSpecImpl for BoundedVec<T, N> {
    open spec fn obeys_eq_spec() -> bool {
        <T as PartialEqSpec>::obeys_eq_spec()
    }

    open spec fn eq_spec(&self, other: &Self) -> bool {
        self@.len() == other@.len() && forall|k: int|
            0 <= k < self@.len() ==> #[trigger] self@[k].eq_spec(&other@[k])
    }
}

impl<T: Eq, const N: usize> Eq for BoundedVec<T, N> {

}

/// A string whose encoding never takes more than `N` bytes.
///
/// As in [`BoundedVec`], `model` is what `text` holds.
pub struct BoundedString<const N: usize> {
    text: heapless::String<N>,
    model: Ghost<Seq<char>>,
}

impl<const N: usize> View for BoundedString<N> {
    type V = Seq<char>;

    closed spec fn view(&self) -> Seq<char> {
        self.model@
    }
}

impl<const N: usize> BoundedString<N> {
    /// `heapless::String::new`: the empty text.
    #[verifier::external_body]
    fn new_storage() -> (s: Self)
        ensures
            s@ == Seq::<char>::empty(),
    {
        BoundedString { text: heapless::String::new(), model: Ghost(Seq::empty()) }
    }

    /// `heapless::String::push_str`: either the whole of `other` fits below the capacity,
    /// counted in bytes, or nothing changes.
    #[verifier::external_body]
    fn push_to_storage(&mut self, other: &str) -> (r: Result<(), ()>)
        ensures
            match r {
                Ok(()) => byte_len(old(self)@) + byte_len(other@) <= N && final(self)@ == old(self)@
                    + other@,
                Err(()) => !(byte_len(old(self)@) + byte_len(other@) <= N) && final(self)@ == old(
                    self,
                )@,
            },
    {
        self.text.push_str(other)
    }

    /// `heapless::String::as_str`: the text, whose encoding takes at most `N` bytes.
    #[verifier::external_body]
    fn storage(&self) -> (s: &str)
        ensures
            s@ == self@ && byte_len(s@) <= N,
    {
        self.text.as_str()
    }

    /// An empty string.
    pub fn new() -> (s: Self)
        ensures
            s@ == Seq::<char>::empty(),
    {
        Self::new_storage()
    }

    /// Appends all of `other`, or nothing if that is too much.
    pub fn push_str(&mut self, other: &str) -> (r: Result<(), ()>)
        ensures
            match r {
                Ok(()) => byte_len(old(self)@) + byte_len(other@) <= N && final(self)@ == old(self)@
                    + other@,
                Err(()) => byte_len(old(self)@) + byte_len(other@) > N && final(self)@ == old(self)@,
            },
    {
        self.push_to_storage(other)
    }

    /// The text.
    pub fn as_str(&self) -> (s: &str)
        ensures
            s@ == self@,
            byte_len(s@) <= N,
    {
        self.storage()
    }
}

/// The number of bytes that `text` takes in UTF-8.
pub open spec fn byte_len(text: Seq<char>) -> nat {
    vstd::utf8::encode_utf8(text).len()
}

impl<const N: usize> Clone for BoundedString<N> {
    fn clone(&self) -> (r: Self)
        ensures
            r@ == self@,
    {
        let mut r: BoundedString<N> = BoundedString::new();
        proof {
            assert(Seq::<char>::empty() + self@ =~= self@);
        }
        let _ = r.push_str(self.as_str());
        r
    }
}

impl<const N: usize> PartialEq for BoundedString<N> {
    fn eq(&self, other: &Self) -> (r: bool) {
        self.as_str().to_owned() == other.as_str().to_owned()
    }
}

impl<const N: usize> vstd::std_specs::cmp::PartialEqSpecImpl for BoundedString<N> {
    open spec fn obeys_eq_spec() -> bool {
        true
    }

    open spec fn eq_spec(&self, other: &Self) -> bool {
        self@ == other@
    }
}

impl<const N: usize> Eq for BoundedString<N> {

}

// ---- Laws ----

/// Bounded bytes are equal exactly where their contents are, and so are bounded strings.
pub proof fn contents_are_compared<const N: usize, const M: usize>(
    a: BoundedVec<u8, N>,
    b: BoundedVec<u8, N>,
    s: BoundedString<M>,
    t: BoundedString<M>,
)
    ensures
        a.eq_spec(&b) <==> a@ == b@,
        s.eq_spec(&t) <==> s@ == t@,
{
    if a.eq_spec(&b) {
        assert forall|k: int| 0 <= k < a@.len() implies a@[k] == b@[k] by {
            assert(a@[k].eq_spec(&b@[k]));
        }
        assert(a@ =~= b@);
    }
}

} // verus!
