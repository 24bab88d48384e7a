//! An in-memory array engine behind the same four calls as a running patch.
//!
//! `ArrayStore` keeps named sample arrays and answers the four array calls
//! as the accessor documents them: an unknown name fails, a copy whose span
//! leaves the array fails without copying, and a resize is clipped to one
//! element when the request is below one or above the limit. Its answers go through the same status translation as calls
//! into a running patch, so code written against the accessor can be
//! exercised, and its laws proved, without an audio engine.
use vstd::prelude::*;
use crate::array::{
    resize_from_status, size_from_status, transfer_from_status, STATUS_NO_ARRAY,
    STATUS_OUT_OF_BOUNDS,
};
use crate::error::{ArrayError, LibpdError, SizeError};

verus! {

/// Largest length an array can have; a resize beyond it is clipped to one
/// element, as is a resize to zero or below.
pub const MAX_ARRAY_LEN: i64 = 0x7fff_ffff;

/// The length an array ends up with after a request for `size` elements.
pub open spec fn clipped_len(size: i64) -> int {
    if 1 <= size && size <= MAX_ARRAY_LEN {
        size as int
    } else {
        1
    }
}

/// `data` cut or extended to `len` elements, new elements set to `fill`.
pub open spec fn resized<S>(data: Seq<S>, len: int, fill: S) -> Seq<S> {
    Seq::new(len as nat, |i: int| if i < data.len() { data[i] } else { fill })
}

/// Whether `count` elements from `offset` on lie within `len` elements.
pub open spec fn span_fits(offset: i32, count: i32, len: int) -> bool {
    0 <= offset && 0 <= count && offset + count <= len
}

/// `base` with the first `count` elements of `src` laid over it from `at` on.
pub open spec fn overlay<S>(base: Seq<S>, at: int, src: Seq<S>, count: int) -> Seq<S> {
    Seq::new(base.len(), |i: int| if at <= i < at + count { src[i - at] } else { base[i] })
}

/// Answer of a size query against the arrays `m`.
pub open spec fn size_of<S>(m: Map<Seq<char>, Seq<S>>, name: Seq<char>) -> Result<i32, LibpdError> {
    if m.contains_key(name) {
        Ok(m[name].len() as i32)
    } else {
        Err(LibpdError::SizeError(SizeError::CouldNotDetermine))
    }
}

/// Arrays and answer after a resize of `name` to `size`, new elements `fill`.
pub open spec fn resize_of<S>(m: Map<Seq<char>, Seq<S>>, fill: S, name: Seq<char>, size: i64) -> (
    Map<Seq<char>, Seq<S>>,
    Result<(), LibpdError>,
) {
    if m.contains_key(name) {
        (m.insert(name, resized(m[name], clipped_len(size), fill)), Ok(()))
    } else {
        (m, Err(LibpdError::SizeError(SizeError::CouldNotDetermine)))
    }
}

/// Destination and answer after reading `count` elements of `name` into
/// `dest` from `offset` on.
pub open spec fn read_of<S>(
    m: Map<Seq<char>, Seq<S>>,
    name: Seq<char>,
    count: i32,
    dest: Seq<S>,
    offset: i32,
) -> (Seq<S>, Result<(), LibpdError>) {
    if !m.contains_key(name) {
        (dest, Err(LibpdError::ArrayError(ArrayError::NonExistent)))
    } else if !span_fits(offset, count, m[name].len() as int) {
        (dest, Err(LibpdError::ArrayError(ArrayError::OutOfBounds)))
    } else {
        (overlay(dest, offset as int, m[name], count as int), Ok(()))
    }
}

/// Arrays and answer after writing `count` elements of `src` into `name`
/// from `offset` on.
pub open spec fn write_of<S>(
    m: Map<Seq<char>, Seq<S>>,
    name: Seq<char>,
    offset: i32,
    src: Seq<S>,
    count: i32,
) -> (Map<Seq<char>, Seq<S>>, Result<(), LibpdError>) {
    if !m.contains_key(name) {
        (m, Err(LibpdError::ArrayError(ArrayError::NonExistent)))
    } else if !span_fits(offset, count, m[name].len() as int) {
        (m, Err(LibpdError::ArrayError(ArrayError::OutOfBounds)))
    } else {
        (m.insert(name, overlay(m[name], offset as int, src, count as int)), Ok(()))
    }
}

/// Named sample arrays, each at most `MAX_ARRAY_LEN` long.
pub struct ArrayStore<S> {
    names: Vec<String>,
    arrays: Vec<Vec<S>>,
    fill: S,
}

impl<S: Copy> ArrayStore<S> {
    /// Names are unique, each has its array, and every array fits the limit.
    pub closed spec fn wf(&self) -> bool {
        &&& self.names@.len() == self.arrays@.len()
        &&& forall|i: int, j: int|
            0 <= i < self.names@.len() && 0 <= j < self.names@.len() && i != j
                ==> self.names@[i]@ != self.names@[j]@
        &&& forall|i: int| 0 <= i < self.arrays@.len() ==> self.arrays@[i]@.len() <= MAX_ARRAY_LEN
    }

    /// Whether an array is called `name`.
    pub closed spec fn has(&self, name: Seq<char>) -> bool {
        exists|i: int| 0 <= i < self.names@.len() && self.names@[i]@ == name
    }

    /// Where the array called `name` is kept.
    closed spec fn slot(&self, name: Seq<char>) -> int {
        choose|i: int| 0 <= i < self.names@.len() && self.names@[i]@ == name
    }

    /// The value that a resize gives to new elements.
    pub closed spec fn fill(&self) -> S {
        self.fill
    }

    /// The arrays, by name.
    pub closed spec fn view(&self) -> Map<Seq<char>, Seq<S>> {
        Map::new(|k: Seq<char>| self.has(k), |k: Seq<char>| self.arrays@[self.slot(k)]@)
    }

    proof fn lemma_slot(&self, i: int)
        requires
            self.wf(),
            0 <= i < self.names@.len(),
        ensures
            self.has(self.names@[i]@),
            self.slot(self.names@[i]@) == i,
    {
        let k = self.names@[i]@;
        assert(self.has(k));
        let j = self.slot(k);
        assert(self.names@[j]@ == k);
    }

    /// An empty store whose resizes extend arrays with `fill`.
    pub fn new(fill: S) -> (r: Self)
        ensures
            r.wf(),
            r@ == Map::<Seq<char>, Seq<S>>::empty(),
            r.fill() == fill,
    {
        let r = ArrayStore { names: Vec::new(), arrays: Vec::new(), fill };
        assert(r@ =~= Map::<Seq<char>, Seq<S>>::empty());
        r
    }

    proof fn lemma_replace(old: &Self, new: &Self, i: int)
        requires
            old.wf(),
            0 <= i < old.names@.len(),
            new.names@ == old.names@,
            new.arrays@.len() == old.arrays@.len(),
            forall|j: int| 0 <= j < old.arrays@.len() && j != i ==> new.arrays@[j] == old.arrays@[j],
            new.arrays@[i]@.len() <= MAX_ARRAY_LEN,
        ensures
            new.wf(),
            new@ == old@.insert(old.names@[i]@, new.arrays@[i]@),
    {
        old.lemma_slot(i);
        assert forall|k: Seq<char>| #[trigger] new.has(k) implies new.slot(k) == old.slot(k) by {
            let j = new.slot(k);
            old.lemma_slot(j);
        }
        assert forall|k: Seq<char>| new.has(k) && k != old.names@[i]@ implies #[trigger] new.arrays@[new.slot(k)]
            == old.arrays@[old.slot(k)] by {
            let j = new.slot(k);
            old.lemma_slot(j);
        }
        assert(new@ =~= old@.insert(old.names@[i]@, new.arrays@[i]@));
    }

    /// Adds an array called `name` of `len` elements, each `value`, unless an
    /// array of that name is there already; says whether it was added.
    pub fn add_array(&mut self, name: &str, len: usize, value: S) -> (added: bool)
        requires
            old(self).wf(),
            len <= MAX_ARRAY_LEN,
        ensures
            final(self).wf(),
            final(self).fill() == old(self).fill(),
            added == !old(self)@.contains_key(name@),
            added ==> final(self)@ == old(self)@.insert(name@, Seq::new(len as nat, |i: int| value)),
            !added ==> final(self)@ == old(self)@,
    {
        if self.find(name).is_some() {
            return false;
        }
        let mut data: Vec<S> = Vec::new();
        let mut i: usize = 0;
        while i < len
            invariant
                0 <= i <= len,
                data@ == Seq::new(i as nat, |j: int| value),
            decreases len - i,
        {
            data.push(value);
            i = i + 1;
            assert(data@ =~= Seq::new(i as nat, |j: int| value));
        }
        let ghost before = *self;
        self.names.push(name.to_owned());
        self.arrays.push(data);
        proof {
            let n = before.names@.len() as int;
            assert forall|k: Seq<char>| before.has(k) implies #[trigger] self.has(k)
                && self.slot(k) == before.slot(k) by {
                let j = before.slot(k);
                self.lemma_slot(j);
            }
            self.lemma_slot(n);
            assert forall|k: Seq<char>| #[trigger] self.has(k) implies before.has(k) || k == name@ by {
                let j = self.slot(k);
                if j < n {
                    assert(before.names@[j] == self.names@[j]);
                }
            }
            assert(self@ =~= before@.insert(name@, Seq::new(len as nat, |i: int| value)));
        }
        true
    }

    /// Length of the array called `name`, or `SizeError::CouldNotDetermine`
    /// when there is none.
    pub fn array_size(&self, name: &str) -> (r: Result<i32, LibpdError>)
        requires
            self.wf(),
        ensures
            r == size_of(self@, name@),
            self@.contains_key(name@) ==> r == Ok::<i32, LibpdError>(self@[name@].len() as i32),
            !self@.contains_key(name@) ==> r == Err::<i32, LibpdError>(
                LibpdError::SizeError(SizeError::CouldNotDetermine),
            ),
    {
        let status: i32 = match self.find(name) {
            None => STATUS_NO_ARRAY,
            Some(i) => self.arrays[i].len() as i32,
        };
        size_from_status(status)
    }

    /// Resizes the array called `name` to `size` elements, clipped to one
    /// element when `size` is below one or above `MAX_ARRAY_LEN`. Elements
    /// that stay keep their values; new ones take the store's fill value.
    pub fn resize_array(&mut self, name: &str, size: i64) -> (r: Result<(), LibpdError>)
        requires
            old(self).wf(),
        ensures
            final(self).wf(),
            final(self).fill() == old(self).fill(),
            (final(self)@, r) == resize_of(old(self)@, old(self).fill(), name@, size),
    {
        let status: i32 = match self.find(name) {
            None => STATUS_NO_ARRAY,
            Some(slot) => {
                let len: usize = if 1 <= size && size <= MAX_ARRAY_LEN {
                    size as usize
                } else {
                    1
                };
                let ghost target = resized(self.arrays@[slot as int]@, len as int, self.fill);
                let mut data: Vec<S> = Vec::new();
                let mut i: usize = 0;
                while i < len
                    invariant
                        slot < self.arrays@.len(),
                        0 <= i <= len,
                        len as int == clipped_len(size),
                        target == resized(self.arrays@[slot as int]@, len as int, self.fill),
                        data@ == target.subrange(0, i as int),
                    decreases len - i,
                {
                    let value: S = if i < self.arrays[slot].len() {
                        self.arrays[slot][i]
                    } else {
                        self.fill
                    };
                    data.push(value);
                    i = i + 1;
                    assert(data@ =~= target.subrange(0, i as int));
                }
                assert(data@ =~= target);
                let ghost before = *self;
                self.arrays.set(slot, data);
                proof {
                    Self::lemma_replace(&before, self, slot as int);
                }
                0
            },
        };
        resize_from_status(status)
    }

    /// Copies the first `read_amount` elements of the array called
    /// `source_name` into `destination` from `destination_offset` on.
    /// Fails with `ArrayError::NonExistent` when there is no such array, and
    /// with `ArrayError::OutOfBounds`, copying nothing, when the offset or
    /// the amount is negative or their sum exceeds the array's length.
    pub fn read_array_from(
        &self,
        source_name: &str,
        read_amount: i32,
        destination: &mut [S],
        destination_offset: i32,
    ) -> (r: Result<(), LibpdError>)
        requires
            self.wf(),
            0 <= read_amount && 0 <= destination_offset ==> destination_offset + read_amount
                <= old(destination)@.len(),
        ensures
            (final(destination)@, r) == read_of(
                self@,
                source_name@,
                read_amount,
                old(destination)@,
                destination_offset,
            ),
            !self@.contains_key(source_name@) ==> r == Err::<(), LibpdError>(
                LibpdError::ArrayError(ArrayError::NonExistent),
            ),
            self@.contains_key(source_name@) && !span_fits(
                destination_offset,
                read_amount,
                self@[source_name@].len() as int,
            ) ==> r == Err::<(), LibpdError>(LibpdError::ArrayError(ArrayError::OutOfBounds))
                && final(destination)@ == old(destination)@,
    {
        let status: i32 = match self.find(source_name) {
            None => STATUS_NO_ARRAY,
            Some(slot) => {
                let len = self.arrays[slot].len();
                if read_amount < 0 || destination_offset < 0 || destination_offset as usize
                    + read_amount as usize > len {
                    STATUS_OUT_OF_BOUNDS
                } else {
                    let ghost start = destination@;
                    let ghost src = self.arrays@[slot as int]@;
                    let count = read_amount as usize;
                    let offset = destination_offset as usize;
                    let mut i: usize = 0;
                    while i < count
                        invariant
                            slot < self.arrays@.len(),
                            src == self.arrays@[slot as int]@,
                            count <= src.len(),
                            offset + count <= len,
                            len == src.len(),
                            destination@.len() == start.len(),
                            offset + count <= start.len(),
                            0 <= i <= count,
                            destination@ == overlay(start, offset as int, src, i as int),
                        decreases count - i,
                    {
                        let value: S = self.arrays[slot][i];
                        destination[offset + i] = value;
                        i = i + 1;
                        assert(destination@ =~= overlay(start, offset as int, src, i as int));
                    }
                    0
                }
            },
        };
        transfer_from_status(status)
    }

    /// Copies the first `read_amount` elements of `source` into the array
    /// called `destination_name` from `destination_offset` on. Fails as
    /// `read_array_from` does, leaving the store as it was.
    pub fn write_array_to(
        &mut self,
        destination_name: &str,
        destination_offset: i32,
        source: &[S],
        read_amount: i32,
    ) -> (r: Result<(), LibpdError>)
        requires
            old(self).wf(),
            0 <= read_amount ==> read_amount <= source@.len(),
        ensures
            final(self).wf(),
            final(self).fill() == old(self).fill(),
            (final(self)@, r) == write_of(
                old(self)@,
                destination_name@,
                destination_offset,
                source@,
                read_amount,
            ),
            !old(self)@.contains_key(destination_name@) ==> r == Err::<(), LibpdError>(
                LibpdError::ArrayError(ArrayError::NonExistent),
            ),
            old(self)@.contains_key(destination_name@) && !span_fits(
                destination_offset,
                read_amount,
                old(self)@[destination_name@].len() as int,
            ) ==> r == Err::<(), LibpdError>(LibpdError::ArrayError(ArrayError::OutOfBounds))
                && final(self)@ == old(self)@,
    {
        let status: i32 = match self.find(destination_name) {
            None => STATUS_NO_ARRAY,
            Some(slot) => {
                let len = self.arrays[slot].len();
                if read_amount < 0 || destination_offset < 0 || destination_offset as usize
                    + read_amount as usize > len {
                    STATUS_OUT_OF_BOUNDS
                } else {
                    let count = read_amount as usize;
                    let offset = destination_offset as usize;
                    let ghost target = overlay(
                        self.arrays@[slot as int]@,
                        offset as int,
                        source@,
                        count as int,
                    );
                    let mut data: Vec<S> = Vec::new();
                    let mut i: usize = 0;
                    while i < len
                        invariant
                            slot < self.arrays@.len(),
                            len == self.arrays@[slot as int]@.len(),
                            count <= source@.len(),
                            offset + count <= len,
                            target == overlay(
                                self.arrays@[slot as int]@,
                                offset as int,
                                source@,
                                count as int,
                            ),
                            0 <= i <= len,
                            data@ == target.subrange(0, i as int),
                        decreases len - i,
                    {
                        let value: S = if offset <= i && i < offset + count {
                            source[i - offset]
                        } else {
                            self.arrays[slot][i]
                        };
                        data.push(value);
                        i = i + 1;
                        assert(data@ =~= target.subrange(0, i as int));
                    }
                    assert(data@ =~= target);
                    let ghost before = *self;
                    self.arrays.set(slot, data);
                    proof {
                        Self::lemma_replace(&before, self, slot as int);
                    }
                    0
                }
            },
        };
        transfer_from_status(status)
    }

    fn find(&self, name: &str) -> (r: Option<usize>)
        requires
            self.wf(),
        ensures
            r is None <==> !self@.contains_key(name@),
            r matches Some(i) ==> i < self.names@.len() && self.slot(name@) == i
                && self@[name@] == self.arrays@[i as int]@,
    {
        let key = name.to_owned();
        let mut i: usize = 0;
        while i < self.names.len()
            invariant
                self.wf(),
                key@ == name@,
                0 <= i <= self.names@.len(),
                forall|j: int| 0 <= j < i ==> self.names@[j]@ != name@,
            decreases self.names@.len() - i,
        {
            if self.names[i] == key {
                proof {
                    self.lemma_slot(i as int);
                }
                return Some(i);
            }
            i = i + 1;
        }
        None
    }
}

} // verus!
