//! Index buffers of 16- or 32-bit vertex indices.

use vstd::prelude::*;

verus! {

/// The vertex indices of a mesh, in one of two widths.
pub enum Indices {
    U16(Vec<u16>),
    U32(Vec<u32>),
}

/// The entries of `other` as they read once stored at 16 bits (`narrow`) or
/// at 32 bits: a 32-bit index kept at 16 bits loses its high bits.
pub open spec fn stored_values(other: Indices, narrow: bool) -> Seq<int> {
    match other {
        Indices::U16(v) => v@.map_values(|x: u16| x as int),
        Indices::U32(v) => if narrow {
            v@.map_values(|x: u32| (x as u16) as int)
        } else {
            v@.map_values(|x: u32| x as int)
        },
    }
}

fn shift_u16(v: &mut Vec<u16>, offset: u16)
    requires
        forall|i: int| 0 <= i < old(v)@.len() ==> old(v)@[i] + offset <= u16::MAX,
    ensures
        final(v)@.len() == old(v)@.len(),
        forall|i: int| 0 <= i < old(v)@.len() ==> #[trigger] final(v)@[i] == old(v)@[i] + offset,
{
    let mut i: usize = 0;
    while i < v.len()
        invariant
            i <= v@.len(),
            v@.len() == old(v)@.len(),
            forall|j: int| 0 <= j < old(v)@.len() ==> old(v)@[j] + offset <= u16::MAX,
            forall|j: int| 0 <= j < i ==> #[trigger] v@[j] == old(v)@[j] + offset,
            forall|j: int| i <= j < v@.len() ==> #[trigger] v@[j] == old(v)@[j],
        decreases v@.len() - i,
    {
        let x = v[i];
        v.set(i, x + offset);
        i = i + 1;
    }
}

fn shift_u32(v: &mut Vec<u32>, offset: u32)
    requires
        forall|i: int| 0 <= i < old(v)@.len() ==> old(v)@[i] + offset <= u32::MAX,
    ensures
        final(v)@.len() == old(v)@.len(),
        forall|i: int| 0 <= i < old(v)@.len() ==> #[trigger] final(v)@[i] == old(v)@[i] + offset,
{
    let mut i: usize = 0;
    while i < v.len()
        invariant
            i <= v@.len(),
            v@.len() == old(v)@.len(),
            forall|j: int| 0 <= j < old(v)@.len() ==> old(v)@[j] + offset <= u32::MAX,
            forall|j: int| 0 <= j < i ==> #[trigger] v@[j] == old(v)@[j] + offset,
            forall|j: int| i <= j < v@.len() ==> #[trigger] v@[j] == old(v)@[j],
        decreases v@.len() - i,
    {
        let x = v[i];
        v.set(i, x + offset);
        i = i + 1;
    }
}

fn append_narrowed(dst: &mut Vec<u16>, src: &Vec<u32>)
    ensures
        final(dst)@ == old(dst)@ + src@.map_values(|x: u32| x as u16),
{
    let mut i: usize = 0;
    while i < src.len()
        invariant
            i <= src@.len(),
            dst@ == old(dst)@ + src@.take(i as int).map_values(|x: u32| x as u16),
        decreases src@.len() - i,
    {
        dst.push(src[i] as u16);
        assert(src@.take(i + 1).map_values(|x: u32| x as u16) =~= src@.take(i as int).map_values(
            |x: u32| x as u16,
        ).push(src@[i as int] as u16));
        i = i + 1;
    }
    assert(src@.take(src@.len() as int) =~= src@);
}

fn append_widened(dst: &mut Vec<u32>, src: &Vec<u16>)
    ensures
        final(dst)@ == old(dst)@ + src@.map_values(|x: u16| x as u32),
{
    let mut i: usize = 0;
    while i < src.len()
        invariant
            i <= src@.len(),
            dst@ == old(dst)@ + src@.take(i as int).map_values(|x: u16| x as u32),
        decreases src@.len() - i,
    {
        dst.push(src[i] as u32);
        assert(src@.take(i + 1).map_values(|x: u16| x as u32) =~= src@.take(i as int).map_values(
            |x: u16| x as u32,
        ).push(src@[i as int] as u32));
        i = i + 1;
    }
    assert(src@.take(src@.len() as int) =~= src@);
}

impl Indices {
    /// The indices, as numbers.
    pub open spec fn values(&self) -> Seq<int> {
        stored_values(*self, false)
    }

    pub open spec fn is_narrow(&self) -> bool {
        self is U16
    }

    /// How many indices there are.
    pub fn len(&self) -> (r: usize)
        ensures
            r == self.values().len(),
    {
        match self {
            Indices::U16(vec) => vec.len(),
            Indices::U32(vec) => vec.len(),
        }
    }

    /// Adds `offset`, cut to the indices' width, to every index.
    pub fn shift(&mut self, offset: u32)
        requires
            forall|i: int|
                0 <= i < old(self).values().len() ==> old(self).values()[i] + (if old(
                    self,
                ).is_narrow() {
                    (offset as u16) as int
                } else {
                    offset as int
                }) <= if old(self).is_narrow() {
                    u16::MAX as int
                } else {
                    u32::MAX as int
                },
        ensures
            final(self).is_narrow() == old(self).is_narrow(),
            final(self).values().len() == old(self).values().len(),
            forall|i: int|
                0 <= i < old(self).values().len() ==> #[trigger] final(self).values()[i] == old(
                    self,
                ).values()[i] + if old(self).is_narrow() {
                    (offset as u16) as int
                } else {
                    offset as int
                },
    {
        match self {
            Indices::U16(vec) => {
                #[verifier::truncate]
                let o = offset as u16;
                assert forall|i: int| 0 <= i < vec@.len() implies vec@[i] + o <= u16::MAX by {
                    assert(old(self).values()[i] == vec@[i] as int);
                }
                shift_u16(vec, o);
            },
            Indices::U32(vec) => {
                assert forall|i: int| 0 <= i < vec@.len() implies vec@[i] + offset <= u32::MAX by {
                    assert(old(self).values()[i] == vec@[i] as int);
                }
                shift_u32(vec, offset);
            },
        }
    }

    /// Appends the indices of `other`, converted to this buffer's width.
    pub fn extend(&mut self, other: Indices)
        ensures
            final(self).is_narrow() == old(self).is_narrow(),
            final(self).values() == old(self).values() + stored_values(other, old(self).is_narrow()),
    {
        match self {
            Indices::U16(vs) => match other {
                Indices::U16(mut vo) => {
                    let ghost (a, b) = (vs@, vo@);
                    vs.append(&mut vo);
                    assert((a + b).map_values(|x: u16| x as int) =~= a.map_values(|x: u16| x as int)
                        + b.map_values(|x: u16| x as int));
                },
                Indices::U32(vo) => {
                    let ghost a = vs@;
                    append_narrowed(vs, &vo);
                    assert((a + vo@.map_values(|x: u32| x as u16)).map_values(|x: u16| x as int)
                        =~= a.map_values(|x: u16| x as int) + vo@.map_values(
                        |x: u32| (x as u16) as int,
                    ));
                },
            },
            Indices::U32(vs) => match other {
                Indices::U16(vo) => {
                    let ghost a = vs@;
                    append_widened(vs, &vo);
                    assert((a + vo@.map_values(|x: u16| x as u32)).map_values(|x: u32| x as int)
                        =~= a.map_values(|x: u32| x as int) + vo@.map_values(|x: u16| x as int));
                },
                Indices::U32(mut vo) => {
                    let ghost (a, b) = (vs@, vo@);
                    vs.append(&mut vo);
                    assert((a + b).map_values(|x: u32| x as int) =~= a.map_values(|x: u32| x as int)
                        + b.map_values(|x: u32| x as int));
                },
            },
        }
    }
}

} // verus!
