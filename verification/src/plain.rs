//! Host values that flow along a graph as plain data.

use crate::entries::copy_objs;
use crate::launch::{ArgValue, F32Bits, F64Bits, ScalarArg};
use crate::obj::{Class, Extent, Obj};
use vstd::prelude::*;

verus! {

/// One word of plain data as a value of the graph.
pub open spec fn plain_obj(bits: u64) -> Obj {
    Obj {
        class: Class::Plain,
        id: bits,
        ctx: 0,
        extent: Extent { x: 1, y: 1, z: 1 },
        len: 1,
        bytes: 8,
        shared: true,
    }
}

fn plain(bits: u64) -> (r: Obj)
    ensures
        r == plain_obj(bits),
{
    Obj {
        class: Class::Plain,
        id: bits,
        ctx: 0,
        extent: Extent { x: 1, y: 1, z: 1 },
        len: 1,
        bytes: 8,
        shared: true,
    }
}

/// A host value that can be copied into every run.
pub trait HostValue {
    /// The value as the graph carries it.
    open spec fn parts(&self) -> Seq<Obj> {
        arbitrary()
    }

    fn to_parts(&self) -> (r: Vec<Obj>)
        ensures
            r@ == self.parts(),
    ;
}

impl<T: ScalarArg> HostValue for T {
    open spec fn parts(&self) -> Seq<Obj> {
        seq![plain_obj(self.bits())]
    }

    fn to_parts(&self) -> (r: Vec<Obj>) {
        let bits: u64 = match self.to_arg() {
            ArgValue::Scalar { bits, .. } => bits,
            _ => 0,
        };
        let mut v: Vec<Obj> = Vec::new();
        v.push(plain(bits));
        assert(v@ =~= self.parts());
        v
    }
}

/// Words of plain data of the application's own making.
impl HostValue for Vec<u64> {
    open spec fn parts(&self) -> Seq<Obj> {
        self@.map_values(|b: u64| plain_obj(b))
    }

    fn to_parts(&self) -> (r: Vec<Obj>) {
        let mut v: Vec<Obj> = Vec::new();
        let mut i: usize = 0;
        while i < self.len()
            invariant
                i <= self.len(),
                v@ =~= self.parts().take(i as int),
            decreases self.len() - i,
        {
            v.push(plain(self[i]));
            i = i + 1;
        }
        assert(self.parts().take(i as int) =~= self.parts());
        v
    }
}

/// Shared handles to memory.
impl HostValue for Vec<Obj> {
    open spec fn parts(&self) -> Seq<Obj> {
        self@
    }

    fn to_parts(&self) -> (r: Vec<Obj>) {
        copy_objs(self)
    }
}

/// A number that can be read back from the graph.
pub trait HostNumber: ScalarArg {
    /// The number with these bits.
    spec fn of_bits(bits: u64) -> Option<Self>;

    /// What is read back is what was put in.
    proof fn lemma_read_back(x: Self)
        ensures
            Self::of_bits(x.bits()) == Some(x),
    ;

    /// The number that a part holds, where it holds one.
    fn read(o: &Obj) -> (r: Option<Self>)
        ensures
            r == (if o.class == Class::Plain {
                Self::of_bits(o.id)
            } else {
                None
            }),
    ;
}

impl HostNumber for u8 {
    open spec fn of_bits(bits: u64) -> Option<u8> {
        if bits <= 0xff {
            Some(bits as u8)
        } else {
            None
        }
    }

    proof fn lemma_read_back(x: u8) {
    }

    fn read(o: &Obj) -> (r: Option<u8>) {
        if matches!(o.class, Class::Plain) && o.id <= 0xff {
            Some(o.id as u8)
        } else {
            None
        }
    }
}

impl HostNumber for u16 {
    open spec fn of_bits(bits: u64) -> Option<u16> {
        if bits <= 0xffff {
            Some(bits as u16)
        } else {
            None
        }
    }

    proof fn lemma_read_back(x: u16) {
    }

    fn read(o: &Obj) -> (r: Option<u16>) {
        if matches!(o.class, Class::Plain) && o.id <= 0xffff {
            Some(o.id as u16)
        } else {
            None
        }
    }
}

impl HostNumber for u32 {
    open spec fn of_bits(bits: u64) -> Option<u32> {
        if bits <= 0xffffffff {
            Some(bits as u32)
        } else {
            None
        }
    }

    proof fn lemma_read_back(x: u32) {
    }

    fn read(o: &Obj) -> (r: Option<u32>) {
        if matches!(o.class, Class::Plain) && o.id <= 0xffffffff {
            Some(o.id as u32)
        } else {
            None
        }
    }
}

impl HostNumber for u64 {
    open spec fn of_bits(bits: u64) -> Option<u64> {
        Some(bits)
    }

    proof fn lemma_read_back(x: u64) {
    }

    fn read(o: &Obj) -> (r: Option<u64>) {
        if matches!(o.class, Class::Plain) {
            Some(o.id)
        } else {
            None
        }
    }
}

impl HostNumber for i8 {
    open spec fn of_bits(bits: u64) -> Option<i8> {
        if bits < 0x80 {
            Some(bits as i8)
        } else if bits < 0x100 {
            Some((bits - 0x100) as i8)
        } else {
            None
        }
    }

    proof fn lemma_read_back(x: i8) {
    }

    fn read(o: &Obj) -> (r: Option<i8>) {
        if !matches!(o.class, Class::Plain) || o.id >= 0x100 {
            None
        } else if o.id < 0x80 {
            Some(o.id as i8)
        } else {
            Some((o.id as i64 - 0x100) as i8)
        }
    }
}

impl HostNumber for i16 {
    open spec fn of_bits(bits: u64) -> Option<i16> {
        if bits < 0x8000 {
            Some(bits as i16)
        } else if bits < 0x10000 {
            Some((bits - 0x10000) as i16)
        } else {
            None
        }
    }

    proof fn lemma_read_back(x: i16) {
    }

    fn read(o: &Obj) -> (r: Option<i16>) {
        if !matches!(o.class, Class::Plain) || o.id >= 0x10000 {
            None
        } else if o.id < 0x8000 {
            Some(o.id as i16)
        } else {
            Some((o.id as i64 - 0x10000) as i16)
        }
    }
}

impl HostNumber for i32 {
    open spec fn of_bits(bits: u64) -> Option<i32> {
        if bits < 0x80000000 {
            Some(bits as i32)
        } else if bits < 0x100000000 {
            Some((bits - 0x100000000) as i32)
        } else {
            None
        }
    }

    proof fn lemma_read_back(x: i32) {
    }

    fn read(o: &Obj) -> (r: Option<i32>) {
        if !matches!(o.class, Class::Plain) || o.id >= 0x100000000 {
            None
        } else if o.id < 0x80000000 {
            Some(o.id as i32)
        } else {
            Some((o.id as i64 - 0x100000000) as i32)
        }
    }
}

impl HostNumber for i64 {
    open spec fn of_bits(bits: u64) -> Option<i64> {
        if bits < 0x8000_0000_0000_0000 {
            Some(bits as i64)
        } else {
            Some((bits - 0x1_0000_0000_0000_0000) as i64)
        }
    }

    proof fn lemma_read_back(x: i64) {
    }

    fn read(o: &Obj) -> (r: Option<i64>) {
        if !matches!(o.class, Class::Plain) {
            None
        } else if o.id < 0x8000_0000_0000_0000 {
            Some(o.id as i64)
        } else {
            Some((o.id - 0x8000_0000_0000_0000) as i64 + i64::MIN)
        }
    }
}

impl HostNumber for F32Bits {
    open spec fn of_bits(bits: u64) -> Option<F32Bits> {
        if bits <= 0xffffffff {
            Some(F32Bits(bits as u32))
        } else {
            None
        }
    }

    proof fn lemma_read_back(x: F32Bits) {
    }

    fn read(o: &Obj) -> (r: Option<F32Bits>) {
        if matches!(o.class, Class::Plain) && o.id <= 0xffffffff {
            Some(F32Bits(o.id as u32))
        } else {
            None
        }
    }
}

impl HostNumber for F64Bits {
    open spec fn of_bits(bits: u64) -> Option<F64Bits> {
        Some(F64Bits(bits))
    }

    proof fn lemma_read_back(x: F64Bits) {
    }

    fn read(o: &Obj) -> (r: Option<F64Bits>) {
        if matches!(o.class, Class::Plain) {
            Some(F64Bits(o.id))
        } else {
            None
        }
    }
}

/// A number that went into a graph as a value is read back as it was.
pub proof fn law_numbers_are_read_back<T: HostNumber>(x: T)
    ensures
        x.parts().len() == 1,
        x.parts()[0].class == Class::Plain,
        T::of_bits(x.parts()[0].id) == Some(x),
{
    T::lemma_read_back(x);
}

/// Words that went into a graph are there one by one, in order, as plain data that may be
/// copied.
pub proof fn law_words_stand_in_order(v: Vec<u64>, k: int)
    requires
        0 <= k < v.len(),
    ensures
        v.parts().len() == v.len(),
        v.parts()[k].class == Class::Plain,
        v.parts()[k].id == v[k],
        v.parts()[k].len == 1,
        v.parts()[k].bytes == 8,
        v.parts()[k].shared,
{
}

/// Handles to memory go into a graph as they are.
pub proof fn law_handles_go_in_as_they_are(v: Vec<Obj>)
    ensures
        v.parts() == v@,
{
}

} // verus!
