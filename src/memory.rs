//! A flat, byte-addressable memory with byte and big-endian word access.
//! The machine has two of them, one for data and one for instructions, with
//! separate address spaces.
use vstd::prelude::*;

use crate::error::Error;

verus! {

/// A memory of `size` bytes. Every access at or past `size` fails with
/// `OutOfBounds`; addresses never wrap.
pub struct Memory {
    /// Capacity in bytes.
    pub size: u32,
    /// The contents, exactly `size` bytes.
    pub data: Vec<u8>,
}

/// The 16-bit value of a high byte followed by a low byte.
pub open spec fn word(hi: u8, lo: u8) -> int {
    hi as int * 256 + lo as int
}

impl View for Memory {
    type V = Seq<u8>;

    open spec fn view(&self) -> Seq<u8> {
        self.data@
    }
}

impl Memory {
    /// The contents hold exactly `size` bytes.
    pub open spec fn wf(&self) -> bool {
        self.data@.len() == self.size as int
    }

    /// A memory of `size` bytes, all zero.
    pub fn new(size: u32) -> (r: Memory)
        ensures
            r.wf(),
            r.size == size,
            r@ == Seq::new(size as nat, |i: int| 0u8),
    {
        let mut data: Vec<u8> = Vec::new();
        let mut i: u32 = 0;
        while i < size
            invariant
                i <= size,
                data@ == Seq::new(i as nat, |k: int| 0u8),
            decreases size - i,
        {
            data.push(0);
            i = i + 1;
            assert(data@ =~= Seq::new(i as nat, |k: int| 0u8));
        }
        Memory { size, data }
    }

    /// The byte at `address`.
    pub fn read(&self, address: u32) -> (r: Result<u8, Error>)
        requires
            self.wf(),
        ensures
            address < self.size ==> r == Ok::<u8, Error>(self@[address as int]),
            address >= self.size ==> r == Err::<u8, Error>(Error::OutOfBounds(address)),
    {
        if address < self.size {
            Ok(self.data[address as usize])
        } else {
            Err(Error::OutOfBounds(address))
        }
    }

    /// Stores `value` at `address`; on `OutOfBounds` nothing changes.
    pub fn write(&mut self, address: u32, value: u8) -> (r: Result<(), Error>)
        requires
            old(self).wf(),
        ensures
            final(self).wf(),
            final(self).size == old(self).size,
            address < old(self).size ==> r is Ok && final(self)@ == old(self)@.update(
                address as int,
                value,
            ),
            address >= old(self).size ==> r == Err::<(), Error>(Error::OutOfBounds(address))
                && final(self)@ == old(self)@,
    {
        if address < self.size {
            self.data.set(address as usize, value);
            Ok(())
        } else {
            Err(Error::OutOfBounds(address))
        }
    }

    /// The big-endian word at `address`: the byte there is the high byte and
    /// the byte at `address + 1` the low byte. The error names the first
    /// address out of range.
    pub fn read_word(&self, address: u32) -> (r: Result<u16, Error>)
        requires
            self.wf(),
        ensures
            address as int + 1 < self.size ==> (r matches Ok(w) && w as int == word(
                self@[address as int],
                self@[address as int + 1],
            )),
            address >= self.size ==> r == Err::<u16, Error>(Error::OutOfBounds(address)),
            address < self.size && address as int + 1 >= self.size ==> r == Err::<u16, Error>(
                Error::OutOfBounds((address + 1) as u32),
            ),
    {
        let hi = match self.read(address) {
            Ok(b) => b,
            Err(e) => return Err(e),
        };
        let lo = match self.read(address + 1) {
            Ok(b) => b,
            Err(e) => return Err(e),
        };
        Ok(hi as u16 * 256 + lo as u16)
    }

    /// Stores `value` big-endian at `address` and `address + 1`. Either both
    /// bytes are written or, on `OutOfBounds`, neither.
    pub fn write_word(&mut self, address: u32, value: u16) -> (r: Result<(), Error>)
        requires
            old(self).wf(),
        ensures
            final(self).wf(),
            final(self).size == old(self).size,
            address as int + 1 < old(self).size ==> r is Ok && final(self)@ == old(self)@.update(
                address as int,
                (value / 256) as u8,
            ).update(address as int + 1, (value % 256) as u8),
            address >= old(self).size ==> r == Err::<(), Error>(Error::OutOfBounds(address))
                && final(self)@ == old(self)@,
            address < old(self).size && address as int + 1 >= old(self).size ==> r == Err::<
                (),
                Error,
            >(Error::OutOfBounds((address + 1) as u32)) && final(self)@ == old(self)@,
    {
        if address >= self.size {
            return Err(Error::OutOfBounds(address));
        }
        if address + 1 >= self.size {
            return Err(Error::OutOfBounds(address + 1));
        }
        let hi = (value / 256) as u8;
        let lo = (value % 256) as u8;
        let _ = self.write(address, hi);
        let _ = self.write(address + 1, lo);
        Ok(())
    }
}

/// A word written at an address reads back unchanged, and the bytes around
/// it keep their values.
pub proof fn lemma_word_round_trip(m: Seq<u8>, address: int, value: u16)
    requires
        0 <= address,
        address + 1 < m.len(),
    ensures
        ({
            let n = m.update(address, (value / 256) as u8).update(address + 1, (value % 256) as u8);
            &&& word(n[address], n[address + 1]) == value as int
            &&& forall|k: int| 0 <= k < m.len() && k != address && k != address + 1 ==> n[k] == m[k]
        }),
{
}

} // verus!
