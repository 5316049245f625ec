//! RTP header-extension parsing: the one-byte and the two-byte element
//! layouts.  Both walk a raw extension buffer and yield `(id, data)` pairs;
//! a broken element header ends the walk.
use vstd::prelude::*;

verus! {

/// The `(id, data)` pairs that the one-byte layout yields from `buf`,
/// starting at offset `i`: zero bytes are padding; any other byte holds the
/// element id in its upper four bits and the data length (less one) in its
/// lower four; a length that runs past the buffer ends the walk.
pub open spec fn one_byte_entries(buf: Seq<u8>, i: int) -> Seq<(u8, Seq<u8>)>
    decreases buf.len() - i,
{
    if i < 0 || i >= buf.len() {
        Seq::empty()
    } else if buf[i] == 0 {
        one_byte_entries(buf, i + 1)
    } else {
        let info = buf[i];
        let l = (info & 0xf) as int;
        let id = info >> 4;
        if i + 2 + l > buf.len() {
            Seq::empty()
        } else {
            seq![(id, buf.subrange(i + 1, i + 2 + l))] + one_byte_entries(buf, i + l + 2)
        }
    }
}

/// The `(id, data)` pairs that the two-byte layout yields from `buf`,
/// starting at offset `i`: zero bytes are padding; otherwise one byte of id
/// is followed by one byte of length and the data.
pub open spec fn two_byte_entries(buf: Seq<u8>, i: int) -> Seq<(u8, Seq<u8>)>
    decreases buf.len() - i,
{
    if i < 0 || i + 1 >= buf.len() {
        Seq::empty()
    } else if buf[i] == 0 {
        two_byte_entries(buf, i + 1)
    } else {
        let id = buf[i];
        let l = buf[i + 1] as int;
        if i + 3 + l > buf.len() {
            Seq::empty()
        } else {
            seq![(id, buf.subrange(i + 2, i + 3 + l))] + two_byte_entries(buf, i + l + 3)
        }
    }
}

/// The data of the first entry with the given id, if any.
pub open spec fn lookup_entry(entries: Seq<(u8, Seq<u8>)>, id: u8) -> Option<Seq<u8>>
    decreases entries.len(),
{
    if entries.len() == 0 {
        None
    } else if entries[0].0 == id {
        Some(entries[0].1)
    } else {
        lookup_entry(entries.drop_first(), id)
    }
}

/// Anything that maps extension-element ids to their raw data.
pub trait GeneralExtension<'a> {
    /// The `(id, data)` pairs this extension buffer holds, in order.
    spec fn entries(&self) -> Seq<(u8, Seq<u8>)>;

    /// The data of the first element with the given id, if any.
    fn value(&self, id: u8) -> (r: Option<&'a [u8]>)
        ensures
            (match r {
                Some(data) => lookup_entry(self.entries(), id) == Some(data@),
                None => lookup_entry(self.entries(), id) is None,
            }),
    ;
}

/// An extension buffer in the one-byte-header layout.
pub struct OneByteExtension<'a> {
    ext_buffer: &'a [u8],
}

impl<'a> OneByteExtension<'a> {
    /// The entries of this buffer.
    pub closed spec fn spec_entries(self) -> Seq<(u8, Seq<u8>)> {
        one_byte_entries(self.ext_buffer@, 0)
    }

    /// Wraps a raw one-byte-layout extension buffer.
    pub fn new(extension: &'a [u8]) -> (r: OneByteExtension<'a>)
        ensures
            r.spec_entries() == one_byte_entries(extension@, 0),
    {
        OneByteExtension { ext_buffer: extension }
    }

    /// A walker over the buffer's entries.
    pub fn iter(&self) -> (r: OneByteExtensionIterator<'a>)
        ensures
            r.remaining() == self.spec_entries(),
    {
        OneByteExtensionIterator { ext_buffer: self.ext_buffer, index: 0 }
    }
}

impl<'a> GeneralExtension<'a> for OneByteExtension<'a> {
    open spec fn entries(&self) -> Seq<(u8, Seq<u8>)> {
        self.spec_entries()
    }

    fn value(&self, id: u8) -> (r: Option<&'a [u8]>) {
        let mut it = self.iter();
        lookup_in_one_byte_iterator(&mut it, id)
    }
}

/// Walks the entries of a one-byte-layout buffer.
pub struct OneByteExtensionIterator<'a> {
    ext_buffer: &'a [u8],
    index: usize,
}

impl<'a> OneByteExtensionIterator<'a> {
    /// The entries not yet yielded.
    pub closed spec fn remaining(self) -> Seq<(u8, Seq<u8>)> {
        one_byte_entries(self.ext_buffer@, self.index as int)
    }

    /// Yields the next `(id, data)` entry, or `None` once the buffer is
    /// exhausted or its remainder is broken.
    pub fn next(&mut self) -> (r: Option<(u8, &'a [u8])>)
        ensures
            (match r {
                Some(entry) => old(self).remaining().len() > 0 && (entry.0, entry.1@) == old(
                    self,
                ).remaining()[0] && final(self).remaining() == old(self).remaining().drop_first(),
                None => old(self).remaining().len() == 0 && final(self).remaining().len() == 0,
            }),
    {
        while self.index < self.ext_buffer.len() && self.ext_buffer[self.index] == 0
            invariant
                self.ext_buffer == old(self).ext_buffer,
                one_byte_entries(self.ext_buffer@, self.index as int) == old(self).remaining(),
            decreases self.ext_buffer@.len() - self.index,
        {
            self.index = self.index + 1;
        }

        if self.index >= self.ext_buffer.len() {
            return None;
        }

        let info = self.ext_buffer[self.index];
        let length = (info & 0xf) as usize;
        let id = info >> 4;
        if 2 + length > self.ext_buffer.len() - self.index {
            return None;
        }

        let data = &self.ext_buffer[(self.index + 1)..(self.index + 2 + length)];
        self.index = self.index + length + 2;
        Some((id, data))
    }
}

/// An extension buffer in the two-byte-header layout.
pub struct TwoByteExtension<'a> {
    ext_buffer: &'a [u8],
}

impl<'a> TwoByteExtension<'a> {
    /// The entries of this buffer.
    pub closed spec fn spec_entries(self) -> Seq<(u8, Seq<u8>)> {
        two_byte_entries(self.ext_buffer@, 0)
    }

    /// Wraps a raw two-byte-layout extension buffer.
    pub fn new(extension: &'a [u8]) -> (r: TwoByteExtension<'a>)
        ensures
            r.spec_entries() == two_byte_entries(extension@, 0),
    {
        TwoByteExtension { ext_buffer: extension }
    }

    /// A walker over the buffer's entries.
    pub fn iter(&self) -> (r: TwoByteExtensionIterator<'a>)
        ensures
            r.remaining() == self.spec_entries(),
    {
        TwoByteExtensionIterator { ext_buffer: self.ext_buffer, index: 0 }
    }
}

impl<'a> GeneralExtension<'a> for TwoByteExtension<'a> {
    open spec fn entries(&self) -> Seq<(u8, Seq<u8>)> {
        self.spec_entries()
    }

    fn value(&self, id: u8) -> (r: Option<&'a [u8]>) {
        let mut it = self.iter();
        lookup_in_two_byte_iterator(&mut it, id)
    }
}

/// Walks the entries of a two-byte-layout buffer.
pub struct TwoByteExtensionIterator<'a> {
    ext_buffer: &'a [u8],
    index: usize,
}

impl<'a> TwoByteExtensionIterator<'a> {
    /// The entries not yet yielded.
    pub closed spec fn remaining(self) -> Seq<(u8, Seq<u8>)> {
        two_byte_entries(self.ext_buffer@, self.index as int)
    }

    /// Yields the next `(id, data)` entry, or `None` once the buffer is
    /// exhausted or its remainder is broken.
    pub fn next(&mut self) -> (r: Option<(u8, &'a [u8])>)
        ensures
            (match r {
                Some(entry) => old(self).remaining().len() > 0 && (entry.0, entry.1@) == old(
                    self,
                ).remaining()[0] && final(self).remaining() == old(self).remaining().drop_first(),
                None => old(self).remaining().len() == 0 && final(self).remaining().len() == 0,
            }),
    {
        while self.index < self.ext_buffer.len() && self.ext_buffer[self.index] == 0
            invariant
                self.ext_buffer == old(self).ext_buffer,
                two_byte_entries(self.ext_buffer@, self.index as int) == old(self).remaining(),
            decreases self.ext_buffer@.len() - self.index,
        {
            self.index = self.index + 1;
        }

        if self.index >= self.ext_buffer.len() || self.index + 1 >= self.ext_buffer.len() {
            return None;
        }

        let id = self.ext_buffer[self.index];
        let length = self.ext_buffer[self.index + 1] as usize;
        if 3 + length > self.ext_buffer.len() - self.index {
            return None;
        }

        let data = &self.ext_buffer[(self.index + 2)..(self.index + 3 + length)];
        self.index = self.index + length + 3;
        Some((id, data))
    }
}

/// Drains a one-byte-layout walker looking for the first entry with the
/// given id.
fn lookup_in_one_byte_iterator<'a>(it: &mut OneByteExtensionIterator<'a>, id: u8) -> (r: Option<
    &'a [u8],
>)
    ensures
        (match r {
            Some(data) => lookup_entry(old(it).remaining(), id) == Some(data@),
            None => lookup_entry(old(it).remaining(), id) is None,
        }),
{
    loop
        invariant
            lookup_entry(it.remaining(), id) == lookup_entry(old(it).remaining(), id),
        decreases it.remaining().len(),
    {
        match it.next() {
            None => {
                return None;
            },
            Some(entry) => {
                if entry.0 == id {
                    return Some(entry.1);
                }
            },
        }
    }
}

/// Drains a two-byte-layout walker looking for the first entry with the
/// given id.
fn lookup_in_two_byte_iterator<'a>(it: &mut TwoByteExtensionIterator<'a>, id: u8) -> (r: Option<
    &'a [u8],
>)
    ensures
        (match r {
            Some(data) => lookup_entry(old(it).remaining(), id) == Some(data@),
            None => lookup_entry(old(it).remaining(), id) is None,
        }),
{
    loop
        invariant
            lookup_entry(it.remaining(), id) == lookup_entry(old(it).remaining(), id),
        decreases it.remaining().len(),
    {
        match it.next() {
            None => {
                return None;
            },
            Some(entry) => {
                if entry.0 == id {
                    return Some(entry.1);
                }
            },
        }
    }
}

} // verus!
