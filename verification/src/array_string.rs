//! A short UTF-8 text that fits in a fixed capacity.
use vstd::prelude::*;
use vstd::utf8::valid_utf8;
use vstd::string::StringSliceAdditionalSpecFns;
use crate::utf8::{str_from_utf8, lemma_valid_utf8_concat, lemma_str_valid_utf8};

verus! {

/// UTF-8 text of at most `CAP` bytes, its length kept as a `Len`.
pub struct ArrayString<Len, const CAP: usize> {
    len: Len,
    bytes: Vec<u8>,
}

/// The text did not fit.
#[derive(Debug, Clone, Copy, PartialEq, Eq, Structural)]
pub struct CapacityError;

impl<const CAP: usize> View for ArrayString<u8, CAP> {
    type V = Seq<u8>;

    closed spec fn view(&self) -> Seq<u8> {
        self.bytes@
    }
}

impl<const CAP: usize> ArrayString<u8, CAP> {
    /// The length is that of the text, the text fits and is UTF-8, and the
    /// capacity fits in a `u8`.
    pub closed spec fn wf(&self) -> bool {
        &&& self.len as int == self.bytes@.len()
        &&& self.bytes@.len() <= CAP
        &&& CAP <= 255
        &&& valid_utf8(self.bytes@)
    }

    /// The empty text.
    pub fn new() -> (r: Self)
        requires
            CAP <= 255,
        ensures
            r.wf(),
            r@ == Seq::<u8>::empty(),
    {
        let r = ArrayString { len: 0, bytes: Vec::new() };
        assert(valid_utf8(r.bytes@)) by {
            lemma_str_valid_utf8("");
            assert(r.bytes@ =~= "".spec_bytes()) by {
                reveal_strlit("");
            }
        }
        r
    }

    /// The number of bytes.
    pub fn len(&self) -> (r: usize)
        requires
            self.wf(),
        ensures
            r == self@.len(),
    {
        self.len as usize
    }

    /// There is no text.
    pub fn is_empty(&self) -> (r: bool)
        requires
            self.wf(),
        ensures
            r == (self@.len() == 0),
    {
        self.len == 0
    }

    /// The bytes of the text.
    pub fn as_bytes(&self) -> (r: &[u8])
        requires
            self.wf(),
        ensures
            r@ == self@,
    {
        self.bytes.as_slice()
    }

    /// The text.
    pub fn as_str(&self) -> (r: &str)
        requires
            self.wf(),
        ensures
            r.spec_bytes() == self@,
    {
        str_from_utf8(self.bytes.as_slice()).unwrap()
    }

    /// Takes the bytes of the text when there is any, leaving it empty.
    pub fn take_non_empty_str(&mut self) -> (r: Option<Vec<u8>>)
        requires
            old(self).wf(),
        ensures
            final(self).wf(),
            old(self)@.len() == 0 ==> r is None && final(self)@ == old(self)@,
            old(self)@.len() > 0 ==> (r matches Some(b) && b@ == old(self)@) && final(self)@.len()
                == 0,
    {
        if self.len == 0 {
            return None;
        }
        let mut b: Vec<u8> = Vec::new();
        std::mem::swap(&mut b, &mut self.bytes);
        self.len = 0;
        assert(valid_utf8(self.bytes@)) by {
            lemma_str_valid_utf8("");
            assert(self.bytes@ =~= "".spec_bytes()) by {
                reveal_strlit("");
            }
        }
        Some(b)
    }

    /// The text of `v`, which fits.
    pub fn from_str(v: &str) -> (r: Self)
        requires
            CAP <= 255,
            v.spec_bytes().len() <= CAP,
        ensures
            r.wf(),
            r@ == v.spec_bytes(),
    {
        let src = v.as_bytes();
        let mut bytes: Vec<u8> = Vec::new();
        let mut i: usize = 0;
        while i < src.len()
            invariant
                i <= src@.len(),
                bytes@ == src@.subrange(0, i as int),
            decreases src@.len() - i,
        {
            bytes.push(src[i]);
            i = i + 1;
            assert(bytes@ =~= src@.subrange(0, i as int));
        }
        assert(bytes@ =~= src@);
        proof {
            lemma_str_valid_utf8(v);
        }
        ArrayString { len: src.len() as u8, bytes }
    }

    /// Empties the text.
    pub fn clear(&mut self)
        requires
            old(self).wf(),
        ensures
            final(self).wf(),
            final(self)@.len() == 0,
    {
        self.len = 0;
        self.bytes = Vec::new();
        assert(valid_utf8(self.bytes@)) by {
            lemma_str_valid_utf8("");
            assert(self.bytes@ =~= "".spec_bytes()) by {
                reveal_strlit("");
            }
        }
    }

    /// Appends `s` when it fits; else the text is left as it is.
    pub fn write_str(&mut self, s: &str) -> (r: Result<(), CapacityError>)
        requires
            old(self).wf(),
        ensures
            final(self).wf(),
            old(self)@.len() + s.spec_bytes().len() <= CAP ==> r is Ok && final(self)@ == old(
                self,
            )@ + s.spec_bytes(),
            old(self)@.len() + s.spec_bytes().len() > CAP ==> r is Err && final(self)@ == old(
                self,
            )@,
    {
        let src = s.as_bytes();
        if src.len() > CAP - self.bytes.len() {
            return Err(CapacityError);
        }
        let ghost before = self.bytes@;
        let mut i: usize = 0;
        while i < src.len()
            invariant
                i <= src@.len(),
                self.bytes@ == before + src@.subrange(0, i as int),
            decreases src@.len() - i,
        {
            self.bytes.push(src[i]);
            i = i + 1;
            assert(self.bytes@ =~= before + src@.subrange(0, i as int));
        }
        assert(src@.subrange(0, src@.len() as int) =~= src@);
        proof {
            lemma_str_valid_utf8(s);
            lemma_valid_utf8_concat(before, src@);
        }
        self.len = self.bytes.len() as u8;
        Ok(())
    }
}

} // verus!
