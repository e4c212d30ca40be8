//! The array handle, modeled as a value. The host runtime owns every real
//! array; this type holds, as plain values, exactly what the binding reads
//! and writes through the foreign accessors: the class tag, the dimension
//! sequence, and the flat element storage of the real and imaginary planes.
//! The unverified binding around the library converts between a foreign
//! handle and this model at the call boundary.
//!
//! One deliberate strengthening over the foreign interface: overwriting the
//! shape also resizes the element storage to the new element count (keeping
//! the old bytes as a prefix, zero-filling growth), so a view taken after
//! the mutation always has the new count. A view taken before a mutation is
//! an owned copy here, but it describes the old shape and must not be
//! treated as current.

use vstd::prelude::*;
use vstd::utf8::is_ascii_chars;
use crate::class_id::MxClassID;
use crate::data::{Data, DataMut, is_view_of, is_mut_view_of, view_of, mut_view_of,
    mut_view_shape_ok, bytes_of_mut_view};
use crate::dims::{numel_of, numel_checked};
use crate::text::string_from_host_buffer;

verus! {

/// A numeric-array value: the model of what a foreign array handle reaches.
pub struct Array {
    class: MxClassID,
    complex: bool,
    dims: Vec<usize>,
    real_store: Vec<u8>,
    imag_store: Vec<u8>,
}

/// `prefix` zero-extended or truncated to length `len`.
pub open spec fn resized_bytes(prefix: Seq<u8>, len: nat) -> Seq<u8> {
    Seq::new(len, |i: int| if i < prefix.len() { prefix[i] } else { 0 })
}

fn zero_bytes(len: usize) -> (v: Vec<u8>)
    ensures
        v@ == resized_bytes(Seq::<u8>::empty(), len as nat),
{
    let mut v: Vec<u8> = Vec::new();
    let mut i: usize = 0;
    while i < len
        invariant
            0 <= i <= len,
            v@.len() == i,
            forall|k: int| 0 <= k < i ==> v@[k] == 0,
        decreases len - i,
    {
        v.push(0);
        i = i + 1;
    }
    proof {
        assert(v@ =~= resized_bytes(Seq::<u8>::empty(), len as nat));
    }
    v
}

fn resize_zero(v: &mut Vec<u8>, len: usize)
    ensures
        final(v)@ == resized_bytes(old(v)@, len as nat),
{
    let n = v.len();
    let mut out: Vec<u8> = Vec::new();
    let mut i: usize = 0;
    while i < len
        invariant
            0 <= i <= len,
            n == v@.len(),
            v@ == old(v)@,
            out@.len() == i,
            forall|k: int|
                0 <= k < i ==> out@[k] == (if k < n {
                    v@[k]
                } else {
                    0u8
                }),
        decreases len - i,
    {
        if i < n {
            let b = v[i];
            out.push(b);
        } else {
            out.push(0);
        }
        i = i + 1;
    }
    *v = out;
    proof {
        assert(v@ =~= resized_bytes(old(v)@, len as nat));
    }
}

fn copy_usizes(src: &Vec<usize>) -> (v: Vec<usize>)
    ensures
        v@ == src@,
{
    let mut v: Vec<usize> = Vec::new();
    let mut i: usize = 0;
    let n = src.len();
    while i < n
        invariant
            0 <= i <= n,
            n == src@.len(),
            v@ == src@.take(i as int),
        decreases n - i,
    {
        v.push(src[i]);
        proof {
            assert(v@ =~= src@.take(i + 1));
        }
        i = i + 1;
    }
    proof {
        assert(src@.take(n as int) =~= src@);
    }
    v
}

fn copy_bytes(src: &Vec<u8>) -> (v: Vec<u8>)
    ensures
        v@ == src@,
{
    let mut v: Vec<u8> = Vec::new();
    let mut i: usize = 0;
    let n = src.len();
    while i < n
        invariant
            0 <= i <= n,
            n == src@.len(),
            v@ == src@.take(i as int),
        decreases n - i,
    {
        v.push(src[i]);
        proof {
            assert(v@ =~= src@.take(i + 1));
        }
        i = i + 1;
    }
    proof {
        assert(src@.take(n as int) =~= src@);
    }
    v
}

impl Array {
    /// The array's class tag.
    pub closed spec fn spec_class(self) -> MxClassID {
        self.class
    }

    /// Whether the array carries an imaginary plane.
    pub closed spec fn spec_is_complex(self) -> bool {
        self.complex
    }

    /// The array's dimension sequence.
    pub closed spec fn spec_dims(self) -> Seq<usize> {
        self.dims@
    }

    /// The flat element storage of the real plane.
    pub closed spec fn spec_real_bytes(self) -> Seq<u8> {
        self.real_store@
    }

    /// The flat element storage of the imaginary plane; empty when the
    /// array is not complex.
    pub closed spec fn spec_imag_bytes(self) -> Seq<u8> {
        self.imag_store@
    }

    /// The element count: the product of the dimensions.
    pub open spec fn spec_numel(self) -> nat {
        numel_of(self.spec_dims())
    }

    /// Well-formedness: the element count fits the machine's size type and
    /// each plane's storage is exactly the element count times the class's
    /// element width (the imaginary plane is empty unless the array is
    /// complex). Constructors establish it and every method keeps it.
    pub open spec fn wf(self) -> bool {
        &&& self.spec_numel() <= usize::MAX
        &&& self.spec_class().spec_element_size() * self.spec_numel() <= usize::MAX
        &&& self.spec_real_bytes().len() == self.spec_class().spec_element_size()
            * self.spec_numel()
        &&& self.spec_imag_bytes().len() == (if self.spec_is_complex() {
            self.spec_class().spec_element_size() * self.spec_numel()
        } else {
            0
        })
    }

    /// Create an array of the given shape and class, zero-filled, with an
    /// imaginary plane exactly when `complex` is set. Mirrors the host's
    /// array creation, whose result the host runtime owns; the model owns
    /// its own storage instead. The shape must describe storage that fits
    /// the machine's size type.
    pub fn new(dims: Vec<usize>, class: MxClassID, complex: bool) -> (a: Array)
        requires
            numel_of(dims@) <= usize::MAX,
            class.spec_element_size() * numel_of(dims@) <= usize::MAX,
        ensures
            a.wf(),
            a.spec_class() == class,
            a.spec_is_complex() == complex,
            a.spec_dims() == dims@,
            a.spec_real_bytes() == resized_bytes(
                Seq::<u8>::empty(),
                class.spec_element_size() * numel_of(dims@),
            ),
            a.spec_imag_bytes() == resized_bytes(
                Seq::<u8>::empty(),
                if complex {
                    class.spec_element_size() * numel_of(dims@)
                } else {
                    0
                },
            ),
    {
        let n = match numel_checked(&dims) {
            Some(n) => n,
            None => 0,
        };
        let esz = class.element_size();
        let nbytes = esz * n;
        let real_store = zero_bytes(nbytes);
        let imag_store = if complex {
            zero_bytes(nbytes)
        } else {
            zero_bytes(0)
        };
        Array { class, complex, dims, real_store, imag_store }
    }

    /// Adopt an array whose shape, class and raw plane contents are already
    /// known — the conversion point where the unverified binding hands a
    /// foreign array's state to the library. Succeeds exactly when the
    /// element count fits the machine's size type, the real plane holds one
    /// element width of bytes per element, and the imaginary plane does so
    /// exactly when `complex` is set and is empty otherwise.
    pub fn from_bytes(
        dims: Vec<usize>,
        class: MxClassID,
        complex: bool,
        real_plane: Vec<u8>,
        imag_plane: Vec<u8>,
    ) -> (r: Option<Array>)
        ensures
            match r {
                Some(a) => {
                    &&& a.wf()
                    &&& a.spec_class() == class
                    &&& a.spec_is_complex() == complex
                    &&& a.spec_dims() == dims@
                    &&& a.spec_real_bytes() == real_plane@
                    &&& a.spec_imag_bytes() == imag_plane@
                },
                None => !{
                    &&& numel_of(dims@) <= usize::MAX
                    &&& class.spec_element_size() * numel_of(dims@) <= usize::MAX
                    &&& real_plane@.len() == class.spec_element_size() * numel_of(dims@)
                    &&& imag_plane@.len() == (if complex {
                        class.spec_element_size() * numel_of(dims@)
                    } else {
                        0
                    })
                },
            },
            r is Some <==> {
                &&& numel_of(dims@) <= usize::MAX
                &&& class.spec_element_size() * numel_of(dims@) <= usize::MAX
                &&& real_plane@.len() == class.spec_element_size() * numel_of(dims@)
                &&& imag_plane@.len() == (if complex {
                    class.spec_element_size() * numel_of(dims@)
                } else {
                    0
                })
            },
    {
        let n = match numel_checked(&dims) {
            Some(n) => n,
            None => {
                return None;
            },
        };
        let esz = class.element_size();
        let nbytes = match esz.checked_mul(n) {
            Some(b) => b,
            None => {
                return None;
            },
        };
        if real_plane.len() != nbytes {
            return None;
        }
        if complex {
            if imag_plane.len() != nbytes {
                return None;
            }
        } else {
            if imag_plane.len() != 0 {
                return None;
            }
        }
        Some(Array { class, complex, dims, real_store: real_plane, imag_store: imag_plane })
    }

    /// The array's live class tag. Total: every handle has a class.
    pub fn get_class(&self) -> (c: MxClassID)
        ensures
            c == self.spec_class(),
    {
        self.class
    }

    /// Whether the array carries an imaginary plane.
    pub fn is_complex(&self) -> (b: bool)
        ensures
            b == self.spec_is_complex(),
    {
        self.complex
    }

    /// The array's current dimension sequence, in order.
    pub fn get_dimensions(&self) -> (d: Vec<usize>)
        ensures
            d@ == self.spec_dims(),
    {
        copy_usizes(&self.dims)
    }

    /// Overwrite the array's shape. The element storage of each present
    /// plane is resized to the new element count — old bytes kept as a
    /// prefix, growth zero-filled — so any view taken afterwards has the
    /// new count; a view taken before describes the old shape and is stale.
    pub fn set_dimensions(&mut self, dims: Vec<usize>)
        requires
            old(self).wf(),
            numel_of(dims@) <= usize::MAX,
            old(self).spec_class().spec_element_size() * numel_of(dims@) <= usize::MAX,
        ensures
            final(self).wf(),
            final(self).spec_class() == old(self).spec_class(),
            final(self).spec_is_complex() == old(self).spec_is_complex(),
            final(self).spec_dims() == dims@,
            final(self).spec_real_bytes() == resized_bytes(
                old(self).spec_real_bytes(),
                old(self).spec_class().spec_element_size() * numel_of(dims@),
            ),
            final(self).spec_imag_bytes() == resized_bytes(
                old(self).spec_imag_bytes(),
                if old(self).spec_is_complex() {
                    old(self).spec_class().spec_element_size() * numel_of(dims@)
                } else {
                    0
                },
            ),
    {
        let n = match numel_checked(&dims) {
            Some(n) => n,
            None => 0,
        };
        let esz = self.class.element_size();
        let nbytes = esz * n;
        resize_zero(&mut self.real_store, nbytes);
        if self.complex {
            resize_zero(&mut self.imag_store, nbytes);
        } else {
            proof {
                assert(self.imag_store@ =~= resized_bytes(self.imag_store@, 0));
            }
        }
        self.dims = dims;
    }

    /// A read view of the real plane, typed by the array's class and sized
    /// to the product of the current dimensions; `NotNumeric` for the
    /// classes without a flat numeric buffer.
    pub fn real_data(&self) -> (d: Data)
        requires
            self.wf(),
        ensures
            is_view_of(d, self.spec_class(), self.spec_real_bytes(), self.spec_numel()),
    {
        let n = match numel_checked(&self.dims) {
            Some(n) => n,
            None => 0,
        };
        view_of(self.class, &self.real_store, n)
    }

    /// A read view of the imaginary plane. The foreign interface leaves
    /// reading an absent plane undefined, so the array must be complex.
    pub fn imag_data(&self) -> (d: Data)
        requires
            self.wf(),
            self.spec_is_complex(),
        ensures
            is_view_of(d, self.spec_class(), self.spec_imag_bytes(), self.spec_numel()),
    {
        let n = match numel_checked(&self.dims) {
            Some(n) => n,
            None => 0,
        };
        view_of(self.class, &self.imag_store, n)
    }

    /// A write view of the real plane, holding the current element values;
    /// store it back with `write_real_data`. The array itself is unchanged.
    pub fn real_data_mut(&mut self) -> (d: DataMut)
        requires
            old(self).wf(),
        ensures
            *final(self) == *old(self),
            is_mut_view_of(d, old(self).spec_class(), old(self).spec_real_bytes(),
                old(self).spec_numel()),
    {
        let n = match numel_checked(&self.dims) {
            Some(n) => n,
            None => 0,
        };
        mut_view_of(self.class, &self.real_store, n)
    }

    /// Store a write view into the real plane. Succeeds — and then replaces
    /// the plane's storage so that reading it back gives the view, element
    /// for element — exactly when the view's variant matches the array's
    /// class and its length is the element count; otherwise nothing changes.
    pub fn write_real_data(&mut self, d: &DataMut) -> (ok: bool)
        requires
            old(self).wf(),
        ensures
            final(self).wf(),
            final(self).spec_class() == old(self).spec_class(),
            final(self).spec_is_complex() == old(self).spec_is_complex(),
            final(self).spec_dims() == old(self).spec_dims(),
            final(self).spec_imag_bytes() == old(self).spec_imag_bytes(),
            ok <==> mut_view_shape_ok(*d, old(self).spec_class(), old(self).spec_numel()),
            ok ==> is_mut_view_of(
                *d,
                final(self).spec_class(),
                final(self).spec_real_bytes(),
                final(self).spec_numel(),
            ),
            !ok ==> final(self).spec_real_bytes() == old(self).spec_real_bytes(),
    {
        let n = match numel_checked(&self.dims) {
            Some(n) => n,
            None => 0,
        };
        match bytes_of_mut_view(self.class, d, n) {
            Some(bytes) => {
                self.real_store = bytes;
                true
            },
            None => false,
        }
    }

    /// Store a write view into the imaginary plane; the array must be
    /// complex. Succeeds under the same conditions as `write_real_data`.
    pub fn write_imag_data(&mut self, d: &DataMut) -> (ok: bool)
        requires
            old(self).wf(),
            old(self).spec_is_complex(),
        ensures
            final(self).wf(),
            final(self).spec_class() == old(self).spec_class(),
            final(self).spec_is_complex() == old(self).spec_is_complex(),
            final(self).spec_dims() == old(self).spec_dims(),
            final(self).spec_real_bytes() == old(self).spec_real_bytes(),
            ok <==> mut_view_shape_ok(*d, old(self).spec_class(), old(self).spec_numel()),
            ok ==> is_mut_view_of(
                *d,
                final(self).spec_class(),
                final(self).spec_imag_bytes(),
                final(self).spec_numel(),
            ),
            !ok ==> final(self).spec_imag_bytes() == old(self).spec_imag_bytes(),
    {
        let n = match numel_checked(&self.dims) {
            Some(n) => n,
            None => 0,
        };
        match bytes_of_mut_view(self.class, d, n) {
            Some(bytes) => {
                self.imag_store = bytes;
                true
            },
            None => false,
        }
    }

    /// Create a character-class array holding the given seven-bit text:
    /// one row, one element per character, one stored byte per element.
    pub fn new_string(text: &str) -> (a: Array)
        requires
            is_ascii_chars(text@),
        ensures
            a.wf(),
            a.spec_class() == MxClassID::Char,
            !a.spec_is_complex(),
            a.spec_dims().len() == 2,
            a.spec_dims()[0] == 1,
            a.spec_dims()[1] == text@.len(),
            a.spec_numel() == text@.len(),
            a.spec_real_bytes().len() == text@.len(),
            forall|i: int|
                0 <= i < text@.len() ==> a.spec_real_bytes()[i] < 128,
            forall|i: int|
                0 <= i < text@.len() ==> a.spec_real_bytes()[i] as u32 == text@[i] as u32,
    {
        proof {
            vstd::string::is_ascii_spec_bytes(text);
        }
        let bytes = text.as_bytes();
        let n = bytes.len();
        let mut storage: Vec<u8> = Vec::new();
        let mut i: usize = 0;
        while i < n
            invariant
                0 <= i <= n,
                n == bytes@.len(),
                storage@ == bytes@.take(i as int),
            decreases n - i,
        {
            storage.push(bytes[i]);
            proof {
                assert(storage@ =~= bytes@.take(i + 1));
            }
            i = i + 1;
        }
        proof {
            assert(bytes@.take(n as int) =~= bytes@);
        }
        let mut dims: Vec<usize> = Vec::new();
        dims.push(1);
        dims.push(n);
        proof {
            reveal_with_fuel(numel_of, 3);
            let ghost s1 = seq![1usize];
            let ghost s0 = Seq::<usize>::empty();
            assert(s1.len() == 1);
            assert(s1[0] == 1usize);
            assert(s1.last() == 1usize);
            assert(s1.drop_last() =~= s0);
            assert(numel_of(s0) == 1);
            assert(numel_of(s1) == numel_of(s1.drop_last()) * (s1.last() as nat));
            assert(numel_of(s1) == 1);
            assert(dims@.drop_last() =~= s1);
            assert(dims@.last() == n);
            assert(numel_of(dims@) == numel_of(dims@.drop_last()) * (dims@.last() as nat));
            assert(numel_of(dims@) == n);
            assert forall|i: int| 0 <= i < text@.len() implies storage@[i] < 128
                && storage@[i] as u32 == text@[i] as u32 by {
                assert(text@[i] <= '\u{7f}');
                assert(storage@[i] == text@[i] as u8);
            }
        }
        Array {
            class: MxClassID::Char,
            complex: false,
            dims,
            real_store: storage,
            imag_store: Vec::new(),
        }
    }

    /// The text a character-class array holds. The buffer handed to the
    /// foreign extractor is one element larger than the element count — the
    /// extractor writes a terminator after the text — and the terminator is
    /// stripped from the result: the text comes back whole, with nothing
    /// appended. The foreign interface leaves extraction from any other
    /// class undefined, so the class must be character; the model covers
    /// seven-bit text.
    pub fn as_string(&self) -> (s: String)
        requires
            self.wf(),
            self.spec_class() == MxClassID::Char,
            forall|i: int|
                0 <= i < self.spec_real_bytes().len() ==> self.spec_real_bytes()[i] < 128,
        ensures
            s@.len() == self.spec_numel(),
            forall|i: int|
                0 <= i < self.spec_numel() ==> s@[i] as u32 == self.spec_real_bytes()[i] as u32,
    {
        let mut buf = copy_bytes(&self.real_store);
        buf.push(0);
        string_from_host_buffer(buf)
    }

    /// A write view of the imaginary plane; the array must be complex.
    pub fn imag_data_mut(&mut self) -> (d: DataMut)
        requires
            old(self).wf(),
            old(self).spec_is_complex(),
        ensures
            *final(self) == *old(self),
            is_mut_view_of(d, old(self).spec_class(), old(self).spec_imag_bytes(),
                old(self).spec_numel()),
    {
        let n = match numel_checked(&self.dims) {
            Some(n) => n,
            None => 0,
        };
        mut_view_of(self.class, &self.imag_store, n)
    }
}

} // verus!
