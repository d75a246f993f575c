//! The fixed-capacity collections of the `heapless` crate, which hold their
//! items in place and take no heap.

use vstd::prelude::*;
use vstd::utf8::encode_utf8;
use crate::pci::PciDevice;

verus! {

/// A vector of at most `N` items, held in place.
#[verifier::external_type_specification]
#[verifier::external_body]
#[verifier::reject_recursive_types(T)]
pub struct ExInlineVec<T, const N: usize>(heapless::Vec<T, N>);

/// A string of at most `N` bytes, held in place.
#[verifier::external_type_specification]
#[verifier::external_body]
pub struct ExInlineString<const N: usize>(heapless::String<N>);

/// The characters of a string of at most 16 bytes.
pub uninterp spec fn text16(s: heapless::String<16>) -> Seq<char>;

/// The characters of a string of at most 24 bytes.
pub uninterp spec fn text24(s: heapless::String<24>) -> Seq<char>;

/// The characters of a string of at most 64 bytes.
pub uninterp spec fn text64(s: heapless::String<64>) -> Seq<char>;

/// The characters of a string of at most 96 bytes.
pub uninterp spec fn text96(s: heapless::String<96>) -> Seq<char>;

/// The characters of a string of at most 128 bytes.
pub uninterp spec fn text128(s: heapless::String<128>) -> Seq<char>;

/// The characters of a string of at most 160 bytes.
pub uninterp spec fn text160(s: heapless::String<160>) -> Seq<char>;

/// The characters of a string of at most 200 bytes.
pub uninterp spec fn text200(s: heapless::String<200>) -> Seq<char>;

/// The items of a vector of at most 6 bytes.
pub uninterp spec fn keys6(v: heapless::Vec<u8, 6>) -> Seq<u8>;

/// The items of a vector of at most 64 PCI functions.
pub uninterp spec fn devices64(v: heapless::Vec<PciDevice, 64>) -> Seq<PciDevice>;

/// The items of a vector of at most 8 PCI functions.
pub uninterp spec fn devices8(v: heapless::Vec<PciDevice, 8>) -> Seq<PciDevice>;

/// The items of a vector of at most 48 address windows.
pub uninterp spec fn windows48(v: heapless::Vec<(u64, u64), 48>) -> Seq<(u64, u64)>;

/// `heapless::String::new`: an empty string.
#[verifier::external_body]
pub(crate) fn text16_new() -> (r: heapless::String<16>)
    ensures
        text16(r) == Seq::<char>::empty(),
{
    heapless::String::new()
}

/// `heapless::String::push_str`: appends `t` if the bytes fit; otherwise the
/// string stays as it is and the call says so.
#[verifier::external_body]
pub(crate) fn text16_push_str(s: &mut heapless::String<16>, t: &str) -> (r: bool)
    ensures
        r == (encode_utf8(text16(*old(s))).len() + encode_utf8(t@).len() <= 16),
        text16(*final(s)) == if r { text16(*old(s)) + t@ } else { text16(*old(s)) },
{
    s.push_str(t).is_ok()
}

/// `heapless::String::as_str`: the whole string.
#[verifier::external_body]
pub(crate) fn text16_str(s: &heapless::String<16>) -> (r: &str)
    ensures
        r@ == text16(*s),
{
    s.as_str()
}

/// `heapless::String::new`: an empty string.
#[verifier::external_body]
pub(crate) fn text24_new() -> (r: heapless::String<24>)
    ensures
        text24(r) == Seq::<char>::empty(),
{
    heapless::String::new()
}

/// `heapless::String::push`: appends `c` if its bytes fit; otherwise the
/// string stays as it is and the call says so.
#[verifier::external_body]
pub(crate) fn text24_push(s: &mut heapless::String<24>, c: char) -> (r: bool)
    ensures
        r == (encode_utf8(text24(*old(s))).len() + encode_utf8(seq![c]).len() <= 24),
        text24(*final(s)) == if r { text24(*old(s)).push(c) } else { text24(*old(s)) },
{
    s.push(c).is_ok()
}

/// `heapless::String::as_str`: the whole string.
#[verifier::external_body]
pub(crate) fn text24_str(s: &heapless::String<24>) -> (r: &str)
    ensures
        r@ == text24(*s),
{
    s.as_str()
}

/// `heapless::String::new`: an empty string.
#[verifier::external_body]
pub(crate) fn text64_new() -> (r: heapless::String<64>)
    ensures
        text64(r) == Seq::<char>::empty(),
{
    heapless::String::new()
}

/// `heapless::String::push`: appends `c` if its bytes fit; otherwise the
/// string stays as it is and the call says so.
#[verifier::external_body]
pub(crate) fn text64_push(s: &mut heapless::String<64>, c: char) -> (r: bool)
    ensures
        r == (encode_utf8(text64(*old(s))).len() + encode_utf8(seq![c]).len() <= 64),
        text64(*final(s)) == if r { text64(*old(s)).push(c) } else { text64(*old(s)) },
{
    s.push(c).is_ok()
}

/// `heapless::String::as_str`: the whole string.
#[verifier::external_body]
pub(crate) fn text64_str(s: &heapless::String<64>) -> (r: &str)
    ensures
        r@ == text64(*s),
{
    s.as_str()
}

/// `heapless::String::push_str`: appends `t` if the bytes fit; otherwise the
/// string stays as it is and the call says so.
#[verifier::external_body]
pub(crate) fn text64_push_str(s: &mut heapless::String<64>, t: &str) -> (r: bool)
    ensures
        r == (encode_utf8(text64(*old(s))).len() + encode_utf8(t@).len() <= 64),
        text64(*final(s)) == if r { text64(*old(s)) + t@ } else { text64(*old(s)) },
{
    s.push_str(t).is_ok()
}

/// `heapless::String::new`: an empty string.
#[verifier::external_body]
pub(crate) fn text96_new() -> (r: heapless::String<96>)
    ensures
        text96(r) == Seq::<char>::empty(),
{
    heapless::String::new()
}

/// `heapless::String::push_str`: appends `t` if the bytes fit; otherwise the
/// string stays as it is and the call says so.
#[verifier::external_body]
pub(crate) fn text96_push_str(s: &mut heapless::String<96>, t: &str) -> (r: bool)
    ensures
        r == (encode_utf8(text96(*old(s))).len() + encode_utf8(t@).len() <= 96),
        text96(*final(s)) == if r { text96(*old(s)) + t@ } else { text96(*old(s)) },
{
    s.push_str(t).is_ok()
}

/// `heapless::String::as_str`: the whole string.
#[verifier::external_body]
pub(crate) fn text96_str(s: &heapless::String<96>) -> (r: &str)
    ensures
        r@ == text96(*s),
{
    s.as_str()
}

/// `heapless::String::new`: an empty string.
#[verifier::external_body]
pub(crate) fn text128_new() -> (r: heapless::String<128>)
    ensures
        text128(r) == Seq::<char>::empty(),
{
    heapless::String::new()
}

/// `heapless::String::push_str`: appends `t` if the bytes fit; otherwise the
/// string stays as it is and the call says so.
#[verifier::external_body]
pub(crate) fn text128_push_str(s: &mut heapless::String<128>, t: &str) -> (r: bool)
    ensures
        r == (encode_utf8(text128(*old(s))).len() + encode_utf8(t@).len() <= 128),
        text128(*final(s)) == if r { text128(*old(s)) + t@ } else { text128(*old(s)) },
{
    s.push_str(t).is_ok()
}

/// `heapless::String::as_str`: the whole string.
#[verifier::external_body]
pub(crate) fn text128_str(s: &heapless::String<128>) -> (r: &str)
    ensures
        r@ == text128(*s),
{
    s.as_str()
}

/// `heapless::String::new`: an empty string.
#[verifier::external_body]
pub(crate) fn text160_new() -> (r: heapless::String<160>)
    ensures
        text160(r) == Seq::<char>::empty(),
{
    heapless::String::new()
}

/// `heapless::String::push_str`: appends `t` if the bytes fit; otherwise the
/// string stays as it is and the call says so.
#[verifier::external_body]
pub(crate) fn text160_push_str(s: &mut heapless::String<160>, t: &str) -> (r: bool)
    ensures
        r == (encode_utf8(text160(*old(s))).len() + encode_utf8(t@).len() <= 160),
        text160(*final(s)) == if r { text160(*old(s)) + t@ } else { text160(*old(s)) },
{
    s.push_str(t).is_ok()
}

/// `heapless::String::as_str`: the whole string.
#[verifier::external_body]
pub(crate) fn text160_str(s: &heapless::String<160>) -> (r: &str)
    ensures
        r@ == text160(*s),
{
    s.as_str()
}

/// `heapless::String::new`: an empty string.
#[verifier::external_body]
pub(crate) fn text200_new() -> (r: heapless::String<200>)
    ensures
        text200(r) == Seq::<char>::empty(),
{
    heapless::String::new()
}

/// `heapless::String::push_str`: appends `t` if the bytes fit; otherwise the
/// string stays as it is and the call says so.
#[verifier::external_body]
pub(crate) fn text200_push_str(s: &mut heapless::String<200>, t: &str) -> (r: bool)
    ensures
        r == (encode_utf8(text200(*old(s))).len() + encode_utf8(t@).len() <= 200),
        text200(*final(s)) == if r { text200(*old(s)) + t@ } else { text200(*old(s)) },
{
    s.push_str(t).is_ok()
}

/// `heapless::String::as_str`: the whole string.
#[verifier::external_body]
pub(crate) fn text200_str(s: &heapless::String<200>) -> (r: &str)
    ensures
        r@ == text200(*s),
{
    s.as_str()
}

/// `heapless::Vec::new`: an empty vector.
#[verifier::external_body]
pub(crate) fn keys6_new() -> (r: heapless::Vec<u8, 6>)
    ensures
        keys6(r) == Seq::<u8>::empty(),
{
    heapless::Vec::new()
}

/// `heapless::Vec::push`: appends `k`, or gives it back where the vector is
/// full.
#[verifier::external_body]
pub(crate) fn keys6_push(v: &mut heapless::Vec<u8, 6>, k: u8) -> (r: Result<(), u8>)
    ensures
        r is Ok <==> keys6(*old(v)).len() < 6,
        r is Err ==> r->Err_0 == k,
        keys6(*final(v)) == if r is Ok { keys6(*old(v)).push(k) } else { keys6(*old(v)) },
{
    v.push(k)
}

/// `heapless::Vec::as_slice`: all items in order.
#[verifier::external_body]
pub(crate) fn keys6_slice(v: &heapless::Vec<u8, 6>) -> (r: &[u8])
    ensures
        r@ == keys6(*v),
{
    v.as_slice()
}

/// `heapless::Vec::new`: an empty vector.
#[verifier::external_body]
pub(crate) fn devices64_new() -> (r: heapless::Vec<PciDevice, 64>)
    ensures
        devices64(r) == Seq::<PciDevice>::empty(),
{
    heapless::Vec::new()
}

/// `heapless::Vec::push`: appends `d`, or gives it back where the vector is
/// full.
#[verifier::external_body]
pub(crate) fn devices64_push(v: &mut heapless::Vec<PciDevice, 64>, d: PciDevice) -> (r: Result<
    (),
    PciDevice,
>)
    ensures
        r is Ok <==> devices64(*old(v)).len() < 64,
        r is Err ==> r->Err_0 == d,
        devices64(*final(v)) == if r is Ok { devices64(*old(v)).push(d) } else { devices64(*old(v)) },
{
    v.push(d)
}

/// `heapless::Vec::as_slice`: all items in order.
#[verifier::external_body]
pub(crate) fn devices64_slice(v: &heapless::Vec<PciDevice, 64>) -> (r: &[PciDevice])
    ensures
        r@ == devices64(*v),
{
    v.as_slice()
}

/// `heapless::Vec::new`: an empty vector.
#[verifier::external_body]
pub(crate) fn devices8_new() -> (r: heapless::Vec<PciDevice, 8>)
    ensures
        devices8(r) == Seq::<PciDevice>::empty(),
{
    heapless::Vec::new()
}

/// `heapless::Vec::push`: appends `d`, or gives it back where the vector is
/// full.
#[verifier::external_body]
pub(crate) fn devices8_push(v: &mut heapless::Vec<PciDevice, 8>, d: PciDevice) -> (r: Result<
    (),
    PciDevice,
>)
    ensures
        r is Ok <==> devices8(*old(v)).len() < 8,
        r is Err ==> r->Err_0 == d,
        devices8(*final(v)) == if r is Ok { devices8(*old(v)).push(d) } else { devices8(*old(v)) },
{
    v.push(d)
}

/// `heapless::Vec::as_slice`: all items in order.
#[verifier::external_body]
pub(crate) fn devices8_slice(v: &heapless::Vec<PciDevice, 8>) -> (r: &[PciDevice])
    ensures
        r@ == devices8(*v),
{
    v.as_slice()
}

/// `heapless::Vec::new`: an empty vector.
#[verifier::external_body]
pub(crate) fn windows48_new() -> (r: heapless::Vec<(u64, u64), 48>)
    ensures
        windows48(r) == Seq::<(u64, u64)>::empty(),
{
    heapless::Vec::new()
}

/// `heapless::Vec::push`: appends `w`, or gives it back where the vector is
/// full.
#[verifier::external_body]
pub(crate) fn windows48_push(v: &mut heapless::Vec<(u64, u64), 48>, w: (u64, u64)) -> (r: Result<
    (),
    (u64, u64),
>)
    ensures
        r is Ok <==> windows48(*old(v)).len() < 48,
        r is Err ==> r->Err_0 == w,
        windows48(*final(v)) == if r is Ok { windows48(*old(v)).push(w) } else { windows48(*old(v)) },
{
    v.push(w)
}

} // verus!
