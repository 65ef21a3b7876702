//! Canonical byte form of structured values.
//!
//! A stored resource is a byte blob; together with a type layout it decodes
//! into a structured value. The encoding is the canonical one used by the
//! ledger: little-endian fixed-width integers, one byte for a boolean, raw
//! address bytes, a canonical LEB128 length followed by the elements for a
//! sequence, and the concatenated fields for a struct.
//!
//! `spec_encoded` and `spec_dec_value` define the codec mathematically; the
//! executable `encode_value` and `decode_value` are verified against them,
//! and `lemma_decode_encoded_value` proves that decoding inverts encoding.

use vstd::prelude::*;
use crate::address::Address;
use crate::move_types::{
    MoveField, MoveTypeLayout, MoveValue, SpecMoveField, SpecMoveFieldLayout, SpecMoveTypeLayout,
    SpecMoveValue, clone_string, fields_model, field_layouts_model, lemma_fields_model,
    lemma_field_layouts_model, lemma_values_model, values_model,
};

verus! {

broadcast use {
    vstd::seq::axiom_seq_index_decreases,
    vstd::std_specs::vec::axiom_vec_index_decreases,
};

/// Sequence lengths are capped at 32 bits in the canonical encoding.
pub const MAX_SEQUENCE_LENGTH: u64 = 0xffff_ffff;

// ---------------------------------------------------------------------------
// Canonical LEB128 lengths
// ---------------------------------------------------------------------------

/// The canonical LEB128 encoding of a length.
pub open spec fn spec_uleb(n: nat) -> Seq<u8>
    decreases n,
{
    if n < 128 {
        seq![n as u8]
    } else {
        seq![(128 + (n % 128)) as u8] + spec_uleb(n / 128)
    }
}

/// Reads a canonical LEB128 length; rejects non-canonical forms (a trailing
/// zero continuation) and values above `MAX_SEQUENCE_LENGTH`.
pub open spec fn spec_dec_uleb(s: Seq<u8>, pos: int) -> Option<(nat, int)>
    decreases s.len() - pos,
{
    if pos < 0 || pos >= s.len() {
        None
    } else {
        let b = s[pos];
        if b < 128 {
            Some(((b as nat), pos + 1))
        } else {
            match spec_dec_uleb(s, pos + 1) {
                Some((m, p)) => if m == 0 {
                    None
                } else {
                    let v = (b - 128) as nat + 128 * m;
                    if v > MAX_SEQUENCE_LENGTH as nat {
                        None
                    } else {
                        Some((v, p))
                    }
                },
                None => None,
            }
        }
    }
}

/// Decoding a canonical LEB128 length recovers exactly the encoded value.
pub proof fn lemma_decode_uleb(n: nat, s: Seq<u8>, pos: int)
    requires
        n <= MAX_SEQUENCE_LENGTH as nat,
        0 <= pos,
        pos + spec_uleb(n).len() <= s.len(),
        s.subrange(pos, pos + spec_uleb(n).len() as int) == spec_uleb(n),
    ensures
        spec_dec_uleb(s, pos) == Some((n, pos + spec_uleb(n).len() as int)),
    decreases n,
{
    let e = spec_uleb(n);
    assert(s[pos] == e[0]);
    if n < 128 {
    } else {
        let rest = spec_uleb(n / 128);
        assert(s.subrange(pos + 1, pos + 1 + rest.len() as int) =~= rest) by {
            assert(forall|k: int| 0 <= k < rest.len()
                ==> s.subrange(pos, pos + e.len() as int)[k + 1] == #[trigger] rest[k]);
        }
        lemma_decode_uleb(n / 128, s, pos + 1);
        assert(n / 128 > 0);
        assert((s[pos] - 128) as nat + 128 * (n / 128) == n);
    }
}

/// A successful LEB128 read consumed exactly the canonical encoding of the
/// value it returned.
pub proof fn lemma_dec_uleb_sound(s: Seq<u8>, pos: int)
    requires
        spec_dec_uleb(s, pos) is Some,
    ensures
        ({
            let (n, p) = spec_dec_uleb(s, pos)->Some_0;
            &&& pos < p <= s.len()
            &&& n <= MAX_SEQUENCE_LENGTH as nat
            &&& s.subrange(pos, p) == spec_uleb(n)
        }),
    decreases s.len() - pos,
{
    let (n, p) = spec_dec_uleb(s, pos)->Some_0;
    let b = s[pos];
    if b < 128 {
        assert(s.subrange(pos, p) =~= spec_uleb(n));
    } else {
        lemma_dec_uleb_sound(s, pos + 1);
        let (m, q) = spec_dec_uleb(s, pos + 1)->Some_0;
        assert(n / 128 == m && n % 128 == (b - 128) as nat) by {
            assert(n == (b - 128) as nat + 128 * m);
            assert(n % 128 == (b - 128) as nat && n / 128 == m) by (nonlinear_arith)
                requires
                    n == ((b - 128) as nat) + 128 * m,
                    ((b - 128) as nat) < 128,
            ;
        }
        assert(s.subrange(pos, p) =~= spec_uleb(n));
    }
}

/// Writes the canonical LEB128 encoding of `n`.
pub fn encode_uleb(n: u64) -> (r: Vec<u8>)
    ensures
        r@ == spec_uleb(n as nat),
    decreases n,
{
    let mut out: Vec<u8> = Vec::new();
    if n < 128 {
        out.push(n as u8);
    } else {
        out.push((n % 128) as u8 + 128);
        let mut rest = encode_uleb(n / 128);
        out.append(&mut rest);
    }
    assert(out@ =~= spec_uleb(n as nat));
    out
}

/// Reads a canonical LEB128 length.
pub fn decode_uleb(s: &Vec<u8>, pos: usize) -> (r: Option<(u64, usize)>)
    ensures
        match r {
            Some((n, p)) => {
                &&& spec_dec_uleb(s@, pos as int) == Some((n as nat, p as int))
                &&& n <= MAX_SEQUENCE_LENGTH
                &&& pos < p <= s@.len()
            },
            None => spec_dec_uleb(s@, pos as int) is None,
        },
    decreases s@.len() - pos,
{
    if pos >= s.len() {
        return None;
    }
    let b = s[pos];
    if b < 128 {
        Some((b as u64, pos + 1))
    } else {
        match decode_uleb(s, pos + 1) {
            Some((m, p)) => {
                if m == 0 {
                    None
                } else {
                    let v = (b - 128) as u64 + 128 * m;
                    if v > MAX_SEQUENCE_LENGTH {
                        None
                    } else {
                        Some((v, p))
                    }
                }
            },
            None => None,
        }
    }
}

// ---------------------------------------------------------------------------
// Canonical encoding of a structured value
// ---------------------------------------------------------------------------

/// The canonical byte form of a structured value.
pub open spec fn spec_encoded(v: SpecMoveValue) -> Seq<u8>
    decreases v, 0int,
{
    match v {
        SpecMoveValue::Bool(b) => seq![if b { 1u8 } else { 0u8 }],
        SpecMoveValue::U8(x) => seq![x],
        SpecMoveValue::U64(x) => vstd::bytes::spec_u64_to_le_bytes(x),
        SpecMoveValue::U128(x) => vstd::bytes::spec_u128_to_le_bytes(x),
        SpecMoveValue::Address(a) => a,
        SpecMoveValue::Vector(vs) => spec_uleb(vs.len()) + spec_encoded_seq(vs, 0),
        SpecMoveValue::Struct(fs) => spec_encoded_fields(fs, 0),
    }
}

/// The concatenated encodings of the elements of `vs` from index `i` on.
pub open spec fn spec_encoded_seq(vs: Seq<SpecMoveValue>, i: int) -> Seq<u8>
    decreases vs, vs.len() - i,
{
    if 0 <= i < vs.len() {
        spec_encoded(vs[i]) + spec_encoded_seq(vs, i + 1)
    } else {
        Seq::empty()
    }
}

/// The encoding of one field: the encoding of its value (names are not
/// stored; the layout carries them).
pub open spec fn spec_encoded_field(f: SpecMoveField) -> Seq<u8>
    decreases f, 1int,
{
    spec_encoded(f.value)
}

/// The concatenated encodings of the fields of a struct from index `i` on.
pub open spec fn spec_encoded_fields(fs: Seq<SpecMoveField>, i: int) -> Seq<u8>
    decreases fs, fs.len() - i,
{
    if 0 <= i < fs.len() {
        spec_encoded_field(fs[i]) + spec_encoded_fields(fs, i + 1)
    } else {
        Seq::empty()
    }
}

// ---------------------------------------------------------------------------
// Shape conformance
// ---------------------------------------------------------------------------

/// `v` has exactly the shape described by layout `l`: matching variants,
/// addresses of the fixed width, sequence lengths within the canonical cap,
/// and struct fields named as the layout names them. Decoding with `l` can
/// produce exactly the values that conform to `l`.
pub open spec fn spec_conforms(v: SpecMoveValue, l: SpecMoveTypeLayout) -> bool
    decreases v, 0int,
{
    match (v, l) {
        (SpecMoveValue::Bool(_), SpecMoveTypeLayout::Bool) => true,
        (SpecMoveValue::U8(_), SpecMoveTypeLayout::U8) => true,
        (SpecMoveValue::U64(_), SpecMoveTypeLayout::U64) => true,
        (SpecMoveValue::U128(_), SpecMoveTypeLayout::U128) => true,
        (SpecMoveValue::Address(a), SpecMoveTypeLayout::Address) => a.len()
            == crate::address::ADDRESS_LENGTH as int,
        (SpecMoveValue::Vector(vs), SpecMoveTypeLayout::Vector(el)) => {
            &&& vs.len() <= MAX_SEQUENCE_LENGTH as nat
            &&& spec_conforms_seq(vs, *el, 0)
        },
        (SpecMoveValue::Struct(fs), SpecMoveTypeLayout::Struct(fls)) => spec_conforms_fields(
            fs,
            fls,
            0,
        ),
        _ => false,
    }
}

/// Elements of `vs` from index `i` on conform to the element layout.
pub open spec fn spec_conforms_seq(vs: Seq<SpecMoveValue>, el: SpecMoveTypeLayout, i: int) -> bool
    decreases vs, vs.len() - i,
{
    if 0 <= i < vs.len() {
        spec_conforms(vs[i], el) && spec_conforms_seq(vs, el, i + 1)
    } else {
        true
    }
}

/// One field conforms to its field layout: same name, conforming value.
pub open spec fn spec_conforms_field(f: SpecMoveField, fl: SpecMoveFieldLayout) -> bool
    decreases f, 1int,
{
    f.name == fl.name && spec_conforms(f.value, fl.layout)
}

/// Fields of `fs` from index `i` on conform one-to-one to the field layouts.
pub open spec fn spec_conforms_fields(
    fs: Seq<SpecMoveField>,
    fls: Seq<SpecMoveFieldLayout>,
    i: int,
) -> bool
    decreases fs, fs.len() - i,
{
    if fs.len() != fls.len() {
        false
    } else if 0 <= i < fs.len() {
        spec_conforms_field(fs[i], fls[i]) && spec_conforms_fields(fs, fls, i + 1)
    } else {
        true
    }
}

// ---------------------------------------------------------------------------
// Layout-directed decoding
// ---------------------------------------------------------------------------

/// Decodes one value of layout `l` starting at `pos`; yields the value and
/// the position one past its encoding.
pub open spec fn spec_dec_value(l: SpecMoveTypeLayout, s: Seq<u8>, pos: int) -> Option<
    (SpecMoveValue, int),
>
    decreases l, 0int, 0int,
{
    if pos < 0 {
        None
    } else {
        match l {
            SpecMoveTypeLayout::Bool => {
                if pos < s.len() && (s[pos] == 0 || s[pos] == 1) {
                    Some((SpecMoveValue::Bool(s[pos] == 1), pos + 1))
                } else {
                    None
                }
            },
            SpecMoveTypeLayout::U8 => {
                if pos < s.len() {
                    Some((SpecMoveValue::U8(s[pos]), pos + 1))
                } else {
                    None
                }
            },
            SpecMoveTypeLayout::U64 => {
                if pos + 8 <= s.len() {
                    Some(
                        (
                            SpecMoveValue::U64(
                                vstd::bytes::spec_u64_from_le_bytes(s.subrange(pos, pos + 8)),
                            ),
                            pos + 8,
                        ),
                    )
                } else {
                    None
                }
            },
            SpecMoveTypeLayout::U128 => {
                if pos + 16 <= s.len() {
                    Some(
                        (
                            SpecMoveValue::U128(
                                vstd::bytes::spec_u128_from_le_bytes(s.subrange(pos, pos + 16)),
                            ),
                            pos + 16,
                        ),
                    )
                } else {
                    None
                }
            },
            SpecMoveTypeLayout::Address => {
                if pos + crate::address::ADDRESS_LENGTH as int <= s.len() {
                    Some(
                        (
                            SpecMoveValue::Address(
                                s.subrange(pos, pos + crate::address::ADDRESS_LENGTH as int),
                            ),
                            pos + crate::address::ADDRESS_LENGTH as int,
                        ),
                    )
                } else {
                    None
                }
            },
            SpecMoveTypeLayout::Vector(el) => match spec_dec_uleb(s, pos) {
                Some((n, p)) => match spec_dec_list(*el, n, s, p) {
                    Some((vs, q)) => Some((SpecMoveValue::Vector(vs), q)),
                    None => None,
                },
                None => None,
            },
            SpecMoveTypeLayout::Struct(fls) => match spec_dec_fields(fls, 0, s, pos) {
                Some((fs, p)) => Some((SpecMoveValue::Struct(fs), p)),
                None => None,
            },
        }
    }
}

/// Decodes `n` consecutive values of layout `el`.
pub open spec fn spec_dec_list(el: SpecMoveTypeLayout, n: nat, s: Seq<u8>, pos: int) -> Option<
    (Seq<SpecMoveValue>, int),
>
    decreases el, n, 1int,
{
    if n == 0 {
        Some((Seq::empty(), pos))
    } else {
        match spec_dec_value(el, s, pos) {
            Some((v, p)) => match spec_dec_list(el, (n - 1) as nat, s, p) {
                Some((vs, q)) => Some((seq![v] + vs, q)),
                None => None,
            },
            None => None,
        }
    }
}

/// Decodes one field according to its field layout.
pub open spec fn spec_dec_field(fl: SpecMoveFieldLayout, s: Seq<u8>, pos: int) -> Option<
    (SpecMoveField, int),
>
    decreases fl, 0int, 0int,
{
    match spec_dec_value(fl.layout, s, pos) {
        Some((v, p)) => Some((SpecMoveField { name: fl.name, value: v }, p)),
        None => None,
    }
}

/// Decodes the fields of a struct from field layout index `i` on.
pub open spec fn spec_dec_fields(
    fls: Seq<SpecMoveFieldLayout>,
    i: int,
    s: Seq<u8>,
    pos: int,
) -> Option<(Seq<SpecMoveField>, int)>
    decreases fls, fls.len() - i, 2int,
{
    if 0 <= i < fls.len() {
        match spec_dec_field(fls[i], s, pos) {
            Some((f, p)) => match spec_dec_fields(fls, i + 1, s, p) {
                Some((fs, q)) => Some((seq![f] + fs, q)),
                None => None,
            },
            None => None,
        }
    } else {
        Some((Seq::empty(), pos))
    }
}

// ---------------------------------------------------------------------------
// Executable encoder
// ---------------------------------------------------------------------------

/// Writes the canonical byte form of a structured value. Re-encoding a value
/// that was decoded from storage always succeeds: encoding is total.
pub fn encode_value(v: &MoveValue) -> (r: Vec<u8>)
    ensures
        r@ == spec_encoded(v.model()),
    decreases *v,
{
    match v {
        MoveValue::Bool(b) => {
            let mut out: Vec<u8> = Vec::new();
            out.push(if *b { 1u8 } else { 0u8 });
            assert(out@ =~= spec_encoded(v.model()));
            out
        },
        MoveValue::U8(x) => {
            let mut out: Vec<u8> = Vec::new();
            out.push(*x);
            assert(out@ =~= spec_encoded(v.model()));
            out
        },
        MoveValue::U64(x) => vstd::bytes::u64_to_le_bytes(*x),
        MoveValue::U128(x) => vstd::bytes::u128_to_le_bytes(*x),
        MoveValue::Address(a) => vstd::slice::slice_to_vec(a.bytes.as_slice()),
        MoveValue::Vector(vs) => {
            let ghost vm = values_model(*vs);
            proof {
                lemma_values_model(*vs);
            }
            let mut out = encode_uleb(vs.len() as u64);
            let n = vs.len();
            let mut i: usize = 0;
            while i < n
                invariant
                    *v == MoveValue::Vector(*vs),
                    n == vs@.len(),
                    0 <= i <= n,
                    vm == values_model(*vs),
                    vm.len() == n,
                    forall|j: int| 0 <= j < n ==> vm[j] == vs@[j].model(),
                    out@ + spec_encoded_seq(vm, i as int) == spec_uleb(n as nat)
                        + spec_encoded_seq(vm, 0),
                decreases n - i,
            {
                proof {
                    assert(*v == MoveValue::Vector(*vs));
                    assert(decreases_to!(*v => v->Vector_0));
                    assert(decreases_to!(v->Vector_0 => vs@));
                    assert(decreases_to!(vs@ => vs@[i as int]));
                    assert(decreases_to!(*v => vs@[i as int]));
                }
                let mut e = encode_value(&vs[i]);
                proof {
                    assert(spec_encoded_seq(vm, i as int) == spec_encoded(vm[i as int])
                        + spec_encoded_seq(vm, i + 1));
                    assert((out@ + e@) + spec_encoded_seq(vm, i + 1) =~= out@ + spec_encoded_seq(
                        vm,
                        i as int,
                    ));
                }
                out.append(&mut e);
                i += 1;
            }
            proof {
                assert(out@ + spec_encoded_seq(vm, n as int) =~= out@);
            }
            out
        },
        MoveValue::Struct(fs) => {
            let ghost fm = fields_model(*fs);
            proof {
                lemma_fields_model(*fs);
            }
            let mut out: Vec<u8> = Vec::new();
            let n = fs.len();
            let mut i: usize = 0;
            while i < n
                invariant
                    *v == MoveValue::Struct(*fs),
                    n == fs@.len(),
                    0 <= i <= n,
                    fm == fields_model(*fs),
                    fm.len() == n,
                    forall|j: int| 0 <= j < n ==> fm[j] == fs@[j].model(),
                    out@ + spec_encoded_fields(fm, i as int) == spec_encoded_fields(fm, 0),
                decreases n - i,
            {
                proof {
                    assert(*v == MoveValue::Struct(*fs));
                    assert(decreases_to!(*v => v->Struct_0));
                    assert(decreases_to!(v->Struct_0 => fs@));
                    assert(decreases_to!(fs@ => fs@[i as int]));
                    assert(decreases_to!(fs@[i as int] => fs@[i as int].value));
                    assert(decreases_to!(*v => fs@[i as int].value));
                }
                let mut e = encode_value(&fs[i].value);
                proof {
                    assert(spec_encoded_fields(fm, i as int) == spec_encoded_field(fm[i as int])
                        + spec_encoded_fields(fm, i + 1));
                    assert(spec_encoded_field(fm[i as int]) == spec_encoded(
                        fs@[i as int].value.model(),
                    ));
                    assert((out@ + e@) + spec_encoded_fields(fm, i + 1) =~= out@
                        + spec_encoded_fields(fm, i as int));
                }
                out.append(&mut e);
                i += 1;
            }
            proof {
                assert(out@ + spec_encoded_fields(fm, n as int) =~= out@);
            }
            out
        },
    }
}

// ---------------------------------------------------------------------------
// Executable decoder
// ---------------------------------------------------------------------------

/// Decodes one value of layout `l` from `s` starting at `pos`, mirroring
/// `spec_dec_value` exactly.
pub fn decode_value(l: &MoveTypeLayout, s: &Vec<u8>, pos: usize) -> (r: Option<(MoveValue, usize)>)
    ensures
        match r {
            Some((v, p)) => {
                &&& spec_dec_value(l.model(), s@, pos as int) == Some((v.model(), p as int))
                &&& pos <= p
                &&& p <= s@.len() || p == pos
            },
            None => spec_dec_value(l.model(), s@, pos as int) is None,
        },
    decreases *l,
{
    match l {
        MoveTypeLayout::Bool => {
            if pos < s.len() {
                let b = s[pos];
                if b == 0 {
                    Some((MoveValue::Bool(false), pos + 1))
                } else if b == 1 {
                    Some((MoveValue::Bool(true), pos + 1))
                } else {
                    None
                }
            } else {
                None
            }
        },
        MoveTypeLayout::U8 => {
            if pos < s.len() {
                Some((MoveValue::U8(s[pos]), pos + 1))
            } else {
                None
            }
        },
        MoveTypeLayout::U64 => {
            if s.len() >= 8 && pos <= s.len() - 8 {
                let sub = vstd::slice::slice_subrange(s.as_slice(), pos, pos + 8);
                let x = vstd::bytes::u64_from_le_bytes(sub);
                Some((MoveValue::U64(x), pos + 8))
            } else {
                None
            }
        },
        MoveTypeLayout::U128 => {
            if s.len() >= 16 && pos <= s.len() - 16 {
                let sub = vstd::slice::slice_subrange(s.as_slice(), pos, pos + 16);
                let x = vstd::bytes::u128_from_le_bytes(sub);
                Some((MoveValue::U128(x), pos + 16))
            } else {
                None
            }
        },
        MoveTypeLayout::Address => {
            let w = crate::address::ADDRESS_LENGTH;
            if s.len() >= w && pos <= s.len() - w {
                let sub = vstd::slice::slice_subrange(s.as_slice(), pos, pos + w);
                let bytes = vstd::slice::slice_to_vec(sub);
                Some((MoveValue::Address(Address { bytes }), pos + w))
            } else {
                None
            }
        },
        MoveTypeLayout::Vector(el) => {
            match decode_uleb(s, pos) {
                Some((n, p)) => {
                    let ghost elm = el.model();
                    let n_us = n as usize;
                    let mut out: Vec<MoveValue> = Vec::new();
                    let mut cur = p;
                    let mut k: usize = 0;
                    proof {
                        assert(n_us == n);
                        lemma_values_model(out);
                        if spec_dec_list(elm, n as nat, s@, p as int) is Some {
                            let (vs2, q) = spec_dec_list(elm, n as nat, s@, p as int)->Some_0;
                            assert(values_model(out) + vs2 =~= vs2);
                        }
                    }
                    while k < n_us
                        invariant
                            *l == MoveTypeLayout::Vector(*el),
                            n_us == n,
                            n <= MAX_SEQUENCE_LENGTH,
                            elm == el.model(),
                            out@.len() == k,
                            0 <= k <= n_us,
                            pos <= cur <= s@.len(),
                            spec_dec_uleb(s@, pos as int) == Some((n as nat, p as int)),
                            match spec_dec_list(elm, (n_us - k) as nat, s@, cur as int) {
                                Some((vs2, q)) => spec_dec_list(elm, n as nat, s@, p as int)
                                    == Some((values_model(out) + vs2, q)),
                                None => spec_dec_list(elm, n as nat, s@, p as int) is None,
                            },
                        decreases n_us - k,
                    {
                        proof {
                            assert(*l == MoveTypeLayout::Vector(*el));
                            assert(decreases_to!(*l => l->Vector_0));
                            assert(decreases_to!(*l => **el));
                        }
                        let ghost old_out = out;
                        match decode_value(el, s, cur) {
                            Some((v, p2)) => {
                                out.push(v);
                                proof {
                                    lemma_values_model(old_out);
                                    lemma_values_model(out);
                                    assert(values_model(out) =~= values_model(old_out)
                                        + seq![v.model()]);
                                    if spec_dec_list(elm, (n_us - k - 1) as nat, s@, p2 as int)
                                        is Some {
                                        let (vs3, q) = spec_dec_list(
                                            elm,
                                            (n_us - k - 1) as nat,
                                            s@,
                                            p2 as int,
                                        )->Some_0;
                                        assert(values_model(old_out) + (seq![v.model()] + vs3)
                                            =~= values_model(out) + vs3);
                                    }
                                }
                                cur = p2;
                                k += 1;
                            },
                            None => {
                                return None;
                            },
                        }
                    }
                    proof {
                        assert(values_model(out) + Seq::<SpecMoveValue>::empty()
                            =~= values_model(out));
                        assert(MoveValue::Vector(out).model() == SpecMoveValue::Vector(values_model(out)));
                    }
                    Some((MoveValue::Vector(out), cur))
                },
                None => None,
            }
        },
        MoveTypeLayout::Struct(fls) => {
            let ghost flsm = field_layouts_model(*fls);
            proof {
                lemma_field_layouts_model(*fls);
            }
            let n = fls.len();
            let mut out: Vec<MoveField> = Vec::new();
            let mut cur = pos;
            let mut k: usize = 0;
            proof {
                lemma_fields_model(out);
                if spec_dec_fields(flsm, 0, s@, pos as int) is Some {
                    let (fs2, q) = spec_dec_fields(flsm, 0, s@, pos as int)->Some_0;
                    assert(fields_model(out) + fs2 =~= fs2);
                }
            }
            while k < n
                invariant
                    *l == MoveTypeLayout::Struct(*fls),
                    n == fls@.len(),
                    0 <= k <= n,
                    flsm == field_layouts_model(*fls),
                    flsm.len() == n,
                    forall|j: int| 0 <= j < n ==> flsm[j] == fls@[j].model(),
                    out@.len() == k,
                    pos <= cur,
                    cur <= s@.len() || cur == pos,
                    match spec_dec_fields(flsm, k as int, s@, cur as int) {
                        Some((fs2, q)) => spec_dec_fields(flsm, 0, s@, pos as int)
                            == Some((fields_model(out) + fs2, q)),
                        None => spec_dec_fields(flsm, 0, s@, pos as int) is None,
                    },
                decreases n - k,
            {
                proof {
                    assert(*l == MoveTypeLayout::Struct(*fls));
                    assert(decreases_to!(*l => l->Struct_0));
                    assert(decreases_to!(l->Struct_0 => fls@));
                    assert(decreases_to!(fls@ => fls@[k as int]));
                    assert(decreases_to!(fls@[k as int] => fls@[k as int].layout));
                    assert(decreases_to!(*l => fls@[k as int].layout));
                }
                let ghost old_out = out;
                match decode_value(&fls[k].layout, s, cur) {
                    Some((v, p2)) => {
                        let f = MoveField { name: clone_string(&fls[k].name), value: v };
                        out.push(f);
                        proof {
                            let f0 = SpecMoveField { name: fls@[k as int].name@, value: v.model() };
                            lemma_fields_model(old_out);
                            lemma_fields_model(out);
                            assert(fields_model(out) =~= fields_model(old_out) + seq![f0]);
                            assert(flsm[k as int] == fls@[k as int].model());
                            assert(flsm[k as int].layout == fls@[k as int].layout.model());
                            assert(spec_dec_field(flsm[k as int], s@, cur as int) == Some(
                                (f0, p2 as int),
                            ));
                            if spec_dec_fields(flsm, k + 1, s@, p2 as int) is Some {
                                let (fs3, q) = spec_dec_fields(flsm, k + 1, s@, p2 as int)->Some_0;
                                assert(spec_dec_fields(flsm, k as int, s@, cur as int) == Some(
                                    (seq![f0] + fs3, q),
                                ));
                                assert(fields_model(old_out) + (seq![f0] + fs3) =~= fields_model(
                                    out,
                                ) + fs3);
                            } else {
                                assert(spec_dec_fields(flsm, k as int, s@, cur as int) is None);
                            }
                        }
                        cur = p2;
                        k += 1;
                    },
                    None => {
                        return None;
                    },
                }
            }
            proof {
                lemma_fields_model(out);
                assert(fields_model(out) + Seq::<SpecMoveField>::empty() =~= fields_model(out));
                assert(MoveValue::Struct(out).model() == SpecMoveValue::Struct(fields_model(out)));
            }
            Some((MoveValue::Struct(out), cur))
        },
    }
}

// ---------------------------------------------------------------------------
// Decoding inverts encoding
// ---------------------------------------------------------------------------

/// Splits a subrange known to hold a concatenation into its two halves.
proof fn lemma_concat_subrange(s: Seq<u8>, pos: int, x: Seq<u8>, y: Seq<u8>)
    requires
        0 <= pos,
        pos + x.len() + y.len() <= s.len(),
        s.subrange(pos, pos + x.len() + y.len()) == x + y,
    ensures
        s.subrange(pos, pos + x.len() as int) == x,
        s.subrange(pos + x.len() as int, pos + x.len() + y.len()) == y,
{
    let whole = s.subrange(pos, pos + x.len() + y.len());
    let sub1 = s.subrange(pos, pos + x.len() as int);
    let sub2 = s.subrange(pos + x.len() as int, pos + x.len() + y.len());
    assert forall|k: int| 0 <= k < x.len() implies sub1[k] == x[k] by {
        assert(sub1[k] == s[pos + k]);
        assert(whole[k] == s[pos + k]);
        assert((x + y)[k] == x[k]);
    }
    assert(sub1 =~= x);
    assert forall|k: int| 0 <= k < y.len() implies sub2[k] == y[k] by {
        assert(sub2[k] == s[pos + x.len() + k]);
        assert(whole[x.len() + k] == s[pos + x.len() + k]);
        assert((x + y)[x.len() + k] == y[k]);
    }
    assert(sub2 =~= y);
}

/// Decoding with the value's own layout recovers the value from any byte
/// sequence that carries its encoding at `pos`.
pub proof fn lemma_decode_encoded_value(
    v: SpecMoveValue,
    l: SpecMoveTypeLayout,
    s: Seq<u8>,
    pos: int,
)
    requires
        spec_conforms(v, l),
        0 <= pos,
        pos + spec_encoded(v).len() <= s.len(),
        s.subrange(pos, pos + spec_encoded(v).len() as int) == spec_encoded(v),
    ensures
        spec_dec_value(l, s, pos) == Some((v, pos + spec_encoded(v).len() as int)),
    decreases v, 0int,
{
    let e = spec_encoded(v);
    match v {
        SpecMoveValue::Bool(b) => {
            assert(s[pos] == e[0]);
        },
        SpecMoveValue::U8(x) => {
            assert(s[pos] == e[0]);
        },
        SpecMoveValue::U64(x) => {
            vstd::bytes::lemma_auto_spec_u64_to_from_le_bytes();
            assert(s.subrange(pos, pos + 8) == e);
        },
        SpecMoveValue::U128(x) => {
            vstd::bytes::lemma_auto_spec_u128_to_from_le_bytes();
            assert(s.subrange(pos, pos + 16) == e);
        },
        SpecMoveValue::Address(a) => {
            assert(s.subrange(pos, pos + crate::address::ADDRESS_LENGTH as int) == a);
        },
        SpecMoveValue::Vector(vs) => {
            let el = l->Vector_0;
            let u = spec_uleb(vs.len());
            let rest = spec_encoded_seq(vs, 0);
            lemma_concat_subrange(s, pos, u, rest);
            lemma_decode_uleb(vs.len(), s, pos);
            lemma_decode_encoded_list(vs, *el, 0, s, pos + u.len() as int);
            assert(vs.subrange(0, vs.len() as int) =~= vs);
        },
        SpecMoveValue::Struct(fs) => {
            let fls = l->Struct_0;
            lemma_decode_encoded_fields(fs, fls, 0, s, pos);
            assert(fs.subrange(0, fs.len() as int) =~= fs);
        },
    }
}

/// Decoding `vs.len() - i` values of layout `el` from the concatenated
/// encodings of `vs[i..]` recovers exactly those elements.
proof fn lemma_decode_encoded_list(
    vs: Seq<SpecMoveValue>,
    el: SpecMoveTypeLayout,
    i: int,
    s: Seq<u8>,
    pos: int,
)
    requires
        0 <= i <= vs.len(),
        spec_conforms_seq(vs, el, i),
        0 <= pos,
        pos + spec_encoded_seq(vs, i).len() <= s.len(),
        s.subrange(pos, pos + spec_encoded_seq(vs, i).len() as int) == spec_encoded_seq(vs, i),
    ensures
        spec_dec_list(el, (vs.len() - i) as nat, s, pos) == Some(
            (vs.subrange(i, vs.len() as int), pos + spec_encoded_seq(vs, i).len() as int),
        ),
    decreases vs, vs.len() - i, 1int,
{
    if i == vs.len() {
        assert(vs.subrange(i, vs.len() as int) =~= Seq::<SpecMoveValue>::empty());
    } else {
        let e0 = spec_encoded(vs[i]);
        let rest = spec_encoded_seq(vs, i + 1);
        lemma_concat_subrange(s, pos, e0, rest);
        vstd::seq::axiom_seq_index_decreases(vs, i);
        lemma_decode_encoded_value(vs[i], el, s, pos);
        lemma_decode_encoded_list(vs, el, i + 1, s, pos + e0.len() as int);
        assert(seq![vs[i]] + vs.subrange(i + 1, vs.len() as int) =~= vs.subrange(
            i,
            vs.len() as int,
        ));
    }
}

/// Decoding the fields of a struct from the concatenated encodings of
/// `fs[i..]` recovers exactly those fields, named as the layout names them.
proof fn lemma_decode_encoded_fields(
    fs: Seq<SpecMoveField>,
    fls: Seq<SpecMoveFieldLayout>,
    i: int,
    s: Seq<u8>,
    pos: int,
)
    requires
        0 <= i <= fs.len(),
        spec_conforms_fields(fs, fls, i),
        0 <= pos,
        pos + spec_encoded_fields(fs, i).len() <= s.len(),
        s.subrange(pos, pos + spec_encoded_fields(fs, i).len() as int) == spec_encoded_fields(
            fs,
            i,
        ),
    ensures
        spec_dec_fields(fls, i, s, pos) == Some(
            (fs.subrange(i, fs.len() as int), pos + spec_encoded_fields(fs, i).len() as int),
        ),
    decreases fs, fs.len() - i, 1int,
{
    if i == fs.len() {
        assert(fs.subrange(i, fs.len() as int) =~= Seq::<SpecMoveField>::empty());
    } else {
        let e0 = spec_encoded_field(fs[i]);
        let rest = spec_encoded_fields(fs, i + 1);
        lemma_concat_subrange(s, pos, e0, rest);
        vstd::seq::axiom_seq_index_decreases(fs, i);
        assert(spec_conforms_field(fs[i], fls[i]));
        assert(spec_conforms(fs[i].value, fls[i].layout));
        lemma_decode_encoded_value(fs[i].value, fls[i].layout, s, pos);
        let f0 = SpecMoveField { name: fls[i].name, value: fs[i].value };
        assert(f0 =~= fs[i]);
        assert(spec_dec_field(fls[i], s, pos) == Some((fs[i], pos + e0.len() as int)));
        lemma_decode_encoded_fields(fs, fls, i + 1, s, pos + e0.len() as int);
        assert(spec_dec_fields(fls, i + 1, s, pos + e0.len() as int) == Some(
            (fs.subrange(i + 1, fs.len() as int), pos + e0.len() + rest.len()),
        ));
        assert(seq![fs[i]] + fs.subrange(i + 1, fs.len() as int) =~= fs.subrange(
            i,
            fs.len() as int,
        ));
        assert(spec_encoded_fields(fs, i).len() == e0.len() + rest.len());
    }
}

/// Law: the encode/decode pair is a closed loop. A value conforming to a
/// layout — in particular any resource field value freshly decoded from
/// storage — re-encodes to bytes that decode back to the very same value
/// under that layout.
pub proof fn lemma_round_trip(v: SpecMoveValue, l: SpecMoveTypeLayout)
    requires
        spec_conforms(v, l),
    ensures
        spec_dec_value(l, spec_encoded(v), 0) == Some((v, spec_encoded(v).len() as int)),
{
    let e = spec_encoded(v);
    assert(e.subrange(0, e.len() as int) =~= e);
    lemma_decode_encoded_value(v, l, e, 0);
}

} // verus!
