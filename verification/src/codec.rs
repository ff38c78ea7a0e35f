//! Binary wire format of legacy Bitcoin transactions.
//!
//! The serialized form is: version (4 bytes little-endian), a compact-size
//! count followed by the inputs, a compact-size count followed by the
//! outputs, and the lock time (4 bytes little-endian).  Each input is the
//! referenced transaction id (32 bytes), the referenced output index,
//! the length-prefixed unlocking script and the sequence number; each
//! output is the value (8 bytes little-endian) and the length-prefixed
//! locking script.

use vstd::prelude::*;
use vstd::bytes::*;
use vstd::slice::slice_subrange;
use crate::types::{Transaction, TxIn, TxOut, TxModel, TxInModel, TxOutModel};

verus! {

// ---------------------------------------------------------------------------
// Serialization, at the specification level.
// ---------------------------------------------------------------------------

/// Compact-size encoding of an unsigned count or length.
pub open spec fn spec_varint(n: u64) -> Seq<u8> {
    if n < 0xfd {
        seq![n as u8]
    } else if n <= 0xffff {
        seq![0xfdu8] + spec_u16_to_le_bytes(n as u16)
    } else if n <= 0xffffffff {
        seq![0xfeu8] + spec_u32_to_le_bytes(n as u32)
    } else {
        seq![0xffu8] + spec_u64_to_le_bytes(n)
    }
}

/// Serialization of one input.
pub open spec fn spec_ser_txin(i: TxInModel) -> Seq<u8> {
    i.txid + spec_u32_to_le_bytes(i.vout) + spec_varint(i.script_sig.len() as u64)
        + i.script_sig + spec_u32_to_le_bytes(i.sequence)
}

/// Serialization of a sequence of inputs, in order.
pub open spec fn spec_ser_txins(s: Seq<TxInModel>) -> Seq<u8>
    decreases s.len(),
{
    if s.len() == 0 {
        Seq::<u8>::empty()
    } else {
        spec_ser_txin(s[0]) + spec_ser_txins(s.drop_first())
    }
}

/// Serialization of one output.
pub open spec fn spec_ser_txout(o: TxOutModel) -> Seq<u8> {
    spec_u64_to_le_bytes(o.value) + spec_varint(o.script_pubkey.len() as u64)
        + o.script_pubkey
}

/// Serialization of a sequence of outputs, in order.
pub open spec fn spec_ser_txouts(s: Seq<TxOutModel>) -> Seq<u8>
    decreases s.len(),
{
    if s.len() == 0 {
        Seq::<u8>::empty()
    } else {
        spec_ser_txout(s[0]) + spec_ser_txouts(s.drop_first())
    }
}

/// Serialization of a whole transaction.
pub open spec fn spec_ser_tx(t: TxModel) -> Seq<u8> {
    spec_u32_to_le_bytes(t.version) + spec_varint(t.inputs.len() as u64)
        + spec_ser_txins(t.inputs) + spec_varint(t.outputs.len() as u64)
        + spec_ser_txouts(t.outputs) + spec_u32_to_le_bytes(t.lock_time)
}

/// Appending one input extends the serialization at the end.
pub proof fn lemma_ser_txins_push(s: Seq<TxInModel>, x: TxInModel)
    ensures
        spec_ser_txins(s.push(x)) == spec_ser_txins(s) + spec_ser_txin(x),
    decreases s.len(),
{
    if s.len() == 0 {
        assert(s.push(x)[0] == x);
        assert(s.push(x).drop_first() =~= Seq::<TxInModel>::empty());
        assert(spec_ser_txins(Seq::<TxInModel>::empty()) =~= Seq::<u8>::empty());
        assert(spec_ser_txins(s.push(x)) =~= spec_ser_txin(x));
        assert(spec_ser_txins(s) + spec_ser_txin(x) =~= spec_ser_txin(x));
    } else {
        assert(s.push(x).drop_first() =~= s.drop_first().push(x));
        lemma_ser_txins_push(s.drop_first(), x);
        assert(s.push(x)[0] == s[0]);
        assert(spec_ser_txins(s.push(x)) == spec_ser_txin(s[0]) + spec_ser_txins(
            s.drop_first().push(x),
        ));
        assert(spec_ser_txins(s) + spec_ser_txin(x) =~= spec_ser_txin(s[0]) + (spec_ser_txins(
            s.drop_first(),
        ) + spec_ser_txin(x)));
    }
}

/// Appending one output extends the serialization at the end.
pub proof fn lemma_ser_txouts_push(s: Seq<TxOutModel>, x: TxOutModel)
    ensures
        spec_ser_txouts(s.push(x)) == spec_ser_txouts(s) + spec_ser_txout(x),
    decreases s.len(),
{
    if s.len() == 0 {
        assert(s.push(x)[0] == x);
        assert(s.push(x).drop_first() =~= Seq::<TxOutModel>::empty());
        assert(spec_ser_txouts(Seq::<TxOutModel>::empty()) =~= Seq::<u8>::empty());
        assert(spec_ser_txouts(s.push(x)) =~= spec_ser_txout(x));
        assert(spec_ser_txouts(s) + spec_ser_txout(x) =~= spec_ser_txout(x));
    } else {
        assert(s.push(x).drop_first() =~= s.drop_first().push(x));
        lemma_ser_txouts_push(s.drop_first(), x);
        assert(s.push(x)[0] == s[0]);
        assert(spec_ser_txouts(s.push(x)) == spec_ser_txout(s[0]) + spec_ser_txouts(
            s.drop_first().push(x),
        ));
        assert(spec_ser_txouts(s) + spec_ser_txout(x) =~= spec_ser_txout(s[0]) + (spec_ser_txouts(
            s.drop_first(),
        ) + spec_ser_txout(x)));
    }
}

// ---------------------------------------------------------------------------
// Serialization, executable.
// ---------------------------------------------------------------------------

/// Appends the little-endian encoding of `x` to `out`.
fn write_u32_le(out: &mut Vec<u8>, x: u32)
    ensures
        final(out)@ == old(out)@ + spec_u32_to_le_bytes(x),
{
    let mut b = u32_to_le_bytes(x);
    out.append(&mut b);
}

/// Appends the little-endian encoding of `x` to `out`.
fn write_u64_le(out: &mut Vec<u8>, x: u64)
    ensures
        final(out)@ == old(out)@ + spec_u64_to_le_bytes(x),
{
    let mut b = u64_to_le_bytes(x);
    out.append(&mut b);
}

/// Appends the compact-size encoding of `n` to `out`.
fn write_varint(out: &mut Vec<u8>, n: u64)
    ensures
        final(out)@ == old(out)@ + spec_varint(n),
{
    if n < 0xfd {
        out.push(n as u8);
        assert(final(out)@ =~= old(out)@ + spec_varint(n));
    } else if n <= 0xffff {
        out.push(0xfd);
        let mut b = u16_to_le_bytes(n as u16);
        out.append(&mut b);
        assert(final(out)@ =~= old(out)@ + spec_varint(n));
    } else if n <= 0xffffffff {
        out.push(0xfe);
        let mut b = u32_to_le_bytes(n as u32);
        out.append(&mut b);
        assert(final(out)@ =~= old(out)@ + spec_varint(n));
    } else {
        out.push(0xff);
        let mut b = u64_to_le_bytes(n);
        out.append(&mut b);
        assert(final(out)@ =~= old(out)@ + spec_varint(n));
    }
}

/// Appends a copy of `bytes` to `out`.
pub(crate) fn write_bytes(out: &mut Vec<u8>, bytes: &Vec<u8>)
    ensures
        final(out)@ == old(out)@ + bytes@,
{
    let mut i: usize = 0;
    while i < bytes.len()
        invariant
            i <= bytes.len(),
            out@ == old(out)@ + bytes@.take(i as int),
        decreases bytes.len() - i,
    {
        out.push(bytes[i]);
        proof {
            assert(bytes@.take(i + 1) =~= bytes@.take(i as int).push(bytes@[i as int]));
            assert(old(out)@ + bytes@.take(i + 1) =~= (old(out)@ + bytes@.take(i as int)).push(
                bytes@[i as int],
            ));
        }
        i = i + 1;
    }
    proof {
        assert(bytes@.take(bytes@.len() as int) =~= bytes@);
    }
}

/// Appends the serialization of one input to `out`.
fn write_txin(out: &mut Vec<u8>, input: &TxIn)
    ensures
        final(out)@ == old(out)@ + spec_ser_txin(input@),
{
    write_bytes(out, &input.txid);
    write_u32_le(out, input.vout);
    write_varint(out, input.script_sig.len() as u64);
    write_bytes(out, &input.script_sig);
    write_u32_le(out, input.sequence);
    proof {
        assert(final(out)@ =~= old(out)@ + spec_ser_txin(input@));
    }
}

/// Appends the serialization of one output to `out`.
fn write_txout(out: &mut Vec<u8>, output: &TxOut)
    ensures
        final(out)@ == old(out)@ + spec_ser_txout(output@),
{
    write_u64_le(out, output.value);
    write_varint(out, output.script_pubkey.len() as u64);
    write_bytes(out, &output.script_pubkey);
    proof {
        assert(final(out)@ =~= old(out)@ + spec_ser_txout(output@));
    }
}

/// Serializes a transaction to the standard binary format.
pub fn serialize_transaction(tx: &Transaction) -> (r: Vec<u8>)
    ensures
        r@ == spec_ser_tx(tx@),
{
    let mut out: Vec<u8> = Vec::new();
    write_u32_le(&mut out, tx.version);
    write_varint(&mut out, tx.inputs.len() as u64);
    let ghost header = out@;
    let mut i: usize = 0;
    while i < tx.inputs.len()
        invariant
            i <= tx.inputs.len(),
            out@ == header + spec_ser_txins(tx@.inputs.take(i as int)),
        decreases tx.inputs.len() - i,
    {
        write_txin(&mut out, &tx.inputs[i]);
        proof {
            assert(tx@.inputs.take(i + 1) =~= tx@.inputs.take(i as int).push(tx@.inputs[i as int]));
            lemma_ser_txins_push(tx@.inputs.take(i as int), tx@.inputs[i as int]);
            assert(out@ =~= header + spec_ser_txins(tx@.inputs.take(i + 1)));
        }
        i = i + 1;
    }
    proof {
        assert(tx@.inputs.take(tx@.inputs.len() as int) =~= tx@.inputs);
    }
    write_varint(&mut out, tx.outputs.len() as u64);
    let ghost mid = out@;
    let mut k: usize = 0;
    while k < tx.outputs.len()
        invariant
            k <= tx.outputs.len(),
            out@ == mid + spec_ser_txouts(tx@.outputs.take(k as int)),
        decreases tx.outputs.len() - k,
    {
        write_txout(&mut out, &tx.outputs[k]);
        proof {
            assert(tx@.outputs.take(k + 1) =~= tx@.outputs.take(k as int).push(
                tx@.outputs[k as int],
            ));
            lemma_ser_txouts_push(tx@.outputs.take(k as int), tx@.outputs[k as int]);
            assert(out@ =~= mid + spec_ser_txouts(tx@.outputs.take(k + 1)));
        }
        k = k + 1;
    }
    proof {
        assert(tx@.outputs.take(tx@.outputs.len() as int) =~= tx@.outputs);
    }
    write_u32_le(&mut out, tx.lock_time);
    proof {
        assert(out@ =~= spec_ser_tx(tx@));
    }
    out
}

// ---------------------------------------------------------------------------
// Parsing, at the specification level.  Each function consumes from index
// `i` and returns the parsed value with the index just past it.
// ---------------------------------------------------------------------------

pub open spec fn spec_parse_u16(s: Seq<u8>, i: int) -> Option<(u16, int)> {
    if 0 <= i && i + 2 <= s.len() {
        Some((spec_u16_from_le_bytes(s.subrange(i, i + 2)), i + 2))
    } else {
        None
    }
}

pub open spec fn spec_parse_u32(s: Seq<u8>, i: int) -> Option<(u32, int)> {
    if 0 <= i && i + 4 <= s.len() {
        Some((spec_u32_from_le_bytes(s.subrange(i, i + 4)), i + 4))
    } else {
        None
    }
}

pub open spec fn spec_parse_u64(s: Seq<u8>, i: int) -> Option<(u64, int)> {
    if 0 <= i && i + 8 <= s.len() {
        Some((spec_u64_from_le_bytes(s.subrange(i, i + 8)), i + 8))
    } else {
        None
    }
}

pub open spec fn spec_parse_varint(s: Seq<u8>, i: int) -> Option<(u64, int)> {
    if 0 <= i && i < s.len() {
        let b = s[i];
        if b < 0xfd {
            Some((b as u64, i + 1))
        } else if b == 0xfd {
            match spec_parse_u16(s, i + 1) {
                Some((v, j)) => Some((v as u64, j)),
                None => None,
            }
        } else if b == 0xfe {
            match spec_parse_u32(s, i + 1) {
                Some((v, j)) => Some((v as u64, j)),
                None => None,
            }
        } else {
            spec_parse_u64(s, i + 1)
        }
    } else {
        None
    }
}

pub open spec fn spec_parse_bytes(s: Seq<u8>, i: int, n: int) -> Option<(Seq<u8>, int)> {
    if 0 <= i && 0 <= n && i + n <= s.len() {
        Some((s.subrange(i, i + n), i + n))
    } else {
        None
    }
}

pub open spec fn spec_parse_txin(s: Seq<u8>, i: int) -> Option<(TxInModel, int)> {
    match spec_parse_bytes(s, i, 32) {
        Some((txid, i1)) => match spec_parse_u32(s, i1) {
            Some((vout, i2)) => match spec_parse_varint(s, i2) {
                Some((slen, i3)) => match spec_parse_bytes(s, i3, slen as int) {
                    Some((script_sig, i4)) => match spec_parse_u32(s, i4) {
                        Some((sequence, i5)) => Some(
                            (TxInModel { txid, vout, script_sig, sequence }, i5),
                        ),
                        None => None,
                    },
                    None => None,
                },
                None => None,
            },
            None => None,
        },
        None => None,
    }
}

pub open spec fn spec_parse_txins(s: Seq<u8>, i: int, n: nat) -> Option<(Seq<TxInModel>, int)>
    decreases n,
{
    if n == 0 {
        Some((Seq::<TxInModel>::empty(), i))
    } else {
        match spec_parse_txin(s, i) {
            Some((x, j)) => match spec_parse_txins(s, j, (n - 1) as nat) {
                Some((rest, k)) => Some((seq![x] + rest, k)),
                None => None,
            },
            None => None,
        }
    }
}

pub open spec fn spec_parse_txout(s: Seq<u8>, i: int) -> Option<(TxOutModel, int)> {
    match spec_parse_u64(s, i) {
        Some((value, i1)) => match spec_parse_varint(s, i1) {
            Some((slen, i2)) => match spec_parse_bytes(s, i2, slen as int) {
                Some((script_pubkey, i3)) => Some((TxOutModel { value, script_pubkey }, i3)),
                None => None,
            },
            None => None,
        },
        None => None,
    }
}

pub open spec fn spec_parse_txouts(s: Seq<u8>, i: int, n: nat) -> Option<(Seq<TxOutModel>, int)>
    decreases n,
{
    if n == 0 {
        Some((Seq::<TxOutModel>::empty(), i))
    } else {
        match spec_parse_txout(s, i) {
            Some((x, j)) => match spec_parse_txouts(s, j, (n - 1) as nat) {
                Some((rest, k)) => Some((seq![x] + rest, k)),
                None => None,
            },
            None => None,
        }
    }
}

// ---------------------------------------------------------------------------
// Round trip: parsing a serialization yields the original value.
// ---------------------------------------------------------------------------

/// Splitting a known concatenation inside `s` into its two parts.
proof fn lemma_concat_split(s: Seq<u8>, i: int, a: Seq<u8>, b: Seq<u8>)
    requires
        0 <= i,
        i + a.len() + b.len() <= s.len(),
        s.subrange(i, i + a.len() + b.len()) == a + b,
    ensures
        s.subrange(i, i + a.len() as int) == a,
        s.subrange(i + a.len(), i + a.len() + b.len()) == b,
{
    assert forall|j: int| 0 <= j < a.len() implies s.subrange(i, i + a.len() as int)[j] == a[j] by {
        assert(s.subrange(i, i + a.len() + b.len())[j] == s[i + j]);
        assert((a + b)[j] == a[j]);
    }
    assert(s.subrange(i, i + a.len() as int) =~= a);
    assert forall|j: int|
        0 <= j < b.len() implies s.subrange(i + a.len(), i + a.len() + b.len())[j] == b[j] by {
        assert(s.subrange(i, i + a.len() + b.len())[a.len() + j] == s[i + a.len() + j]);
        assert((a + b)[a.len() + j] == b[j]);
    }
    assert(s.subrange(i + a.len(), i + a.len() + b.len()) =~= b);
}

proof fn lemma_parse_u16_of_ser(s: Seq<u8>, i: int, x: u16)
    requires
        0 <= i,
        i + 2 <= s.len(),
        s.subrange(i, i + 2) == spec_u16_to_le_bytes(x),
    ensures
        spec_parse_u16(s, i) == Some((x, i + 2)),
{
    lemma_auto_spec_u16_to_from_le_bytes();
    assert(spec_u16_to_le_bytes(x).len() == 2);
}

proof fn lemma_parse_u32_of_ser(s: Seq<u8>, i: int, x: u32)
    requires
        0 <= i,
        i + 4 <= s.len(),
        s.subrange(i, i + 4) == spec_u32_to_le_bytes(x),
    ensures
        spec_parse_u32(s, i) == Some((x, i + 4)),
{
    lemma_auto_spec_u32_to_from_le_bytes();
    assert(spec_u32_to_le_bytes(x).len() == 4);
}

proof fn lemma_parse_u64_of_ser(s: Seq<u8>, i: int, x: u64)
    requires
        0 <= i,
        i + 8 <= s.len(),
        s.subrange(i, i + 8) == spec_u64_to_le_bytes(x),
    ensures
        spec_parse_u64(s, i) == Some((x, i + 8)),
{
    lemma_auto_spec_u64_to_from_le_bytes();
    assert(spec_u64_to_le_bytes(x).len() == 8);
}

/// The compact-size length of any value is between 1 and 9 bytes.
pub proof fn lemma_varint_len(n: u64)
    ensures
        1 <= spec_varint(n).len() <= 9,
        n < 0xfd ==> spec_varint(n).len() == 1,
        0xfd <= n <= 0xffff ==> spec_varint(n).len() == 3,
        0xffff < n <= 0xffffffff ==> spec_varint(n).len() == 5,
        0xffffffff < n ==> spec_varint(n).len() == 9,
{
    lemma_auto_spec_u16_to_from_le_bytes();
    lemma_auto_spec_u32_to_from_le_bytes();
    lemma_auto_spec_u64_to_from_le_bytes();
    if 0xfd <= n <= 0xffff {
        assert(spec_u16_to_le_bytes(n as u16).len() == 2);
    } else if 0xffff < n <= 0xffffffff {
        assert(spec_u32_to_le_bytes(n as u32).len() == 4);
    } else if 0xffffffff < n {
        assert(spec_u64_to_le_bytes(n).len() == 8);
    }
}

proof fn lemma_parse_varint_of_ser(s: Seq<u8>, i: int, n: u64)
    requires
        0 <= i,
        i + spec_varint(n).len() <= s.len(),
        s.subrange(i, i + spec_varint(n).len() as int) == spec_varint(n),
    ensures
        spec_parse_varint(s, i) == Some((n, i + spec_varint(n).len())),
{
    lemma_varint_len(n);
    if n < 0xfd {
        assert(s.subrange(i, i + 1)[0] == s[i]);
        assert(s[i] == n as u8);
        assert((n as u8) as u64 == n);
    } else if n <= 0xffff {
        let b = spec_u16_to_le_bytes(n as u16);
        lemma_concat_split(s, i, seq![0xfdu8], b);
        assert(s.subrange(i, i + 1)[0] == s[i]);
        assert(s[i] == 0xfd);
        lemma_parse_u16_of_ser(s, i + 1, n as u16);
        assert((n as u16) as u64 == n);
    } else if n <= 0xffffffff {
        let b = spec_u32_to_le_bytes(n as u32);
        lemma_concat_split(s, i, seq![0xfeu8], b);
        assert(s.subrange(i, i + 1)[0] == s[i]);
        assert(s[i] == 0xfe);
        lemma_parse_u32_of_ser(s, i + 1, n as u32);
        assert((n as u32) as u64 == n);
    } else {
        let b = spec_u64_to_le_bytes(n);
        lemma_concat_split(s, i, seq![0xffu8], b);
        assert(s.subrange(i, i + 1)[0] == s[i]);
        assert(s[i] == 0xff);
        lemma_parse_u64_of_ser(s, i + 1, n);
    }
}

proof fn lemma_parse_txin_of_ser(s: Seq<u8>, i: int, x: TxInModel)
    requires
        x.txid.len() == 32,
        x.script_sig.len() <= u64::MAX,
        0 <= i,
        i + spec_ser_txin(x).len() <= s.len(),
        s.subrange(i, i + spec_ser_txin(x).len() as int) == spec_ser_txin(x),
    ensures
        spec_parse_txin(s, i) == Some((x, i + spec_ser_txin(x).len())),
{
    lemma_auto_spec_u32_to_from_le_bytes();
    assert(spec_u32_to_le_bytes(x.vout).len() == 4);
    assert(spec_u32_to_le_bytes(x.sequence).len() == 4);
    let sl = x.script_sig.len() as u64;
    let vb = spec_varint(sl);
    let vlen = vb.len() as int;
    let slen = x.script_sig.len() as int;
    lemma_varint_len(sl);
    let vout4 = spec_u32_to_le_bytes(x.vout);
    let seq4 = spec_u32_to_le_bytes(x.sequence);
    assert(spec_ser_txin(x) == x.txid + vout4 + vb + x.script_sig + seq4);
    lemma_concat_split(s, i, x.txid + vout4 + vb + x.script_sig, seq4);
    lemma_concat_split(s, i, x.txid + vout4 + vb, x.script_sig);
    lemma_concat_split(s, i, x.txid + vout4, vb);
    lemma_concat_split(s, i, x.txid, vout4);
    assert(spec_parse_bytes(s, i, 32) == Some((x.txid, i + 32)));
    lemma_parse_u32_of_ser(s, i + 32, x.vout);
    lemma_parse_varint_of_ser(s, i + 36, sl);
    assert(spec_parse_bytes(s, i + 36 + vlen, sl as int) == Some(
        (x.script_sig, i + 36 + vlen + slen),
    ));
    lemma_parse_u32_of_ser(s, i + 36 + vlen + slen, x.sequence);
}

proof fn lemma_parse_txins_of_ser(s: Seq<u8>, i: int, xs: Seq<TxInModel>)
    requires
        forall|j: int|
            0 <= j < xs.len() ==> {
                &&& (#[trigger] xs[j]).txid.len() == 32
                &&& xs[j].script_sig.len() <= u64::MAX
            },
        0 <= i,
        i + spec_ser_txins(xs).len() <= s.len(),
        s.subrange(i, i + spec_ser_txins(xs).len() as int) == spec_ser_txins(xs),
    ensures
        spec_parse_txins(s, i, xs.len()) == Some((xs, i + spec_ser_txins(xs).len())),
    decreases xs.len(),
{
    if xs.len() == 0 {
        assert(xs =~= Seq::<TxInModel>::empty());
    } else {
        let rest = xs.drop_first();
        let l0 = spec_ser_txin(xs[0]).len() as int;
        assert(spec_ser_txins(xs) == spec_ser_txin(xs[0]) + spec_ser_txins(rest));
        lemma_concat_split(s, i, spec_ser_txin(xs[0]), spec_ser_txins(rest));
        lemma_parse_txin_of_ser(s, i, xs[0]);
        assert(forall|j: int|
            0 <= j < rest.len() ==> {
                &&& (#[trigger] rest[j]).txid.len() == 32
                &&& rest[j].script_sig.len() <= u64::MAX
            });
        lemma_parse_txins_of_ser(s, i + l0, rest);
        assert(seq![xs[0]] + rest =~= xs);
    }
}

proof fn lemma_parse_txout_of_ser(s: Seq<u8>, i: int, x: TxOutModel)
    requires
        x.script_pubkey.len() <= u64::MAX,
        0 <= i,
        i + spec_ser_txout(x).len() <= s.len(),
        s.subrange(i, i + spec_ser_txout(x).len() as int) == spec_ser_txout(x),
    ensures
        spec_parse_txout(s, i) == Some((x, i + spec_ser_txout(x).len())),
{
    lemma_auto_spec_u64_to_from_le_bytes();
    assert(spec_u64_to_le_bytes(x.value).len() == 8);
    let sl = x.script_pubkey.len() as u64;
    let vb = spec_varint(sl);
    let vlen = vb.len() as int;
    let slen = x.script_pubkey.len() as int;
    lemma_varint_len(sl);
    let val8 = spec_u64_to_le_bytes(x.value);
    assert(spec_ser_txout(x) == val8 + vb + x.script_pubkey);
    lemma_concat_split(s, i, val8 + vb, x.script_pubkey);
    lemma_concat_split(s, i, val8, vb);
    lemma_parse_u64_of_ser(s, i, x.value);
    lemma_parse_varint_of_ser(s, i + 8, sl);
    assert(spec_parse_bytes(s, i + 8 + vlen, sl as int) == Some(
        (x.script_pubkey, i + 8 + vlen + slen),
    ));
}

proof fn lemma_parse_txouts_of_ser(s: Seq<u8>, i: int, xs: Seq<TxOutModel>)
    requires
        forall|j: int| 0 <= j < xs.len() ==> (#[trigger] xs[j]).script_pubkey.len() <= u64::MAX,
        0 <= i,
        i + spec_ser_txouts(xs).len() <= s.len(),
        s.subrange(i, i + spec_ser_txouts(xs).len() as int) == spec_ser_txouts(xs),
    ensures
        spec_parse_txouts(s, i, xs.len()) == Some((xs, i + spec_ser_txouts(xs).len())),
    decreases xs.len(),
{
    if xs.len() == 0 {
        assert(xs =~= Seq::<TxOutModel>::empty());
    } else {
        let rest = xs.drop_first();
        let l0 = spec_ser_txout(xs[0]).len() as int;
        assert(spec_ser_txouts(xs) == spec_ser_txout(xs[0]) + spec_ser_txouts(rest));
        lemma_concat_split(s, i, spec_ser_txout(xs[0]), spec_ser_txouts(rest));
        lemma_parse_txout_of_ser(s, i, xs[0]);
        lemma_parse_txouts_of_ser(s, i + l0, rest);
        assert(seq![xs[0]] + rest =~= xs);
    }
}

/// Round-trip law: re-parsing a serialized well-formed transaction yields
/// exactly the original inputs, outputs and fields.
pub proof fn lemma_tx_serialization_roundtrip(t: TxModel)
    requires
        t.wf(),
    ensures
        spec_parse_tx(spec_ser_tx(t)) == Some(t),
{
    lemma_auto_spec_u32_to_from_le_bytes();
    assert(spec_u32_to_le_bytes(t.version).len() == 4);
    assert(spec_u32_to_le_bytes(t.lock_time).len() == 4);
    let s = spec_ser_tx(t);
    let nin = t.inputs.len() as u64;
    let nout = t.outputs.len() as u64;
    let p0 = spec_u32_to_le_bytes(t.version);
    let p1 = spec_varint(nin);
    let p2 = spec_ser_txins(t.inputs);
    let p3 = spec_varint(nout);
    let p4 = spec_ser_txouts(t.outputs);
    let p5 = spec_u32_to_le_bytes(t.lock_time);
    lemma_varint_len(nin);
    lemma_varint_len(nout);
    let i1 = 4int;
    let i2 = i1 + p1.len() as int;
    let i3 = i2 + p2.len() as int;
    let i4 = i3 + p3.len() as int;
    let i5 = i4 + p4.len() as int;
    let i6 = i5 + 4;
    assert(s == p0 + p1 + p2 + p3 + p4 + p5);
    assert(s.len() == i6);
    assert(s.subrange(0, s.len() as int) =~= s);
    lemma_concat_split(s, 0, p0 + p1 + p2 + p3 + p4, p5);
    lemma_concat_split(s, 0, p0 + p1 + p2 + p3, p4);
    lemma_concat_split(s, 0, p0 + p1 + p2, p3);
    lemma_concat_split(s, 0, p0 + p1, p2);
    lemma_concat_split(s, 0, p0, p1);
    lemma_parse_u32_of_ser(s, 0, t.version);
    lemma_parse_varint_of_ser(s, i1, nin);
    lemma_parse_txins_of_ser(s, i2, t.inputs);
    lemma_parse_varint_of_ser(s, i3, nout);
    lemma_parse_txouts_of_ser(s, i4, t.outputs);
    lemma_parse_u32_of_ser(s, i5, t.lock_time);
}

/// Total parsing function for a whole transaction: `Some` exactly when the
/// bytes are one complete serialized transaction, with nothing trailing.
pub open spec fn spec_parse_tx(s: Seq<u8>) -> Option<TxModel> {
    match spec_parse_u32(s, 0) {
        Some((version, i1)) => match spec_parse_varint(s, i1) {
            Some((nin, i2)) => match spec_parse_txins(s, i2, nin as nat) {
                Some((inputs, i3)) => match spec_parse_varint(s, i3) {
                    Some((nout, i4)) => match spec_parse_txouts(s, i4, nout as nat) {
                        Some((outputs, i5)) => match spec_parse_u32(s, i5) {
                            Some((lock_time, i6)) => if i6 == s.len() {
                                Some(TxModel { version, inputs, outputs, lock_time })
                            } else {
                                None
                            },
                            None => None,
                        },
                        None => None,
                    },
                    None => None,
                },
                None => None,
            },
            None => None,
        },
        None => None,
    }
}


// ---------------------------------------------------------------------------
// Parsing, executable.  Each reader returns exactly what the corresponding
// specification-level parser returns.
// ---------------------------------------------------------------------------

fn read_u16_at(s: &[u8], i: usize) -> (r: Option<(u16, usize)>)
    ensures
        match r {
            Some((x, j)) => spec_parse_u16(s@, i as int) == Some((x, j as int)),
            None => spec_parse_u16(s@, i as int) is None,
        },
{
    if s.len() >= 2 && i <= s.len() - 2 {
        let x = u16_from_le_bytes(slice_subrange(s, i, i + 2));
        Some((x, i + 2))
    } else {
        None
    }
}

fn read_u32_at(s: &[u8], i: usize) -> (r: Option<(u32, usize)>)
    ensures
        match r {
            Some((x, j)) => spec_parse_u32(s@, i as int) == Some((x, j as int)),
            None => spec_parse_u32(s@, i as int) is None,
        },
{
    if s.len() >= 4 && i <= s.len() - 4 {
        let x = u32_from_le_bytes(slice_subrange(s, i, i + 4));
        Some((x, i + 4))
    } else {
        None
    }
}

fn read_u64_at(s: &[u8], i: usize) -> (r: Option<(u64, usize)>)
    ensures
        match r {
            Some((x, j)) => spec_parse_u64(s@, i as int) == Some((x, j as int)),
            None => spec_parse_u64(s@, i as int) is None,
        },
{
    if s.len() >= 8 && i <= s.len() - 8 {
        let x = u64_from_le_bytes(slice_subrange(s, i, i + 8));
        Some((x, i + 8))
    } else {
        None
    }
}

fn read_varint_at(s: &[u8], i: usize) -> (r: Option<(u64, usize)>)
    ensures
        match r {
            Some((x, j)) => spec_parse_varint(s@, i as int) == Some((x, j as int)),
            None => spec_parse_varint(s@, i as int) is None,
        },
{
    if i < s.len() {
        let b = *vstd::slice::slice_index_get(s, i);
        if b < 0xfd {
            Some((b as u64, i + 1))
        } else if b == 0xfd {
            match read_u16_at(s, i + 1) {
                Some((v, j)) => Some((v as u64, j)),
                None => None,
            }
        } else if b == 0xfe {
            match read_u32_at(s, i + 1) {
                Some((v, j)) => Some((v as u64, j)),
                None => None,
            }
        } else {
            read_u64_at(s, i + 1)
        }
    } else {
        None
    }
}

fn read_bytes_at(s: &[u8], i: usize, n: usize) -> (r: Option<(Vec<u8>, usize)>)
    ensures
        match r {
            Some((v, j)) => spec_parse_bytes(s@, i as int, n as int) == Some((v@, j as int)),
            None => spec_parse_bytes(s@, i as int, n as int) is None,
        },
{
    if n <= s.len() && i <= s.len() - n {
        let v = vstd::slice::slice_to_vec(slice_subrange(s, i, i + n));
        Some((v, i + n))
    } else {
        None
    }
}

fn read_txin_at(s: &[u8], i: usize) -> (r: Option<(TxIn, usize)>)
    ensures
        match r {
            Some((x, j)) => spec_parse_txin(s@, i as int) == Some((x@, j as int)),
            None => spec_parse_txin(s@, i as int) is None,
        },
{
    let (txid, i1) = match read_bytes_at(s, i, 32) {
        Some(p) => p,
        None => {
            return None;
        },
    };
    let (vout, i2) = match read_u32_at(s, i1) {
        Some(p) => p,
        None => {
            return None;
        },
    };
    let (slen, i3) = match read_varint_at(s, i2) {
        Some(p) => p,
        None => {
            return None;
        },
    };
    if slen > (s.len() - i3) as u64 {
        return None;
    }
    let (script_sig, i4) = match read_bytes_at(s, i3, slen as usize) {
        Some(p) => p,
        None => {
            return None;
        },
    };
    let (sequence, i5) = match read_u32_at(s, i4) {
        Some(p) => p,
        None => {
            return None;
        },
    };
    Some((TxIn { txid, vout, script_sig, sequence }, i5))
}

fn read_txout_at(s: &[u8], i: usize) -> (r: Option<(TxOut, usize)>)
    ensures
        match r {
            Some((x, j)) => spec_parse_txout(s@, i as int) == Some((x@, j as int)),
            None => spec_parse_txout(s@, i as int) is None,
        },
{
    let (value, i1) = match read_u64_at(s, i) {
        Some(p) => p,
        None => {
            return None;
        },
    };
    let (slen, i2) = match read_varint_at(s, i1) {
        Some(p) => p,
        None => {
            return None;
        },
    };
    if slen > (s.len() - i2) as u64 {
        return None;
    }
    let (script_pubkey, i3) = match read_bytes_at(s, i2, slen as usize) {
        Some(p) => p,
        None => {
            return None;
        },
    };
    Some((TxOut { value, script_pubkey }, i3))
}

/// Parses one complete serialized transaction.  Returns `None` exactly when
/// the bytes are not one whole transaction in the standard format.
#[verifier::loop_isolation(false)]
pub fn parse_transaction(s: &[u8]) -> (r: Option<Transaction>)
    ensures
        match r {
            Some(t) => spec_parse_tx(s@) == Some(t@),
            None => spec_parse_tx(s@) is None,
        },
{
    let (version, i1) = match read_u32_at(s, 0) {
        Some(p) => p,
        None => {
            return None;
        },
    };
    let (nin, i2) = match read_varint_at(s, i1) {
        Some(p) => p,
        None => {
            return None;
        },
    };
    let mut inputs: Vec<TxIn> = Vec::new();
    let mut cur: usize = i2;
    let mut k: u64 = 0;
    while k < nin
        invariant
            k <= nin,
            inputs@.len() == k,
            spec_parse_txins(s@, i2 as int, nin as nat) == (match spec_parse_txins(
                s@,
                cur as int,
                (nin - k) as nat,
            ) {
                Some((rest, end)) => Some(
                    (inputs@.map_values(|x: TxIn| x@) + rest, end),
                ),
                None => None::<(Seq<TxInModel>, int)>,
            }),
        decreases nin - k,
    {
        let (txin, j) = match read_txin_at(s, cur) {
            Some(p) => p,
            None => {
                proof {
                    assert(nin - k > 0);
                    assert(spec_parse_txins(s@, cur as int, (nin - k) as nat) is None);
                    assert(spec_parse_txins(s@, i2 as int, nin as nat) is None);
                }
                return None;
            },
        };
        proof {
            let pre = inputs@.map_values(|x: TxIn| x@);
            assert(spec_parse_txins(s@, cur as int, (nin - k) as nat) == (
            match spec_parse_txins(s@, j as int, (nin - k - 1) as nat) {
                Some((rest2, end)) => Some((seq![txin@] + rest2, end)),
                None => None::<(Seq<TxInModel>, int)>,
            }));
            assert(inputs@.push(txin).map_values(|x: TxIn| x@) =~= pre + seq![txin@]);
            match spec_parse_txins(s@, j as int, (nin - k - 1) as nat) {
                Some((rest2, end)) => {
                    assert((pre + seq![txin@]) + rest2 =~= pre + (seq![txin@] + rest2));
                },
                None => {},
            }
        }
        inputs.push(txin);
        cur = j;
        k = k + 1;
    }
    proof {
        assert(spec_parse_txins(s@, cur as int, 0) == Some(
            (Seq::<TxInModel>::empty(), cur as int),
        ));
        assert(inputs@.map_values(|x: TxIn| x@) + Seq::<TxInModel>::empty()
            =~= inputs@.map_values(|x: TxIn| x@));
    }
    let (nout, i4) = match read_varint_at(s, cur) {
        Some(p) => p,
        None => {
            return None;
        },
    };
    let mut outputs: Vec<TxOut> = Vec::new();
    let mut ocur: usize = i4;
    let mut m: u64 = 0;
    while m < nout
        invariant
            m <= nout,
            outputs@.len() == m,
            spec_parse_txouts(s@, i4 as int, nout as nat) == (match spec_parse_txouts(
                s@,
                ocur as int,
                (nout - m) as nat,
            ) {
                Some((rest, end)) => Some(
                    (outputs@.map_values(|x: TxOut| x@) + rest, end),
                ),
                None => None::<(Seq<TxOutModel>, int)>,
            }),
        decreases nout - m,
    {
        let (txout, j) = match read_txout_at(s, ocur) {
            Some(p) => p,
            None => {
                proof {
                    assert(nout - m > 0);
                    assert(spec_parse_txouts(s@, ocur as int, (nout - m) as nat) is None);
                    assert(spec_parse_txouts(s@, i4 as int, nout as nat) is None);
                }
                return None;
            },
        };
        proof {
            let pre = outputs@.map_values(|x: TxOut| x@);
            assert(spec_parse_txouts(s@, ocur as int, (nout - m) as nat) == (
            match spec_parse_txouts(s@, j as int, (nout - m - 1) as nat) {
                Some((rest2, end)) => Some((seq![txout@] + rest2, end)),
                None => None::<(Seq<TxOutModel>, int)>,
            }));
            assert(outputs@.push(txout).map_values(|x: TxOut| x@) =~= pre + seq![txout@]);
            match spec_parse_txouts(s@, j as int, (nout - m - 1) as nat) {
                Some((rest2, end)) => {
                    assert((pre + seq![txout@]) + rest2 =~= pre + (seq![txout@] + rest2));
                },
                None => {},
            }
        }
        outputs.push(txout);
        ocur = j;
        m = m + 1;
    }
    proof {
        assert(spec_parse_txouts(s@, ocur as int, 0) == Some(
            (Seq::<TxOutModel>::empty(), ocur as int),
        ));
        assert(outputs@.map_values(|x: TxOut| x@) + Seq::<TxOutModel>::empty()
            =~= outputs@.map_values(|x: TxOut| x@));
    }
    let (lock_time, i6) = match read_u32_at(s, ocur) {
        Some(p) => p,
        None => {
            return None;
        },
    };
    if i6 != s.len() {
        return None;
    }
    Some(Transaction { version, inputs, outputs, lock_time })
}

} // verus!

