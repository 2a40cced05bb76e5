//! Carriers that put a packed Assert witness into a Bitcoin transaction: a
//! chunked `OP_RETURN` output (default), and the Taproot annex (research helper).

use crate::witness::{WitnessError, MAGIC};
use bitcoin::script::{Builder, PushBytesBuf};
use vstd::prelude::*;

verus! {

#[verifier::external_type_specification]
#[verifier::external_body]
pub struct ExTransaction(bitcoin::Transaction);

/// The `OP_RETURN` opcode.
pub const OP_RETURN: u8 = 0x6a;

/// The annex marker byte of a Taproot witness.
pub const ANNEX_TAG: u8 = 0x50;

/// Largest data push used by the `OP_RETURN` carrier.
pub const MAX_PUSH: usize = 520;

/// The push opcode (and length bytes) that script uses for data of length `len`.
pub open spec fn push_prefix(len: nat) -> Seq<u8> {
    if len < 76 {
        seq![len as u8]
    } else if len < 0x100 {
        seq![0x4cu8, len as u8]
    } else if len < 0x10000 {
        seq![0x4du8, (len % 256) as u8, (len / 256) as u8]
    } else {
        seq![
            0x4eu8,
            (len % 256) as u8,
            ((len / 256) % 256) as u8,
            ((len / 65536) % 256) as u8,
            (len / 16777216) as u8,
        ]
    }
}

/// A data push: its prefix followed by the data.
pub open spec fn push_bytes(d: Seq<u8>) -> Seq<u8> {
    push_prefix(d.len()) + d
}

/// Calls `Builder::push_opcode` on a script given by its bytes.
#[verifier::external_body]
pub(crate) fn script_push_opcode(script: Vec<u8>, op: u8) -> (out: Vec<u8>)
    ensures
        out@ == script@.push(op),
{
    Builder::from(script).push_opcode(bitcoin::opcodes::Opcode::from(op)).into_bytes()
}

/// Calls `PushBytesBuf::try_from` and `Builder::push_slice` on a script given by
/// its bytes; refused when the data is 2^32 bytes or longer.
#[verifier::external_body]
pub(crate) fn script_push_slice(script: Vec<u8>, data: &[u8]) -> (out: Option<Vec<u8>>)
    ensures
        out is None <==> data@.len() >= 0x100000000,
        out matches Some(o) ==> o@ == script@ + push_bytes(data@),
{
    match PushBytesBuf::try_from(data.to_vec()) {
        Ok(p) => Some(Builder::from(script).push_slice(p).into_bytes()),
        Err(_) => None,
    }
}

/// The minimal script-number bytes of a positive integer: little-endian, with
/// a `0x00` appended when the top byte has its sign bit set.
pub open spec fn scriptnum_bytes(n: nat) -> Seq<u8>
    decreases n,
{
    if n > 255 {
        seq![(n % 256) as u8] + scriptnum_bytes(n / 256)
    } else if n >= 128 {
        seq![n as u8, 0u8]
    } else {
        seq![n as u8]
    }
}

/// The script bytes `Builder::push_int` emits for a non-negative integer:
/// `OP_0`, `OP_1`..`OP_16`, or a push of its script-number bytes.
pub open spec fn push_int_bytes(n: nat) -> Seq<u8> {
    if n == 0 {
        seq![0u8]
    } else if n <= 16 {
        seq![(0x50 + n) as u8]
    } else {
        push_bytes(scriptnum_bytes(n))
    }
}

/// Calls `Builder::push_int` on a script given by its bytes (non-negative
/// integers only).
#[verifier::external_body]
pub(crate) fn script_push_int(script: Vec<u8>, n: i64) -> (out: Vec<u8>)
    requires
        0 <= n,
    ensures
        out@ == script@ + push_int_bytes(n as nat),
{
    Builder::from(script).push_int(n).into_bytes()
}

/// The pushes of `blob` cut into chunks of at most 520 bytes.
pub open spec fn chunked_pushes(blob: Seq<u8>) -> Seq<u8>
    decreases blob.len(),
{
    if blob.len() == 0 {
        Seq::empty()
    } else if blob.len() <= 520 {
        push_bytes(blob)
    } else {
        push_bytes(blob.take(520)) + chunked_pushes(blob.skip(520))
    }
}

/// The bytes of the `OP_RETURN` script carrying `blob`.
pub open spec fn op_return_script_bytes(blob: Seq<u8>) -> Seq<u8> {
    seq![OP_RETURN] + chunked_pushes(blob)
}

/// Build the bytes of an `OP_RETURN` script carrying `blob` (chunked into
/// pushes of at most 520 bytes).
pub fn op_return_script(blob: &[u8]) -> (r: Result<Vec<u8>, WitnessError>)
    ensures
        r matches Ok(s) && s@ == op_return_script_bytes(blob@),
{
    let mut script: Vec<u8> = script_push_opcode(Vec::new(), OP_RETURN);
    let mut i: usize = 0;
    proof {
        assert(blob@.skip(0) =~= blob@);
    }
    while i < blob.len()
        invariant
            0 <= i <= blob@.len(),
            script@ + chunked_pushes(blob@.skip(i as int)) == op_return_script_bytes(blob@),
        decreases blob@.len() - i,
    {
        let end = if blob.len() - i > MAX_PUSH {
            i + MAX_PUSH
        } else {
            blob.len()
        };
        let chunk = vstd::slice::slice_subrange(blob, i, end);
        let ghost rest = blob@.skip(i as int);
        script = match script_push_slice(script, chunk) {
            Some(s) => s,
            None => return Err(WitnessError::BadFormat),
        };
        proof {
            if rest.len() <= 520 {
                assert(chunk@ =~= rest);
                assert(blob@.skip(end as int) =~= Seq::<u8>::empty());
                assert(chunked_pushes(rest) == push_bytes(rest));
            } else {
                assert(chunk@ =~= rest.take(520));
                assert(blob@.skip(end as int) =~= rest.skip(520));
            }
            assert(script@ + chunked_pushes(blob@.skip(end as int)) =~= op_return_script_bytes(
                blob@,
            ));
        }
        i = end;
    }
    proof {
        assert(blob@.skip(i as int) =~= Seq::<u8>::empty());
        assert(script@ =~= op_return_script_bytes(blob@));
    }
    Ok(script)
}

/// The data of the pushes from position `i` of a script, or `None` at an
/// opcode that is not a push of at most 65535 bytes, or at a push that
/// overruns the script.
pub open spec fn push_data_from(s: Seq<u8>, i: int) -> Option<Seq<u8>>
    decreases s.len() - i,
{
    if i < 0 || i >= s.len() {
        Some(Seq::empty())
    } else {
        let tag = s[i];
        let hdr: Option<(int, int)> = if tag <= 75 {
            Some((tag as int, i + 1))
        } else if tag == 0x4c && i + 1 < s.len() {
            Some((s[i + 1] as int, i + 2))
        } else if tag == 0x4d && i + 2 < s.len() {
            Some((s[i + 1] + 256 * s[i + 2], i + 3))
        } else {
            None
        };
        match hdr {
            None => None,
            Some((l, j)) => if j + l > s.len() {
                None
            } else {
                match push_data_from(s, j + l) {
                    Some(rest) => Some(s.subrange(j, j + l) + rest),
                    None => None,
                }
            },
        }
    }
}

/// Whether data starts with [`MAGIC`].
pub open spec fn starts_with_magic(d: Seq<u8>) -> bool {
    d.len() >= 4 && d.take(4) == MAGIC@
}

/// The packed witness found in a list of output scripts: the data of the first
/// `OP_RETURN` script whose pushes start with [`MAGIC`]; `None` when there is
/// none, or when an `OP_RETURN` script met first holds a malformed push.
pub open spec fn extract_from_scripts(scripts: Seq<Seq<u8>>) -> Option<Seq<u8>>
    decreases scripts.len(),
{
    if scripts.len() == 0 {
        None
    } else {
        let s = scripts[0];
        if s.len() == 0 || s[0] != OP_RETURN {
            extract_from_scripts(scripts.drop_first())
        } else {
            match push_data_from(s, 1) {
                None => None,
                Some(d) => if starts_with_magic(d) {
                    Some(d)
                } else {
                    extract_from_scripts(scripts.drop_first())
                },
            }
        }
    }
}

/// The data pushed by an `OP_RETURN` script, read from position 1.
pub fn op_return_push_data(script: &[u8]) -> (r: Option<Vec<u8>>)
    ensures
        match push_data_from(script@, 1) {
            Some(d) => r is Some && r->Some_0@ == d,
            None => r is None,
        },
{
    let mut data: Vec<u8> = Vec::new();
    let mut i: usize = 1;
    while i < script.len()
        invariant
            1 <= i,
            i <= script@.len() || script@.len() == 0,
            push_data_from(script@, 1) == match push_data_from(script@, i as int) {
                Some(rest) => Some(data@ + rest),
                None => None,
            },
        decreases script@.len() - i,
    {
        let ghost i0 = i as int;
        let tag = script[i];
        i = i + 1;
        let len: usize = if tag <= 75 {
            tag as usize
        } else if tag == 0x4c && i < script.len() {
            let l = script[i] as usize;
            i = i + 1;
            l
        } else if tag == 0x4d && script.len() - i > 1 {
            let l = script[i] as usize + 256 * (script[i + 1] as usize);
            i = i + 2;
            l
        } else {
            return None;
        };
        if len > script.len() - i {
            return None;
        }
        let chunk = vstd::slice::slice_subrange(script, i, i + len);
        let ghost old_data = data@;
        crate::hashing::append_bytes(&mut data, chunk);
        proof {
            assert(data@ =~= old_data + script@.subrange(i as int, i + len));
            match push_data_from(script@, i + len) {
                Some(rest) => {
                    assert(old_data + (script@.subrange(i as int, i + len) + rest) =~= data@ + rest);
                },
                None => {},
            }
        }
        i = i + len;
    }
    proof {
        assert(data@ + Seq::<u8>::empty() =~= data@);
    }
    Some(data)
}

fn has_magic_prefix(d: &Vec<u8>) -> (r: bool)
    ensures
        r == starts_with_magic(d@),
{
    if d.len() < 4 {
        return false;
    }
    let r = d[0] == MAGIC[0] && d[1] == MAGIC[1] && d[2] == MAGIC[2] && d[3] == MAGIC[3];
    proof {
        if r {
            assert(d@.take(4) =~= MAGIC@);
        } else {
            if d@.take(4) == MAGIC@ {
                assert(d@[0] == d@.take(4)[0]);
                assert(d@[1] == d@.take(4)[1]);
                assert(d@[2] == d@.take(4)[2]);
                assert(d@[3] == d@.take(4)[3]);
            }
        }
    }
    r
}

/// The bytes of each output script.
pub open spec fn scripts_view(scripts: Seq<Vec<u8>>) -> Seq<Seq<u8>> {
    Seq::new(scripts.len(), |i: int| scripts[i]@)
}

/// Recover the packed witness from the first `OP_RETURN` output script whose
/// data starts with [`MAGIC`].
pub fn extract_from_op_return_scripts(scripts: &Vec<Vec<u8>>) -> (r: Option<Vec<u8>>)
    ensures
        match extract_from_scripts(scripts_view(scripts@)) {
            Some(d) => r is Some && r->Some_0@ == d,
            None => r is None,
        },
{
    let ghost all = scripts_view(scripts@);
    let mut k: usize = 0;
    proof {
        assert(all.skip(0) =~= all);
    }
    while k < scripts.len()
        invariant
            0 <= k <= scripts@.len(),
            all == scripts_view(scripts@),
            extract_from_scripts(all) == extract_from_scripts(all.skip(k as int)),
        decreases scripts@.len() - k,
    {
        let s = &scripts[k];
        proof {
            assert(all.skip(k as int)[0] == s@);
            assert(all.skip(k as int).drop_first() =~= all.skip(k + 1));
        }
        if s.len() == 0 || s[0] != OP_RETURN {
            k = k + 1;
        } else {
            match op_return_push_data(s.as_slice()) {
                None => return None,
                Some(d) => {
                    if has_magic_prefix(&d) {
                        return Some(d);
                    }
                    k = k + 1;
                },
            }
        }
    }
    proof {
        assert(all.skip(k as int) =~= Seq::<Seq<u8>>::empty());
    }
    None
}

/// The bytes of the output scripts of a transaction, in output order.
pub uninterp spec fn tx_output_scripts(tx: bitcoin::Transaction) -> Seq<Seq<u8>>;

/// The witness stack of a transaction's first input (`None` without inputs).
pub uninterp spec fn tx_first_input_witness(tx: bitcoin::Transaction) -> Option<Seq<Seq<u8>>>;

/// Reads `tx.output`, mapping each `TxOut` to its `script_pubkey` bytes
/// (`ScriptBuf::as_bytes`); the result lists them in output order.
#[verifier::external_body]
fn output_scripts(tx: &bitcoin::Transaction) -> (r: Vec<Vec<u8>>)
    ensures
        scripts_view(r@) == tx_output_scripts(*tx),
{
    tx.output.iter().map(|o| o.script_pubkey.as_bytes().to_vec()).collect()
}

/// `Vec::push` on `tx.output` of a `TxOut` with value `Amount::ZERO` and
/// `ScriptBuf::from_bytes(script)`: the output scripts gain `script` at the
/// end; the inputs are untouched.
#[verifier::external_body]
fn push_zero_value_output(tx: &mut bitcoin::Transaction, script: Vec<u8>)
    ensures
        tx_output_scripts(*final(tx)) == tx_output_scripts(*old(tx)).push(script@),
        tx_first_input_witness(*final(tx)) == tx_first_input_witness(*old(tx)),
{
    tx.output.push(bitcoin::TxOut {
        value: bitcoin::Amount::ZERO,
        script_pubkey: bitcoin::ScriptBuf::from_bytes(script),
    });
}

/// Append a 0-value `OP_RETURN` output carrying the packed Assert witness.
/// Call before signing (outputs enter the sighash).
pub fn attach_op_return_output(tx: &mut bitcoin::Transaction, blob: &[u8]) -> (r: Result<
    (),
    WitnessError,
>)
    ensures
        r is Ok,
        tx_output_scripts(*final(tx)) == tx_output_scripts(*old(tx)).push(
            op_return_script_bytes(blob@),
        ),
        tx_first_input_witness(*final(tx)) == tx_first_input_witness(*old(tx)),
{
    let script = match op_return_script(blob) {
        Ok(s) => s,
        Err(e) => return Err(e),
    };
    push_zero_value_output(tx, script);
    Ok(())
}

/// Recover the packed Assert witness from the first `OP_RETURN` output whose
/// data starts with [`MAGIC`].
pub fn extract_from_op_return(tx: &bitcoin::Transaction) -> (r: Option<Vec<u8>>)
    ensures
        match extract_from_scripts(tx_output_scripts(*tx)) {
            Some(d) => r is Some && r->Some_0@ == d,
            None => r is None,
        },
{
    let scripts = output_scripts(tx);
    extract_from_op_return_scripts(&scripts)
}

/// The annex witness item carrying `blob`: `0x50 || blob`.
pub fn annex_item(blob: &[u8]) -> (item: Vec<u8>)
    ensures
        item@ == seq![ANNEX_TAG] + blob@,
{
    let mut annex: Vec<u8> = Vec::new();
    annex.push(ANNEX_TAG);
    crate::hashing::append_bytes(&mut annex, blob);
    annex
}

/// The packed witness in the annex of a witness stack: present when the stack
/// has at least two items and its last item is `0x50 || blob` with `blob`
/// starting with [`MAGIC`].
pub open spec fn extract_from_witness_items(items: Seq<Seq<u8>>) -> Option<Seq<u8>> {
    if items.len() < 2 {
        None
    } else {
        let last = items[items.len() - 1];
        if last.len() == 0 || last[0] != ANNEX_TAG {
            None
        } else if starts_with_magic(last.skip(1)) {
            Some(last.skip(1))
        } else {
            None
        }
    }
}

/// Extract the packed witness from an annex witness item, if present.
pub fn extract_from_annex(items: &Vec<Vec<u8>>) -> (r: Option<Vec<u8>>)
    ensures
        match extract_from_witness_items(scripts_view(items@)) {
            Some(d) => r is Some && r->Some_0@ == d,
            None => r is None,
        },
{
    if items.len() < 2 {
        return None;
    }
    let last = &items[items.len() - 1];
    if last.len() == 0 || last[0] != ANNEX_TAG {
        return None;
    }
    let blob = vstd::slice::slice_to_vec(vstd::slice::slice_subrange(last.as_slice(), 1, last.len()));
    proof {
        assert(blob@ =~= last@.skip(1));
        assert(scripts_view(items@)[items@.len() - 1] == last@);
    }
    if has_magic_prefix(&blob) {
        Some(blob)
    } else {
        None
    }
}

/// Reads `tx.input.first()` and, when there is one, its `witness` items
/// (`Witness::iter`, each copied to bytes) in order.
#[verifier::external_body]
fn first_input_witness(tx: &bitcoin::Transaction) -> (r: Option<Vec<Vec<u8>>>)
    ensures
        match r {
            None => tx_first_input_witness(*tx) is None,
            Some(items) => tx_first_input_witness(*tx) == Some(scripts_view(items@)),
        },
{
    tx.input.first().map(|i| i.witness.iter().map(|w| w.to_vec()).collect())
}

/// Extract the packed witness from the annex of the first input, if present.
pub fn extract_from_funding_witness(tx: &bitcoin::Transaction) -> (r: Option<Vec<u8>>)
    ensures
        match tx_first_input_witness(*tx) {
            None => r is None,
            Some(items) => match extract_from_witness_items(items) {
                Some(d) => r is Some && r->Some_0@ == d,
                None => r is None,
            },
        },
{
    match first_input_witness(tx) {
        None => None,
        Some(items) => extract_from_annex(&items),
    }
}

// ---------------------------------------------------------------------------
// Law: what the OP_RETURN carrier puts in, it gives back
// ---------------------------------------------------------------------------

proof fn lemma_push_header(pre: Seq<u8>, d: Seq<u8>, post: Seq<u8>)
    requires
        d.len() <= 520,
    ensures
        ({
            let s = pre + push_bytes(d) + post;
            let i = pre.len() as int;
            let j = i + push_prefix(d.len()).len();
            &&& s.subrange(j, j + d.len()) == d
            &&& (d.len() < 76 ==> s[i] == d.len() && s[i] <= 75)
            &&& (76 <= d.len() < 256 ==> s[i] == 0x4c && i + 1 < s.len() && s[i + 1] == d.len())
            &&& (256 <= d.len() ==> s[i] == 0x4d && i + 2 < s.len() && s[i + 1] + 256 * s[i + 2]
                == d.len())
        }),
{
    let s = pre + push_bytes(d) + post;
    let i = pre.len() as int;
    let p = push_prefix(d.len());
    let j = i + p.len();
    assert(s.subrange(j, j + d.len()) =~= d);
    assert(s[i] == p[0]);
    if d.len() >= 76 {
        assert(s[i + 1] == p[1]);
    }
    if d.len() >= 256 {
        assert(s[i + 2] == p[2]);
        let l = d.len();
        assert((l % 256) as u8 + 256 * ((l / 256) as u8) == l) by (nonlinear_arith)
            requires
                256 <= l <= 520,
        ;
    }
}

/// The pushes of a blob, read back from any position where they start, give the blob.
pub proof fn lemma_chunked_pushes_read_back(pre: Seq<u8>, blob: Seq<u8>)
    ensures
        push_data_from(pre + chunked_pushes(blob), pre.len() as int) == Some(blob),
    decreases blob.len(),
{
    let s = pre + chunked_pushes(blob);
    let i = pre.len() as int;
    if blob.len() == 0 {
        assert(s =~= pre);
    } else {
        let c = if blob.len() <= 520 {
            blob
        } else {
            blob.take(520)
        };
        let rest = if blob.len() <= 520 {
            Seq::<u8>::empty()
        } else {
            blob.skip(520)
        };
        assert(chunked_pushes(blob) == push_bytes(c) + chunked_pushes(rest)) by {
            if blob.len() <= 520 {
                assert(chunked_pushes(rest) =~= Seq::<u8>::empty());
                assert(push_bytes(c) + Seq::<u8>::empty() =~= push_bytes(c));
            }
        }
        assert(s =~= pre + push_bytes(c) + chunked_pushes(rest));
        lemma_push_header(pre, c, chunked_pushes(rest));
        let pre2 = pre + push_bytes(c);
        assert(s =~= pre2 + chunked_pushes(rest));
        lemma_chunked_pushes_read_back(pre2, rest);
        assert(c + rest =~= blob);
    }
}

/// Output scripts with a carrier script appended after scripts that are not
/// `OP_RETURN`: extraction returns exactly the carried blob when it starts
/// with [`MAGIC`].
pub proof fn lemma_op_return_roundtrip(before: Seq<Seq<u8>>, blob: Seq<u8>)
    requires
        forall|k: int| 0 <= k < before.len() ==> before[k].len() == 0 || before[k][0] != OP_RETURN,
        starts_with_magic(blob),
    ensures
        extract_from_scripts(before.push(op_return_script_bytes(blob))) == Some(blob),
    decreases before.len(),
{
    let all = before.push(op_return_script_bytes(blob));
    if before.len() == 0 {
        let s = op_return_script_bytes(blob);
        assert(all[0] == s);
        lemma_chunked_pushes_read_back(seq![OP_RETURN], blob);
    } else {
        assert(all[0] == before[0]);
        assert(all.drop_first() =~= before.drop_first().push(op_return_script_bytes(blob)));
        lemma_op_return_roundtrip(before.drop_first(), blob);
    }
}

/// Attaching the packed witness to a transaction whose outputs hold no
/// `OP_RETURN` script and extracting it again gives the witness back.
pub proof fn lemma_tx_op_return_roundtrip(
    before: bitcoin::Transaction,
    after: bitcoin::Transaction,
    blob: Seq<u8>,
)
    requires
        tx_output_scripts(after) == tx_output_scripts(before).push(op_return_script_bytes(blob)),
        forall|k: int|
            0 <= k < tx_output_scripts(before).len() ==> (#[trigger] tx_output_scripts(before)[k]).len()
                == 0 || tx_output_scripts(before)[k][0] != OP_RETURN,
        starts_with_magic(blob),
    ensures
        extract_from_scripts(tx_output_scripts(after)) == Some(blob),
{
    lemma_op_return_roundtrip(tx_output_scripts(before), blob);
}

/// A witness stack that ends with the annex item of a packed witness gives
/// the witness back.
pub proof fn lemma_annex_roundtrip(items: Seq<Seq<u8>>, blob: Seq<u8>)
    requires
        items.len() >= 1,
        starts_with_magic(blob),
    ensures
        extract_from_witness_items(items.push(seq![ANNEX_TAG] + blob)) == Some(blob),
{
    let all = items.push(seq![ANNEX_TAG] + blob);
    let last = all[all.len() - 1];
    assert(last == seq![ANNEX_TAG] + blob);
    assert(last.skip(1) =~= blob);
}

} // verus!
