//! World snapshot data: the bit-packed dense-array encoder and the chunk and
//! heightmap types built on it.
//!
//! Arrays of small integers are packed least-significant-bit-first into
//! 64-bit words at an arbitrary width from 1 to 32 bits.  Two policies
//! exist and must not be conflated: the spanning policy (block states,
//! biomes) packs entries back to back so that an entry may straddle a word
//! boundary; the padded policy (heightmaps) flushes a word as soon as the
//! next entry would not fully fit, so every entry stays within one word.
//! Unpacking is the exact inverse of each policy.

use vstd::arithmetic::div_mod::{lemma_fundamental_div_mod, lemma_fundamental_div_mod_converse};
use vstd::arithmetic::mul::lemma_mul_inequality;
use vstd::prelude::*;

use crate::varint::VarInt;

verus! {

/// The 64-bit mask keeping the low `w` bits, for `0 <= w <= 32`.
pub open spec fn mask64(w: int) -> u64 {
    ((1u64 << (w as u64)) - 1) as u64
}

/// `v` fits in `w` bits: all higher bits are zero.
pub open spec fn fits(v: u64, w: int) -> bool {
    v >> (w as u64) == 0
}

proof fn lemma_mask64_def(w: int)
    requires
        0 <= w <= 63,
    ensures
        mask64(w) == (1u64 << (w as u64)) - 1,
        w <= 32 ==> mask64(w) <= 0xffffffffu64,
{
    let ww = w as u64;
    assert(1u64 << ww >= 1 && (ww <= 32 ==> (1u64 << ww) - 1 <= 0xffffffffu64)) by (bit_vector)
        requires
            ww <= 63,
    ;
}

/// The `w`-bit value whose lowest bit sits at absolute bit position `lo` of
/// the bit stream formed by `words` (bits of each word taken from least to
/// most significant, words in order).
pub open spec fn entry_at_bit(words: Seq<u64>, w: int, lo: int) -> u64 {
    let wi = lo / 64;
    let off = lo % 64;
    if off + w <= 64 {
        (words[wi] >> (off as u64)) & mask64(w)
    } else {
        ((words[wi] >> (off as u64)) | (words[wi + 1] << ((64 - off) as u64))) & mask64(w)
    }
}

/// Entry `i` of a spanning-packed array of `w`-bit entries.
pub open spec fn spanning_entry(words: Seq<u64>, w: int, i: int) -> u64 {
    entry_at_bit(words, w, i * w)
}

/// Entry `i` of a padded-packed array of `w`-bit entries: `64 / w` entries
/// per word, never straddling a boundary.
pub open spec fn padded_entry(words: Seq<u64>, w: int, i: int) -> u64 {
    let epw = 64int / w;
    (words[i / epw] >> (((i % epw) * w) as u64)) & mask64(w)
}

/// Appending a word leaves every entry that ends within the existing words
/// unchanged.
proof fn lemma_spanning_push(ws: Seq<u64>, x: u64, w: int, i: int)
    requires
        1 <= w <= 32,
        0 <= i,
        (i + 1) * w <= 64 * ws.len(),
    ensures
        spanning_entry(ws.push(x), w, i) == spanning_entry(ws, w, i),
{
    let lo = i * w;
    lemma_mul_inequality(0, i, w);
    lemma_fundamental_div_mod(lo, 64);
    assert(lo + w == (i + 1) * w) by (nonlinear_arith)
        requires
            lo == i * w,
    ;
    let wi = lo / 64;
    let off = lo % 64;
    if off + w <= 64 {
        assert(wi < ws.len());
        assert(ws.push(x)[wi] == ws[wi]);
    } else {
        assert(64 * (wi + 1) < lo + w);
        assert(wi + 1 < ws.len());
        assert(ws.push(x)[wi] == ws[wi]);
        assert(ws.push(x)[wi + 1] == ws[wi + 1]);
    }
}

/// Entries that end at or below bit `64 * (len - 1) + off` read the same
/// from two equally long word sequences that agree on every word but the
/// last and on the last word's bits below `off`.
proof fn lemma_spanning_agree_below(ws1: Seq<u64>, ws2: Seq<u64>, w: int, i: int, off: int)
    requires
        1 <= w <= 32,
        0 < off < 64,
        ws1.len() == ws2.len(),
        ws1.len() >= 1,
        forall|j: int| 0 <= j < ws1.len() - 1 ==> ws1[j] == ws2[j],
        ws1.last() & mask64(off) == ws2.last() & mask64(off),
        0 <= i,
        (i + 1) * w <= 64 * (ws1.len() - 1) + off,
    ensures
        spanning_entry(ws1, w, i) == spanning_entry(ws2, w, i),
{
    let lo = i * w;
    let last = ws1.len() - 1;
    lemma_mul_inequality(0, i, w);
    lemma_fundamental_div_mod(lo, 64);
    assert(lo + w == (i + 1) * w) by (nonlinear_arith)
        requires
            lo == i * w,
    ;
    let wi = lo / 64;
    lemma_mask64_def(w);
    lemma_mask64_def(off);
    let ghost o: u64 = (lo % 64) as u64;
    let ghost ww: u64 = w as u64;
    let ghost offu: u64 = off as u64;
    let ghost m: u64 = mask64(w);
    let ghost mo: u64 = mask64(off);
    let ghost a1: u64 = ws1.last();
    let ghost a2: u64 = ws2.last();
    if o + ww <= 64 {
        assert(wi <= last);
        if wi < last {
            assert(ws1[wi] == ws2[wi]);
        } else {
            assert(lo % 64 + w <= off);
            assert(((a1 >> o) & m) == ((a2 >> o) & m)) by (bit_vector)
                requires
                    (a1 & mo) == (a2 & mo),
                    mo == (1u64 << offu) - 1,
                    m == (1u64 << ww) - 1,
                    o < 64,
                    1 <= ww <= 32,
                    0 < offu < 64,
                    o + ww <= offu,
            ;
        }
    } else {
        assert(64 * (wi + 1) < lo + w);
        assert(wi + 1 <= last);
        assert(ws1[wi] == ws2[wi]);
        if wi + 1 < last {
            assert(ws1[wi + 1] == ws2[wi + 1]);
        } else {
            assert(lo % 64 + w - 64 <= off);
            let ghost x: u64 = ws1[wi];
            assert((((x >> o) | (a1 << ((64 - o) as u64))) & m) == (((x >> o) | (a2 << ((64 - o) as u64))) & m))
                by (bit_vector)
                requires
                    (a1 & mo) == (a2 & mo),
                    mo == (1u64 << offu) - 1,
                    m == (1u64 << ww) - 1,
                    o < 64,
                    1 <= ww <= 32,
                    0 < offu < 64,
                    o + ww > 64,
                    o + ww - 64 <= offu,
            ;
        }
    }
}

/// Converts the provided entries into a spanning-packed data array with the
/// specified bits per entry: `ceil(len * w / 64)` words out, and every
/// entry recoverable from the words at its bit position, which makes
/// unpacking the exact inverse of packing.
pub fn pack_data_array(entries: &[VarInt], bits_per_entry: usize) -> (r: Vec<u64>)
    requires
        1 <= bits_per_entry <= 32,
        forall|i: int|
            0 <= i < entries@.len() ==> fits(
                #[trigger] (entries@[i].0 as u64),
                bits_per_entry as int,
            ),
    ensures
        r@.len() == (entries@.len() * bits_per_entry + 63) / 64,
        forall|i: int|
            0 <= i < entries@.len() ==> spanning_entry(r@, bits_per_entry as int, i) == entries@[
                i
            ].0 as u64,
{
    let w = bits_per_entry;
    let ghost wi = w as int;
    let mut output: Vec<u64> = Vec::new();
    let mut acc: u64 = 0;
    let mut off: usize = 0;
    let mut k: usize = 0;
    proof {
        assert(0u64 >> (0 as u64) == 0) by (bit_vector);
    }
    while k < entries.len()
        invariant
            1 <= w <= 32,
            wi == w as int,
            forall|i: int| 0 <= i < entries@.len() ==> fits(#[trigger] (entries@[i].0 as u64), wi),
            0 <= k <= entries@.len(),
            off < 64,
            k * wi == 64 * output@.len() + off,
            acc >> (off as u64) == 0,
            forall|i: int|
                0 <= i < k ==> spanning_entry(output@.push(acc), wi, i) == entries@[i].0 as u64,
        decreases entries@.len() - k,
    {
        let v = entries[k].0 as u64;
        let ghost old_output = output@;
        let ghost old_acc = acc;
        let ghost kk = k as int;
        let ghost ou: u64 = off as u64;
        let ghost wu: u64 = w as u64;
        let ghost old_off = off as int;
        proof {
            lemma_fundamental_div_mod_converse(kk * wi, 64, old_output.len() as int, old_off);
            lemma_mask64_def(wi);
            lemma_mask64_def(old_off);
        }
        let new_acc = acc | (v << (off as u64));
        let ghost m: u64 = mask64(wi);
        let ghost mo: u64 = mask64(old_off);
        proof {
            // earlier entries read only bits below `off` of the last word
            if old_off > 0 {
                assert((old_acc & mo) == ((old_acc | (v << ou)) & mo)) by (bit_vector)
                    requires
                        old_acc >> ou == 0,
                        mo == (1u64 << ou) - 1,
                        0 < ou < 64,
                ;
            }
            assert forall|i: int| 0 <= i < kk implies spanning_entry(
                old_output.push(new_acc),
                wi,
                i,
            ) == entries@[i].0 as u64 by {
                lemma_mul_inequality(i + 1, kk, wi);
                if old_off > 0 {
                    lemma_spanning_agree_below(
                        old_output.push(old_acc),
                        old_output.push(new_acc),
                        wi,
                        i,
                        old_off,
                    );
                } else {
                    lemma_spanning_push(old_output, old_acc, wi, i);
                    lemma_spanning_push(old_output, new_acc, wi, i);
                }
            }
            // the new entry reads back as `v` from its word (and the next)
            if old_off + wi <= 64 {
                assert(((new_acc >> ou) & m) == v) by (bit_vector)
                    requires
                        new_acc == old_acc | (v << ou),
                        old_acc >> ou == 0,
                        v >> wu == 0,
                        m == (1u64 << wu) - 1,
                        ou < 64,
                        1 <= wu <= 32,
                        ou + wu <= 64,
                ;
            } else {
                assert((((new_acc >> ou) | ((v >> ((64 - ou) as u64)) << ((64 - ou) as u64))) & m) == v)
                    by (bit_vector)
                    requires
                        new_acc == old_acc | (v << ou),
                        old_acc >> ou == 0,
                        v >> wu == 0,
                        m == (1u64 << wu) - 1,
                        ou < 64,
                        1 <= wu <= 32,
                        ou + wu > 64,
                ;
            }
        }
        acc = new_acc;
        if off + w >= 64 {
            output.push(acc);
            if off + w > 64 {
                acc = v >> ((64 - off) as u64);
                proof {
                    assert((v >> ((64 - ou) as u64)) >> ((ou + wu - 64) as u64) == 0) by (bit_vector)
                        requires
                            v >> wu == 0,
                            ou < 64,
                            1 <= wu <= 32,
                            ou + wu > 64,
                    ;
                }
            } else {
                acc = 0;
                proof {
                    assert(0u64 >> (0 as u64) == 0) by (bit_vector);
                }
            }
            off = off + w - 64;
        } else {
            off = off + w;
            proof {
                assert((old_acc | (v << ou)) >> (ou + wu) == 0) by (bit_vector)
                    requires
                        old_acc >> ou == 0,
                        v >> wu == 0,
                        ou < 64,
                        1 <= wu <= 32,
                        ou + wu < 64,
                ;
            }
        }
        k = k + 1;
        proof {
            assert((kk + 1) * wi == kk * wi + wi) by (nonlinear_arith);
            let new_vw = output@.push(acc);
            let mid_vw = old_output.push(new_acc);
            assert forall|i: int| 0 <= i < k implies spanning_entry(new_vw, wi, i) == entries@[
                i
            ].0 as u64 by {
                if old_off + wi >= 64 {
                    assert(new_vw =~= mid_vw.push(acc));
                    if i < kk {
                        lemma_mul_inequality(i + 1, kk, wi);
                        lemma_spanning_push(mid_vw, acc, wi, i);
                    } else {
                        assert(i * wi == kk * wi);
                        assert(new_vw[old_output.len() as int] == new_acc);
                        if old_off + wi > 64 {
                            assert(new_vw[old_output.len() as int + 1] == acc);
                        }
                    }
                } else {
                    assert(new_vw =~= mid_vw);
                    if i == kk {
                        assert(i * wi == kk * wi);
                    }
                }
            }
        }
    }
    if off > 0 {
        output.push(acc);
        proof {
            lemma_fundamental_div_mod_converse(
                k as int * wi + 63,
                64,
                output@.len() as int,
                off - 1,
            );
        }
    } else {
        proof {
            assert(acc == 0) by (bit_vector)
                requires
                    acc >> (0 as u64) == 0,
            ;
            assert forall|i: int| 0 <= i < k implies spanning_entry(output@, wi, i) == entries@[
                i
            ].0 as u64 by {
                lemma_mul_inequality(i + 1, k as int, wi);
                lemma_spanning_push(output@, acc, wi, i);
            }
            if k > 0 {
                lemma_fundamental_div_mod_converse(
                    k as int * wi + 63,
                    64,
                    output@.len() as int,
                    63,
                );
            }
        }
    }
    output
}

/// Facts about `64 / w`, the number of whole `w`-bit entries in one word.
proof fn lemma_epw(w: int)
    requires
        1 <= w <= 32,
    ensures
        ({
            let epw = 64int / w;
            &&& 2 <= epw <= 64
            &&& epw * w <= 64
            &&& 64 - w < epw * w
        }),
{
    lemma_fundamental_div_mod(64, w);
    vstd::arithmetic::div_mod::lemma_mod_bound(64, w);
    let epw = 64int / w;
    assert(64 == w * epw + 64int % w);
    assert(w * epw == epw * w) by (nonlinear_arith);
    if epw < 2 {
        assert(epw * w <= 1 * w) by (nonlinear_arith)
            requires
                epw <= 1,
                w >= 1,
        ;
    }
    if epw > 64 {
        assert(epw * w >= 65 * w) by (nonlinear_arith)
            requires
                epw >= 65,
                w >= 1,
        ;
    }
}

/// Appending a word leaves every padded entry within the existing words
/// unchanged.
proof fn lemma_padded_push(ws: Seq<u64>, x: u64, w: int, i: int)
    requires
        1 <= w <= 32,
        0 <= i,
        i < (64int / w) * ws.len(),
    ensures
        padded_entry(ws.push(x), w, i) == padded_entry(ws, w, i),
{
    let epw = 64int / w;
    lemma_epw(w);
    let n = ws.len() as int;
    lemma_fundamental_div_mod(i, epw);
    vstd::arithmetic::div_mod::lemma_mod_bound(i, epw);
    let q = i / epw;
    let r = i % epw;
    if q >= n {
        lemma_mul_inequality(n, q, epw);
        assert(q * epw == epw * q) by (nonlinear_arith);
        assert(n * epw == epw * n) by (nonlinear_arith);
        assert(i == epw * q + r && r >= 0);
        assert(i >= epw * n);
        assert(i < epw * n);
        assert(false);
    }
    assert(ws.push(x)[q] == ws[q]);
}

/// Padded entries that sit below entry slot `cnt` of the last word read the
/// same from two equally long word sequences that agree on every word but
/// the last and on the last word's bits below `cnt * w`.
proof fn lemma_padded_agree_below(ws1: Seq<u64>, ws2: Seq<u64>, w: int, i: int, cnt: int)
    requires
        1 <= w <= 32,
        0 <= cnt < 64int / w,
        ws1.len() == ws2.len(),
        ws1.len() >= 1,
        forall|j: int| 0 <= j < ws1.len() - 1 ==> ws1[j] == ws2[j],
        ws1.last() & mask64(cnt * w) == ws2.last() & mask64(cnt * w),
        0 <= i,
        i < (64int / w) * (ws1.len() - 1) + cnt,
    ensures
        padded_entry(ws1, w, i) == padded_entry(ws2, w, i),
{
    let epw = 64int / w;
    let last = ws1.len() - 1;
    lemma_epw(w);
    lemma_fundamental_div_mod(i, epw);
    vstd::arithmetic::div_mod::lemma_mod_bound(i, epw);
    let q = i / epw;
    let slot = i % epw;
    if q > last {
        lemma_mul_inequality(last + 1, q, epw);
        assert(epw * (last + 1) == (last + 1) * epw) by (nonlinear_arith);
        assert(q * epw == epw * q) by (nonlinear_arith);
        assert(epw * (last + 1) == epw * last + epw) by (nonlinear_arith);
        assert(false);
    }
    if q < last {
        assert(ws1[q] == ws2[q]);
    } else {
        assert(epw * last == last * epw) by (nonlinear_arith);
        assert(slot < cnt);
        assert((slot + 1) * w <= cnt * w) by (nonlinear_arith)
            requires
                slot + 1 <= cnt,
                w >= 1,
        ;
        assert(slot * w + w == (slot + 1) * w) by (nonlinear_arith);
        assert(cnt * w <= (epw - 1) * w) by (nonlinear_arith)
            requires
                cnt <= epw - 1,
                w >= 1,
        ;
        assert((epw - 1) * w == epw * w - w) by (nonlinear_arith);
        lemma_mask64_def(w);
        lemma_mask64_def(cnt * w);
        let ghost o: u64 = (slot * w) as u64;
        let ghost co: u64 = (cnt * w) as u64;
        let ghost ww: u64 = w as u64;
        let ghost m: u64 = mask64(w);
        let ghost mo: u64 = mask64(cnt * w);
        let ghost a1: u64 = ws1.last();
        let ghost a2: u64 = ws2.last();
        assert(((a1 >> o) & m) == ((a2 >> o) & m)) by (bit_vector)
            requires
                (a1 & mo) == (a2 & mo),
                mo == (1u64 << co) - 1,
                m == (1u64 << ww) - 1,
                o + ww <= co,
                co <= 63,
                1 <= ww <= 32,
        ;
    }
}

/// Converts the provided entries into a padded-packed data array with the
/// specified bits per entry: a word is flushed (zero padded) as soon as the
/// next entry would not fully fit, so `ceil(len / (64 / w))` words come out
/// and every entry is recoverable from the word holding it.
pub fn pack_data_array_padded(entries: &[u64], bits_per_entry: usize) -> (r: Vec<u64>)
    requires
        1 <= bits_per_entry <= 32,
        forall|i: int|
            0 <= i < entries@.len() ==> fits(#[trigger] entries@[i], bits_per_entry as int),
    ensures
        r@.len() == (entries@.len() + (64int / (bits_per_entry as int)) - 1) / (64int / (
        bits_per_entry as int)),
        forall|i: int|
            0 <= i < entries@.len() ==> padded_entry(r@, bits_per_entry as int, i) == entries@[i],
{
    let w = bits_per_entry;
    let ghost ws = w as int;
    let epw: usize = 64 / w;
    proof {
        lemma_epw(ws);
        assert(0u64 >> (0 as u64) == 0) by (bit_vector);
    }
    let mut output: Vec<u64> = Vec::new();
    let mut acc: u64 = 0;
    let mut cnt: usize = 0;
    let mut k: usize = 0;
    proof {
        assert((epw as int) * 0int == 0int) by (nonlinear_arith);
        assert(0int * (w as int) == 0int) by (nonlinear_arith);
    }
    while k < entries.len()
        invariant
            1 <= w <= 32,
            ws == w as int,
            epw as int == 64int / ws,
            2 <= epw <= 64,
            forall|i: int| 0 <= i < entries@.len() ==> fits(#[trigger] entries@[i], ws),
            0 <= k <= entries@.len(),
            0 <= cnt <= epw,
            k as int == epw * output@.len() + cnt,
            cnt < epw ==> acc >> ((cnt * w) as u64) == 0,
            forall|i: int|
                0 <= i < k ==> padded_entry(output@.push(acc), ws, i) == entries@[i],
        decreases entries@.len() - k,
    {
        let ghost pre_output = output@;
        let ghost pre_acc = acc;
        let ghost pre_cnt = cnt as int;
        if cnt == epw {
            output.push(acc);
            acc = 0;
            cnt = 0;
            proof {
                assert(0u64 >> (0 as u64) == 0) by (bit_vector);
                let epi = epw as int;
                let pl = pre_output.len() as int;
                assert(epi * (pl + 1) == epi * pl + epi) by (nonlinear_arith);
                assert forall|i: int| 0 <= i < k implies padded_entry(
                    output@.push(acc),
                    ws,
                    i,
                ) == entries@[i] by {
                    assert(output@.push(acc) =~= pre_output.push(pre_acc).push(0u64));
                    lemma_padded_push(pre_output.push(pre_acc), 0u64, ws, i);
                }
            }
        }
        let ghost old_output = output@;
        let ghost old_acc = acc;
        let ghost old_cnt = cnt as int;
        let ghost kk = k as int;
        proof {
            let epi = epw as int;
            let ol = old_output.len() as int;
            lemma_epw(ws);
            assert(epi * ol == ol * epi) by (nonlinear_arith);
            lemma_fundamental_div_mod_converse(kk, epi, ol, old_cnt);
            assert(old_cnt * ws + ws == (old_cnt + 1) * ws) by (nonlinear_arith);
            assert((old_cnt + 1) * ws <= epi * ws) by (nonlinear_arith)
                requires
                    old_cnt + 1 <= epi,
                    ws >= 1,
            ;
            assert(epi * ws <= 64);
            assert(0 <= old_cnt * ws) by (nonlinear_arith)
                requires
                    old_cnt >= 0,
                    ws >= 0,
            ;
            lemma_mask64_def(ws);
            lemma_mask64_def(old_cnt * ws);
        }
        let v = entries[k];
        let shift: usize = cnt * w;
        let new_acc = acc | (v << (shift as u64));
        let ghost ou: u64 = shift as u64;
        let ghost wu: u64 = w as u64;
        let ghost m: u64 = mask64(ws);
        let ghost mo: u64 = mask64(old_cnt * ws);
        proof {
            assert(shift as int == old_cnt * ws);
            assert(ou == (old_cnt * ws) as u64);
            if old_cnt > 0 {
                assert(old_cnt * ws >= 1 * 1) by (nonlinear_arith)
                    requires
                        old_cnt >= 1,
                        ws >= 1,
                ;
                assert((old_acc & mo) == ((old_acc | (v << ou)) & mo)) by (bit_vector)
                    requires
                        old_acc >> ou == 0,
                        mo == (1u64 << ou) - 1,
                        0 < ou < 64,
                ;
            }
            assert forall|i: int| 0 <= i < kk implies padded_entry(
                old_output.push(new_acc),
                ws,
                i,
            ) == entries@[i] by {
                if old_cnt > 0 {
                    lemma_padded_agree_below(
                        old_output.push(old_acc),
                        old_output.push(new_acc),
                        ws,
                        i,
                        old_cnt,
                    );
                } else {
                    lemma_padded_push(old_output, old_acc, ws, i);
                    lemma_padded_push(old_output, new_acc, ws, i);
                }
            }
            assert(((new_acc >> ou) & m) == v) by (bit_vector)
                requires
                    new_acc == old_acc | (v << ou),
                    old_acc >> ou == 0,
                    v >> wu == 0,
                    m == (1u64 << wu) - 1,
                    ou < 64,
                    1 <= wu <= 32,
                    ou + wu <= 64,
            ;
            assert(new_acc >> (ou + wu) == 0 || ou + wu >= 64) by (bit_vector)
                requires
                    new_acc == old_acc | (v << ou),
                    old_acc >> ou == 0,
                    v >> wu == 0,
                    ou < 64,
                    1 <= wu <= 32,
                    ou + wu <= 64,
            ;
        }
        acc = new_acc;
        cnt = cnt + 1;
        k = k + 1;
        proof {
            let new_vw = output@.push(acc);
            assert forall|i: int| 0 <= i < k implies padded_entry(new_vw, ws, i) == entries@[
                i
            ] by {
                if i == kk {
                    assert(new_vw[old_output.len() as int] == new_acc);
                    assert((((old_cnt * ws) as u64)) == ou);
                }
            }
            if cnt < epw {
                assert((old_cnt + 1) * ws <= ((epw as int) - 1) * ws) by (nonlinear_arith)
                    requires
                        old_cnt + 1 <= (epw as int) - 1,
                        ws >= 1,
                ;
                assert(((epw as int) - 1) * ws == (epw as int) * ws - ws) by (nonlinear_arith);
                assert((old_cnt + 1) * ws < 64);
                assert(((cnt as int) * ws) as u64 == ou + wu);
            }
        }
    }
    if cnt > 0 {
        output.push(acc);
        proof {
            let epi = epw as int;
            let nl = output@.len() as int;
            assert(epi * nl == epi * (nl - 1) + epi && epi * nl == nl * epi) by (nonlinear_arith);
            lemma_fundamental_div_mod_converse(
                k as int + epi - 1,
                epi,
                nl,
                cnt as int - 1,
            );
            assert forall|i: int| 0 <= i < k implies padded_entry(output@, ws, i) == entries@[
                i
            ] by {
                assert(output@ =~= output@.subrange(0, output@.len() - 1).push(acc));
                assert(padded_entry(output@, ws, i) == padded_entry(
                    output@.subrange(0, output@.len() - 1).push(acc),
                    ws,
                    i,
                ));
            }
        }
    } else {
        proof {
            let epi = epw as int;
            assert(acc == 0) by (bit_vector)
                requires
                    acc >> (0 as u64) == 0,
            ;
            assert forall|i: int| 0 <= i < k implies padded_entry(output@, ws, i) == entries@[
                i
            ] by {
                lemma_padded_push(output@, acc, ws, i);
            }
            let nl = output@.len() as int;
            assert(epi * nl == nl * epi) by (nonlinear_arith);
            lemma_fundamental_div_mod_converse(
                k as int + epi - 1,
                epi,
                nl,
                epi - 1,
            );
        }
    }
    output
}

/// Decodes a padded-packed data array: the exact inverse of
/// `pack_data_array_padded`.
pub fn unpack_data_array_padded(words: &[u64], bits_per_entry: usize, count: usize) -> (r: Vec<
    u64,
>)
    requires
        1 <= bits_per_entry <= 32,
        count as int <= (64int / (bits_per_entry as int)) * words@.len(),
    ensures
        r@.len() == count,
        forall|i: int|
            0 <= i < count ==> #[trigger] r@[i] == padded_entry(words@, bits_per_entry as int, i),
{
    let w = bits_per_entry;
    let ghost ws = w as int;
    let epw: usize = 64 / w;
    proof {
        lemma_epw(ws);
        assert(1u64 << (w as u64) >= 1) by (bit_vector)
            requires
                w as u64 <= 32,
        ;
        lemma_mask64_def(ws);
    }
    let mask: u64 = (1u64 << (w as u64)) - 1;
    let mut out: Vec<u64> = Vec::new();
    let mut i: usize = 0;
    while i < count
        invariant
            1 <= w <= 32,
            ws == w as int,
            epw as int == 64int / ws,
            2 <= epw <= 64,
            mask == mask64(ws),
            count as int <= (epw as int) * words@.len(),
            0 <= i <= count,
            out@.len() == i,
            forall|j: int| 0 <= j < i ==> #[trigger] out@[j] == padded_entry(words@, ws, j),
        decreases count - i,
    {
        let q: usize = i / epw;
        let slot: usize = i % epw;
        proof {
            lemma_epw(ws);
            lemma_mask64_def(ws);
            lemma_fundamental_div_mod(i as int, epw as int);
            vstd::arithmetic::div_mod::lemma_mod_bound(i as int, epw as int);
            if q as int >= words@.len() {
                lemma_mul_inequality(words@.len() as int, q as int, epw as int);
                assert((epw as int) * (words@.len() as int) == (words@.len() as int) * (
                epw as int)) by (nonlinear_arith);
                assert((q as int) * (epw as int) == (epw as int) * (q as int))
                    by (nonlinear_arith);
                assert(false);
            }
            assert((slot as int + 1) * ws <= (epw as int) * ws) by (nonlinear_arith)
                requires
                    slot as int + 1 <= epw as int,
                    ws >= 1,
            ;
            assert((slot as int) * ws + ws == (slot as int + 1) * ws) by (nonlinear_arith);
            assert((epw as int) * ws <= 64);
        }
        let shift: usize = slot * w;
        let value: u64 = (words[q] >> (shift as u64)) & mask;
        out.push(value);
        i = i + 1;
    }
    out
}

/// Decodes a spanning-packed data array: the exact inverse of
/// `pack_data_array`.  Returns the first `count` entries of width
/// `bits_per_entry` read from the words; each entry carries the 32-bit
/// pattern found at its bit position.
pub fn unpack_data_array(words: &[u64], bits_per_entry: usize, count: usize) -> (r: Vec<VarInt>)
    requires
        1 <= bits_per_entry <= 32,
        count * bits_per_entry <= 64 * words@.len(),
        64 * words@.len() <= usize::MAX,
    ensures
        r@.len() == count,
        forall|i: int|
            0 <= i < count ==> (#[trigger] r@[i].0 as u32) as u64 == spanning_entry(
                words@,
                bits_per_entry as int,
                i,
            ),
        bits_per_entry < 32 ==> forall|i: int|
            0 <= i < count ==> #[trigger] r@[i].0 >= 0 && r@[i].0 as u64 == spanning_entry(
                words@,
                bits_per_entry as int,
                i,
            ),
{
    let w = bits_per_entry;
    let ghost wspec = w as int;
    let ghost wu: u64 = w as u64;
    proof {
        lemma_mask64_def(wspec);
        assert(1u64 << wu >= 1) by (bit_vector)
            requires
                wu <= 32,
        ;
    }
    let mask: u64 = (1u64 << (w as u64)) - 1;
    let mut out: Vec<VarInt> = Vec::new();
    let mut i: usize = 0;
    while i < count
        invariant
            1 <= w <= 32,
            wspec == w as int,
            wu == w as u64,
            mask == mask64(wspec),
            count * wspec <= 64 * words@.len(),
            64 * words@.len() <= usize::MAX,
            0 <= i <= count,
            out@.len() == i,
            forall|j: int|
                0 <= j < i ==> (#[trigger] out@[j].0 as u32) as u64 == spanning_entry(
                    words@,
                    wspec,
                    j,
                ),
            w < 32 ==> forall|j: int|
                0 <= j < i ==> #[trigger] out@[j].0 >= 0 && out@[j].0 as u64 == spanning_entry(
                    words@,
                    wspec,
                    j,
                ),
        decreases count - i,
    {
        proof {
            lemma_mask64_def(wspec);
            lemma_mul_inequality(i as int + 1, count as int, wspec);
            lemma_mul_inequality(0, i as int, wspec);
            assert((i as int) * wspec + wspec == (i as int + 1) * wspec) by (nonlinear_arith);
        }
        let lo: usize = i * w;
        let word_index: usize = lo / 64;
        let bit_offset: usize = lo % 64;
        proof {
            lemma_fundamental_div_mod(lo as int, 64);
        }
        let raw: u64 = if bit_offset + w <= 64 {
            proof {
                assert(64 * (word_index as int) <= lo as int);
                assert(word_index < words@.len());
            }
            words[word_index] >> (bit_offset as u64)
        } else {
            proof {
                assert(64 * (word_index as int + 1) < lo as int + wspec);
                assert(word_index as int + 1 < words@.len());
            }
            (words[word_index] >> (bit_offset as u64)) | (words[word_index + 1] << ((64
                - bit_offset) as u64))
        };
        let value: u64 = raw & mask;
        proof {
            assert(value == spanning_entry(words@, wspec, i as int));
            assert((raw & mask) <= 0xffffffffu64 && ((((raw & mask) as i32) as u32) as u64) == (raw
                & mask)) by (bit_vector)
                requires
                    mask == (1u64 << wu) - 1,
                    1 <= wu <= 32,
            ;
            if w < 32 {
                assert(((raw & mask) as i32) >= 0 && (((raw & mask) as i32) as u64) == (raw & mask))
                    by (bit_vector)
                    requires
                        mask == (1u64 << wu) - 1,
                        1 <= wu < 32,
                ;
            }
        }
        out.push(VarInt(value as i32));
        i = i + 1;
    }
    out
}


/// The eight big-endian bytes of each word, concatenated in order.
pub open spec fn words_be_bytes(ws: Seq<u64>) -> Seq<u8>
    decreases ws.len(),
{
    if ws.len() == 0 {
        Seq::empty()
    } else {
        words_be_bytes(ws.drop_last()) + crate::protocol::u64_be_bytes(ws.last())
    }
}

/// Appends the eight big-endian bytes of `x` to `out`.
pub fn push_u64_be(out: &mut Vec<u8>, x: u64)
    ensures
        final(out)@ == old(out)@ + crate::protocol::u64_be_bytes(x),
{
    out.push((x >> 56) as u8);
    out.push((x >> 48) as u8);
    out.push((x >> 40) as u8);
    out.push((x >> 32) as u8);
    out.push((x >> 24) as u8);
    out.push((x >> 16) as u8);
    out.push((x >> 8) as u8);
    out.push(x as u8);
    proof {
        assert(final(out)@ =~= old(out)@ + crate::protocol::u64_be_bytes(x));
    }
}

/// Appends the big-endian bytes of all the words to `out`, in order.
pub fn push_words_be(out: &mut Vec<u8>, words: &Vec<u64>)
    ensures
        final(out)@ == old(out)@ + words_be_bytes(words@),
{
    let mut j: usize = 0;
    while j < words.len()
        invariant
            0 <= j <= words@.len(),
            out@ == old(out)@ + words_be_bytes(words@.take(j as int)),
        decreases words@.len() - j,
    {
        push_u64_be(out, words[j]);
        proof {
            assert(words@.take(j + 1).drop_last() =~= words@.take(j as int));
            assert(words@.take(j + 1).last() == words@[j as int]);
        }
        j = j + 1;
    }
    proof {
        assert(words@.take(words@.len() as int) =~= words@);
    }
}

/// One 16x16x16 cube of block states with its 4x4x4 grid of biomes.  Block
/// states travel at 15 bits per entry, biomes at 6, both spanning-packed.
#[derive(Debug, Clone, Copy)]
pub struct ChunkSection {
    pub block_states: [VarInt; 4096],
    pub biomes: [VarInt; 64],
}

impl Default for ChunkSection {
    /// A section of air blocks with the default biome.
    fn default() -> (r: Self)
        ensures
            r.wf(),
            forall|i: int| 0 <= i < 4096 ==> (#[trigger] r.block_states@[i]) == VarInt(0),
            forall|i: int| 0 <= i < 64 ==> (#[trigger] r.biomes@[i]) == VarInt(1),
    {
        ChunkSection::new_empty()
    }
}

impl ChunkSection {
    /// Every stored id fits the width its wire format packs it at.
    pub open spec fn wf(&self) -> bool {
        &&& forall|i: int| 0 <= i < 4096 ==> fits(#[trigger] (self.block_states@[i].0 as u64), 15)
        &&& forall|i: int| 0 <= i < 64 ==> fits(#[trigger] (self.biomes@[i].0 as u64), 6)
    }

    /// A section of air blocks (id 0) with the default biome (id 1).
    pub fn new_empty() -> (r: Self)
        ensures
            r.wf(),
            forall|i: int| 0 <= i < 4096 ==> (#[trigger] r.block_states@[i]) == VarInt(0),
            forall|i: int| 0 <= i < 64 ==> (#[trigger] r.biomes@[i]) == VarInt(1),
    {
        let r = ChunkSection { block_states: [VarInt(0); 4096], biomes: [VarInt(1); 64] };
        proof {
            assert(0u64 >> 15u64 == 0 && 1u64 >> 6u64 == 0) by (bit_vector);
        }
        r
    }

    /// Stores a block id at local coordinates within the section.
    pub fn set_block_at(&mut self, x: usize, y: usize, z: usize, block_id: VarInt)
        requires
            x < 16,
            y < 16,
            z < 16,
        ensures
            final(self).block_states@ == old(self).block_states@.update(
                ((y * 256 + z * 16 + x) as int),
                block_id,
            ),
            final(self).biomes == old(self).biomes,
    {
        let block_index: usize = (y << 8) | (z << 4) | x;
        proof {
            assert((y << 8) | (z << 4) | x == y * 256 + z * 16 + x && y * 256 + z * 16 + x < 4096)
                by (bit_vector)
                requires
                    x < 16 && y < 16 && z < 16,
            ;
        }
        self.block_states[block_index] = block_id;
    }

    /// Packs the block states with the spanning policy at 15 bits per entry.
    pub fn pack_block_states(&self) -> (r: Vec<u64>)
        requires
            self.wf(),
        ensures
            r@.len() == 960,
            forall|i: int|
                0 <= i < 4096 ==> spanning_entry(r@, 15, i) == #[trigger] (self.block_states@[
                    i
                ].0 as u64),
    {
        pack_data_array(self.block_states.as_slice(), 15)
    }

    /// Packs the biomes with the spanning policy at 6 bits per entry.
    pub fn pack_biomes(&self) -> (r: Vec<u64>)
        requires
            self.wf(),
        ensures
            r@.len() == 6,
            forall|i: int|
                0 <= i < 64 ==> spanning_entry(r@, 6, i) == #[trigger] (self.biomes@[i].0 as u64),
    {
        pack_data_array(self.biomes.as_slice(), 6)
    }

    /// How many of the section's block states are not air (id 0), saturated
    /// at the largest `u16`.
    pub fn non_air_block_count(&self) -> (r: u16)
        ensures
            r as int == count_non_air(self.block_states@, 4096),
    {
        let mut count: usize = 0;
        let mut i: usize = 0;
        while i < 4096
            invariant
                0 <= i <= 4096,
                self.block_states@.len() == 4096,
                count == count_non_air(self.block_states@, i as int),
                count <= i,
            decreases 4096 - i,
        {
            if self.block_states[i].0 != 0 {
                count = count + 1;
            }
            i = i + 1;
        }
        if count > 0xffff {
            0xffff
        } else {
            count as u16
        }
    }

    /// The exact bytes this section puts on the wire: the non-air count, the
    /// block-state width and words, then the biome width and words.
    pub open spec fn section_bytes_ok(&self, r: Seq<u8>) -> bool {
        exists|bs: Seq<u64>, bio: Seq<u64>|
            {
                &&& bs.len() == 960
                &&& bio.len() == 6
                &&& (forall|i: int|
                    0 <= i < 4096 ==> spanning_entry(bs, 15, i) == #[trigger] (self.block_states@[
                        i
                    ].0 as u64))
                &&& (forall|i: int|
                    0 <= i < 64 ==> spanning_entry(bio, 6, i) == #[trigger] (self.biomes@[
                        i
                    ].0 as u64))
                &&& r == crate::protocol::u16_be_bytes(
                    (count_non_air(self.block_states@, 4096)) as u16,
                ) + seq![15u8] + words_be_bytes(bs) + seq![6u8] + words_be_bytes(bio)
            }
    }

    /// Writes the section: `u16` non-air count, `u8` bits per block (15),
    /// the spanning-packed block-state words, `u8` bits per biome (6), the
    /// spanning-packed biome words, all words big-endian.
    pub fn write(&self) -> (r: Vec<u8>)
        requires
            self.wf(),
        ensures
            self.section_bytes_ok(r@),
    {
        let mut buffer: Vec<u8> = Vec::new();
        let count = self.non_air_block_count();
        buffer.push((count >> 8) as u8);
        buffer.push(count as u8);
        buffer.push(15);
        let ghost head = buffer@;
        let block_states_data = self.pack_block_states();
        push_words_be(&mut buffer, &block_states_data);
        buffer.push(6);
        let ghost mid = buffer@;
        let biomes_data = self.pack_biomes();
        push_words_be(&mut buffer, &biomes_data);
        proof {
            assert(buffer@ =~= crate::protocol::u16_be_bytes(
                (count_non_air(self.block_states@, 4096)) as u16,
            ) + seq![15u8] + words_be_bytes(block_states_data@) + seq![6u8] + words_be_bytes(
                biomes_data@,
            ));
        }
        buffer
    }
}

/// The number of non-air (nonzero) block states among the first `n`.
pub open spec fn count_non_air(s: Seq<VarInt>, n: int) -> int
    decreases n,
{
    if n <= 0 {
        0
    } else {
        count_non_air(s, n - 1) + if s[n - 1].0 != 0 {
            1int
        } else {
            0int
        }
    }
}

/// A vertical column of optional sections with its own coordinates.
#[derive(Debug, Clone)]
pub struct Chunk {
    pub x: i32,
    pub z: i32,
    pub sections: Vec<Option<ChunkSection>>,
}

/// The target section after a block write: a present section keeps all its
/// other blocks and its biomes; an absent one is created empty first, so
/// every other block is air and every biome the default.
pub open spec fn section_after_set(
    old_s: Option<ChunkSection>,
    new_s: Option<ChunkSection>,
    idx: int,
    block_id: VarInt,
) -> bool {
    match new_s {
        None => false,
        Some(sec) => match old_s {
            Some(prev) => sec.block_states@ == prev.block_states@.update(idx, block_id)
                && sec.biomes == prev.biomes,
            None => sec.block_states@[idx] == block_id && (forall|q: int|
                0 <= q < 4096 && q != idx ==> (#[trigger] sec.block_states@[q]) == VarInt(0)) && (
            forall|q: int| 0 <= q < 64 ==> (#[trigger] sec.biomes@[q]) == VarInt(1)),
        },
    }
}

impl Chunk {
    /// Every present section is well-formed.
    pub open spec fn wf(&self) -> bool {
        forall|j: int|
            0 <= j < self.sections@.len() ==> ((#[trigger] self.sections@[j]) matches Some(s)
                ==> s.wf())
    }

    /// A column of 24 empty sections at the given chunk coordinates.
    pub fn new(x: i32, z: i32) -> (r: Self)
        ensures
            r.x == x,
            r.z == z,
            r.sections@.len() == 24,
            forall|q: int|
                0 <= q < 24 ==> ((#[trigger] r.sections@[q]) matches Some(s) && (forall|i: int|
                    0 <= i < 4096 ==> (#[trigger] s.block_states@[i]) == VarInt(0)) && (forall|
                    i: int,
                |
                    0 <= i < 64 ==> (#[trigger] s.biomes@[i]) == VarInt(1))),
            r.wf(),
    {
        let mut sections: Vec<Option<ChunkSection>> = Vec::new();
        let mut j: usize = 0;
        while j < 24
            invariant
                0 <= j <= 24,
                sections@.len() == j,
                forall|q: int|
                    0 <= q < j ==> ((#[trigger] sections@[q]) matches Some(s) && s.wf() && (forall|
                        i: int,
                    |
                        0 <= i < 4096 ==> (#[trigger] s.block_states@[i]) == VarInt(0)) && (forall|
                        i: int,
                    |
                        0 <= i < 64 ==> (#[trigger] s.biomes@[i]) == VarInt(1))),
            decreases 24 - j,
        {
            sections.push(Some(ChunkSection::new_empty()));
            j = j + 1;
        }
        Chunk { x, z, sections }
    }

    /// Stores a block id at world-local coordinates: the section is picked
    /// by `y / 16`, the position within it by the remainders, and an absent
    /// section is created first.
    pub fn set_block_at(&mut self, x: usize, y: usize, z: usize, block_id: VarInt)
        requires
            y / 16 < old(self).sections@.len(),
        ensures
            final(self).sections@.len() == old(self).sections@.len(),
            final(self).x == old(self).x && final(self).z == old(self).z,
            forall|j: int|
                0 <= j < old(self).sections@.len() && j != y as int / 16 ==> final(self).sections@[
                    j
                ] == old(self).sections@[j],
            section_after_set(
                old(self).sections@[y as int / 16],
                final(self).sections@[y as int / 16],
                ((y % 16) * 256 + (z % 16) * 16 + (x % 16)) as int,
                block_id,
            ),
            (old(self).wf() && fits(block_id.0 as u64, 15)) ==> final(self).wf(),
    {
        let section_index: usize = y / 16;
        let local_section_x: usize = x % 16;
        let local_section_y: usize = y % 16;
        let local_section_z: usize = z % 16;
        if self.sections[section_index].is_none() {
            self.sections.set(section_index, Some(ChunkSection::new_empty()));
        }
        let mut section = self.sections[section_index].unwrap();
        section.set_block_at(local_section_x, local_section_y, local_section_z, block_id);
        self.sections.set(section_index, Some(section));
    }
}

/// A map of 256 column heights, padded-packed at 9 bits per entry.
#[derive(Debug, Clone)]
pub struct Heightmap {
    pub kind: VarInt,
    pub heights: [u16; 256],
}

impl Heightmap {
    /// Every height fits the 9-bit wire width.
    pub open spec fn wf(&self) -> bool {
        forall|i: int| 0 <= i < 256 ==> (#[trigger] self.heights@[i]) < 512
    }

    /// A heightmap of the given kind with all heights zero.
    pub fn new(kind: VarInt) -> (r: Self)
        ensures
            r.kind == kind,
            forall|i: int| 0 <= i < 256 ==> (#[trigger] r.heights@[i]) == 0,
            r.wf(),
    {
        Heightmap { kind, heights: [0; 256] }
    }

    /// Packs the 256 heights with the padded policy at 9 bits per entry:
    /// 7 entries per word, 37 words, the last word partially padded.
    pub fn pack(&self) -> (r: Vec<u64>)
        requires
            self.wf(),
        ensures
            r@.len() == 37,
            forall|i: int|
                0 <= i < 256 ==> padded_entry(r@, 9, i) == #[trigger] (self.heights@[i] as u64),
    {
        let mut values: Vec<u64> = Vec::new();
        let mut i: usize = 0;
        while i < 256
            invariant
                0 <= i <= 256,
                values@.len() == i,
                self.heights@.len() == 256,
                forall|j: int| 0 <= j < i ==> #[trigger] values@[j] == self.heights@[j] as u64,
                self.wf(),
            decreases 256 - i,
        {
            values.push(self.heights[i] as u64);
            i = i + 1;
        }
        proof {
            assert forall|j: int| 0 <= j < 256 implies fits(#[trigger] values@[j], 9) by {
                let v: u64 = values@[j];
                assert(v == self.heights@[j] as u64);
                assert(self.heights@[j] < 512);
                assert(v >> 9u64 == 0) by (bit_vector)
                    requires
                        v < 512,
                ;
            }
        }
        let r = pack_data_array_padded(values.as_slice(), 9);
        proof {
            assert forall|i: int| 0 <= i < 256 implies padded_entry(r@, 9, i) == (
            self.heights@[i] as u64) by {
                assert(values@[i] == self.heights@[i] as u64);
                assert(padded_entry(r@, 9, i) == values@[i]);
            }
        }
        r
    }

    /// The exact bytes this heightmap puts on the wire: the kind VarInt, the
    /// word count VarInt, then the padded-packed words, big-endian.
    pub open spec fn heightmap_bytes_ok(&self, r: Seq<u8>) -> bool {
        exists|ws: Seq<u64>|
            {
                &&& ws.len() == 37
                &&& (forall|i: int|
                    0 <= i < 256 ==> padded_entry(ws, 9, i) == #[trigger] (self.heights@[
                        i
                    ] as u64))
                &&& r == crate::varint::varint_encoding(self.kind.0 as u32)
                    + crate::varint::varint_encoding(37u32) + words_be_bytes(ws)
            }
    }

    /// Writes the heightmap: kind, word count, then the packed words.
    pub fn write(&self) -> (r: Vec<u8>)
        requires
            self.wf(),
        ensures
            self.heightmap_bytes_ok(r@),
    {
        let packed = self.pack();
        let mut buffer: Vec<u8> = Vec::new();
        let (kind_buf, kind_len) = crate::varint::write_varint(self.kind.0).unwrap();
        buffer.extend_from_slice(vstd::slice::slice_subrange(kind_buf.as_slice(), 0, kind_len));
        let (count_buf, count_len) = crate::varint::write_varint(37).unwrap();
        buffer.extend_from_slice(vstd::slice::slice_subrange(count_buf.as_slice(), 0, count_len));
        push_words_be(&mut buffer, &packed);
        proof {
            assert((37i32 as u32) == 37u32);
            assert(buffer@ =~= crate::varint::varint_encoding(self.kind.0 as u32)
                + crate::varint::varint_encoding(37u32) + words_be_bytes(packed@));
        }
        buffer
    }
}

/// The constant wire form of a section holding only air: zero non-air
/// blocks, single-value palettes for both block states (air) and biomes,
/// and empty data arrays.
pub fn encode_all_air_section() -> (r: Vec<u8>)
    ensures
        r@ == seq![0u8, 0u8, 0u8, 1u8, 0u8, 0u8, 1u8, 0u8, 0u8],
{
    let mut buf: Vec<u8> = Vec::new();
    // Block count (u16) = 0
    buf.push(0);
    buf.push(0);
    // Bits per block (u8) = 0: single-value palette
    buf.push(0);
    // Palette length (VarInt) = 1
    buf.push(1);
    // Palette[0] (VarInt) = 0 (air)
    buf.push(0);
    // Data array length (VarInt) = 0
    buf.push(0);
    // Biome palette length (VarInt) = 1
    buf.push(1);
    // Biome[0] (VarInt) = 0
    buf.push(0);
    // Biome data array length (VarInt) = 0
    buf.push(0);
    proof {
        assert(buf@ =~= seq![0u8, 0u8, 0u8, 1u8, 0u8, 0u8, 1u8, 0u8, 0u8]);
    }
    buf
}


/// The concatenated wire forms of the present sections of a chunk, in
/// order; absent sections contribute nothing.
pub open spec fn chunk_payload_ok(sections: Seq<Option<ChunkSection>>, payload: Seq<u8>) -> bool
    decreases sections.len(),
{
    if sections.len() == 0 {
        payload.len() == 0
    } else {
        match sections[0] {
            None => chunk_payload_ok(sections.drop_first(), payload),
            Some(s) => exists|b: Seq<u8>, rest: Seq<u8>|
                s.section_bytes_ok(b) && payload == b + rest && chunk_payload_ok(
                    sections.drop_first(),
                    rest,
                ),
        }
    }
}

/// Appending an absent section leaves the payload unchanged.
proof fn lemma_chunk_payload_snoc_none(ss: Seq<Option<ChunkSection>>, p: Seq<u8>)
    requires
        chunk_payload_ok(ss, p),
    ensures
        chunk_payload_ok(ss.push(None), p),
    decreases ss.len(),
{
    if ss.len() == 0 {
        assert(ss.push(None)[0] is None);
        assert(ss.push(None).drop_first() =~= ss);
    } else {
        assert(ss.push(None)[0] == ss[0]);
        assert(ss.push(None).drop_first() =~= ss.drop_first().push(None));
        match ss[0] {
            None => {
                lemma_chunk_payload_snoc_none(ss.drop_first(), p);
            },
            Some(s) => {
                let (b, rest) = choose|b: Seq<u8>, rest: Seq<u8>|
                    s.section_bytes_ok(b) && p == b + rest && chunk_payload_ok(
                        ss.drop_first(),
                        rest,
                    );
                lemma_chunk_payload_snoc_none(ss.drop_first(), rest);
                assert(s.section_bytes_ok(b) && p == b + rest && chunk_payload_ok(
                    ss.push(None).drop_first(),
                    rest,
                ));
            },
        }
    }
}

/// Appending a present section appends its wire form to the payload.
proof fn lemma_chunk_payload_snoc_some(
    ss: Seq<Option<ChunkSection>>,
    p: Seq<u8>,
    sec: ChunkSection,
    b: Seq<u8>,
)
    requires
        chunk_payload_ok(ss, p),
        sec.section_bytes_ok(b),
    ensures
        chunk_payload_ok(ss.push(Some(sec)), p + b),
    decreases ss.len(),
{
    if ss.len() == 0 {
        assert(p + b =~= b);
        assert(ss.push(Some(sec))[0] == Some(sec));
        assert(ss.push(Some(sec)).drop_first() =~= ss);
        assert(b =~= b + Seq::<u8>::empty());
        assert(sec.section_bytes_ok(b) && b == b + Seq::<u8>::empty() && chunk_payload_ok(
            ss.push(Some(sec)).drop_first(),
            Seq::<u8>::empty(),
        ));
        assert(chunk_payload_ok(ss.push(Some(sec)), b));
    } else {
        assert(ss.push(Some(sec))[0] == ss[0]);
        assert(ss.push(Some(sec)).drop_first() =~= ss.drop_first().push(Some(sec)));
        match ss[0] {
            None => {
                lemma_chunk_payload_snoc_some(ss.drop_first(), p, sec, b);
            },
            Some(s0) => {
                let (b0, rest) = choose|b0: Seq<u8>, rest: Seq<u8>|
                    s0.section_bytes_ok(b0) && p == b0 + rest && chunk_payload_ok(
                        ss.drop_first(),
                        rest,
                    );
                lemma_chunk_payload_snoc_some(ss.drop_first(), rest, sec, b);
                assert(p + b =~= b0 + (rest + b));
                assert(s0.section_bytes_ok(b0) && p + b == b0 + (rest + b) && chunk_payload_ok(
                    ss.push(Some(sec)).drop_first(),
                    rest + b,
                ));
            },
        }
    }
}

impl Chunk {
    /// Writes the chunk's section data: a VarInt byte length, then the wire
    /// forms of the present sections in order.  Fails exactly when the
    /// section data exceeds the length prefix's capacity.
    pub fn write(&self) -> (r: Result<Vec<u8>, crate::protocol::WriteError>)
        requires
            self.wf(),
        ensures
            r matches Ok(out) ==> exists|payload: Seq<u8>|
                chunk_payload_ok(self.sections@, payload) && payload.len() <= 0x7fffffff && out@
                    == crate::varint::varint_encoding((payload.len() as i32) as u32) + payload,
            r is Err ==> exists|payload: Seq<u8>|
                chunk_payload_ok(self.sections@, payload) && payload.len() > 0x7fffffff,
    {
        let mut section_data: Vec<u8> = Vec::new();
        let mut j: usize = 0;
        while j < self.sections.len()
            invariant
                self.wf(),
                0 <= j <= self.sections@.len(),
                chunk_payload_ok(self.sections@.take(j as int), section_data@),
            decreases self.sections@.len() - j,
        {
            let ghost pre = section_data@;
            let entry = self.sections[j];
            match entry {
                Some(section) => {
                    proof {
                        assert(self.sections@[j as int] matches Some(s) ==> s.wf());
                    }
                    let piece = section.write();
                    section_data.extend_from_slice(piece.as_slice());
                    proof {
                        lemma_chunk_payload_snoc_some(
                            self.sections@.take(j as int),
                            pre,
                            section,
                            piece@,
                        );
                        assert(self.sections@.take(j + 1) =~= self.sections@.take(j as int).push(
                            Some(section),
                        ));
                        assert(section_data@ == pre + piece@);
                        assert(chunk_payload_ok(
                            self.sections@.take(j as int).push(Some(section)),
                            pre + piece@,
                        ));
                        assert(chunk_payload_ok(self.sections@.take(j + 1), section_data@));
                    }
                },
                None => {
                    proof {
                        lemma_chunk_payload_snoc_none(self.sections@.take(j as int), pre);
                        assert(self.sections@.take(j + 1) =~= self.sections@.take(j as int).push(
                            None,
                        ));
                        assert(chunk_payload_ok(self.sections@.take(j + 1), section_data@));
                    }
                },
            }
            j = j + 1;
        }
        proof {
            assert(self.sections@.take(self.sections@.len() as int) =~= self.sections@);
        }
        if section_data.len() > 0x7fffffff {
            return Err(crate::protocol::WriteError::TooLong);
        }
        let (head, head_len) = crate::varint::write_varint(section_data.len() as i32).unwrap();
        let mut buffer: Vec<u8> = Vec::new();
        buffer.extend_from_slice(vstd::slice::slice_subrange(head.as_slice(), 0, head_len));
        buffer.extend_from_slice(section_data.as_slice());
        Ok(buffer)
    }
}

} // verus!


