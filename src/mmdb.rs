//! Structural checks on a MaxMind DB buffer.
//!
//! A buffer passes when every byte that opening it and looking an address up
//! in it can read lies inside it: the metadata after the last metadata
//! marker is one complete value holding `node_count` and `record_size`; the
//! record size is 24, 28 or 32 bits; the search tree and the 16-byte
//! separator fit; and every tree record is a node, the no-data mark, or a
//! pointer to a complete value in the data section. A value is complete when
//! its control bytes, its payload, its entries and the targets of its
//! pointers all lie inside the section, nested at most `MAX_DEPTH` deep.
use vstd::prelude::*;

verus! {

/// How deeply maps, arrays and pointers may nest in a checked value.
pub const MAX_DEPTH: u32 = 32;

/// Length of the metadata marker.
pub const MARKER_LEN: usize = 14;

pub open spec fn pow256(n: nat) -> int
    decreases n,
{
    if n == 0 { 1 } else { 256 * pow256((n - 1) as nat) }
}

/// `base` followed by the `n` bytes at `q`, read big-endian.
pub open spec fn fold_be(base: int, d: Seq<u8>, q: int, n: nat) -> int
    decreases n,
{
    if n == 0 { base } else { fold_be(base, d, q, (n - 1) as nat) * 256 + d[q + n - 1] }
}

proof fn lemma_pow256(i: nat)
    requires
        i <= 4,
    ensures
        pow256(i) <= 0x1_0000_0000,
{
    reveal_with_fuel(pow256, 5);
}

fn read_be(d: &[u8], q: usize, n: usize, base: u64) -> (r: u64)
    requires
        n <= 4,
        base < 256,
        q + n <= d@.len(),
    ensures
        r == fold_be(base as int, d@, q as int, n as nat),
        r < 0x100_0000_0000,
{
    let len = d.len();
    let mut acc: u64 = base;
    let mut i: usize = 0;
    while i < n
        invariant
            i <= n <= 4,
            q + n <= d@.len(),
            len == d@.len(),
            acc == fold_be(base as int, d@, q as int, i as nat),
            acc < 256 * pow256(i as nat),
        decreases n - i,
    {
        proof {
            lemma_pow256(i as nat);
        }
        let b = d[q + i];
        assert(acc * 256 + b < 256 * (256 * pow256(i as nat))) by (nonlinear_arith)
            requires
                acc < 256 * pow256(i as nat),
                b < 256,
        ;
        acc = acc * 256 + b as u64;
        i = i + 1;
    }
    proof {
        lemma_pow256(n as nat);
    }
    acc
}

/// The byte at `k` of the metadata marker `\xAB\xCD\xEFMaxMind.com`.
pub open spec fn marker_byte(k: int) -> u8 {
    if k == 0 { 0xAB } else if k == 1 { 0xCD } else if k == 2 { 0xEF } else if k == 3 { 0x4D }
    else if k == 4 { 0x61 } else if k == 5 { 0x78 } else if k == 6 { 0x4D } else if k == 7 { 0x69 }
    else if k == 8 { 0x6E } else if k == 9 { 0x64 } else if k == 10 { 0x2E } else if k == 11 { 0x63 }
    else if k == 12 { 0x6F } else { 0x6D }
}

fn marker_byte_exec(k: usize) -> (r: u8)
    ensures
        r == marker_byte(k as int),
{
    if k == 0 { 0xAB } else if k == 1 { 0xCD } else if k == 2 { 0xEF } else if k == 3 { 0x4D }
    else if k == 4 { 0x61 } else if k == 5 { 0x78 } else if k == 6 { 0x4D } else if k == 7 { 0x69 }
    else if k == 8 { 0x6E } else if k == 9 { 0x64 } else if k == 10 { 0x2E } else if k == 11 { 0x63 }
    else if k == 12 { 0x6F } else { 0x6D }
}

/// The metadata marker starts at `i`.
pub open spec fn marker_at(b: Seq<u8>, i: int) -> bool {
    0 <= i && i + MARKER_LEN <= b.len() && forall|k: int| 0 <= k < MARKER_LEN ==> b[i + k] == marker_byte(k)
}

/// The last start of the marker before `i`.
pub open spec fn last_marker_below(b: Seq<u8>, i: int) -> Option<int>
    decreases i,
{
    if i <= 0 {
        None
    } else if marker_at(b, i - 1) {
        Some(i - 1)
    } else {
        last_marker_below(b, i - 1)
    }
}

fn marker_at_exec(b: &[u8], i: usize) -> (r: bool)
    ensures
        r == marker_at(b@, i as int),
{
    if MARKER_LEN > b.len() || i > b.len() - MARKER_LEN {
        return false;
    }
    let len = b.len();
    let mut k: usize = 0;
    while k < MARKER_LEN
        invariant
            len == b@.len(),
            i + MARKER_LEN <= b@.len(),
            k <= MARKER_LEN,
            forall|j: int| 0 <= j < k ==> b@[i + j] == marker_byte(j),
        decreases MARKER_LEN - k,
    {
        if b[i + k] != marker_byte_exec(k) {
            return false;
        }
        k = k + 1;
    }
    true
}

proof fn lemma_last_marker(b: Seq<u8>, j: int, i: int)
    requires
        last_marker_below(b, j) == Some(i),
    ensures
        marker_at(b, i),
    decreases j,
{
    if j > 0 && !marker_at(b, j - 1) {
        lemma_last_marker(b, j - 1, i);
    }
}

fn last_marker(b: &[u8]) -> (r: Option<usize>)
    ensures
        match r {
            Some(i) => last_marker_below(b@, b@.len() as int) == Some(i as int),
            None => last_marker_below(b@, b@.len() as int) is None,
        },
{
    let mut i: usize = b.len();
    while i > 0
        invariant
            i <= b@.len(),
            last_marker_below(b@, b@.len() as int) == last_marker_below(b@, i as int),
        decreases i,
    {
        if marker_at_exec(b, i - 1) {
            return Some(i - 1);
        }
        i = i - 1;
    }
    None
}

/// The control bytes of the value at `p`: its type, its size and where its
/// payload starts, read as the decoder reads them.
pub open spec fn ctrl_at(d: Seq<u8>, p: int) -> Option<(int, int, int)> {
    if p < 0 || p >= d.len() {
        None
    } else {
        let c = d[p] as int;
        let ext = c / 32 == 0;
        if ext && p + 1 >= d.len() {
            None
        } else {
            let t = if ext { d[p + 1] + 7 } else { c / 32 };
            let q = if ext { p + 2 } else { p + 1 };
            let s = c % 32;
            let extra = if s > 28 { s - 28 } else { 0 };
            if t > 15 || q + extra > d.len() {
                None
            } else {
                let size = if s < 29 {
                    s
                } else if s == 29 {
                    29 + d[q]
                } else if s == 30 {
                    285 + fold_be(0, d, q, 2)
                } else {
                    65821 + fold_be(0, d, q, 3)
                };
                Some((t, size, q + extra))
            }
        }
    }
}

struct Ctrl {
    t: u8,
    size: u64,
    start: usize,
}

fn ctrl_at_exec(d: &[u8], p: usize) -> (r: Option<Ctrl>)
    ensures
        match r {
            Some(c) => ctrl_at(d@, p as int) == Some((c.t as int, c.size as int, c.start as int))
                && c.start <= d@.len() && c.size < 0x200_0000_0000,
            None => ctrl_at(d@, p as int) is None,
        },
{
    if p >= d.len() {
        return None;
    }
    let c = d[p];
    let ext = c / 32 == 0;
    if ext && p + 1 >= d.len() {
        return None;
    }
    let t: u64 = if ext { d[p + 1] as u64 + 7 } else { (c / 32) as u64 };
    let q: usize = if ext { p + 2 } else { p + 1 };
    let s: u8 = c % 32;
    let extra: usize = if s > 28 { (s - 28) as usize } else { 0 };
    if t > 15 || extra > d.len() - q {
        return None;
    }
    let size: u64 = if s < 29 {
        s as u64
    } else if s == 29 {
        29 + d[q] as u64
    } else if s == 30 {
        285 + read_be(d, q, 2, 0)
    } else {
        65821 + read_be(d, q, 3, 0)
    };
    Some(Ctrl { t: t as u8, size, start: q + extra })
}

/// What the decoder adds to a pointer of `psize` bytes.
pub open spec fn pointer_bias(psize: int) -> int {
    if psize == 2 { 2048 } else if psize == 3 { 526336 } else { 0 }
}

/// Where the complete value at `p` ends, if it is complete within `k` levels.
pub open spec fn value_end(d: Seq<u8>, p: int, k: nat) -> Option<int>
    decreases k, 0nat,
{
    match ctrl_at(d, p) {
        None => None,
        Some((t, size, q)) => if t == 1 {
            let psize = (size / 8) % 4 + 1;
            let base = if psize == 4 { 0 } else { size % 8 };
            if q + psize > d.len() || k == 0 {
                None
            } else {
                let target = fold_be(base, d, q, psize as nat) + pointer_bias(psize);
                match value_end(d, target, (k - 1) as nat) {
                    Some(_) => Some(q + psize),
                    None => None,
                }
            }
        } else if t == 7 || t == 11 {
            if k == 0 {
                None
            } else {
                seq_end(d, q, (if t == 7 { 2 * size } else { size }) as nat, (k - 1) as nat)
            }
        } else if t == 14 {
            Some(q)
        } else if t == 12 || t == 13 {
            None
        } else if q + size <= d.len() {
            Some(q + size)
        } else {
            None
        },
    }
}

/// Where `n` complete values in a row from `p` end.
pub open spec fn seq_end(d: Seq<u8>, p: int, n: nat, k: nat) -> Option<int>
    decreases k, n + 1,
{
    if n == 0 {
        Some(p)
    } else {
        match value_end(d, p, k) {
            Some(e) => seq_end(d, e, (n - 1) as nat, k),
            None => None,
        }
    }
}

pub open spec fn opt_pos(r: Option<usize>) -> Option<int> {
    match r {
        Some(e) => Some(e as int),
        None => None,
    }
}

fn value_end_exec(d: &[u8], p: usize, k: u32) -> (r: Option<usize>)
    ensures
        opt_pos(r) == value_end(d@, p as int, k as nat),
    decreases k,
{
    let c = match ctrl_at_exec(d, p) {
        Some(c) => c,
        None => return None,
    };
    let q = c.start;
    let size = c.size;
    if c.t == 1 {
        let psize: usize = ((size / 8) % 4 + 1) as usize;
        let base: u64 = if psize == 4 { 0 } else { size % 8 };
        if psize > d.len() - q || k == 0 {
            return None;
        }
        let bias: u64 = if psize == 2 { 2048 } else if psize == 3 { 526336 } else { 0 };
        let target = read_be(d, q, psize, base) + bias;
        if target >= d.len() as u64 {
            assert(ctrl_at(d@, target as int) is None);
            assert(value_end(d@, target as int, (k - 1) as nat) is None);
            return None;
        }
        match value_end_exec(d, target as usize, k - 1) {
            Some(_) => Some(q + psize),
            None => None,
        }
    } else if c.t == 7 || c.t == 11 {
        if k == 0 {
            return None;
        }
        let n: u64 = if c.t == 7 { 2 * size } else { size };
        assert(value_end(d@, p as int, k as nat) == seq_end(d@, q as int, n as nat, (k - 1) as nat));
        let mut cur: usize = q;
        let mut i: u64 = 0;
        while i < n
            invariant
                i <= n,
                k > 0,
                value_end(d@, p as int, k as nat) == seq_end(d@, q as int, n as nat, (k - 1) as nat),
                seq_end(d@, q as int, n as nat, (k - 1) as nat) == seq_end(d@, cur as int, (n - i) as nat, (k - 1) as nat),
            decreases n - i,
        {
            match value_end_exec(d, cur, k - 1) {
                Some(e) => {
                    cur = e;
                    i = i + 1;
                },
                None => {
                    assert(seq_end(d@, cur as int, (n - i) as nat, (k - 1) as nat) is None);
                    return None;
                },
            }
        }
        Some(cur)
    } else if c.t == 14 {
        Some(q)
    } else if c.t == 12 || c.t == 13 {
        None
    } else if size <= (d.len() - q) as u64 {
        Some(q + size as usize)
    } else {
        None
    }
}

/// The two metadata fields that the layout is read from.
#[derive(Clone, Copy, Debug, PartialEq, Eq, Structural)]
pub enum MetaField {
    NodeCount,
    RecordSize,
}

pub open spec fn key_len(f: MetaField) -> int {
    match f {
        MetaField::NodeCount => 10,
        MetaField::RecordSize => 11,
    }
}

/// The bytes of `node_count` and of `record_size`.
pub open spec fn key_byte(f: MetaField, k: int) -> u8 {
    match f {
        MetaField::NodeCount => if k == 0 { 110 } else if k == 1 { 111 } else if k == 2 { 100 }
            else if k == 3 { 101 } else if k == 4 { 95 } else if k == 5 { 99 } else if k == 6 { 111 }
            else if k == 7 { 117 } else if k == 8 { 110 } else { 116 },
        MetaField::RecordSize => if k == 0 { 114 } else if k == 1 { 101 } else if k == 2 { 99 }
            else if k == 3 { 111 } else if k == 4 { 114 } else if k == 5 { 100 } else if k == 6 { 95 }
            else if k == 7 { 115 } else if k == 8 { 105 } else if k == 9 { 122 } else { 101 },
    }
}

/// The key naming a metadata field.
pub open spec fn meta_key(f: MetaField) -> Seq<u8> {
    Seq::new(key_len(f) as nat, |k: int| key_byte(f, k))
}

fn key_byte_exec(f: MetaField, k: usize) -> (r: u8)
    ensures
        r == key_byte(f, k as int),
{
    match f {
        MetaField::NodeCount => if k == 0 { 110 } else if k == 1 { 111 } else if k == 2 { 100 }
            else if k == 3 { 101 } else if k == 4 { 95 } else if k == 5 { 99 } else if k == 6 { 111 }
            else if k == 7 { 117 } else if k == 8 { 110 } else { 116 },
        MetaField::RecordSize => if k == 0 { 114 } else if k == 1 { 101 } else if k == 2 { 99 }
            else if k == 3 { 111 } else if k == 4 { 114 } else if k == 5 { 100 } else if k == 6 { 95 }
            else if k == 7 { 115 } else if k == 8 { 105 } else if k == 9 { 122 } else { 101 },
    }
}

fn key_at(m: &[u8], q: usize, ks: u64, f: MetaField) -> (r: bool)
    requires
        q + ks <= m@.len(),
    ensures
        r == (m@.subrange(q as int, q + ks) == meta_key(f)),
{
    let n: usize = match f {
        MetaField::NodeCount => 10,
        MetaField::RecordSize => 11,
    };
    if ks != n as u64 {
        assert(m@.subrange(q as int, q + ks).len() != meta_key(f).len());
        return false;
    }
    let len = m.len();
    let mut k: usize = 0;
    while k < n
        invariant
            len == m@.len(),
            n == key_len(f),
            ks == n,
            q + ks <= m@.len(),
            k <= n,
            forall|j: int| 0 <= j < k ==> m@[q + j] == key_byte(f, j),
        decreases n - k,
    {
        if m[q + k] != key_byte_exec(f, k) {
            assert(m@.subrange(q as int, q + ks)[k as int] != meta_key(f)[k as int]);
            return false;
        }
        k = k + 1;
    }
    assert(m@.subrange(q as int, q + ks) =~= meta_key(f));
    true
}

/// The unsigned integer coded directly (as uint16 or uint32) at `p`.
pub open spec fn uint_at(m: Seq<u8>, p: int) -> Option<int> {
    match ctrl_at(m, p) {
        Some((t, s, q)) => if ((t == 5 && s <= 2) || (t == 6 && s <= 4)) && q + s <= m.len() {
            Some(fold_be(0, m, q, s as nat))
        } else {
            None
        },
        None => None,
    }
}

/// Among the `n` map entries from `p`, the value of the first whose key is
/// `key`, when every key up to it is a plain string and that value a plain
/// unsigned integer.
pub open spec fn meta_uint(m: Seq<u8>, p: int, n: nat, key: Seq<u8>) -> Option<int>
    decreases n,
{
    if n == 0 {
        None
    } else {
        match ctrl_at(m, p) {
            Some((t, ks, q)) => if t != 2 || q + ks > m.len() {
                None
            } else if m.subrange(q, q + ks) == key {
                uint_at(m, q + ks)
            } else {
                match value_end(m, q + ks, MAX_DEPTH as nat) {
                    Some(e) => meta_uint(m, e, (n - 1) as nat, key),
                    None => None,
                }
            },
            None => None,
        }
    }
}

fn uint_at_exec(m: &[u8], p: usize) -> (r: Option<u64>)
    ensures
        match r {
            Some(v) => uint_at(m@, p as int) == Some(v as int) && v < 0x1_0000_0000,
            None => uint_at(m@, p as int) is None,
        },
{
    let c = match ctrl_at_exec(m, p) {
        Some(c) => c,
        None => return None,
    };
    if ((c.t == 5 && c.size <= 2) || (c.t == 6 && c.size <= 4)) && c.size <= (m.len() - c.start) as u64 {
        let v = read_be(m, c.start, c.size as usize, 0);
        proof {
            lemma_fold_be_bound(m@, c.start as int, c.size as nat);
        }
        Some(v)
    } else {
        None
    }
}

proof fn lemma_fold_be_bound(d: Seq<u8>, q: int, n: nat)
    requires
        n <= 4,
        0 <= q,
        q + n <= d.len(),
    ensures
        0 <= fold_be(0, d, q, n) < pow256(n),
        pow256(n) <= 0x1_0000_0000,
    decreases n,
{
    lemma_pow256(n);
    if n > 0 {
        lemma_fold_be_bound(d, q, (n - 1) as nat);
        let f = fold_be(0, d, q, (n - 1) as nat);
        assert(f * 256 + d[q + n - 1] < 256 * pow256((n - 1) as nat)) by (nonlinear_arith)
            requires
                0 <= f < pow256((n - 1) as nat),
                d[q + n - 1] < 256,
        ;
    }
}

fn meta_uint_exec(m: &[u8], q0: usize, n: u64, f: MetaField) -> (r: Option<u64>)
    ensures
        match r {
            Some(v) => meta_uint(m@, q0 as int, n as nat, meta_key(f)) == Some(v as int) && v < 0x1_0000_0000,
            None => meta_uint(m@, q0 as int, n as nat, meta_key(f)) is None,
        },
{
    let mut cur: usize = q0;
    let mut i: u64 = 0;
    while i < n
        invariant
            i <= n,
            meta_uint(m@, q0 as int, n as nat, meta_key(f)) == meta_uint(m@, cur as int, (n - i) as nat, meta_key(f)),
        decreases n - i,
    {
        let c = match ctrl_at_exec(m, cur) {
            Some(c) => c,
            None => return None,
        };
        if c.t != 2 || c.size > (m.len() - c.start) as u64 {
            return None;
        }
        let kend = c.start + c.size as usize;
        if key_at(m, c.start, c.size, f) {
            return uint_at_exec(m, kend);
        }
        match value_end_exec(m, kend, MAX_DEPTH) {
            Some(e) => cur = e,
            None => return None,
        }
        i = i + 1;
    }
    None
}

/// Node count and record size as the metadata after the last marker gives
/// them, where that metadata is one complete map.
pub open spec fn db_layout(b: Seq<u8>) -> Option<(int, int)> {
    match last_marker_below(b, b.len() as int) {
        None => None,
        Some(i) => {
            let m = b.subrange(i + MARKER_LEN, b.len() as int);
            match ctrl_at(m, 0) {
                Some((t, size, q)) => if t == 7 && value_end(m, 0, MAX_DEPTH as nat) is Some {
                    match (
                        meta_uint(m, q, size as nat, meta_key(MetaField::NodeCount)),
                        meta_uint(m, q, size as nat, meta_key(MetaField::RecordSize)),
                    ) {
                        (Some(n), Some(rs)) => Some((n, rs)),
                        _ => None,
                    }
                } else {
                    None
                },
                None => None,
            }
        },
    }
}

/// The record `idx` (0 or 1) of tree node `node`, read as the reader reads it.
pub open spec fn record_value(b: Seq<u8>, rs: int, node: int, idx: int) -> int {
    if rs == 24 {
        fold_be(0, b, node * 6 + idx * 3, 3)
    } else if rs == 28 {
        let base = node * 7;
        let mid = if idx != 0 { b[base + 3] % 16 } else { b[base + 3] / 16 };
        fold_be(mid as int, b, base + idx * 4, 3)
    } else {
        fold_be(0, b, node * 8 + idx * 4, 4)
    }
}

/// Where the data section starts.
pub open spec fn data_start(n: int, rs: int) -> int {
    n * rs / 4 + 16
}

/// The record is a node, the no-data mark, or a pointer to a complete value
/// in the data section.
pub open spec fn record_ok(b: Seq<u8>, n: int, rs: int, node: int, idx: int) -> bool {
    let r = record_value(b, rs, node, idx);
    r <= n || (r >= n + 16 && value_end(b.subrange(data_start(n, rs), b.len() as int), r - n - 16, MAX_DEPTH as nat) is Some)
}

/// Opening the buffer and looking any address up in it read only bytes
/// inside it.
pub open spec fn mmdb_safe(b: Seq<u8>) -> bool {
    match db_layout(b) {
        None => false,
        Some((n, rs)) => {
            &&& rs == 24 || rs == 28 || rs == 32
            &&& data_start(n, rs) <= b.len()
            &&& forall|node: int, idx: int| 0 <= node < n && 0 <= idx < 2 ==> #[trigger] record_ok(b, n, rs, node, idx)
        },
    }
}

fn db_layout_exec(b: &[u8]) -> (r: Option<(u64, u64)>)
    ensures
        match r {
            Some((n, rs)) => db_layout(b@) == Some((n as int, rs as int)) && n < 0x1_0000_0000 && rs < 0x1_0000_0000,
            None => db_layout(b@) is None,
        },
{
    let i = match last_marker(b) {
        Some(i) => i,
        None => return None,
    };
    let blen = b.len();
    proof {
        lemma_last_marker(b@, b@.len() as int, i as int);
    }
    let m = &b[i + MARKER_LEN..blen];
    assert(m@ == b@.subrange(i + MARKER_LEN, b@.len() as int));
    let c = match ctrl_at_exec(m, 0) {
        Some(c) => c,
        None => return None,
    };
    if c.t != 7 || value_end_exec(m, 0, MAX_DEPTH).is_none() {
        return None;
    }
    let n = match meta_uint_exec(m, c.start, c.size, MetaField::NodeCount) {
        Some(v) => v,
        None => return None,
    };
    let rs = match meta_uint_exec(m, c.start, c.size, MetaField::RecordSize) {
        Some(v) => v,
        None => return None,
    };
    Some((n, rs))
}

fn record_ok_exec(b: &[u8], d: &[u8], n: u64, rs: u64, node: u64, idx: u64) -> (r: bool)
    requires
        rs == 24 || rs == 28 || rs == 32,
        node < n < 0x1_0000_0000,
        idx < 2,
        data_start(n as int, rs as int) <= b@.len(),
        d@ == b@.subrange(data_start(n as int, rs as int), b@.len() as int),
    ensures
        r == record_ok(b@, n as int, rs as int, node as int, idx as int),
{
    let blen = b.len();
    let v: u64 = if rs == 24 {
        assert(node * 6 + idx * 3 + 3 <= n * 24 / 4) by (nonlinear_arith)
            requires
                node < n,
                idx < 2,
        ;
        read_be(b, (node * 6 + idx * 3) as usize, 3, 0)
    } else if rs == 28 {
        assert(node * 7 + 7 <= n * 28 / 4) by (nonlinear_arith)
            requires
                node < n,
        ;
        let base = node * 7;
        let x = b[(base + 3) as usize];
        let mid: u8 = if idx != 0 { x % 16 } else { x / 16 };
        read_be(b, (base + idx * 4) as usize, 3, mid as u64)
    } else {
        assert(node * 8 + idx * 4 + 4 <= n * 32 / 4) by (nonlinear_arith)
            requires
                node < n,
                idx < 2,
        ;
        read_be(b, (node * 8 + idx * 4) as usize, 4, 0)
    };
    assert(v == record_value(b@, rs as int, node as int, idx as int));
    if v <= n {
        true
    } else if v < n + 16 {
        false
    } else {
        let off = v - n - 16;
        if off >= d.len() as u64 {
            assert(ctrl_at(d@, off as int) is None);
            assert(value_end(d@, off as int, MAX_DEPTH as nat) is None);
            return false;
        }
        value_end_exec(d, off as usize, MAX_DEPTH).is_some()
    }
}

/// Whether opening the buffer and looking addresses up in it stay inside it.
pub fn check_database(b: &[u8]) -> (r: bool)
    ensures
        r == mmdb_safe(b@),
{
    let (n, rs) = match db_layout_exec(b) {
        Some(l) => l,
        None => return false,
    };
    if !(rs == 24 || rs == 28 || rs == 32) {
        return false;
    }
    assert(n * rs <= 0x1_0000_0000 * 32) by (nonlinear_arith)
        requires
            n < 0x1_0000_0000,
            rs <= 32,
    ;
    let start = n * rs / 4 + 16;
    if start > b.len() as u64 {
        return false;
    }
    let d = &b[start as usize..b.len()];
    let mut node: u64 = 0;
    while node < n
        invariant
            db_layout(b@) == Some((n as int, rs as int)),
            rs == 24 || rs == 28 || rs == 32,
            n < 0x1_0000_0000,
            start == data_start(n as int, rs as int),
            start <= b@.len(),
            d@ == b@.subrange(start as int, b@.len() as int),
            node <= n,
            forall|j: int, idx: int| 0 <= j < node && 0 <= idx < 2 ==> #[trigger] record_ok(b@, n as int, rs as int, j, idx),
        decreases n - node,
    {
        if !record_ok_exec(b, d, n, rs, node, 0) || !record_ok_exec(b, d, n, rs, node, 1) {
            return false;
        }
        proof {
            assert forall|j: int, idx: int| 0 <= j < node + 1 && 0 <= idx < 2 implies #[trigger] record_ok(b@, n as int, rs as int, j, idx) by {
                if j == node {
                    assert(idx == 0 || idx == 1);
                }
            }
        }
        node = node + 1;
    }
    true
}

} // verus!
