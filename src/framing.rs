use vstd::prelude::*;

verus! {

// The stream is a sequence of messages. Each starts with the continuation
// marker 0xFFFFFFFF and a little-endian i32 metadata length, followed by the
// metadata (a flatbuffer `Message` table) and the message body. A length of 0
// ends the stream.

/// A little-endian unsigned 16-bit integer at `p`.
pub open spec fn u16_at(s: Seq<u8>, p: int) -> Option<int> {
    if 0 <= p && p + 2 <= s.len() {
        Some(s[p] as int + 256 * s[p + 1] as int)
    } else {
        None
    }
}

/// A little-endian unsigned 32-bit integer at `p`.
pub open spec fn u32_at(s: Seq<u8>, p: int) -> Option<int> {
    match (u16_at(s, p), u16_at(s, p + 2)) {
        (Some(lo), Some(hi)) => Some(lo + 65536 * hi),
        _ => None,
    }
}

/// A little-endian signed 32-bit integer at `p`.
pub open spec fn i32_at(s: Seq<u8>, p: int) -> Option<int> {
    match u32_at(s, p) {
        Some(v) => Some(if v >= 0x8000_0000 { v - 0x1_0000_0000 } else { v }),
        None => None,
    }
}

/// A little-endian signed 64-bit integer at `p`, where it is not negative.
pub open spec fn nonneg_i64_at(s: Seq<u8>, p: int) -> Option<int> {
    match (u32_at(s, p), u32_at(s, p + 4)) {
        (Some(lo), Some(hi)) => if hi < 0x8000_0000 {
            Some(lo + 0x1_0000_0000 * hi)
        } else {
            None
        },
        _ => None,
    }
}

/// The position that the unsigned offset at `p` points to, where it lies in
/// the stream.
pub open spec fn offset_target(s: Seq<u8>, p: int) -> Option<int> {
    match u32_at(s, p) {
        Some(o) => if p + o <= s.len() {
            Some(p + o)
        } else {
            None
        },
        None => None,
    }
}

/// Where field `f` of the flatbuffer table at `t` is stored: `Some(None)`
/// where the field is absent, `None` where the table is out of bounds.
pub open spec fn table_field(s: Seq<u8>, t: int, f: int) -> Option<Option<int>> {
    match i32_at(s, t) {
        Some(so) => {
            let vt = t - so;
            match u16_at(s, vt) {
                Some(vsize) => if 4 + 2 * f + 2 > vsize {
                    Some(None)
                } else {
                    match u16_at(s, vt + 4 + 2 * f) {
                        Some(o) => if o == 0 {
                            Some(None)
                        } else if t + o <= s.len() {
                            Some(Some(t + o))
                        } else {
                            None
                        },
                        None => None,
                    }
                },
                None => None,
            }
        },
        None => None,
    }
}

/// A one-byte field of a table, with its default 0.
pub open spec fn byte_field(s: Seq<u8>, t: int, f: int) -> Option<int> {
    match table_field(s, t, f) {
        Some(Some(p)) => if 0 <= p < s.len() {
            Some(s[p] as int)
        } else {
            None
        },
        Some(None) => Some(0),
        None => None,
    }
}

/// The start and element count of the vector that field `f` of the table
/// at `t` points to; an absent field is an empty vector.
pub open spec fn vector_field(s: Seq<u8>, t: int, f: int) -> Option<(int, int)> {
    match table_field(s, t, f) {
        Some(Some(p)) => match offset_target(s, p) {
            Some(v) => match u32_at(s, v) {
                Some(n) => Some((v + 4, n)),
                None => None,
            },
            None => None,
        },
        Some(None) => Some((0, 0)),
        None => None,
    }
}

/// The metadata start and length of the message at `p`.
pub open spec fn message_frame(s: Seq<u8>, p: int) -> Option<(int, int)> {
    match (u32_at(s, p), i32_at(s, p + 4)) {
        (Some(mark), Some(len)) => if mark == 0xFFFF_FFFF && len >= 0 {
            Some((p + 8, len))
        } else {
            None
        },
        _ => None,
    }
}

/// The header type, header table and body length of the `Message` whose
/// metadata starts at `m`.
pub open spec fn message_info(s: Seq<u8>, m: int) -> Option<(int, int, int)> {
    match offset_target(s, m) {
        Some(root) => match (byte_field(s, root, 1), table_field(s, root, 2), table_field(
            s,
            root,
            3,
        )) {
            (Some(ht), Some(Some(hp)), Some(bp)) => match offset_target(s, hp) {
                Some(hdr) => match bp {
                    Some(q) => match nonneg_i64_at(s, q) {
                        Some(body) => Some((ht, hdr, body)),
                        None => None,
                    },
                    None => Some((ht, hdr, 0)),
                },
                None => None,
            },
            _ => None,
        },
        None => None,
    }
}

/// Fields `i..n` of a schema's field vector at `v` all have the `Int` type.
pub open spec fn int_fields_from(s: Seq<u8>, v: int, n: int, i: int) -> bool
    decreases n - i,
{
    if i >= n {
        true
    } else {
        match offset_target(s, v + 4 * i) {
            Some(f) => byte_field(s, f, 2) == Some(2int) && int_fields_from(s, v, n, i + 1),
            None => false,
        }
    }
}

/// A schema table whose fields are all of the `Int` type.
pub open spec fn schema_ok(s: Seq<u8>, hdr: int) -> bool {
    match vector_field(s, hdr, 1) {
        Some((v, n)) => int_fields_from(s, v, n, 0),
        None => false,
    }
}

/// Elements `i..n` of a vector of 16-byte structs at `v` are two
/// non-negative 64-bit integers; with `body` given, they are a buffer's
/// offset and length that lie inside a body of that many bytes, else a
/// field node's length and null count, each below 2^31.
pub open spec fn pairs_ok_from(s: Seq<u8>, v: int, n: int, i: int, body: Option<int>) -> bool
    decreases n - i,
{
    if i >= n {
        true
    } else {
        match (nonneg_i64_at(s, v + 16 * i), nonneg_i64_at(s, v + 16 * i + 8)) {
            (Some(a), Some(b)) => (match body {
                Some(bl) => a + b <= bl,
                None => a < 0x8000_0000 && b < 0x8000_0000,
            }) && pairs_ok_from(s, v, n, i + 1, body),
            _ => false,
        }
    }
}

/// Field nodes `i..nn` at `nv` that declare nulls have a validity buffer
/// (buffer `2i` of the `bn` buffers at `bv`) with a bit for every row.
pub open spec fn validity_fits_from(s: Seq<u8>, nv: int, nn: int, bv: int, bn: int, i: int) -> bool
    decreases nn - i,
{
    if i >= nn {
        true
    } else {
        match (nonneg_i64_at(s, nv + 16 * i), nonneg_i64_at(s, nv + 16 * i + 8)) {
            (Some(len), Some(nulls)) => (nulls == 0 || (2 * i < bn && match nonneg_i64_at(
                s,
                bv + 32 * i + 8,
            ) {
                Some(bytes) => 8 * bytes >= len,
                None => false,
            })) && validity_fits_from(s, nv, nn, bv, bn, i + 1),
            _ => false,
        }
    }
}

/// A record batch table that declares no body compression, whose row count
/// is below 2^31, whose field nodes are well formed and whose buffers lie
/// inside the body.
pub open spec fn batch_ok(s: Seq<u8>, hdr: int, body: int) -> bool {
    let uncompressed = table_field(s, hdr, 3) == Some(None::<int>);
    let len_ok = match table_field(s, hdr, 0) {
        Some(Some(q)) => match nonneg_i64_at(s, q) {
            Some(n) => n < 0x8000_0000,
            None => false,
        },
        Some(None) => true,
        None => false,
    };
    uncompressed && len_ok && (match (vector_field(s, hdr, 1), vector_field(s, hdr, 2)) {
        (Some((nv, nn)), Some((bv, bn))) => pairs_ok_from(s, nv, nn, 0, None) && pairs_ok_from(
            s,
            bv,
            bn,
            0,
            Some(body),
        ) && validity_fits_from(s, nv, nn, bv, bn, 0),
        _ => false,
    })
}

/// What may follow the schema message at `p`: nothing complete, the end of
/// the stream, or a well-formed record batch message.
pub open spec fn second_message_ok(s: Seq<u8>, p: int) -> bool {
    if p + 8 > s.len() {
        true
    } else {
        match message_frame(s, p) {
            Some((m, len)) => len == 0 || (m + len <= s.len() && (match message_info(s, m) {
                Some((ht, hdr, body)) => ht == 3 && m + len + body <= s.len() && batch_ok(s, hdr, body),
                None => false,
            })),
            None => false,
        }
    }
}

/// The framing of a stream that the decoder accepts: a schema message of
/// `Int` fields whose body is present, then at most one record batch
/// message is looked at; it declares no body compression, its body is
/// present and each of its buffers lies inside it.
pub open spec fn stream_framing_ok(s: Seq<u8>) -> bool {
    match message_frame(s, 0) {
        Some((m, len)) => len > 0 && m + len <= s.len() && (match message_info(s, m) {
            Some((ht, hdr, body)) => ht == 1 && schema_ok(s, hdr) && m + len + body <= s.len() && second_message_ok(
                s,
                m + len + body,
            ),
            None => false,
        }),
        None => false,
    }
}

pub open spec fn num(o: Option<u64>) -> Option<int> {
    match o {
        Some(v) => Some(v as int),
        None => None,
    }
}

pub open spec fn pos(o: Option<usize>) -> Option<int> {
    match o {
        Some(v) => Some(v as int),
        None => None,
    }
}

fn read_u16(s: &[u8], p: usize) -> (r: Option<u64>)
    ensures
        num(r) == u16_at(s@, p as int),
        r matches Some(v) ==> v < 0x1_0000,
{
    if p < s.len() && 2 <= s.len() - p {
        Some(s[p] as u64 + 256 * s[p + 1] as u64)
    } else {
        None
    }
}

fn read_u32(s: &[u8], p: usize) -> (r: Option<u64>)
    ensures
        num(r) == u32_at(s@, p as int),
        r matches Some(v) ==> v < 0x1_0000_0000,
{
    if p > s.len() || s.len() - p < 4 {
        return None;
    }
    match (read_u16(s, p), read_u16(s, p + 2)) {
        (Some(lo), Some(hi)) => Some(lo + 65536 * hi),
        _ => None,
    }
}

fn read_i32(s: &[u8], p: usize) -> (r: Option<i64>)
    ensures
        match r {
            Some(v) => i32_at(s@, p as int) == Some(v as int),
            None => i32_at(s@, p as int) is None,
        },
{
    match read_u32(s, p) {
        Some(v) => Some(if v >= 0x8000_0000 { v as i64 - 0x1_0000_0000 } else { v as i64 }),
        None => None,
    }
}

fn read_nonneg_i64(s: &[u8], p: usize) -> (r: Option<u64>)
    ensures
        num(r) == nonneg_i64_at(s@, p as int),
        r matches Some(v) ==> v < 0x8000_0000_0000_0000,
{
    if p > s.len() || s.len() - p < 8 {
        return None;
    }
    match (read_u32(s, p), read_u32(s, p + 4)) {
        (Some(lo), Some(hi)) => if hi < 0x8000_0000 {
            Some(lo + 0x1_0000_0000 * hi)
        } else {
            None
        },
        _ => None,
    }
}

fn read_offset_target(s: &[u8], p: usize) -> (r: Option<usize>)
    ensures
        pos(r) == offset_target(s@, p as int),
        r matches Some(q) ==> q <= s.len(),
{
    match read_u32(s, p) {
        Some(o) => if p <= s.len() && o <= (s.len() - p) as u64 {
            Some(p + o as usize)
        } else {
            None
        },
        None => None,
    }
}

fn read_table_field(s: &[u8], t: usize, f: usize) -> (r: Option<Option<usize>>)
    requires
        f < 8,
    ensures
        match r {
            Some(Some(q)) => table_field(s@, t as int, f as int) == Some(Some(q as int)) && q <= s.len(),
            Some(None) => table_field(s@, t as int, f as int) == Some(None::<int>),
            None => table_field(s@, t as int, f as int) is None,
        },
{
    let so = match read_i32(s, t) {
        Some(v) => v,
        None => return None,
    };
    if t > s.len() {
        return None;
    }
    let vt: usize = if so >= 0 {
        if so as u64 > t as u64 {
            assert(u16_at(s@, t - so) is None);
            return None;
        }
        t - so as usize
    } else {
        if (-so) as u64 > (s.len() - t) as u64 {
            assert(u16_at(s@, t - so) is None);
            return None;
        }
        t + (-so) as usize
    };
    let vsize = match read_u16(s, vt) {
        Some(v) => v,
        None => return None,
    };
    if 4 + 2 * f as u64 + 2 > vsize {
        return Some(None);
    }
    if vt > s.len() || s.len() - vt < 4 + 2 * f + 2 {
        return None;
    }
    let o = match read_u16(s, vt + 4 + 2 * f) {
        Some(v) => v,
        None => return None,
    };
    if o == 0 {
        Some(None)
    } else if o <= (s.len() - t) as u64 {
        Some(Some(t + o as usize))
    } else {
        None
    }
}

fn read_byte_field(s: &[u8], t: usize, f: usize) -> (r: Option<u64>)
    requires
        f < 8,
    ensures
        num(r) == byte_field(s@, t as int, f as int),
{
    match read_table_field(s, t, f) {
        Some(Some(p)) => if p < s.len() {
            Some(s[p] as u64)
        } else {
            None
        },
        Some(None) => Some(0),
        None => None,
    }
}

fn read_vector_field(s: &[u8], t: usize, f: usize) -> (r: Option<(usize, u64)>)
    requires
        f < 8,
    ensures
        match r {
            Some((v, n)) => vector_field(s@, t as int, f as int) == Some((v as int, n as int)),
            None => vector_field(s@, t as int, f as int) is None,
        },
{
    match read_table_field(s, t, f) {
        Some(Some(p)) => match read_offset_target(s, p) {
            Some(v) => match read_u32(s, v) {
                Some(n) => Some((v + 4, n)),
                None => None,
            },
            None => None,
        },
        Some(None) => Some((0, 0)),
        None => None,
    }
}

fn read_message_frame(s: &[u8], p: usize) -> (r: Option<(usize, u64)>)
    ensures
        match r {
            Some((m, len)) => message_frame(s@, p as int) == Some((m as int, len as int)),
            None => message_frame(s@, p as int) is None,
        },
{
    if p > s.len() || s.len() - p < 8 {
        return None;
    }
    match (read_u32(s, p), read_i32(s, p + 4)) {
        (Some(mark), Some(len)) => if mark == 0xFFFF_FFFF && len >= 0 {
            Some((p + 8, len as u64))
        } else {
            None
        },
        _ => None,
    }
}

fn read_message_info(s: &[u8], m: usize) -> (r: Option<(u64, usize, u64)>)
    ensures
        match r {
            Some((ht, hdr, body)) => message_info(s@, m as int) == Some((ht as int, hdr as int, body as int)),
            None => message_info(s@, m as int) is None,
        },
{
    let root = match read_offset_target(s, m) {
        Some(r) => r,
        None => return None,
    };
    match (read_byte_field(s, root, 1), read_table_field(s, root, 2), read_table_field(s, root, 3)) {
        (Some(ht), Some(Some(hp)), Some(bp)) => match read_offset_target(s, hp) {
            Some(hdr) => match bp {
                Some(q) => match read_nonneg_i64(s, q) {
                    Some(body) => Some((ht, hdr, body)),
                    None => None,
                },
                None => Some((ht, hdr, 0)),
            },
            None => None,
        },
        _ => None,
    }
}

fn check_int_fields(s: &[u8], v: usize, n: u64) -> (r: bool)
    requires
        v <= s.len(),
    ensures
        r == int_fields_from(s@, v as int, n as int, 0),
{
    if n > ((s.len() - v) / 4) as u64 {
        // the last entry would lie past the end of the stream
        proof {
            let x = s.len() - v;
            assert(4 * n > x) by (nonlinear_arith)
                requires
                    n > x / 4,
                    x >= 0,
            ;
            lemma_int_fields_short(s@, v as int, n as int, 0);
        }
        return false;
    }
    let mut i: u64 = n;
    let mut ok = true;
    while i > 0
        invariant
            i <= n,
            v <= s.len(),
            n <= (s.len() - v) / 4,
            ok == int_fields_from(s@, v as int, n as int, i as int),
        decreases i,
    {
        i -= 1;
        let here = match read_offset_target(s, v + 4 * i as usize) {
            Some(f) => read_byte_field(s, f, 2) == Some(2u64),
            None => false,
        };
        ok = here && ok;
    }
    ok
}

proof fn lemma_int_fields_short(s: Seq<u8>, v: int, n: int, i: int)
    requires
        0 <= v <= s.len(),
        0 <= i,
        4 * i <= s.len() - v,
        4 * n > s.len() - v,
    ensures
        !int_fields_from(s, v, n, i),
    decreases n - i,
{
    if i < n {
        if v + 4 * i + 4 <= s.len() {
            lemma_int_fields_short(s, v, n, i + 1);
        }
    }
}

proof fn lemma_pairs_short(s: Seq<u8>, v: int, n: int, i: int, body: Option<int>)
    requires
        0 <= v <= s.len(),
        0 <= i,
        16 * i <= s.len() - v,
        16 * n > s.len() - v,
    ensures
        !pairs_ok_from(s, v, n, i, body),
    decreases n - i,
{
    if i < n {
        if v + 16 * i + 16 <= s.len() {
            lemma_pairs_short(s, v, n, i + 1, body);
        }
    }
}

fn check_pairs(s: &[u8], v: usize, n: u64, body: Option<u64>) -> (r: bool)
    requires
        v <= s.len(),
    ensures
        r == pairs_ok_from(s@, v as int, n as int, 0, num(body)),
{
    if n > ((s.len() - v) / 16) as u64 {
        proof {
            let x = s.len() - v;
            assert(16 * n > x) by (nonlinear_arith)
                requires
                    n > x / 16,
                    x >= 0,
            ;
            lemma_pairs_short(s@, v as int, n as int, 0, num(body));
        }
        return false;
    }
    let mut i: u64 = n;
    let mut ok = true;
    while i > 0
        invariant
            i <= n,
            v <= s.len(),
            n <= (s.len() - v) / 16,
            ok == pairs_ok_from(s@, v as int, n as int, i as int, num(body)),
        decreases i,
    {
        i -= 1;
        let at = v + 16 * i as usize;
        let here = match (read_nonneg_i64(s, at), read_nonneg_i64(s, at + 8)) {
            (Some(a), Some(b)) => match body {
                Some(bl) => a <= bl && b <= bl - a,
                None => a < 0x8000_0000 && b < 0x8000_0000,
            },
            _ => false,
        };
        ok = here && ok;
    }
    ok
}

fn check_validity(s: &[u8], nv: usize, nn: u64, bv: usize, bn: u64) -> (r: bool)
    requires
        nv <= s.len(),
        bv <= s.len(),
        nn <= (s.len() - nv) / 16,
        bn < 0x1_0000_0000,
    ensures
        r == validity_fits_from(s@, nv as int, nn as int, bv as int, bn as int, 0),
{
    let mut i: u64 = nn;
    let mut ok = true;
    while i > 0
        invariant
            i <= nn,
            nv <= s.len(),
            bv <= s.len(),
            nn <= (s.len() - nv) / 16,
            bn < 0x1_0000_0000,
            ok == validity_fits_from(s@, nv as int, nn as int, bv as int, bn as int, i as int),
        decreases i,
    {
        i -= 1;
        let at = nv + 16 * i as usize;
        let here = match (read_nonneg_i64(s, at), read_nonneg_i64(s, at + 8)) {
            (Some(len), Some(nulls)) => nulls == 0 || (2 * i < bn && {
                let vb: u64 = 32 * i + 8;
                if vb > (s.len() - bv) as u64 {
                    proof { assert(nonneg_i64_at(s@, bv + 32 * i + 8) is None); }
                    false
                } else {
                    match read_nonneg_i64(s, bv + vb as usize) {
                        Some(bytes) => bytes >= 0x2000_0000_0000_0000 || len <= 8 * bytes,
                        None => false,
                    }
                }
            }),
            _ => false,
        };
        ok = here && ok;
    }
    ok
}

fn check_batch(s: &[u8], hdr: usize, body: u64) -> (r: bool)
    ensures
        r == batch_ok(s@, hdr as int, body as int),
{
    match read_table_field(s, hdr, 3) {
        Some(None) => {},
        _ => return false,
    }
    let len_ok = match read_table_field(s, hdr, 0) {
        Some(Some(q)) => match read_nonneg_i64(s, q) {
            Some(n) => n < 0x8000_0000,
            None => false,
        },
        Some(None) => true,
        None => false,
    };
    if !len_ok {
        return false;
    }
    match (read_vector_field(s, hdr, 1), read_vector_field(s, hdr, 2)) {
        (Some((nv, nn)), Some((bv, bn))) => {
            if nv > s.len() || bv > s.len() {
                return false;
            }
            if nn > ((s.len() - nv) / 16) as u64 {
                proof {
                    let x = s.len() - nv;
                    assert(16 * nn > x) by (nonlinear_arith)
                        requires
                            nn > x / 16,
                            x >= 0,
                    ;
                    lemma_pairs_short(s@, nv as int, nn as int, 0, None);
                }
                return false;
            }
            check_pairs(s, nv, nn, None) && check_pairs(s, bv, bn, Some(body)) && check_validity(
                s,
                nv,
                nn,
                bv,
                bn,
            )
        },
        _ => false,
    }
}

fn check_second_message(s: &[u8], p: u64) -> (r: bool)
    ensures
        r == second_message_ok(s@, p as int),
{
    if p > s.len() as u64 || (s.len() as u64) - p < 8 {
        return true;
    }
    let p = p as usize;
    match read_message_frame(s, p) {
        Some((m, len)) => len == 0 || (m <= s.len() && len <= (s.len() - m) as u64 && (match read_message_info(s, m) {
            Some((ht, hdr, body)) => ht == 3 && body <= (s.len() - m) as u64 - len && check_batch(s, hdr, body),
            None => false,
        })),
        None => false,
    }
}

/// Checks the framing of a stream before it is decoded: the first message
/// is a schema of `Int` fields, and a record batch message that follows it
/// keeps every buffer inside its body.
pub fn check_stream_framing(s: &[u8]) -> (r: bool)
    ensures
        r == stream_framing_ok(s@),
{
    match read_message_frame(s, 0) {
        Some((m, len)) => {
            if len == 0 || m > s.len() || len > (s.len() - m) as u64 {
                return false;
            }
            match read_message_info(s, m) {
                Some((ht, hdr, body)) => {
                    if ht != 1 {
                        return false;
                    }
                    let ok = match read_vector_field(s, hdr, 1) {
                        Some((v, n)) => v <= s.len() && check_int_fields(s, v, n),
                        None => false,
                    };
                    if !ok {
                        return false;
                    }
                    let next = m as u64 + len;
                    if body > (s.len() as u64) - next {
                        return false;
                    }
                    check_second_message(s, next + body)
                },
                None => false,
            }
        },
        None => false,
    }
}

} // verus!
