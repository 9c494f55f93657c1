//! Building protocol query byte strings.
//!
//! A query is written as hexadecimal text (white space ignored) and typed
//! big-endian fields; [`QueryBuilder`] appends them in order.

use vstd::prelude::*;
use crate::error::NetMDError;
use crate::text::{radix16_pair, radix16_pair_spec, remove_whitespace, strip_whitespace};
use crate::util::append_bytes;

verus! {

/// A complete NetMD control message.
pub struct Query(pub Vec<u8>);

/// The byte of the `k`-th pair of characters of `f`.
pub open spec fn pair_at(f: Seq<char>, k: int) -> Option<u8> {
    radix16_pair_spec(f[2 * k], f[2 * k + 1])
}

/// Whether every pair of characters of `f` is a base-16 byte.
pub open spec fn all_pairs_valid(f: Seq<char>) -> bool {
    forall|k: int| 0 <= k < f.len() / 2 ==> #[trigger] pair_at(f, k) is Some
}

/// The bytes a hexadecimal query string stands for: white space is dropped,
/// what remains must be an even number of characters, each pair a base-16
/// byte (two hex digits, or `+` and one hex digit).
pub open spec fn hex_query_spec(s: Seq<char>) -> Option<Seq<u8>> {
    let f = strip_whitespace(s);
    if f.len() % 2 == 0 && all_pairs_valid(f) {
        Some(Seq::new((f.len() / 2) as nat, |k: int| pair_at(f, k)->0))
    } else {
        None
    }
}

/// Big-endian bytes of a 16-bit value.
pub open spec fn be16(v: u16) -> Seq<u8> {
    seq![(v / 256) as u8, (v % 256) as u8]
}

/// Big-endian bytes of a 32-bit value.
pub open spec fn be32(v: u32) -> Seq<u8> {
    seq![(v / 0x1000000) as u8, ((v / 0x10000) % 256) as u8, ((v / 256) % 256) as u8, (v % 256) as u8]
}

impl Query {
    /// Parses a hexadecimal query string, ignoring white space.
    pub fn from_raw(value: &str) -> (res: Result<Query, NetMDError>)
        ensures
            match hex_query_spec(value@) {
                Some(bytes) => res matches Ok(q) && q.0@ == bytes,
                None => res == Err::<Query, NetMDError>(NetMDError::InvalidQuery),
            },
    {
        let f = remove_whitespace(value);
        if f.len() % 2 != 0 {
            return Err(NetMDError::InvalidQuery);
        }
        let n = f.len() / 2;
        let mut buf: Vec<u8> = Vec::new();
        let mut k: usize = 0;
        while k < n
            invariant
                f@ == strip_whitespace(value@),
                f.len() % 2 == 0,
                n == f.len() / 2,
                k <= n,
                buf@.len() == k,
                forall|j: int| 0 <= j < k ==> (#[trigger] pair_at(f@, j)) is Some && buf@[j]
                    == pair_at(f@, j)->0,
            decreases n - k,
        {
            match radix16_pair(f[2 * k], f[2 * k + 1]) {
                Some(b) => {
                    buf.push(b);
                }
                None => {
                    assert(pair_at(f@, k as int) is None);
                    return Err(NetMDError::InvalidQuery);
                }
            }
            k = k + 1;
        }
        assert(buf@ =~= Seq::new((f@.len() / 2) as nat, |j: int| pair_at(f@, j)->0));
        Ok(Query(buf))
    }
}

/// Assembles a query from hexadecimal fragments and big-endian fields.
pub struct QueryBuilder(pub Vec<u8>);

impl QueryBuilder {
    /// An empty query.
    pub fn new() -> (b: QueryBuilder)
        ensures
            b.0@ == Seq::<u8>::empty(),
    {
        QueryBuilder(Vec::new())
    }

    /// Appends the bytes of a hexadecimal fragment (white space ignored).
    pub fn raw(self, hex: &str) -> (res: Result<QueryBuilder, NetMDError>)
        ensures
            match hex_query_spec(hex@) {
                Some(bytes) => res matches Ok(b) && b.0@ == self.0@ + bytes,
                None => res == Err::<QueryBuilder, NetMDError>(NetMDError::InvalidQuery),
            },
    {
        let q = Query::from_raw(hex)?;
        let mut v = self.0;
        append_bytes(&mut v, q.0.as_slice());
        Ok(QueryBuilder(v))
    }

    /// Appends one byte.
    pub fn u8(self, value: u8) -> (b: QueryBuilder)
        ensures
            b.0@ == self.0@.push(value),
    {
        let mut v = self.0;
        v.push(value);
        QueryBuilder(v)
    }

    /// Appends a big-endian 16-bit value.
    pub fn u16(self, value: u16) -> (b: QueryBuilder)
        ensures
            b.0@ == self.0@ + be16(value),
    {
        let mut v = self.0;
        v.push((value / 256) as u8);
        v.push((value % 256) as u8);
        assert(v@ =~= self.0@ + be16(value));
        QueryBuilder(v)
    }

    /// Appends a big-endian 32-bit value.
    pub fn u32(self, value: u32) -> (b: QueryBuilder)
        ensures
            b.0@ == self.0@ + be32(value),
    {
        let mut v = self.0;
        v.push((value / 0x1000000) as u8);
        v.push(((value / 0x10000) % 256) as u8);
        v.push(((value / 256) % 256) as u8);
        v.push((value % 256) as u8);
        assert(v@ =~= self.0@ + be32(value));
        QueryBuilder(v)
    }

    /// Appends bytes verbatim.
    pub fn bytes(self, value: &[u8]) -> (b: QueryBuilder)
        ensures
            b.0@ == self.0@ + value@,
    {
        let mut v = self.0;
        append_bytes(&mut v, value);
        QueryBuilder(v)
    }

    /// The finished query.
    pub fn build(self) -> (q: Query)
        ensures
            q.0@ == self.0@,
    {
        Query(self.0)
    }
}

} // verus!
