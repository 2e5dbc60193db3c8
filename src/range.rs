use vstd::prelude::*;

use crate::text::{decimal_spec, push_decimal};

verus! {

/// An ASCII decimal digit.
pub open spec fn is_digit(c: char) -> bool {
    '0' <= c && c <= '9'
}

/// ASCII white space.
pub open spec fn is_space(c: char) -> bool {
    c == ' ' || c == '\t' || c == '\n' || c == '\r' || c == '\x0b' || c == '\x0c'
}

/// The first position at or after `i` that does not hold a digit.
pub open spec fn digits_end(s: Seq<char>, i: int) -> int
    decreases s.len() - i,
{
    if i < 0 || i >= s.len() || !is_digit(s[i]) {
        i
    } else {
        digits_end(s, i + 1)
    }
}

/// The value of the decimal digits `s[i..j]`.
pub open spec fn digits_value(s: Seq<char>, i: int, j: int) -> nat
    decreases j - i,
{
    if j <= i {
        0
    } else {
        digits_value(s, i, j - 1) * 10 + ((s[j - 1] as int - '0' as int) as nat)
    }
}

/// `s` holds `bytes=` at position `k`.
pub open spec fn unit_at(s: Seq<char>, k: int) -> bool {
    &&& 0 <= k
    &&& k + 6 <= s.len()
    &&& s[k] == 'b'
    &&& s[k + 1] == 'y'
    &&& s[k + 2] == 't'
    &&& s[k + 3] == 'e'
    &&& s[k + 4] == 's'
    &&& s[k + 5] == '='
}

/// Where the dash of a range that starts at `k` stands.
pub open spec fn dash_pos(s: Seq<char>, k: int) -> int {
    digits_end(s, k + 6)
}

/// Where the end digits of a range that starts at `k` stop.
pub open spec fn end_pos(s: Seq<char>, k: int) -> int {
    digits_end(s, dash_pos(s, k) + 1)
}

/// A range `bytes=<digits>-<digits>` starts at `k`, ended by a comma, white
/// space or the end of the text.
pub open spec fn range_at(s: Seq<char>, k: int) -> bool {
    &&& unit_at(s, k)
    &&& dash_pos(s, k) < s.len()
    &&& s[dash_pos(s, k)] == '-'
    &&& (end_pos(s, k) == s.len() || s[end_pos(s, k)] == ',' || is_space(s[end_pos(s, k)]))
}

/// The first position at or after `k` where a range starts.
pub open spec fn first_range(s: Seq<char>, k: int) -> Option<int>
    decreases s.len() - k,
{
    if k < 0 || k >= s.len() {
        None
    } else if range_at(s, k) {
        Some(k)
    } else {
        first_range(s, k + 1)
    }
}

/// The last byte of a body of `max_len` bytes; for an empty body the
/// position before the first, wrapped round.
pub open spec fn last_byte(max_len: u64) -> u64 {
    if max_len == 0 {
        u64::MAX
    } else {
        (max_len - 1) as u64
    }
}

/// The answer for a whole body, not a part of it.
pub open spec fn full_range(max_len: u64) -> (u64, u64, bool) {
    (0, last_byte(max_len), false)
}

/// The byte range that a `Range` header asks of a body of `max_len` bytes:
/// `(first, last, partial)`. The first range in the header counts; a missing
/// first number means 0, a missing last one the end of the body. A missing
/// header, one without a range, or a number beyond `u64` gives the whole body.
pub open spec fn parse_range_spec(header: Option<Seq<char>>, max_len: u64) -> (u64, u64, bool) {
    match header {
        None => full_range(max_len),
        Some(s) => match first_range(s, 0) {
            None => full_range(max_len),
            Some(k) => {
                let a = dash_pos(s, k);
                let b = end_pos(s, k);
                let first = digits_value(s, k + 6, a);
                let last = digits_value(s, a + 1, b);
                if first > u64::MAX {
                    full_range(max_len)
                } else if b == a + 1 {
                    (first as u64, last_byte(max_len), true)
                } else if last > u64::MAX {
                    full_range(max_len)
                } else {
                    (first as u64, last as u64, true)
                }
            },
        },
    }
}

proof fn lemma_digits_end_bounds(s: Seq<char>, i: int)
    requires
        0 <= i <= s.len(),
    ensures
        i <= digits_end(s, i) <= s.len(),
        forall|j: int| i <= j < digits_end(s, i) ==> is_digit(#[trigger] s[j]),
    decreases s.len() - i,
{
    if i < s.len() && is_digit(s[i]) {
        lemma_digits_end_bounds(s, i + 1);
    }
}

fn scan_digits(s: &str, n: usize, i: usize) -> (j: usize)
    requires
        n == s@.len(),
        i <= n,
    ensures
        j == digits_end(s@, i as int),
{
    let mut j = i;
    while j < n && '0' <= s.get_char(j) && s.get_char(j) <= '9'
        invariant
            n == s@.len(),
            i <= j <= n,
            digits_end(s@, j as int) == digits_end(s@, i as int),
        decreases n - j,
    {
        j = j + 1;
    }
    j
}

proof fn lemma_digits_value_grows(s: Seq<char>, i: int, j: int)
    requires
        i < j,
        is_digit(s[j - 1]),
    ensures
        digits_value(s, i, j) >= digits_value(s, i, j - 1),
{
    let v = digits_value(s, i, j - 1);
    assert(v * 10 >= v) by (nonlinear_arith);
}

/// The value of the digits `s[i..j]`, or `None` where it does not fit in `u64`.
fn digits_to_u64(s: &str, i: usize, j: usize) -> (r: Option<u64>)
    requires
        i <= j <= s@.len(),
        forall|p: int| i <= p < j ==> is_digit(#[trigger] s@[p]),
    ensures
        r matches Some(v) ==> v == digits_value(s@, i as int, j as int),
        r is None ==> digits_value(s@, i as int, j as int) > u64::MAX,
{
    let mut p = i;
    let mut acc: Option<u64> = Some(0);
    while p < j
        invariant
            i <= p <= j <= s@.len(),
            forall|q: int| i <= q < j ==> is_digit(#[trigger] s@[q]),
            acc matches Some(v) ==> v == digits_value(s@, i as int, p as int),
            acc is None ==> digits_value(s@, i as int, p as int) > u64::MAX,
        decreases j - p,
    {
        let c = s.get_char(p);
        let d = (c as u32 - '0' as u32) as u64;
        proof {
            assert(is_digit(s@[p as int]));
            lemma_digits_value_grows(s@, i as int, p + 1);
        }
        acc = match acc {
            Some(v) => match v.checked_mul(10) {
                Some(t) => t.checked_add(d),
                None => None,
            },
            None => None,
        };
        p = p + 1;
    }
    acc
}

/// Whether a range starts at `k`.
fn range_starts_at(s: &str, n: usize, k: usize) -> (r: bool)
    requires
        n == s@.len(),
        k < n,
    ensures
        r == range_at(s@, k as int),
{
    if n - k < 6 {
        return false;
    }
    if !(s.get_char(k) == 'b' && s.get_char(k + 1) == 'y' && s.get_char(k + 2) == 't'
        && s.get_char(k + 3) == 'e' && s.get_char(k + 4) == 's' && s.get_char(k + 5) == '=') {
        return false;
    }
    let a = scan_digits(s, n, k + 6);
    proof {
        lemma_digits_end_bounds(s@, k + 6);
    }
    if a >= n || s.get_char(a) != '-' {
        return false;
    }
    let b = scan_digits(s, n, a + 1);
    proof {
        lemma_digits_end_bounds(s@, a + 1);
    }
    if b == n {
        return true;
    }
    let c = s.get_char(b);
    c == ',' || c == ' ' || c == '\t' || c == '\n' || c == '\r' || c == '\x0b' || c == '\x0c'
}

/// Reads the `Range` header of a request for a body of `max_len` bytes, and
/// gives `(first, last, partial)`: the first and last byte to send, and
/// whether the answer is a part of the body. A header that cannot be read
/// falls back to the whole body.
pub fn parse_range(header: Option<&str>, max_len: u64) -> (r: (u64, u64, bool))
    ensures
        r == parse_range_spec(
            match header {
                Some(h) => Some(h@),
                None => None,
            },
            max_len,
        ),
{
    let last = max_len.wrapping_sub(1);
    let s = match header {
        None => {
            return (0, last, false);
        },
        Some(h) => h,
    };
    let n = s.unicode_len();
    let mut k: usize = 0;
    while k < n && !range_starts_at(s, n, k)
        invariant
            n == s@.len(),
            k <= n,
            first_range(s@, k as int) == first_range(s@, 0),
        decreases n - k,
    {
        k = k + 1;
    }
    if k >= n {
        return (0, last, false);
    }
    proof {
        lemma_digits_end_bounds(s@, k + 6);
        lemma_digits_end_bounds(s@, dash_pos(s@, k as int) + 1);
    }
    let a = scan_digits(s, n, k + 6);
    let b = scan_digits(s, n, a + 1);
    let first = match digits_to_u64(s, k + 6, a) {
        None => {
            return (0, last, false);
        },
        Some(v) => v,
    };
    if b == a + 1 {
        return (first, last, true);
    }
    match digits_to_u64(s, a + 1, b) {
        None => (0, last, false),
        Some(v) => (first, v, true),
    }
}

/// How many bytes the inclusive range `first..=last` covers, counted in
/// `u64` arithmetic that wraps round.
pub open spec fn range_len_spec(first: u64, last: u64) -> u64 {
    ((last as int - first as int + 1) % 0x1_0000_0000_0000_0000) as u64
}

/// How many bytes the inclusive range `range.0..=range.1` covers.
pub fn range_len(range: (u64, u64)) -> (r: u64)
    ensures
        r == range_len_spec(range.0, range.1),
{
    range.1.wrapping_sub(range.0).wrapping_add(1)
}

/// What a range stream does with one chunk of the underlying stream.
#[derive(Debug, PartialEq, Eq)]
pub enum RangeChunk {
    /// The chunk was empty: nothing to send, read on.
    Skip,
    /// Send these bytes.
    Emit(Vec<u8>),
    /// The range is complete: end the body.
    End,
}

/// The part of `chunk` that is sent when `read` of `size` bytes have gone.
pub open spec fn chunk_part(size: u64, read: u64, chunk: Seq<u8>) -> Seq<u8> {
    if read >= size {
        Seq::empty()
    } else if chunk.len() > size - read {
        chunk.take(size - read)
    } else {
        chunk
    }
}

/// All that a range stream of `size` bytes sends, `read` of them already
/// gone, when the underlying stream yields `chunks`.
pub open spec fn range_output(size: u64, read: u64, chunks: Seq<Seq<u8>>) -> Seq<u8>
    decreases chunks.len(),
{
    if chunks.len() == 0 || read >= size {
        Seq::empty()
    } else {
        let part = chunk_part(size, read, chunks[0]);
        part + range_output(size, (read + part.len()) as u64, chunks.drop_first())
    }
}

/// A body that passes on at most `size` bytes of an underlying stream of
/// chunks, however the chunks fall, cutting the last one short.
pub struct RangeStream {
    size: u64,
    read_bytes: u64,
}

impl View for RangeStream {
    /// The bytes owed in all, and those sent so far.
    type V = (u64, u64);

    closed spec fn view(&self) -> (u64, u64) {
        (self.size, self.read_bytes)
    }
}

impl RangeStream {
    /// A stream that will pass on `size` bytes.
    pub fn new(size: u64) -> (r: Self)
        ensures
            r@ == (size, 0u64),
    {
        RangeStream { size, read_bytes: 0 }
    }

    /// Takes the next chunk of the underlying stream and says what to send.
    pub fn poll_chunk(&mut self, chunk: Vec<u8>) -> (r: RangeChunk)
        ensures
            final(self)@.0 == old(self)@.0,
            old(self)@.1 >= old(self)@.0 ==> r == RangeChunk::End && final(self)@ == old(self)@,
            old(self)@.1 < old(self)@.0 && chunk@.len() == 0 ==> r == RangeChunk::Skip
                && final(self)@ == old(self)@,
            old(self)@.1 < old(self)@.0 && chunk@.len() > 0 ==> (r matches RangeChunk::Emit(v) && v@
                == chunk_part(old(self)@.0, old(self)@.1, chunk@) && final(self)@.1 == old(self)@.1
                + v@.len()),
    {
        if self.read_bytes >= self.size {
            return RangeChunk::End;
        }
        if chunk.len() == 0 {
            return RangeChunk::Skip;
        }
        let rest = self.size - self.read_bytes;
        if chunk.len() as u64 > rest {
            let mut out: Vec<u8> = Vec::new();
            let mut i: usize = 0;
            while i < rest as usize
                invariant
                    rest < chunk@.len(),
                    i <= rest,
                    out@ == chunk@.take(i as int),
                decreases rest - i,
            {
                out.push(chunk[i]);
                i = i + 1;
                proof {
                    assert(out@ =~= chunk@.take(i as int));
                }
            }
            self.read_bytes = self.size;
            RangeChunk::Emit(out)
        } else {
            self.read_bytes = self.read_bytes + chunk.len() as u64;
            RangeChunk::Emit(chunk)
        }
    }
}

/// A range stream that owes `size` bytes, `read` of them gone, sends the
/// next `size - read` bytes of the underlying stream, or all of them where
/// fewer remain, however the stream cuts them into chunks.
pub proof fn lemma_range_output(size: u64, read: u64, chunks: Seq<Seq<u8>>)
    requires
        read <= size,
    ensures
        range_output(size, read, chunks) == chunks.flatten().take(
            if chunks.flatten().len() < size - read {
                chunks.flatten().len() as int
            } else {
                size - read
            },
        ),
    decreases chunks.len(),
{
    let flat = chunks.flatten();
    if chunks.len() == 0 {
        assert(flat.take(0) =~= Seq::<u8>::empty());
    } else if read == size {
        assert(flat.take(0) =~= Seq::<u8>::empty());
    } else {
        let c = chunks[0];
        let rest = chunks.drop_first();
        let part = chunk_part(size, read, c);
        let read2 = (read + part.len()) as u64;
        lemma_range_output(size, read2, rest);
        assert(flat == c + rest.flatten());
        let out = range_output(size, read2, rest);
        if c.len() > size - read {
            assert(part + out =~= flat.take(size - read));
        } else {
            let n = if flat.len() < size - read {
                flat.len() as int
            } else {
                size - read
            };
            assert(part + out =~= flat.take(n));
        }
    }
}

/// Reading the range `0..=n-1` of an `n`-byte file gives back its bytes,
/// whatever chunks the file is read in.
pub proof fn lemma_read_whole_file(data: Seq<u8>, chunks: Seq<Seq<u8>>)
    requires
        chunks.flatten() == data,
        data.len() <= u64::MAX,
    ensures
        range_output(
            range_len_spec(0, last_byte(data.len() as u64)),
            0,
            chunks,
        ) == data,
{
    let n = data.len() as int;
    let size = range_len_spec(0, last_byte(n as u64));
    assert(size == n);
    lemma_range_output(size, 0, chunks);
    assert(data.take(n) =~= data);
}

/// The `Content-Range` value of a partial answer: `bytes first-last/total`.
pub open spec fn content_range_spec(first: u64, last: u64, total: u64) -> Seq<char> {
    "bytes "@ + decimal_spec(first as nat) + "-"@ + decimal_spec(last as nat) + "/"@ + decimal_spec(
        total as nat,
    )
}

/// The `Content-Range` value for the bytes `first..=last` of a body of
/// `total` bytes.
pub fn content_range(first: u64, last: u64, total: u64) -> (r: String)
    ensures
        r@ == content_range_spec(first, last, total),
{
    let mut r = String::new();
    r.append("bytes ");
    push_decimal(&mut r, first);
    r.append("-");
    push_decimal(&mut r, last);
    r.append("/");
    push_decimal(&mut r, total);
    proof {
        assert(r@ =~= content_range_spec(first, last, total));
    }
    r
}

} // verus!
