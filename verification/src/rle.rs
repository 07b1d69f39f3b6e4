//! PWG raster run-length encoder: an outer layer of scanline repeats and an
//! inner PackBits-style layer of repeated and literal runs inside one line.
//!
//! The wire form is pinned down by the spec functions below, and every
//! executable function appends exactly the bytes that its spec function
//! describes.

use vstd::prelude::*;

verus! {

/// Length of the maximal run of equal bytes starting at `i`.
pub open spec fn run_len_at(s: Seq<u8>, i: int) -> int
    decreases s.len() - i,
{
    if i < 0 || i + 1 >= s.len() || s[i + 1] != s[i] {
        1
    } else {
        1 + run_len_at(s, i + 1)
    }
}

/// Packets for a run of `r` copies of `b`: chunks of up to 128 copies with
/// header `count - 1`; a trailing single copy never uses a repeat header but
/// becomes a literal of one byte (header `0xFF`).
pub open spec fn rep_packets(b: u8, r: int) -> Seq<u8>
    decreases r,
{
    if r <= 0 {
        Seq::empty()
    } else if r == 1 {
        seq![255u8, b]
    } else if r > 128 {
        seq![127u8, b] + rep_packets(b, r - 128)
    } else {
        seq![(r - 1) as u8, b]
    }
}

/// Packets for a literal run: chunks of up to 128 bytes, each prefixed by
/// header `257 - len` (a single literal byte has header `0xFF`), followed by
/// the bytes verbatim.
pub open spec fn lit_packets(s: Seq<u8>) -> Seq<u8>
    decreases s.len(),
{
    if s.len() == 0 {
        Seq::empty()
    } else if s.len() > 128 {
        seq![129u8] + s.take(128) + lit_packets(s.skip(128))
    } else if s.len() == 1 {
        seq![255u8] + s
    } else {
        seq![(257 - s.len()) as u8] + s
    }
}

/// Intra-line encoding from position `i`, with the bytes of `line[p..i]`
/// pending as accumulated literal singletons: a maximal run of length two or
/// more first flushes the pending literal and then its repeat packets; a
/// singleton joins the pending literal; the end of the line flushes the rest.
pub open spec fn encode_from(line: Seq<u8>, p: int, i: int) -> Seq<u8>
    decreases line.len() - i,
{
    if i >= line.len() {
        lit_packets(line.subrange(p, line.len() as int))
    } else {
        let r = run_len_at(line, i);
        let step = if i + r <= line.len() {
            r
        } else {
            line.len() - i
        };
        if r >= 2 {
            lit_packets(line.subrange(p, i)) + rep_packets(line[i], r) + encode_from(
                line,
                i + step,
                i + step,
            )
        } else {
            encode_from(line, p, i + 1)
        }
    }
}

/// The complete intra-line encoding of one scanline.
pub open spec fn encode_line(line: Seq<u8>) -> Seq<u8> {
    encode_from(line, 0, 0)
}

/// Scanline `r` of a bitmap with `bpl` bytes per line.
pub open spec fn line_at(bitmap: Seq<u8>, bpl: int, r: int) -> Seq<u8> {
    bitmap.subrange(r * bpl, (r + 1) * bpl)
}

/// Length of the maximal group of byte-identical scanlines starting at `r`.
pub open spec fn lines_run_at(bitmap: Seq<u8>, bpl: int, r: int, height: int) -> int
    decreases height - r,
{
    if r < 0 || r + 1 >= height || line_at(bitmap, bpl, r + 1) != line_at(bitmap, bpl, r) {
        1
    } else {
        1 + lines_run_at(bitmap, bpl, r + 1, height)
    }
}

/// Chunks for a group of `n` identical scanlines: up to 256 repeats per
/// chunk, each written as one byte `count - 1` followed by the encoded line.
pub open spec fn line_rep_chunks(n: int, enc: Seq<u8>) -> Seq<u8>
    decreases n,
{
    if n <= 0 {
        Seq::empty()
    } else if n > 256 {
        seq![255u8] + enc + line_rep_chunks(n - 256, enc)
    } else {
        seq![(n - 1) as u8] + enc
    }
}

/// Outer encoding from scanline `r` on: each maximal group of identical
/// scanlines becomes its repeat chunks around the encoded line.
pub open spec fn encode_lines_from(bitmap: Seq<u8>, bpl: int, r: int, height: int) -> Seq<u8>
    decreases height - r,
{
    if r >= height {
        Seq::empty()
    } else {
        let n = lines_run_at(bitmap, bpl, r, height);
        let step = if n < 1 {
            1
        } else if r + n <= height {
            n
        } else {
            height - r
        };
        line_rep_chunks(n, encode_line(line_at(bitmap, bpl, r))) + encode_lines_from(
            bitmap,
            bpl,
            r + step,
            height,
        )
    }
}

/// The complete two-level encoding of a bitmap of `len / bpl` scanlines.
pub open spec fn encode_bitmap(bitmap: Seq<u8>, bpl: int) -> Seq<u8> {
    if bpl <= 0 {
        Seq::empty()
    } else {
        encode_lines_from(bitmap, bpl, 0, bitmap.len() as int / bpl)
    }
}

proof fn lemma_run_len_at_props(s: Seq<u8>, i: int)
    requires
        0 <= i < s.len(),
    ensures
        1 <= run_len_at(s, i) <= s.len() - i,
        forall|k: int| i <= k < i + run_len_at(s, i) ==> s[k] == s[i],
        i + run_len_at(s, i) == s.len() || s[i + run_len_at(s, i)] != s[i],
    decreases s.len() - i,
{
    if i + 1 >= s.len() || s[i + 1] != s[i] {
    } else {
        lemma_run_len_at_props(s, i + 1);
        assert(forall|k: int|
            i + 1 <= k < i + 1 + run_len_at(s, i + 1) ==> #[trigger] s[k] == s[i + 1]);
    }
}

proof fn lemma_run_len_at_eq(s: Seq<u8>, i: int, j: int)
    requires
        0 <= i < j <= s.len(),
        forall|k: int| i <= k < j ==> s[k] == s[i],
        j == s.len() || s[j] != s[i],
    ensures
        run_len_at(s, i) == j - i,
{
    lemma_run_len_at_props(s, i);
    let r = run_len_at(s, i);
    if r < j - i {
        assert(s[i + r] == s[i]);
    } else if r > j - i {
        assert(s[j] == s[i]);
    }
}

proof fn lemma_lines_run_at_props(bitmap: Seq<u8>, bpl: int, r: int, height: int)
    requires
        0 <= r < height,
    ensures
        1 <= lines_run_at(bitmap, bpl, r, height) <= height - r,
        forall|k: int|
            r <= k < r + lines_run_at(bitmap, bpl, r, height) ==> line_at(bitmap, bpl, k)
                == line_at(bitmap, bpl, r),
        r + lines_run_at(bitmap, bpl, r, height) == height || line_at(
            bitmap,
            bpl,
            r + lines_run_at(bitmap, bpl, r, height),
        ) != line_at(bitmap, bpl, r),
    decreases height - r,
{
    if r + 1 >= height || line_at(bitmap, bpl, r + 1) != line_at(bitmap, bpl, r) {
    } else {
        lemma_lines_run_at_props(bitmap, bpl, r + 1, height);
        assert(forall|k: int|
            r + 1 <= k < r + 1 + lines_run_at(bitmap, bpl, r + 1, height) ==> #[trigger] line_at(
                bitmap,
                bpl,
                k,
            ) == line_at(bitmap, bpl, r + 1));
    }
}

proof fn lemma_lines_run_at_eq(bitmap: Seq<u8>, bpl: int, r: int, j: int, height: int)
    requires
        0 <= r < j <= height,
        forall|k: int| r <= k < j ==> line_at(bitmap, bpl, k) == line_at(bitmap, bpl, r),
        j == height || line_at(bitmap, bpl, j) != line_at(bitmap, bpl, r),
    ensures
        lines_run_at(bitmap, bpl, r, height) == j - r,
{
    lemma_lines_run_at_props(bitmap, bpl, r, height);
    let n = lines_run_at(bitmap, bpl, r, height);
    if n < j - r {
        assert(line_at(bitmap, bpl, r + n) == line_at(bitmap, bpl, r));
    } else if n > j - r {
        assert(line_at(bitmap, bpl, j) == line_at(bitmap, bpl, r));
    }
}

/// Reference decoder for one scanline: reads packets from the front of `bs`
/// until `need` bytes are produced and returns the line together with the
/// unread remainder. A header below 128 repeats the next byte `header + 1`
/// times; any other header is followed by `257 - header` verbatim bytes.
pub open spec fn line_split(bs: Seq<u8>, need: int) -> (Seq<u8>, Seq<u8>)
    decreases bs.len(),
{
    if need <= 0 || bs.len() < 2 {
        (Seq::empty(), bs)
    } else {
        let h = bs[0];
        if h < 128 {
            let cnt = h + 1;
            let piece = Seq::new(cnt as nat, |t: int| bs[1]);
            let tail = line_split(bs.skip(2), need - cnt);
            (piece + tail.0, tail.1)
        } else {
            let l = 257 - h;
            if bs.len() >= 1 + l {
                let piece = bs.subrange(1, 1 + l);
                let tail = line_split(bs.skip(1 + l), need - l);
                (piece + tail.0, tail.1)
            } else {
                (bs.subrange(1, bs.len() as int), Seq::empty())
            }
        }
    }
}

/// `n` copies of one scanline.
pub open spec fn repeat_line(line: Seq<u8>, n: int) -> Seq<u8>
    decreases n,
{
    if n <= 0 {
        Seq::empty()
    } else {
        line + repeat_line(line, n - 1)
    }
}

/// Reference decoder for a whole stream: each group is one repeat byte
/// (`count - 1`) followed by the packets of one scanline of `bpl` bytes.
pub open spec fn decode_stream(bs: Seq<u8>, bpl: int) -> Seq<u8>
    decreases bs.len(),
{
    if bs.len() < 1 {
        Seq::empty()
    } else {
        let reps = bs[0] + 1;
        let split = line_split(bs.skip(1), bpl);
        if split.1.len() < bs.len() {
            repeat_line(split.0, reps as int) + decode_stream(split.1, bpl)
        } else {
            repeat_line(split.0, reps as int)
        }
    }
}

/// The intra-line encoding from `p`, `i` never emits a one-byte literal
/// packet: every flushed pending literal and every repeated run leaves no
/// single-byte tail. A one-byte literal shares its header `0xFF` with a
/// two-byte literal, so only such encodings decode unambiguously.
pub open spec fn line_decodable_from(line: Seq<u8>, p: int, i: int) -> bool
    decreases line.len() - i,
{
    if i >= line.len() {
        p == line.len() || (line.len() - p) % 128 != 1
    } else {
        let r = run_len_at(line, i);
        let step = if i + r <= line.len() {
            r
        } else {
            line.len() - i
        };
        if r >= 2 {
            (p == i || (i - p) % 128 != 1) && r % 128 != 1 && line_decodable_from(
                line,
                i + step,
                i + step,
            )
        } else {
            line_decodable_from(line, p, i + 1)
        }
    }
}

/// A scanline whose encoding contains no one-byte literal packet.
pub open spec fn line_decodable(line: Seq<u8>) -> bool {
    line_decodable_from(line, 0, 0)
}

/// A bitmap all of whose scanlines encode without one-byte literal packets.
pub open spec fn bitmap_decodable(bitmap: Seq<u8>, bpl: int) -> bool {
    forall|r: int|
        0 <= r < bitmap.len() as int / bpl ==> line_decodable(#[trigger] line_at(bitmap, bpl, r))
}

proof fn lemma_line_split_rep(b: u8, r: int, rest: Seq<u8>, need: int)
    requires
        2 <= r,
        r % 128 != 1,
        r <= need,
    ensures
        line_split(rep_packets(b, r) + rest, need).0 == Seq::new(r as nat, |t: int| b)
            + line_split(rest, need - r).0,
        line_split(rep_packets(b, r) + rest, need).1 == line_split(rest, need - r).1,
    decreases r,
{
    let bs = rep_packets(b, r) + rest;
    if r <= 128 {
        assert(rep_packets(b, r) == seq![(r - 1) as u8, b]);
        assert(bs[0] == (r - 1) as u8);
        assert(bs[1] == b);
        assert(bs[0] < 128);
        assert(bs.skip(2) =~= rest);
        assert(Seq::new(r as nat, |t: int| bs[1]) =~= Seq::new(r as nat, |t: int| b));
    } else {
        assert(rep_packets(b, r) == seq![127u8, b] + rep_packets(b, r - 128));
        assert(bs[0] == 127u8);
        assert(bs[1] == b);
        assert(bs.skip(2) =~= rep_packets(b, r - 128) + rest);
        assert(r - 128 >= 2);
        assert((r - 128) % 128 != 1);
        lemma_line_split_rep(b, r - 128, rest, need - 128);
        assert(Seq::new(128nat, |t: int| bs[1]) + (Seq::new((r - 128) as nat, |t: int| b)
            + line_split(rest, need - r).0) =~= Seq::new(r as nat, |t: int| b) + line_split(
            rest,
            need - r,
        ).0);
    }
}

proof fn lemma_line_split_lit(s: Seq<u8>, rest: Seq<u8>, need: int)
    requires
        1 <= s.len(),
        s.len() % 128 != 1,
        s.len() <= need,
    ensures
        line_split(lit_packets(s) + rest, need).0 == s + line_split(rest, need - s.len()).0,
        line_split(lit_packets(s) + rest, need).1 == line_split(rest, need - s.len()).1,
    decreases s.len(),
{
    let bs = lit_packets(s) + rest;
    if s.len() > 128 {
        assert(lit_packets(s) == seq![129u8] + s.take(128) + lit_packets(s.skip(128)));
        assert(bs[0] == 129u8);
        assert(!(bs[0] < 128));
        assert(257 - bs[0] == 128);
        assert(bs.len() >= 129);
        assert(bs.subrange(1, 129) =~= s.take(128));
        assert(bs.skip(129) =~= lit_packets(s.skip(128)) + rest);
        assert(s.len() - 128 >= 2);
        assert((s.len() - 128) % 128 != 1);
        lemma_line_split_lit(s.skip(128), rest, need - 128);
        assert(s.take(128) + (s.skip(128) + line_split(rest, need - s.len()).0) =~= s + line_split(
            rest,
            need - s.len(),
        ).0);
    } else {
        assert(s.len() >= 2);
        assert(lit_packets(s) == seq![(257 - s.len()) as u8] + s);
        assert(bs[0] == (257 - s.len()) as u8);
        assert(!(bs[0] < 128));
        assert(257 - bs[0] == s.len());
        assert(bs.len() >= 1 + s.len());
        assert(bs.subrange(1, 1 + s.len() as int) =~= s);
        assert(bs.skip(1 + s.len() as int) =~= rest);
    }
}

proof fn lemma_line_split_encode(line: Seq<u8>, p: int, i: int, rest: Seq<u8>)
    requires
        0 <= p <= i <= line.len(),
        line_decodable_from(line, p, i),
    ensures
        line_split(encode_from(line, p, i) + rest, line.len() - p).0 == line.subrange(
            p,
            line.len() as int,
        ),
        line_split(encode_from(line, p, i) + rest, line.len() - p).1 == rest,
    decreases line.len() - i,
{
    let len = line.len() as int;
    if i >= len {
        let s = line.subrange(p, len);
        assert(encode_from(line, p, i) == lit_packets(s));
        if p == len {
            assert(s =~= Seq::<u8>::empty());
            assert(lit_packets(s) == Seq::<u8>::empty());
            assert(lit_packets(s) + rest =~= rest);
        } else {
            lemma_line_split_lit(s, rest, len - p);
            assert(s + line_split(rest, 0).0 =~= s);
        }
    } else {
        let r = run_len_at(line, i);
        lemma_run_len_at_props(line, i);
        let j = i + r;
        if r >= 2 {
            let b = line[i];
            let pend = line.subrange(p, i);
            let reps = Seq::new(r as nat, |t: int| b);
            assert(encode_from(line, p, i) == lit_packets(pend) + rep_packets(b, r) + encode_from(
                line,
                j,
                j,
            ));
            lemma_line_split_encode(line, j, j, rest);
            assert(reps =~= line.subrange(i, j));
            if p == i {
                assert(pend =~= Seq::<u8>::empty());
                assert(lit_packets(pend) == Seq::<u8>::empty());
                assert(lit_packets(pend) + rep_packets(b, r) + encode_from(line, j, j) + rest
                    =~= rep_packets(b, r) + (encode_from(line, j, j) + rest));
                lemma_line_split_rep(b, r, encode_from(line, j, j) + rest, len - i);
                assert(reps + line.subrange(j, len) =~= line.subrange(p, len));
            } else {
                assert(lit_packets(pend) + rep_packets(b, r) + encode_from(line, j, j) + rest
                    =~= lit_packets(pend) + (rep_packets(b, r) + (encode_from(line, j, j)
                    + rest)));
                lemma_line_split_lit(
                    pend,
                    rep_packets(b, r) + (encode_from(line, j, j) + rest),
                    len - p,
                );
                lemma_line_split_rep(b, r, encode_from(line, j, j) + rest, len - i);
                assert(pend + (reps + line.subrange(j, len)) =~= line.subrange(p, len));
            }
        } else {
            assert(encode_from(line, p, i) == encode_from(line, p, i + 1));
            lemma_line_split_encode(line, p, i + 1, rest);
        }
    }
}

proof fn lemma_repeat_line_add(line: Seq<u8>, a: int, b: int)
    requires
        0 <= a,
        0 <= b,
    ensures
        repeat_line(line, a + b) == repeat_line(line, a) + repeat_line(line, b),
    decreases a,
{
    if a <= 0 {
        assert(repeat_line(line, 0) == Seq::<u8>::empty());
        assert(Seq::<u8>::empty() + repeat_line(line, b) =~= repeat_line(line, b));
    } else {
        lemma_repeat_line_add(line, a - 1, b);
        assert(repeat_line(line, a + b) == line + repeat_line(line, a + b - 1));
        assert(repeat_line(line, a) == line + repeat_line(line, a - 1));
        assert(line + (repeat_line(line, a - 1) + repeat_line(line, b)) =~= (line + repeat_line(
            line,
            a - 1,
        )) + repeat_line(line, b));
    }
}

proof fn lemma_decode_line_rep_chunks(line: Seq<u8>, n: int, rest: Seq<u8>, bpl: int)
    requires
        1 <= n,
        1 <= bpl == line.len(),
        line_decodable(line),
    ensures
        decode_stream(line_rep_chunks(n, encode_line(line)) + rest, bpl) == repeat_line(line, n)
            + decode_stream(rest, bpl),
    decreases n,
{
    let enc = encode_line(line);
    let bs = line_rep_chunks(n, enc) + rest;
    if n <= 256 {
        assert(line_rep_chunks(n, enc) == seq![(n - 1) as u8] + enc);
        assert(bs[0] == (n - 1) as u8);
        assert(bs.skip(1) =~= enc + rest);
        lemma_line_split_encode(line, 0, 0, rest);
        assert(line.subrange(0, line.len() as int) =~= line);
        assert(line_split(bs.skip(1), bpl).0 == line);
        assert(line_split(bs.skip(1), bpl).1 == rest);
        assert(rest.len() < bs.len());
        assert(bs[0] + 1 == n);
    } else {
        assert(line_rep_chunks(n, enc) == seq![255u8] + enc + line_rep_chunks(n - 256, enc));
        assert(bs[0] == 255u8);
        assert(bs.skip(1) =~= enc + (line_rep_chunks(n - 256, enc) + rest));
        lemma_line_split_encode(line, 0, 0, line_rep_chunks(n - 256, enc) + rest);
        assert(line.subrange(0, line.len() as int) =~= line);
        assert(line_split(bs.skip(1), bpl).0 == line);
        assert(line_split(bs.skip(1), bpl).1 == line_rep_chunks(n - 256, enc) + rest);
        assert((line_rep_chunks(n - 256, enc) + rest).len() < bs.len());
        lemma_decode_line_rep_chunks(line, n - 256, rest, bpl);
        lemma_repeat_line_add(line, 256, n - 256);
        assert(repeat_line(line, 256) + (repeat_line(line, n - 256) + decode_stream(rest, bpl))
            =~= repeat_line(line, n) + decode_stream(rest, bpl));
    }
}

proof fn lemma_repeat_identical_lines(bitmap: Seq<u8>, bpl: int, r: int, j: int, height: int)
    requires
        1 <= bpl,
        0 <= r <= j <= height,
        height * bpl <= bitmap.len(),
        forall|k: int| r <= k < j ==> line_at(bitmap, bpl, k) == line_at(bitmap, bpl, r),
    ensures
        repeat_line(line_at(bitmap, bpl, r), j - r) == bitmap.subrange(r * bpl, j * bpl),
    decreases j - r,
{
    if j <= r {
        assert(repeat_line(line_at(bitmap, bpl, r), 0) == Seq::<u8>::empty());
        assert(0 <= r * bpl <= height * bpl) by (nonlinear_arith)
            requires
                1 <= bpl,
                0 <= r <= height,
        ;
        assert(bitmap.subrange(r * bpl, j * bpl) =~= Seq::<u8>::empty());
    } else {
        assert((r + 1) * bpl == r * bpl + bpl) by (nonlinear_arith);
        assert(0 <= r * bpl && r * bpl <= (r + 1) * bpl <= j * bpl <= height * bpl)
            by (nonlinear_arith)
            requires
                1 <= bpl,
                0 <= r,
                r + 1 <= j <= height,
        ;
        assert(forall|k: int|
            r + 1 <= k < j ==> #[trigger] line_at(bitmap, bpl, k) == line_at(bitmap, bpl, r + 1));
        lemma_repeat_identical_lines(bitmap, bpl, r + 1, j, height);
        if r + 1 < j {
            assert(line_at(bitmap, bpl, r + 1) == line_at(bitmap, bpl, r));
            assert(repeat_line(line_at(bitmap, bpl, r), j - r - 1) == bitmap.subrange(
                (r + 1) * bpl,
                j * bpl,
            ));
        } else {
            assert(repeat_line(line_at(bitmap, bpl, r), 0) == Seq::<u8>::empty());
            assert(repeat_line(line_at(bitmap, bpl, r + 1), 0) == Seq::<u8>::empty());
        }
        assert(repeat_line(line_at(bitmap, bpl, r), j - r) == line_at(bitmap, bpl, r)
            + repeat_line(line_at(bitmap, bpl, r), j - r - 1));
        assert(line_at(bitmap, bpl, r) + bitmap.subrange((r + 1) * bpl, j * bpl) =~= bitmap.subrange(
            r * bpl,
            j * bpl,
        ));
    }
}

proof fn lemma_decode_lines(bitmap: Seq<u8>, bpl: int, r: int, height: int)
    requires
        1 <= bpl,
        height == bitmap.len() as int / bpl,
        bitmap.len() == height * bpl,
        0 <= r <= height,
        bitmap_decodable(bitmap, bpl),
    ensures
        decode_stream(encode_lines_from(bitmap, bpl, r, height), bpl) == bitmap.subrange(
            r * bpl,
            height * bpl,
        ),
    decreases height - r,
{
    if r >= height {
        assert(encode_lines_from(bitmap, bpl, r, height) == Seq::<u8>::empty());
        assert(0 <= r * bpl <= height * bpl) by (nonlinear_arith)
            requires
                1 <= bpl,
                0 <= r <= height,
        ;
        assert(bitmap.subrange(r * bpl, height * bpl) =~= Seq::<u8>::empty());
    } else {
        let n = lines_run_at(bitmap, bpl, r, height);
        lemma_lines_run_at_props(bitmap, bpl, r, height);
        let j = r + n;
        let line = line_at(bitmap, bpl, r);
        assert(encode_lines_from(bitmap, bpl, r, height) == line_rep_chunks(n, encode_line(line))
            + encode_lines_from(bitmap, bpl, j, height));
        assert((r + 1) * bpl == r * bpl + bpl) by (nonlinear_arith);
        assert((r + 1) * bpl <= height * bpl) by (nonlinear_arith)
            requires
                1 <= bpl,
                0 <= r < height,
        ;
        assert(line.len() == bpl);
        assert(line_decodable(line));
        lemma_decode_lines(bitmap, bpl, j, height);
        lemma_decode_line_rep_chunks(line, n, encode_lines_from(bitmap, bpl, j, height), bpl);
        lemma_repeat_identical_lines(bitmap, bpl, r, j, height);
        assert(0 <= r * bpl && r * bpl <= j * bpl <= height * bpl) by (nonlinear_arith)
            requires
                1 <= bpl,
                0 <= r <= j <= height,
        ;
        assert(bitmap.subrange(r * bpl, j * bpl) + bitmap.subrange(j * bpl, height * bpl)
            =~= bitmap.subrange(r * bpl, height * bpl));
    }
}

/// Round trip of the encoder through the reference decoder: a bitmap of
/// whole scanlines whose encoding never needs a one-byte literal packet is
/// recovered exactly. The restriction is forced by the wire format itself: a
/// one-byte literal and a two-byte literal share the header `0xFF`, so a
/// stream containing one cannot be decoded by counts alone.
pub proof fn lemma_encode_bitmap_round_trip(bitmap: Seq<u8>, bpl: int)
    requires
        1 <= bpl,
        bitmap.len() as int % bpl == 0,
        bitmap_decodable(bitmap, bpl),
    ensures
        decode_stream(encode_bitmap(bitmap, bpl), bpl) == bitmap,
{
    let height = bitmap.len() as int / bpl;
    vstd::arithmetic::div_mod::lemma_fundamental_div_mod(bitmap.len() as int, bpl);
    assert(bitmap.len() == height * bpl);
    lemma_decode_lines(bitmap, bpl, 0, height);
    assert(bitmap.subrange(0, height * bpl) =~= bitmap);
}

/// Appends the repeat packets for `count` copies of `byte`.
pub fn flush_rle(byte: u8, count: usize, compressed: &mut Vec<u8>)
    ensures
        final(compressed)@ == old(compressed)@ + rep_packets(byte, count as int),
{
    let ghost orig = compressed@;
    let ghost mut done: Seq<u8> = Seq::empty();
    let mut rem: usize = count;
    proof {
        assert(orig + done =~= orig);
        assert(Seq::<u8>::empty() + rep_packets(byte, count as int) =~= rep_packets(
            byte,
            count as int,
        ));
    }
    while rem > 0
        invariant
            compressed@ == orig + done,
            rep_packets(byte, count as int) == done + rep_packets(byte, rem as int),
        decreases rem,
    {
        if rem == 1 {
            compressed.push(255u8);
            compressed.push(byte);
            proof {
                assert(rep_packets(byte, 1) == seq![255u8, byte]);
                assert(compressed@ =~= orig + (done + seq![255u8, byte]));
                assert(done + rep_packets(byte, 1) =~= (done + seq![255u8, byte]) + rep_packets(
                    byte,
                    0,
                ));
                done = done + seq![255u8, byte];
            }
            rem = 0;
        } else if rem > 128 {
            compressed.push(127u8);
            compressed.push(byte);
            proof {
                assert(rep_packets(byte, rem as int) == seq![127u8, byte] + rep_packets(
                    byte,
                    rem - 128,
                ));
                assert(compressed@ =~= orig + (done + seq![127u8, byte]));
                assert(done + rep_packets(byte, rem as int) =~= (done + seq![127u8, byte])
                    + rep_packets(byte, rem - 128));
                done = done + seq![127u8, byte];
            }
            rem = rem - 128;
        } else {
            let hdr: u8 = (rem - 1) as u8;
            compressed.push(hdr);
            compressed.push(byte);
            proof {
                assert(rep_packets(byte, rem as int) == seq![(rem - 1) as u8, byte]);
                assert(compressed@ =~= orig + (done + seq![hdr, byte]));
                assert(done + rep_packets(byte, rem as int) =~= (done + seq![hdr, byte])
                    + rep_packets(byte, 0));
                done = done + seq![hdr, byte];
            }
            rem = 0;
        }
    }
    proof {
        assert(rep_packets(byte, 0) == Seq::<u8>::empty());
        assert(done + Seq::<u8>::empty() =~= done);
    }
}

/// Appends the literal packets for the bytes `line[from..to]`.
pub fn flush_different(line: &[u8], from: usize, to: usize, compressed: &mut Vec<u8>)
    requires
        from <= to <= line@.len(),
    ensures
        final(compressed)@ == old(compressed)@ + lit_packets(
            line@.subrange(from as int, to as int),
        ),
{
    let ghost orig = compressed@;
    let ghost mut done: Seq<u8> = Seq::empty();
    let mut p: usize = from;
    proof {
        assert(orig + done =~= orig);
        assert(Seq::<u8>::empty() + lit_packets(line@.subrange(from as int, to as int))
            =~= lit_packets(line@.subrange(from as int, to as int)));
    }
    while p < to
        invariant
            from <= p <= to <= line@.len(),
            compressed@ == orig + done,
            lit_packets(line@.subrange(from as int, to as int)) == done + lit_packets(
                line@.subrange(p as int, to as int),
            ),
        decreases to - p,
    {
        let ghost pend = line@.subrange(p as int, to as int);
        let rem: usize = to - p;
        let k: usize = if rem > 128 {
            128
        } else {
            rem
        };
        let hdr: u8 = if k == 1 {
            255u8
        } else {
            (257 - k) as u8
        };
        compressed.push(hdr);
        let ghost chunk_done = done + seq![hdr];
        proof {
            assert(compressed@ =~= orig + chunk_done);
        }
        let mut t: usize = 0;
        while t < k
            invariant
                t <= k,
                p + k <= to <= line@.len(),
                compressed@ == orig + chunk_done + line@.subrange(p as int, p as int + t as int),
            decreases k - t,
        {
            let b = line[p + t];
            compressed.push(b);
            proof {
                assert(line@.subrange(p as int, p as int + (t + 1) as int) =~= line@.subrange(
                    p as int,
                    p as int + t as int,
                ) + seq![b]);
                assert(compressed@ =~= orig + chunk_done + line@.subrange(
                    p as int,
                    p as int + (t + 1) as int,
                ));
            }
            t = t + 1;
        }
        proof {
            let chunk = line@.subrange(p as int, p as int + k as int);
            if rem > 128 {
                assert(lit_packets(pend) == seq![129u8] + pend.take(128) + lit_packets(
                    pend.skip(128),
                ));
                assert(pend.take(128) =~= chunk);
                assert(pend.skip(128) =~= line@.subrange(p as int + 128, to as int));
                assert(done + lit_packets(pend) =~= (done + seq![hdr] + chunk) + lit_packets(
                    line@.subrange(p as int + k as int, to as int),
                ));
            } else {
                if k == 1 {
                    assert(lit_packets(pend) == seq![255u8] + pend);
                } else {
                    assert(lit_packets(pend) == seq![(257 - pend.len()) as u8] + pend);
                }
                assert(pend =~= chunk);
                assert(line@.subrange(p as int + k as int, to as int) =~= Seq::<u8>::empty());
                assert(lit_packets(Seq::<u8>::empty()) == Seq::<u8>::empty());
                assert(done + lit_packets(pend) =~= (done + seq![hdr] + chunk) + lit_packets(
                    line@.subrange(p as int + k as int, to as int),
                ));
            }
            done = done + seq![hdr] + chunk;
        }
        p = p + k;
    }
    proof {
        assert(line@.subrange(p as int, to as int) =~= Seq::<u8>::empty());
        assert(lit_packets(Seq::<u8>::empty()) == Seq::<u8>::empty());
        assert(done + Seq::<u8>::empty() =~= done);
    }
}

/// Appends the complete intra-line encoding of one scanline.
pub fn compress_line(line: &[u8], compressed: &mut Vec<u8>)
    ensures
        final(compressed)@ == old(compressed)@ + encode_line(line@),
{
    let len = line.len();
    let ghost orig = compressed@;
    let ghost mut done: Seq<u8> = Seq::empty();
    let mut i: usize = 0;
    let mut p: usize = 0;
    proof {
        assert(orig + done =~= orig);
        assert(Seq::<u8>::empty() + encode_from(line@, 0, 0) =~= encode_from(line@, 0, 0));
    }
    while i < len
        invariant
            p <= i <= len == line@.len(),
            compressed@ == orig + done,
            encode_line(line@) == done + encode_from(line@, p as int, i as int),
        decreases len - i,
    {
        let mut j: usize = i + 1;
        while j < len && line[j] == line[i]
            invariant
                i < j <= len == line@.len(),
                forall|k: int| i <= k < j ==> line@[k] == line@[i as int],
            decreases len - j,
        {
            j = j + 1;
        }
        let run = j - i;
        proof {
            lemma_run_len_at_eq(line@, i as int, j as int);
        }
        if run >= 2 {
            proof {
                assert(encode_from(line@, p as int, i as int) == lit_packets(
                    line@.subrange(p as int, i as int),
                ) + rep_packets(line@[i as int], run as int) + encode_from(
                    line@,
                    j as int,
                    j as int,
                ));
            }
            flush_different(line, p, i, compressed);
            flush_rle(line[i], run, compressed);
            proof {
                let lits = lit_packets(line@.subrange(p as int, i as int));
                let reps = rep_packets(line@[i as int], run as int);
                assert(compressed@ =~= orig + (done + lits + reps));
                assert(done + (lits + reps + encode_from(line@, j as int, j as int)) =~= (done
                    + lits + reps) + encode_from(line@, j as int, j as int));
                done = done + lits + reps;
            }
            p = j;
            i = j;
        } else {
            proof {
                assert(encode_from(line@, p as int, i as int) == encode_from(
                    line@,
                    p as int,
                    i as int + 1,
                ));
            }
            i = i + 1;
        }
    }
    proof {
        assert(encode_from(line@, p as int, i as int) == lit_packets(
            line@.subrange(p as int, len as int),
        ));
    }
    flush_different(line, p, len, compressed);
    proof {
        assert(compressed@ =~= orig + (done + lit_packets(line@.subrange(p as int, len as int))));
        assert(compressed@ =~= orig + encode_line(line@));
    }
}

/// Appends `count` scanline-repeat chunks around the encoded `line`.
pub fn flush_lines(count: usize, line: &[u8], compressed: &mut Vec<u8>)
    ensures
        final(compressed)@ == old(compressed)@ + line_rep_chunks(count as int, encode_line(line@)),
{
    let ghost orig = compressed@;
    let ghost mut done: Seq<u8> = Seq::empty();
    let ghost enc = encode_line(line@);
    let mut rem: usize = count;
    proof {
        assert(orig + done =~= orig);
        assert(Seq::<u8>::empty() + line_rep_chunks(count as int, enc) =~= line_rep_chunks(
            count as int,
            enc,
        ));
    }
    while rem > 0
        invariant
            compressed@ == orig + done,
            enc == encode_line(line@),
            line_rep_chunks(count as int, enc) == done + line_rep_chunks(rem as int, enc),
        decreases rem,
    {
        if rem > 256 {
            compressed.push(255u8);
            compress_line(line, compressed);
            proof {
                assert(line_rep_chunks(rem as int, enc) == seq![255u8] + enc + line_rep_chunks(
                    rem - 256,
                    enc,
                ));
                assert(compressed@ =~= orig + (done + seq![255u8] + enc));
                assert(done + line_rep_chunks(rem as int, enc) =~= (done + seq![255u8] + enc)
                    + line_rep_chunks(rem - 256, enc));
                done = done + seq![255u8] + enc;
            }
            rem = rem - 256;
        } else {
            let hdr: u8 = (rem - 1) as u8;
            compressed.push(hdr);
            compress_line(line, compressed);
            proof {
                assert(line_rep_chunks(rem as int, enc) == seq![hdr] + enc);
                assert(compressed@ =~= orig + (done + seq![hdr] + enc));
                assert(done + line_rep_chunks(rem as int, enc) =~= (done + seq![hdr] + enc)
                    + line_rep_chunks(0, enc));
                done = done + seq![hdr] + enc;
            }
            rem = 0;
        }
    }
    proof {
        assert(line_rep_chunks(0, enc) == Seq::<u8>::empty());
        assert(done + Seq::<u8>::empty() =~= done);
    }
}

/// Compares scanlines `a` and `b` of the bitmap byte for byte.
fn rows_equal(bitmap: &[u8], bytes_per_line: usize, a: usize, b: usize) -> (r: bool)
    requires
        bytes_per_line >= 1,
        (a + 1) * bytes_per_line <= bitmap@.len(),
        (b + 1) * bytes_per_line <= bitmap@.len(),
    ensures
        r == (line_at(bitmap@, bytes_per_line as int, a as int) == line_at(
            bitmap@,
            bytes_per_line as int,
            b as int,
        )),
{
    let ghost la = line_at(bitmap@, bytes_per_line as int, a as int);
    let ghost lb = line_at(bitmap@, bytes_per_line as int, b as int);
    let total = bitmap.len();
    proof {
        assert(total == bitmap@.len());
        assert((a + 1) * bytes_per_line == a * bytes_per_line + bytes_per_line) by (nonlinear_arith);
        assert((b + 1) * bytes_per_line == b * bytes_per_line + bytes_per_line) by (nonlinear_arith);
    }
    let base_a: usize = a * bytes_per_line;
    let base_b: usize = b * bytes_per_line;
    proof {
        assert(la =~= bitmap@.subrange(base_a as int, base_a as int + bytes_per_line as int));
        assert(lb =~= bitmap@.subrange(base_b as int, base_b as int + bytes_per_line as int));
    }
    let mut t: usize = 0;
    while t < bytes_per_line
        invariant
            t <= bytes_per_line,
            total == bitmap@.len(),
            base_a + bytes_per_line <= bitmap@.len(),
            base_b + bytes_per_line <= bitmap@.len(),
            la == bitmap@.subrange(base_a as int, base_a as int + bytes_per_line as int),
            lb == bitmap@.subrange(base_b as int, base_b as int + bytes_per_line as int),
            la == line_at(bitmap@, bytes_per_line as int, a as int),
            lb == line_at(bitmap@, bytes_per_line as int, b as int),
            forall|k: int| 0 <= k < t ==> la[k] == lb[k],
        decreases bytes_per_line - t,
    {
        if line_byte(bitmap, base_a + t) != line_byte(bitmap, base_b + t) {
            proof {
                assert(la[t as int] == bitmap@[base_a + t]);
                assert(lb[t as int] == bitmap@[base_b + t]);
            }
            return false;
        }
        proof {
            assert(la[t as int] == bitmap@[base_a + t]);
            assert(lb[t as int] == bitmap@[base_b + t]);
        }
        t = t + 1;
    }
    proof {
        assert(la =~= lb);
    }
    true
}

/// Reads one byte of the bitmap.
fn line_byte(bitmap: &[u8], i: usize) -> (r: u8)
    requires
        i < bitmap@.len(),
    ensures
        r == bitmap@[i as int],
{
    bitmap[i]
}

/// Compresses a row-major bitmap with the PWG two-level run-length encoding.
///
/// The bitmap holds whole scanlines of `ceil(pixel_width × bits_per_pixel / 8)`
/// bytes each; the height is inferred from the bitmap length. The encoding is
/// appended to `compressed` in one forward pass; an empty bitmap appends
/// nothing.
pub fn compress(bitmap: &[u8], pixel_width: usize, bits_per_pixel: usize, compressed: &mut Vec<u8>)
    requires
        pixel_width * bits_per_pixel + 7 <= usize::MAX,
        pixel_width * bits_per_pixel >= 1,
        bitmap@.len() as int % ((pixel_width * bits_per_pixel + 7) as int / 8) == 0,
    ensures
        final(compressed)@ == old(compressed)@ + encode_bitmap(
            bitmap@,
            (pixel_width * bits_per_pixel + 7) as int / 8,
        ),
{
    let bpl: usize = (pixel_width * bits_per_pixel + 7) / 8;
    let height: usize = bitmap.len() / bpl;
    proof {
        vstd::arithmetic::div_mod::lemma_fundamental_div_mod(bitmap@.len() as int, bpl as int);
        assert(bpl as int == (pixel_width * bits_per_pixel + 7) as int / 8);
        assert(bitmap@.len() as int % (bpl as int) == 0);
        assert(height as int == bitmap@.len() as int / bpl as int);
        assert(bitmap@.len() == bpl * height);
        assert(height * bpl == bpl * height) by (nonlinear_arith);
    }
    let ghost orig = compressed@;
    let ghost mut done: Seq<u8> = Seq::empty();
    let mut r: usize = 0;
    proof {
        assert(orig + done =~= orig);
    }
    proof {
        assert(Seq::<u8>::empty() + encode_lines_from(bitmap@, bpl as int, 0, height as int)
            =~= encode_lines_from(bitmap@, bpl as int, 0, height as int));
    }
    while r < height
        invariant
            r <= height,
            bpl >= 1,
            height == bitmap@.len() as int / bpl as int,
            bitmap@.len() == height * bpl,
            bitmap@.len() <= usize::MAX,
            compressed@ == orig + done,
            encode_lines_from(bitmap@, bpl as int, 0, height as int) == done + encode_lines_from(
                bitmap@,
                bpl as int,
                r as int,
                height as int,
            ),
        decreases height - r,
    {
        proof {
            assert((r + 1) * bpl <= height * bpl) by (nonlinear_arith)
                requires
                    r < height,
                    bpl >= 1,
            ;
        }
        let mut j: usize = r + 1;
        let mut same = true;
        while same && j < height
            invariant
                r < j <= height,
                bpl >= 1,
                bitmap@.len() == height * bpl,
                (r + 1) * bpl <= bitmap@.len(),
                forall|k: int|
                    r <= k < j ==> line_at(bitmap@, bpl as int, k) == line_at(
                        bitmap@,
                        bpl as int,
                        r as int,
                    ),
                !same ==> j < height && line_at(bitmap@, bpl as int, j as int) != line_at(
                    bitmap@,
                    bpl as int,
                    r as int,
                ),
            decreases height - j + (if same { 1int } else { 0int }),
        {
            proof {
                assert((j + 1) * bpl <= height * bpl) by (nonlinear_arith)
                    requires
                        j < height,
                        bpl >= 1,
                ;
            }
            if rows_equal(bitmap, bpl, r, j) {
                j = j + 1;
            } else {
                same = false;
            }
        }
        proof {
            lemma_lines_run_at_eq(bitmap@, bpl as int, r as int, j as int, height as int);
            assert(r * bpl + bpl == (r + 1) * bpl) by (nonlinear_arith);
        }
        let row = vstd::slice::slice_subrange(bitmap, r * bpl, r * bpl + bpl);
        proof {
            assert(row@ =~= line_at(bitmap@, bpl as int, r as int));
        }
        let n = j - r;
        let ghost enc = line_rep_chunks(n as int, encode_line(row@));
        proof {
            assert(encode_lines_from(bitmap@, bpl as int, r as int, height as int) == enc
                + encode_lines_from(bitmap@, bpl as int, j as int, height as int));
        }
        flush_lines(n, row, compressed);
        proof {
            assert(compressed@ =~= orig + (done + enc));
            assert(done + (enc + encode_lines_from(bitmap@, bpl as int, j as int, height as int))
                =~= (done + enc) + encode_lines_from(bitmap@, bpl as int, j as int, height as int));
            done = done + enc;
        }
        r = j;
    }
    proof {
        assert(encode_lines_from(bitmap@, bpl as int, height as int, height as int)
            == Seq::<u8>::empty());
        assert(done + Seq::<u8>::empty() =~= done);
        assert(encode_bitmap(bitmap@, bpl as int) == encode_lines_from(
            bitmap@,
            bpl as int,
            0,
            height as int,
        ));
    }
}

} // verus!
