//! How a prelude is set off from the payload of a streamed reply: it begins
//! with `{` and ends with eight NUL bytes.

use vstd::prelude::*;

verus! {

/// The number of NUL bytes that end a prelude.
pub const DELIMITER_LEN: usize = 8;

/// The byte with which a prelude begins, `{`.
pub const PRELUDE_START: u8 = 0x7b;

/// Whether the bytes begin as a prelude does, with `{`.
pub fn detect_metadata(bytes: &[u8]) -> (r: bool)
    ensures
        r == (bytes@.len() > 0 && bytes@[0] == PRELUDE_START),
{
    bytes.len() > 0 && bytes[0] == PRELUDE_START
}

/// Whether eight NUL bytes in a row end at index `i` of `buf`.
pub open spec fn is_delimiter_end(buf: Seq<u8>, i: int) -> bool {
    &&& DELIMITER_LEN - 1 <= i < buf.len()
    &&& forall|k: int| i - DELIMITER_LEN < k <= i ==> #[trigger] buf[k] == 0
}

/// Whether `i` is the first index of `buf` at which eight NUL bytes in a row
/// end.
pub open spec fn is_first_delimiter_end(buf: Seq<u8>, i: int) -> bool {
    &&& is_delimiter_end(buf, i)
    &&& forall|j: int| 0 <= j < i ==> !#[trigger] is_delimiter_end(buf, j)
}

/// Whether `buf` holds eight NUL bytes in a row.
pub open spec fn has_delimiter(buf: Seq<u8>) -> bool {
    exists|i: int| is_delimiter_end(buf, i)
}

/// The index of the last byte of the first delimiter in `buf`.
pub open spec fn delimiter_end(buf: Seq<u8>) -> int
    recommends
        has_delimiter(buf),
{
    choose|i: int| is_first_delimiter_end(buf, i)
}

/// The bytes of `buf` before its first delimiter.
pub open spec fn before_delimiter(buf: Seq<u8>) -> Seq<u8>
    recommends
        has_delimiter(buf),
{
    buf.subrange(0, delimiter_end(buf) + 1 - DELIMITER_LEN)
}

/// The bytes of `buf` after its first delimiter.
pub open spec fn after_delimiter(buf: Seq<u8>) -> Seq<u8>
    recommends
        has_delimiter(buf),
{
    buf.subrange(delimiter_end(buf) + 1, buf.len() as int)
}

/// Whether `buf` ends in exactly `run` NUL bytes.
pub open spec fn ends_in_nuls(buf: Seq<u8>, run: int) -> bool {
    &&& 0 <= run <= buf.len()
    &&& forall|k: int| buf.len() - run <= k < buf.len() ==> #[trigger] buf[k] == 0
    &&& run < buf.len() ==> buf[buf.len() - run - 1] != 0
}

/// The first delimiter of a buffer is where it is found.
pub proof fn lemma_first_delimiter_end(buf: Seq<u8>, i: int)
    requires
        is_first_delimiter_end(buf, i),
    ensures
        has_delimiter(buf),
        delimiter_end(buf) == i,
{
    assert(is_first_delimiter_end(buf, delimiter_end(buf)));
}

/// A delimiter that ends before `n` is a delimiter of the first `n` bytes.
pub proof fn lemma_delimiter_in_prefix(buf: Seq<u8>, n: int, i: int)
    requires
        0 <= i < n <= buf.len(),
    ensures
        is_delimiter_end(buf.take(n), i) == is_delimiter_end(buf, i),
{
    let p = buf.take(n);
    if is_delimiter_end(buf, i) {
        assert forall|k: int| i - DELIMITER_LEN < k <= i implies #[trigger] p[k] == 0 by {
            assert(buf[k] == 0);
        }
    }
    if is_delimiter_end(p, i) {
        assert forall|k: int| i - DELIMITER_LEN < k <= i implies #[trigger] buf[k] == 0 by {
            assert(p[k] == 0);
        }
    }
}

/// A buffer that holds a delimiter has a first one.
pub proof fn lemma_delimiter_has_first(buf: Seq<u8>, i: int)
    requires
        is_delimiter_end(buf, i),
    ensures
        is_first_delimiter_end(buf, delimiter_end(buf)),
        delimiter_end(buf) <= i,
    decreases i,
{
    if exists|j: int| 0 <= j < i && is_delimiter_end(buf, j) {
        let j = choose|j: int| 0 <= j < i && is_delimiter_end(buf, j);
        lemma_delimiter_has_first(buf, j);
    } else {
        lemma_first_delimiter_end(buf, i);
    }
}

/// Copies the bytes of `buf` from index `from` up to index `to`.
pub(crate) fn copy_range(buf: &[u8], from: usize, to: usize) -> (r: Vec<u8>)
    requires
        from <= to <= buf@.len(),
    ensures
        r@ == buf@.subrange(from as int, to as int),
{
    let mut out: Vec<u8> = Vec::new();
    let mut i: usize = from;
    while i < to
        invariant
            from <= i <= to <= buf@.len(),
            out@ == buf@.subrange(from as int, i as int),
        decreases to - i,
    {
        out.push(buf[i]);
        i += 1;
    }
    out
}

/// Looks for the first delimiter of `buf`, given that none ends before
/// `start` and that the bytes before `start` end in `run` NULs. Gives the
/// index at which it ends, or else the number of NULs in which `buf` ends.
pub(crate) fn scan_delimiter(buf: &[u8], start: usize, run: usize) -> (r: (Option<usize>, usize))
    requires
        start <= buf@.len(),
        run < DELIMITER_LEN,
        ends_in_nuls(buf@.take(start as int), run as int),
        forall|j: int| 0 <= j < start ==> !#[trigger] is_delimiter_end(buf@, j),
    ensures
        match r.0 {
            Some(i) => i < buf@.len() && is_first_delimiter_end(buf@, i as int),
            None => !has_delimiter(buf@) && r.1 < DELIMITER_LEN && ends_in_nuls(buf@, r.1 as int),
        },
{
    let mut pos: usize = start;
    let mut run: usize = run;
    while pos < buf.len()
        invariant
            pos <= buf@.len(),
            run < DELIMITER_LEN,
            ends_in_nuls(buf@.take(pos as int), run as int),
            forall|j: int| 0 <= j < pos ==> !#[trigger] is_delimiter_end(buf@, j),
        decreases buf@.len() - pos,
    {
        let ghost before = buf@.take(pos as int);
        let ghost upto = buf@.take(pos + 1);
        if buf[pos] != 0 {
            run = 0;
            proof {
                assert(!is_delimiter_end(buf@, pos as int));
            }
        } else {
            run = run + 1;
            proof {
                assert forall|k: int| upto.len() - run <= k < upto.len() implies #[trigger] upto[k]
                    == 0 by {
                    if k < pos {
                        assert(before[k] == 0);
                    }
                }
            }
            if run == DELIMITER_LEN {
                proof {
                    assert forall|k: int| pos - DELIMITER_LEN < k <= pos implies #[trigger] buf@[k]
                        == 0 by {
                        assert(upto[k] == 0);
                    }
                }
                return (Some(pos), 0);
            }
            proof {
                assert(!is_delimiter_end(buf@, pos as int));
            }
        }
        pos = pos + 1;
    }
    proof {
        assert(buf@.take(pos as int) =~= buf@);
        assert(!has_delimiter(buf@));
    }
    (None, run)
}

} // verus!
