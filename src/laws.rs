//! Laws that relate successive array calls.
use vstd::prelude::*;
use crate::error::LibpdError;
use crate::store::{clipped_len, read_of, resize_of, size_of, span_fits, write_of, MAX_ARRAY_LEN};

verus! {

/// Resizing an existing array and then asking its size gives the requested
/// size when it lies between one and `MAX_ARRAY_LEN`, and one otherwise.
pub proof fn resize_then_size<S>(m: Map<Seq<char>, Seq<S>>, fill: S, name: Seq<char>, size: i64)
    requires
        m.contains_key(name),
    ensures
        resize_of(m, fill, name, size).1 == Ok::<(), LibpdError>(()),
        size_of(resize_of(m, fill, name, size).0, name) == Ok::<i32, LibpdError>(
            clipped_len(size) as i32,
        ),
        1 <= size <= MAX_ARRAY_LEN ==> size_of(resize_of(m, fill, name, size).0, name) == Ok::<
            i32,
            LibpdError,
        >(size as i32),
        size <= 0 ==> size_of(resize_of(m, fill, name, size).0, name) == Ok::<i32, LibpdError>(1),
{
    let after = resize_of(m, fill, name, size).0;
    assert(after.contains_key(name));
    assert(after[name].len() == clipped_len(size));
}

/// Writing `count` elements of `buf` at the start of an array and reading
/// `count` elements back into `out` from `offset` on gives back those
/// elements of `buf` at `out[offset..offset + count]`; the rest of `out` is
/// left alone. A read always takes the array's first elements, so the
/// write is the one at offset zero, and the read's bound check asks that
/// `offset + count` fit the array too.
pub proof fn write_then_read<S>(
    m: Map<Seq<char>, Seq<S>>,
    name: Seq<char>,
    buf: Seq<S>,
    count: i32,
    out: Seq<S>,
    offset: i32,
)
    requires
        m.contains_key(name),
        0 <= count <= buf.len(),
        0 <= offset,
        offset + count <= m[name].len(),
        offset + count <= out.len(),
    ensures
        write_of(m, name, 0, buf, count).1 == Ok::<(), LibpdError>(()),
        read_of(write_of(m, name, 0, buf, count).0, name, count, out, offset).1 == Ok::<
            (),
            LibpdError,
        >(()),
        read_of(write_of(m, name, 0, buf, count).0, name, count, out, offset).0.subrange(
            offset as int,
            offset + count,
        ) == buf.subrange(0, count as int),
        forall|i: int|
            0 <= i < out.len() && !(offset <= i < offset + count) ==> read_of(
                write_of(m, name, 0, buf, count).0,
                name,
                count,
                out,
                offset,
            ).0[i] == out[i],
{
    let after = write_of(m, name, 0, buf, count).0;
    assert(span_fits(0, count, m[name].len() as int));
    assert(after.contains_key(name));
    assert(after[name].len() == m[name].len());
    let got = read_of(after, name, count, out, offset).0;
    assert(got.subrange(offset as int, offset + count) =~= buf.subrange(0, count as int));
}

} // verus!
