//! Writing byte ranges into a buffer so that nothing outside them changes.

use crate::error::LayoutError;
use vstd::prelude::*;

verus! {

/// `buf` with the bytes from `offset` on replaced by `bytes`; every other byte
/// is the byte of `buf`.
pub open spec fn overwritten(buf: Seq<u8>, offset: int, bytes: Seq<u8>) -> Seq<u8> {
    Seq::new(
        buf.len(),
        |k: int|
            if offset <= k < offset + bytes.len() {
                bytes[k - offset]
            } else {
                buf[k]
            },
    )
}

/// The set of the values that occur in `indices`.
pub open spec fn index_set(indices: Seq<usize>) -> Set<int> {
    Set::new(|i: int| exists|j: int| 0 <= j < indices.len() && indices[j] == i)
}

/// Appending a value to a sequence of indices adds it to their set.
pub proof fn lemma_index_set_push(indices: Seq<usize>, index: usize)
    ensures
        index_set(indices.push(index)) == index_set(indices).insert(index as int),
{
    let longer = indices.push(index);
    assert forall|i: int| index_set(longer).contains(i) <==> index_set(indices).insert(
        index as int,
    ).contains(i) by {
        if index_set(longer).contains(i) {
            let w = choose|w: int| 0 <= w < longer.len() && longer[w] == i;
            if w < indices.len() {
                assert(indices[w] == i);
            }
        }
        if index_set(indices).contains(i) {
            let w = choose|w: int| 0 <= w < indices.len() && indices[w] == i;
            assert(longer[w] == i);
        }
        if i == index {
            assert(longer[indices.len() as int] == i);
        }
    }
    assert(index_set(longer) =~= index_set(indices).insert(index as int));
}

/// Whether byte `k` of a buffer lies in an entry whose index is in `dirty`,
/// for a table of entries of `entry_size` bytes that starts at `base`.
pub open spec fn in_dirty_entry(k: int, base: int, entry_size: int, dirty: Set<int>) -> bool {
    entry_size > 0 && k >= base && dirty.contains((k - base) / entry_size)
}

/// `buf` after every entry whose index is in `dirty` has been replaced by the
/// same entry of `table`. The table occupies `buf` from `base` on, in entries
/// of `entry_size` bytes; a byte outside those entries is the byte of `buf`.
pub open spec fn patched(
    buf: Seq<u8>,
    base: int,
    entry_size: int,
    table: Seq<u8>,
    dirty: Set<int>,
) -> Seq<u8> {
    Seq::new(
        buf.len(),
        |k: int|
            if in_dirty_entry(k, base, entry_size, dirty) {
                table[k - base]
            } else {
                buf[k]
            },
    )
}

/// Whether a table of `table_len` bytes, in entries of `entry_size` bytes,
/// holds the whole of entry `index`.
pub open spec fn entry_fits(index: int, entry_size: int, table_len: int) -> bool {
    (index + 1) * entry_size <= table_len
}

/// Whether the table holds the whole of every entry that `indices` names.
pub open spec fn entries_fit(indices: Seq<usize>, entry_size: int, table_len: int) -> bool {
    forall|j: int|
        0 <= j < indices.len() ==> entry_fits(#[trigger] indices[j] as int, entry_size, table_len)
}

/// Overwrites `buf` from `offset` on with `bytes` and leaves the rest as it is.
pub fn write_bytes(buf: &mut [u8], offset: usize, bytes: &[u8])
    requires
        offset + bytes@.len() <= old(buf)@.len(),
    ensures
        final(buf)@ == overwritten(old(buf)@, offset as int, bytes@),
{
    let total: usize = buf.len();
    let n: usize = bytes.len();
    let mut i: usize = 0;
    while i < n
        invariant
            n == bytes@.len(),
            i <= n,
            buf@.len() == total,
            offset + n <= total,
            buf@ == overwritten(old(buf)@, offset as int, bytes@.take(i as int)),
        decreases n - i,
    {
        buf[offset + i] = bytes[i];
        i = i + 1;
    }
    assert(bytes@.take(n as int) == bytes@);
}

/// A byte at distance `d` from the start of the table lies in entry `i` exactly
/// when `d` is within the `entry_size` bytes that start at `i * entry_size`.
pub proof fn lemma_entry_of_byte(d: int, entry_size: int, i: int)
    requires
        entry_size > 0,
    ensures
        d / entry_size == i <==> i * entry_size <= d < (i + 1) * entry_size,
{
    vstd::arithmetic::div_mod::lemma_fundamental_div_mod(d, entry_size);
    vstd::arithmetic::div_mod::lemma_mod_bound(d, entry_size);
    assert((i + 1) * entry_size == i * entry_size + entry_size) by (nonlinear_arith);
    if i * entry_size <= d < (i + 1) * entry_size {
        vstd::arithmetic::div_mod::lemma_fundamental_div_mod_converse(
            d,
            entry_size,
            i,
            d - i * entry_size,
        );
    }
    assert((d / entry_size + 1) * entry_size == (d / entry_size) * entry_size + entry_size)
        by (nonlinear_arith);
    assert(entry_size * (d / entry_size) == (d / entry_size) * entry_size) by (nonlinear_arith);
}

/// Patching never changes the length of the buffer, nor a byte before the
/// table. Entry `i` of the patched buffer is the entry of the table where `i`
/// is marked, and the entry of the buffer as it was where `i` is not.
pub proof fn lemma_patched_entry(
    buf: Seq<u8>,
    base: int,
    entry_size: int,
    table: Seq<u8>,
    dirty: Set<int>,
    i: int,
)
    requires
        0 <= base,
        0 < entry_size,
        0 <= i,
        base + (i + 1) * entry_size <= buf.len(),
        dirty.contains(i) ==> entry_fits(i, entry_size, table.len() as int),
    ensures
        patched(buf, base, entry_size, table, dirty).len() == buf.len(),
        patched(buf, base, entry_size, table, dirty).subrange(0, base) == buf.subrange(0, base),
        dirty.contains(i) ==> patched(buf, base, entry_size, table, dirty).subrange(
            base + i * entry_size,
            base + (i + 1) * entry_size,
        ) == table.subrange(i * entry_size, (i + 1) * entry_size),
        !dirty.contains(i) ==> patched(buf, base, entry_size, table, dirty).subrange(
            base + i * entry_size,
            base + (i + 1) * entry_size,
        ) == buf.subrange(base + i * entry_size, base + (i + 1) * entry_size),
{
    let out = patched(buf, base, entry_size, table, dirty);
    let from = i * entry_size;
    let to = (i + 1) * entry_size;
    assert(to == from + entry_size) by (nonlinear_arith)
        requires
            from == i * entry_size,
            to == (i + 1) * entry_size,
    ;
    assert(0 <= from) by (nonlinear_arith)
        requires
            from == i * entry_size,
            0 <= i,
            0 < entry_size,
    ;
    assert forall|k: int| base + from <= k < base + to implies #[trigger] out[k] == (if dirty.contains(
        i,
    ) {
        table[k - base]
    } else {
        buf[k]
    }) by {
        lemma_entry_of_byte(k - base, entry_size, i);
    }
    assert(out.subrange(0, base) =~= buf.subrange(0, base));
    if dirty.contains(i) {
        assert(out.subrange(base + from, base + to) =~= table.subrange(from, to));
    } else {
        assert(out.subrange(base + from, base + to) =~= buf.subrange(base + from, base + to));
    }
}

/// Replaces in `buf` every entry whose index occurs in `indices` by the same
/// entry of `table`, and leaves every other byte of `buf` as it is. The table
/// occupies `buf` from `base` on, in entries of `entry_size` bytes, and holds
/// every entry that `indices` names.
pub fn write_patches(
    buf: &mut [u8],
    base: usize,
    entry_size: usize,
    table: &[u8],
    indices: &[usize],
)
    requires
        base + table@.len() <= old(buf)@.len(),
        entries_fit(indices@, entry_size as int, table@.len() as int),
    ensures
        final(buf)@ == patched(
            old(buf)@,
            base as int,
            entry_size as int,
            table@,
            index_set(indices@),
        ),
{
    let total: usize = buf.len();
    let count: usize = indices.len();
    let mut j: usize = 0;
    assert(index_set(indices@.take(0)) =~= Set::<int>::empty());
    assert(buf@ =~= patched(
        old(buf)@,
        base as int,
        entry_size as int,
        table@,
        Set::<int>::empty(),
    ));
    while j < count
        invariant
            count == indices@.len(),
            j <= count,
            buf@.len() == total,
            total == old(buf)@.len(),
            base + table@.len() <= total,
            entries_fit(indices@, entry_size as int, table@.len() as int),
            buf@ == patched(
                old(buf)@,
                base as int,
                entry_size as int,
                table@,
                index_set(indices@.take(j as int)),
            ),
        decreases count - j,
    {
        let index: usize = indices[j];
        let ghost next = index_set(indices@.take(j + 1));
        assert(entry_fits(indices@[j as int] as int, entry_size as int, table@.len() as int));
        assert(index * entry_size + entry_size == (index + 1) * entry_size) by (nonlinear_arith);
        assert(0 <= index * entry_size) by (nonlinear_arith);
        let start: usize = index * entry_size;
        let entry = vstd::slice::slice_subrange(table, start, start + entry_size);
        write_bytes(buf, base + start, entry);
        proof {
            assert(indices@.take(j + 1) =~= indices@.take(j as int).push(index));
            lemma_index_set_push(indices@.take(j as int), index);
            assert forall|k: int| 0 <= k < total implies buf@[k] == patched(
                old(buf)@,
                base as int,
                entry_size as int,
                table@,
                next,
            )[k] by {
                if entry_size > 0 && k >= base {
                    lemma_entry_of_byte(k - base, entry_size as int, index as int);
                }
            }
            assert(buf@ =~= patched(old(buf)@, base as int, entry_size as int, table@, next));
        }
        j = j + 1;
    }
    assert(indices@.take(count as int) == indices@);
}

/// Whether a table of `table_len` bytes holds the whole of every entry that
/// `indices` names.
pub fn check_indices(indices: &[usize], entry_size: usize, table_len: usize) -> (fit: bool)
    ensures
        fit == entries_fit(indices@, entry_size as int, table_len as int),
{
    if entry_size == 0 {
        assert forall|j: int| 0 <= j < indices@.len() implies entry_fits(
            #[trigger] indices@[j] as int,
            0,
            table_len as int,
        ) by {
            assert((indices@[j] + 1) * 0 == 0);
        }
        return true;
    }
    let capacity: usize = table_len / entry_size;
    let count: usize = indices.len();
    let mut j: usize = 0;
    while j < count
        invariant
            count == indices@.len(),
            j <= count,
            entry_size > 0,
            capacity == table_len as int / entry_size as int,
            entries_fit(indices@.take(j as int), entry_size as int, table_len as int),
        decreases count - j,
    {
        proof {
            lemma_capacity(indices@[j as int] as int, entry_size as int, table_len as int);
        }
        if indices[j] >= capacity {
            return false;
        }
        assert forall|w: int| 0 <= w < j + 1 implies entry_fits(
            #[trigger] indices@.take(j + 1)[w] as int,
            entry_size as int,
            table_len as int,
        ) by {
            if w < j {
                assert(indices@.take(j as int)[w] == indices@[w]);
            }
        }
        j = j + 1;
    }
    assert(indices@.take(count as int) == indices@);
    true
}

/// A table of `table_len` bytes holds the whole of entry `index` exactly when
/// `index` is below the number of whole entries in it.
pub proof fn lemma_capacity(index: int, entry_size: int, table_len: int)
    requires
        entry_size > 0,
        0 <= table_len,
    ensures
        entry_fits(index, entry_size, table_len) <==> index < table_len / entry_size,
{
    let capacity = table_len / entry_size;
    lemma_entry_of_byte(table_len, entry_size, capacity);
    if index < capacity {
        assert((index + 1) * entry_size <= capacity * entry_size) by (nonlinear_arith)
            requires
                index + 1 <= capacity,
                entry_size > 0,
        ;
    } else {
        assert((capacity + 1) * entry_size <= (index + 1) * entry_size) by (nonlinear_arith)
            requires
                capacity <= index,
                entry_size > 0,
        ;
    }
}

/// Replaces in `buf` every entry whose index occurs in `indices` by the same
/// entry of `table`, and leaves every other byte of `buf` as it is. The table
/// occupies `buf` from `base` on, in entries of `entry_size` bytes. Where
/// `indices` names an entry that the table does not wholly hold, the call is
/// rejected with `OutOfRange` before any byte is written.
pub fn apply_patches(
    buf: &mut [u8],
    base: usize,
    entry_size: usize,
    table: &[u8],
    indices: &[usize],
) -> (result: Result<(), LayoutError>)
    requires
        base + table@.len() <= old(buf)@.len(),
    ensures
        entries_fit(indices@, entry_size as int, table@.len() as int) ==> result == Ok::<
            (),
            LayoutError,
        >(()) && final(buf)@ == patched(
            old(buf)@,
            base as int,
            entry_size as int,
            table@,
            index_set(indices@),
        ),
        !entries_fit(indices@, entry_size as int, table@.len() as int) ==> result == Err::<
            (),
            LayoutError,
        >(LayoutError::OutOfRange) && final(buf)@ == old(buf)@,
{
    if !check_indices(indices, entry_size, table.len()) {
        return Err(LayoutError::OutOfRange);
    }
    write_patches(buf, base, entry_size, table, indices);
    Ok(())
}

} // verus!
