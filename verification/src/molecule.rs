//! The molecule serialization format: tables, vectors, unions and arrays
//! framed by little-endian `u32` headers, with the checks that molecule's
//! readers make before they accept a slice.
use vstd::prelude::*;

use crate::le::{
    le_bytes, le_value, lemma_le_bytes_len, lemma_le_bytes_mod, lemma_le_bytes_of_value, lemma_le_value_of_bytes, pow256, push_le,
    read_le, lemma_pow256_values,
};

verus! {

/// Why molecule refuses a slice, as molecule's own `VerificationError` says it:
/// the name of the reader that refused it and the sizes it saw.
#[derive(Clone, Debug, PartialEq, Eq)]
pub enum VerificationError {
    TotalSizeNotMatch(String, usize, usize),
    HeaderIsBroken(String, usize, usize),
    UnknownItem(String, usize, u32),
    OffsetsNotMatch(String),
    FieldCountNotMatch(String, usize, usize),
}

/// The mathematical value of a [`VerificationError`].
pub enum SpecVerificationError {
    TotalSizeNotMatch(Seq<char>, int, int),
    HeaderIsBroken(Seq<char>, int, int),
    UnknownItem(Seq<char>, int, int),
    OffsetsNotMatch(Seq<char>),
    FieldCountNotMatch(Seq<char>, int, int),
}

impl View for VerificationError {
    type V = SpecVerificationError;

    open spec fn view(&self) -> SpecVerificationError {
        match self {
            VerificationError::TotalSizeNotMatch(n, a, b) => SpecVerificationError::TotalSizeNotMatch(
                n@,
                *a as int,
                *b as int,
            ),
            VerificationError::HeaderIsBroken(n, a, b) => SpecVerificationError::HeaderIsBroken(
                n@,
                *a as int,
                *b as int,
            ),
            VerificationError::UnknownItem(n, a, b) => SpecVerificationError::UnknownItem(
                n@,
                *a as int,
                *b as int,
            ),
            VerificationError::OffsetsNotMatch(n) => SpecVerificationError::OffsetsNotMatch(n@),
            VerificationError::FieldCountNotMatch(n, a, b) => SpecVerificationError::FieldCountNotMatch(
                n@,
                *a as int,
                *b as int,
            ),
        }
    }
}

/// The view of a check's outcome.
pub open spec fn check_view(r: Result<(), VerificationError>) -> Result<(), SpecVerificationError> {
    match r {
        Ok(_) => Ok(()),
        Err(e) => Err(e@),
    }
}

/// The first failure of two checks made in turn.
pub open spec fn and_then(
    a: Result<(), SpecVerificationError>,
    b: Result<(), SpecVerificationError>,
) -> Result<(), SpecVerificationError> {
    match a {
        Err(e) => Err(e),
        Ok(_) => b,
    }
}

/// The bytes of `fs` one after the other.
pub open spec fn concat(fs: Seq<Seq<u8>>) -> Seq<u8>
    decreases fs.len(),
{
    if fs.len() == 0 {
        Seq::empty()
    } else {
        concat(fs.drop_last()) + fs.last()
    }
}

/// Where the `i`-th of `fs` starts in their concatenation.
pub open spec fn prefix_len(fs: Seq<Seq<u8>>, i: int) -> int {
    concat(fs.take(i)).len() as int
}

pub proof fn lemma_concat_take_succ(fs: Seq<Seq<u8>>, i: int)
    requires
        0 <= i < fs.len(),
    ensures
        concat(fs.take(i + 1)) == concat(fs.take(i)) + fs[i],
        prefix_len(fs, i + 1) == prefix_len(fs, i) + fs[i].len(),
{
    assert(fs.take(i + 1).drop_last() =~= fs.take(i));
}

pub proof fn lemma_prefix_len_monotonic(fs: Seq<Seq<u8>>, i: int, j: int)
    requires
        0 <= i <= j <= fs.len(),
    ensures
        0 <= prefix_len(fs, i) <= prefix_len(fs, j),
    decreases j - i,
{
    if i < j {
        lemma_concat_take_succ(fs, j - 1);
        lemma_prefix_len_monotonic(fs, i, j - 1);
    }
}

/// The concatenation begins with the concatenation of any prefix.
pub proof fn lemma_concat_prefix(fs: Seq<Seq<u8>>, k: int)
    requires
        0 <= k <= fs.len(),
    ensures
        prefix_len(fs, k) <= concat(fs).len(),
        concat(fs).subrange(0, prefix_len(fs, k)) == concat(fs.take(k)),
    decreases fs.len(),
{
    if k == fs.len() {
        assert(fs.take(k) =~= fs);
        assert(concat(fs).subrange(0, prefix_len(fs, k)) =~= concat(fs));
    } else {
        let d = fs.drop_last();
        assert(fs.take(k) =~= d.take(k));
        lemma_concat_prefix(d, k);
        assert(concat(fs).subrange(0, prefix_len(fs, k)) =~= concat(d).subrange(
            0,
            prefix_len(d, k),
        ));
    }
}

/// The `i`-th sequence stands in the concatenation between its prefix and the next.
pub proof fn lemma_concat_element(fs: Seq<Seq<u8>>, i: int)
    requires
        0 <= i < fs.len(),
    ensures
        0 <= prefix_len(fs, i) <= prefix_len(fs, i + 1) <= concat(fs).len(),
        prefix_len(fs, i + 1) == prefix_len(fs, i) + fs[i].len(),
        concat(fs).subrange(prefix_len(fs, i), prefix_len(fs, i + 1)) == fs[i],
{
    lemma_concat_take_succ(fs, i);
    lemma_concat_prefix(fs, i + 1);
    lemma_prefix_len_monotonic(fs, i, i + 1);
    let c = concat(fs);
    let p = prefix_len(fs, i);
    let q = prefix_len(fs, i + 1);
    assert(c.subrange(p, q) =~= c.subrange(0, q).subrange(p, q));
    assert((concat(fs.take(i)) + fs[i]).subrange(p, q) =~= fs[i]);
}

pub proof fn lemma_concat_len_all(fs: Seq<Seq<u8>>)
    ensures
        prefix_len(fs, fs.len() as int) == concat(fs).len(),
{
    assert(fs.take(fs.len() as int) =~= fs);
}

/// The concatenation of `n` sequences of `w` bytes each.
pub proof fn lemma_concat_uniform(fs: Seq<Seq<u8>>, w: int, i: int)
    requires
        0 <= i <= fs.len(),
        forall|j: int| 0 <= j < fs.len() ==> #[trigger] fs[j].len() == w,
    ensures
        prefix_len(fs, i) == w * i,
    decreases i,
{
    if i > 0 {
        lemma_concat_uniform(fs, w, i - 1);
        lemma_concat_take_succ(fs, i - 1);
        assert(fs[i - 1].len() == w);
        assert(prefix_len(fs, i) == prefix_len(fs, i - 1) + w);
        assert(w * (i - 1) + w == w * i) by (nonlinear_arith);
    } else {
        assert(fs.take(0) =~= Seq::<Seq<u8>>::empty());
        assert(prefix_len(fs, 0) == 0);
    }
}

/// A sequence of molecule numbers, four little-endian bytes each.
pub open spec fn numbers_bytes(ns: Seq<nat>) -> Seq<u8> {
    concat(Seq::new(ns.len(), |i: int| le_bytes(ns[i], 4)))
}

/// The number that the four bytes of `b` from `p` on denote.
pub open spec fn number_at(b: Seq<u8>, p: int) -> nat {
    le_value(b.subrange(p, p + 4))
}

pub proof fn lemma_numbers_bytes_len(ns: Seq<nat>)
    ensures
        numbers_bytes(ns).len() == 4 * ns.len(),
{
    let fs = Seq::new(ns.len(), |j: int| le_bytes(ns[j], 4));
    assert forall|j: int| 0 <= j < fs.len() implies #[trigger] fs[j].len() == 4 by {
        lemma_le_bytes_len(ns[j], 4);
    }
    lemma_concat_uniform(fs, 4, ns.len() as int);
    lemma_concat_len_all(fs);
}

pub proof fn lemma_numbers_bytes(ns: Seq<nat>, i: int)
    requires
        0 <= i < ns.len(),
        ns[i] < pow256(4),
    ensures
        numbers_bytes(ns).len() == 4 * ns.len(),
        number_at(numbers_bytes(ns), 4 * i) == ns[i],
{
    let fs = Seq::new(ns.len(), |j: int| le_bytes(ns[j], 4));
    assert forall|j: int| 0 <= j < fs.len() implies #[trigger] fs[j].len() == 4 by {
        lemma_le_bytes_len(ns[j], 4);
    }
    lemma_concat_uniform(fs, 4, i);
    lemma_concat_uniform(fs, 4, i + 1);
    lemma_concat_uniform(fs, 4, ns.len() as int);
    lemma_concat_len_all(fs);
    lemma_concat_element(fs, i);
    lemma_le_value_of_bytes(ns[i], 4);
}

/// The header of a table, or of a dynamic vector, that holds `fs`: its total
/// size, then where each of `fs` starts.
pub open spec fn table_header(fs: Seq<Seq<u8>>) -> Seq<nat> {
    let h = 4 * (fs.len() + 1);
    seq![(h + concat(fs).len()) as nat] + Seq::new(
        fs.len(),
        |i: int| (h + prefix_len(fs, i)) as nat,
    )
}

/// The molecule bytes of a table (or dynamic vector) whose fields (items) are `fs`.
pub open spec fn table_bytes(fs: Seq<Seq<u8>>) -> Seq<u8> {
    numbers_bytes(table_header(fs)) + concat(fs)
}

/// Where the `i`-th of `n` fields of a table starts (the total size for `i == n`).
pub open spec fn offset_at(b: Seq<u8>, n: int, i: int) -> int {
    if i < n {
        number_at(b, 4 + 4 * i) as int
    } else {
        b.len() as int
    }
}

/// The bytes of the `i`-th of `n` fields of a table.
pub open spec fn field_at(b: Seq<u8>, n: int, i: int) -> Seq<u8> {
    b.subrange(offset_at(b, n, i), offset_at(b, n, i + 1))
}

/// The `i`-th field does not start after the next one.
pub open spec fn offset_step(b: Seq<u8>, n: int, i: int) -> bool {
    offset_at(b, n, i) <= offset_at(b, n, i + 1)
}

pub open spec fn offsets_sorted(b: Seq<u8>, n: int) -> bool {
    forall|i: int| 0 <= i < n ==> #[trigger] offset_step(b, n, i)
}

/// What molecule's reader of a table with `n` fields says of the table's frame,
/// before it looks into the fields.
pub open spec fn table_layout(name: Seq<char>, b: Seq<u8>, n: int) -> Result<(), SpecVerificationError> {
    let len = b.len() as int;
    if len < 4 {
        Err(SpecVerificationError::HeaderIsBroken(name, 4, len))
    } else if number_at(b, 0) != len {
        Err(SpecVerificationError::TotalSizeNotMatch(name, number_at(b, 0) as int, len))
    } else if len < 8 {
        Err(SpecVerificationError::HeaderIsBroken(name, 8, len))
    } else if number_at(b, 4) % 4 != 0 || number_at(b, 4) < 8 {
        Err(SpecVerificationError::OffsetsNotMatch(name))
    } else if len < number_at(b, 4) {
        Err(SpecVerificationError::HeaderIsBroken(name, number_at(b, 4) as int, len))
    } else if number_at(b, 4) / 4 - 1 != n {
        Err(SpecVerificationError::FieldCountNotMatch(name, n, number_at(b, 4) / 4 - 1))
    } else if !offsets_sorted(b, n) {
        Err(SpecVerificationError::OffsetsNotMatch(name))
    } else {
        Ok(())
    }
}

/// What molecule's reader of a dynamic vector says of the vector's frame:
/// the number of items, or why it refuses.
pub open spec fn dynvec_layout(name: Seq<char>, b: Seq<u8>) -> Result<int, SpecVerificationError> {
    let len = b.len() as int;
    if len < 4 {
        Err(SpecVerificationError::HeaderIsBroken(name, 4, len))
    } else if number_at(b, 0) != len {
        Err(SpecVerificationError::TotalSizeNotMatch(name, number_at(b, 0) as int, len))
    } else if len == 4 {
        Ok(0)
    } else if len < 8 {
        Err(SpecVerificationError::TotalSizeNotMatch(name, 8, len))
    } else if number_at(b, 4) % 4 != 0 || number_at(b, 4) < 8 {
        Err(SpecVerificationError::OffsetsNotMatch(name))
    } else if len < number_at(b, 4) {
        Err(SpecVerificationError::HeaderIsBroken(name, number_at(b, 4) as int, len))
    } else if !offsets_sorted(b, number_at(b, 4) / 4 - 1) {
        Err(SpecVerificationError::OffsetsNotMatch(name))
    } else {
        Ok(number_at(b, 4) / 4 - 1)
    }
}

/// What molecule's reader of a fixed-size array says.
pub open spec fn array_check(name: Seq<char>, size: int, b: Seq<u8>) -> Result<(), SpecVerificationError> {
    if b.len() != size {
        Err(SpecVerificationError::TotalSizeNotMatch(name, size, b.len() as int))
    } else {
        Ok(())
    }
}

/// What molecule's reader of a vector of `w`-byte items says.
pub open spec fn fixvec_check(name: Seq<char>, w: int, b: Seq<u8>) -> Result<(), SpecVerificationError> {
    let len = b.len() as int;
    if len < 4 {
        Err(SpecVerificationError::HeaderIsBroken(name, 4, len))
    } else if number_at(b, 0) == 0 {
        if len != 4 {
            Err(SpecVerificationError::TotalSizeNotMatch(name, 4, len))
        } else {
            Ok(())
        }
    } else if len != 4 + w * number_at(b, 0) {
        Err(
            SpecVerificationError::TotalSizeNotMatch(
                name,
                (4 + w * number_at(b, 0)) as usize as int,
                len,
            ),
        )
    } else {
        Ok(())
    }
}

/// The `i`-th `w`-byte item of a vector of fixed-size items.
pub open spec fn item_at(b: Seq<u8>, w: int, i: int) -> Seq<u8> {
    b.subrange(4 + w * i, 4 + w * (i + 1))
}

/// Sorted offsets never decrease, and none passes the end.
pub proof fn lemma_sorted_offsets_bounded(b: Seq<u8>, n: int)
    requires
        n >= 0,
        offsets_sorted(b, n),
    ensures
        forall|i: int, j: int|
            0 <= i <= j <= n ==> #[trigger] offset_at(b, n, i) <= #[trigger] offset_at(b, n, j) <= b.len(),
{
    assert forall|i: int, j: int| 0 <= i <= j <= n implies #[trigger] offset_at(b, n, i) <= #[trigger] offset_at(
        b,
        n,
        j,
    ) <= b.len() by {
        lemma_sorted_chain(b, n, i, j);
        lemma_sorted_chain(b, n, j, n);
    }
}

proof fn lemma_sorted_chain(b: Seq<u8>, n: int, i: int, j: int)
    requires
        0 <= i <= j <= n,
        offsets_sorted(b, n),
    ensures
        offset_at(b, n, i) <= offset_at(b, n, j),
    decreases j - i,
{
    if i < j {
        lemma_sorted_chain(b, n, i, j - 1);
        assert(offset_step(b, n, j - 1));
    }
}

proof fn lemma_sorted_offsets(b: Seq<u8>, n: int, os: Seq<usize>)
    requires
        os.len() == n + 1,
        forall|i: int| 0 <= i <= n ==> os[i] == offset_at(b, n, i),
    ensures
        offsets_sorted(b, n) == forall|i: int| 0 <= i < os.len() - 1 ==> #[trigger] os[i] <= os[i + 1],
{
    if offsets_sorted(b, n) {
        assert forall|i: int| 0 <= i < os.len() - 1 implies #[trigger] os[i] <= os[i + 1] by {
            assert(offset_step(b, n, i));
        }
    }
    if forall|i: int| 0 <= i < os.len() - 1 ==> #[trigger] os[i] <= os[i + 1] {
        assert forall|i: int| 0 <= i < n implies #[trigger] offset_step(b, n, i) by {
            assert(os[i] <= os[i + 1]);
        }
    }
}

/// Reads the number at `p`.
pub fn read_number(b: &[u8], p: usize) -> (v: usize)
    requires
        p + 4 <= b@.len(),
    ensures
        v as nat == number_at(b@, p as int),
        v < 0x1_0000_0000,
{
    let x = read_le(b, p, 4);
    proof {
        lemma_le_bytes_of_value_bound(b@.subrange(p as int, p + 4));
    }
    x as usize
}

proof fn lemma_le_bytes_of_value_bound(s: Seq<u8>)
    requires
        s.len() == 4,
    ensures
        le_value(s) < 0x1_0000_0000,
{
    crate::le::lemma_le_bytes_of_value(s);
    lemma_pow256_values();
}

/// Checks the frame of a table of `n` fields, as molecule does, and returns
/// where each field starts, then the total size.
#[verifier::rlimit(40)]
pub fn check_table_layout(name: &str, b: &[u8], n: usize) -> (r: Result<Vec<usize>, VerificationError>)
    requires
        1 <= n < 0x1000_0000,
    ensures
        match r {
            Ok(os) => {
                &&& table_layout(name@, b@, n as int) == Ok::<(), SpecVerificationError>(())
                &&& os@.len() == n + 1
                &&& forall|i: int| 0 <= i <= n ==> os@[i] == offset_at(b@, n as int, i)
                &&& forall|i: int, j: int| 0 <= i <= j <= n ==> #[trigger] os@[i] <= #[trigger] os@[j] <= b@.len()
            },
            Err(e) => table_layout(name@, b@, n as int) == Err::<(), SpecVerificationError>(e@),
        },
{
    let len = b.len();
    if len < 4 {
        return Err(VerificationError::HeaderIsBroken(name.to_owned(), 4, len));
    }
    let total = read_number(b, 0);
    if total != len {
        return Err(VerificationError::TotalSizeNotMatch(name.to_owned(), total, len));
    }
    if len < 8 {
        return Err(VerificationError::HeaderIsBroken(name.to_owned(), 8, len));
    }
    let first = read_number(b, 4);
    if first % 4 != 0 || first < 8 {
        return Err(VerificationError::OffsetsNotMatch(name.to_owned()));
    }
    if len < first {
        return Err(VerificationError::HeaderIsBroken(name.to_owned(), first, len));
    }
    let count = first / 4 - 1;
    if count != n {
        return Err(VerificationError::FieldCountNotMatch(name.to_owned(), n, count));
    }
    let os = read_offsets(b, n);
    let sorted = offsets_ascending(&os);
    proof {
        lemma_sorted_offsets(b@, n as int, os@);
        if sorted {
            lemma_sorted_offsets_bounded(b@, n as int);
        }
    }
    if !sorted {
        return Err(VerificationError::OffsetsNotMatch(name.to_owned()));
    }
    Ok(os)
}

/// The `n` offsets that follow the total size, then the total size itself.
fn read_offsets(b: &[u8], n: usize) -> (os: Vec<usize>)
    requires
        4 + 4 * n <= b@.len(),
    ensures
        os@.len() == n + 1,
        forall|i: int| 0 <= i <= n ==> os@[i] == offset_at(b@, n as int, i),
{
    let mut os: Vec<usize> = Vec::new();
    let mut i: usize = 0;
    let blen = b.len();
    while i < n
        invariant
            blen == b@.len(),
            i <= n,
            4 + 4 * n <= b@.len(),
            os@.len() == i,
            forall|j: int| 0 <= j < i ==> os@[j] == offset_at(b@, n as int, j),
        decreases n - i,
    {
        let o = read_number(b, 4 + 4 * i);
        os.push(o);
        i = i + 1;
    }
    os.push(b.len());
    os
}

/// Whether the offsets never decrease.
fn offsets_ascending(os: &Vec<usize>) -> (r: bool)
    requires
        os@.len() >= 1,
    ensures
        r == forall|i: int| 0 <= i < os@.len() - 1 ==> #[trigger] os@[i] <= os@[i + 1],
{
    let mut i: usize = 0;
    while i < os.len() - 1
        invariant
            os@.len() >= 1,
            i + 1 <= os@.len(),
            forall|j: int| 0 <= j < i ==> #[trigger] os@[j] <= os@[j + 1],
        decreases os@.len() - i,
    {
        if os[i] > os[i + 1] {
            return false;
        }
        i = i + 1;
    }
    true
}

/// Checks the frame of a dynamic vector, as molecule does, and returns where
/// each item starts, then the total size.
#[verifier::rlimit(40)]
pub fn check_dynvec_layout(name: &str, b: &[u8]) -> (r: Result<Vec<usize>, VerificationError>)
    ensures
        match r {
            Ok(os) => {
                &&& dynvec_layout(name@, b@) == Ok::<int, SpecVerificationError>(os@.len() - 1)
                &&& os@.len() >= 1
                &&& forall|i: int| 0 <= i < os@.len() ==> os@[i] == offset_at(b@, os@.len() - 1, i)
                &&& forall|i: int, j: int| 0 <= i <= j < os@.len() ==> #[trigger] os@[i] <= #[trigger] os@[j] <= b@.len()
            },
            Err(e) => dynvec_layout(name@, b@) == Err::<int, SpecVerificationError>(e@),
        },
{
    let len = b.len();
    if len < 4 {
        return Err(VerificationError::HeaderIsBroken(name.to_owned(), 4, len));
    }
    let total = read_number(b, 0);
    if total != len {
        return Err(VerificationError::TotalSizeNotMatch(name.to_owned(), total, len));
    }
    if len == 4 {
        let os = read_offsets(b, 0);
        return Ok(os);
    }
    assert(len >= 5);
    if len < 8 {
        return Err(VerificationError::TotalSizeNotMatch(name.to_owned(), 8, len));
    }
    let first = read_number(b, 4);
    if first % 4 != 0 || first < 8 {
        return Err(VerificationError::OffsetsNotMatch(name.to_owned()));
    }
    if len < first {
        return Err(VerificationError::HeaderIsBroken(name.to_owned(), first, len));
    }
    let count = first / 4 - 1;
    let os = read_offsets(b, count);
    let sorted = offsets_ascending(&os);
    proof {
        lemma_sorted_offsets(b@, count as int, os@);
        if sorted {
            lemma_sorted_offsets_bounded(b@, count as int);
        }
    }
    if !sorted {
        return Err(VerificationError::OffsetsNotMatch(name.to_owned()));
    }
    Ok(os)
}

/// Checks an array of `size` bytes, as molecule does.
pub fn check_array(name: &str, size: usize, b: &[u8]) -> (r: Result<(), VerificationError>)
    ensures
        check_view(r) == array_check(name@, size as int, b@),
{
    if b.len() != size {
        return Err(VerificationError::TotalSizeNotMatch(name.to_owned(), size, b.len()));
    }
    Ok(())
}

/// Checks a vector of `w`-byte items, as molecule does.
pub fn check_fixvec(name: &str, w: usize, b: &[u8]) -> (r: Result<(), VerificationError>)
    requires
        1 <= w <= 0x1_0000,
    ensures
        check_view(r) == fixvec_check(name@, w as int, b@),
{
    let len = b.len();
    if len < 4 {
        return Err(VerificationError::HeaderIsBroken(name.to_owned(), 4, len));
    }
    let count = read_number(b, 0);
    if count == 0 {
        if len != 4 {
            return Err(VerificationError::TotalSizeNotMatch(name.to_owned(), 4, len));
        }
        return Ok(());
    }
    assert((w as u64) * (count as u64) < 0x1_0000_0000_0000) by (nonlinear_arith)
        requires
            w <= 0x1_0000,
            count < 0x1_0000_0000,
    ;
    let total: u64 = 4 + (w as u64) * (count as u64);
    if (len as u64) != total {
        return Err(VerificationError::TotalSizeNotMatch(name.to_owned(), total as usize, len));
    }
    Ok(())
}

/// The views of a sequence of byte vectors.
pub open spec fn views(vs: Seq<Vec<u8>>) -> Seq<Seq<u8>> {
    vs.map_values(|v: Vec<u8>| v@)
}

/// Appends the bytes of `src` to `out`.
pub fn append_bytes(out: &mut Vec<u8>, src: &[u8])
    ensures
        final(out)@ == old(out)@ + src@,
{
    let ghost start = old(out)@;
    let mut i: usize = 0;
    while i < src.len()
        invariant
            i <= src@.len(),
            out@ == start + src@.subrange(0, i as int),
        decreases src@.len() - i,
    {
        out.push(src[i]);
        i = i + 1;
        proof {
            assert(out@ =~= start + src@.subrange(0, i as int));
        }
    }
    proof {
        assert(src@.subrange(0, i as int) =~= src@);
    }
}

/// A fresh vector holding the bytes of `s`.
pub fn copy_bytes(s: &[u8]) -> (v: Vec<u8>)
    ensures
        v@ == s@,
{
    let mut v: Vec<u8> = Vec::new();
    append_bytes(&mut v, s);
    assert(v@ =~= s@);
    v
}

/// `(a + b) mod 2^32`, for `a` below `2^32`.
fn add_mod_number(a: u64, b: usize) -> (r: u64)
    requires
        a < 0x1_0000_0000,
    ensures
        r as int == (a + b) % 0x1_0000_0000,
        r < 0x1_0000_0000,
{
    let r = (a + (b as u64 % 0x1_0000_0000)) % 0x1_0000_0000;
    proof {
        vstd::arithmetic::div_mod::lemma_add_mod_noop_right(a as int, b as int, 0x1_0000_0000);
    }
    r
}

/// Writes a table (or a dynamic vector) whose fields (items) are `fields`.
/// Sizes are written modulo `2^32`, as molecule's builders write them.
#[verifier::rlimit(40)]
pub fn write_table(fields: &Vec<Vec<u8>>) -> (out: Vec<u8>)
    ensures
        out@ == table_bytes(views(fields@)),
{
    let n = fields.len();
    let ghost fs = views(fields@);
    let ghost hdr = table_header(fs);
    let ghost nb = Seq::new(hdr.len(), |i: int| le_bytes(hdr[i], 4));
    let ghost h: int = 4 * (n + 1);
    proof {
        lemma_pow256_values();
        assert(fs.take(0) =~= Seq::<Seq<u8>>::empty());
    }
    let t: u64 = (n as u64) % 0x1_0000_0000;
    let h32: u64 = (t * 4 + 4) % 0x1_0000_0000;
    proof {
        vstd::arithmetic::div_mod::lemma_mul_mod_noop_right(4, n as int, 0x1_0000_0000);
        vstd::arithmetic::div_mod::lemma_add_mod_noop(4 * (n as int), 4, 0x1_0000_0000);
        vstd::arithmetic::div_mod::lemma_mod_bound(4 * (n as int), 0x1_0000_0000);
        vstd::arithmetic::div_mod::lemma_small_mod(4, 0x1_0000_0000);
        vstd::arithmetic::div_mod::lemma_add_mod_noop((t * 4) as int, 4, 0x1_0000_0000);
        vstd::arithmetic::div_mod::lemma_small_mod((t * 4) as nat, 0x1_0000_0000 * 4);
        assert(h32 as int == h % 0x1_0000_0000);
    }
    let mut offs: Vec<u64> = Vec::new();
    let mut acc: u64 = h32;
    let mut i: usize = 0;
    while i < n
        invariant
            n == fields@.len(),
            fs == views(fields@),
            h == 4 * (n + 1),
            i <= n,
            acc < 0x1_0000_0000,
            acc as int == (h + prefix_len(fs, i as int)) % 0x1_0000_0000,
            offs@.len() == i,
            forall|j: int| 0 <= j < i ==> offs@[j] as int == (h + prefix_len(fs, j)) % 0x1_0000_0000,
        decreases n - i,
    {
        offs.push(acc);
        proof {
            lemma_concat_take_succ(fs, i as int);
            vstd::arithmetic::div_mod::lemma_add_mod_noop(
                h + prefix_len(fs, i as int),
                fields@[i as int]@.len() as int,
                0x1_0000_0000,
            );
            vstd::arithmetic::div_mod::lemma_mod_bound(fields@[i as int]@.len() as int, 0x1_0000_0000);
            vstd::arithmetic::div_mod::lemma_small_mod(acc as nat, 0x1_0000_0000);
        }
        acc = add_mod_number(acc, fields[i].len());
        i = i + 1;
    }
    proof {
        lemma_concat_len_all(fs);
    }
    let mut out: Vec<u8> = Vec::new();
    push_le(&mut out, acc, 4);
    proof {
        lemma_le_bytes_mod(hdr[0], 4);
        assert(nb.take(1).drop_last() =~= Seq::<Seq<u8>>::empty());
        assert(concat(nb.take(1)) =~= out@);
    }
    let mut j: usize = 0;
    while j < n
        invariant
            n == fields@.len(),
            fs == views(fields@),
            hdr == table_header(fs),
            nb == Seq::new(hdr.len(), |i: int| le_bytes(hdr[i], 4)),
            h == 4 * (n + 1),
            j <= n,
            offs@.len() == n,
            forall|k: int| 0 <= k < n ==> offs@[k] as int == (h + prefix_len(fs, k)) % 0x1_0000_0000,
            out@ == concat(nb.take(j + 1)),
            pow256(4) == 0x1_0000_0000,
        decreases n - j,
    {
        push_le(&mut out, offs[j], 4);
        proof {
            lemma_le_bytes_mod(hdr[j + 1], 4);
            lemma_concat_take_succ(nb, j + 1);
        }
        j = j + 1;
    }
    proof {
        assert(nb.take(n + 1) =~= nb);
        assert(out@ == numbers_bytes(hdr));
        assert(fs.take(0) =~= Seq::<Seq<u8>>::empty());
    }
    let ghost hb = out@;
    let mut k: usize = 0;
    while k < n
        invariant
            n == fields@.len(),
            fs == views(fields@),
            k <= n,
            out@ == hb + concat(fs.take(k as int)),
        decreases n - k,
    {
        append_bytes(&mut out, fields[k].as_slice());
        proof {
            lemma_concat_take_succ(fs, k as int);
        }
        k = k + 1;
    }
    proof {
        assert(fs.take(n as int) =~= fs);
    }
    out
}

/// The frame of written table bytes: where each field starts, and that the
/// fields are read back as they were written.
pub proof fn lemma_table_bytes_layout(fs: Seq<Seq<u8>>)
    requires
        table_bytes(fs).len() < 0x1_0000_0000,
    ensures
        ({
            let b = table_bytes(fs);
            let n = fs.len() as int;
            &&& b.len() == 4 * (n + 1) + concat(fs).len()
            &&& number_at(b, 0) == b.len()
            &&& n >= 1 ==> number_at(b, 4) == 4 * (n + 1)
            &&& forall|i: int| 0 <= i <= n ==> #[trigger] offset_at(b, n, i) == 4 * (n + 1) + prefix_len(fs, i)
            &&& offsets_sorted(b, n)
            &&& forall|i: int| 0 <= i < n ==> #[trigger] field_at(b, n, i) == fs[i]
        }),
{
    let b = table_bytes(fs);
    let n = fs.len() as int;
    let hdr = table_header(fs);
    let hb = numbers_bytes(hdr);
    let h = 4 * (n + 1);
    lemma_pow256_values();
    lemma_concat_len_all(fs);
    lemma_numbers_bytes_len(hdr);
    lemma_numbers_bytes(hdr, 0);
    assert(b.subrange(0, 4) =~= hb.subrange(0, 4));
    assert forall|i: int| 0 <= i < n implies hdr[i + 1] == h + prefix_len(fs, i) && hdr[i + 1] < pow256(4) by {
        lemma_prefix_len_monotonic(fs, i, n);
    }
    assert forall|i: int| 0 <= i < n implies #[trigger] number_at(b, 4 + 4 * i) == h + prefix_len(fs, i) by {
        lemma_numbers_bytes(hdr, i + 1);
        assert(b.subrange(4 + 4 * i, 4 + 4 * i + 4) =~= hb.subrange(4 * (i + 1), 4 * (i + 1) + 4));
    }
    if n >= 1 {
        assert(number_at(b, 4 + 4 * 0int) == h + prefix_len(fs, 0));
        assert(fs.take(0) =~= Seq::<Seq<u8>>::empty());
    }
    assert forall|i: int| 0 <= i <= n implies #[trigger] offset_at(b, n, i) == h + prefix_len(fs, i) by {
        if i < n {
            assert(number_at(b, 4 + 4 * i) == h + prefix_len(fs, i));
        }
    }
    assert forall|i: int| 0 <= i < n implies #[trigger] offset_step(b, n, i) by {
        lemma_prefix_len_monotonic(fs, i, i + 1);
        assert(offset_at(b, n, i) == h + prefix_len(fs, i));
        assert(offset_at(b, n, i + 1) == h + prefix_len(fs, i + 1));
    }
    assert forall|i: int| 0 <= i < n implies #[trigger] field_at(b, n, i) == fs[i] by {
        lemma_concat_element(fs, i);
        assert(offset_at(b, n, i) == h + prefix_len(fs, i));
        assert(offset_at(b, n, i + 1) == h + prefix_len(fs, i + 1));
        assert(field_at(b, n, i) =~= concat(fs).subrange(prefix_len(fs, i), prefix_len(fs, i + 1)));
    }
}

/// A written table of `n >= 1` fields passes molecule's frame checks.
pub proof fn lemma_table_bytes_accepted(name: Seq<char>, fs: Seq<Seq<u8>>)
    requires
        fs.len() >= 1,
        table_bytes(fs).len() < 0x1_0000_0000,
    ensures
        table_layout(name, table_bytes(fs), fs.len() as int) == Ok::<(), SpecVerificationError>(()),
        forall|i: int| 0 <= i < fs.len() ==> #[trigger] field_at(table_bytes(fs), fs.len() as int, i) == fs[i],
{
    lemma_table_bytes_layout(fs);
    let n = fs.len() as int;
    assert(4 * (n + 1) / 4 - 1 == n);
}

/// A written dynamic vector passes molecule's frame checks.
pub proof fn lemma_dynvec_bytes_accepted(name: Seq<char>, fs: Seq<Seq<u8>>)
    requires
        table_bytes(fs).len() < 0x1_0000_0000,
    ensures
        dynvec_layout(name, table_bytes(fs)) == Ok::<int, SpecVerificationError>(fs.len() as int),
        forall|i: int| 0 <= i < fs.len() ==> #[trigger] field_at(table_bytes(fs), fs.len() as int, i) == fs[i],
{
    lemma_table_bytes_layout(fs);
    let n = fs.len() as int;
    assert(4 * (n + 1) / 4 - 1 == n);
}


/// The `n` fields (or items) that the offsets of a frame mark out.
pub open spec fn fields_of(b: Seq<u8>, n: int) -> Seq<Seq<u8>> {
    Seq::new(n as nat, |i: int| field_at(b, n, i))
}

/// Sequences that stand one after the other in `b`, `w` bytes each from
/// `start` on, concatenate to that stretch of `b`.
pub proof fn lemma_concat_chunks(b: Seq<u8>, fs: Seq<Seq<u8>>, w: int, start: int)
    requires
        0 <= w,
        0 <= start,
        start + w * fs.len() <= b.len(),
        forall|j: int| 0 <= j < fs.len() ==> #[trigger] fs[j] == b.subrange(start + w * j, start + w * j + w),
    ensures
        concat(fs) == b.subrange(start, start + w * fs.len()),
    decreases fs.len(),
{
    let k = fs.len() as int;
    if k == 0 {
        assert(b.subrange(start, start) =~= Seq::<u8>::empty());
    } else {
        let d = fs.drop_last();
        assert(w * (k - 1) + w == w * k) by (nonlinear_arith);
        assert(0 <= w * (k - 1)) by (nonlinear_arith)
            requires
                0 <= w,
                1 <= k,
        ;
        assert forall|j: int| 0 <= j < d.len() implies #[trigger] d[j] == b.subrange(
            start + w * j,
            start + w * j + w,
        ) by {
            assert(d[j] == fs[j]);
        }
        lemma_concat_chunks(b, d, w, start);
        assert(fs.last() == fs[k - 1]);
        assert(concat(fs) =~= b.subrange(start, start + w * k));
    }
}

/// Where each field starts, counted from the end of the header, is the length
/// of the fields before it, and those fields concatenate to the bytes between.
proof fn lemma_fields_prefix(b: Seq<u8>, n: int, i: int)
    requires
        1 <= n,
        0 <= i <= n,
        number_at(b, 4) == 4 * (n + 1),
        offsets_sorted(b, n),
    ensures
        prefix_len(fields_of(b, n), i) == offset_at(b, n, i) - 4 * (n + 1),
        concat(fields_of(b, n).take(i)) == b.subrange(4 * (n + 1), offset_at(b, n, i)),
    decreases i,
{
    let fs = fields_of(b, n);
    let h = 4 * (n + 1);
    lemma_sorted_offsets_bounded(b, n);
    assert(offset_at(b, n, 0) == h);
    if i == 0 {
        assert(fs.take(0) =~= Seq::<Seq<u8>>::empty());
        assert(b.subrange(h, h) =~= Seq::<u8>::empty());
    } else {
        lemma_fields_prefix(b, n, i - 1);
        lemma_concat_take_succ(fs, i - 1);
        assert(offset_at(b, n, i - 1) <= offset_at(b, n, i) <= b.len());
        assert(fs[i - 1] == field_at(b, n, i - 1));
        assert(b.subrange(h, offset_at(b, n, i - 1)) + b.subrange(offset_at(b, n, i - 1), offset_at(b, n, i))
            =~= b.subrange(h, offset_at(b, n, i)));
    }
}

/// A frame whose total size, first offset and order molecule accepts is the
/// frame of its own fields: writing those fields again gives back the bytes.
pub proof fn lemma_frame_canonical(b: Seq<u8>, n: int)
    requires
        1 <= n,
        number_at(b, 0) == b.len(),
        number_at(b, 4) == 4 * (n + 1),
        4 * (n + 1) <= b.len(),
        offsets_sorted(b, n),
    ensures
        table_bytes(fields_of(b, n)) == b,
{
    let fs = fields_of(b, n);
    let h = 4 * (n + 1);
    let len = b.len() as int;
    lemma_sorted_offsets_bounded(b, n);
    lemma_fields_prefix(b, n, n);
    assert(fs.take(n) =~= fs);
    assert(concat(fs) == b.subrange(h, len));
    let ns = table_header(fs);
    let chunks = Seq::new(ns.len(), |j: int| le_bytes(ns[j], 4));
    assert forall|j: int| 0 <= j < chunks.len() implies #[trigger] chunks[j] == b.subrange(4 * j, 4 * j + 4) by {
        lemma_le_bytes_of_value(b.subrange(4 * j, 4 * j + 4));
        if j == 0 {
            assert(ns[0] == number_at(b, 0));
        } else {
            lemma_fields_prefix(b, n, j - 1);
            assert(ns[j] == h + prefix_len(fs, j - 1));
            assert(ns[j] == number_at(b, 4 + 4 * (j - 1)));
        }
    }
    lemma_concat_chunks(b, chunks, 4, 0);
    assert(numbers_bytes(ns) == b.subrange(0, h));
    assert(b.subrange(0, h) + b.subrange(h, len) =~= b);
}

/// The frame of a table that molecule accepts is the frame of its fields.
pub proof fn lemma_table_canonical(name: Seq<char>, b: Seq<u8>, n: int)
    requires
        1 <= n,
        table_layout(name, b, n) == Ok::<(), SpecVerificationError>(()),
    ensures
        table_bytes(fields_of(b, n)) == b,
        forall|i: int| 0 <= i < n ==> #[trigger] fields_of(b, n)[i] == field_at(b, n, i),
{
    assert(number_at(b, 4) == 4 * (n + 1));
    lemma_frame_canonical(b, n);
}

/// The frame of a dynamic vector that molecule accepts is the frame of its items.
pub proof fn lemma_dynvec_canonical(name: Seq<char>, b: Seq<u8>, n: int)
    requires
        dynvec_layout(name, b) == Ok::<int, SpecVerificationError>(n),
    ensures
        table_bytes(fields_of(b, n)) == b,
        forall|i: int| 0 <= i < n ==> #[trigger] fields_of(b, n)[i] == field_at(b, n, i),
{
    if n == 0 {
        let fs = fields_of(b, 0);
        assert(fs =~= Seq::<Seq<u8>>::empty());
        let ns = table_header(fs);
        assert(ns =~= seq![4nat]);
        let chunks = Seq::new(ns.len(), |j: int| le_bytes(ns[j], 4));
        lemma_le_bytes_of_value(b.subrange(0, 4));
        assert(chunks[0] == b.subrange(0, 4));
        lemma_concat_chunks(b, chunks, 4, 0);
        assert(table_bytes(fs) =~= b);
    } else {
        assert(number_at(b, 4) == 4 * (n + 1));
        lemma_frame_canonical(b, n);
    }
}

} // verus!
