use vstd::prelude::*;
use vstd::string::StringSliceAdditionalSpecFns;

use crate::error::FileError;
use crate::geometry::mesh::Indices;

verus! {

/// The number a run of decimal digits denotes; `digits` holds characters.
pub open spec fn decimal(digits: Seq<u8>) -> int
    decreases digits.len(),
{
    if digits.len() == 0 {
        0
    } else {
        10 * decimal(digits.drop_last()) + (digits.last() - 0x30)
    }
}

/// Whether `text` is one or more decimal digits.
pub open spec fn is_digits(text: Seq<u8>) -> bool {
    &&& text.len() > 0
    &&& forall|i: int| 0 <= i < text.len() ==> 0x30 <= #[trigger] text[i] <= 0x39
}

/// `text` without one leading plus sign.
pub open spec fn unsigned_part(text: Seq<u8>) -> Seq<u8> {
    if text.len() > 0 && text[0] == 0x2b {
        text.drop_first()
    } else {
        text
    }
}

/// The zero-based index that `text` denotes in one-based notation: decimal
/// digits, optionally after a plus sign, for a number from one up to the
/// largest index. Anything else denotes no index.
pub open spec fn index_of(text: Seq<u8>) -> Option<usize> {
    let digits = unsigned_part(text);
    if is_digits(digits) && 1 <= decimal(digits) <= usize::MAX {
        Some((decimal(digits) - 1) as usize)
    } else {
        None
    }
}

/// A longer run of digits denotes a number at least as large.
proof fn lemma_decimal_grows(digits: Seq<u8>, upto: int)
    requires
        is_digits(digits),
        0 <= upto <= digits.len(),
    ensures
        0 <= decimal(digits.subrange(0, upto)) <= decimal(digits),
    decreases digits.len() - upto,
{
    let head = digits.subrange(0, upto);
    if upto == digits.len() {
        assert(head =~= digits);
        lemma_decimal_nonnegative(digits);
    } else {
        let longer = digits.subrange(0, upto + 1);
        lemma_decimal_grows(digits, upto + 1);
        assert(longer.drop_last() =~= head);
        lemma_decimal_nonnegative(head);
    }
}

proof fn lemma_decimal_nonnegative(digits: Seq<u8>)
    requires
        forall|i: int| 0 <= i < digits.len() ==> 0x30 <= #[trigger] digits[i] <= 0x39,
    ensures
        0 <= decimal(digits),
    decreases digits.len(),
{
    if digits.len() > 0 {
        lemma_decimal_nonnegative(digits.drop_last());
    }
}

/// Reads the one-based index written in `text[from..to]` and returns it
/// zero-based.
#[verifier::rlimit(50)]
fn parse_index(text: &[u8], from: usize, to: usize) -> (r: Result<usize, FileError>)
    requires
        from <= to <= text@.len(),
    ensures
        match r {
            Ok(index) => index_of(text@.subrange(from as int, to as int)) == Some(index),
            Err(e) => e is ParseInt && index_of(text@.subrange(from as int, to as int)) is None,
        },
{
    let ghost field = text@.subrange(from as int, to as int);
    let mut at = from;
    if at < to && text[at] == 0x2b {
        at += 1;
    }
    let ghost digits = text@.subrange(at as int, to as int);
    assert(digits =~= unsigned_part(field));
    if at == to {
        return Err(FileError::ParseInt);
    }
    let start = at;
    let mut value: usize = 0;
    while at < to
        invariant
            from <= start <= at <= to <= text@.len(),
            digits == text@.subrange(start as int, to as int),
            digits == unsigned_part(text@.subrange(from as int, to as int)),
            forall|i: int| 0 <= i < at - start ==> 0x30 <= #[trigger] digits[i] <= 0x39,
            value == decimal(digits.subrange(0, at - start)),
        decreases to - at,
    {
        let c = text[at];
        if c < 0x30 || c > 0x39 {
            assert(digits[at - start] == c);
            return Err(FileError::ParseInt);
        }
        let ghost longer = digits.subrange(0, at - start + 1);
        proof {
            assert(longer.drop_last() =~= digits.subrange(0, at - start));
            assert(longer.last() == c);
        }
        let next = match value.checked_mul(10) {
            Some(tens) => tens.checked_add((c - 0x30) as usize),
            None => None,
        };
        match next {
            Some(n) => {
                value = n;
            },
            None => {
                proof {
                    assert(decimal(longer) > usize::MAX);
                    if is_digits(digits) {
                        lemma_decimal_grows(digits, at - start + 1);
                    }
                }
                return Err(FileError::ParseInt);
            },
        }
        at += 1;
        assert(forall|i: int| 0 <= i < at - start ==> 0x30 <= #[trigger] digits[i] <= 0x39) by {
            assert(digits[at - 1 - start] == c);
        }
    }
    assert(digits.subrange(0, at - start) =~= digits);
    if value == 0 {
        return Err(FileError::ParseInt);
    }
    Ok(value - 1)
}

/// Finds where the field that starts at `from` ends: at the next `/`, or at
/// the end of `text`.
fn field_end(text: &[u8], from: usize) -> (end: usize)
    requires
        from <= text@.len(),
    ensures
        from <= end <= text@.len(),
        first_slash(text@.subrange(from as int, text@.len() as int)) == end - from,
        text@.subrange(from as int, text@.len() as int).subrange(0, end - from) == text@.subrange(
            from as int,
            end as int,
        ),
        after_slash(text@.subrange(from as int, text@.len() as int)) == (if end < text@.len() {
            Some(text@.subrange(end + 1, text@.len() as int))
        } else {
            None
        }),
{
    let mut end = from;
    while end < text.len() && text[end] != 0x2f
        invariant
            from <= end <= text@.len(),
            forall|i: int| from <= i < end ==> text@[i] != 0x2f,
        decreases text@.len() - end,
    {
        end += 1;
    }
    proof {
        let rest = text@.subrange(from as int, text@.len() as int);
        lemma_first_slash(rest, end - from);
        assert(rest.subrange(0, end - from) =~= text@.subrange(from as int, end as int));
        if end < text@.len() {
            assert(rest.subrange(end - from + 1, rest.len() as int) =~= text@.subrange(
                end + 1,
                text@.len() as int,
            ));
        }
    }
    end
}

/// The `k`-th of the fields that the slashes of `text` separate, or `None`
/// when there are fewer.
pub open spec fn field(text: Seq<u8>, k: nat) -> Option<Seq<u8>>
    decreases k,
{
    if k == 0 {
        Some(text.subrange(0, first_slash(text)))
    } else {
        match after_slash(text) {
            Some(rest) => field(rest, (k - 1) as nat),
            None => None,
        }
    }
}

/// What follows the first `/` of `text`, or `None` when there is no slash.
pub open spec fn after_slash(text: Seq<u8>) -> Option<Seq<u8>>
    decreases text.len(),
{
    if text.len() == 0 {
        None
    } else if text[0] == 0x2f {
        Some(text.drop_first())
    } else {
        after_slash(text.drop_first())
    }
}

/// Position of the first `/` of `text`, or its length when there is none.
pub open spec fn first_slash(text: Seq<u8>) -> int
    decreases text.len(),
{
    if text.len() == 0 || text[0] == 0x2f {
        0
    } else {
        1 + first_slash(text.drop_first())
    }
}

proof fn lemma_first_slash(text: Seq<u8>, end: int)
    requires
        0 <= end <= text.len(),
        forall|i: int| 0 <= i < end ==> text[i] != 0x2f,
        end < text.len() ==> text[end] == 0x2f,
    ensures
        first_slash(text) == end,
        after_slash(text) == (if end < text.len() {
            Some(text.subrange(end + 1, text.len() as int))
        } else {
            None
        }),
    decreases end,
{
    if end > 0 {
        lemma_first_slash(text.drop_first(), end - 1);
        if end < text.len() {
            assert(text.drop_first().subrange(end, text.len() - 1) =~= text.subrange(
                end + 1,
                text.len() as int,
            ));
        }
    } else if end < text.len() {
        assert(text.drop_first() =~= text.subrange(1, text.len() as int));
    }
}

/// What a face corner adds to the index streams. `v`, `uv` and `n` are the
/// first three fields of the corner in the notation `v/uv/n`; an absent or
/// empty second or third field adds nothing to its stream.
pub open spec fn corner_indices(corner: Seq<u8>) -> Option<(usize, Option<usize>, Option<usize>)> {
    let v = index_of(field(corner, 0)->0);
    let uv = field(corner, 1);
    let n = field(corner, 2);
    let has_uv = uv is Some && uv->0.len() > 0;
    let has_n = n is Some && n->0.len() > 0;
    if v is None || (has_uv && index_of(uv->0) is None) || (has_n && index_of(n->0) is None) {
        None
    } else {
        Some(
            (
                v->0,
                if has_uv {
                    index_of(uv->0)
                } else {
                    None
                },
                if has_n {
                    index_of(n->0)
                } else {
                    None
                },
            ),
        )
    }
}

/// What a malformed face corner leaves in the streams: the indices of the
/// fields that come before the first malformed one. `None` stands for a
/// malformed position, after which nothing has been added.
pub open spec fn corner_read_before_failure(corner: Seq<u8>) -> Option<(usize, Option<usize>)> {
    let v = index_of(field(corner, 0)->0);
    let uv = field(corner, 1);
    let has_uv = uv is Some && uv->0.len() > 0;
    if v is None {
        None
    } else if has_uv {
        Some((v->0, index_of(uv->0)))
    } else {
        Some((v->0, None))
    }
}

/// The index streams after the corner `(v, uv, n)` has been added.
pub open spec fn with_corner(
    before: Indices,
    after: Indices,
    corner: (usize, Option<usize>, Option<usize>),
) -> bool {
    &&& after.v@ == before.v@.push(corner.0)
    &&& after.uv@ == (match corner.1 {
        Some(uv) => before.uv@.push(uv),
        None => before.uv@,
    })
    &&& after.n@ == (match corner.2 {
        Some(n) => before.n@.push(n),
        None => before.n@,
    })
}

/// Reads the face corner `parts[0]`, written `v`, `v/uv`, `v//n` or
/// `v/uv/n` with one-based indices, and appends its zero-based indices to
/// the streams. On a malformed index the call fails with
/// [`FileError::ParseInt`]; indices read before the malformed one stay in
/// the streams, see [`corner_read_before_failure`].
#[verifier::rlimit(50)]
pub fn parse_indices(parts: &[&str], indices: &mut Indices) -> (r: Result<(), FileError>)
    requires
        parts@.len() >= 1,
    ensures
        match r {
            Ok(()) => {
                &&& corner_indices(parts@[0].spec_bytes()) is Some
                &&& with_corner(
                    *old(indices),
                    *final(indices),
                    corner_indices(parts@[0].spec_bytes())->0,
                )
            },
            Err(e) => {
                &&& e is ParseInt
                &&& corner_indices(parts@[0].spec_bytes()) is None
                &&& match corner_read_before_failure(parts@[0].spec_bytes()) {
                    Some((v, uv)) => with_corner(*old(indices), *final(indices), (v, uv, None)),
                    None => {
                        &&& final(indices).v@ == old(indices).v@
                        &&& final(indices).uv@ == old(indices).uv@
                        &&& final(indices).n@ == old(indices).n@
                    },
                }
            },
        },
{
    let text = parts[0].as_bytes();
    let len = text.len();
    proof {
        reveal_with_fuel(field, 3);
        assert(text@.subrange(0, len as int) =~= text@);
    }
    let end0 = field_end(text, 0);
    let v = match parse_index(text, 0, end0) {
        Ok(v) => v,
        Err(e) => {
            return Err(e);
        },
    };
    indices.push_v_index(v);
    if end0 == len {
        return Ok(());
    }
    let end1 = field_end(text, end0 + 1);
    if end1 > end0 + 1 {
        let uv = match parse_index(text, end0 + 1, end1) {
            Ok(uv) => uv,
            Err(e) => {
                return Err(e);
            },
        };
        indices.push_uv_index(uv);
    }
    if end1 == len {
        return Ok(());
    }
    let end2 = field_end(text, end1 + 1);
    if end2 > end1 + 1 {
        let n = match parse_index(text, end1 + 1, end2) {
            Ok(n) => n,
            Err(e) => {
                return Err(e);
            },
        };
        indices.push_n_index(n);
    }
    Ok(())
}

/// Whether `extension` is the extension of a mesh file that can be read:
/// the three characters `obj`.
pub open spec fn is_obj_extension(extension: Seq<u8>) -> bool {
    extension == seq![0x6fu8, 0x62u8, 0x6au8]
}

/// Decides by the extension of a file whether it is read as a mesh. A file
/// without extension is rejected with [`FileError::Invalid`], one with
/// another extension than `obj` with [`FileError::WrongFile`].
pub fn check_extension(extension: Option<&str>) -> (r: Result<(), FileError>)
    ensures
        match extension {
            None => r matches Err(e) && e is Invalid,
            Some(text) => if is_obj_extension(text.spec_bytes()) {
                r is Ok
            } else {
                r matches Err(FileError::WrongFile(message)) && message@
                    == "Wrong extension, expected .obj"@
            },
        },
{
    match extension {
        None => Err(FileError::Invalid),
        Some(text) => {
            let bytes = text.as_bytes();
            if bytes.len() == 3 && bytes[0] == 0x6f && bytes[1] == 0x62 && bytes[2] == 0x6a {
                assert(bytes@ =~= seq![0x6fu8, 0x62u8, 0x6au8]);
                Ok(())
            } else {
                Err(FileError::WrongFile("Wrong extension, expected .obj".to_owned()))
            }
        },
    }
}

} // verus!
