//! Laws of the access-unit splitter, stated and proved over the pure model
//! [`split_step`](crate::chunked_reader::split_step).

use vstd::prelude::*;

use crate::chunked_reader::split_step;
use crate::chunked_reader::starts_with_start_code;
use crate::chunked_reader::ByteSource;
use crate::chunked_reader::ChunkedError;
use crate::chunked_reader::ChunkedReader;
use crate::start_code::find_code3;
use crate::start_code::is_code3_at;
use crate::start_code::lemma_find_code3_first;
use crate::start_code::lemma_find_code3_none;
use crate::start_code::lemma_find_code3_some;
use crate::start_code::widen_code;

verus! {

/// One well-formed Annex-B access unit: it begins with a start code and
/// holds no further start code from offset 3 on.
pub open spec fn is_access_unit(s: Seq<u8>) -> bool {
    &&& starts_with_start_code(s)
    &&& find_code3(s, 3, s.len() as int) == None::<int>
}

/// The boundary between two adjacent units survives the splitter's one-byte
/// widening: when `s` ends in a zero byte, the unit after it must use the
/// four-byte start-code form, or that zero would be pulled into the next
/// unit's (widened) start code.
pub open spec fn cleanly_separated(s: Seq<u8>, t: Seq<u8>) -> bool {
    s.len() > 0 && s[s.len() - 1] == 0u8 && t.len() >= 3 ==> t[2] == 0u8
}

/// Concatenation of a list of byte sequences.
pub open spec fn concat_all(units: Seq<Seq<u8>>) -> Seq<u8>
    decreases units.len(),
{
    if units.len() == 0 {
        Seq::empty()
    } else {
        units[0] + concat_all(units.drop_first())
    }
}

/// All chunks that repeated splitting yields, when it ends cleanly at an
/// empty stream; `None` when some step fails.
pub open spec fn split_all(u: Seq<u8>, max: usize) -> Option<Seq<Seq<u8>>>
    decreases u.len(),
{
    if u.len() == 0 {
        Some(Seq::empty())
    } else {
        match split_step(u, max) {
            Ok(Some(c)) => {
                if 0 < c.len() <= u.len() {
                    match split_all(u.skip(c.len() as int), max) {
                        Some(rest) => Some(seq![c] + rest),
                        None => None,
                    }
                } else {
                    None
                }
            },
            _ => None,
        }
    }
}

/// A successful splitting step emits a nonempty chunk and consumes no more
/// than the stream holds.
pub proof fn lemma_split_step_chunk_len(u: Seq<u8>, max: usize, c: Seq<u8>)
    requires
        split_step(u, max) == Ok::<Option<Seq<u8>>, ChunkedError>(Some(c)),
    ensures
        0 < c.len() <= u.len(),
{
    if u.len() > 0 && starts_with_start_code(u) {
        match find_code3(u, 3, u.len() as int) {
            Some(i) => {
                lemma_find_code3_some(u, 3, u.len() as int, i);
            },
            None => (),
        }
    }
}

/// A final access unit lacking a subsequent start code is still emitted
/// whole once the stream ends, provided it fits below the buffer bound.
pub proof fn lemma_final_unit_emitted(u: Seq<u8>, max: usize)
    requires
        starts_with_start_code(u),
        find_code3(u, 3, u.len() as int) == None::<int>,
        u.len() < max,
    ensures
        split_step(u, max) == Ok::<Option<Seq<u8>>, ChunkedError>(Some(u)),
{
}

/// Splitting is delivery-size-independent.  The `ensures` of `next_chunk`
/// says its result equals `split_step` of the not-yet-emitted stream and
/// the maximum buffer size; so two readers over the same remaining stream
/// with the same maximum — whatever their sources' types and delivery
/// patterns, their page sizes, and their buffer fills — agree on the next
/// chunk, and on every chunk after it.
pub proof fn lemma_delivery_independent<S1: ByteSource, S2: ByteSource>(
    r1: &ChunkedReader<S1>,
    r2: &ChunkedReader<S2>,
)
    requires
        r1.unread() == r2.unread(),
        r1.spec_max() == r2.spec_max(),
    ensures
        split_step(r1.unread(), r1.spec_max()) == split_step(r2.unread(), r2.spec_max()),
        split_all(r1.unread(), r1.spec_max()) == split_all(r2.unread(), r2.spec_max()),
{
}

/// Splitting a unit off the front: when a well-formed access unit `s` that
/// fits in the buffer bound is followed by `t` (empty, or beginning with a
/// start code across a clean boundary), one splitting step emits exactly
/// `s`.
pub proof fn lemma_split_step_unit(s: Seq<u8>, t: Seq<u8>, max: usize)
    requires
        is_access_unit(s),
        t.len() == 0 ==> s.len() < max,
        t.len() > 0 ==> s.len() + 4 <= max,
        t.len() == 0 || (t.len() >= 3 && starts_with_start_code(t) && cleanly_separated(s, t)),
    ensures
        split_step(s + t, max) == Ok::<Option<Seq<u8>>, ChunkedError>(Some(s)),
{
    let c = s + t;
    let len: int = s.len() as int;
    assert(starts_with_start_code(c)) by {
        assert(c[0] == s[0] && c[1] == s[1] && c[2] == s[2]);
        if s.len() == 3 && t.len() >= 1 {
            assert(c[3] == t[0]);
        }
    }
    if t.len() == 0 {
        assert(c =~= s);
        lemma_find_code3_none(s, 3, len);
    } else {
        // No start-code pattern inside `s` or spanning the boundary.
        lemma_find_code3_none(s, 3, len);
        assert forall|j: int| 3 <= j < len implies !is_code3_at(c, j) by {
            if j + 3 <= len {
                assert(!is_code3_at(s, j));
                assert(c[j] == s[j] && c[j + 1] == s[j + 1] && c[j + 2] == s[j + 2]);
            } else if j == len - 2 {
                assert(c[j + 2] == t[0] && t[0] == 0u8);
            } else {
                assert(j == len - 1);
                assert(c[j + 2] == t[1] && t[1] == 0u8);
            }
        }
        if t[2] == 1u8 {
            // `t` begins with the three-byte form; the boundary byte before
            // it is not zero, so no widening happens.
            assert(is_code3_at(c, len));
            lemma_find_code3_first(c, 3, c.len() as int, len);
            assert(widen_code(c, 3, len) == len) by {
                assert(c[len - 1] == s[s.len() - 1]);
            }
            assert(c.take(len) =~= s);
        } else {
            // `t` begins with the four-byte form; the three-byte pattern
            // sits one byte in and widens back to the boundary.
            assert(t[0] == 0u8 && t[1] == 0u8 && t[2] == 0u8 && t[3] == 1u8);
            assert(is_code3_at(c, len + 1)) by {
                assert(c[len + 1] == t[1] && c[len + 2] == t[2] && c[len + 3] == t[3]);
            }
            assert(!is_code3_at(c, len)) by {
                assert(c[len + 2] == t[2]);
            }
            lemma_find_code3_first(c, 3, c.len() as int, len + 1);
            assert(widen_code(c, 3, len + 1) == len) by {
                assert(c[len] == t[0]);
            }
            assert(c.take(len) =~= s);
        }
    }
}

/// Any successful splitting step emits a prefix of the stream that itself
/// begins with a start code.
pub proof fn lemma_split_step_prefix(u: Seq<u8>, max: usize, c: Seq<u8>)
    requires
        split_step(u, max) == Ok::<Option<Seq<u8>>, ChunkedError>(Some(c)),
    ensures
        c == u.take(c.len() as int),
        starts_with_start_code(c),
{
    lemma_split_step_chunk_len(u, max, c);
    match find_code3(u, 3, u.len() as int) {
        Some(i) => {
            lemma_find_code3_some(u, 3, u.len() as int, i);
            let k = widen_code(u, 3, i);
            assert(c == u.take(k));
            assert(c.len() == k);
            assert(c =~= u.take(c.len() as int));
            // The chunk keeps the stream's own start code whole: a cut at
            // offset 3 into a four-byte start code cannot happen, because
            // the byte at offset 3 would have to be both one (the code's
            // last byte) and zero (the start of the next code or its
            // widening byte).
            if u[2] == 0u8 {
                assert(k >= 4) by {
                    if i == 3 {
                        assert(u[3] == 0u8);
                    }
                    if k == 3 && i == 4 {
                        assert(u[3] == 0u8);
                    }
                }
                assert(c[0] == 0u8 && c[1] == 0u8 && c[2] == 0u8 && c[3] == 1u8);
            } else {
                assert(c[0] == 0u8 && c[1] == 0u8 && c[2] == 1u8);
            }
        },
        None => {
            assert(c =~= u.take(c.len() as int));
        },
    }
}

/// Whatever splitting a whole stream yields, the chunks rejoin to exactly
/// the input stream and each begins with a start code: no byte is lost,
/// duplicated, or moved, and no chunk starts mid-unit.
pub proof fn lemma_split_all_rejoins(u: Seq<u8>, max: usize, chunks: Seq<Seq<u8>>)
    requires
        split_all(u, max) == Some(chunks),
    ensures
        concat_all(chunks) == u,
        forall|i: int| 0 <= i < chunks.len() ==> starts_with_start_code(#[trigger] chunks[i]),
    decreases u.len(),
{
    if u.len() == 0 {
        assert(concat_all(chunks) =~= u);
    } else {
        match split_step(u, max) {
            Ok(Some(c)) => {
                lemma_split_step_chunk_len(u, max, c);
                lemma_split_step_prefix(u, max, c);
                let rest_u = u.skip(c.len() as int);
                match split_all(rest_u, max) {
                    Some(rest) => {
                        lemma_split_all_rejoins(rest_u, max, rest);
                        assert(chunks == seq![c] + rest);
                        assert(chunks.drop_first() =~= rest);
                        assert(concat_all(chunks) == c + concat_all(rest));
                        assert(c + rest_u =~= u);
                        assert forall|i: int| 0 <= i < chunks.len() implies starts_with_start_code(
                            #[trigger] chunks[i],
                        ) by {
                            if i > 0 {
                                assert(chunks[i] == rest[i - 1]);
                            }
                        }
                    },
                    None => assert(false),
                }
            },
            _ => assert(false),
        }
    }
}

/// Exactness of the splitter: a stream that is the gapless concatenation of
/// well-formed access units — each fitting in the buffer bound, each
/// boundary clean — splits back into exactly those units: as many chunks as
/// units, each chunk one unit, and their concatenation the input stream.
pub proof fn lemma_split_exact(units: Seq<Seq<u8>>, max: usize)
    requires
        forall|i: int| 0 <= i < units.len() ==> is_access_unit(#[trigger] units[i]),
        forall|i: int| 0 <= i < units.len() - 1 ==> (#[trigger] units[i]).len() + 4 <= max,
        units.len() > 0 ==> units[units.len() - 1].len() < max,
        forall|i: int|
            0 <= i < units.len() - 1 ==> cleanly_separated(#[trigger] units[i], units[i + 1]),
    ensures
        split_all(concat_all(units), max) == Some(units),
    decreases units.len(),
{
    if units.len() == 0 {
        assert(concat_all(units).len() == 0);
        assert(split_all(concat_all(units), max) == Some(Seq::<Seq<u8>>::empty()));
        assert(Seq::<Seq<u8>>::empty() =~= units);
    } else {
        let s = units[0];
        let rest = units.drop_first();
        let t = concat_all(rest);
        assert(concat_all(units) == s + t);
        if rest.len() == 0 {
            assert(t.len() == 0);
        } else {
            // `t` begins with the next unit, so it begins with a start code
            // and inherits the clean boundary with `s`.
            assert(rest[0] == units[1]);
            assert(is_access_unit(rest[0]));
            assert(t == rest[0] + concat_all(rest.drop_first()));
            assert(rest[0].len() >= 3);
            assert(t[0] == rest[0][0] && t[1] == rest[0][1] && t[2] == rest[0][2]);
            if rest[0].len() >= 4 {
                assert(t[3] == rest[0][3]);
            }
            assert(starts_with_start_code(t));
            assert(cleanly_separated(units[0], units[1]));
            assert(cleanly_separated(s, t));
        }
        lemma_split_step_unit(s, t, max);
        assert(s.len() >= 3);
        assert((s + t).skip(s.len() as int) =~= t);
        assert forall|i: int| 0 <= i < rest.len() implies is_access_unit(#[trigger] rest[i]) by {
            assert(rest[i] == units[i + 1]);
        }
        assert forall|i: int| 0 <= i < rest.len() - 1 implies (#[trigger] rest[i]).len() + 4
            <= max by {
            assert(rest[i] == units[i + 1]);
        }
        assert(rest.len() > 0 ==> rest[rest.len() - 1] == units[units.len() - 1]);
        assert forall|i: int| 0 <= i < rest.len() - 1 implies cleanly_separated(
            #[trigger] rest[i],
            rest[i + 1],
        ) by {
            assert(rest[i] == units[i + 1] && rest[i + 1] == units[i + 2]);
        }
        lemma_split_exact(rest, max);
        assert(split_all(concat_all(units), max) == Some(seq![s] + rest));
        assert(seq![s] + rest =~= units);
    }
}

} // verus!
