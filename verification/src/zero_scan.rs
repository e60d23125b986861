//! Byte runs and their first zero byte, which ends a frame and a command.

use vstd::prelude::*;

verus! {

/// Index of the first zero byte of `s`, or its length when it holds none.
pub open spec fn first_zero(s: Seq<u8>) -> nat
    decreases s.len(),
{
    if s.len() == 0 || s[0] == 0 {
        0
    } else {
        1 + first_zero(s.drop_first())
    }
}

/// `s` holds no zero byte.
pub open spec fn zero_free(s: Seq<u8>) -> bool {
    forall|i: int| 0 <= i < s.len() ==> s[i] != 0
}

/// `s` from index `from` on is zero.
pub open spec fn zero_from(s: Seq<u8>, from: nat) -> bool {
    forall|i: int| from <= i < s.len() ==> s[i] == 0
}

/// `frame` with zeros behind it up to `length` bytes in all.
pub open spec fn padded(frame: Seq<u8>, length: nat) -> Seq<u8> {
    Seq::new(
        length,
        |i: int|
            if i < frame.len() {
                frame[i]
            } else {
                0u8
            },
    )
}

/// `first_zero(s)` is a position in `s` or its length, no byte before it is
/// zero, and the byte at it, if there is one, is zero.
pub proof fn lemma_first_zero(s: Seq<u8>)
    ensures
        first_zero(s) <= s.len(),
        zero_free(s.take(first_zero(s) as int)),
        first_zero(s) < s.len() ==> s[first_zero(s) as int] == 0,
    decreases s.len(),
{
    if s.len() == 0 || s[0] == 0 {
    } else {
        let rest = s.drop_first();
        lemma_first_zero(rest);
        let k = first_zero(rest);
        let head = s.take(1 + k as int);
        assert forall|i: int| 0 <= i < head.len() implies head[i] != 0 by {
            if i > 0 {
                assert(rest.take(k as int)[i - 1] == s[i]);
            }
        }
    }
}

/// The three facts of `lemma_first_zero` hold of no other number.
pub proof fn lemma_first_zero_unique(s: Seq<u8>, k: nat)
    requires
        k <= s.len(),
        zero_free(s.take(k as int)),
        k < s.len() ==> s[k as int] == 0,
    ensures
        k == first_zero(s),
{
    lemma_first_zero(s);
    let f = first_zero(s);
    if f < k {
        assert(s.take(k as int)[f as int] == s[f as int]);
    } else if k < f {
        assert(s.take(f as int)[k as int] == s[k as int]);
    }
}

/// The first zero byte of a prefix is that of the whole, if the prefix holds
/// it, and else the end of the prefix.
pub proof fn lemma_first_zero_take(s: Seq<u8>, length: nat)
    requires
        length <= s.len(),
    ensures
        first_zero(s.take(length as int)) == if first_zero(s) < length {
            first_zero(s)
        } else {
            length
        },
{
    lemma_first_zero(s);
    let head = s.take(length as int);
    let k = if first_zero(s) < length {
        first_zero(s)
    } else {
        length
    };
    assert(zero_free(head.take(k as int))) by {
        assert(head.take(k as int) =~= s.take(k as int));
        assert(s.take(k as int) =~= s.take(first_zero(s) as int).take(k as int));
    }
    lemma_first_zero_unique(head, k);
}

/// The first zero byte of a run that zeros follow is that of the run, or its
/// end.
pub proof fn lemma_first_zero_padded(s: Seq<u8>, length: nat)
    requires
        length < s.len(),
        zero_from(s, length),
    ensures
        first_zero(s) == first_zero(s.take(length as int)),
{
    let head = s.take(length as int);
    lemma_first_zero(head);
    let k = first_zero(head);
    assert forall|i: int| 0 <= i < k implies s.take(k as int)[i] != 0 by {
        assert(head.take(k as int)[i] == head[i]);
    }
    lemma_first_zero_unique(s, k);
}

/// Zeros behind a run do not move its first zero byte, and what lies before
/// that byte is the same with them and without.
pub proof fn lemma_first_zero_of_padded(frame: Seq<u8>, length: nat)
    requires
        frame.len() <= length,
    ensures
        first_zero(padded(frame, length)) == first_zero(frame),
        padded(frame, length).take(first_zero(frame) as int) == frame.take(
            first_zero(frame) as int,
        ),
{
    let whole = padded(frame, length);
    lemma_first_zero(frame);
    assert(whole.take(frame.len() as int) =~= frame);
    if frame.len() < length {
        lemma_first_zero_padded(whole, frame.len());
    } else {
        assert(whole =~= frame);
    }
    assert(whole.take(first_zero(frame) as int) =~= frame.take(first_zero(frame) as int));
}

/// The first zero byte of a run that holds none is its end.
pub proof fn lemma_first_zero_of_zero_free(s: Seq<u8>)
    requires
        zero_free(s),
    ensures
        first_zero(s) == s.len(),
{
    lemma_first_zero_unique(s, s.len());
}

/// Part of a run without a zero byte holds none, and neither does the run
/// with such a part behind it.
pub proof fn lemma_zero_free_concat(first: Seq<u8>, second: Seq<u8>)
    ensures
        zero_free(first + second) <==> zero_free(first) && zero_free(second),
{
    let both = first + second;
    if zero_free(both) {
        assert forall|i: int| 0 <= i < first.len() implies first[i] != 0 by {
            assert(both[i] == first[i]);
        }
        assert forall|i: int| 0 <= i < second.len() implies second[i] != 0 by {
            assert(both[first.len() + i] == second[i]);
        }
    }
}

} // verus!
