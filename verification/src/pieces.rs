//! Byte strings cut into pieces of one length.
use crate::vault::{byte_strings, concatenation};
use vstd::prelude::*;
use vstd::slice::{slice_subrange, slice_to_vec};

verus! {

/// The pieces of a byte string: all of length `size` but the last, which is not
/// empty.
pub open spec fn pieces(data: Seq<u8>, size: nat) -> Seq<Seq<u8>>
    decreases data.len(),
{
    if data.len() == 0 || size == 0 {
        Seq::empty()
    } else if data.len() <= size {
        seq![data]
    } else {
        seq![data.take(size as int)] + pieces(data.skip(size as int), size)
    }
}

proof fn lemma_concatenation_front(first: Seq<u8>, rest: Seq<Seq<u8>>)
    ensures
        concatenation(seq![first] + rest) == first + concatenation(rest),
    decreases rest.len(),
{
    let all = seq![first] + rest;
    if rest.len() == 0 {
        assert(all.drop_last() =~= Seq::empty());
        assert(all.last() == first);
        assert(concatenation(all.drop_last()) =~= Seq::empty());
        assert(concatenation(all) =~= first + concatenation(rest));
    } else {
        lemma_concatenation_front(first, rest.drop_last());
        assert(all.drop_last() =~= seq![first] + rest.drop_last());
        assert(all.last() == rest.last());
        assert(concatenation(all) =~= first + concatenation(rest));
    }
}

/// The pieces put one after another are the whole, and none is empty or too
/// long.
pub proof fn law_pieces_make_up_the_whole(data: Seq<u8>, size: nat)
    requires
        size > 0,
    ensures
        concatenation(pieces(data, size)) == data,
        forall|i: int|
            0 <= i < pieces(data, size).len() ==> 0 < (#[trigger] pieces(data, size)[i]).len()
                <= size,
    decreases data.len(),
{
    if data.len() == 0 {
    } else if data.len() <= size {
        lemma_concatenation_front(data, Seq::empty());
        assert(seq![data] + Seq::<Seq<u8>>::empty() =~= seq![data]);
        assert(data + Seq::<u8>::empty() =~= data);
    } else {
        let rest = data.skip(size as int);
        law_pieces_make_up_the_whole(rest, size);
        lemma_concatenation_front(data.take(size as int), pieces(rest, size));
        assert(data.take(size as int) + rest =~= data);
        let all = pieces(data, size);
        assert forall|i: int| 0 <= i < all.len() implies 0 < (#[trigger] all[i]).len() <= size by {
            if i > 0 {
                assert(all[i] == pieces(rest, size)[i - 1]);
            }
        }
    }
}

/// Cuts a byte string into pieces.
pub fn cut(data: &[u8], size: usize) -> (r: Vec<Vec<u8>>)
    requires
        size > 0,
    ensures
        byte_strings(r@) == pieces(data@, size as nat),
{
    let mut out: Vec<Vec<u8>> = Vec::new();
    let mut at: usize = 0;
    assert(data@.skip(0) =~= data@);
    assert(byte_strings(out@) + pieces(data@.skip(0), size as nat) =~= pieces(data@, size as nat));
    while at < data.len()
        invariant
            size > 0,
            at <= data@.len(),
            byte_strings(out@) + pieces(data@.skip(at as int), size as nat) == pieces(
                data@,
                size as nat,
            ),
        decreases data.len() - at,
    {
        let ghost before = byte_strings(out@);
        let ghost rest = data@.skip(at as int);
        if data.len() - at <= size {
            out.push(slice_to_vec(slice_subrange(data, at, data.len())));
            proof {
                assert(data@.subrange(at as int, data@.len() as int) =~= rest);
                assert(byte_strings(out@) =~= before.push(rest));
                assert(before.push(rest) =~= before + seq![rest]);
                assert(data@.skip(data@.len() as int) =~= Seq::empty());
                assert(byte_strings(out@) + Seq::<Seq<u8>>::empty() =~= byte_strings(out@));
            }
            at = data.len();
        } else {
            out.push(slice_to_vec(slice_subrange(data, at, at + size)));
            proof {
                let piece = rest.take(size as int);
                assert(data@.subrange(at as int, at + size) =~= piece);
                assert(rest.skip(size as int) =~= data@.skip(at + size));
                assert(byte_strings(out@) =~= before.push(piece));
                let tail = pieces(data@.skip(at + size), size as nat);
                assert(before + (seq![piece] + tail) =~= before.push(piece) + tail);
            }
            at = at + size;
        }
    }
    assert(data@.skip(at as int) =~= Seq::empty());
    assert(byte_strings(out@) + Seq::<Seq<u8>>::empty() =~= byte_strings(out@));
    out
}

} // verus!
