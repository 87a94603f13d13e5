//! Peers, known by the notation of their ids.
use crate::collections::Key;
use crate::primitives::{parse_peer_id, peer_id_reading};
use crate::text::{same_text, starts_with, strip_prefix_text};
use vstd::prelude::*;
use vstd::utf8::{
    decode_utf8, encode_utf8, encode_utf8_decode_utf8, is_ascii_chars, is_ascii_chars_encode_utf8,
    is_char_boundary, is_char_boundary_iff_not_is_continuation_byte,
    is_char_boundary_start_end_of_seq, encode_utf8_valid_utf8,
};

verus! {

/// The id without the prefix that all ids of one kind share.
pub open spec fn without_common_prefix(id: Seq<char>) -> Seq<char> {
    if starts_with(id, "12D3KooW"@) {
        id.skip("12D3KooW"@.len() as int)
    } else {
        id
    }
}

/// How many bytes of an id are shown.
pub open spec fn shown_len(id: Seq<char>) -> int {
    let bytes = encode_utf8(without_common_prefix(id));
    if bytes.len() < 8 {
        bytes.len() as int
    } else {
        8
    }
}

/// Eight bytes are a whole number of characters.
pub open spec fn has_short_name(id: Seq<char>) -> bool {
    is_char_boundary(encode_utf8(without_common_prefix(id)), shown_len(id))
}

/// The eight bytes of an id that are shown to users.
pub open spec fn short_name(id: Seq<char>) -> Seq<char> {
    decode_utf8(encode_utf8(without_common_prefix(id)).take(shown_len(id)))
}

/// In an id of ASCII characters the shown bytes are characters.
pub proof fn lemma_short_name_of_ascii(id: Seq<char>)
    requires
        is_ascii_chars(id),
    ensures
        has_short_name(id),
        short_name(id) == without_common_prefix(id).take(shown_len(id)),
{
    let t = without_common_prefix(id);
    assert(is_ascii_chars(t));
    let bytes = encode_utf8(t);
    is_ascii_chars_encode_utf8(t);
    encode_utf8_valid_utf8(t);
    let n = shown_len(id);
    let head = t.take(n);
    assert(is_ascii_chars(head));
    is_ascii_chars_encode_utf8(head);
    assert(encode_utf8(head) =~= bytes.take(n));
    encode_utf8_decode_utf8(head);
    is_char_boundary_start_end_of_seq(bytes);
    if n < bytes.len() {
        is_char_boundary_iff_not_is_continuation_byte(bytes, n);
        assert(bytes[n] == t[n] as u8);
    }
}

/// Whether `short_id` has an answer for this text.
pub fn has_short_id(peer_id: &str) -> (r: bool)
    ensures
        r == has_short_name(peer_id@),
{
    let stripped = match strip_prefix_text(peer_id, "12D3KooW") {
        Some(s) => s,
        None => peer_id.to_owned(),
    };
    let s = stripped.as_str();
    let len: usize = s.as_bytes().len();
    assert(s@ == without_common_prefix(peer_id@));
    if len < 8 {
        s.is_char_boundary(len)
    } else {
        s.is_char_boundary(8)
    }
}

/// The part of a peer's id that is shown in logs.
pub fn short_id(peer_id: &str) -> (r: String)
    requires
        has_short_name(peer_id@),
    ensures
        r@ == short_name(peer_id@),
{
    let stripped = match strip_prefix_text(peer_id, "12D3KooW") {
        Some(s) => s,
        None => peer_id.to_owned(),
    };
    let s = stripped.as_str();
    let len: usize = s.as_bytes().len();
    let n: usize = if len < 8 {
        len
    } else {
        8
    };
    assert(s@ == without_common_prefix(peer_id@));
    assert(n == shown_len(peer_id@));
    let (head, _) = s.split_at(n);
    proof {
        encode_utf8_decode_utf8(head@);
        assert(encode_utf8(s@).take(n as int) =~= encode_utf8(s@).subrange(0, n as int));
    }
    head.to_owned()
}

/// The canonical notation of the id that a text denotes.
pub open spec fn peer_id_notation(text: Seq<char>) -> Option<Seq<char>> {
    match peer_id_reading(text) {
        Ok(id) => Some(id),
        Err(_) => None,
    }
}

/// The id of a peer, in its canonical notation.
#[derive(Debug)]
pub struct PeerId {
    text: String,
}

impl View for PeerId {
    type V = Seq<char>;

    closed spec fn view(&self) -> Seq<char> {
        self.text@
    }
}

impl Clone for PeerId {
    fn clone(&self) -> (r: Self)
        ensures
            r@ == self@,
    {
        proof {
            use_type_invariant(self);
        }
        PeerId { text: self.text.clone() }
    }
}

impl Key for PeerId {
    fn same(&self, other: &Self) -> (r: bool) {
        same_text(self.text.as_str(), other.text.as_str())
    }
}

impl PeerId {
    /// Ids are written in ASCII.
    #[verifier::type_invariant]
    spec fn ascii(self) -> bool {
        is_ascii_chars(self.text@)
    }

    /// The peer that a notation denotes, or what is wrong with the notation.
    pub fn read(text: &str) -> (r: Result<PeerId, String>)
        ensures
            match r {
                Ok(id) => peer_id_reading(text@) == Ok::<Seq<char>, Seq<char>>(id@)
                    && is_ascii_chars(text@),
                Err(fault) => peer_id_reading(text@) == Err::<Seq<char>, Seq<char>>(fault@),
            },
    {
        match parse_peer_id(text) {
            Ok(id) => Ok(PeerId { text: id }),
            Err(fault) => Err(fault),
        }
    }

    /// The peer that a notation denotes.
    pub fn parse(text: &str) -> (r: Option<PeerId>)
        ensures
            r is Some <==> peer_id_notation(text@) is Some,
            r matches Some(id) ==> peer_id_notation(text@) == Some(id@) && is_ascii_chars(text@),
    {
        match PeerId::read(text) {
            Ok(id) => Some(id),
            Err(_) => None,
        }
    }

    pub fn as_str(&self) -> (r: &str)
        ensures
            r@ == self@,
            is_ascii_chars(r@),
    {
        proof {
            use_type_invariant(self);
        }
        self.text.as_str()
    }

    pub fn to_text(&self) -> (r: String)
        ensures
            r@ == self@,
    {
        self.text.clone()
    }

    /// The part of the id that is shown in logs.
    pub fn short(&self) -> (r: String)
        ensures
            r@ == short_name(self@),
    {
        proof {
            use_type_invariant(self);
            lemma_short_name_of_ascii(self@);
        }
        short_id(self.text.as_str())
    }
}

/// What is shown of an id of the usual kind are the eight characters behind what all such
/// ids begin with.
pub proof fn law_short_name_is_telling(id: Seq<char>)
    requires
        is_ascii_chars(id),
        id.len() >= 16,
        id.take(8) == "12D3KooW"@,
    ensures
        short_name(id) == id.subrange(8, 16),
{
    reveal_strlit("12D3KooW");
    lemma_short_name_of_ascii(id);
    assert(id.subrange(0, 8) =~= id.take(8));
    let rest = without_common_prefix(id);
    assert(rest =~= id.skip(8));
    assert(is_ascii_chars(rest)) by {
        assert forall|i: int| 0 <= i < rest.len() implies '\0' <= #[trigger] rest[i] <= '\u{7f}' by {
            assert(rest[i] == id[i + 8]);
        }
    }
    is_ascii_chars_encode_utf8(rest);
    assert(rest.take(8) =~= id.subrange(8, 16));
}

/// Of an id of another kind the first eight characters are shown, and all of a short one.
/// Every id of ASCII characters can be shown.
pub proof fn law_other_ids_are_shown_too(id: Seq<char>)
    requires
        is_ascii_chars(id),
        id.len() < 8 || id.take(8) != "12D3KooW"@,
    ensures
        has_short_name(id),
        id.len() >= 8 ==> short_name(id) == id.take(8),
        id.len() < 8 ==> short_name(id) == id,
{
    reveal_strlit("12D3KooW");
    lemma_short_name_of_ascii(id);
    assert(without_common_prefix(id) == id) by {
        if id.len() >= 8 {
            assert(id.subrange(0, 8) =~= id.take(8));
        }
    }
    is_ascii_chars_encode_utf8(id);
    if id.len() < 8 {
        assert(id.take(id.len() as int) =~= id);
    }
}

/// A text denotes a peer exactly if it can be read as an id, and then the peer of that id.
pub proof fn law_ids_denote_peers(text: Seq<char>)
    ensures
        peer_id_reading(text) matches Ok(id) ==> peer_id_notation(text) == Some(id),
        peer_id_reading(text) is Err ==> peer_id_notation(text) is None,
{
}

} // verus!
