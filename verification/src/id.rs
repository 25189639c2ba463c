//! Sandbox ids, and the eight bytes of one that its host resources are named after.

use crate::text::joined;
use vstd::prelude::*;
use vstd::string::*;
use vstd::utf8::*;

verus! {

/// Whether the first eight bytes of `id` are whole characters.
pub open spec fn has_short(id: Seq<char>) -> bool {
    is_char_boundary(encode_utf8(id), 8)
}

/// The characters in the first eight bytes of `id`.
pub open spec fn short(id: Seq<char>) -> Seq<char>
    recommends
        has_short(id),
{
    decode_utf8(encode_utf8(id).subrange(0, 8))
}

/// Whether `id` can name host resources: its first eight bytes are whole characters.
pub fn has_short_id(id: &str) -> (usable: bool)
    ensures
        usable == has_short(id@),
{
    id.is_char_boundary(8)
}

/// The first eight bytes of `id`.
pub fn short_id(id: &str) -> (text: &str)
    requires
        has_short(id@),
    ensures
        text@ == short(id@),
{
    let parts = id.split_at(8);
    proof {
        encode_utf8_decode_utf8(parts.0@);
    }
    parts.0
}

/// The short form of an id is the beginning of the id and takes eight bytes.
pub proof fn law_short_is_prefix(id: Seq<char>)
    requires
        has_short(id),
    ensures
        short(id).len() <= id.len(),
        short(id) == id.take(short(id).len() as int),
        encode_utf8(short(id)).len() == 8,
{
    let bytes = encode_utf8(id);
    encode_utf8_valid_utf8(id);
    encode_utf8_decode_utf8(id);
    decode_utf8_split(bytes, 8);
    valid_utf8_split(bytes, 8);
    lemma_boundary_in_range(bytes, 8);
    decode_utf8_encode_utf8(bytes.subrange(0, 8));
    let rest = decode_utf8(bytes.subrange(8, bytes.len() as int));
    assert(id =~= short(id) + rest);
    assert(short(id) =~= id.take(short(id).len() as int));
}

proof fn lemma_boundary_in_range(bytes: Seq<u8>, index: int)
    requires
        valid_utf8(bytes),
        is_char_boundary(bytes, index),
    ensures
        0 <= index <= bytes.len(),
{
}

/// An id of at least eight ASCII characters has a short form: its first eight characters.
pub proof fn law_short_of_ascii(id: Seq<char>)
    requires
        is_ascii_chars(id),
        id.len() >= 8,
    ensures
        has_short(id),
        short(id) == id.take(8),
{
    let bytes = encode_utf8(id);
    encode_utf8_valid_utf8(id);
    is_ascii_chars_encode_utf8(id);
    if id.len() == 8 {
        is_char_boundary_start_end_of_seq(bytes);
    } else {
        assert(bytes[8] == id[8] as u8);
        is_char_boundary_iff_not_is_continuation_byte(bytes, 8);
    }
    law_short_is_prefix(id);
    is_ascii_chars_encode_utf8(short(id));
}

/// Texts are encoded one after the other.
pub proof fn lemma_encode_concat(a: Seq<char>, b: Seq<char>)
    ensures
        encode_utf8(a + b) == encode_utf8(a) + encode_utf8(b),
    decreases a.len(),
{
    if a.len() == 0 {
        assert(a + b =~= b);
        assert(encode_utf8(a) + encode_utf8(b) =~= encode_utf8(b));
    } else {
        assert((a + b).drop_first() =~= a.drop_first() + b);
        lemma_encode_concat(a.drop_first(), b);
        assert(encode_utf8(a + b) =~= encode_utf8(a) + encode_utf8(b));
    }
}

/// Two ids with different short forms make different names of the form `<before><short><after>`.
pub proof fn law_names_differ(before: Seq<char>, a: Seq<char>, b: Seq<char>, after: Seq<char>)
    requires
        has_short(a),
        has_short(b),
        short(a) != short(b),
    ensures
        before + short(a) + after != before + short(b) + after,
{
    let p = before + short(a) + after;
    let q = before + short(b) + after;
    if p == q {
        let n = before.len() as int;
        assert(p.len() == q.len());
        assert(short(a) =~= p.subrange(n, n + short(a).len()));
        assert(short(b) =~= q.subrange(n, n + short(b).len()));
    }
}

/// Two ids with different short forms make different files `<short><after>` in a directory.
pub proof fn law_files_differ(dir: Seq<char>, a: Seq<char>, b: Seq<char>, after: Seq<char>)
    requires
        has_short(a),
        has_short(b),
        short(a) != short(b),
    ensures
        joined(dir, short(a) + after) != joined(dir, short(b) + after),
{
    let x = short(a) + after;
    let y = short(b) + after;
    law_short_is_prefix(a);
    law_short_is_prefix(b);
    lemma_encode_concat(short(a), after);
    lemma_encode_concat(short(b), after);
    law_names_differ(Seq::empty(), a, b, after);
    assert(Seq::<char>::empty() + short(a) + after =~= x);
    assert(Seq::<char>::empty() + short(b) + after =~= y);
    lemma_joined_differ(dir, x, y);
}

/// Different names of the same length in bytes make different paths.
pub proof fn lemma_joined_differ(dir: Seq<char>, x: Seq<char>, y: Seq<char>)
    requires
        encode_utf8(x).len() == encode_utf8(y).len(),
        x != y,
    ensures
        joined(dir, x) != joined(dir, y),
{
    reveal_strlit("/");
    let sep = if dir.len() == 0 || dir.last() == '/' {
        Seq::<char>::empty()
    } else {
        "/"@
    };
    let front = dir + sep;
    assert(dir + Seq::<char>::empty() =~= dir);
    lemma_encode_concat(front, x);
    lemma_encode_concat(front, y);
    if joined(dir, x) == joined(dir, y) {
        let x_absolute = x.len() > 0 && x[0] == '/';
        let y_absolute = y.len() > 0 && y[0] == '/';
        if !x_absolute && !y_absolute {
            assert(x =~= (front + x).skip(front.len() as int));
            assert(y =~= (front + y).skip(front.len() as int));
        } else if x_absolute && !y_absolute {
            lemma_encode_empty(front);
            assert(front + y =~= y);
        } else if y_absolute && !x_absolute {
            lemma_encode_empty(front);
            assert(front + x =~= x);
        }
    }
}

/// Only the empty text takes no bytes.
proof fn lemma_encode_empty(s: Seq<char>)
    ensures
        encode_utf8(s).len() == 0 ==> s.len() == 0,
{
}

/// An id has a short form exactly where some beginning of it takes eight bytes.
pub proof fn law_short_exists(id: Seq<char>)
    ensures
        has_short(id) <==> exists|n: int|
            0 <= n <= id.len() && encode_utf8(#[trigger] id.take(n)).len() == 8,
{
    if has_short(id) {
        law_short_is_prefix(id);
        assert(encode_utf8(id.take(short(id).len() as int)).len() == 8);
    }
    if exists|n: int| 0 <= n <= id.len() && encode_utf8(#[trigger] id.take(n)).len() == 8 {
        let n = choose|n: int|
            0 <= n <= id.len() && encode_utf8(#[trigger] id.take(n)).len() == 8;
        let a = id.take(n);
        let b = id.skip(n);
        assert(a + b =~= id);
        lemma_encode_concat(a, b);
        lemma_boundary_between(a, b);
    }
}

/// Between two texts there is a boundary of characters.
proof fn lemma_boundary_between(a: Seq<char>, b: Seq<char>)
    ensures
        is_char_boundary(encode_utf8(a + b), encode_utf8(a).len() as int),
{
    let bytes = encode_utf8(a + b);
    let at = encode_utf8(a).len() as int;
    lemma_encode_concat(a, b);
    encode_utf8_valid_utf8(a + b);
    encode_utf8_valid_utf8(b);
    is_char_boundary_start_end_of_seq(bytes);
    if 0 < at < bytes.len() {
        let rest = encode_utf8(b);
        assert(bytes[at] == rest[0]);
        is_char_boundary_start_end_of_seq(rest);
        is_char_boundary_iff_not_is_continuation_byte(rest, 0);
        is_char_boundary_iff_not_is_continuation_byte(bytes, at);
    }
}

} // verus!
