//! Splitting a text into lines: at each line feed, with a carriage return just before the
//! line feed dropped, and no empty line after a final line feed.

use vstd::prelude::*;
use vstd::string::StringSliceAdditionalSpecFns;
use vstd::utf8::{
    char_is_scalar, char_u32_cast, encode_scalar, encode_utf8, encode_utf8_decode_utf8,
    encode_utf8_first_scalar, encode_utf8_valid_utf8, has_width_1_encoding, is_char_boundary,
    length_of_first_scalar, pop_first_scalar,
};

verus! {

/// The position of the first line feed of `s`, or its length when it has none.
pub open spec fn newline_index(s: Seq<char>) -> nat
    decreases s.len(),
{
    if s.len() == 0 {
        0
    } else if s[0] == '\n' {
        0
    } else {
        1 + newline_index(s.drop_first())
    }
}

/// A line without the carriage return it ends with, if it ends with one.
pub open spec fn strip_carriage_return(line: Seq<char>) -> Seq<char> {
    if line.len() > 0 && line.last() == '\r' {
        line.drop_last()
    } else {
        line
    }
}

/// The lines of `s`: the text up to each line feed, without a carriage return just before
/// the line feed, then the text after the last line feed when it is not empty.
pub open spec fn lines_of(s: Seq<char>) -> Seq<Seq<char>>
    decreases s.len(),
{
    if s.len() == 0 {
        Seq::empty()
    } else {
        let e = newline_index(s);
        if e < s.len() {
            seq![strip_carriage_return(s.take(e as int))] + lines_of(s.skip((e + 1) as int))
        } else {
            seq![s]
        }
    }
}

/// The first line feed of `s` is at `newline_index(s)`: nothing before it is a line feed.
proof fn lemma_newline_index(s: Seq<char>)
    ensures
        newline_index(s) <= s.len(),
        !s.take(newline_index(s) as int).contains('\n'),
        newline_index(s) < s.len() ==> s[newline_index(s) as int] == '\n',
    decreases s.len(),
{
    if s.len() > 0 && s[0] != '\n' {
        let r = s.drop_first();
        lemma_newline_index(r);
        let e = newline_index(s);
        assert forall|k: int| 0 <= k < e implies s.take(e as int)[k] != '\n' by {
            if k > 0 {
                assert(s.take(e as int)[k] == r.take(newline_index(r) as int)[k - 1]);
            }
        }
    } else {
        assert(s.take(0) =~= Seq::<char>::empty());
    }
}

/// The encoding of two texts one after the other is the two encodings one after the other.
proof fn lemma_encode_concat(a: Seq<char>, b: Seq<char>)
    ensures
        encode_utf8(a + b) == encode_utf8(a) + encode_utf8(b),
    decreases a.len(),
{
    if a.len() == 0 {
        assert(a + b =~= b);
        assert(encode_utf8(a) =~= Seq::<u8>::empty());
        assert(encode_utf8(a) + encode_utf8(b) =~= encode_utf8(b));
    } else {
        lemma_encode_concat(a.drop_first(), b);
        assert((a + b).drop_first() =~= a.drop_first() + b);
        assert((a + b)[0] == a[0]);
        assert(encode_utf8(a + b) =~= encode_scalar(a[0] as u32) + encode_utf8(a.drop_first() + b));
        assert(encode_utf8(a) + encode_utf8(b) =~= encode_scalar(a[0] as u32) + (encode_utf8(
            a.drop_first(),
        ) + encode_utf8(b)));
    }
}

/// A character below 0x80 is encoded as that one byte; every byte of the encoding of any
/// other character is at least 0x80.
proof fn lemma_scalar_bytes(c: char)
    ensures
        has_width_1_encoding(c as u32) ==> encode_scalar(c as u32) == seq![(c as u32) as u8]
            && ((c as u32) as u8) as u32 == c as u32,
        !has_width_1_encoding(c as u32) ==> forall|k: int|
            0 <= k < encode_scalar(c as u32).len() ==> #[trigger] encode_scalar(c as u32)[k] >= 0x80,
{
    char_is_scalar(c);
    let v = c as u32;
    if has_width_1_encoding(v) {
        assert((v & 0x7F) as u8 == v as u8 && (v as u8) as u32 == v) by (bit_vector)
            requires
                v <= 0x7F,
        ;
    } else {
        assert(0xC0 | ((v >> 6) & 0x1F) as u8 >= 0x80) by (bit_vector);
        assert(0xE0 | ((v >> 12) & 0x0F) as u8 >= 0x80) by (bit_vector);
        assert(0xF0 | ((v >> 18) & 0x7) as u8 >= 0x80) by (bit_vector);
        assert(0x80 | (v & 0x3F) as u8 >= 0x80) by (bit_vector);
        assert(0x80 | ((v >> 6) & 0x3F) as u8 >= 0x80) by (bit_vector);
        assert(0x80 | ((v >> 12) & 0x3F) as u8 >= 0x80) by (bit_vector);
    }
}

/// Encoding a single character gives the encoding of that character.
proof fn lemma_encode_single(c: char)
    ensures
        encode_utf8(seq![c]) == encode_scalar(c as u32),
{
    let one = seq![c];
    assert(one.drop_first() =~= Seq::<char>::empty());
    assert(one[0] == c);
    assert(encode_utf8(one.drop_first()) =~= Seq::<u8>::empty());
    assert(encode_utf8(one) == encode_scalar(one[0] as u32) + encode_utf8(one.drop_first()));
    assert(encode_utf8(one) =~= encode_scalar(c as u32));
}

/// A line feed is encoded as the byte 10.
proof fn lemma_line_feed_byte()
    ensures
        encode_utf8(seq!['\n']) == seq![10u8],
{
    lemma_encode_single('\n');
    lemma_scalar_bytes('\n');
}

/// A text without a line feed has no byte 10 in its encoding.
proof fn lemma_no_line_feed_byte(s: Seq<char>)
    requires
        !s.contains('\n'),
    ensures
        !encode_utf8(s).contains(10u8),
    decreases s.len(),
{
    if s.len() > 0 {
        let r = s.drop_first();
        assert(!r.contains('\n')) by {
            if r.contains('\n') {
                let k = r.index_of('\n');
                assert(s[k + 1] == '\n');
            }
        }
        lemma_no_line_feed_byte(r);
        let c = s[0];
        lemma_scalar_bytes(c);
        if (c as u32) == 10 {
            char_u32_cast(c, 10);
            char_u32_cast('\n', 10);
        }
        let head = encode_scalar(c as u32);
        assert(encode_utf8(s) == head + encode_utf8(r));
        if encode_utf8(s).contains(10u8) {
            let k = encode_utf8(s).index_of(10u8);
            if k < head.len() {
                assert(head[k] == 10u8);
            } else {
                assert(encode_utf8(r)[k - head.len()] == 10u8);
            }
        }
    }
}

/// The last byte of the encoding of a line is 13 exactly when the line ends with a
/// carriage return.
proof fn lemma_carriage_return_byte(line: Seq<char>)
    requires
        line.len() > 0,
    ensures
        encode_utf8(line).len() > 0,
        encode_utf8(line) == encode_utf8(line.drop_last()) + encode_utf8(seq![line.last()]),
        (encode_utf8(line).last() == 13u8) == (line.last() == '\r'),
        line.last() == '\r' ==> encode_utf8(seq![line.last()]) == seq![13u8],
{
    let c = line.last();
    assert(line =~= line.drop_last() + seq![c]);
    lemma_encode_concat(line.drop_last(), seq![c]);
    lemma_encode_single(c);
    lemma_scalar_bytes(c);
    char_is_scalar(c);
    let tail = encode_scalar(c as u32);
    assert(tail.len() > 0);
    assert(encode_utf8(line).last() == tail.last());
    if (c as u32) == 13 {
        char_u32_cast(c, 13);
        char_u32_cast('\r', 13);
    }
    if c == '\r' {
        lemma_scalar_bytes('\r');
    }
}

/// In the encoding of `a` then `b`, the place where `b` begins is a character boundary.
proof fn lemma_boundary(a: Seq<char>, b: Seq<char>)
    ensures
        is_char_boundary(encode_utf8(a + b), encode_utf8(a).len() as int),
    decreases a.len(),
{
    let bytes = encode_utf8(a + b);
    encode_utf8_valid_utf8(a + b);
    if a.len() == 0 {
        assert(encode_utf8(a) =~= Seq::<u8>::empty());
    } else {
        let c = a[0];
        let rest = a.drop_first();
        assert((a + b)[0] == c);
        assert((a + b).drop_first() =~= rest + b);
        encode_utf8_first_scalar(a + b);
        lemma_boundary(rest, b);
        lemma_encode_concat(a, b);
        lemma_encode_concat(rest, b);
        let w = length_of_first_scalar(bytes);
        assert(w == encode_scalar(c as u32).len());
        assert(encode_utf8(a) =~= encode_scalar(c as u32) + encode_utf8(rest));
        assert(bytes =~= encode_scalar(c as u32) + encode_utf8(rest + b));
        assert(pop_first_scalar(bytes) =~= encode_utf8(rest + b));
    }
}

/// Two texts with the same encoding are the same text.
proof fn lemma_encode_injective(a: Seq<char>, b: Seq<char>)
    requires
        encode_utf8(a) == encode_utf8(b),
    ensures
        a == b,
{
    encode_utf8_decode_utf8(a);
    encode_utf8_decode_utf8(b);
}


/// The number of bytes in the encoding of the first line of `s`, up to its first line feed.
pub open spec fn first_line_bytes(s: Seq<char>) -> int {
    encode_utf8(s.take(newline_index(s) as int)).len() as int
}

/// How the encoding of a text splits at its first line feed.
proof fn lemma_split_step(s: Seq<char>)
    ensures
        newline_index(s) <= s.len(),
        first_line_bytes(s) <= encode_utf8(s).len(),
        encode_utf8(s).subrange(0, first_line_bytes(s)) == encode_utf8(s.take(newline_index(s) as int)),
        is_char_boundary(encode_utf8(s), first_line_bytes(s)),
        forall|j: int| 0 <= j < first_line_bytes(s) ==> #[trigger] encode_utf8(s)[j] != 10u8,
        (newline_index(s) < s.len()) == (first_line_bytes(s) < encode_utf8(s).len()),
        newline_index(s) < s.len() ==> {
            &&& encode_utf8(s)[first_line_bytes(s)] == 10u8
            &&& is_char_boundary(encode_utf8(s), first_line_bytes(s) + 1)
            &&& encode_utf8(s).subrange(first_line_bytes(s) + 1, encode_utf8(s).len() as int)
                == encode_utf8(s.skip((newline_index(s) + 1) as int))
        },
        newline_index(s) == s.len() ==> s.take(newline_index(s) as int) == s,
{
    lemma_newline_index(s);
    let e = newline_index(s) as int;
    let a = s.take(e);
    let tail = s.skip(e);
    assert(s =~= a + tail);
    lemma_encode_concat(a, tail);
    lemma_boundary(a, tail);
    lemma_no_line_feed_byte(a);
    let p = first_line_bytes(s);
    let bytes = encode_utf8(s);
    assert(bytes == encode_utf8(a) + encode_utf8(tail));
    assert forall|j: int| 0 <= j < p implies #[trigger] bytes[j] != 10u8 by {
        assert(bytes[j] == encode_utf8(a)[j]);
        if encode_utf8(a)[j] == 10u8 {
            assert(encode_utf8(a).contains(10u8));
        }
    }
    assert(bytes.subrange(0, p) =~= encode_utf8(a));
    if e < s.len() {
        let after = s.skip(e + 1);
        assert(tail =~= seq!['\n'] + after);
        lemma_encode_concat(seq!['\n'], after);
        lemma_line_feed_byte();
        assert(encode_utf8(tail) =~= seq![10u8] + encode_utf8(after));
        assert(bytes[p] == 10u8);
        let a1 = a + seq!['\n'];
        assert(s =~= a1 + after);
        lemma_encode_concat(a, seq!['\n']);
        lemma_boundary(a1, after);
        assert(encode_utf8(a1).len() == p + 1);
        assert(bytes.subrange(p + 1, bytes.len() as int) =~= encode_utf8(after));
    } else {
        assert(tail =~= Seq::<char>::empty());
        assert(encode_utf8(tail) =~= Seq::<u8>::empty());
        assert(a =~= s);
    }
}

/// Splits `text` into its lines: at each line feed, dropping a carriage return just before
/// the line feed, with no empty line after a final line feed.
pub fn text_lines(text: &str) -> (lines: Vec<String>)
    ensures
        lines@.map_values(|l: String| l@) == lines_of(text@),
{
    let mut lines: Vec<String> = Vec::new();
    let mut rest: &str = text;
    proof {
        assert(lines@.map_values(|l: String| l@) =~= Seq::<Seq<char>>::empty());
    }
    while !rest.is_empty()
        invariant
            lines_of(text@) == lines@.map_values(|l: String| l@) + lines_of(rest@),
        decreases rest@.len(),
    {
        let ghost s = rest@;
        let ghost e = newline_index(s) as int;
        let ghost p = first_line_bytes(s);
        proof {
            lemma_split_step(s);
            encode_utf8_valid_utf8(s);
        }
        let bytes = rest.as_bytes();
        let mut i: usize = 0;
        while i < bytes.len() && bytes[i] != 10
            invariant
                i <= bytes@.len(),
                bytes@ == encode_utf8(s),
                forall|j: int| 0 <= j < i ==> bytes@[j] != 10u8,
            decreases bytes@.len() - i,
        {
            i = i + 1;
        }
        proof {
            if i < p {
                assert(bytes@[i as int] != 10u8);
            }
            if i > p {
                assert(bytes@[p] != 10u8);
            }
            assert(i == p);
        }
        let found = i < bytes.len();
        let (line, tail) = rest.split_at(i);
        proof {
            lemma_encode_injective(line@, s.take(e));
        }
        let line_bytes = line.as_bytes();
        let n = line_bytes.len();
        let ghost l = line@;
        let kept: &str = if found && n > 0 && line_bytes[n - 1] == 13 {
            proof {
                lemma_carriage_return_byte(l);
                assert(l =~= l.drop_last() + seq![l.last()]);
                lemma_boundary(l.drop_last(), seq![l.last()]);
                encode_utf8_valid_utf8(l);
            }
            let (front, _) = line.split_at(n - 1);
            proof {
                assert(encode_utf8(l).subrange(0, n - 1) =~= encode_utf8(l.drop_last()));
                lemma_encode_injective(front@, l.drop_last());
            }
            front
        } else {
            proof {
                if n > 0 {
                    lemma_carriage_return_byte(l);
                }
                if l.len() > 0 && n == 0 {
                    lemma_carriage_return_byte(l);
                }
            }
            line
        };
        proof {
            if found {
                assert(kept@ == strip_carriage_return(l));
            } else {
                assert(kept@ == s);
            }
        }
        let ghost before = lines@.map_values(|l: String| l@);
        lines.push(kept.to_owned());
        proof {
            assert(lines@.map_values(|l: String| l@) =~= before.push(kept@));
        }
        if found {
            let (_, after) = rest.split_at(i + 1);
            proof {
                lemma_encode_injective(after@, s.skip(e + 1));
                assert(lines_of(s) == seq![strip_carriage_return(s.take(e))] + lines_of(s.skip(e + 1)));
                assert(before + lines_of(s) =~= before.push(kept@) + lines_of(after@));
            }
            rest = after;
        } else {
            proof {
                assert(tail.spec_bytes() =~= Seq::<u8>::empty());
                assert(encode_utf8(Seq::<char>::empty()) =~= Seq::<u8>::empty());
                lemma_encode_injective(tail@, Seq::<char>::empty());
                assert(lines_of(s) == seq![s]);
                assert(lines_of(tail@) =~= Seq::<Seq<char>>::empty());
                assert(before + lines_of(s) =~= before.push(kept@) + lines_of(tail@));
            }
            rest = tail;
        }
    }
    proof {
        assert(lines_of(rest@) =~= Seq::<Seq<char>>::empty());
        assert(lines_of(text@) =~= lines@.map_values(|l: String| l@));
    }
    lines
}

} // verus!
