//! Wide (UTF-16) strings as the system's window functions take them.

use vstd::prelude::*;
use vstd::std_specs::iter::IteratorSpec;

verus! {

/// The UTF-16 code units of one character: one unit for a character of the
/// basic multilingual plane, a high and a low surrogate for any other.
pub open spec fn utf16_units(c: char) -> Seq<u16> {
    let v = c as u32 as int;
    if v < 0x1_0000 {
        seq![v as u16]
    } else {
        let w = v - 0x1_0000;
        seq![(0xD800 + w / 0x400) as u16, (0xDC00 + w % 0x400) as u16]
    }
}

/// The UTF-16 encoding of a character sequence.
pub open spec fn utf16_encode(s: Seq<char>) -> Seq<u16>
    decreases s.len(),
{
    if s.len() == 0 {
        Seq::empty()
    } else {
        utf16_encode(s.drop_last()) + utf16_units(s.last())
    }
}

/// Decodes UTF-16 code units into characters: a high surrogate followed by
/// a low surrogate is one supplementary character, any other unit outside
/// the surrogate range is one character, and an unpaired surrogate makes the
/// input invalid (`None`).
pub open spec fn utf16_decode(u: Seq<u16>) -> Option<Seq<char>>
    decreases u.len(),
{
    if u.len() == 0 {
        Some(Seq::empty())
    } else if 0xD800 <= u[0] < 0xDC00 {
        if u.len() >= 2 && 0xDC00 <= u[1] < 0xE000 {
            let v = 0x1_0000 + (u[0] - 0xD800) * 0x400 + (u[1] - 0xDC00);
            match utf16_decode(u.subrange(2, u.len() as int)) {
                Some(rest) => Some(seq![v as char] + rest),
                None => None,
            }
        } else {
            None
        }
    } else if 0xDC00 <= u[0] < 0xE000 {
        None
    } else {
        match utf16_decode(u.subrange(1, u.len() as int)) {
            Some(rest) => Some(seq![u[0] as char] + rest),
            None => None,
        }
    }
}

proof fn lemma_units_then_rest(c: char, rest: Seq<u16>)
    ensures
        utf16_decode(utf16_units(c) + rest) == match utf16_decode(rest) {
            Some(r) => Some(seq![c] + r),
            None => None::<Seq<char>>,
        },
{
    let u = utf16_units(c) + rest;
    let v = c as u32 as int;
    if v < 0x1_0000 {
        assert(u.subrange(1, u.len() as int) =~= rest);
        assert(u[0] as int == v);
        assert((v as char) == c);
    } else {
        let w = v - 0x1_0000;
        assert(u.subrange(2, u.len() as int) =~= rest);
        assert(u[0] as int == 0xD800 + w / 0x400);
        assert(u[1] as int == 0xDC00 + w % 0x400);
        assert(0x1_0000 + (u[0] - 0xD800) * 0x400 + (u[1] - 0xDC00) == v);
        assert((v as char) == c);
    }
}

proof fn lemma_encode_front(s: Seq<char>)
    requires
        s.len() > 0,
    ensures
        utf16_encode(s) == utf16_units(s[0]) + utf16_encode(s.drop_first()),
    decreases s.len(),
{
    if s.len() == 1 {
        assert(s.drop_last() =~= Seq::<char>::empty());
        assert(s.drop_first() =~= Seq::<char>::empty());
        assert(utf16_encode(s) =~= utf16_units(s[0]) + utf16_encode(s.drop_first()));
    } else {
        lemma_encode_front(s.drop_last());
        assert(s.drop_last().drop_first() =~= s.drop_first().drop_last());
        assert(s.drop_first().last() == s.last());
        assert(utf16_encode(s) =~= utf16_units(s[0]) + utf16_encode(s.drop_first()));
    }
}

/// Decoding the UTF-16 encoding of any character sequence gives the
/// sequence back: the encoding loses nothing.
pub proof fn lemma_utf16_round_trip(s: Seq<char>)
    ensures
        utf16_decode(utf16_encode(s)) == Some(s),
    decreases s.len(),
{
    if s.len() == 0 {
    } else {
        lemma_encode_front(s);
        lemma_utf16_round_trip(s.drop_first());
        lemma_units_then_rest(s[0], utf16_encode(s.drop_first()));
        assert(seq![s[0]] + s.drop_first() =~= s);
    }
}

/// The NUL-terminated UTF-16 form of `s`, for a system call that takes a
/// wide string.
pub fn wstring(s: &str) -> (r: Vec<u16>)
    ensures
        r@ == utf16_encode(s@).push(0u16),
{
    broadcast use vstd::string::axiom_spec_iter;

    let mut out: Vec<u16> = Vec::new();
    let chars = s.chars();
    assert(IteratorSpec::remaining(&chars) == s@);
    for c in it: chars
        invariant
            it.seq() == s@,
            out@ == utf16_encode(s@.take(it.index())),
    {
        proof {
            assert(s@.take(it.index() + 1).drop_last() =~= s@.take(it.index()));
        }
        let v: u32 = c as u32;
        if v < 0x1_0000 {
            out.push(v as u16);
        } else {
            let w: u32 = v - 0x1_0000;
            out.push((0xD800 + w / 0x400) as u16);
            out.push((0xDC00 + w % 0x400) as u16);
        }
        proof {
            assert(s@.take(it.index() + 1).last() == c);
        }
    }
    assert(s@.take(s@.len() as int) =~= s@);
    out.push(0u16);
    out
}

} // verus!
