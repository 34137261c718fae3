use vstd::prelude::*;

verus! {

/// Relies on String::push of std: it appends exactly the one character.
#[verifier::external_body]
pub fn push_char(s: &mut String, c: char)
    ensures
        final(s)@ == old(s)@.push(c),
{
    s.push(c);
}

/// Character-wise string equality, proved against the views.
pub fn str_eq(a: &str, b: &str) -> (r: bool)
    ensures
        r == (a@ == b@),
{
    let alen = a.unicode_len();
    let blen = b.unicode_len();
    if alen != blen {
        return false;
    }
    let mut i: usize = 0;
    while i < alen
        invariant
            0 <= i <= alen,
            alen == a@.len(),
            alen == b@.len(),
            forall|j: int| 0 <= j < i ==> a@[j] == b@[j],
        decreases alen - i,
    {
        if a.get_char(i) != b.get_char(i) {
            return false;
        }
        i += 1;
    }
    proof {
        assert(a@ =~= b@);
    }
    true
}

/// The pieces with the given piece prepended to the first one.
pub open spec fn prepend_first(p: Seq<char>, pieces: Seq<Seq<char>>) -> Seq<Seq<char>> {
    pieces.update(0, p + pieces[0])
}

/// The pieces of s between non-overlapping occurrences of sep, found
/// left to right; empty pieces are kept.
pub open spec fn split_seq(s: Seq<char>, sep: Seq<char>) -> Seq<Seq<char>>
    decreases s.len(),
{
    if s.len() < sep.len() || sep.len() == 0 {
        seq![s]
    } else if s.subrange(0, sep.len() as int) == sep {
        seq![Seq::<char>::empty()] + split_seq(s.skip(sep.len() as int), sep)
    } else {
        prepend_first(seq![s[0]], split_seq(s.drop_first(), sep))
    }
}

pub proof fn lemma_split_seq_len(s: Seq<char>, sep: Seq<char>)
    ensures
        split_seq(s, sep).len() >= 1,
    decreases s.len(),
{
    if s.len() < sep.len() || sep.len() == 0 {
    } else if s.subrange(0, sep.len() as int) == sep {
        lemma_split_seq_len(s.skip(sep.len() as int), sep);
    } else {
        lemma_split_seq_len(s.drop_first(), sep);
    }
}

proof fn lemma_prepend_first_compose(p: Seq<char>, q: Seq<char>, pieces: Seq<Seq<char>>)
    requires
        pieces.len() >= 1,
    ensures
        prepend_first(p, prepend_first(q, pieces)) =~~= prepend_first(p + q, pieces),
{
    assert((p + (q + pieces[0])) =~= ((p + q) + pieces[0]));
}

proof fn lemma_prepend_first_empty(p: Seq<char>, pieces: Seq<Seq<char>>)
    requires
        pieces.len() >= 1,
        pieces[0] == Seq::<char>::empty(),
    ensures
        prepend_first(p, pieces) =~~= seq![p].add(pieces.drop_first()),
{
    assert(p + pieces[0] =~= p);
}

/// Splits a string on a non-empty separator, left to right, keeping
/// empty pieces.
pub fn split_by(s: &str, sep: &str) -> (r: Vec<String>)
    requires
        sep@.len() >= 1,
    ensures
        r@.map_values(|p: String| p@) == split_seq(s@, sep@),
{
    let n = s.unicode_len();
    let seplen = sep.unicode_len();
    let mut done: Vec<String> = Vec::new();
    let mut cur = String::new();
    let mut i: usize = 0;
    proof {
        assert(s@.skip(0) =~= s@);
        lemma_split_seq_len(s@, sep@);
        assert(Seq::<char>::empty() + split_seq(s@, sep@)[0] =~= split_seq(s@, sep@)[0]);
        assert(prepend_first(Seq::<char>::empty(), split_seq(s@, sep@)) =~= split_seq(s@, sep@));
        assert(done@.map_values(|p: String| p@) + split_seq(s@, sep@) =~= split_seq(s@, sep@));
    }
    while i < n
        invariant
            0 <= i <= n,
            n == s@.len(),
            seplen == sep@.len(),
            sep@.len() >= 1,
            split_seq(s@, sep@) == done@.map_values(|p: String| p@) + prepend_first(
                cur@,
                split_seq(s@.skip(i as int), sep@),
            ),
        decreases n - i,
    {
        let ghost rest = s@.skip(i as int);
        let ghost donev = done@.map_values(|p: String| p@);
        let ghost curv = cur@;
        proof {
            lemma_split_seq_len(rest, sep@);
            assert(rest[0] == s@[i as int]);
            assert(rest.drop_first() =~= s@.skip(i as int + 1));
        }
        let hit = if n - i >= seplen {
            let window = s.substring_char(i, i + seplen);
            let eq = crate::strutil::str_eq(window, sep);
            proof {
                assert(rest.subrange(0, seplen as int) =~= s@.subrange(
                    i as int,
                    i as int + seplen as int,
                ));
            }
            eq
        } else {
            false
        };
        if hit {
            proof {
                assert(rest.skip(seplen as int) =~= s@.skip(i as int + seplen as int));
                let tail = split_seq(s@.skip(i as int + seplen as int), sep@);
                lemma_split_seq_len(s@.skip(i as int + seplen as int), sep@);
                assert(split_seq(rest, sep@) == seq![Seq::<char>::empty()] + tail);
                lemma_prepend_first_empty(curv, seq![Seq::<char>::empty()] + tail);
                assert((seq![Seq::<char>::empty()] + tail).drop_first() =~= tail);
                assert(prepend_first(curv, split_seq(rest, sep@)) =~= seq![curv] + tail);
                assert(donev + (seq![curv] + tail) =~= (donev + seq![curv]) + tail);
                assert(Seq::<char>::empty() + tail[0] =~= tail[0]);
                assert(prepend_first(Seq::<char>::empty(), tail) =~= tail);
            }
            done.push(cur);
            cur = String::new();
            proof {
                assert(done@.map_values(|p: String| p@) =~= donev + seq![curv]);
            }
            i += seplen;
        } else {
            let ghost tail = split_seq(s@.skip(i as int + 1), sep@);
            proof {
                lemma_split_seq_len(s@.skip(i as int + 1), sep@);
                if rest.len() >= sep@.len() {
                    assert(!(rest.subrange(0, sep@.len() as int) == sep@));
                    assert(split_seq(rest, sep@) == prepend_first(seq![rest[0]], tail));
                    lemma_prepend_first_compose(curv, seq![rest[0]], tail);
                }
            }
            let c = s.get_char(i);
            push_char(&mut cur, c);
            proof {
                assert(cur@ =~= curv + seq![s@[i as int]]);
                if rest.len() < sep@.len() {
                    // The remainder is shorter than the separator: it is one piece.
                    assert(split_seq(rest, sep@) == seq![rest]);
                    assert(prepend_first(curv, seq![rest]) =~= seq![curv + rest]);
                    assert(s@.skip(i as int + 1).len() < sep@.len());
                    assert(split_seq(s@.skip(i as int + 1), sep@) == seq![s@.skip(i as int + 1)]);
                    assert(prepend_first(cur@, seq![s@.skip(i as int + 1)]) =~= seq![cur@ + s@.skip(
                        i as int + 1,
                    )]);
                    assert(curv + rest =~= cur@ + s@.skip(i as int + 1));
                } else {
                    assert(prepend_first(curv, prepend_first(seq![rest[0]], tail))
                        =~~= prepend_first(curv + seq![rest[0]], tail));
                    assert(curv + seq![rest[0]] =~= cur@);
                }
            }
            i += 1;
        }
    }
    proof {
        assert(s@.skip(n as int) =~= Seq::<char>::empty());
        assert(split_seq(Seq::<char>::empty(), sep@) == seq![Seq::<char>::empty()]);
        let donev = done@.map_values(|p: String| p@);
        assert(prepend_first(cur@, seq![Seq::<char>::empty()]) =~= seq![cur@]);
        assert(split_seq(s@, sep@) == donev + seq![cur@]);
    }
    done.push(cur);
    proof {
        assert(done@.map_values(|p: String| p@) =~= done@.subrange(0, done@.len() - 1).map_values(
            |p: String| p@,
        ) + seq![done@[done@.len() - 1]@]);
        assert(done@.subrange(0, done@.len() - 1) =~= done@.drop_last());
    }
    done
}

/// A decimal digit.
pub open spec fn is_dec_digit(c: char) -> bool {
    '0' <= c && c <= '9'
}

pub open spec fn dec_digit_val(c: char) -> int {
    c as int - 48
}

/// Whether the string is one or more decimal digits.
pub open spec fn all_dec_digits(s: Seq<char>) -> bool {
    forall|i: int| 0 <= i < s.len() ==> is_dec_digit(#[trigger] s[i])
}

/// The value of a decimal digit string.
pub open spec fn dec_val(s: Seq<char>) -> int
    decreases s.len(),
{
    if s.len() == 0 {
        0
    } else {
        dec_val(s.drop_last()) * 10 + dec_digit_val(s.last())
    }
}

proof fn lemma_dec_val_nonneg(s: Seq<char>)
    requires
        all_dec_digits(s),
    ensures
        dec_val(s) >= 0,
    decreases s.len(),
{
    if s.len() > 0 {
        assert(all_dec_digits(s.drop_last())) by {
            assert(forall|i: int| 0 <= i < s.len() - 1 ==> s.drop_last()[i] == #[trigger] s[i]);
        }
        lemma_dec_val_nonneg(s.drop_last());
    }
}

proof fn lemma_dec_val_prefix_le(s: Seq<char>, i: int)
    requires
        all_dec_digits(s),
        0 <= i <= s.len(),
    ensures
        dec_val(s) >= dec_val(s.subrange(0, i)),
    decreases s.len() - i,
{
    if i == s.len() {
        assert(s.subrange(0, i) =~= s);
    } else {
        let p = s.subrange(0, i);
        let q = s.subrange(0, i + 1);
        assert(q.drop_last() =~= p);
        assert(all_dec_digits(p)) by {
            assert(forall|j: int| 0 <= j < i ==> p[j] == #[trigger] s[j]);
        }
        lemma_dec_val_nonneg(p);
        assert(is_dec_digit(s[i]));
        assert(dec_val(q) == dec_val(p) * 10 + dec_digit_val(s[i]));
        lemma_dec_val_prefix_le(s, i + 1);
    }
}

/// Parses a non-empty all-digit decimal string whose value fits in u32.
pub fn parse_u32_dec(s: &str) -> (r: Option<u32>)
    ensures
        r is Some <==> (s@.len() > 0 && all_dec_digits(s@) && dec_val(s@) <= u32::MAX),
        r matches Some(v) ==> v == dec_val(s@),
{
    let n = s.unicode_len();
    if n == 0 {
        return None;
    }
    let mut acc: u64 = 0;
    let mut i: usize = 0;
    proof {
        assert(s@.subrange(0, 0) =~= Seq::<char>::empty());
    }
    while i < n
        invariant
            0 <= i <= n,
            n == s@.len(),
            acc <= u32::MAX,
            acc == dec_val(s@.subrange(0, i as int)),
            all_dec_digits(s@.subrange(0, i as int)),
        decreases n - i,
    {
        let c = s.get_char(i);
        let u = c as u32;
        if !(48 <= u && u <= 57) {
            proof {
                assert(!is_dec_digit(s@[i as int]));
            }
            return None;
        }
        let d = (u - 48) as u64;
        let next = acc * 10 + d;
        proof {
            assert(s@.subrange(0, i as int + 1).drop_last() =~= s@.subrange(0, i as int));
            assert(s@.subrange(0, i as int + 1).last() == s@[i as int]);
            assert(forall|j: int|
                0 <= j < i + 1 ==> #[trigger] s@.subrange(0, i as int + 1)[j] == s@[j]);
        }
        if next > 0xFFFF_FFFF {
            proof {
                if all_dec_digits(s@) {
                    lemma_dec_val_prefix_le(s@, i as int + 1);
                }
            }
            return None;
        }
        acc = next;
        i += 1;
    }
    proof {
        assert(s@.subrange(0, n as int) =~= s@);
    }
    Some(acc as u32)
}

/// A hexadecimal digit.
pub open spec fn is_hex_digit(c: char) -> bool {
    ('0' <= c && c <= '9') || ('a' <= c && c <= 'f') || ('A' <= c && c <= 'F')
}

pub open spec fn hex_digit_val(c: char) -> int {
    if '0' <= c && c <= '9' {
        c as int - 48
    } else if 'a' <= c && c <= 'f' {
        c as int - 87
    } else {
        c as int - 55
    }
}

/// Whether the string is one or more hexadecimal digits.
pub open spec fn all_hex_digits(s: Seq<char>) -> bool {
    forall|i: int| 0 <= i < s.len() ==> is_hex_digit(#[trigger] s[i])
}

/// The value of a hexadecimal digit string.
pub open spec fn hex_val(s: Seq<char>) -> int
    decreases s.len(),
{
    if s.len() == 0 {
        0
    } else {
        hex_val(s.drop_last()) * 16 + hex_digit_val(s.last())
    }
}

proof fn lemma_hex_val_nonneg(s: Seq<char>)
    requires
        all_hex_digits(s),
    ensures
        hex_val(s) >= 0,
    decreases s.len(),
{
    if s.len() > 0 {
        assert(all_hex_digits(s.drop_last())) by {
            assert(forall|i: int| 0 <= i < s.len() - 1 ==> s.drop_last()[i] == #[trigger] s[i]);
        }
        lemma_hex_val_nonneg(s.drop_last());
    }
}

proof fn lemma_hex_val_prefix_le(s: Seq<char>, i: int)
    requires
        all_hex_digits(s),
        0 <= i <= s.len(),
    ensures
        hex_val(s) >= hex_val(s.subrange(0, i)),
    decreases s.len() - i,
{
    if i == s.len() {
        assert(s.subrange(0, i) =~= s);
    } else {
        let p = s.subrange(0, i);
        let q = s.subrange(0, i + 1);
        assert(q.drop_last() =~= p);
        assert(all_hex_digits(p)) by {
            assert(forall|j: int| 0 <= j < i ==> p[j] == #[trigger] s[j]);
        }
        lemma_hex_val_nonneg(p);
        assert(is_hex_digit(s[i]));
        assert(hex_val(q) == hex_val(p) * 16 + hex_digit_val(s[i]));
        lemma_hex_val_prefix_le(s, i + 1);
    }
}

/// Parses a non-empty all-hex string whose value fits in u32.
pub fn parse_u32_hex(s: &str) -> (r: Option<u32>)
    ensures
        r is Some <==> (s@.len() > 0 && all_hex_digits(s@) && hex_val(s@) <= u32::MAX),
        r matches Some(v) ==> v == hex_val(s@),
{
    let n = s.unicode_len();
    if n == 0 {
        return None;
    }
    let mut acc: u64 = 0;
    let mut i: usize = 0;
    proof {
        assert(s@.subrange(0, 0) =~= Seq::<char>::empty());
    }
    while i < n
        invariant
            0 <= i <= n,
            n == s@.len(),
            acc <= u32::MAX,
            acc == hex_val(s@.subrange(0, i as int)),
            all_hex_digits(s@.subrange(0, i as int)),
        decreases n - i,
    {
        let c = s.get_char(i);
        let u = c as u32;
        let d: u64 = if 48 <= u && u <= 57 {
            (u - 48) as u64
        } else if 97 <= u && u <= 102 {
            (u - 87) as u64
        } else if 65 <= u && u <= 70 {
            (u - 55) as u64
        } else {
            proof {
                assert(!is_hex_digit(s@[i as int]));
            }
            return None;
        };
        let next = acc * 16 + d;
        proof {
            assert(s@.subrange(0, i as int + 1).drop_last() =~= s@.subrange(0, i as int));
            assert(s@.subrange(0, i as int + 1).last() == s@[i as int]);
            assert(forall|j: int|
                0 <= j < i + 1 ==> #[trigger] s@.subrange(0, i as int + 1)[j] == s@[j]);
        }
        if next > 0xFFFF_FFFF {
            proof {
                if all_hex_digits(s@) {
                    lemma_hex_val_prefix_le(s@, i as int + 1);
                }
            }
            return None;
        }
        acc = next;
        i += 1;
    }
    proof {
        assert(s@.subrange(0, n as int) =~= s@);
    }
    Some(acc as u32)
}

/// A copy of a string list, element for element.
pub fn clone_strings(v: &Vec<String>) -> (r: Vec<String>)
    ensures
        r@ == v@,
{
    let mut out: Vec<String> = Vec::new();
    let mut i: usize = 0;
    while i < v.len()
        invariant
            0 <= i <= v@.len(),
            out@ == v@.subrange(0, i as int),
        decreases v@.len() - i,
    {
        out.push(v[i].clone());
        proof {
            assert(out@ =~= v@.subrange(0, i as int + 1));
        }
        i += 1;
    }
    proof {
        assert(v@.subrange(0, v@.len() as int) =~= v@);
    }
    out
}

/// The non-empty pieces, in order.
pub open spec fn drop_empty(pieces: Seq<Seq<char>>) -> Seq<Seq<char>>
    decreases pieces.len(),
{
    if pieces.len() == 0 {
        Seq::empty()
    } else if pieces[0].len() > 0 {
        seq![pieces[0]] + drop_empty(pieces.drop_first())
    } else {
        drop_empty(pieces.drop_first())
    }
}

/// The space-separated tokens of a string, empties dropped.
pub open spec fn spec_space_tokens(s: Seq<char>) -> Seq<Seq<char>> {
    drop_empty(split_seq(s, " "@))
}

/// Splits a string into its space-separated tokens.
pub fn space_tokens(s: &str) -> (r: Vec<String>)
    ensures
        r@.map_values(|p: String| p@) == spec_space_tokens(s@),
{
    proof {
        reveal_strlit(" ");
    }
    let pieces = split_by(s, " ");
    let ghost piece_views = pieces@.map_values(|p: String| p@);
    let mut out: Vec<String> = Vec::new();
    let mut i: usize = 0;
    proof {
        assert(piece_views.skip(0) =~= piece_views);
        assert(out@.map_values(|p: String| p@) + drop_empty(piece_views) =~= drop_empty(
            piece_views,
        ));
    }
    while i < pieces.len()
        invariant
            0 <= i <= pieces@.len(),
            piece_views == pieces@.map_values(|p: String| p@),
            drop_empty(piece_views) == out@.map_values(|p: String| p@) + drop_empty(
                piece_views.skip(i as int),
            ),
        decreases pieces@.len() - i,
    {
        let ghost pre = out@.map_values(|p: String| p@);
        proof {
            assert(piece_views.skip(i as int)[0] == piece_views[i as int]);
            assert(piece_views.skip(i as int).drop_first() =~= piece_views.skip(i as int + 1));
        }
        if pieces[i].as_str().unicode_len() > 0 {
            out.push(pieces[i].clone());
            proof {
                assert(out@.map_values(|p: String| p@) =~= pre + seq![piece_views[i as int]]);
                assert((pre + seq![piece_views[i as int]]) + drop_empty(
                    piece_views.skip(i as int + 1),
                ) =~= pre + (seq![piece_views[i as int]] + drop_empty(
                    piece_views.skip(i as int + 1),
                )));
            }
        }
        i += 1;
    }
    proof {
        assert(piece_views.skip(pieces@.len() as int) =~= Seq::<Seq<char>>::empty());
        assert(out@.map_values(|p: String| p@) + Seq::<Seq<char>>::empty() =~= out@.map_values(
            |p: String| p@,
        ));
    }
    out
}

/// Relies on char::from_u32 of std: `Some` exactly on unicode scalar
/// values (not a surrogate, at most 0x10FFFF), and the returned char
/// has the given code point.
#[verifier::external_body]
pub(crate) fn char_from_u32(u: u32) -> (r: Option<char>)
    ensures
        r is Some <==> (u < 0xD800 || (0xE000 <= u && u <= 0x10FFFF)),
        r matches Some(c) ==> c as int == u as int,
{
    char::from_u32(u)
}

/// The character of a decimal digit value.
pub fn digit_to_char(d: u32) -> (r: Option<char>)
    requires
        d < 10,
    ensures
        r matches Some(c) && c as int == 48 + d,
{
    char_from_u32(48 + d)
}

/// Two characters with one code point are one character.
pub proof fn lemma_char_injective(a: char, b: char)
    requires
        a as int == b as int,
    ensures
        a == b,
{
    broadcast use vstd::utf8::char_u32_cast;
    broadcast use vstd::utf8::char_is_scalar;

    assert(a as u32 == b as u32);
    assert((a as u32) as char == a);
    assert((b as u32) as char == b);
}

/// The character with an upper case ASCII letter lowered.
pub open spec fn spec_lower_char(c: char) -> char {
    if 'A' <= c && c <= 'Z' {
        (((c as int) + 32) as u32) as char
    } else {
        c
    }
}

/// An upper case ASCII letter lowers to the code point 32 above.
pub proof fn lemma_lower_char(c: char)
    requires
        'A' <= c && c <= 'Z',
    ensures
        spec_lower_char(c) as int == c as int + 32,
{
    broadcast use vstd::utf8::char_u32_cast;
    broadcast use vstd::utf8::char_is_scalar;

    let u = ((c as int) + 32) as u32;
    assert(u < 0xD800);
}

/// Lowers an upper case ASCII letter; every other character passes
/// through.
pub fn lower_char(c: char) -> (r: char)
    ensures
        r == spec_lower_char(c),
{
    let u = c as u32;
    if 65 <= u && u <= 90 {
        match char_from_u32(u + 32) {
            Some(l) => {
                proof {
                    lemma_lower_char(c);
                    lemma_char_injective(l, spec_lower_char(c));
                }
                l
            },
            None => c,
        }
    } else {
        c
    }
}

} // verus!
