//! Text formatting into fixed-capacity line buffers.
//!
//! Every text line the collector produces is written into a buffer of a
//! fixed number of bytes. A line is formatted as a list of pieces (literal
//! text and formatted values); each piece is appended whole when it fits in
//! what is left of the buffer, and formatting stops at the first piece that
//! does not fit.
use vstd::prelude::*;
use vstd::string::{StrSliceExecFns, StringExecFns, StringSliceAdditionalSpecFns};
use vstd::utf8::{encode_utf8, is_ascii_chars, is_ascii_chars_encode_utf8};

verus! {

/// Decimal digit `d` (0..=9) as a character.
pub open spec fn digit_char(d: nat) -> char {
    if d == 0 {
        '0'
    } else if d == 1 {
        '1'
    } else if d == 2 {
        '2'
    } else if d == 3 {
        '3'
    } else if d == 4 {
        '4'
    } else if d == 5 {
        '5'
    } else if d == 6 {
        '6'
    } else if d == 7 {
        '7'
    } else if d == 8 {
        '8'
    } else {
        '9'
    }
}

/// Lower-case hexadecimal digit `d` (0..=15) as a character.
pub open spec fn hex_digit_char(d: nat) -> char {
    if d < 10 {
        digit_char(d)
    } else if d == 10 {
        'a'
    } else if d == 11 {
        'b'
    } else if d == 12 {
        'c'
    } else if d == 13 {
        'd'
    } else if d == 14 {
        'e'
    } else {
        'f'
    }
}

/// Decimal representation of `n`, without leading zeros.
pub open spec fn decimal(n: nat) -> Seq<char>
    decreases n,
{
    if n < 10 {
        seq![digit_char(n)]
    } else {
        decimal(n / 10).push(digit_char(n % 10))
    }
}

/// Lower-case hexadecimal representation of `n`, without leading zeros.
pub open spec fn hex(n: nat) -> Seq<char>
    decreases n,
{
    if n < 16 {
        seq![hex_digit_char(n)]
    } else {
        hex(n / 16).push(hex_digit_char(n % 16))
    }
}

/// Number of bytes of the UTF-8 encoding of a text.
pub open spec fn utf8_len(s: Seq<char>) -> nat {
    encode_utf8(s).len()
}

/// Text and byte count of a buffer of `cap` bytes that held `text`
/// (`used` bytes) after `pieces` were written to it: pieces are appended
/// in order while each one fits whole; writing stops at the first piece
/// that does not fit.
pub open spec fn write_pieces(text: Seq<char>, used: nat, pieces: Seq<Seq<char>>, cap: nat) -> (
    Seq<char>,
    nat,
)
    decreases pieces.len(),
{
    if pieces.len() == 0 {
        (text, used)
    } else if used + utf8_len(pieces[0]) <= cap {
        write_pieces(text + pieces[0], used + utf8_len(pieces[0]), pieces.drop_first(), cap)
    } else {
        (text, used)
    }
}

/// Text of an empty buffer of `cap` bytes after `pieces` were written to it.
pub open spec fn bounded_text(pieces: Seq<Seq<char>>, cap: nat) -> Seq<char> {
    write_pieces(Seq::empty(), 0, pieces, cap).0
}

/// Views of a list of strings.
pub open spec fn views(pieces: Seq<String>) -> Seq<Seq<char>> {
    pieces.map_values(|p: String| p@)
}

/// Appending a string to a list appends its view to the list of views.
pub proof fn lemma_views_push(s: Seq<String>, x: String)
    ensures
        views(s.push(x)) == views(s).push(x@),
{
    assert(views(s.push(x)) =~= views(s).push(x@));
}

/// When every piece fits, the buffer holds all pieces, concatenated.
pub open spec fn concat(pieces: Seq<Seq<char>>) -> Seq<char>
    decreases pieces.len(),
{
    if pieces.len() == 0 {
        Seq::empty()
    } else {
        pieces[0] + concat(pieces.drop_first())
    }
}

/// Total number of bytes of a list of pieces.
pub open spec fn total_len(pieces: Seq<Seq<char>>) -> nat
    decreases pieces.len(),
{
    if pieces.len() == 0 {
        0
    } else {
        utf8_len(pieces[0]) + total_len(pieces.drop_first())
    }
}

/// If all pieces fit, writing them appends their concatenation.
pub proof fn lemma_write_pieces_fit(text: Seq<char>, used: nat, pieces: Seq<Seq<char>>, cap: nat)
    requires
        used + total_len(pieces) <= cap,
    ensures
        write_pieces(text, used, pieces, cap) == (text + concat(pieces), used + total_len(pieces)),
    decreases pieces.len(),
{
    if pieces.len() > 0 {
        lemma_write_pieces_fit(
            text + pieces[0],
            used + utf8_len(pieces[0]),
            pieces.drop_first(),
            cap,
        );
        assert(text + pieces[0] + concat(pieces.drop_first()) =~= text + concat(pieces));
    } else {
        assert(text + concat(pieces) =~= text);
    }
}

/// Writing never makes the byte count exceed the capacity.
pub proof fn lemma_write_pieces_bound(text: Seq<char>, used: nat, pieces: Seq<Seq<char>>, cap: nat)
    requires
        used <= cap,
    ensures
        write_pieces(text, used, pieces, cap).1 <= cap,
    decreases pieces.len(),
{
    if pieces.len() > 0 && used + utf8_len(pieces[0]) <= cap {
        lemma_write_pieces_bound(
            text + pieces[0],
            used + utf8_len(pieces[0]),
            pieces.drop_first(),
            cap,
        );
    }
}

/// The UTF-8 encoding of a concatenation is the concatenation of the
/// encodings.
pub proof fn lemma_utf8_len_concat(a: Seq<char>, b: Seq<char>)
    ensures
        utf8_len(a + b) == utf8_len(a) + utf8_len(b),
{
    lemma_encode_concat(a, b);
}

proof fn lemma_encode_concat(a: Seq<char>, b: Seq<char>)
    ensures
        encode_utf8(a + b) == encode_utf8(a) + encode_utf8(b),
    decreases a.len(),
{
    if a.len() == 0 {
        assert(a + b =~= b);
        assert(encode_utf8(a) + encode_utf8(b) =~= encode_utf8(b));
    } else {
        assert((a + b).drop_first() =~= a.drop_first() + b);
        assert((a + b)[0] == a[0]);
        lemma_encode_concat(a.drop_first(), b);
        assert(encode_utf8(a + b) =~= encode_utf8(a) + encode_utf8(b));
    }
}

/// The concatenation of two lists of pieces is the concatenation of their
/// concatenations.
pub proof fn lemma_concat_append(a: Seq<Seq<char>>, b: Seq<Seq<char>>)
    ensures
        concat(a + b) == concat(a) + concat(b),
    decreases a.len(),
{
    if a.len() == 0 {
        assert(a + b =~= b);
        assert(concat(a) + concat(b) =~= concat(b));
    } else {
        assert((a + b).drop_first() =~= a.drop_first() + b);
        assert((a + b)[0] == a[0]);
        lemma_concat_append(a.drop_first(), b);
        assert(concat(a + b) =~= concat(a) + concat(b));
    }
}

/// The byte count of a list of pieces is the byte count of their
/// concatenation.
pub proof fn lemma_total_len_concat(pieces: Seq<Seq<char>>)
    ensures
        total_len(pieces) == utf8_len(concat(pieces)),
    decreases pieces.len(),
{
    if pieces.len() == 0 {
        assert(vstd::utf8::encode_utf8(Seq::<char>::empty()) =~= Seq::<u8>::empty());
    } else {
        lemma_total_len_concat(pieces.drop_first());
        lemma_utf8_len_concat(pieces[0], concat(pieces.drop_first()));
    }
}

/// The byte count kept while writing is the length of the text's encoding.
pub proof fn lemma_write_pieces_len(text: Seq<char>, used: nat, pieces: Seq<Seq<char>>, cap: nat)
    requires
        utf8_len(text) == used,
    ensures
        utf8_len(write_pieces(text, used, pieces, cap).0) == write_pieces(text, used, pieces, cap).1,
    decreases pieces.len(),
{
    if pieces.len() > 0 && used + utf8_len(pieces[0]) <= cap {
        lemma_utf8_len_concat(text, pieces[0]);
        lemma_write_pieces_len(text + pieces[0], used + utf8_len(pieces[0]), pieces.drop_first(), cap);
    }
}

/// A line written into a buffer of `cap` bytes never takes more than
/// `cap` bytes.
pub proof fn lemma_bounded_text_fits(pieces: Seq<Seq<char>>, cap: nat)
    ensures
        utf8_len(bounded_text(pieces, cap)) <= cap,
{
    assert(encode_utf8(Seq::<char>::empty()) =~= Seq::<u8>::empty());
    lemma_write_pieces_len(Seq::empty(), 0, pieces, cap);
    lemma_write_pieces_bound(Seq::empty(), 0, pieces, cap);
}

fn digit_str(d: u64) -> (r: &'static str)
    requires
        d < 10,
    ensures
        r@ == seq![digit_char(d as nat)],
{
    if d == 0 {
        proof {
            reveal_strlit("0");
        }
        "0"
    } else if d == 1 {
        proof {
            reveal_strlit("1");
        }
        "1"
    } else if d == 2 {
        proof {
            reveal_strlit("2");
        }
        "2"
    } else if d == 3 {
        proof {
            reveal_strlit("3");
        }
        "3"
    } else if d == 4 {
        proof {
            reveal_strlit("4");
        }
        "4"
    } else if d == 5 {
        proof {
            reveal_strlit("5");
        }
        "5"
    } else if d == 6 {
        proof {
            reveal_strlit("6");
        }
        "6"
    } else if d == 7 {
        proof {
            reveal_strlit("7");
        }
        "7"
    } else if d == 8 {
        proof {
            reveal_strlit("8");
        }
        "8"
    } else {
        proof {
            reveal_strlit("9");
        }
        "9"
    }
}

fn hex_digit_str(d: u64) -> (r: &'static str)
    requires
        d < 16,
    ensures
        r@ == seq![hex_digit_char(d as nat)],
{
    if d < 10 {
        digit_str(d)
    } else if d == 10 {
        proof {
            reveal_strlit("a");
        }
        "a"
    } else if d == 11 {
        proof {
            reveal_strlit("b");
        }
        "b"
    } else if d == 12 {
        proof {
            reveal_strlit("c");
        }
        "c"
    } else if d == 13 {
        proof {
            reveal_strlit("d");
        }
        "d"
    } else if d == 14 {
        proof {
            reveal_strlit("e");
        }
        "e"
    } else {
        proof {
            reveal_strlit("f");
        }
        "f"
    }
}

fn append_decimal(s: &mut String, n: u64)
    ensures
        final(s)@ == old(s)@ + decimal(n as nat),
    decreases n,
{
    if n >= 10 {
        append_decimal(s, n / 10);
    }
    s.append(digit_str(n % 10));
    proof {
        if n >= 10 {
            assert(old(s)@ + decimal(n as nat) =~= old(s)@ + decimal((n / 10) as nat) + seq![
                digit_char((n % 10) as nat),
            ]);
        } else {
            assert(old(s)@ + decimal(n as nat) =~= old(s)@ + seq![digit_char((n % 10) as nat)]);
        }
    }
}

fn append_hex(s: &mut String, n: u64)
    ensures
        final(s)@ == old(s)@ + hex(n as nat),
    decreases n,
{
    if n >= 16 {
        append_hex(s, n / 16);
    }
    s.append(hex_digit_str(n % 16));
    proof {
        if n >= 16 {
            assert(old(s)@ + hex(n as nat) =~= old(s)@ + hex((n / 16) as nat) + seq![
                hex_digit_char((n % 16) as nat),
            ]);
        } else {
            assert(old(s)@ + hex(n as nat) =~= old(s)@ + seq![hex_digit_char((n % 16) as nat)]);
        }
    }
}

/// `n` in decimal.
pub fn decimal_string(n: u64) -> (r: String)
    ensures
        r@ == decimal(n as nat),
{
    let mut s = String::new();
    append_decimal(&mut s, n);
    assert(s@ =~= decimal(n as nat));
    s
}

/// `n` in lower-case hexadecimal.
pub fn hex_string(n: u64) -> (r: String)
    ensures
        r@ == hex(n as nat),
{
    let mut s = String::new();
    append_hex(&mut s, n);
    assert(s@ =~= hex(n as nat));
    s
}

/// A string holding the text of a `&str`.
pub fn owned(s: &str) -> (r: String)
    ensures
        r@ == s@,
{
    String::from_str(s)
}

/// Concatenation of all pieces.
pub fn join_all(pieces: &Vec<String>) -> (r: String)
    ensures
        r@ == concat(views(pieces@)),
{
    let mut s = String::new();
    let mut i: usize = 0;
    assert(views(pieces@).subrange(0, pieces@.len() as int) =~= views(pieces@));
    assert(concat(views(pieces@)) =~= s@ + concat(views(pieces@)));
    while i < pieces.len()
        invariant
            i <= pieces@.len(),
            concat(views(pieces@)) == s@ + concat(
                views(pieces@).subrange(i as int, pieces@.len() as int),
            ),
        decreases pieces@.len() - i,
    {
        let ghost rest = views(pieces@).subrange(i as int, pieces@.len() as int);
        let ghost s0 = s@;
        assert(rest[0] == pieces@[i as int]@);
        assert(rest.drop_first() =~= views(pieces@).subrange(i + 1, pieces@.len() as int));
        s.append(pieces[i].as_str());
        i = i + 1;
        assert(s0 + concat(rest) =~= s@ + concat(rest.drop_first()));
    }
    assert(views(pieces@).subrange(i as int, pieces@.len() as int) =~= Seq::<Seq<char>>::empty());
    assert(s@ + concat(Seq::<Seq<char>>::empty()) =~= s@);
    s
}

/// A decimal number is never empty and has at most twenty digits when it
/// fits in 64 bits.
pub proof fn lemma_decimal_len(n: nat)
    ensures
        decimal(n).len() >= 1,
        n < 10 ==> decimal(n).len() == 1,
        n >= 10 ==> decimal(n).len() == decimal(n / 10).len() + 1,
    decreases n,
{
}

/// Decimal digits are ASCII.
pub proof fn lemma_decimal_ascii(n: nat)
    ensures
        is_ascii_chars(decimal(n)),
    decreases n,
{
    if n >= 10 {
        lemma_decimal_ascii(n / 10);
    }
}

/// A 64-bit number has at most twenty decimal digits.
pub proof fn lemma_decimal_u64_len(n: nat)
    requires
        n <= 0xffff_ffff_ffff_ffff,
    ensures
        decimal(n).len() <= 20,
{
    assert(pow10(20) == 100_000_000_000_000_000_000nat) by {
        reveal_with_fuel(pow10, 21);
    }
    lemma_decimal_len_below(n, 20);
}

/// A number below `10^k` has at most `k` decimal digits.
pub proof fn lemma_decimal_len_below(n: nat, k: nat)
    requires
        k >= 1,
        n < pow10(k),
    ensures
        decimal(n).len() <= k,
    decreases k,
{
    if n >= 10 {
        assert(k >= 2) by {
            if k == 1 {
                assert(pow10(1) == 10 * pow10(0));
            }
        }
        assert(n / 10 < pow10((k - 1) as nat)) by {
            assert(pow10(k) == 10 * pow10((k - 1) as nat));
        }
        lemma_decimal_len_below(n / 10, (k - 1) as nat);
    }
}

/// `10^k`.
pub open spec fn pow10(k: nat) -> nat
    decreases k,
{
    if k == 0 {
        1
    } else {
        10 * pow10((k - 1) as nat)
    }
}

/// An ASCII text takes one byte per character.
pub proof fn lemma_ascii_utf8_len(s: Seq<char>)
    requires
        is_ascii_chars(s),
    ensures
        utf8_len(s) == s.len(),
{
    is_ascii_chars_encode_utf8(s);
}

/// Zero-padded formatting of `n` to at least `width` digits, as a list of
/// pieces: one `"0"` piece per padding zero, then the digits.
pub open spec fn padded_pieces(n: nat, width: nat) -> Seq<Seq<char>> {
    let digits = decimal(n);
    let pad: nat = if digits.len() < width {
        (width - digits.len()) as nat
    } else {
        0
    };
    Seq::new(pad, |i: int| seq!['0']).push(digits)
}

/// Zero-padded `0x`-prefixed lower-case hexadecimal formatting of `n` to at
/// least `width` characters (prefix included), as a list of pieces: the
/// prefix, one `"0"` piece per padding zero, then the digits.
pub open spec fn hex_prefixed_pieces(n: nat, width: nat) -> Seq<Seq<char>> {
    let digits = hex(n);
    let pad: nat = if digits.len() + 2 < width {
        (width - 2 - digits.len()) as nat
    } else {
        0
    };
    seq![seq!['0', 'x']] + Seq::new(pad, |i: int| seq!['0']).push(digits)
}

/// Appends the pieces of a zero-padded decimal number.
pub fn push_padded(pieces: &mut Vec<String>, n: u64, width: usize)
    ensures
        views(final(pieces)@) == views(old(pieces)@) + padded_pieces(n as nat, width as nat),
{
    let digits = decimal_string(n);
    let len = digits.as_str().unicode_len();
    proof {
        lemma_decimal_len(n as nat);
    }
    let pad: usize = if len < width {
        width - len
    } else {
        0
    };
    let ghost start = views(pieces@);
    let mut i: usize = 0;
    while i < pad
        invariant
            i <= pad,
            views(pieces@) =~= start + Seq::new(i as nat, |k: int| seq!['0']),
        decreases pad - i,
    {
        let ghost before = pieces@;
        let z = zero_str();
        pieces.push(z);
        i = i + 1;
        proof {
            lemma_views_push(before, z);
            assert(views(pieces@) =~= start + Seq::new(i as nat, |k: int| seq!['0']));
        }
    }
    let ghost before = pieces@;
    pieces.push(digits);
    proof {
        lemma_views_push(before, digits);
        assert(views(pieces@) =~= start + padded_pieces(n as nat, width as nat));
    }
}

/// Appends the pieces of a zero-padded `0x`-prefixed hexadecimal number.
pub fn push_hex_prefixed(pieces: &mut Vec<String>, n: u64, width: usize)
    ensures
        views(final(pieces)@) == views(old(pieces)@) + hex_prefixed_pieces(n as nat, width as nat),
{
    let digits = hex_string(n);
    let len = digits.as_str().unicode_len();
    let ghost start = views(pieces@);
    proof {
        reveal_strlit("0x");
    }
    let prefix = owned("0x");
    assert(prefix@ =~= seq!['0', 'x']);
    let ghost before = pieces@;
    pieces.push(prefix);
    proof {
        lemma_views_push(before, prefix);
        assert(views(pieces@) =~= start + seq![seq!['0', 'x']] + Seq::new(
            0,
            |k: int| seq!['0'],
        ));
    }
    let pad: usize = if len < width && width - len > 2 {
        width - 2 - len
    } else {
        0
    };
    let mut i: usize = 0;
    while i < pad
        invariant
            i <= pad,
            views(pieces@) =~= start + seq![seq!['0', 'x']] + Seq::new(
                i as nat,
                |k: int| seq!['0'],
            ),
        decreases pad - i,
    {
        let ghost before = pieces@;
        let z = zero_str();
        pieces.push(z);
        i = i + 1;
        proof {
            lemma_views_push(before, z);
            assert(views(pieces@) =~= start + seq![seq!['0', 'x']] + Seq::new(
                i as nat,
                |k: int| seq!['0'],
            ));
        }
    }
    let ghost before = pieces@;
    pieces.push(digits);
    proof {
        lemma_views_push(before, digits);
        assert(views(pieces@) =~= start + hex_prefixed_pieces(n as nat, width as nat));
    }
}

fn zero_str() -> (r: String)
    ensures
        r@ == seq!['0'],
{
    proof {
        reveal_strlit("0");
    }
    owned("0")
}

/// Appends a piece holding the text of a `&str`.
pub fn push_str_piece(pieces: &mut Vec<String>, s: &str)
    ensures
        views(final(pieces)@) == views(old(pieces)@).push(s@),
{
    let o = owned(s);
    pieces.push(o);
    proof {
        lemma_views_push(old(pieces)@, o);
    }
}

/// Appends a piece holding the decimal representation of `n`.
pub fn push_decimal(pieces: &mut Vec<String>, n: u64)
    ensures
        views(final(pieces)@) == views(old(pieces)@).push(decimal(n as nat)),
{
    let d = decimal_string(n);
    pieces.push(d);
    proof {
        lemma_views_push(old(pieces)@, d);
    }
}

/// Appends `pieces` to a buffer of `cap` bytes that holds `text` with
/// `used` bytes, and returns the new byte count.
pub fn write_to(text: &mut String, used: usize, pieces: &Vec<String>, cap: usize) -> (new_used:
    usize)
    requires
        used <= cap,
    ensures
        (final(text)@, new_used as nat) == write_pieces(
            old(text)@,
            used as nat,
            views(pieces@),
            cap as nat,
        ),
        new_used <= cap,
{
    let mut i: usize = 0;
    let mut cur: usize = used;
    assert(views(pieces@).subrange(0, pieces@.len() as int) =~= views(pieces@));
    while i < pieces.len()
        invariant
            i <= pieces@.len(),
            cur <= cap,
            used <= cap,
            write_pieces(old(text)@, used as nat, views(pieces@), cap as nat) == write_pieces(
                text@,
                cur as nat,
                views(pieces@).subrange(i as int, pieces@.len() as int),
                cap as nat,
            ),
        decreases pieces@.len() - i,
    {
        let ghost rest = views(pieces@).subrange(i as int, pieces@.len() as int);
        let p: &str = pieces[i].as_str();
        assert(rest[0] == p@);
        let n = p.as_bytes().len();
        assert(n == p.spec_bytes().len());
        if n > cap - cur {
            return cur;
        }
        let ghost t0 = text@;
        text.append(p);
        assert(text@ == t0 + rest[0]);
        assert(utf8_len(rest[0]) == n);
        cur = cur + n;
        i = i + 1;
        proof {
            assert(rest.drop_first() =~= views(pieces@).subrange(i as int, pieces@.len() as int));
        }
    }
    proof {
        assert(views(pieces@).subrange(i as int, pieces@.len() as int) =~= Seq::<Seq<char>>::empty());
    }
    cur
}

/// The text of a fresh buffer of `cap` bytes after `pieces` were written.
pub fn bounded(pieces: &Vec<String>, cap: usize) -> (r: String)
    ensures
        r@ == bounded_text(views(pieces@), cap as nat),
        utf8_len(r@) <= cap,
{
    proof {
        lemma_bounded_text_fits(views(pieces@), cap as nat);
    }
    let mut s = String::new();
    let _ = write_to(&mut s, 0, pieces, cap);
    s
}

} // verus!
