use vstd::prelude::*;
use vstd::std_specs::iter::IteratorSpec;

verus! {

/// The sixteen lower-case hexadecimal digits, in order of value.
pub open spec fn hex_alphabet() -> Seq<char> {
    seq!['0', '1', '2', '3', '4', '5', '6', '7', '8', '9', 'a', 'b', 'c', 'd', 'e', 'f']
}

/// The value of a lower-case hexadecimal digit, if `c` is one.
pub open spec fn hex_val(c: char) -> Option<u64> {
    if '0' <= c && c <= '9' {
        Some((c as u64 - 48) as u64)
    } else if 'a' <= c && c <= 'f' {
        Some((c as u64 - 87) as u64)
    } else {
        None
    }
}

/// Whether every character of `s` is a lower-case hexadecimal digit.
pub open spec fn all_hex(s: Seq<char>) -> bool {
    forall|i: int| 0 <= i < s.len() ==> (#[trigger] hex_val(s[i])) is Some
}

/// Two hexadecimal digits for each byte, high nibble first.
pub open spec fn hex_of(b: Seq<u8>) -> Seq<char>
    decreases b.len(),
{
    if b.len() == 0 {
        Seq::empty()
    } else {
        let last = b.last();
        hex_of(b.drop_last()).push(hex_alphabet()[(last / 16) as int]).push(
            hex_alphabet()[(last % 16) as int],
        )
    }
}

/// The nibble of `x` shown by the `i`-th of its sixteen hexadecimal digits.
pub open spec fn nibble(x: u64, i: int) -> u64 {
    (x >> ((60 - 4 * i) as u64)) & 15
}

/// `x` written as exactly sixteen hexadecimal digits, most significant first.
pub open spec fn hex16(x: u64) -> Seq<char> {
    Seq::new(16, |i: int| hex_alphabet()[nibble(x, i) as int])
}

/// The value of the first `n` characters of `s` read as hexadecimal digits.
pub open spec fn hex_prefix_value(s: Seq<char>, n: nat) -> u64
    decreases n,
{
    if n == 0 {
        0
    } else {
        ((hex_prefix_value(s, (n - 1) as nat) << 4u64) | hex_val(s[n - 1]).unwrap_or(0))
    }
}

/// The number written by exactly sixteen hexadecimal digits, if `s` is that.
pub open spec fn dec16(s: Seq<char>) -> Option<u64> {
    if s.len() == 16 && forall|i: int| 0 <= i < 16 ==> (#[trigger] hex_val(s[i])) is Some {
        Some(hex_prefix_value(s, 16))
    } else {
        None
    }
}

pub proof fn lemma_hex_val_of_digit(n: u64)
    requires
        n < 16,
    ensures
        hex_val(hex_alphabet()[n as int]) == Some(n),
{
}

pub proof fn lemma_hex_of_len(b: Seq<u8>)
    ensures
        hex_of(b).len() == 2 * b.len(),
    decreases b.len(),
{
    if b.len() > 0 {
        lemma_hex_of_len(b.drop_last());
    }
}

/// Different byte strings have different hexadecimal texts.
pub proof fn lemma_hex_of_injective(a: Seq<u8>, b: Seq<u8>)
    requires
        hex_of(a) == hex_of(b),
    ensures
        a == b,
    decreases a.len(),
{
    lemma_hex_of_len(a);
    lemma_hex_of_len(b);
    if a.len() > 0 {
        let (x, y) = (a.last(), b.last());
        let ha = hex_of(a);
        assert(hex_of(a.drop_last()) =~= ha.subrange(0, ha.len() - 2));
        assert(hex_of(b.drop_last()) =~= ha.subrange(0, ha.len() - 2));
        lemma_hex_of_injective(a.drop_last(), b.drop_last());
        lemma_hex_val_of_digit((x / 16) as u64);
        lemma_hex_val_of_digit((y / 16) as u64);
        lemma_hex_val_of_digit((x % 16) as u64);
        lemma_hex_val_of_digit((y % 16) as u64);
        assert(ha[ha.len() - 2] == hex_alphabet()[(x / 16) as int]);
        assert(ha[ha.len() - 2] == hex_alphabet()[(y / 16) as int]);
        assert(x / 16 == y / 16);
        assert(ha[ha.len() - 1] == hex_alphabet()[(x % 16) as int]);
        assert(ha[ha.len() - 1] == hex_alphabet()[(y % 16) as int]);
        assert(x % 16 == y % 16);
        assert(x == y);
        assert(a =~= a.drop_last().push(x));
        assert(b =~= b.drop_last().push(y));
    }
}

proof fn lemma_nibble_bound(x: u64, i: int)
    ensures
        nibble(x, i) < 16,
{
    let s = (60 - 4 * i) as u64;
    assert((x >> s) & 15 < 16) by (bit_vector);
}

proof fn lemma_nibble_step(x: u64, s: u64)
    requires
        s <= 60,
    ensures
        ((x >> ((s + 4) as u64)) << 4u64) | ((x >> s) & 15) == x >> s,
{
    assert(((x >> ((s + 4) as u64)) << 4u64) | ((x >> s) & 15) == x >> s) by (bit_vector)
        requires
            s <= 60,
    ;
}

proof fn lemma_hex16_prefix(x: u64, n: nat)
    requires
        n <= 16,
    ensures
        n == 0 ==> hex_prefix_value(hex16(x), n) == 0,
        n > 0 ==> hex_prefix_value(hex16(x), n) == x >> ((64 - 4 * n) as u64),
    decreases n,
{
    if n > 0 {
        lemma_hex16_prefix(x, (n - 1) as nat);
        let s = (64 - 4 * n) as u64;
        lemma_nibble_bound(x, n - 1);
        lemma_hex_val_of_digit(nibble(x, n - 1));
        assert(hex_val(hex16(x)[n - 1]) == Some(nibble(x, n - 1)));
        assert(nibble(x, n - 1) == (x >> s) & 15);
        if n == 1 {
            assert(x >> 64u64 == 0) by (bit_vector);
            assert(((0u64 << 4u64) | ((x >> 60u64) & 15)) == x >> 60u64) by (bit_vector);
        } else {
            lemma_nibble_step(x, s);
        }
    }
}

/// Reading back the sixteen digits written for `x` gives `x`.
pub proof fn lemma_dec16_hex16(x: u64)
    ensures
        dec16(hex16(x)) == Some(x),
{
    assert forall|i: int| 0 <= i < 16 implies (#[trigger] hex_val(hex16(x)[i])) is Some by {
        lemma_nibble_bound(x, i);
        lemma_hex_val_of_digit(nibble(x, i));
    }
    lemma_hex16_prefix(x, 16);
    assert(x >> 0u64 == x) by (bit_vector);
}

/// The characters of `s`, in order.
pub fn chars_of(s: &str) -> (r: Vec<char>)
    ensures
        r@ == s@,
{
    broadcast use {vstd::string::axiom_spec_iter, vstd::string::next_postcondition};

    let mut it = s.chars();
    let mut out: Vec<char> = Vec::new();
    loop
        invariant
            out@ + it.remaining() == s@,
            it.decrease() is Some,
        ensures
            out@ == s@,
        decreases it.decrease()->0,
    {
        match it.next() {
            Some(c) => {
                out.push(c);
            },
            None => {
                assert(it.remaining().len() == 0);
                assert(out@ =~= s@);
                break;
            },
        }
    }
    out
}

/// Relies on `String::push`: the character is appended at the end.
#[verifier::external_body]
fn push_char(s: &mut String, c: char)
    ensures
        final(s)@ == old(s)@.push(c),
{
    s.push(c)
}

/// The string made of the characters of `v`, in order.
pub fn string_of(v: &Vec<char>) -> (r: String)
    ensures
        r@ == v@,
{
    let mut out = String::new();
    let mut i: usize = 0;
    while i < v.len()
        invariant
            i <= v@.len(),
            out@ == v@.subrange(0, i as int),
        decreases v@.len() - i,
    {
        push_char(&mut out, v[i]);
        assert(v@.subrange(0, i + 1) =~= v@.subrange(0, i as int).push(v@[i as int]));
        i = i + 1;
    }
    assert(v@.subrange(0, v@.len() as int) =~= v@);
    out
}

/// The hexadecimal digit of value `n`.
pub fn hex_digit(n: u64) -> (c: char)
    requires
        n < 16,
    ensures
        c == hex_alphabet()[n as int],
{
    match n {
        0 => '0',
        1 => '1',
        2 => '2',
        3 => '3',
        4 => '4',
        5 => '5',
        6 => '6',
        7 => '7',
        8 => '8',
        9 => '9',
        10 => 'a',
        11 => 'b',
        12 => 'c',
        13 => 'd',
        14 => 'e',
        _ => 'f',
    }
}

/// The value of `c` as a lower-case hexadecimal digit.
pub fn hex_value(c: char) -> (r: Option<u64>)
    ensures
        r == hex_val(c),
{
    if '0' <= c && c <= '9' {
        Some(c as u64 - 48)
    } else if 'a' <= c && c <= 'f' {
        Some(c as u64 - 87)
    } else {
        None
    }
}

/// Two hexadecimal digits for each byte of `b`, high nibble first.
pub fn hex_encode(b: &Vec<u8>) -> (r: Vec<char>)
    ensures
        r@ == hex_of(b@),
{
    let mut out: Vec<char> = Vec::new();
    let mut i: usize = 0;
    while i < b.len()
        invariant
            i <= b.len(),
            out@ == hex_of(b@.subrange(0, i as int)),
        decreases b.len() - i,
    {
        let byte = b[i];
        out.push(hex_digit((byte / 16) as u64));
        out.push(hex_digit((byte % 16) as u64));
        assert(b@.subrange(0, i + 1).drop_last() =~= b@.subrange(0, i as int));
        i = i + 1;
    }
    assert(b@.subrange(0, b.len() as int) =~= b@);
    out
}

/// Appends the sixteen hexadecimal digits of `x` to `out`.
pub fn push_hex16(out: &mut Vec<char>, x: u64)
    ensures
        final(out)@ == old(out)@ + hex16(x),
{
    let ghost start = old(out)@;
    let mut i: u64 = 0;
    while i < 16
        invariant
            i <= 16,
            out@ == start + hex16(x).subrange(0, i as int),
        decreases 16 - i,
    {
        let d = (x >> (60 - 4 * i)) & 15;
        proof {
            lemma_nibble_bound(x, i as int);
        }
        out.push(hex_digit(d));
        assert(hex16(x).subrange(0, i + 1) =~= hex16(x).subrange(0, i as int).push(
            hex16(x)[i as int],
        ));
        i = i + 1;
    }
    assert(hex16(x).subrange(0, 16) =~= hex16(x));
}

/// The number written by the sixteen characters of `v` from `start`, if they are
/// all hexadecimal digits.
pub fn decode_hex16(v: &Vec<char>, start: usize) -> (r: Option<u64>)
    requires
        start + 16 <= v@.len(),
    ensures
        r == dec16(v@.subrange(start as int, start + 16)),
{
    let ghost s = v@.subrange(start as int, start + 16);
    let _len = v.len();
    let mut acc: u64 = 0;
    let mut i: usize = 0;
    while i < 16
        invariant
            i <= 16,
            start + 16 <= v@.len(),
            v@.len() == _len,
            s == v@.subrange(start as int, start + 16),
            forall|j: int| 0 <= j < i ==> (#[trigger] hex_val(s[j])) is Some,
            acc == hex_prefix_value(s, i as nat),
        decreases 16 - i,
    {
        match hex_value(v[start + i]) {
            None => {
                assert(hex_val(s[i as int]) is None);
                return None;
            },
            Some(d) => {
                acc = (acc << 4u64) | d;
                i = i + 1;
            },
        }
    }
    Some(acc)
}

/// Whether `a[ia..ia + n]` and `b[ib..ib + n]` hold the same characters; every
/// position is looked at, whatever the first difference.
pub fn same_chars(a: &Vec<char>, ia: usize, b: &Vec<char>, ib: usize, n: usize) -> (r: bool)
    requires
        ia + n <= a@.len(),
        ib + n <= b@.len(),
    ensures
        r == (a@.subrange(ia as int, ia + n) == b@.subrange(ib as int, ib + n)),
{
    let _la = a.len();
    let _lb = b.len();
    let mut same = true;
    let mut i: usize = 0;
    while i < n
        invariant
            i <= n,
            ia + n <= a@.len(),
            ib + n <= b@.len(),
            a@.len() == _la,
            b@.len() == _lb,
            same == (forall|j: int| 0 <= j < i ==> #[trigger] a@[ia + j] == b@[ib + j]),
        decreases n - i,
    {
        let eq = a[ia + i] == b[ib + i];
        same = same && eq;
        i = i + 1;
    }
    if same {
        assert forall|j: int| 0 <= j < n implies #[trigger] a@.subrange(ia as int, ia + n)[j] == b@.subrange(
            ib as int,
            ib + n,
        )[j] by {
            assert(a@[ia + j] == b@[ib + j]);
        }
        assert(a@.subrange(ia as int, ia + n) =~= b@.subrange(ib as int, ib + n));
    } else {
        assert(exists|j: int| 0 <= j < n && #[trigger] a@[ia + j] != b@[ib + j]);
        let ghost j = choose|j: int| 0 <= j < n && #[trigger] a@[ia + j] != b@[ib + j];
        assert(a@.subrange(ia as int, ia + n)[j] != b@.subrange(ib as int, ib + n)[j]);
    }
    same
}

/// Whether `a` and `b` hold the same characters.
pub fn str_eq(a: &str, b: &str) -> (r: bool)
    ensures
        r == (a@ == b@),
{
    let x = chars_of(a);
    let y = chars_of(b);
    if x.len() != y.len() {
        return false;
    }
    let same = same_chars(&x, 0, &y, 0, x.len());
    assert(x@.subrange(0, x@.len() as int) =~= x@);
    assert(y@.subrange(0, y@.len() as int) =~= y@);
    same
}

/// The characters `v[lo..hi]`, in order.
pub fn slice_chars(v: &Vec<char>, lo: usize, hi: usize) -> (r: Vec<char>)
    requires
        lo <= hi <= v@.len(),
    ensures
        r@ == v@.subrange(lo as int, hi as int),
{
    let mut out: Vec<char> = Vec::new();
    let mut i: usize = lo;
    while i < hi
        invariant
            lo <= i <= hi <= v@.len(),
            out@ == v@.subrange(lo as int, i as int),
        decreases hi - i,
    {
        out.push(v[i]);
        assert(v@.subrange(lo as int, i + 1) =~= v@.subrange(lo as int, i as int).push(v@[i as int]));
        i = i + 1;
    }
    out
}

} // verus!
