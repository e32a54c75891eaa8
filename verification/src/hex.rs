use vstd::prelude::*;

verus! {

/// The lower-case hexadecimal digit for `d`.
pub open spec fn hex_digit(d: nat) -> char {
    if d < 10 { (('0' as nat) + d) as char } else { (('a' as nat) + d - 10) as char }
}

/// The hexadecimal digits of `n`, without leading zeros.
pub open spec fn hex_digits(n: nat) -> Seq<char>
    decreases n,
{
    if n < 16 {
        seq![hex_digit(n)]
    } else {
        hex_digits(n / 16).push(hex_digit(n % 16))
    }
}

/// `s` with zeros in front to make it at least `width` long.
pub open spec fn zero_padded(s: Seq<char>, width: nat) -> Seq<char> {
    if s.len() < width {
        Seq::new((width - s.len()) as nat, |_i: int| '0') + s
    } else {
        s
    }
}

/// What starts each row of sixteen bytes: a new line, the offset, a colon.
pub open spec fn row_start(offset: nat) -> Seq<char> {
    seq!['\n'] + zero_padded(hex_digits(offset), 4) + seq![':', ' ']
}

/// How one byte is written: two digits and a space.
pub open spec fn byte_text(b: u8) -> Seq<char> {
    zero_padded(hex_digits(b as nat), 2) + seq![' ']
}

/// The dump of the first `k` bytes of `bytes`.
pub open spec fn dump_prefix(bytes: Seq<u8>, k: nat) -> Seq<char>
    decreases k,
{
    if k == 0 {
        Seq::empty()
    } else {
        let i = (k - 1) as nat;
        dump_prefix(bytes, i) + (if i % 16 == 0 { row_start(i) } else { Seq::empty() }) + byte_text(bytes[i as int])
    }
}

/// The hexadecimal dump of `bytes`: rows of sixteen bytes, each row led by its
/// offset, and a final new line.
pub open spec fn hex_dump_of(bytes: Seq<u8>) -> Seq<char> {
    dump_prefix(bytes, bytes.len()) + seq!['\n']
}

/// Appends `c` to `s` by std's `String::push`; trusted to add exactly that
/// character at the end of the string's characters.
#[verifier::external_body]
fn push_char(s: &mut String, c: char)
    ensures
        final(s)@ == old(s)@.push(c),
{
    s.push(c);
}

/// The digit for `d`.
fn digit_char(d: usize) -> (c: char)
    requires
        d < 16,
    ensures
        c == hex_digit(d as nat),
{
    let digits: [char; 16] = ['0', '1', '2', '3', '4', '5', '6', '7', '8', '9', 'a', 'b', 'c', 'd', 'e', 'f'];
    let c = digits[d];
    assert(c == hex_digit(d as nat)) by {
        assert(digits@[d as int] == c);
    }
    c
}

/// The digits of `n`, most significant first.
fn digits_of(n: usize) -> (r: Vec<char>)
    ensures
        r@ == hex_digits(n as nat),
    decreases n,
{
    if n < 16 {
        let mut v: Vec<char> = Vec::new();
        v.push(digit_char(n));
        v
    } else {
        let mut v = digits_of(n / 16);
        v.push(digit_char(n % 16));
        v
    }
}

/// Appends the digits of `n`, with zeros in front up to `width` characters.
fn push_padded(out: &mut String, n: usize, width: usize)
    ensures
        final(out)@ == old(out)@ + zero_padded(hex_digits(n as nat), width as nat),
{
    let digits = digits_of(n);
    let ghost start = out@;
    let mut k: usize = digits.len();
    while k < width
        invariant
            digits.len() <= k <= width || (k == digits.len() && k >= width),
            out@ == start + Seq::new((k - digits@.len()) as nat, |_i: int| '0'),
        decreases width - k,
    {
        push_char(out, '0');
        proof {
            assert(Seq::new((k + 1 - digits@.len()) as nat, |_i: int| '0')
                =~= Seq::new((k - digits@.len()) as nat, |_i: int| '0').push('0'));
        }
        k = k + 1;
    }
    let ghost padded = out@;
    let mut j: usize = 0;
    while j < digits.len()
        invariant
            j <= digits@.len(),
            out@ == padded + digits@.take(j as int),
        decreases digits@.len() - j,
    {
        push_char(out, digits[j]);
        proof { assert(digits@.take(j + 1) =~= digits@.take(j as int).push(digits@[j as int])); }
        j = j + 1;
    }
    proof {
        assert(digits@.take(j as int) =~= digits@);
        if digits@.len() < width {
            assert(k == width);
        } else {
            assert(Seq::new((k - digits@.len()) as nat, |_i: int| '0') =~= Seq::<char>::empty());
        }
        assert(out@ =~= start + zero_padded(hex_digits(n as nat), width as nat));
    }
}

/// Writes `bytes` as a hexadecimal dump.
pub fn hex_dump(bytes: &[u8]) -> (r: String)
    ensures
        r@ == hex_dump_of(bytes@),
{
    let mut out = String::new();
    let mut i: usize = 0;
    while i < bytes.len()
        invariant
            i <= bytes@.len(),
            out@ == dump_prefix(bytes@, i as nat),
        decreases bytes@.len() - i,
    {
        if i % 16 == 0 {
            push_char(&mut out, '\n');
            push_padded(&mut out, i, 4);
            push_char(&mut out, ':');
            push_char(&mut out, ' ');
        }
        push_padded(&mut out, bytes[i] as usize, 2);
        push_char(&mut out, ' ');
        proof {
            assert(out@ =~= dump_prefix(bytes@, (i + 1) as nat));
        }
        i = i + 1;
    }
    push_char(&mut out, '\n');
    out
}

} // verus!
