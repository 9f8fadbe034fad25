use vstd::prelude::*;

verus! {

/// The character of a decimal digit.
pub open spec fn digit_char(d: nat) -> char {
    if d == 0 { '0' }
    else if d == 1 { '1' }
    else if d == 2 { '2' }
    else if d == 3 { '3' }
    else if d == 4 { '4' }
    else if d == 5 { '5' }
    else if d == 6 { '6' }
    else if d == 7 { '7' }
    else if d == 8 { '8' }
    else { '9' }
}

/// The shortest decimal rendering of `n`.
pub open spec fn decimal(n: nat) -> Seq<char>
    decreases n,
{
    if n < 10 {
        seq![digit_char(n)]
    } else {
        decimal(n / 10).push(digit_char(n % 10))
    }
}

/// The lowest `w` decimal digits of `n`, most significant first, padded with zeros.
pub open spec fn padded(n: nat, w: nat) -> Seq<char>
    decreases w,
{
    if w == 0 {
        Seq::empty()
    } else {
        padded(n / 10, (w - 1) as nat).push(digit_char(n % 10))
    }
}

pub open spec fn pow10(w: nat) -> nat
    decreases w,
{
    if w == 0 { 1 } else { 10 * pow10((w - 1) as nat) }
}

/// Number of digits in the shortest decimal rendering of `n`.
pub open spec fn num_digits(n: nat) -> nat
    decreases n,
{
    if n < 10 { 1 } else { 1 + num_digits(n / 10) }
}

/// Digits given to each frame index of an archive holding `count` frames:
/// three, or as many as the last index needs when that is more.
pub open spec fn index_width(count: nat) -> nat {
    if count <= 1000 { 3 } else { num_digits((count - 1) as nat) }
}

pub open spec fn frames_prefix() -> Seq<char> {
    seq!['f', 'r', 'a', 'm', 'e', 's', '/']
}

pub open spec fn svg_suffix() -> Seq<char> {
    seq!['.', 's', 'v', 'g']
}

/// Name of the entry holding the frame at position `i`, with `w` index digits.
pub open spec fn frame_name(i: nat, w: nat) -> Seq<char> {
    frames_prefix() + padded(i, w) + svg_suffix()
}

fn digit_str(d: u64) -> (r: &'static str)
    requires
        d < 10,
    ensures
        r@ == seq![digit_char(d as nat)],
{
    proof {
        reveal_strlit("0");
        reveal_strlit("1");
        reveal_strlit("2");
        reveal_strlit("3");
        reveal_strlit("4");
        reveal_strlit("5");
        reveal_strlit("6");
        reveal_strlit("7");
        reveal_strlit("8");
        reveal_strlit("9");
    }
    if d == 0 { "0" }
    else if d == 1 { "1" }
    else if d == 2 { "2" }
    else if d == 3 { "3" }
    else if d == 4 { "4" }
    else if d == 5 { "5" }
    else if d == 6 { "6" }
    else if d == 7 { "7" }
    else if d == 8 { "8" }
    else { "9" }
}

/// Appends the shortest decimal rendering of `n`.
pub fn push_decimal(s: &mut String, n: u64)
    ensures
        final(s)@ == old(s)@ + decimal(n as nat),
    decreases n,
{
    if n >= 10 {
        push_decimal(s, n / 10);
    }
    s.append(digit_str(n % 10));
    assert(final(s)@ =~= old(s)@ + decimal(n as nat));
}

/// Appends the lowest `w` decimal digits of `n`, zero padded.
pub fn push_padded(s: &mut String, n: u64, w: usize)
    ensures
        final(s)@ == old(s)@ + padded(n as nat, w as nat),
    decreases w,
{
    if w > 0 {
        push_padded(s, n / 10, w - 1);
        s.append(digit_str(n % 10));
    }
    assert(final(s)@ =~= old(s)@ + padded(n as nat, w as nat));
}

/// Name of the entry holding the frame at position `index`, with `width` index digits.
pub fn frame_entry_name(index: usize, width: usize) -> (r: String)
    ensures
        r@ == frame_name(index as nat, width as nat),
{
    proof {
        reveal_strlit("frames/");
        reveal_strlit(".svg");
    }
    let mut s = "frames/".to_owned();
    push_padded(&mut s, index as u64, width);
    s.append(".svg");
    assert(s@ =~= frame_name(index as nat, width as nat));
    s
}

/// Number of index digits used for every frame of an archive of `count` frames.
pub fn frame_index_width(count: usize) -> (r: usize)
    ensures
        r as nat == index_width(count as nat),
{
    if count <= 1000 {
        return 3;
    }
    let mut n: usize = count - 1;
    let mut w: usize = 1;
    while n >= 10
        invariant
            count > 1000,
            w + num_digits(n as nat) == num_digits((count - 1) as nat) + 1,
            w + n <= count,
        decreases n,
    {
        n = n / 10;
        w = w + 1;
    }
    w
}

} // verus!
