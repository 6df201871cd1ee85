use vstd::prelude::*;

verus! {

/// Relies on `String::push`, which appends one character to the string.
pub assume_specification[ String::push ](s: &mut String, ch: char)
    ensures
        final(s)@ == old(s)@.push(ch),
;

/// A string made of `n` blanks.
pub open spec fn blanks(n: nat) -> Seq<char> {
    Seq::new(n, |i: int| ' ')
}

/// Appends `n` copies of `ch` to `s`.
pub fn push_repeated(s: &mut String, ch: char, n: usize)
    ensures
        final(s)@ == old(s)@ + Seq::new(n as nat, |i: int| ch),
{
    let ghost start = s@;
    let mut k: usize = 0;
    while k < n
        invariant
            k <= n,
            s@ == start + Seq::new(k as nat, |i: int| ch),
        decreases n - k,
    {
        s.push(ch);
        k = k + 1;
        assert(s@ =~= start + Seq::new(k as nat, |i: int| ch));
    }
}

/// A string of `n` blanks.
pub fn blank_string(n: usize) -> (s: String)
    ensures
        s@ == blanks(n as nat),
{
    let mut s = String::new();
    push_repeated(&mut s, ' ', n);
    assert(s@ =~= blanks(n as nat));
    s
}

} // verus!
