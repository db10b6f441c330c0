use vstd::prelude::*;

verus! {

/// Relies on `String::push`: the character is appended at the end of the string.
pub assume_specification[ String::push ](s: &mut String, ch: char)
    ensures
        final(s)@ == old(s)@.push(ch),
;

/// The characters of `chars` from index `from` on, as a string.
pub fn string_from_chars(chars: &[char], from: usize) -> (r: String)
    requires
        from <= chars@.len(),
    ensures
        r@ == chars@.subrange(from as int, chars@.len() as int),
{
    let mut s = String::new();
    let mut i = from;
    while i < chars.len()
        invariant
            from <= i <= chars@.len(),
            s@ == chars@.subrange(from as int, i as int),
        decreases chars@.len() - i,
    {
        s.push(chars[i]);
        i = i + 1;
        assert(s@ =~= chars@.subrange(from as int, i as int));
    }
    s
}

} // verus!
