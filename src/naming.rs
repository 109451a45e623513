use vstd::prelude::*;
use vstd::string::StrSliceExecFns;

verus! {

/// The export-name form of one character: `_` becomes `-`.
pub open spec fn hyphen_of(c: char) -> char {
    if c == '_' {
        '-'
    } else {
        c
    }
}

/// A name with every `_` replaced by `-`.
pub open spec fn hyphenate(s: Seq<char>) -> Seq<char> {
    s.map_values(|c: char| hyphen_of(c))
}

/// What `char::to_uppercase` yields for `c`, as a sequence of characters.
pub uninterp spec fn upper_of(c: char) -> Seq<char>;

/// `s` with its first character upper-cased; the empty name stays empty.
pub open spec fn capitalize(s: Seq<char>) -> Seq<char> {
    if s.len() == 0 {
        Seq::empty()
    } else {
        upper_of(s[0]) + s.drop_first()
    }
}

/// Relies on `String::push`: appends exactly the one character.
#[verifier::external_body]
pub(crate) fn push_char(s: &mut String, c: char)
    ensures
        final(s)@ == old(s)@.push(c),
{
    s.push(c)
}

/// Relies on `char::to_uppercase`: the characters of the upper-case
/// mapping of `c`, collected into a string.
#[verifier::external_body]
fn uppercase_char(c: char) -> (r: String)
    ensures
        r@ == upper_of(c),
{
    c.to_uppercase().collect()
}

/// Replaces every `_` in `s` by `-`.
pub fn underscore_to_hyphen(s: &str) -> (r: String)
    ensures
        r@ == hyphenate(s@),
{
    let n = s.unicode_len();
    let mut r = String::new();
    let mut i: usize = 0;
    while i < n
        invariant
            n == s@.len(),
            i <= n,
            r@ == hyphenate(s@.subrange(0, i as int)),
        decreases n - i,
    {
        let c = s.get_char(i);
        let h = if c == '_' {
            '-'
        } else {
            c
        };
        push_char(&mut r, h);
        proof {
            assert(s@.subrange(0, i + 1) =~= s@.subrange(0, i as int).push(c));
            assert(hyphenate(s@.subrange(0, i + 1)) =~= hyphenate(s@.subrange(0, i as int)).push(h));
        }
        i = i + 1;
    }
    proof {
        assert(s@.subrange(0, n as int) =~= s@);
    }
    r
}

/// Upper-cases the first character of `s` and keeps the rest as it is.
pub fn some_kind_of_uppercase_first_letter(s: &str) -> (r: String)
    ensures
        r@ == capitalize(s@),
{
    let n = s.unicode_len();
    if n == 0 {
        return String::new();
    }
    let first = uppercase_char(s.get_char(0));
    replace_first_letter(first, s)
}

/// `s` with its first character replaced by `first`; the empty name stays
/// empty.
pub fn replace_first_letter(first: String, s: &str) -> (r: String)
    ensures
        s@.len() == 0 ==> r@.len() == 0,
        s@.len() > 0 ==> r@ == first@ + s@.drop_first(),
{
    let n = s.unicode_len();
    if n == 0 {
        return String::new();
    }
    let mut r = first;
    let rest = s.substring_char(1, n);
    r.append(rest);
    proof {
        assert(rest@ =~= s@.drop_first());
    }
    r
}

/// The struct name for a handler name: the `_`-separated segments, each
/// with its first character upper-cased, joined without separator.
/// `at_start` tells whether the next character begins a segment.
pub open spec fn camel_from(s: Seq<char>, at_start: bool) -> Seq<char>
    decreases s.len(),
{
    if s.len() == 0 {
        Seq::empty()
    } else if s[0] == '_' {
        camel_from(s.drop_first(), true)
    } else if at_start {
        upper_of(s[0]) + camel_from(s.drop_first(), false)
    } else {
        seq![s[0]] + camel_from(s.drop_first(), false)
    }
}

/// The name of the struct that implements the handler `func_name`:
/// `handle_event1` becomes `HandleEvent1`.
pub fn struct_name_of(func_name: &str) -> (r: String)
    ensures
        r@ == camel_from(func_name@, true),
{
    let n = func_name.unicode_len();
    let mut r = String::new();
    let mut at_start = true;
    let mut i: usize = 0;
    proof {
        assert(func_name@.subrange(0, n as int) =~= func_name@);
        assert(r@ + camel_from(func_name@, true) =~= camel_from(func_name@, true));
    }
    while i < n
        invariant
            n == func_name@.len(),
            i <= n,
            r@ + camel_from(func_name@.subrange(i as int, n as int), at_start) == camel_from(
                func_name@,
                true,
            ),
        decreases n - i,
    {
        let ghost rest = func_name@.subrange(i as int, n as int);
        let ghost old_r = r@;
        let c = func_name.get_char(i);
        proof {
            assert(rest[0] == c);
            assert(rest.drop_first() =~= func_name@.subrange(i + 1, n as int));
        }
        if c == '_' {
            at_start = true;
        } else if at_start {
            let u = uppercase_char(c);
            r.append(u.as_str());
            at_start = false;
            proof {
                assert(old_r + (upper_of(c) + camel_from(rest.drop_first(), false)) =~= r@
                    + camel_from(rest.drop_first(), false));
            }
        } else {
            push_char(&mut r, c);
            proof {
                assert(old_r + (seq![c] + camel_from(rest.drop_first(), false)) =~= r@ + camel_from(
                    rest.drop_first(),
                    false,
                ));
            }
        }
        i = i + 1;
    }
    proof {
        assert(func_name@.subrange(n as int, n as int) =~= Seq::<char>::empty());
        assert(r@ + Seq::<char>::empty() =~= r@);
    }
    r
}

} // verus!
