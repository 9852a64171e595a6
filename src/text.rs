//! Character-level helpers shared by the vault and the importer.
use vstd::prelude::*;
use vstd::std_specs::iter::IteratorSpec;

verus! {

/// The longest a sanitized field may be, in characters.
pub const MAX_FIELD_CHARS: usize = 1000;

/// `s` with every NUL character removed, the others kept in order.
pub open spec fn strip_nul(s: Seq<char>) -> Seq<char>
    decreases s.len(),
{
    if s.len() == 0 {
        s
    } else if s.last() == '\0' {
        strip_nul(s.drop_last())
    } else {
        strip_nul(s.drop_last()).push(s.last())
    }
}

/// A field as it is stored: NULs stripped, then cut to `MAX_FIELD_CHARS`.
pub open spec fn sanitized(s: Seq<char>) -> Seq<char> {
    let t = strip_nul(s);
    if t.len() <= MAX_FIELD_CHARS {
        t
    } else {
        t.take(MAX_FIELD_CHARS as int)
    }
}

/// What `str::to_lowercase` makes of a string.
pub uninterp spec fn lower_of(s: Seq<char>) -> Seq<char>;

/// The characters of `s`, in order.
pub(crate) fn chars_of(s: &str) -> (r: Vec<char>)
    ensures
        r@ == s@,
{
    let mut it = s.chars();
    let mut out: Vec<char> = Vec::new();
    loop
        invariant
            out@ + it.remaining() == s@,
            it.decrease() is Some,
        ensures
            out@ == s@,
        decreases it.decrease()->0,
    {
        match it.next() {
            Some(c) => {
                out.push(c);
            },
            None => {
                assert(out@ + it.remaining() =~= out@);
                break;
            },
        }
    }
    out
}

/// Relies on `String: FromIterator<&char>`: the string of these characters.
#[verifier::external_body]
pub(crate) fn string_from_chars(v: &[char]) -> (r: String)
    ensures
        r@ == v@,
{
    v.iter().collect()
}

/// The characters of `s` are ASCII, and none is an uppercase letter.
pub open spec fn ascii_without_upper(s: Seq<char>) -> bool {
    forall|i: int| 0 <= i < s.len() ==> (s[i] as u32) < 128 && !('A' <= #[trigger] s[i] <= 'Z')
}

/// Relies on `str::to_lowercase`, whose result depends on the characters
/// alone, and which maps an ASCII character other than `A`..=`Z` to itself.
#[verifier::external_body]
pub(crate) fn to_lower(s: &str) -> (r: String)
    ensures
        r@ == lower_of(s@),
        ascii_without_upper(s@) ==> r@ == s@,
{
    s.to_lowercase()
}

/// Removes every NUL character from `input` and keeps at most the first
/// `MAX_FIELD_CHARS` characters of what is left.
pub fn sanitize_string(input: &str) -> (r: String)
    ensures
        r@ == sanitized(input@),
{
    let cs = chars_of(input);
    let mut out: Vec<char> = Vec::new();
    let mut i: usize = 0;
    while i < cs.len()
        invariant
            0 <= i <= cs@.len(),
            cs@ == input@,
            out@ == strip_nul(cs@.take(i as int)),
        decreases cs@.len() - i,
    {
        assert(cs@.take(i as int + 1).drop_last() == cs@.take(i as int));
        if cs[i] != '\0' {
            out.push(cs[i]);
        }
        i += 1;
    }
    assert(cs@.take(cs@.len() as int) == cs@);
    if out.len() > MAX_FIELD_CHARS {
        out.truncate(MAX_FIELD_CHARS);
    }
    string_from_chars(out.as_slice())
}

} // verus!
