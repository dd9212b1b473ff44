//! Turning arbitrary display names into safe single path segments.
use vstd::prelude::*;
use crate::text::{chars_of, string_of};

verus! {

/// Longest name that `sanitize_filename` returns.
pub const MAX_NAME_LEN: usize = 240;

/// The characters that no file name on the most restrictive target may hold.
pub open spec fn is_reserved_char(c: char) -> bool {
    c == '<' || c == '>' || c == ':' || c == '"' || c == '/' || c == '\\' || c == '|'
        || c == '?' || c == '*'
}

/// A character that is replaced by `_`: reserved, an ASCII control, or not ASCII.
pub open spec fn is_unsafe_char(c: char) -> bool {
    is_reserved_char(c) || (c as u32) < 0x20 || (c as u32) >= 0x7f
}

/// What is trimmed off the ends of a name: spaces and periods. Once unsafe
/// characters are replaced, the space is the only whitespace or non-printable
/// character left.
pub open spec fn is_edge_char(c: char) -> bool {
    c == ' ' || c == '.'
}

pub open spec fn replace_char(c: char) -> char {
    if is_unsafe_char(c) { '_' } else { c }
}

pub open spec fn replace_unsafe(s: Seq<char>) -> Seq<char> {
    Seq::new(s.len(), |i: int| replace_char(s[i]))
}

pub open spec fn trim_start(s: Seq<char>) -> Seq<char>
    decreases s.len(),
{
    if s.len() > 0 && is_edge_char(s[0]) { trim_start(s.drop_first()) } else { s }
}

pub open spec fn trim_end(s: Seq<char>) -> Seq<char>
    decreases s.len(),
{
    if s.len() > 0 && is_edge_char(s.last()) { trim_end(s.drop_last()) } else { s }
}

/// `c` is the upper-case letter `up`, or its lower-case form.
pub open spec fn same_letter(c: char, up: char) -> bool {
    c == up || (c as u32) == (up as u32) + 32
}

pub open spec fn is_word3(s: Seq<char>, a: char, b: char, c: char) -> bool {
    same_letter(s[0], a) && same_letter(s[1], b) && same_letter(s[2], c)
}

/// A reserved device name, compared without regard to case: `CON`, `PRN`,
/// `AUX`, `NUL`, `COM1`-`COM9`, `LPT1`-`LPT9`.
pub open spec fn is_device_name(s: Seq<char>) -> bool {
    (s.len() == 3 && (is_word3(s, 'C', 'O', 'N') || is_word3(s, 'P', 'R', 'N')
        || is_word3(s, 'A', 'U', 'X') || is_word3(s, 'N', 'U', 'L')))
    || (s.len() == 4 && (is_word3(s, 'C', 'O', 'M') || is_word3(s, 'L', 'P', 'T'))
        && '1' <= s[3] && s[3] <= '9')
}

pub open spec fn unnamed() -> Seq<char> {
    seq!['u', 'n', 'n', 'a', 'm', 'e', 'd']
}

/// The safe name for `s`: unsafe characters replaced, ends trimmed, device
/// names prefixed with `_`, an empty result replaced by `unnamed`, the result
/// cut to 240 characters and its end trimmed again.
pub open spec fn sanitized(s: Seq<char>) -> Seq<char> {
    let b = trim_end(trim_start(replace_unsafe(s)));
    let c = if is_device_name(b) { seq!['_'] + b } else { b };
    let d = if c.len() == 0 { unnamed() } else { c };
    let e = if d.len() > 240 { d.subrange(0, 240) } else { d };
    trim_end(e)
}

/// Whether every character of `s` is one that `sanitize_filename` keeps.
pub open spec fn all_safe(s: Seq<char>) -> bool {
    forall|i: int| 0 <= i < s.len() ==> !is_unsafe_char(#[trigger] s[i])
}

/// Makes `filename` safe to use as a single path segment.
pub fn sanitize_filename(filename: &str) -> (r: String)
    ensures
        r@ == sanitized(filename@),
{
    let src = chars_of(filename);
    let n = src.len();
    let mut a: Vec<char> = Vec::new();
    let mut i: usize = 0;
    while i < n
        invariant
            n == src@.len(),
            i <= n,
            a@ == replace_unsafe(src@).subrange(0, i as int),
        decreases n - i,
    {
        let c = src[i];
        let ok = !(c == '<' || c == '>' || c == ':' || c == '"' || c == '/' || c == '\\'
            || c == '|' || c == '?' || c == '*' || (c as u32) < 0x20 || (c as u32) >= 0x7f);
        if ok {
            a.push(c);
        } else {
            a.push('_');
        }
        i = i + 1;
        assert(a@ =~= replace_unsafe(src@).subrange(0, i as int));
    }
    assert(a@ =~= replace_unsafe(src@));
    let mut lo: usize = 0;
    while lo < n && is_edge(a[lo])
        invariant
            n == a@.len(),
            lo <= n,
            trim_start(a@) == trim_start(a@.subrange(lo as int, n as int)),
        decreases n - lo,
    {
        assert(a@.subrange(lo as int, n as int).drop_first() =~= a@.subrange(lo + 1, n as int));
        lo = lo + 1;
    }
    let mut b: Vec<char> = Vec::new();
    let mut j: usize = lo;
    while j < n
        invariant
            n == a@.len(),
            lo <= j <= n,
            b@ == a@.subrange(lo as int, j as int),
        decreases n - j,
    {
        b.push(a[j]);
        j = j + 1;
        assert(b@ =~= a@.subrange(lo as int, j as int));
    }
    assert(b@ =~= trim_start(a@)) by {
        assert(a@.subrange(lo as int, n as int) =~= b@);
    };
    trim_end_in_place(&mut b);
    let mut c: Vec<char> = if device_name(&b) {
        let mut p: Vec<char> = Vec::new();
        p.push('_');
        let mut k: usize = 0;
        while k < b.len()
            invariant
                k <= b@.len(),
                p@ == seq!['_'] + b@.subrange(0, k as int),
            decreases b@.len() - k,
        {
            p.push(b[k]);
            k = k + 1;
            assert(p@ =~= seq!['_'] + b@.subrange(0, k as int));
        }
        assert(b@.subrange(0, b@.len() as int) =~= b@);
        p
    } else {
        b
    };
    if c.len() == 0 {
        c = vec!['u', 'n', 'n', 'a', 'm', 'e', 'd'];
        assert(c@ =~= unnamed());
    }
    if c.len() > MAX_NAME_LEN {
        c.truncate(MAX_NAME_LEN);
    }
    trim_end_in_place(&mut c);
    string_of(&c)
}

fn is_edge(c: char) -> (r: bool)
    ensures
        r == is_edge_char(c),
{
    c == ' ' || c == '.'
}

fn letter_is(c: char, up: char) -> (r: bool)
    ensures
        r == same_letter(c, up),
{
    c == up || (c as u32) == (up as u32) + 32
}

fn word3(s: &Vec<char>, a: char, b: char, c: char) -> (r: bool)
    requires
        s@.len() >= 3,
    ensures
        r == is_word3(s@, a, b, c),
{
    letter_is(s[0], a) && letter_is(s[1], b) && letter_is(s[2], c)
}

fn device_name(s: &Vec<char>) -> (r: bool)
    ensures
        r == is_device_name(s@),
{
    let n = s.len();
    if n != 3 && n != 4 {
        return false;
    }
    if n == 3 {
        word3(s, 'C', 'O', 'N') || word3(s, 'P', 'R', 'N') || word3(s, 'A', 'U', 'X')
            || word3(s, 'N', 'U', 'L')
    } else {
        (word3(s, 'C', 'O', 'M') || word3(s, 'L', 'P', 'T')) && '1' <= s[3] && s[3] <= '9'
    }
}

fn trim_end_in_place(v: &mut Vec<char>)
    ensures
        final(v)@ == trim_end(old(v)@),
{
    let ghost orig = v@;
    while v.len() > 0 && is_edge(v[v.len() - 1])
        invariant
            trim_end(orig) == trim_end(v@),
        decreases v@.len(),
    {
        let ghost before = v@;
        v.pop();
        assert(v@ =~= before.drop_last());
    }
}

// ---- facts about trimming ----

proof fn lemma_trim_start_shape(s: Seq<char>)
    ensures
        exists|k: int| 0 <= k <= s.len() && trim_start(s) == #[trigger] s.subrange(k, s.len() as int),
        trim_start(s).len() > 0 ==> !is_edge_char(trim_start(s)[0]),
    decreases s.len(),
{
    if s.len() > 0 && is_edge_char(s[0]) {
        lemma_trim_start_shape(s.drop_first());
        let k = choose|k: int| 0 <= k <= s.drop_first().len()
            && trim_start(s.drop_first()) == #[trigger] s.drop_first().subrange(k, s.drop_first().len() as int);
        assert(s.drop_first().subrange(k, s.drop_first().len() as int) =~= s.subrange(k + 1, s.len() as int));
    } else {
        assert(s.subrange(0, s.len() as int) =~= s);
    }
}

/// `trim_end(s)` is a prefix of `s` that keeps every non-edge character and
/// does not end on an edge character.
proof fn lemma_trim_end_shape(s: Seq<char>)
    ensures
        trim_end(s).len() <= s.len(),
        trim_end(s) == s.subrange(0, trim_end(s).len() as int),
        trim_end(s).len() > 0 ==> !is_edge_char(trim_end(s).last()),
        forall|i: int| 0 <= i < s.len() && !is_edge_char(#[trigger] s[i]) ==> i < trim_end(s).len(),
    decreases s.len(),
{
    if s.len() > 0 && is_edge_char(s.last()) {
        lemma_trim_end_shape(s.drop_last());
        let t = trim_end(s.drop_last());
        assert(s.drop_last().subrange(0, t.len() as int) =~= s.subrange(0, t.len() as int));
        assert forall|i: int| 0 <= i < s.len() && !is_edge_char(#[trigger] s[i]) implies i < t.len() by {
            assert(s.drop_last()[i] == s[i]);
        };
    } else {
        assert(s.subrange(0, s.len() as int) =~= s);
    }
}

proof fn lemma_trim_start_all_safe(s: Seq<char>)
    requires
        all_safe(s),
    ensures
        all_safe(trim_start(s)),
{
    lemma_trim_start_shape(s);
    let k = choose|k: int| 0 <= k <= s.len() && trim_start(s) == #[trigger] s.subrange(k, s.len() as int);
    assert forall|i: int| 0 <= i < trim_start(s).len() implies !is_unsafe_char(#[trigger] trim_start(s)[i]) by {
        assert(trim_start(s)[i] == s[k + i]);
    };
}

proof fn lemma_trim_end_all_safe(s: Seq<char>)
    requires
        all_safe(s),
    ensures
        all_safe(trim_end(s)),
{
    lemma_trim_end_shape(s);
    assert forall|i: int| 0 <= i < trim_end(s).len() implies !is_unsafe_char(#[trigger] trim_end(s)[i]) by {
        assert(trim_end(s)[i] == s[i]);
    };
}

proof fn lemma_replace_unsafe_all_safe(s: Seq<char>)
    ensures
        all_safe(replace_unsafe(s)),
{
    assert forall|i: int| 0 <= i < replace_unsafe(s).len() implies !is_unsafe_char(#[trigger] replace_unsafe(s)[i]) by {
        assert(replace_unsafe(s)[i] == replace_char(s[i]));
    };
}

/// A name whose characters are all safe is left as it is by the replacement.
proof fn lemma_replace_unsafe_identity(s: Seq<char>)
    requires
        all_safe(s),
    ensures
        replace_unsafe(s) == s,
{
    assert(replace_unsafe(s) =~= s);
}

/// The shape of every sanitised name: safe characters only, not empty, at
/// most 240 long, and neither starting nor ending with a space or period.
proof fn lemma_sanitized_shape(s: Seq<char>)
    ensures
        all_safe(sanitized(s)),
        sanitized(s).len() > 0,
        sanitized(s).len() <= 240,
        !is_edge_char(sanitized(s)[0]),
        !is_edge_char(sanitized(s).last()),
{
    let a = replace_unsafe(s);
    let t = trim_start(a);
    let b = trim_end(t);
    let c = if is_device_name(b) { seq!['_'] + b } else { b };
    let d = if c.len() == 0 { unnamed() } else { c };
    let e = if d.len() > 240 { d.subrange(0, 240) } else { d };
    lemma_replace_unsafe_all_safe(s);
    lemma_trim_start_all_safe(a);
    lemma_trim_end_all_safe(t);
    lemma_trim_start_shape(a);
    lemma_trim_end_shape(t);
    if b.len() > 0 {
        assert(b[0] == t[0]);
    }
    assert(all_safe(c)) by {
        if is_device_name(b) {
            assert forall|i: int| 0 <= i < c.len() implies !is_unsafe_char(#[trigger] c[i]) by {
                if i > 0 {
                    assert(c[i] == b[i - 1]);
                }
            };
        }
    };
    assert(all_safe(d)) by {
        if c.len() == 0 {
            assert forall|i: int| 0 <= i < d.len() implies !is_unsafe_char(#[trigger] d[i]) by {
                assert(d =~= seq!['u', 'n', 'n', 'a', 'm', 'e', 'd']);
            };
        }
    };
    assert(d.len() > 0 && !is_edge_char(d[0]));
    assert(all_safe(e));
    assert(e.len() > 0 && !is_edge_char(e[0]) && e.len() <= 240);
    lemma_trim_end_all_safe(e);
    lemma_trim_end_shape(e);
    assert(sanitized(s) == trim_end(e));
    assert(trim_end(e)[0] == e[0]);
}

/// Every sanitised name is non-empty, at most 240 characters long, and holds
/// none of the reserved characters `< > : " / \ | ? *`.
pub proof fn lemma_sanitized_is_safe(s: Seq<char>)
    ensures
        sanitized(s).len() > 0,
        sanitized(s).len() <= 240,
        forall|i: int| 0 <= i < sanitized(s).len() ==> !is_reserved_char(#[trigger] sanitized(s)[i]),
{
    lemma_sanitized_shape(s);
    assert forall|i: int| 0 <= i < sanitized(s).len() implies !is_reserved_char(#[trigger] sanitized(s)[i]) by {
        assert(!is_unsafe_char(sanitized(s)[i]));
    };
}

/// Sanitising a sanitised name changes nothing, unless the first pass ended
/// on a device name (a long name cut down to one, such as `CON` followed by
/// 240 periods and a letter).
pub proof fn lemma_sanitize_idempotent(s: Seq<char>)
    requires
        !is_device_name(sanitized(s)),
    ensures
        sanitized(sanitized(s)) == sanitized(s),
{
    let t = sanitized(s);
    lemma_sanitized_shape(s);
    lemma_replace_unsafe_identity(t);
    assert(trim_start(t) == t);
    assert(trim_end(t) == t);
}

} // verus!
