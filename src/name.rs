use vstd::prelude::*;
use crate::bank::WaveEntry;
use crate::cursor::copy_span;
use crate::text::push_char;

verus! {

/// Printable ASCII, minus the characters that paths cannot hold.
pub open spec fn is_name_byte(c: u8) -> bool {
    0x20 <= c <= 0x7E && c != 0x22 && c != 0x24 && c != 0x2A && c != 0x2F && c != 0x3A
        && c != 0x3B && c != 0x3C && c != 0x3E && c != 0x3F && c != 0x5C && c != 0x5E
        && c != 0x60
}

/// The index of the first byte at or after `i` that may not stand in a name.
pub open spec fn first_invalid(s: Seq<u8>, i: int) -> int
    decreases s.len() - i,
{
    if i >= s.len() || i < 0 {
        s.len() as int
    } else if !is_name_byte(s[i]) {
        i
    } else {
        first_invalid(s, i + 1)
    }
}

/// The length of `s.take(n)` once its trailing spaces are dropped.
pub open spec fn trim_spaces(s: Seq<u8>, n: int) -> int
    decreases n,
{
    if n <= 0 {
        0
    } else if s[n - 1] == 0x20 {
        trim_spaces(s, n - 1)
    } else {
        n
    }
}

/// How many characters of a raw name field survive: the valid prefix,
/// less its trailing spaces.
pub open spec fn kept_len(raw: Seq<u8>) -> int {
    trim_spaces(raw, first_invalid(raw, 0))
}

/// A raw name field with its garbage tail and trailing spaces nulled.
pub open spec fn sanitized(raw: Seq<u8>) -> Seq<char> {
    Seq::new(raw.len(), |i: int| if i < kept_len(raw) { raw[i] as char } else { '\0' })
}

/// The index of the first null at or after `i`.
pub open spec fn first_null(n: Seq<char>, i: int) -> int
    decreases n.len() - i,
{
    if i >= n.len() || i < 0 {
        n.len() as int
    } else if n[i] == '\0' {
        i
    } else {
        first_null(n, i + 1)
    }
}

/// The text of a name: everything before its first null.
pub open spec fn name_text(n: Seq<char>) -> Seq<char> {
    n.take(first_null(n, 0))
}

proof fn lemma_first_invalid_bounds(s: Seq<u8>, i: int)
    requires
        0 <= i <= s.len(),
    ensures
        i <= first_invalid(s, i) <= s.len(),
        forall|j: int| i <= j < first_invalid(s, i) ==> is_name_byte(#[trigger] s[j]),
    decreases s.len() - i,
{
    if i < s.len() && is_name_byte(s[i]) {
        lemma_first_invalid_bounds(s, i + 1);
    }
}

proof fn lemma_trim_bounds(s: Seq<u8>, n: int)
    requires
        0 <= n <= s.len(),
    ensures
        0 <= trim_spaces(s, n) <= n,
    decreases n,
{
    if n > 0 && s[n - 1] == 0x20 {
        lemma_trim_bounds(s, n - 1);
    }
}

proof fn lemma_first_null_bounds(n: Seq<char>, i: int)
    requires
        0 <= i <= n.len(),
    ensures
        i <= first_null(n, i) <= n.len(),
        forall|j: int| i <= j < first_null(n, i) ==> #[trigger] n[j] != '\0',
    decreases n.len() - i,
{
    if i < n.len() && n[i] != '\0' {
        lemma_first_null_bounds(n, i + 1);
    }
}

/// Sanitizes a name field, the first 20 bytes of `raw`: from the first
/// byte that may not stand in a name on, and for trailing spaces, the
/// field holds nulls.
pub fn parse_name(raw: &[u8]) -> (r: Vec<char>)
    requires
        raw@.len() >= 20,
    ensures
        r@ == sanitized(raw@.take(20)),
{
    let field = copy_span(raw, 0, 20);
    assert(field@ =~= raw@.take(20));
    sanitize_field(field.as_slice())
}

fn sanitize_field(raw: &[u8]) -> (r: Vec<char>)
    requires
        raw@.len() == 20,
    ensures
        r@ == sanitized(raw@),
{
    let mut g: usize = 0;
    while g < raw.len() && WaveEntry::valid_char(&raw[g])
        invariant
            g <= raw@.len(),
            first_invalid(raw@, g as int) == first_invalid(raw@, 0),
        decreases raw@.len() - g,
    {
        g = g + 1;
    }
    let mut k: usize = g;
    while k > 0 && raw[k - 1] == 0x20
        invariant
            k <= g <= raw@.len(),
            trim_spaces(raw@, k as int) == trim_spaces(raw@, g as int),
        decreases k,
    {
        k = k - 1;
    }
    assert(first_invalid(raw@, 0) == g);
    assert(trim_spaces(raw@, g as int) == k);
    let mut r: Vec<char> = Vec::new();
    let mut i: usize = 0;
    while i < raw.len()
        invariant
            i <= raw@.len(),
            k == kept_len(raw@),
            r@.len() == i,
            forall|j: int| 0 <= j < i ==> #[trigger] r@[j] == sanitized(raw@)[j],
        decreases raw@.len() - i,
    {
        if i < k {
            r.push(raw[i] as char);
        } else {
            r.push('\0');
        }
        i = i + 1;
    }
    assert(r@ =~= sanitized(raw@));
    r
}

/// The text of a name field: its characters up to the first null.
pub fn name_to_str(name: &Vec<char>) -> (r: String)
    ensures
        r@ == name_text(name@),
{
    let mut r = String::new();
    let mut i: usize = 0;
    proof {
        lemma_first_null_bounds(name@, 0);
    }
    while i < name.len() && name[i] != '\0'
        invariant
            i <= name@.len(),
            i <= first_null(name@, 0),
            first_null(name@, i as int) == first_null(name@, 0),
            r@ == name@.take(i as int),
        decreases name@.len() - i,
    {
        push_char(&mut r, name[i]);
        i = i + 1;
        proof {
            lemma_first_null_bounds(name@, i as int);
        }
        assert(r@ =~= name@.take(i as int));
    }
    r
}

} // verus!
