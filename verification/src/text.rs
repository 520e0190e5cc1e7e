//! Text building blocks: number rendering, splitting and path shaping.
use vstd::prelude::*;

verus! {

/// Appends one character to a string (`String::push`).
///
/// Trusted: the standard library documents that `push` appends the given
/// `char` to the end of the string; the contract states exactly that.
#[verifier::external_body]
pub(crate) fn push_char(s: &mut String, c: char)
    ensures
        final(s)@ == old(s)@.push(c),
{
    s.push(c);
}

/// The character of a digit in base 16 (upper case letters above nine).
pub open spec fn digit_char(d: nat) -> char {
    if d < 10 {
        (48 + d) as char
    } else {
        (55 + d) as char
    }
}

/// Decimal rendering of a natural number, without leading zeros.
pub open spec fn decimal(n: nat) -> Seq<char>
    decreases n,
{
    if n < 10 {
        seq![digit_char(n)]
    } else {
        decimal(n / 10).push(digit_char(n % 10))
    }
}

/// Decimal rendering of an integer, with a leading `-` when negative.
pub open spec fn signed_decimal(i: int) -> Seq<char> {
    if i < 0 {
        seq!['-'] + decimal((-i) as nat)
    } else {
        decimal(i as nat)
    }
}

/// Upper-case hexadecimal rendering of a natural number, without leading zeros.
pub open spec fn hex_upper(n: nat) -> Seq<char>
    decreases n,
{
    if n < 16 {
        seq![digit_char(n)]
    } else {
        hex_upper(n / 16).push(digit_char(n % 16))
    }
}

/// `s` preceded by as many `0` characters as needed to reach `width`.
pub open spec fn zero_padded(s: Seq<char>, width: nat) -> Seq<char> {
    if s.len() >= width {
        s
    } else {
        Seq::new((width - s.len()) as nat, |i: int| '0') + s
    }
}

/// The character for a digit value below sixteen.
fn digit(d: u64) -> (c: char)
    requires
        d < 16,
    ensures
        c == digit_char(d as nat),
{
    if d < 10 {
        ((48 + d) as u8) as char
    } else {
        ((55 + d) as u8) as char
    }
}

/// Renders `n` in decimal.
pub fn decimal_string(n: u64) -> (s: String)
    ensures
        s@ == decimal(n as nat),
    decreases n,
{
    if n < 10 {
        let mut s = String::new();
        push_char(&mut s, digit(n));
        s
    } else {
        let mut s = decimal_string(n / 10);
        push_char(&mut s, digit(n % 10));
        s
    }
}

/// Renders `i` in decimal, as `Display` does for a signed integer.
pub fn signed_decimal_string(i: i64) -> (s: String)
    ensures
        s@ == signed_decimal(i as int),
{
    if i < 0 {
        let mut s = String::new();
        push_char(&mut s, '-');
        let magnitude: u64 = (-(i + 1)) as u64 + 1;
        let d = decimal_string(magnitude);
        let s = s.concat(d.as_str());
        s
    } else {
        decimal_string(i as u64)
    }
}

/// Renders `n` in upper-case hexadecimal.
pub fn hex_upper_string(n: u64) -> (s: String)
    ensures
        s@ == hex_upper(n as nat),
    decreases n,
{
    if n < 16 {
        let mut s = String::new();
        push_char(&mut s, digit(n));
        s
    } else {
        let mut s = hex_upper_string(n / 16);
        push_char(&mut s, digit(n % 16));
        s
    }
}

/// `0x` followed by the upper-case hexadecimal digits of `n`, padded with
/// zeros to at least `width` digits (the `{:0width$X}` rendering).
pub fn hex_display(n: u64, width: usize) -> (s: String)
    ensures
        s@ == seq!['0', 'x'] + zero_padded(hex_upper(n as nat), width as nat),
{
    let digits = hex_upper_string(n);
    let len = digits.unicode_len();
    let mut s = String::new();
    push_char(&mut s, '0');
    push_char(&mut s, 'x');
    let ghost pad: nat = if len < width { (width - len) as nat } else { 0 };
    let mut k: usize = len;
    while k < width
        invariant
            len == digits@.len(),
            len <= k <= width || (len > width && k == len),
            s@ == seq!['0', 'x'] + Seq::new((k - len) as nat, |i: int| '0'),
        decreases width - k,
    {
        push_char(&mut s, '0');
        proof {
            assert(s@ =~= seq!['0', 'x'] + Seq::new((k + 1 - len) as nat, |i: int| '0'));
        }
        k = k + 1;
    }
    let s = s.concat(digits.as_str());
    proof {
        if len >= width {
            assert(k == len);
            assert(s@ =~= seq!['0', 'x'] + hex_upper(n as nat));
        } else {
            assert(k == width);
            assert(s@ =~= seq!['0', 'x'] + zero_padded(hex_upper(n as nat), width as nat));
        }
    }
    s
}

/// Concatenation of two pieces of text.
pub fn concat(a: &str, b: &str) -> (s: String)
    ensures
        s@ == a@ + b@,
{
    String::from_str(a).concat(b)
}

/// Concatenation of three pieces of text.
pub fn concat3(a: &str, b: &str, c: &str) -> (s: String)
    ensures
        s@ == a@ + b@ + c@,
{
    String::from_str(a).concat(b).concat(c)
}

/// Index of the first occurrence of `c` in `s`, if any.
pub open spec fn first_index_of(s: Seq<char>, c: char) -> Option<int>
    decreases s.len(),
{
    if s.len() == 0 {
        None
    } else if s[0] == c {
        Some(0)
    } else {
        match first_index_of(s.drop_first(), c) {
            Some(i) => Some(i + 1),
            None => None,
        }
    }
}

/// What `first_index_of` returns, stated without recursion.
pub proof fn lemma_first_index_of(s: Seq<char>, c: char)
    ensures
        match first_index_of(s, c) {
            Some(i) => 0 <= i < s.len() && s[i] == c && forall|j: int| 0 <= j < i ==> s[j] != c,
            None => forall|j: int| 0 <= j < s.len() ==> s[j] != c,
        },
    decreases s.len(),
{
    if s.len() > 0 && s[0] != c {
        let t = s.drop_first();
        lemma_first_index_of(t, c);
        match first_index_of(t, c) {
            Some(i) => {
                assert forall|j: int| 0 <= j < i + 1 implies s[j] != c by {
                    if j > 0 {
                        assert(s[j] == t[j - 1]);
                    }
                }
                assert(s[i + 1] == t[i]);
            },
            None => {
                assert forall|j: int| 0 <= j < s.len() implies s[j] != c by {
                    if j > 0 {
                        assert(s[j] == t[j - 1]);
                    }
                }
            },
        }
    }
}

/// The two sides of the first occurrence of `c` in `s` (`str::split_once`).
pub open spec fn split_once_spec(s: Seq<char>, c: char) -> Option<(Seq<char>, Seq<char>)> {
    match first_index_of(s, c) {
        Some(i) => Some((s.subrange(0, i), s.subrange(i + 1, s.len() as int))),
        None => None,
    }
}

/// Splits `s` at the first occurrence of `c`, leaving `c` out.
pub fn split_once(s: &str, c: char) -> (r: Option<(String, String)>)
    ensures
        match r {
            Some((a, b)) => split_once_spec(s@, c) == Some((a@, b@)),
            None => split_once_spec(s@, c) is None,
        },
{
    proof {
        lemma_first_index_of(s@, c);
    }
    let len = s.unicode_len();
    let mut i: usize = 0;
    while i < len
        invariant
            len == s@.len(),
            i <= len,
            forall|j: int| 0 <= j < i ==> s@[j] != c,
        decreases len - i,
    {
        if s.get_char(i) == c {
            let a = String::from_str(s.substring_char(0, i));
            let b = String::from_str(s.substring_char(i + 1, len));
            proof {
                lemma_first_index_of(s@, c);
                let k = first_index_of(s@, c);
                if k is Some {
                    assert(k->0 == i as int);
                }
            }
            return Some((a, b));
        }
        i = i + 1;
    }
    None
}

/// Whether the last character of `s` is `/`.
pub open spec fn ends_with_slash(s: Seq<char>) -> bool {
    s.len() > 0 && s.last() == '/'
}

/// `path`, with a `/` appended unless it already ends with one.
pub open spec fn with_trailing_slash_spec(path: Seq<char>) -> Seq<char> {
    if ends_with_slash(path) {
        path
    } else {
        path.push('/')
    }
}

/// Returns `path` with a `/` appended unless it already ends with one.
pub fn with_trailing_slash(path: &str) -> (r: String)
    ensures
        r@ == with_trailing_slash_spec(path@),
{
    let len = path.unicode_len();
    let mut r = String::from_str(path);
    if len == 0 || path.get_char(len - 1) != '/' {
        push_char(&mut r, '/');
    }
    r
}

/// `path` without its leading `/` characters (`trim_start_matches('/')`).
pub open spec fn trim_leading_slashes_spec(path: Seq<char>) -> Seq<char>
    decreases path.len(),
{
    if path.len() > 0 && path[0] == '/' {
        trim_leading_slashes_spec(path.drop_first())
    } else {
        path
    }
}

/// Returns `path` without its leading `/` characters.
pub fn trim_leading_slashes(path: &str) -> (r: String)
    ensures
        r@ == trim_leading_slashes_spec(path@),
{
    let len = path.unicode_len();
    let mut i: usize = 0;
    proof {
        assert(path@.subrange(0, len as int) =~= path@);
    }
    while i < len && path.get_char(i) == '/'
        invariant
            len == path@.len(),
            i <= len,
            trim_leading_slashes_spec(path@) == trim_leading_slashes_spec(path@.subrange(i as int, len as int)),
        decreases len - i,
    {
        proof {
            assert(path@.subrange(i as int, len as int).drop_first() =~= path@.subrange(i + 1, len as int));
        }
        i = i + 1;
    }
    proof {
        if i < len {
            assert(path@.subrange(i as int, len as int)[0] == path@[i as int]);
        }
    }
    String::from_str(path.substring_char(i, len))
}

} // verus!

verus! {

/// Whether two pieces of text are equal.
pub fn str_eq(a: &str, b: &str) -> (r: bool)
    ensures
        r == (a@ == b@),
{
    let n = a.unicode_len();
    if n != b.unicode_len() {
        return false;
    }
    let mut i: usize = 0;
    while i < n
        invariant
            n == a@.len(),
            n == b@.len(),
            i <= n,
            forall|j: int| 0 <= j < i ==> a@[j] == b@[j],
        decreases n - i,
    {
        if a.get_char(i) != b.get_char(i) {
            return false;
        }
        i = i + 1;
    }
    proof {
        assert(a@ =~= b@);
    }
    true
}

} // verus!

verus! {

/// Lexicographic order of text by character code, which is the order
/// `String` comparison gives (UTF-8 byte order follows code point order).
pub open spec fn str_lt(a: Seq<char>, b: Seq<char>) -> bool
    decreases a.len(),
{
    if a.len() == 0 {
        b.len() > 0
    } else if b.len() == 0 {
        false
    } else if a[0] == b[0] {
        str_lt(a.drop_first(), b.drop_first())
    } else {
        (a[0] as u32) < (b[0] as u32)
    }
}

/// Text is never below itself.
pub proof fn lemma_str_lt_irreflexive(a: Seq<char>)
    ensures
        !str_lt(a, a),
    decreases a.len(),
{
    if a.len() > 0 {
        lemma_str_lt_irreflexive(a.drop_first());
    }
}

} // verus!

verus! {

/// The result of `with_trailing_slash` ends with `/`, adding a slash again
/// changes nothing, and a path that already ends with `/` is kept as is.
pub proof fn lemma_trailing_slash(path: Seq<char>)
    ensures
        ends_with_slash(with_trailing_slash_spec(path)),
        with_trailing_slash_spec(with_trailing_slash_spec(path)) == with_trailing_slash_spec(path),
        ends_with_slash(path) ==> with_trailing_slash_spec(path) == path,
{
}

/// The result of `trim_leading_slashes` does not start with `/`, is a suffix
/// of the path, and trimming again changes nothing.
pub proof fn lemma_trim_leading_slashes(path: Seq<char>)
    ensures
        !(trim_leading_slashes_spec(path).len() > 0 && trim_leading_slashes_spec(path)[0] == '/'),
        trim_leading_slashes_spec(trim_leading_slashes_spec(path)) == trim_leading_slashes_spec(path),
        trim_leading_slashes_spec(path).len() <= path.len(),
        path.skip(path.len() - trim_leading_slashes_spec(path).len()) == trim_leading_slashes_spec(path),
    decreases path.len(),
{
    if path.len() > 0 && path[0] == '/' {
        lemma_trim_leading_slashes(path.drop_first());
        let t = trim_leading_slashes_spec(path);
        assert(path.drop_first().skip(path.drop_first().len() - t.len()) == t);
        assert(path.skip(path.len() - t.len()) =~= path.drop_first().skip(path.drop_first().len() - t.len()));
    } else {
        assert(path.skip(0) =~= path);
    }
}

/// Splitting at the first `c` and joining the parts around `c` gives the
/// text back, and the left part holds no `c`.
pub proof fn lemma_split_once_rejoin(s: Seq<char>, c: char)
    ensures
        split_once_spec(s, c) matches Some((a, b)) ==> a + seq![c] + b == s && forall|i: int|
            0 <= i < a.len() ==> a[i] != c,
        split_once_spec(s, c) is None ==> forall|i: int| 0 <= i < s.len() ==> s[i] != c,
{
    lemma_first_index_of(s, c);
    if let Some(i) = first_index_of(s, c) {
        assert(s.subrange(0, i) + seq![c] + s.subrange(i + 1, s.len() as int) =~= s);
    }
}

} // verus!
