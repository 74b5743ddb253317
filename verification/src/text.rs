//! Character-level building blocks shared by every parser and renderer.

use vstd::prelude::*;
use vstd::string::*;

verus! {

/// A lowercase ASCII letter or an ASCII digit.
pub open spec fn is_lower_alnum(c: char) -> bool {
    ('a' <= c && c <= 'z') || ('0' <= c && c <= '9')
}

/// The charset shared by plane ids and project-name segments:
/// `[a-z0-9][a-z0-9._-]*`.
pub open spec fn on_charset(s: Seq<char>) -> bool {
    &&& s.len() > 0
    &&& is_lower_alnum(s[0])
    &&& forall|i: int| 1 <= i < s.len() ==> #[trigger] charset_tail(s[i])
}

pub open spec fn charset_tail(c: char) -> bool {
    is_lower_alnum(c) || c == '.' || c == '_' || c == '-'
}

pub fn is_lower_alnum_char(c: char) -> (r: bool)
    ensures
        r == is_lower_alnum(c),
{
    ('a' <= c && c <= 'z') || ('0' <= c && c <= '9')
}

/// Whether `s` is on the `[a-z0-9][a-z0-9._-]*` charset.
pub fn is_on_charset(s: &Vec<char>) -> (r: bool)
    ensures
        r == on_charset(s@),
{
    if s.len() == 0 {
        return false;
    }
    if !is_lower_alnum_char(s[0]) {
        return false;
    }
    let mut i: usize = 1;
    while i < s.len()
        invariant
            1 <= i <= s.len(),
            forall|j: int| 1 <= j < i ==> #[trigger] charset_tail(s@[j]),
        decreases s.len() - i,
    {
        let c = s[i];
        if !(is_lower_alnum_char(c) || c == '.' || c == '_' || c == '-') {
            assert(!charset_tail(s@[i as int]));
            return false;
        }
        i = i + 1;
    }
    true
}

/// The characters of `s`, one by one.
pub fn chars_of(s: &str) -> (v: Vec<char>)
    ensures
        v@ == s@,
{
    let n = s.unicode_len();
    let mut v: Vec<char> = Vec::new();
    let mut i: usize = 0;
    while i < n
        invariant
            n == s@.len(),
            i <= n,
            v@ == s@.subrange(0, i as int),
        decreases n - i,
    {
        let c = s.get_char(i);
        v.push(c);
        i = i + 1;
        assert(v@ =~= s@.subrange(0, i as int));
    }
    assert(v@ =~= s@);
    v
}

/// `String::push`.
#[verifier::external_body]
pub(crate) fn push_char(s: &mut String, c: char)
    ensures
        final(s)@ == old(s)@.push(c),
{
    s.push(c)
}

/// The string holding exactly `v`.
pub fn string_of(v: &[char]) -> (s: String)
    ensures
        s@ == v@,
{
    let mut s = String::new();
    let mut i: usize = 0;
    while i < v.len()
        invariant
            i <= v@.len(),
            s@ == v@.subrange(0, i as int),
        decreases v.len() - i,
    {
        push_char(&mut s, v[i]);
        i = i + 1;
        assert(s@ =~= v@.subrange(0, i as int));
    }
    assert(s@ =~= v@);
    s
}

/// Appends every character of `t` to `s`.
pub fn push_seq(s: &mut String, t: &[char])
    ensures
        final(s)@ == old(s)@ + t@,
{
    let mut i: usize = 0;
    while i < t.len()
        invariant
            i <= t@.len(),
            s@ == old(s)@ + t@.subrange(0, i as int),
        decreases t.len() - i,
    {
        push_char(s, t[i]);
        i = i + 1;
        assert(s@ =~= old(s)@ + t@.subrange(0, i as int));
    }
    assert(t@.subrange(0, t@.len() as int) =~= t@);
}

/// Appends every character of `t` to `s`.
pub fn push_str(s: &mut String, t: &str)
    ensures
        final(s)@ == old(s)@ + t@,
{
    let v = chars_of(t);
    push_seq(s, v.as_slice());
}

/// An owned copy of `s`.
pub fn owned(s: &str) -> (r: String)
    ensures
        r@ == s@,
{
    let v = chars_of(s);
    string_of(v.as_slice())
}

/// A copy of `s`.
pub fn copy_string(s: &String) -> (r: String)
    ensures
        r@ == s@,
{
    s.clone()
}

/// Whether `prefix` starts `s`.
pub open spec fn starts_with(s: Seq<char>, prefix: Seq<char>) -> bool {
    prefix.len() <= s.len() && s.subrange(0, prefix.len() as int) == prefix
}

pub fn has_prefix(s: &[char], prefix: &[char]) -> (r: bool)
    ensures
        r == starts_with(s@, prefix@),
{
    if prefix.len() > s.len() {
        return false;
    }
    let mut i: usize = 0;
    while i < prefix.len()
        invariant
            prefix@.len() <= s@.len(),
            i <= prefix@.len(),
            forall|j: int| 0 <= j < i ==> s@[j] == prefix@[j],
        decreases prefix.len() - i,
    {
        if s[i] != prefix[i] {
            assert(s@.subrange(0, prefix@.len() as int)[i as int] != prefix@[i as int]);
            return false;
        }
        i = i + 1;
    }
    assert(s@.subrange(0, prefix@.len() as int) =~= prefix@);
    true
}

/// Whether two character sequences are equal.
pub fn same_chars(a: &[char], b: &[char]) -> (r: bool)
    ensures
        r == (a@ == b@),
{
    if a.len() != b.len() {
        return false;
    }
    let r = has_prefix(a, b);
    assert(a@.subrange(0, b@.len() as int) =~= a@);
    r
}

/// The characters of `s` from `from` to `to`.
pub fn slice_of(s: &[char], from: usize, to: usize) -> (r: Vec<char>)
    requires
        from <= to <= s@.len(),
    ensures
        r@ == s@.subrange(from as int, to as int),
{
    let mut r: Vec<char> = Vec::new();
    let mut i = from;
    while i < to
        invariant
            from <= i <= to,
            to <= s@.len(),
            r@ == s@.subrange(from as int, i as int),
        decreases to - i,
    {
        r.push(s[i]);
        i = i + 1;
        assert(r@ =~= s@.subrange(from as int, i as int));
    }
    r
}

/// Whether `c` occurs in `s`.
pub fn contains_char(s: &[char], c: char) -> (r: bool)
    ensures
        r == s@.contains(c),
{
    let mut i: usize = 0;
    while i < s.len()
        invariant
            i <= s@.len(),
            forall|j: int| 0 <= j < i ==> s@[j] != c,
        decreases s.len() - i,
    {
        if s[i] == c {
            assert(s@[i as int] == c);
            return true;
        }
        i = i + 1;
    }
    false
}


/// `str::split` on one separator: always at least one piece, and the pieces
/// between separators, empty ones included.
pub open spec fn split(s: Seq<char>, sep: char) -> Seq<Seq<char>>
    decreases s.len(),
{
    if s.len() == 0 {
        seq![Seq::empty()]
    } else {
        let r = split(s.drop_last(), sep);
        if s.last() == sep {
            r.push(Seq::empty())
        } else {
            r.update(r.len() - 1, r.last().push(s.last()))
        }
    }
}

pub proof fn lemma_split_nonempty(s: Seq<char>, sep: char)
    ensures
        split(s, sep).len() >= 1,
    decreases s.len(),
{
    if s.len() > 0 {
        lemma_split_nonempty(s.drop_last(), sep);
    }
}

/// The views of a vector of character vectors.
pub open spec fn views(v: Seq<Vec<char>>) -> Seq<Seq<char>> {
    Seq::new(v.len(), |i: int| v[i]@)
}

/// `s` split on `sep`, as `str::split` does.
pub fn split_on(s: &[char], sep: char) -> (r: Vec<Vec<char>>)
    ensures
        views(r@) == split(s@, sep),
{
    let mut pieces: Vec<Vec<char>> = Vec::new();
    let mut current: Vec<char> = Vec::new();
    let mut i: usize = 0;
    assert(s@.subrange(0, 0) =~= Seq::<char>::empty());
    assert(views(pieces@).push(current@) =~= split(Seq::<char>::empty(), sep));
    while i < s.len()
        invariant
            i <= s@.len(),
            views(pieces@).push(current@) == split(s@.subrange(0, i as int), sep),
        decreases s.len() - i,
    {
        let c = s[i];
        let ghost prefix = s@.subrange(0, i as int + 1);
        assert(prefix.drop_last() =~= s@.subrange(0, i as int));
        proof {
            lemma_split_nonempty(prefix.drop_last(), sep);
        }
        if c == sep {
            pieces.push(current);
            current = Vec::new();
            assert(views(pieces@).push(current@) =~= split(prefix, sep));
        } else {
            let ghost before = views(pieces@);
            current.push(c);
            assert(views(pieces@).push(current@) =~= split(prefix, sep));
        }
        i = i + 1;
    }
    pieces.push(current);
    assert(s@.subrange(0, s@.len() as int) =~= s@);
    assert(views(pieces@) =~= split(s@, sep));
    pieces
}

/// The pieces joined with `sep` between each two.
pub open spec fn joined(pieces: Seq<Seq<char>>, sep: Seq<char>) -> Seq<char>
    decreases pieces.len(),
{
    if pieces.len() == 0 {
        Seq::empty()
    } else if pieces.len() == 1 {
        pieces[0]
    } else {
        joined(pieces.drop_last(), sep) + sep + pieces.last()
    }
}

/// The pieces joined with `sep` between each two.
pub fn join_pieces(pieces: &[Vec<char>], sep: &[char]) -> (r: Vec<char>)
    ensures
        r@ == joined(views(pieces@), sep@),
{
    let mut r: Vec<char> = Vec::new();
    let mut i: usize = 0;
    while i < pieces.len()
        invariant
            i <= pieces@.len(),
            r@ == joined(views(pieces@.subrange(0, i as int)), sep@),
        decreases pieces.len() - i,
    {
        let ghost before = r@;
        if i > 0 {
            let mut k: usize = 0;
            while k < sep.len()
                invariant
                    k <= sep@.len(),
                    r@ == before + sep@.subrange(0, k as int),
                decreases sep.len() - k,
            {
                r.push(sep[k]);
                k = k + 1;
                assert(r@ =~= before + sep@.subrange(0, k as int));
            }
            assert(sep@.subrange(0, sep@.len() as int) =~= sep@);
        }
        let ghost middle = r@;
        let piece = &pieces[i];
        let mut k: usize = 0;
        while k < piece.len()
            invariant
                k <= piece@.len(),
                r@ == middle + piece@.subrange(0, k as int),
            decreases piece.len() - k,
        {
            r.push(piece[k]);
            k = k + 1;
            assert(r@ =~= middle + piece@.subrange(0, k as int));
        }
        assert(piece@.subrange(0, piece@.len() as int) =~= piece@);
        let ghost done = views(pieces@.subrange(0, i as int + 1));
        assert(done.drop_last() =~= views(pieces@.subrange(0, i as int)));
        assert(done.last() == piece@);
        if i == 0 {
            assert(r@ =~= joined(done, sep@));
        } else {
            assert(r@ =~= joined(done, sep@));
        }
        i = i + 1;
    }
    assert(pieces@.subrange(0, pieces@.len() as int) =~= pieces@);
    r
}

/// `PathBuf::join`: an absolute path replaces the base; otherwise it is
/// appended after a separator where the base does not already end in one.
pub open spec fn path_join(base: Seq<char>, p: Seq<char>) -> Seq<char> {
    if p.len() > 0 && p[0] == '/' {
        p
    } else if base.len() == 0 || base.last() == '/' {
        base + p
    } else {
        base + seq!['/'] + p
    }
}

/// `base` joined with `p`, as a path.
pub fn join_path(base: &str, p: &str) -> (r: String)
    ensures
        r@ == path_join(base@, p@),
{
    let b = chars_of(base);
    let q = chars_of(p);
    if q.len() > 0 && q[0] == '/' {
        return owned(p);
    }
    let mut r = owned(base);
    if !(b.len() == 0 || b[b.len() - 1] == '/') {
        push_char(&mut r, '/');
    }
    push_seq(&mut r, q.as_slice());
    r
}


/// The decimal digit for `d`.
pub open spec fn digit_char(d: nat) -> char {
    if d == 0 { '0' } else if d == 1 { '1' } else if d == 2 { '2' } else if d == 3 { '3' } else if d == 4 { '4' }
    else if d == 5 { '5' } else if d == 6 { '6' } else if d == 7 { '7' } else if d == 8 { '8' } else { '9' }
}

/// `n` written in decimal, as `Display` writes an integer.
pub open spec fn decimal(n: nat) -> Seq<char>
    decreases n,
{
    if n < 10 {
        seq![digit_char(n)]
    } else {
        decimal(n / 10).push(digit_char(n % 10))
    }
}

fn digit_of(d: u64) -> (c: char)
    requires
        d < 10,
    ensures
        c == digit_char(d as nat),
{
    match d {
        0 => '0',
        1 => '1',
        2 => '2',
        3 => '3',
        4 => '4',
        5 => '5',
        6 => '6',
        7 => '7',
        8 => '8',
        _ => '9',
    }
}

/// Appends `n` in decimal.
pub fn push_decimal(s: &mut String, n: u64)
    ensures
        final(s)@ == old(s)@ + decimal(n as nat),
    decreases n,
{
    if n >= 10 {
        push_decimal(s, n / 10);
    }
    push_char(s, digit_of(n % 10));
    assert(final(s)@ =~= old(s)@ + decimal(n as nat)) by {
        if n >= 10 {
            assert(decimal(n as nat) == decimal((n / 10) as nat).push(digit_char((n % 10) as nat)));
        }
    }
}

/// An integer written in decimal, with a `-` where it is negative.
pub open spec fn signed_decimal(n: int) -> Seq<char> {
    if n < 0 {
        seq!['-'] + decimal((-n) as nat)
    } else {
        decimal(n as nat)
    }
}

/// Appends `n` in decimal, signed as `Display` writes an `i64`.
pub fn push_signed_decimal(s: &mut String, n: i64)
    ensures
        final(s)@ == old(s)@ + signed_decimal(n as int),
{
    if n < 0 {
        push_char(s, '-');
        let magnitude: u64 = if n == i64::MIN {
            9223372036854775808u64
        } else {
            (-n) as u64
        };
        push_decimal(s, magnitude);
    } else {
        push_decimal(s, n as u64);
    }
}

/// `str::len`: the length of `s` in UTF-8 bytes.
pub open spec fn byte_length(s: Seq<char>) -> usize {
    vstd::utf8::encode_utf8(s).len() as usize
}

/// The length of `s` in UTF-8 bytes, as `str::len` reports it.
pub fn byte_len(s: &str) -> (n: usize)
    ensures
        n == byte_length(s@),
{
    s.len()
}

/// Appends `n` spaces.
pub fn push_spaces(s: &mut String, n: usize)
    ensures
        final(s)@ == old(s)@ + Seq::new(n as nat, |i: int| ' '),
{
    let mut k: usize = 0;
    while k < n
        invariant
            k <= n,
            s@ == old(s)@ + Seq::new(k as nat, |i: int| ' '),
        decreases n - k,
    {
        push_char(s, ' ');
        k = k + 1;
        assert(s@ =~= old(s)@ + Seq::new(k as nat, |i: int| ' '));
    }
}

/// Unicode `White_Space`, which `char::is_whitespace` answers.
pub open spec fn is_space(c: char) -> bool {
    let u = c as u32;
    (0x9 <= u && u <= 0xD) || u == 0x20 || u == 0x85 || u == 0xA0 || u == 0x1680 || (0x2000 <= u
        && u <= 0x200A) || u == 0x2028 || u == 0x2029 || u == 0x202F || u == 0x205F || u == 0x3000
}

pub fn is_space_char(c: char) -> (r: bool)
    ensures
        r == is_space(c),
{
    let u = c as u32;
    (0x9 <= u && u <= 0xD) || u == 0x20 || u == 0x85 || u == 0xA0 || u == 0x1680 || (0x2000 <= u
        && u <= 0x200A) || u == 0x2028 || u == 0x2029 || u == 0x202F || u == 0x205F || u == 0x3000
}

/// `str::trim_start`.
pub open spec fn trim_start(s: Seq<char>) -> Seq<char>
    decreases s.len(),
{
    if s.len() > 0 && is_space(s[0]) {
        trim_start(s.drop_first())
    } else {
        s
    }
}

/// `str::trim_end`.
pub open spec fn trim_end(s: Seq<char>) -> Seq<char>
    decreases s.len(),
{
    if s.len() > 0 && is_space(s.last()) {
        trim_end(s.drop_last())
    } else {
        s
    }
}

/// `str::trim`.
pub open spec fn trim(s: Seq<char>) -> Seq<char> {
    trim_end(trim_start(s))
}

/// `s` without its leading whitespace.
pub fn trimmed_start(s: &[char]) -> (r: Vec<char>)
    ensures
        r@ == trim_start(s@),
{
    let mut i: usize = 0;
    assert(s@.subrange(0, s@.len() as int) =~= s@);
    while i < s.len() && is_space_char(s[i])
        invariant
            i <= s@.len(),
            trim_start(s@) == trim_start(s@.subrange(i as int, s@.len() as int)),
        decreases s.len() - i,
    {
        assert(s@.subrange(i as int, s@.len() as int).drop_first() =~= s@.subrange(i as int + 1, s@.len() as int));
        i = i + 1;
    }
    slice_of(s, i, s.len())
}

/// `s` without its trailing whitespace.
pub fn trimmed_end(s: &[char]) -> (r: Vec<char>)
    ensures
        r@ == trim_end(s@),
{
    let mut n: usize = s.len();
    assert(s@.subrange(0, s@.len() as int) =~= s@);
    while n > 0 && is_space_char(s[n - 1])
        invariant
            n <= s@.len(),
            trim_end(s@) == trim_end(s@.subrange(0, n as int)),
        decreases n,
    {
        assert(s@.subrange(0, n as int).drop_last() =~= s@.subrange(0, n as int - 1));
        n = n - 1;
    }
    slice_of(s, 0, n)
}

/// `s` without leading or trailing whitespace.
pub fn trimmed(s: &[char]) -> (r: Vec<char>)
    ensures
        r@ == trim(s@),
{
    let a = trimmed_start(s);
    trimmed_end(a.as_slice())
}

/// The leading run of non-whitespace characters.
pub open spec fn word_prefix(s: Seq<char>) -> Seq<char>
    decreases s.len(),
{
    if s.len() == 0 || is_space(s[0]) {
        Seq::empty()
    } else {
        seq![s[0]] + word_prefix(s.drop_first())
    }
}

/// What `split_whitespace().next()` answers: the first word, if any.
pub open spec fn first_word(s: Seq<char>) -> Option<Seq<char>> {
    let t = trim_start(s);
    if t.len() == 0 {
        None
    } else {
        Some(word_prefix(t))
    }
}

pub proof fn lemma_word_prefix_extends(s: Seq<char>, i: int)
    requires
        0 <= i <= s.len(),
        forall|j: int| 0 <= j < i ==> !is_space(s[j]),
    ensures
        word_prefix(s) == s.subrange(0, i) + word_prefix(s.subrange(i, s.len() as int)),
    decreases i,
{
    if i > 0 {
        lemma_word_prefix_extends(s.drop_first(), i - 1);
        assert(s.drop_first().subrange(i - 1, s.len() - 1) =~= s.subrange(i, s.len() as int));
        assert(seq![s[0]] + s.drop_first().subrange(0, i - 1) =~= s.subrange(0, i));
        assert(word_prefix(s) == seq![s[0]] + word_prefix(s.drop_first()));
    } else {
        assert(s.subrange(0, 0) =~= Seq::<char>::empty());
        assert(s.subrange(0, s.len() as int) =~= s);
    }
}

/// The first whitespace-separated word of `s`, if any.
pub fn first_word_of(s: &[char]) -> (r: Option<Vec<char>>)
    ensures
        match first_word(s@) {
            None => r is None,
            Some(w) => r matches Some(v) && v@ == w,
        },
{
    let t = trimmed_start(s);
    if t.len() == 0 {
        return None;
    }
    let mut i: usize = 0;
    while i < t.len() && !is_space_char(t[i])
        invariant
            i <= t@.len(),
            forall|j: int| 0 <= j < i ==> !is_space(t@[j]),
        decreases t.len() - i,
    {
        i = i + 1;
    }
    proof {
        lemma_word_prefix_extends(t@, i as int);
        let rest = t@.subrange(i as int, t@.len() as int);
        assert(word_prefix(rest) =~= Seq::<char>::empty());
    }
    let w = slice_of(t.as_slice(), 0, i);
    assert(w@ =~= word_prefix(t@));
    Some(w)
}

} // verus!
