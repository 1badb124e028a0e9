use vstd::prelude::*;

verus! {

/// Appends one character to a string: std's `String::push`, whose
/// documentation says that it appends the given `char` to the end.
#[verifier::external_body]
pub(crate) fn push_char(s: &mut String, c: char)
    ensures
        final(s)@ == old(s)@.push(c),
{
    s.push(c);
}

/// `s` with every occurrence of `from` replaced by `to`.
pub open spec fn replace_char(s: Seq<char>, from: char, to: Seq<char>) -> Seq<char>
    decreases s.len(),
{
    if s.len() == 0 {
        Seq::empty()
    } else {
        replace_char(s.drop_last(), from, to) + (if s.last() == from {
            to
        } else {
            seq![s.last()]
        })
    }
}

/// The ASCII lower-case form of a character: `A`..`Z` become `a`..`z`,
/// every other character is left as it is.
pub open spec fn ascii_lower(c: char) -> char {
    if 'A' <= c && c <= 'Z' {
        ((c as u32) + 32) as char
    } else {
        c
    }
}

/// `s` with each character mapped through `ascii_lower`.
pub open spec fn ascii_lowercase(s: Seq<char>) -> Seq<char> {
    s.map_values(|c: char| ascii_lower(c))
}

/// Returns a copy of `s` in which each `from` is replaced by `to`.
pub fn replace_all(s: &str, from: char, to: &str) -> (r: String)
    ensures
        r@ == replace_char(s@, from, to@),
{
    broadcast use vstd::string::group_string_axioms;

    let mut r = String::new();
    for c in it: s.chars()
        invariant
            it.seq() == s@,
            r@ == replace_char(s@.take(it.index() as int), from, to@),
    {
        proof {
            assert(s@.take(it.index() + 1).drop_last() =~= s@.take(it.index() as int));
        }
        if c == from {
            r.append(to);
        } else {
            push_char(&mut r, c);
        }
    }
    proof {
        assert(s@.take(s@.len() as int) =~= s@);
    }
    r
}

/// Returns the ASCII lower-case form of `s`.
pub fn to_ascii_lowercase(s: &str) -> (r: String)
    ensures
        r@ == ascii_lowercase(s@),
{
    broadcast use vstd::string::group_string_axioms;

    let mut r = String::new();
    for c in it: s.chars()
        invariant
            it.seq() == s@,
            r@ == ascii_lowercase(s@.take(it.index() as int)),
    {
        let lower = if 'A' <= c && c <= 'Z' {
            ((c as u8) + 32) as char
        } else {
            c
        };
        push_char(&mut r, lower);
        proof {
            assert(ascii_lowercase(s@.take(it.index() + 1)) =~= ascii_lowercase(
                s@.take(it.index() as int),
            ).push(ascii_lower(c)));
        }
    }
    proof {
        assert(s@.take(s@.len() as int) =~= s@);
    }
    r
}

} // verus!

verus! {

/// The decimal digit character for `d` (which is below ten).
pub open spec fn digit_char(d: nat) -> char {
    (48 + d) as char
}

/// The decimal text of a number, without leading zeros.
pub open spec fn decimal(n: nat) -> Seq<char>
    decreases n,
{
    if n < 10 {
        seq![digit_char(n)]
    } else {
        decimal(n / 10).push(digit_char(n % 10))
    }
}

/// Appends the decimal text of `n` to `s`.
pub fn push_decimal(s: &mut String, n: u64)
    ensures
        final(s)@ == old(s)@ + decimal(n as nat),
    decreases n,
{
    if n >= 10 {
        push_decimal(s, n / 10);
    }
    let d = (n % 10) as u8;
    push_char(s, (d + 48) as char);
    proof {
        if n < 10 {
            assert(decimal(n as nat) =~= seq![digit_char(n as nat)]);
        } else {
            assert(decimal(n as nat) =~= decimal((n / 10) as nat).push(digit_char((n % 10) as nat)));
        }
    }
}

} // verus!

verus! {

/// `s` without the `\n` characters at its end (std's
/// `trim_end_matches("\n")`).
pub open spec fn trim_trailing_newlines(s: Seq<char>) -> Seq<char>
    decreases s.len(),
{
    if s.len() > 0 && s.last() == '\n' {
        trim_trailing_newlines(s.drop_last())
    } else {
        s
    }
}

/// Returns `s` without the `\n` characters at its end.
pub fn trim_end_newlines(s: &str) -> (r: String)
    ensures
        r@ == trim_trailing_newlines(s@),
{
    let n = s.unicode_len();
    let mut end = n;
    proof {
        assert(s@.take(n as int) =~= s@);
    }
    while end > 0 && s.get_char(end - 1) == '\n'
        invariant
            n == s@.len(),
            end <= n,
            trim_trailing_newlines(s@) == trim_trailing_newlines(s@.take(end as int)),
        decreases end,
    {
        proof {
            assert(s@.take(end as int).drop_last() =~= s@.take(end - 1));
        }
        end = end - 1;
    }
    s.substring_char(0, end).to_owned()
}

} // verus!

verus! {

/// The lower-case hexadecimal digit for `d` (which is below sixteen).
pub open spec fn hex_digit(d: int) -> char {
    if d < 10 {
        (48 + d) as char
    } else {
        (87 + d) as char
    }
}

/// Bytes written as lower-case hexadecimal, two digits each.
pub open spec fn hex_lower(b: Seq<u8>) -> Seq<char>
    decreases b.len(),
{
    if b.len() == 0 {
        Seq::empty()
    } else {
        hex_lower(b.drop_last()) + seq![hex_digit((b.last() / 16) as int), hex_digit((b.last() % 16) as int)]
    }
}

/// `i` is the first position of `c` in `s`.
pub open spec fn is_first_char_at(s: Seq<char>, c: char, i: int) -> bool {
    &&& 0 <= i < s.len()
    &&& s[i] == c
    &&& forall|j: int| 0 <= j < i ==> s[j] != c
}

/// `s` cut at the first `c` (std's `split_once`): the text before it and
/// the text after it.
pub open spec fn split_once(s: Seq<char>, c: char) -> Option<(Seq<char>, Seq<char>)> {
    if exists|i: int| is_first_char_at(s, c, i) {
        let i = choose|i: int| is_first_char_at(s, c, i);
        Some((s.take(i), s.skip(i + 1)))
    } else {
        None
    }
}

/// A first position of `c` is the one `split_once` cuts at.
pub proof fn lemma_split_once_at(s: Seq<char>, c: char, i: int)
    requires
        is_first_char_at(s, c, i),
    ensures
        split_once(s, c) == Some((s.take(i), s.skip(i + 1))),
{
    let k = choose|k: int| is_first_char_at(s, c, k);
    assert(is_first_char_at(s, c, k));
    if k < i {
        assert(s[k] != c);
    } else if i < k {
        assert(s[i] != c);
    }
}

/// Cuts `s` at the first `c`.
pub fn split_once_char(s: &str, c: char) -> (r: Option<(String, String)>)
    ensures
        match r {
            Some((a, b)) => split_once(s@, c) == Some((a@, b@)),
            None => split_once(s@, c) is None,
        },
{
    broadcast use vstd::string::group_string_axioms;

    let n = s.unicode_len();
    let mut i: usize = 0;
    for x in it: s.chars()
        invariant
            it.seq() == s@,
            n == s@.len(),
            i == it.index(),
            forall|j: int| 0 <= j < i ==> s@[j] != c,
    {
        if x == c {
            let before = s.substring_char(0, i).to_owned();
            let after = s.substring_char(i + 1, n).to_owned();
            proof {
                lemma_split_once_at(s@, c, i as int);
                assert(s@.subrange(0, i as int) =~= s@.take(i as int));
                assert(s@.subrange(i + 1, n as int) =~= s@.skip(i + 1));
            }
            return Some((before, after));
        }
        i = i + 1;
    }
    None
}

} // verus!

verus! {

/// The file name of a path written with `/`: the text after its last `/`.
pub open spec fn last_segment(s: Seq<char>) -> Seq<char>
    decreases s.len(),
{
    if s.len() == 0 {
        Seq::empty()
    } else if s.last() == '/' {
        Seq::empty()
    } else {
        last_segment(s.drop_last()).push(s.last())
    }
}

/// A path's last part that names a file: not empty, `.` or `..`.
pub open spec fn is_file_name(n: Seq<char>) -> bool {
    &&& n.len() > 0
    &&& n != seq!['.']
    &&& n != seq!['.', '.']
}

/// The file name of a path written with `/`: the text after its last `/`.
pub fn file_name(path: &str) -> (r: String)
    ensures
        r@ == last_segment(path@),
{
    broadcast use vstd::string::group_string_axioms;

    let n = path.unicode_len();
    let mut cur = String::new();
    let mut i: usize = 0;
    for x in it: path.chars()
        invariant
            it.seq() == path@,
            n == path@.len(),
            i == it.index(),
            cur@ == last_segment(path@.take(i as int)),
    {
        proof {
            assert(path@.take(i + 1).drop_last() =~= path@.take(i as int));
            assert(path@.take(i + 1).last() == x);
        }
        if x == '/' {
            cur = String::new();
        } else {
            push_char(&mut cur, x);
        }
        i = i + 1;
    }
    proof {
        assert(path@.take(i as int) =~= path@);
    }
    cur
}

} // verus!
