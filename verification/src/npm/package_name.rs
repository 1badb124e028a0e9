use vstd::prelude::*;

use crate::text::{ascii_lowercase, replace_all, replace_char, to_ascii_lowercase};

verus! {

/// The tarball form of a package name: `@` dropped, `-` and `/` turned
/// into `_`, then ASCII letters lowered.
pub open spec fn tarball_name(name: Seq<char>) -> Seq<char> {
    ascii_lowercase(
        replace_char(
            replace_char(replace_char(name, '@', Seq::empty()), '-', seq!['_']),
            '/',
            seq!['_'],
        ),
    )
}

/// The registry-API form of a package name: each `/` written `%2f`.
pub open spec fn api_name(name: Seq<char>) -> Seq<char> {
    replace_char(name, '/', seq!['%', '2', 'f'])
}

/// A name that the tarball form leaves as it is.
pub open spec fn is_tarball_clean(s: Seq<char>) -> bool {
    forall|i: int|
        0 <= i < s.len() ==> {
            &&& #[trigger] s[i] != '@'
            &&& s[i] != '-'
            &&& s[i] != '/'
            &&& !('A' <= s[i] && s[i] <= 'Z')
        }
}

/// Strips unwanted characters from package names
/// (`@acme/rest-client` becomes `acme_rest_client`).
pub fn normalize_for_tarball(package_name: &str) -> (r: String)
    ensures
        r@ == tarball_name(package_name@),
{
    proof {
        reveal_strlit("");
        reveal_strlit("_");
        assert(""@ =~= Seq::<char>::empty());
        assert("_"@ =~= seq!['_']);
    }
    let no_at = replace_all(package_name, '@', "");
    let no_dash = replace_all(no_at.as_str(), '-', "_");
    let no_slash = replace_all(no_dash.as_str(), '/', "_");
    to_ascii_lowercase(no_slash.as_str())
}

/// Url encode / in package (`@acme/core` becomes `@acme%2fcore`).
pub fn normalize_for_api(package_name: &str) -> (r: String)
    ensures
        r@ == api_name(package_name@),
{
    proof {
        reveal_strlit("%2f");
        assert("%2f"@ =~= seq!['%', '2', 'f']);
    }
    replace_all(package_name, '/', "%2f")
}

/// Replacing a character that does not occur changes nothing.
proof fn lemma_replace_absent(s: Seq<char>, from: char, to: Seq<char>)
    requires
        forall|i: int| 0 <= i < s.len() ==> s[i] != from,
    ensures
        replace_char(s, from, to) == s,
    decreases s.len(),
{
    if s.len() > 0 {
        lemma_replace_absent(s.drop_last(), from, to);
        assert(s.drop_last().push(s.last()) =~= s);
    }
}

/// After replacing `from` by `to`, a character `c` occurs only if it
/// occurred before (and is not `from`) or it occurs in `to`.
proof fn lemma_replace_chars(s: Seq<char>, from: char, to: Seq<char>, k: int)
    requires
        0 <= k < replace_char(s, from, to).len(),
    ensures
        ({
            let c = replace_char(s, from, to)[k];
            (exists|i: int| 0 <= i < s.len() && s[i] == c && c != from) || (exists|j: int|
                0 <= j < to.len() && to[j] == c)
        }),
    decreases s.len(),
{
    let r = replace_char(s, from, to);
    let prefix = replace_char(s.drop_last(), from, to);
    let c = r[k];
    if k < prefix.len() {
        lemma_replace_chars(s.drop_last(), from, to, k);
        if exists|i: int| 0 <= i < s.drop_last().len() && s.drop_last()[i] == c && c != from {
            let i = choose|i: int| 0 <= i < s.drop_last().len() && s.drop_last()[i] == c && c != from;
            assert(s[i] == c);
        }
    } else if s.last() == from {
        assert(to[k - prefix.len()] == c);
    } else {
        assert(s[s.len() - 1] == c);
    }
}

/// The tarball form of any name holds no `@`, `-` or `/`, and no ASCII
/// upper-case letter.
pub proof fn lemma_tarball_name_is_clean(name: Seq<char>)
    ensures
        is_tarball_clean(tarball_name(name)),
{
    let a = replace_char(name, '@', Seq::empty());
    let b = replace_char(a, '-', seq!['_']);
    let c = replace_char(b, '/', seq!['_']);
    assert forall|k: int| 0 <= k < c.len() implies {
        &&& c[k] != '@'
        &&& c[k] != '-'
        &&& c[k] != '/'
    } by {
        lemma_replace_chars(b, '/', seq!['_'], k);
        if exists|i: int| 0 <= i < b.len() && b[i] == c[k] && c[k] != '/' {
            let i = choose|i: int| 0 <= i < b.len() && b[i] == c[k] && c[k] != '/';
            lemma_replace_chars(a, '-', seq!['_'], i);
            if exists|j: int| 0 <= j < a.len() && a[j] == b[i] && b[i] != '-' {
                let j = choose|j: int| 0 <= j < a.len() && a[j] == b[i] && b[i] != '-';
                lemma_replace_chars(name, '@', Seq::empty(), j);
            }
        }
    }
}

/// Normalizing a name for a tarball twice gives what normalizing it once
/// gives.
pub proof fn lemma_normalize_for_tarball_idempotent(name: Seq<char>)
    ensures
        tarball_name(tarball_name(name)) == tarball_name(name),
{
    let t = tarball_name(name);
    lemma_tarball_name_is_clean(name);
    lemma_replace_absent(t, '@', Seq::empty());
    lemma_replace_absent(t, '-', seq!['_']);
    lemma_replace_absent(t, '/', seq!['_']);
    assert(ascii_lowercase(t) =~= t);
}

/// The API form of any name holds no `/`.
pub proof fn lemma_api_name_has_no_slash(name: Seq<char>)
    ensures
        forall|k: int| 0 <= k < api_name(name).len() ==> #[trigger] api_name(name)[k] != '/',
{
    assert forall|k: int| 0 <= k < api_name(name).len() implies #[trigger] api_name(name)[k] != '/' by {
        lemma_replace_chars(name, '/', seq!['%', '2', 'f'], k);
    }
}

/// A name without `/` is its own API form.
pub proof fn lemma_api_name_without_slash(name: Seq<char>)
    requires
        forall|i: int| 0 <= i < name.len() ==> name[i] != '/',
    ensures
        api_name(name) == name,
{
    lemma_replace_absent(name, '/', seq!['%', '2', 'f']);
}

} // verus!
