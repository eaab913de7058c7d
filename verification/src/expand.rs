//! Expansion of the raw path strings stored in the configuration.
//!
//! A stored path may be blank, start with `~`, contain the literal token
//! `$HOME`, carry an explicit `/`, `./` or `..` prefix, or be a bare
//! relative token.  `expand_spec` states which rule applies, in order;
//! `expand_path` is the executable form, proved equal to it.

use vstd::prelude::*;

verus! {

use vstd::string::*;

/// The whitespace characters a blank path may consist of.
pub open spec fn is_space_char(c: char) -> bool {
    c == ' ' || c == '\t' || c == '\n' || c == '\r'
}

/// A blank input: empty, or whitespace throughout.
pub open spec fn all_space(s: Seq<char>) -> bool {
    forall|i: int| 0 <= i < s.len() ==> is_space_char(#[trigger] s[i])
}

/// The literal token whose occurrences are substituted by the `HOME`
/// environment variable's value.
pub open spec fn home_token() -> Seq<char> {
    seq!['$', 'H', 'O', 'M', 'E']
}

/// The token starts at position `i` of `s`.
pub open spec fn token_at(s: Seq<char>, i: int) -> bool {
    0 <= i && i + 5 <= s.len() && s.subrange(i, i + 5) == home_token()
}

/// `s` holds the token somewhere.
pub open spec fn contains_home_token(s: Seq<char>) -> bool {
    exists|i: int| token_at(s, i)
}

/// Every occurrence of the token, scanned left to right, replaced by `val`.
pub open spec fn replace_home(s: Seq<char>, val: Seq<char>) -> Seq<char>
    decreases s.len(),
{
    if s.len() == 0 {
        s
    } else if token_at(s, 0) {
        val + replace_home(s.skip(5), val)
    } else {
        seq![s[0]] + replace_home(s.skip(1), val)
    }
}

/// `home` joined with a relative component, inserting `/` unless `home`
/// already ends with one.
pub open spec fn join_path(home: Seq<char>, rel: Seq<char>) -> Seq<char> {
    if home.len() > 0 && home[home.len() - 1] == '/' {
        home + rel
    } else {
        home + seq!['/'] + rel
    }
}

/// Exactly `~`, or a `~/` prefix.
pub open spec fn tilde_form(s: Seq<char>) -> bool {
    s.len() >= 1 && s[0] == '~' && (s.len() == 1 || s[1] == '/')
}

/// An explicitly absolute path.
pub open spec fn starts_abs(s: Seq<char>) -> bool {
    s.len() >= 1 && s[0] == '/'
}

/// An explicit `./` prefix.
pub open spec fn starts_dot_slash(s: Seq<char>) -> bool {
    s.len() >= 2 && s[0] == '.' && s[1] == '/'
}

/// An explicit `..` prefix.
pub open spec fn starts_dot_dot(s: Seq<char>) -> bool {
    s.len() >= 2 && s[0] == '.' && s[1] == '.'
}

/// A prefix under which the input is used verbatim.
pub open spec fn explicit_prefix(s: Seq<char>) -> bool {
    starts_abs(s) || starts_dot_slash(s) || starts_dot_dot(s)
}

/// The view of an optional borrowed string.
pub open spec fn opt_view(o: Option<&str>) -> Option<Seq<char>> {
    match o {
        Some(s) => Some(s@),
        None => None,
    }
}

/// What expansion yields, rule by rule, in order: blank inputs and inputs
/// with an explicit prefix are kept; `~` and bare relative tokens are joined
/// onto `home`; the `$HOME` token is substituted from `env_home`.  When the
/// directory a rule needs is unavailable the input is kept unchanged.
pub open spec fn expand_spec(
    s: Seq<char>,
    home: Option<Seq<char>>,
    env_home: Option<Seq<char>>,
) -> Seq<char> {
    if all_space(s) {
        s
    } else if tilde_form(s) {
        match home {
            Some(h) => if s.len() == 1 {
                h
            } else {
                join_path(h, s.skip(2))
            },
            None => s,
        }
    } else if contains_home_token(s) {
        match env_home {
            Some(v) => replace_home(s, v),
            None => s,
        }
    } else if explicit_prefix(s) {
        s
    } else {
        match home {
            Some(h) => join_path(h, s),
            None => s,
        }
    }
}

proof fn lemma_token_at_shift(s: Seq<char>, k: int, j: int)
    requires
        0 <= k <= s.len(),
        0 <= j,
    ensures
        token_at(s.skip(k), j) == token_at(s, k + j),
{
    if j + 5 <= s.skip(k).len() {
        assert(s.skip(k).subrange(j, j + 5) =~= s.subrange(k + j, k + j + 5));
    }
}

/// Law: a string without any occurrence of the token is kept unchanged by
/// substitution.
pub proof fn lemma_replace_home_no_token(s: Seq<char>, val: Seq<char>)
    requires
        !contains_home_token(s),
    ensures
        replace_home(s, val) == s,
    decreases s.len(),
{
    if s.len() == 0 {
    } else {
        assert(!token_at(s, 0));
        assert forall|j: int| !token_at(s.skip(1), j) by {
            if 0 <= j {
                lemma_token_at_shift(s, 1, j);
            }
        }
        lemma_replace_home_no_token(s.skip(1), val);
        assert(seq![s[0]] + s.skip(1) =~= s);
    }
}

/// Law: an occurrence of the token at the front is replaced by `val`, and
/// substitution continues past it.
pub proof fn lemma_replace_home_at_token(s: Seq<char>, val: Seq<char>)
    requires
        token_at(s, 0),
    ensures
        replace_home(s, val) == val + replace_home(s.skip(5), val),
{
}

fn all_space_exec(s: &str) -> (r: bool)
    ensures
        r == all_space(s@),
{
    let n = s.unicode_len();
    let mut i: usize = 0;
    while i < n
        invariant
            n == s@.len(),
            i <= n,
            forall|j: int| 0 <= j < i ==> is_space_char(#[trigger] s@[j]),
        decreases n - i,
    {
        let c = s.get_char(i);
        if !(c == ' ' || c == '\t' || c == '\n' || c == '\r') {
            assert(!is_space_char(s@[i as int]));
            return false;
        }
        i += 1;
    }
    true
}

fn token_at_exec(s: &str, i: usize, n: usize) -> (r: bool)
    requires
        n == s@.len(),
        i < n,
    ensures
        r == token_at(s@, i as int),
{
    if n - i < 5 {
        return false;
    }
    let m = s.get_char(i) == '$' && s.get_char(i + 1) == 'H' && s.get_char(i + 2) == 'O'
        && s.get_char(i + 3) == 'M' && s.get_char(i + 4) == 'E';
    proof {
        let ii = i as int;
        if m {
            assert(s@.subrange(ii, ii + 5) =~= home_token());
        } else {
            if s@.subrange(ii, ii + 5) == home_token() {
                assert(s@[ii] == home_token()[0]);
                assert(s@[ii + 1] == home_token()[1]);
                assert(s@[ii + 2] == home_token()[2]);
                assert(s@[ii + 3] == home_token()[3]);
                assert(s@[ii + 4] == home_token()[4]);
            }
        }
    }
    m
}

fn has_home_token(s: &str) -> (r: bool)
    ensures
        r == contains_home_token(s@),
{
    let n = s.unicode_len();
    if n < 5 {
        return false;
    }
    let mut i: usize = 0;
    while i <= n - 5
        invariant
            n == s@.len(),
            5 <= n,
            i <= n - 4,
            forall|j: int| 0 <= j < i ==> !token_at(s@, j),
        decreases n - i,
    {
        if token_at_exec(s, i, n) {
            assert(token_at(s@, i as int));
            return true;
        }
        i += 1;
    }
    assert(forall|j: int| !token_at(s@, j));
    false
}

/// Joins a directory with a relative component, as `join_path` states.
pub fn join_dir(home: &str, rel: &str) -> (r: String)
    ensures
        r@ == join_path(home@, rel@),
{
    let hn = home.unicode_len();
    let mut out = home.to_owned();
    if !(hn > 0 && home.get_char(hn - 1) == '/') {
        out.append("/");
        proof {
            reveal_strlit("/");
            assert("/"@ =~= seq!['/']);
        }
    }
    out.append(rel);
    out
}

fn replace_home_exec(s: &str, val: &str) -> (r: String)
    ensures
        r@ == replace_home(s@, val@),
{
    let n = s.unicode_len();
    let mut out = String::new();
    let mut seg: usize = 0;
    let mut i: usize = 0;
    proof {
        assert(s@.skip(0) =~= s@);
        assert(s@.subrange(0, 0) =~= Seq::<char>::empty());
        assert(out@ + s@.subrange(0, 0) + replace_home(s@.skip(0), val@) =~= replace_home(
            s@,
            val@,
        ));
    }
    while i < n
        invariant
            n == s@.len(),
            seg <= i <= n,
            replace_home(s@, val@) == out@ + s@.subrange(seg as int, i as int) + replace_home(
                s@.skip(i as int),
                val@,
            ),
        decreases n - i,
    {
        let ii: Ghost<int> = Ghost(i as int);
        if token_at_exec(s, i, n) {
            out.append(s.substring_char(seg, i));
            out.append(val);
            proof {
                lemma_token_at_shift(s@, ii@, 0);
                assert(token_at(s@.skip(ii@), 0));
                assert(s@.skip(ii@).skip(5) =~= s@.skip(ii@ + 5));
                assert(replace_home(s@.skip(ii@), val@) == val@ + replace_home(
                    s@.skip(ii@ + 5),
                    val@,
                ));
                assert(s@.subrange(ii@ + 5, ii@ + 5) =~= Seq::<char>::empty());
            }
            i = i + 5;
            seg = i;
        } else {
            proof {
                lemma_token_at_shift(s@, ii@, 0);
                assert(!token_at(s@.skip(ii@), 0));
                assert(s@.skip(ii@).len() > 0);
                assert(s@.skip(ii@).skip(1) =~= s@.skip(ii@ + 1));
                assert(s@.skip(ii@)[0] == s@[ii@]);
                assert(replace_home(s@.skip(ii@), val@) == seq![s@[ii@]] + replace_home(
                    s@.skip(ii@ + 1),
                    val@,
                ));
                assert(s@.subrange(seg as int, ii@) + seq![s@[ii@]] =~= s@.subrange(
                    seg as int,
                    ii@ + 1,
                ));
            }
            i = i + 1;
        }
    }
    out.append(s.substring_char(seg, n));
    proof {
        assert(s@.skip(n as int) =~= Seq::<char>::empty());
        assert(replace_home(s@.skip(n as int), val@) == Seq::<char>::empty());
        assert(out@ =~= replace_home(s@, val@));
    }
    out
}

/// Expands one stored path string.  `home` is the platform home directory
/// (for `~` and bare relative tokens); `env_home` is the value of the `HOME`
/// environment variable (for `$HOME` substitution).
pub fn expand_path(input: &str, home: Option<&str>, env_home: Option<&str>) -> (r: String)
    ensures
        r@ == expand_spec(input@, opt_view(home), opt_view(env_home)),
{
    let n = input.unicode_len();
    if all_space_exec(input) {
        return input.to_owned();
    }
    if n >= 1 && input.get_char(0) == '~' && (n == 1 || input.get_char(1) == '/') {
        match home {
            Some(h) => {
                if n == 1 {
                    return h.to_owned();
                } else {
                    return join_dir(h, input.substring_char(2, n));
                }
            },
            None => {
                return input.to_owned();
            },
        }
    }
    assert(!tilde_form(input@));
    if has_home_token(input) {
        match env_home {
            Some(v) => {
                return replace_home_exec(input, v);
            },
            None => {
                return input.to_owned();
            },
        }
    }
    if input.get_char(0) == '/' || (n >= 2 && input.get_char(0) == '.' && (input.get_char(1) == '/'
        || input.get_char(1) == '.')) {
        return input.to_owned();
    }
    assert(!explicit_prefix(input@));
    match home {
        Some(h) => join_dir(h, input),
        None => input.to_owned(),
    }
}

/// Law: a path that holds no `~` and no `$HOME` occurrence, carries no
/// explicit `/`, `./` or `..` prefix, and is not blank, expands to the home
/// directory joined with the input.  (A blank input is kept unchanged
/// instead, so blank inputs are left out here.)
pub proof fn lemma_expand_bare_relative(
    s: Seq<char>,
    h: Seq<char>,
    env_home: Option<Seq<char>>,
)
    requires
        !all_space(s),
        forall|i: int| 0 <= i < s.len() ==> s[i] != '~',
        !contains_home_token(s),
        !explicit_prefix(s),
    ensures
        expand_spec(s, Some(h), env_home) == join_path(h, s),
{
    if s.len() >= 1 {
        assert(s[0] != '~');
    }
}

/// Law: `~` expands to the home directory, and `~/suffix` to the home
/// directory joined with the suffix.
pub proof fn lemma_expand_tilde(s: Seq<char>, h: Seq<char>, env_home: Option<Seq<char>>)
    requires
        tilde_form(s),
    ensures
        s.len() == 1 ==> expand_spec(s, Some(h), env_home) == h,
        s.len() > 1 ==> expand_spec(s, Some(h), env_home) == join_path(h, s.skip(2)),
{
    assert(!is_space_char(s[0]));
}

/// Law: a path holding the `$HOME` token (other than a `~`-prefixed one,
/// where the `~` rule comes first) expands by substituting the `HOME`
/// value for every occurrence, left to right.
pub proof fn lemma_expand_home_var(
    s: Seq<char>,
    v: Seq<char>,
    home: Option<Seq<char>>,
)
    requires
        contains_home_token(s),
        !tilde_form(s),
    ensures
        expand_spec(s, home, Some(v)) == replace_home(s, v),
{
    let i = choose|i: int| token_at(s, i);
    assert(s.subrange(i, i + 5)[0] == s[i]);
    assert(s[i] == '$');
    assert(!is_space_char(s[i]));
}

/// Law: expansion is the identity on an explicitly absolute path without a
/// `$HOME` occurrence, and hence idempotent there.  (An absolute path that
/// does hold the token, such as `/a/$HOME`, is substituted instead.)
pub proof fn lemma_expand_absolute_identity(
    s: Seq<char>,
    home: Option<Seq<char>>,
    env_home: Option<Seq<char>>,
)
    requires
        starts_abs(s),
        !contains_home_token(s),
    ensures
        expand_spec(s, home, env_home) == s,
        expand_spec(expand_spec(s, home, env_home), home, env_home) == expand_spec(
            s,
            home,
            env_home,
        ),
{
    assert(!is_space_char(s[0]));
    assert(s[0] != '~');
}

} // verus!
