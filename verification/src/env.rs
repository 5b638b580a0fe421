//! Splitting leading environment-variable assignments (`FOO=bar BAZ=1 `)
//! off a shell command.
use vstd::prelude::*;

verus! {

/// A character that may begin a variable name: an ASCII letter or `_`.
pub open spec fn is_name_start(c: char) -> bool {
    ('a' <= c && c <= 'z') || ('A' <= c && c <= 'Z') || c == '_'
}

/// A character that may continue a variable name: an ASCII letter or digit, or `_`.
pub open spec fn is_name_char(c: char) -> bool {
    is_name_start(c) || ('0' <= c && c <= '9')
}

/// Index of the first character at or after `i` that cannot continue a name.
pub open spec fn name_end(s: Seq<char>, i: int) -> int
    decreases s.len() - i,
{
    if i >= s.len() {
        s.len() as int
    } else if is_name_char(s[i]) {
        name_end(s, i + 1)
    } else {
        i
    }
}

/// Index of the first space at or after `i` (`s.len()` when there is none).
pub open spec fn value_end(s: Seq<char>, i: int) -> int
    decreases s.len() - i,
{
    if i >= s.len() {
        s.len() as int
    } else if s[i] == ' ' {
        i
    } else {
        value_end(s, i + 1)
    }
}

/// Index of the first non-space character at or after `i`.
pub open spec fn spaces_end(s: Seq<char>, i: int) -> int
    decreases s.len() - i,
{
    if i >= s.len() {
        s.len() as int
    } else if s[i] == ' ' {
        spaces_end(s, i + 1)
    } else {
        i
    }
}

/// When an assignment `NAME=value` followed by at least one space starts at
/// index `i` of `s`, the index just past those spaces.
pub open spec fn assignment_end(s: Seq<char>, i: int) -> Option<int> {
    if 0 <= i < s.len() && is_name_start(s[i]) {
        let j = name_end(s, i + 1);
        if j < s.len() && s[j] == '=' {
            let k = value_end(s, j + 1);
            if k < s.len() && s[k] == ' ' {
                Some(spaces_end(s, k))
            } else {
                None
            }
        } else {
            None
        }
    } else {
        None
    }
}

/// A name followed by `=` starts at index `m` of `s`.
pub open spec fn looks_like_assignment(s: Seq<char>, m: int) -> bool {
    &&& 0 <= m < s.len()
    &&& is_name_start(s[m])
    &&& name_end(s, m + 1) < s.len()
    &&& s[name_end(s, m + 1)] == '='
}

/// End of the run of assignments that starts at index `i`: assignments are
/// taken while each is followed by spaces and the next word again looks like
/// an assignment.
pub open spec fn env_prefix_end(s: Seq<char>, i: int) -> int
    decreases s.len() - i,
{
    match assignment_end(s, i) {
        Some(m) => {
            proof {
                lemma_assignment_end_bounds(s, i);
            }
            if looks_like_assignment(s, m) {
                env_prefix_end(s, m)
            } else {
                m
            }
        },
        None => i,
    }
}

/// Length of the environment-assignment prefix of a command.
pub open spec fn env_prefix_len(s: Seq<char>) -> int {
    env_prefix_end(s, 0)
}

pub proof fn lemma_name_end_bounds(s: Seq<char>, i: int)
    requires
        0 <= i <= s.len(),
    ensures
        i <= name_end(s, i) <= s.len(),
    decreases s.len() - i,
{
    if i < s.len() && is_name_char(s[i]) {
        lemma_name_end_bounds(s, i + 1);
    }
}

pub proof fn lemma_value_end_bounds(s: Seq<char>, i: int)
    requires
        0 <= i <= s.len(),
    ensures
        i <= value_end(s, i) <= s.len(),
    decreases s.len() - i,
{
    if i < s.len() && s[i] != ' ' {
        lemma_value_end_bounds(s, i + 1);
    }
}

pub proof fn lemma_spaces_end_bounds(s: Seq<char>, i: int)
    requires
        0 <= i <= s.len(),
    ensures
        i <= spaces_end(s, i) <= s.len(),
        spaces_end(s, i) < s.len() ==> s[spaces_end(s, i)] != ' ',
        i < s.len() && s[i] == ' ' ==> s[spaces_end(s, i) - 1] == ' ',
    decreases s.len() - i,
{
    if i < s.len() && s[i] == ' ' {
        lemma_spaces_end_bounds(s, i + 1);
    }
}

pub proof fn lemma_assignment_end_bounds(s: Seq<char>, i: int)
    ensures
        assignment_end(s, i) matches Some(m) ==> {
            &&& i < m <= s.len()
            &&& s[m - 1] == ' '
            &&& m < s.len() ==> s[m] != ' '
        },
        assignment_end(s, i) is Some ==> looks_like_assignment(s, i),
{
    if 0 <= i < s.len() && is_name_start(s[i]) {
        lemma_name_end_bounds(s, i + 1);
        let j = name_end(s, i + 1);
        if j < s.len() && s[j] == '=' {
            lemma_value_end_bounds(s, j + 1);
            let k = value_end(s, j + 1);
            if k < s.len() && s[k] == ' ' {
                lemma_spaces_end_bounds(s, k);
            }
        }
    }
}

pub proof fn lemma_env_prefix_end_props(s: Seq<char>, i: int)
    requires
        0 <= i <= s.len(),
    ensures
        i <= env_prefix_end(s, i) <= s.len(),
        env_prefix_end(s, i) > i ==> s[env_prefix_end(s, i) - 1] == ' ',
        env_prefix_end(s, i) > i && env_prefix_end(s, i) < s.len() ==> s[env_prefix_end(s, i)]
            != ' ',
        assignment_end(s, env_prefix_end(s, i)) is None,
    decreases s.len() - i,
{
    lemma_assignment_end_bounds(s, i);
    match assignment_end(s, i) {
        Some(m) => {
            if looks_like_assignment(s, m) {
                lemma_env_prefix_end_props(s, m);
            } else {
                lemma_assignment_end_bounds(s, m);
            }
        },
        None => {},
    }
}

pub proof fn lemma_name_end_shift(s: Seq<char>, d: int, i: int)
    requires
        0 <= d <= s.len(),
        0 <= i <= s.len() - d,
    ensures
        name_end(s.skip(d), i) == name_end(s, i + d) - d,
    decreases s.len() - d - i,
{
    if i < s.len() - d {
        lemma_name_end_shift(s, d, i + 1);
    }
}

pub proof fn lemma_value_end_shift(s: Seq<char>, d: int, i: int)
    requires
        0 <= d <= s.len(),
        0 <= i <= s.len() - d,
    ensures
        value_end(s.skip(d), i) == value_end(s, i + d) - d,
    decreases s.len() - d - i,
{
    if i < s.len() - d {
        lemma_value_end_shift(s, d, i + 1);
    }
}

pub proof fn lemma_spaces_end_shift(s: Seq<char>, d: int, i: int)
    requires
        0 <= d <= s.len(),
        0 <= i <= s.len() - d,
    ensures
        spaces_end(s.skip(d), i) == spaces_end(s, i + d) - d,
    decreases s.len() - d - i,
{
    if i < s.len() - d {
        lemma_spaces_end_shift(s, d, i + 1);
    }
}

pub proof fn lemma_assignment_end_shift(s: Seq<char>, d: int)
    requires
        0 <= d <= s.len(),
    ensures
        assignment_end(s.skip(d), 0) is None <==> assignment_end(s, d) is None,
{
    let t = s.skip(d);
    if d < s.len() && is_name_start(s[d]) {
        lemma_name_end_bounds(s, d + 1);
        lemma_name_end_shift(s, d, 1);
        let j = name_end(s, d + 1);
        if j < s.len() && s[j] == '=' {
            lemma_value_end_bounds(s, j + 1);
            lemma_value_end_shift(s, d, j + 1 - d);
            let k = value_end(s, j + 1);
            if k < s.len() && s[k] == ' ' {
                lemma_spaces_end_shift(s, d, k - d);
            }
        }
    }
}

/// Index of the first character at or after `i` that cannot continue a name.
fn scan_name(s: &str, n: usize, i: usize) -> (r: usize)
    requires
        n == s@.len(),
        i <= n,
    ensures
        r == name_end(s@, i as int),
        i <= r <= n,
{
    let mut k = i;
    while k < n && is_name_char_exec(s.get_char(k))
        invariant
            i <= k <= n,
            n == s@.len(),
            name_end(s@, k as int) == name_end(s@, i as int),
        decreases n - k,
    {
        k = k + 1;
    }
    k
}

/// Index of the first space at or after `i`.
fn scan_value(s: &str, n: usize, i: usize) -> (r: usize)
    requires
        n == s@.len(),
        i <= n,
    ensures
        r == value_end(s@, i as int),
        i <= r <= n,
{
    let mut k = i;
    while k < n && s.get_char(k) != ' '
        invariant
            i <= k <= n,
            n == s@.len(),
            value_end(s@, k as int) == value_end(s@, i as int),
        decreases n - k,
    {
        k = k + 1;
    }
    k
}

/// Index of the first non-space character at or after `i`.
fn scan_spaces(s: &str, n: usize, i: usize) -> (r: usize)
    requires
        n == s@.len(),
        i <= n,
    ensures
        r == spaces_end(s@, i as int),
        i <= r <= n,
{
    let mut k = i;
    while k < n && s.get_char(k) == ' '
        invariant
            i <= k <= n,
            n == s@.len(),
            spaces_end(s@, k as int) == spaces_end(s@, i as int),
        decreases n - k,
    {
        k = k + 1;
    }
    k
}

fn is_name_start_exec(c: char) -> (r: bool)
    ensures
        r == is_name_start(c),
{
    ('a' <= c && c <= 'z') || ('A' <= c && c <= 'Z') || c == '_'
}

fn is_name_char_exec(c: char) -> (r: bool)
    ensures
        r == is_name_char(c),
{
    is_name_start_exec(c) || ('0' <= c && c <= '9')
}

/// The end of an assignment with trailing spaces starting at `i`, if any.
fn match_assignment(s: &str, n: usize, i: usize) -> (r: Option<usize>)
    requires
        n == s@.len(),
        i <= n,
    ensures
        match r {
            Some(m) => assignment_end(s@, i as int) == Some(m as int),
            None => assignment_end(s@, i as int) is None,
        },
{
    if i >= n || !is_name_start_exec(s.get_char(i)) {
        return None;
    }
    let j = scan_name(s, n, i + 1);
    if j >= n || s.get_char(j) != '=' {
        return None;
    }
    let k = scan_value(s, n, j + 1);
    if k >= n || s.get_char(k) != ' ' {
        return None;
    }
    Some(scan_spaces(s, n, k))
}

/// Whether a name followed by `=` starts at `m`.
fn peek_assignment(s: &str, n: usize, m: usize) -> (r: bool)
    requires
        n == s@.len(),
        m <= n,
    ensures
        r == looks_like_assignment(s@, m as int),
{
    if m >= n || !is_name_start_exec(s.get_char(m)) {
        return false;
    }
    let j = scan_name(s, n, m + 1);
    j < n && s.get_char(j) == '='
}

/// Strip leading env var assignments (e.g., "FOO=bar BAZ=1 git status" ->
/// ("FOO=bar BAZ=1 ", "git status")).
pub fn strip_env_prefix(cmd: &str) -> (r: (&str, &str))
    ensures
        r.0@ == cmd@.take(env_prefix_len(cmd@)),
        r.1@ == cmd@.skip(env_prefix_len(cmd@)),
{
    let n = cmd.unicode_len();
    let mut i: usize = 0;
    loop
        invariant_except_break
            i <= n,
            n == cmd@.len(),
            env_prefix_end(cmd@, i as int) == env_prefix_len(cmd@),
        ensures
            i <= n,
            i == env_prefix_len(cmd@),
        decreases n - i,
    {
        match match_assignment(cmd, n, i) {
            None => {
                break ;
            },
            Some(m) => {
                proof {
                    lemma_assignment_end_bounds(cmd@, i as int);
                }
                i = m;
                if !peek_assignment(cmd, n, m) {
                    break ;
                }
            },
        }
    }
    (cmd.substring_char(0, i), cmd.substring_char(i, n))
}

/// The prefix and the rest that `strip_env_prefix` returns, put back
/// together, give the command again.
pub proof fn law_env_split_restores(cmd: Seq<char>)
    ensures
        0 <= env_prefix_len(cmd) <= cmd.len(),
        cmd.take(env_prefix_len(cmd)) + cmd.skip(env_prefix_len(cmd)) == cmd,
{
    lemma_env_prefix_end_props(cmd, 0);
    assert(cmd.take(env_prefix_len(cmd)) + cmd.skip(env_prefix_len(cmd)) =~= cmd);
}

/// A non-empty prefix ends with a space, and the rest after it does not
/// begin with a space.
pub proof fn law_env_prefix_shape(cmd: Seq<char>)
    ensures
        env_prefix_len(cmd) > 0 ==> cmd[env_prefix_len(cmd) - 1] == ' ',
        env_prefix_len(cmd) > 0 && env_prefix_len(cmd) < cmd.len() ==> cmd[env_prefix_len(cmd)]
            != ' ',
{
    lemma_env_prefix_end_props(cmd, 0);
}

/// Stripping is idempotent: the rest after the prefix has no prefix of its own.
pub proof fn law_env_strip_idempotent(cmd: Seq<char>)
    ensures
        env_prefix_len(cmd.skip(env_prefix_len(cmd))) == 0,
{
    lemma_env_prefix_end_props(cmd, 0);
    lemma_assignment_end_shift(cmd, env_prefix_len(cmd));
}

proof fn lemma_name_end_local(s: Seq<char>, t: Seq<char>, e: int, x: int)
    requires
        0 <= x <= name_end(s, x) < e <= s.len(),
        e <= t.len(),
        forall|k: int| 0 <= k < e ==> t[k] == s[k],
    ensures
        name_end(t, x) == name_end(s, x),
    decreases e - x,
{
    if is_name_char(s[x]) {
        lemma_name_end_bounds(s, x + 1);
        lemma_name_end_local(s, t, e, x + 1);
    }
}

proof fn lemma_value_end_local(s: Seq<char>, t: Seq<char>, e: int, x: int)
    requires
        0 <= x <= value_end(s, x) < e <= s.len(),
        e <= t.len(),
        forall|k: int| 0 <= k < e ==> t[k] == s[k],
    ensures
        value_end(t, x) == value_end(s, x),
    decreases e - x,
{
    if s[x] != ' ' {
        lemma_value_end_bounds(s, x + 1);
        lemma_value_end_local(s, t, e, x + 1);
    }
}

proof fn lemma_spaces_end_local(s: Seq<char>, t: Seq<char>, e: int, x: int)
    requires
        0 <= x <= spaces_end(s, x) <= e <= s.len(),
        e < t.len(),
        t[e] != ' ',
        forall|k: int| 0 <= k < e ==> t[k] == s[k],
    ensures
        spaces_end(t, x) == spaces_end(s, x),
    decreases e - x,
{
    if x < e && s[x] == ' ' {
        lemma_spaces_end_bounds(s, x + 1);
        lemma_spaces_end_local(s, t, e, x + 1);
    }
}

proof fn lemma_assignment_end_local(s: Seq<char>, t: Seq<char>, e: int, i: int)
    requires
        0 <= i < e <= s.len(),
        e < t.len(),
        t[e] != ' ',
        forall|k: int| 0 <= k < e ==> t[k] == s[k],
        assignment_end(s, i) matches Some(m) && m <= e,
    ensures
        assignment_end(t, i) == assignment_end(s, i),
{
    lemma_name_end_bounds(s, i + 1);
    let j = name_end(s, i + 1);
    lemma_value_end_bounds(s, j + 1);
    let k = value_end(s, j + 1);
    lemma_spaces_end_bounds(s, k);
    lemma_name_end_local(s, t, e, i + 1);
    lemma_value_end_local(s, t, e, j + 1);
    lemma_spaces_end_local(s, t, e, k);
}

proof fn lemma_env_prefix_end_local(s: Seq<char>, t: Seq<char>, e: int, i: int)
    requires
        0 <= i <= e <= s.len(),
        e < t.len(),
        t[e] != ' ',
        !looks_like_assignment(t, e),
        forall|k: int| 0 <= k < e ==> t[k] == s[k],
        env_prefix_end(s, i) == e,
    ensures
        env_prefix_end(t, i) == e,
    decreases e - i,
{
    lemma_assignment_end_bounds(s, i);
    lemma_assignment_end_bounds(t, e);
    match assignment_end(s, i) {
        Some(m) => {
            lemma_env_prefix_end_props(s, m);
            lemma_assignment_end_local(s, t, e, i);
            if m < e {
                assert(looks_like_assignment(s, m));
                lemma_assignment_end_bounds(s, m);
                let m2 = assignment_end(s, m).unwrap();
                lemma_env_prefix_end_props(s, m2);
                let j = name_end(s, m + 1);
                lemma_name_end_bounds(s, m + 1);
                lemma_value_end_bounds(s, j + 1);
                lemma_spaces_end_bounds(s, value_end(s, j + 1));
                lemma_name_end_local(s, t, e, m + 1);
                lemma_env_prefix_end_local(s, t, e, m);
            }
        },
        None => {},
    }
}

/// Putting the prefix in front of another command whose first word is no
/// assignment gives a command with the same prefix.
pub proof fn law_env_prefix_reattached(cmd: Seq<char>, other: Seq<char>)
    requires
        other.len() > 0,
        other[0] != ' ',
        !looks_like_assignment(other, 0),
    ensures
        env_prefix_len(cmd.take(env_prefix_len(cmd)) + other) == env_prefix_len(cmd),
{
    let e = env_prefix_len(cmd);
    lemma_env_prefix_end_props(cmd, 0);
    let t = cmd.take(e) + other;
    assert(t.skip(e) =~= other);
    lemma_name_end_shift(t, e, 1);
    let j0 = name_end(other, 1);
    assert(name_end(t, e + 1) == j0 + e);
    lemma_name_end_bounds(other, 1);
    if j0 < other.len() {
        assert(t[j0 + e] == other[j0]);
    }
    assert(t[e] == other[0]);
    lemma_env_prefix_end_local(cmd, t, e, 0);
}

proof fn lemma_name_end_at(s: Seq<char>, k: int, m: int)
    requires
        0 <= k <= m <= s.len(),
        forall|j: int| k <= j < m ==> is_name_char(#[trigger] s[j]),
        m == s.len() || !is_name_char(s[m]),
    ensures
        name_end(s, k) == m,
    decreases m - k,
{
    if k < m {
        lemma_name_end_at(s, k + 1, m);
    }
}

proof fn lemma_value_end_at(s: Seq<char>, k: int, m: int)
    requires
        0 <= k <= m <= s.len(),
        forall|j: int| k <= j < m ==> #[trigger] s[j] != ' ',
        m == s.len() || s[m] == ' ',
    ensures
        value_end(s, k) == m,
    decreases m - k,
{
    if k < m {
        lemma_value_end_at(s, k + 1, m);
    }
}

proof fn lemma_name_end_chars(s: Seq<char>, x: int)
    requires
        0 <= x <= s.len(),
    ensures
        forall|k: int| x <= k < name_end(s, x) ==> is_name_char(#[trigger] s[k]),
    decreases s.len() - x,
{
    if x < s.len() && is_name_char(s[x]) {
        lemma_name_end_chars(s, x + 1);
    }
}

proof fn lemma_value_end_beyond(s: Seq<char>, x: int, j: int)
    requires
        0 <= x <= j < s.len(),
        forall|k: int| x <= k <= j ==> #[trigger] s[k] != ' ',
    ensures
        value_end(s, x) > j,
    decreases j - x,
{
    lemma_value_end_bounds(s, x + 1);
    if x < j {
        lemma_value_end_beyond(s, x + 1, j);
    }
}

/// A command that begins with `NAME=VALUE ` (a name of ASCII letters, digits
/// and `_` that does not begin with a digit, a value without spaces) and
/// continues with a command whose first word holds no `=` splits into that
/// assignment, as the prefix, and the command, as the rest.
pub proof fn law_env_assignment_split(name: Seq<char>, value: Seq<char>, rest: Seq<char>)
    requires
        name.len() > 0,
        ('a' <= name[0] && name[0] <= 'z') || ('A' <= name[0] && name[0] <= 'Z') || name[0]
            == '_',
        forall|k: int|
            1 <= k < name.len() ==> ('a' <= #[trigger] name[k] && name[k] <= 'z') || ('A'
                <= name[k] && name[k] <= 'Z') || ('0' <= name[k] && name[k] <= '9') || name[k]
                == '_',
        forall|k: int| 0 <= k < value.len() ==> #[trigger] value[k] != ' ',
        rest.len() > 0,
        rest[0] != ' ',
        forall|k: int| 0 <= k < value_end(rest, 0) ==> #[trigger] rest[k] != '=',
    ensures
        ({
            let cmd = name + seq!['='] + value + seq![' '] + rest;
            &&& env_prefix_len(cmd) == name.len() + value.len() + 2
            &&& cmd.take(env_prefix_len(cmd)) == name + seq!['='] + value + seq![' ']
            &&& cmd.skip(env_prefix_len(cmd)) == rest
        }),
{
    let c = name + seq!['='] + value + seq![' '] + rest;
    let n = name.len() as int;
    let v = value.len() as int;
    let m = n + v + 2;
    assert(c[0] == name[0]);
    assert forall|j: int| 1 <= j < n implies is_name_char(#[trigger] c[j]) by {
        assert(c[j] == name[j]);
    }
    assert(c[n] == '=');
    lemma_name_end_at(c, 1, n);
    assert forall|j: int| n + 1 <= j < n + 1 + v implies #[trigger] c[j] != ' ' by {
        assert(c[j] == value[j - n - 1]);
    }
    assert(c[n + 1 + v] == ' ');
    lemma_value_end_at(c, n + 1, n + 1 + v);
    assert(c[m] == rest[0]);
    assert(spaces_end(c, m) == m);
    assert(spaces_end(c, n + 1 + v) == m);
    assert(assignment_end(c, 0) == Some(m));
    // The command after the assignment does not begin with another one.
    assert(c.skip(m) =~= rest);
    lemma_name_end_shift(c, m, 1);
    lemma_name_end_bounds(rest, 1);
    lemma_name_end_chars(rest, 1);
    let j = name_end(rest, 1);
    if is_name_start(rest[0]) && j < rest.len() && rest[j] == '=' {
        assert forall|k: int| 0 <= k <= j implies #[trigger] rest[k] != ' ' by {
            if 1 <= k < j {
                assert(is_name_char(rest[k]));
            }
        }
        lemma_value_end_beyond(rest, 0, j);
        assert(rest[j] != '=');
    }
    if j < rest.len() {
        assert(c[j + m] == rest[j]);
    }
    assert(!looks_like_assignment(c, m));
    assert(c.take(m) =~= name + seq!['='] + value + seq![' ']);
}

proof fn lemma_assignment_end_shift_at(s: Seq<char>, d: int, i: int)
    requires
        0 <= d <= s.len(),
        0 <= i <= s.len() - d,
    ensures
        match assignment_end(s.skip(d), i) {
            Some(m) => assignment_end(s, i + d) == Some(m + d),
            None => assignment_end(s, i + d) is None,
        },
        looks_like_assignment(s.skip(d), i) == looks_like_assignment(s, i + d),
{
    let t = s.skip(d);
    if i < t.len() {
        assert(t[i] == s[i + d]);
        lemma_name_end_bounds(t, i + 1);
        lemma_name_end_shift(s, d, i + 1);
        let j = name_end(t, i + 1);
        if j < t.len() {
            assert(t[j] == s[j + d]);
            lemma_value_end_bounds(t, j + 1);
            lemma_value_end_shift(s, d, j + 1);
            let k = value_end(t, j + 1);
            if k < t.len() {
                assert(t[k] == s[k + d]);
                lemma_spaces_end_shift(s, d, k);
            }
        }
    }
}

proof fn lemma_env_prefix_end_shift(s: Seq<char>, d: int, i: int)
    requires
        0 <= d <= s.len(),
        0 <= i <= s.len() - d,
    ensures
        env_prefix_end(s.skip(d), i) == env_prefix_end(s, i + d) - d,
    decreases s.len() - d - i,
{
    let t = s.skip(d);
    lemma_assignment_end_shift_at(s, d, i);
    lemma_assignment_end_bounds(t, i);
    match assignment_end(t, i) {
        Some(m) => {
            lemma_assignment_end_shift_at(s, d, m);
            if looks_like_assignment(t, m) {
                lemma_env_prefix_end_shift(s, d, m);
            }
        },
        None => {},
    }
}

proof fn lemma_spaces_end_at(s: Seq<char>, k: int, m: int)
    requires
        0 <= k <= m <= s.len(),
        forall|j: int| k <= j < m ==> #[trigger] s[j] == ' ',
        m == s.len() || s[m] != ' ',
    ensures
        spaces_end(s, k) == m,
    decreases m - k,
{
    if k < m {
        lemma_spaces_end_at(s, k + 1, m);
    }
}

/// A command that begins with one assignment `NAME=VALUE` and spaces (a name
/// of ASCII letters, digits and `_` that does not begin with a digit, a
/// value without spaces, one or more spaces) has as prefix that assignment
/// with its spaces followed by the prefix of the rest.
pub proof fn law_env_prefix_assignment_then_rest(
    name: Seq<char>,
    value: Seq<char>,
    gap: Seq<char>,
    rest: Seq<char>,
)
    requires
        name.len() > 0,
        ('a' <= name[0] && name[0] <= 'z') || ('A' <= name[0] && name[0] <= 'Z') || name[0]
            == '_',
        forall|k: int|
            1 <= k < name.len() ==> ('a' <= #[trigger] name[k] && name[k] <= 'z') || ('A'
                <= name[k] && name[k] <= 'Z') || ('0' <= name[k] && name[k] <= '9') || name[k]
                == '_',
        forall|k: int| 0 <= k < value.len() ==> #[trigger] value[k] != ' ',
        gap.len() > 0,
        forall|k: int| 0 <= k < gap.len() ==> #[trigger] gap[k] == ' ',
        rest.len() == 0 || rest[0] != ' ',
    ensures
        env_prefix_len(name + seq!['='] + value + gap + rest) == name.len() + value.len() + 1
            + gap.len() + env_prefix_len(rest),
{
    let c = name + seq!['='] + value + gap + rest;
    let n = name.len() as int;
    let v = value.len() as int;
    let m = n + v + 1 + gap.len();
    assert(c[0] == name[0]);
    assert forall|j: int| 1 <= j < n implies is_name_char(#[trigger] c[j]) by {
        assert(c[j] == name[j]);
    }
    assert(c[n] == '=');
    lemma_name_end_at(c, 1, n);
    assert forall|j: int| n + 1 <= j < n + 1 + v implies #[trigger] c[j] != ' ' by {
        assert(c[j] == value[j - n - 1]);
    }
    assert(c[n + 1 + v] == gap[0]);
    lemma_value_end_at(c, n + 1, n + 1 + v);
    assert forall|j: int| n + 1 + v <= j < m implies #[trigger] c[j] == ' ' by {
        assert(c[j] == gap[j - n - 1 - v]);
    }
    if rest.len() > 0 {
        assert(c[m] == rest[0]);
    }
    lemma_spaces_end_at(c, n + 1 + v, m);
    assert(assignment_end(c, 0) == Some(m));
    assert(c.skip(m) =~= rest);
    lemma_assignment_end_shift_at(c, m, 0);
    lemma_env_prefix_end_shift(c, m, 0);
    lemma_assignment_end_bounds(rest, 0);
}

} // verus!
