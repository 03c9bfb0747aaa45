//! Text building blocks: joining words, shell quoting and path directories.

use vstd::prelude::*;

use crate::model::EnvVars;

verus! {

/// The shells a launch command can be written for.
#[derive(Clone, Copy, Debug, PartialEq, Eq, Structural)]
pub enum Platform {
    /// A POSIX shell (`sh -c`), as on macOS.
    Unix,
    /// `cmd /c`, as on Windows.
    Windows,
}

/// Words joined with single spaces.
pub open spec fn join_words(s: Seq<Seq<char>>) -> Seq<char>
    decreases s.len(),
{
    if s.len() == 0 {
        Seq::empty()
    } else if s.len() == 1 {
        s[0]
    } else {
        join_words(s.drop_last()) + seq![' '] + s.last()
    }
}

/// Joins words with single spaces.
pub fn join(v: &Vec<String>) -> (r: String)
    ensures
        r@ == join_words(v.deep_view()),
{
    let mut r = String::new();
    let mut i: usize = 0;
    while i < v.len()
        invariant
            i <= v.len(),
            r@ == join_words(v.deep_view().take(i as int)),
        decreases v.len() - i,
    {
        proof {
            reveal_strlit(" ");
            let t = v.deep_view().take(i + 1);
            assert(t.drop_last() =~= v.deep_view().take(i as int));
            assert(i == 0 ==> v.deep_view().take(i as int) =~= Seq::<Seq<char>>::empty());
        }
        if i > 0 {
            r.append(" ");
        }
        r.append(v[i].as_str());
        i = i + 1;
    }
    assert(v.deep_view().take(i as int) =~= v.deep_view());
    r
}

/// The characters that a POSIX shell never treats specially.
pub open spec fn shell_safe(c: char) -> bool {
    ('a' <= c && c <= 'z') || ('A' <= c && c <= 'Z') || ('0' <= c && c <= '9') || c == '-' || c
        == '_' || c == '=' || c == '/' || c == ',' || c == '.' || c == '+'
}

pub open spec fn all_shell_safe(s: Seq<char>) -> bool {
    forall|i: int| 0 <= i < s.len() ==> shell_safe(#[trigger] s[i])
}

/// The inside of a single-quoted word: a quote or `!` closes the quotes, is
/// written after a backslash, and the quotes open again.
pub open spec fn quoted_body(s: Seq<char>) -> Seq<char>
    decreases s.len(),
{
    if s.len() == 0 {
        Seq::empty()
    } else {
        let c = s[0];
        let head = if c == '\'' || c == '!' {
            seq!['\'', '\\', c, '\'']
        } else {
            seq![c]
        };
        head + quoted_body(s.drop_first())
    }
}

/// A word for a POSIX shell that stands for `s`: `s` itself where every
/// character is safe, else `s` in single quotes.
pub open spec fn shell_quote(s: Seq<char>) -> Seq<char> {
    if s.len() > 0 && all_shell_safe(s) {
        s
    } else {
        seq!['\''] + quoted_body(s) + seq!['\'']
    }
}

/// `n` backslashes.
pub open spec fn backslashes(n: nat) -> Seq<char> {
    Seq::new(n, |i: int| '\\')
}

/// The inside of a double-quoted word for Windows programs, with `n`
/// backslashes read and not yet written: a run of backslashes is doubled
/// before a quote (which is then written as `\"`) and at the end, and kept
/// as it is before any other character.
pub open spec fn cmd_body(s: Seq<char>, n: nat) -> Seq<char>
    decreases s.len(),
{
    if s.len() == 0 {
        backslashes(2 * n)
    } else if s[0] == '\\' {
        cmd_body(s.drop_first(), n + 1)
    } else if s[0] == '"' {
        backslashes(2 * n + 1) + seq!['"'] + cmd_body(s.drop_first(), 0)
    } else {
        backslashes(n) + seq![s[0]] + cmd_body(s.drop_first(), 0)
    }
}

/// A word for Windows programs that stands for `s`: `s` itself where it is
/// non-empty and holds no space, tab, newline or quote, else `s` in double
/// quotes.
pub open spec fn cmd_quote(s: Seq<char>) -> Seq<char> {
    if !needs_cmd_quotes(s) {
        s
    } else {
        seq!['"'] + cmd_body(s, 0) + seq!['"']
    }
}

/// Relies on `shell_escape::unix::escape`: the string unchanged where it is
/// non-empty and every character is safe, else in single quotes with each
/// quote and `!` written as `'\X'`.
#[verifier::external_body]
fn escape_unix(s: &String) -> (r: String)
    ensures
        r@ == shell_quote(s@),
{
    shell_escape::unix::escape(std::borrow::Cow::from(s.as_str())).into_owned()
}

/// Relies on `shell_escape::windows::escape`: the string unchanged where it
/// needs no quotes, else in double quotes with backslashes doubled before a
/// quote and at the end, and each quote written as `\"`.
#[verifier::external_body]
fn escape_windows(s: &String) -> (r: String)
    ensures
        r@ == cmd_quote(s@),
{
    shell_escape::windows::escape(std::borrow::Cow::from(s.as_str())).into_owned()
}

/// A value quoted as one word for the platform's shell.
pub open spec fn quote_for(platform: Platform, s: Seq<char>) -> Seq<char> {
    match platform {
        Platform::Unix => shell_quote(s),
        Platform::Windows => cmd_caret(cmd_quote(s), false),
    }
}

/// The characters by which `cmd` chains, pipes or redirects commands, and its
/// escape character.
pub open spec fn cmd_special(c: char) -> bool {
    c == '&' || c == '|' || c == '<' || c == '>' || c == '^'
}

pub open spec fn cmd_breaks_word(c: char) -> bool {
    c == '"' || c == '\t' || c == '\n' || c == ' '
}

/// Whether a value must be put in double quotes to stay one word for `cmd`.
pub open spec fn needs_cmd_quotes(s: Seq<char>) -> bool {
    s.len() == 0 || exists|i: int| 0 <= i < s.len() && cmd_breaks_word(#[trigger] s[i])
}

/// A word as `cmd` must be given it: outside double quotes (which `cmd`
/// toggles on each `"`) a caret is written before each special character.
pub open spec fn cmd_caret(w: Seq<char>, inside: bool) -> Seq<char>
    decreases w.len(),
{
    if w.len() == 0 {
        w
    } else {
        let c = w[0];
        let next = if c == '"' {
            !inside
        } else {
            inside
        };
        (if !inside && cmd_special(c) {
            seq!['^', c]
        } else {
            seq![c]
        }) + cmd_caret(w.drop_first(), next)
    }
}

/// Writes a caret before each of `cmd`'s special characters that stands
/// outside double quotes.
pub fn escape_cmd_specials(s: &String) -> (r: String)
    ensures
        r@ == cmd_caret(s@, false),
{
    let t = s.as_str();
    let n = t.unicode_len();
    let mut r = String::new();
    let mut start: usize = 0;
    let mut i: usize = 0;
    let mut inside = false;
    proof {
        assert(s@.subrange(0, 0) =~= Seq::<char>::empty());
        assert(s@.subrange(0, n as int) =~= s@);
    }
    while i < n
        invariant
            start <= i <= n,
            n == s@.len(),
            t@ == s@,
            r@ + s@.subrange(start as int, i as int) + cmd_caret(s@.subrange(i as int, n as int), inside)
                == cmd_caret(s@, false),
        decreases n - i,
    {
        let ghost rest = s@.subrange(i as int, n as int);
        let c = t.get_char(i);
        assert(rest[0] == c);
        assert(rest.drop_first() =~= s@.subrange(i + 1, n as int));
        let next = if c == '"' {
            !inside
        } else {
            inside
        };
        if !inside && (c == '&' || c == '|' || c == '<' || c == '>' || c == '^') {
            let seg = t.substring_char(start, i);
            let ghost r0 = r@;
            proof {
                reveal_strlit("^");
                assert(cmd_caret(rest, inside) == seq!['^', c] + cmd_caret(rest.drop_first(), next));
            }
            r.append(seg);
            r.append("^");
            assert(r@ + s@.subrange(i as int, i + 1) + cmd_caret(s@.subrange(i + 1, n as int), next)
                =~= r0 + s@.subrange(start as int, i as int) + cmd_caret(rest, inside));
            start = i;
        } else {
            proof {
                assert(s@.subrange(start as int, i + 1) =~= s@.subrange(start as int, i as int).push(c));
                assert(seq![c] + cmd_caret(rest.drop_first(), next) == cmd_caret(rest, inside));
            }
            assert(r@ + s@.subrange(start as int, i + 1) + cmd_caret(s@.subrange(i + 1, n as int), next)
                =~= r@ + s@.subrange(start as int, i as int) + cmd_caret(rest, inside));
        }
        inside = next;
        i = i + 1;
    }
    let seg = t.substring_char(start, n);
    r.append(seg);
    assert(s@.subrange(n as int, n as int) =~= Seq::<char>::empty());
    r
}

/// What `cmd` hands on from a word, toggling its quote state on each `"`:
/// outside quotes a caret takes the next character literally and is dropped;
/// `None` where a special character stands bare outside quotes, where `cmd`
/// would chain, pipe or redirect.
pub open spec fn cmd_reads(w: Seq<char>, inside: bool) -> Option<Seq<char>>
    decreases w.len(),
{
    if w.len() == 0 {
        Some(w)
    } else if !inside && w[0] == '^' && w.len() >= 2 {
        match cmd_reads(w.subrange(2, w.len() as int), inside) {
            Some(r) => Some(seq![w[1]] + r),
            None => None,
        }
    } else if !inside && cmd_special(w[0]) {
        None
    } else {
        let next = if w[0] == '"' {
            !inside
        } else {
            inside
        };
        match cmd_reads(w.drop_first(), next) {
            Some(r) => Some(seq![w[0]] + r),
            None => None,
        }
    }
}

proof fn lemma_cmd_caret_reads_back(w: Seq<char>, inside: bool)
    ensures
        cmd_reads(cmd_caret(w, inside), inside) == Some(w),
    decreases w.len(),
{
    if w.len() > 0 {
        let c = w[0];
        let rest = w.drop_first();
        let next = if c == '"' {
            !inside
        } else {
            inside
        };
        lemma_cmd_caret_reads_back(rest, next);
        let tail = cmd_caret(rest, next);
        if !inside && cmd_special(c) {
            let x = seq!['^', c] + tail;
            assert(cmd_caret(w, inside) == x);
            assert(x.subrange(2, x.len() as int) =~= tail);
            assert(x[0] == '^' && x[1] == c);
            assert(c != '"');
        } else {
            let x = seq![c] + tail;
            assert(cmd_caret(w, inside) == x);
            assert(x.drop_first() =~= tail);
            assert(x[0] == c);
        }
        assert(seq![c] + rest =~= w);
    }
}

/// A value made into a word for `cmd` holds no special character outside
/// quotes, so `cmd` starts no second command from it, and `cmd` hands the
/// program exactly the word that Windows quoting made of the value.
pub proof fn lemma_cmd_word_is_one_command(s: Seq<char>)
    ensures
        cmd_reads(quote_for(Platform::Windows, s), false) == Some(cmd_quote(s)),
{
    lemma_cmd_caret_reads_back(cmd_quote(s), false);
}

pub open spec fn quote_all(platform: Platform, s: Seq<Seq<char>>) -> Seq<Seq<char>> {
    s.map_values(|w: Seq<char>| quote_for(platform, w))
}

/// Quotes each value as a word of its own and joins the words with spaces.
pub fn quote_words(platform: Platform, v: &Vec<String>) -> (r: String)
    ensures
        r@ == join_words(quote_all(platform, v.deep_view())),
{
    let mut q: Vec<String> = Vec::new();
    let mut i: usize = 0;
    while i < v.len()
        invariant
            i <= v.len(),
            q.deep_view() == quote_all(platform, v.deep_view().take(i as int)),
        decreases v.len() - i,
    {
        let w = match platform {
            Platform::Unix => escape_unix(&v[i]),
            Platform::Windows => escape_cmd_specials(&escape_windows(&v[i])),
        };
        assert(w@ == quote_for(platform, v.deep_view()[i as int]));
        let ghost before = q.deep_view();
        q.push(w);
        assert(q.deep_view() =~= before.push(w@));
        assert(q.deep_view() =~= quote_all(platform, v.deep_view().take(i + 1)));
        i = i + 1;
    }
    assert(v.deep_view().take(i as int) =~= v.deep_view());
    join(&q)
}

/// What a POSIX shell reads as the value of a single word: unquoted safe
/// characters stand for themselves, a backslash takes the next character
/// literally, and single quotes take everything up to the closing quote
/// literally. `None` where the text is not exactly one word (an unquoted
/// space or metacharacter, or an unclosed quote).
pub open spec fn sh_word(w: Seq<char>, quoted: bool) -> Option<Seq<char>>
    decreases w.len(),
{
    if w.len() == 0 {
        if quoted {
            None
        } else {
            Some(Seq::empty())
        }
    } else if quoted {
        if w[0] == '\'' {
            sh_word(w.drop_first(), false)
        } else {
            match sh_word(w.drop_first(), true) {
                Some(r) => Some(seq![w[0]] + r),
                None => None,
            }
        }
    } else if w[0] == '\'' {
        sh_word(w.drop_first(), true)
    } else if w[0] == '\\' && w.len() >= 2 {
        match sh_word(w.subrange(2, w.len() as int), false) {
            Some(r) => Some(seq![w[1]] + r),
            None => None,
        }
    } else if shell_safe(w[0]) {
        match sh_word(w.drop_first(), false) {
            Some(r) => Some(seq![w[0]] + r),
            None => None,
        }
    } else {
        None
    }
}

proof fn lemma_quoted_body_reads_back(s: Seq<char>)
    ensures
        sh_word(quoted_body(s) + seq!['\''], true) == Some(s),
    decreases s.len(),
{
    if s.len() == 0 {
        assert(quoted_body(s) + seq!['\''] =~= seq!['\'']);
        assert(seq!['\''].drop_first() =~= Seq::<char>::empty());
        assert(sh_word(seq!['\''], true) == sh_word(Seq::<char>::empty(), false));
        assert(s =~= Seq::<char>::empty());
    } else {
        let c = s[0];
        let rest = s.drop_first();
        let tail = quoted_body(rest) + seq!['\''];
        lemma_quoted_body_reads_back(rest);
        if c == '\'' || c == '!' {
            let w = seq!['\'', '\\', c, '\''] + tail;
            assert(quoted_body(s) + seq!['\''] =~= w);
            let w1 = w.drop_first();
            assert(w1 =~= seq!['\\', c, '\''] + tail);
            let w2 = w1.subrange(2, w1.len() as int);
            assert(w2 =~= seq!['\''] + tail);
            assert(w2.drop_first() =~= tail);
            assert(sh_word(w2, false) == Some(rest));
            assert(w1[0] == '\\' && w1[1] == c);
            assert(sh_word(w1, false) == Some(seq![c] + rest));
            assert(seq![c] + rest =~= s);
            assert(w[0] == '\'');
            assert(sh_word(w, true) == sh_word(w1, false));
        } else {
            let w = seq![c] + tail;
            assert(quoted_body(s) + seq!['\''] =~= w);
            assert(w.drop_first() =~= tail);
            assert(w[0] == c);
            assert(seq![c] + rest =~= s);
            assert(sh_word(w, true) == Some(seq![c] + rest));
        }
    }
}

proof fn lemma_safe_word_reads_back(s: Seq<char>)
    requires
        all_shell_safe(s),
    ensures
        sh_word(s, false) == Some(s),
    decreases s.len(),
{
    if s.len() > 0 {
        let rest = s.drop_first();
        assert(all_shell_safe(rest)) by {
            assert forall|i: int| 0 <= i < rest.len() implies shell_safe(#[trigger] rest[i]) by {
                assert(rest[i] == s[i + 1]);
            }
        }
        assert(shell_safe(s[0]));
        lemma_safe_word_reads_back(rest);
        assert(seq![s[0]] + rest =~= s);
    }
}

/// A quoted value is read back by a POSIX shell as exactly one word, whose
/// value is `s` itself, whatever spaces, quotes, `;` or `$` it holds.
pub proof fn lemma_shell_quote_one_word(s: Seq<char>)
    ensures
        sh_word(shell_quote(s), false) == Some(s),
{
    if s.len() > 0 && all_shell_safe(s) {
        lemma_safe_word_reads_back(s);
    } else {
        let w = seq!['\''] + quoted_body(s) + seq!['\''];
        assert(w.drop_first() =~= quoted_body(s) + seq!['\'']);
        lemma_quoted_body_reads_back(s);
    }
}

/// The text with each two-character sequence `\n` (a backslash and the
/// letter n) read as a newline, from left to right.
pub open spec fn unescape_newlines(s: Seq<char>) -> Seq<char>
    decreases s.len(),
{
    if s.len() == 0 {
        s
    } else if s.len() >= 2 && s[0] == '\\' && s[1] == 'n' {
        seq!['\n'] + unescape_newlines(s.subrange(2, s.len() as int))
    } else {
        seq![s[0]] + unescape_newlines(s.drop_first())
    }
}

/// Writes each `\n` sequence of an environment value as a newline, as the
/// configuration file stores it.
pub fn restore_newlines(s: &String) -> (r: String)
    ensures
        r@ == unescape_newlines(s@),
{
    let t = s.as_str();
    let n = t.unicode_len();
    let mut r = String::new();
    let mut start: usize = 0;
    let mut i: usize = 0;
    proof {
        reveal_strlit("\n");
        assert(s@.subrange(0, 0) =~= Seq::<char>::empty());
        assert(s@.subrange(0, n as int) =~= s@);
    }
    while i < n
        invariant
            start <= i <= n,
            n == s@.len(),
            t@ == s@,
            r@ + s@.subrange(start as int, i as int) + unescape_newlines(s@.subrange(i as int, n as int))
                == unescape_newlines(s@),
        decreases n - i,
    {
        let ghost rest = s@.subrange(i as int, n as int);
        let c = t.get_char(i);
        assert(rest[0] == c);
        assert(i + 1 < n ==> rest[1] == s@[i + 1]);
        if c == '\\' && i + 1 < n && t.get_char(i + 1) == 'n' {
            let seg = t.substring_char(start, i);
            proof {
                assert(rest.subrange(2, rest.len() as int) =~= s@.subrange(i + 2, n as int));
                assert(unescape_newlines(rest) == seq!['\n'] + unescape_newlines(s@.subrange(i + 2, n as int)));
            }
            let ghost r0 = r@;
            proof {
                reveal_strlit("\n");
            }
            r.append(seg);
            r.append("\n");
            assert(r@ + s@.subrange(i + 2, i + 2) =~= r@);
            assert(r@ + unescape_newlines(s@.subrange(i + 2, n as int)) =~= r0 + s@.subrange(start as int, i as int) + unescape_newlines(rest));
            i = i + 2;
            start = i;
        } else {
            proof {
                assert(rest.drop_first() =~= s@.subrange(i + 1, n as int));
                assert(s@.subrange(start as int, i + 1) =~= s@.subrange(start as int, i as int).push(c));
                assert(seq![c] + unescape_newlines(rest.drop_first()) == unescape_newlines(rest));
            }
            assert(r@ + s@.subrange(start as int, i + 1) + unescape_newlines(s@.subrange(i + 1, n as int))
                =~= r@ + s@.subrange(start as int, i as int) + unescape_newlines(rest));
            i = i + 1;
        }
    }
    let seg = t.substring_char(start, n);
    r.append(seg);
    assert(s@.subrange(n as int, n as int) =~= Seq::<char>::empty());
    r
}

pub open spec fn env_with_newlines(e: Seq<(Seq<char>, Seq<char>)>) -> Seq<(Seq<char>, Seq<char>)> {
    e.map_values(|p: (Seq<char>, Seq<char>)| (p.0, unescape_newlines(p.1)))
}

/// The environment map with `\n` sequences in its values written as
/// newlines; the keys and their order are kept.
pub fn restore_env_newlines(env: &EnvVars) -> (r: EnvVars)
    ensures
        r.deep_view() == env_with_newlines(env.deep_view()),
{
    let mut r: EnvVars = Vec::new();
    let mut i: usize = 0;
    while i < env.len()
        invariant
            i <= env.len(),
            r.deep_view() == env_with_newlines(env.deep_view().take(i as int)),
        decreases env.len() - i,
    {
        let k = env[i].0.clone();
        let x = restore_newlines(&env[i].1);
        let ghost before = r.deep_view();
        r.push((k, x));
        assert(r.deep_view() =~= before.push((k@, x@)));
        assert(r.deep_view() =~= env_with_newlines(env.deep_view().take(i + 1)));
        i = i + 1;
    }
    assert(env.deep_view().take(i as int) =~= env.deep_view());
    r
}

} // verus!
