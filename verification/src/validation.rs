//! The grammars that identifiers are held to before they become arguments of
//! a child process, and quoting for values that pass through a shell.

use crate::error::{AppError, AppErrorView};
use crate::text::{chars_of, is_whitespace, occurs_at, occurs_in};
use vstd::prelude::*;

verus! {

/// An ASCII letter.
pub open spec fn is_letter(c: char) -> bool {
    ('a' <= c && c <= 'z') || ('A' <= c && c <= 'Z')
}

/// An ASCII digit.
pub open spec fn is_digit(c: char) -> bool {
    '0' <= c && c <= '9'
}

/// A letter, a digit or an underscore.
pub open spec fn is_word_char(c: char) -> bool {
    is_letter(c) || is_digit(c) || c == '_'
}

/// A letter, a digit, an underscore, a dot or a hyphen.
pub open spec fn is_name_char(c: char) -> bool {
    is_word_char(c) || c == '.' || c == '-'
}

/// The grammars of identifiers.
#[derive(Debug, Clone, Copy, PartialEq, Eq, Structural)]
pub enum Grammar {
    /// A letter or digit, then name characters; at most 255 characters.
    ContainerName,
    /// A letter, then name characters; at most 64 characters.
    Username,
    /// A letter, then word characters; at most 64 characters.
    DatabaseName,
    /// A letter, then name characters; at most 64 characters.
    OptionKey,
}

impl Grammar {
    /// Whether `c` may stand first.
    pub open spec fn admits_first(self, c: char) -> bool {
        match self {
            Grammar::ContainerName => is_letter(c) || is_digit(c),
            _ => is_letter(c),
        }
    }

    /// Whether `c` may stand after the first character.
    pub open spec fn admits_later(self, c: char) -> bool {
        match self {
            Grammar::DatabaseName => is_word_char(c),
            _ => is_name_char(c),
        }
    }

    /// The greatest length admitted.
    pub open spec fn max_len(self) -> nat {
        match self {
            Grammar::ContainerName => 255,
            _ => 64,
        }
    }

    /// Whether `s` has the shape of the grammar: a first character that may
    /// stand first, and after it only characters that may follow.
    pub open spec fn shape(self, s: Seq<char>) -> bool {
        &&& s.len() >= 1
        &&& self.admits_first(s[0])
        &&& forall|i: int| 1 <= i < s.len() ==> self.admits_later(#[trigger] s[i])
    }

    /// Whether `s` belongs to the grammar: the shape, within the length.
    pub open spec fn accepts(self, s: Seq<char>) -> bool {
        self.shape(s) && s.len() <= self.max_len()
    }

    /// What is said of a text without the shape.
    pub open spec fn shape_complaint(self) -> Seq<char> {
        match self {
            Grammar::ContainerName =>
                "Invalid container name. Only alphanumeric characters, dots, hyphens, and underscores are allowed"@,
            Grammar::Username =>
                "Invalid username. Must start with a letter and contain only alphanumeric characters, dots, hyphens, and underscores"@,
            Grammar::DatabaseName =>
                "Invalid database name. Must start with a letter and contain only alphanumeric characters and underscores"@,
            Grammar::OptionKey =>
                "Invalid option name. Must start with a letter and contain only alphanumeric characters, dots, hyphens, and underscores"@,
        }
    }

    /// What is said of a text with the shape that is too long.
    pub open spec fn length_complaint(self) -> Seq<char> {
        match self {
            Grammar::ContainerName => "Container name is too long (max 255 characters)"@,
            Grammar::Username => "Username is too long (max 64 characters)"@,
            Grammar::DatabaseName => "Database name is too long (max 64 characters)"@,
            Grammar::OptionKey => "Option name is too long (max 64 characters)"@,
        }
    }

    /// The outcome of holding `s` to the grammar: nothing where it belongs,
    /// else the failure. The shape is judged before the length.
    pub open spec fn verdict(self, s: Seq<char>) -> Option<AppErrorView> {
        if !self.shape(s) {
            Some(AppErrorView::ValidationError(self.shape_complaint()))
        } else if s.len() > self.max_len() {
            Some(AppErrorView::ValidationError(self.length_complaint()))
        } else {
            None
        }
    }

    fn first_fits(self, c: char) -> (r: bool)
        ensures
            r == self.admits_first(c),
    {
        let letter = ('a' <= c && c <= 'z') || ('A' <= c && c <= 'Z');
        match self {
            Grammar::ContainerName => letter || ('0' <= c && c <= '9'),
            _ => letter,
        }
    }

    fn later_fits(self, c: char) -> (r: bool)
        ensures
            r == self.admits_later(c),
    {
        let word = ('a' <= c && c <= 'z') || ('A' <= c && c <= 'Z') || ('0' <= c && c <= '9') || c
            == '_';
        match self {
            Grammar::DatabaseName => word,
            _ => word || c == '.' || c == '-',
        }
    }

    fn shape_failure(self) -> (e: AppError)
        ensures
            e@ == AppErrorView::ValidationError(self.shape_complaint()),
    {
        let text = match self {
            Grammar::ContainerName =>
                "Invalid container name. Only alphanumeric characters, dots, hyphens, and underscores are allowed",
            Grammar::Username =>
                "Invalid username. Must start with a letter and contain only alphanumeric characters, dots, hyphens, and underscores",
            Grammar::DatabaseName =>
                "Invalid database name. Must start with a letter and contain only alphanumeric characters and underscores",
            Grammar::OptionKey =>
                "Invalid option name. Must start with a letter and contain only alphanumeric characters, dots, hyphens, and underscores",
        };
        AppError::ValidationError(String::from_str(text))
    }

    fn length_failure(self) -> (e: AppError)
        ensures
            e@ == AppErrorView::ValidationError(self.length_complaint()),
    {
        let text = match self {
            Grammar::ContainerName => "Container name is too long (max 255 characters)",
            Grammar::Username => "Username is too long (max 64 characters)",
            Grammar::DatabaseName => "Database name is too long (max 64 characters)",
            Grammar::OptionKey => "Option name is too long (max 64 characters)",
        };
        AppError::ValidationError(String::from_str(text))
    }

    /// Holds `text` to the grammar.
    pub fn check(self, text: &str) -> (r: Result<(), AppError>)
        ensures
            r is Ok <==> self.accepts(text@),
            match r {
                Ok(_) => self.verdict(text@) is None,
                Err(e) => self.verdict(text@) == Some(e@),
            },
    {
        let chars = chars_of(text);
        let n = chars.len();
        if n == 0 || !self.first_fits(chars[0]) {
            return Err(self.shape_failure());
        }
        let mut i: usize = 1;
        while i < n
            invariant
                1 <= i <= n,
                n == chars@.len(),
                chars@ == text@,
                forall|j: int| 1 <= j < i ==> self.admits_later(#[trigger] chars@[j]),
            decreases n - i,
        {
            if !self.later_fits(chars[i]) {
                return Err(self.shape_failure());
            }
            i += 1;
        }
        let limit: usize = match self {
            Grammar::ContainerName => 255,
            _ => 64,
        };
        if n > limit {
            return Err(self.length_failure());
        }
        Ok(())
    }
}

/// Whether `s` is a container name: a letter or digit, then letters, digits,
/// underscores, dots and hyphens, at most 255 characters in all.
pub open spec fn is_container_name(s: Seq<char>) -> bool {
    Grammar::ContainerName.accepts(s)
}

/// Whether `s` is a username: a letter, then letters, digits, underscores,
/// dots and hyphens, at most 64 characters in all.
pub open spec fn is_username(s: Seq<char>) -> bool {
    Grammar::Username.accepts(s)
}

/// Whether `s` is a database name: a letter, then letters, digits and
/// underscores, at most 64 characters in all.
pub open spec fn is_database_name(s: Seq<char>) -> bool {
    Grammar::DatabaseName.accepts(s)
}

/// Whether `s` is the name of an option: a letter, then letters, digits,
/// underscores, dots and hyphens, at most 64 characters in all.
pub open spec fn is_option_key(s: Seq<char>) -> bool {
    Grammar::OptionKey.accepts(s)
}

/// Accepts `name` exactly when it is a container name.
pub fn validate_container_name(name: &str) -> (r: Result<(), AppError>)
    ensures
        r is Ok <==> is_container_name(name@),
        match r {
            Ok(_) => Grammar::ContainerName.verdict(name@) is None,
            Err(e) => Grammar::ContainerName.verdict(name@) == Some(e@),
        },
{
    Grammar::ContainerName.check(name)
}

/// Accepts `username` exactly when it is a username.
pub fn validate_username(username: &str) -> (r: Result<(), AppError>)
    ensures
        r is Ok <==> is_username(username@),
        match r {
            Ok(_) => Grammar::Username.verdict(username@) is None,
            Err(e) => Grammar::Username.verdict(username@) == Some(e@),
        },
{
    Grammar::Username.check(username)
}

/// Accepts `name` exactly when it is a database name.
pub fn validate_database_name(name: &str) -> (r: Result<(), AppError>)
    ensures
        r is Ok <==> is_database_name(name@),
        match r {
            Ok(_) => Grammar::DatabaseName.verdict(name@) is None,
            Err(e) => Grammar::DatabaseName.verdict(name@) == Some(e@),
        },
{
    Grammar::DatabaseName.check(name)
}

/// Accepts `key` exactly when it is the name of an option.
pub fn validate_option_key(key: &str) -> (r: Result<(), AppError>)
    ensures
        r is Ok <==> is_option_key(key@),
        match r {
            Ok(_) => Grammar::OptionKey.verdict(key@) is None,
            Err(e) => Grammar::OptionKey.verdict(key@) == Some(e@),
        },
{
    Grammar::OptionKey.check(key)
}

/// Whether `s` holds something that a shell would act on, or begins with a
/// symbol: a semicolon, a command substitution, white space, or a first
/// character that is neither letter nor digit.
pub open spec fn is_shell_hazard(s: Seq<char>) -> bool {
    ||| s.contains(';')
    ||| occurs_in(seq!['$', '('], s)
    ||| exists|i: int| 0 <= i < s.len() && is_whitespace(#[trigger] s[i])
    ||| (s.len() > 0 && !is_letter(s[0]) && !is_digit(s[0]))
}

/// No grammar accepts the empty text or a text that is a shell hazard.
pub proof fn lemma_hazards_rejected(grammar: Grammar, s: Seq<char>)
    requires
        s.len() == 0 || is_shell_hazard(s),
    ensures
        !grammar.accepts(s),
{
    if grammar.shape(s) {
        assert forall|i: int| 0 <= i < s.len() implies is_name_char(#[trigger] s[i]) by {
            if i > 0 {
                assert(grammar.admits_later(s[i]));
            }
        }
        if s.contains(';') {
            let i = choose|i: int| 0 <= i < s.len() && s[i] == ';';
            assert(is_name_char(s[i]));
        }
        if occurs_in(seq!['$', '('], s) {
            let i = choose|i: int| occurs_at(seq!['$', '('], s, i);
            assert(s.subrange(i, i + 2)[0] == '$');
            assert(is_name_char(s[i]));
        }
        if exists|i: int| 0 <= i < s.len() && is_whitespace(#[trigger] s[i]) {
            let i = choose|i: int| 0 <= i < s.len() && is_whitespace(#[trigger] s[i]);
            assert(is_name_char(s[i]));
        }
    }
}

/// What a grammar accepts holds name characters only: no white space and
/// nothing that a shell would act on.
pub proof fn lemma_accepted_is_plain(grammar: Grammar, s: Seq<char>)
    requires
        grammar.accepts(s),
    ensures
        s.len() >= 1,
        forall|i: int| 0 <= i < s.len() ==> is_name_char(#[trigger] s[i]),
        !is_shell_hazard(s),
{
    assert forall|i: int| 0 <= i < s.len() implies is_name_char(#[trigger] s[i]) by {
        if i > 0 {
            assert(grammar.admits_later(s[i]));
        }
    }
    if is_shell_hazard(s) {
        lemma_hazards_rejected(grammar, s);
    }
}

/// A character that a shell takes as it stands, outside quotes.
pub open spec fn is_shell_safe_char(c: char) -> bool {
    is_letter(c) || is_digit(c) || c == '-' || c == '_' || c == '=' || c == '/' || c == ','
        || c == '.' || c == '+'
}

/// A text that needs no quoting: not empty, and of safe characters only.
pub open spec fn is_plain_word(s: Seq<char>) -> bool {
    s.len() > 0 && forall|i: int| 0 <= i < s.len() ==> is_shell_safe_char(#[trigger] s[i])
}

/// How one character stands between single quotes. A single quote and an
/// exclamation mark leave the quotes, stand escaped, and enter them again.
pub open spec fn quoted_char(c: char) -> Seq<char> {
    if c == '\'' || c == '!' {
        seq!['\'', '\\', c, '\'']
    } else {
        seq![c]
    }
}

/// The characters of `s`, each as it stands between single quotes.
pub open spec fn quoted_body(s: Seq<char>) -> Seq<char>
    decreases s.len(),
{
    if s.len() == 0 {
        seq![]
    } else {
        quoted_char(s[0]) + quoted_body(s.drop_first())
    }
}

/// The quoted form of `s`: `s` itself where it needs no quoting, else its
/// characters between single quotes.
pub open spec fn shell_quoted(s: Seq<char>) -> Seq<char> {
    if is_plain_word(s) {
        s
    } else {
        seq!['\''] + quoted_body(s) + seq!['\'']
    }
}

/// `value` with `c` put before it.
pub open spec fn prepend(c: char, value: Option<Seq<char>>) -> Option<Seq<char>> {
    match value {
        Some(rest) => Some(seq![c] + rest),
        None => None,
    }
}

/// What a shell reads from `w` as the rest of one word, outside quotes: a
/// single quote opens a quoted part, a backslash takes the next character as
/// it stands, and a safe character stands for itself. Any other character,
/// or a backslash at the end, is not read as part of the word.
pub open spec fn read_unquoted(w: Seq<char>) -> Option<Seq<char>>
    decreases w.len(),
{
    if w.len() == 0 {
        Some(seq![])
    } else if w[0] == '\'' {
        read_quoted(w.drop_first())
    } else if w[0] == '\\' {
        if w.len() >= 2 {
            prepend(w[1], read_unquoted(w.skip(2)))
        } else {
            None
        }
    } else if is_shell_safe_char(w[0]) {
        prepend(w[0], read_unquoted(w.drop_first()))
    } else {
        None
    }
}

/// What a shell reads from `w` as the rest of one word, between single
/// quotes: every character stands for itself up to the closing quote. A
/// quoted part that is not closed is not read.
pub open spec fn read_quoted(w: Seq<char>) -> Option<Seq<char>>
    decreases w.len(),
{
    if w.len() == 0 {
        None
    } else if w[0] == '\'' {
        read_unquoted(w.drop_first())
    } else {
        prepend(w[0], read_quoted(w.drop_first()))
    }
}

/// `shell_escape::unix::escape` of the crate shell-escape. It hands a text
/// that is not empty and holds only letters, digits and `-_=/,.+` back as
/// it is. Any other text it puts between single quotes, with each single
/// quote and each exclamation mark written as quote, backslash, the
/// character, quote.
#[verifier::external_body]
fn unix_escape(input: &str) -> (out: String)
    ensures
        out@ == shell_quoted(input@),
{
    shell_escape::unix::escape(std::borrow::Cow::Borrowed(input)).into_owned()
}

/// The quoted form of `input`, for a place where a value becomes part of a
/// shell command line.
pub fn sanitize_for_shell(input: &str) -> (out: String)
    ensures
        out@ == shell_quoted(input@),
{
    unix_escape(input)
}

/// Quoting leaves a plain word as it is, so quoting it again changes nothing.
pub proof fn lemma_plain_word_unchanged(s: Seq<char>)
    requires
        is_plain_word(s),
    ensures
        shell_quoted(s) == s,
        shell_quoted(shell_quoted(s)) == shell_quoted(s),
{
}

/// A shell reads a text of safe characters as that text.
pub proof fn lemma_read_safe_chars(s: Seq<char>)
    requires
        forall|i: int| 0 <= i < s.len() ==> is_shell_safe_char(#[trigger] s[i]),
    ensures
        read_unquoted(s) == Some(s),
    decreases s.len(),
{
    if s.len() > 0 {
        let t = s.drop_first();
        assert forall|i: int| 0 <= i < t.len() implies is_shell_safe_char(#[trigger] t[i]) by {
            assert(t[i] == s[i + 1]);
        }
        lemma_read_safe_chars(t);
        assert(is_shell_safe_char(s[0]));
        assert(seq![s[0]] + t =~= s);
    }
}

/// Between single quotes, a shell reads the quoted characters of `s` and the
/// closing quote as `s`.
pub proof fn lemma_read_quoted_body(s: Seq<char>)
    ensures
        read_quoted(quoted_body(s) + seq!['\'']) == Some(s),
    decreases s.len(),
{
    let close = seq!['\''];
    let w = quoted_body(s) + close;
    if s.len() == 0 {
        assert(w =~= close);
        assert(w.drop_first() =~= Seq::<char>::empty());
        assert(read_quoted(w) == read_unquoted(w.drop_first()));
        assert(s =~= Seq::<char>::empty());
    } else {
        let c = s[0];
        let t = s.drop_first();
        let rest = quoted_body(t) + close;
        lemma_read_quoted_body(t);
        assert(seq![c] + t =~= s);
        if c == '\'' || c == '!' {
            assert(w =~= seq!['\'', '\\', c, '\''] + rest);
            let w1 = w.drop_first();
            assert(w1 =~= seq!['\\', c, '\''] + rest);
            assert(w[0] == '\'');
            assert(read_quoted(w) == read_unquoted(w1));
            let w2 = w1.skip(2);
            assert(w2 =~= seq!['\''] + rest);
            assert(w1[0] == '\\' && w1[1] == c);
            assert(read_unquoted(w1) == prepend(c, read_unquoted(w2)));
            assert(w2.drop_first() =~= rest);
            assert(w2[0] == '\'');
            assert(read_unquoted(w2) == read_quoted(rest));
        } else {
            assert(w =~= seq![c] + rest);
            assert(w.drop_first() =~= rest);
            assert(w[0] == c);
            assert(read_quoted(w) == prepend(c, read_quoted(rest)));
        }
    }
}

/// A shell reads the quoted form of any text as one word, and that word is
/// the text.
pub proof fn lemma_quoted_reads_back(s: Seq<char>)
    ensures
        read_unquoted(shell_quoted(s)) == Some(s),
{
    if is_plain_word(s) {
        lemma_read_safe_chars(s);
    } else {
        let w = shell_quoted(s);
        lemma_read_quoted_body(s);
        assert(w.drop_first() =~= quoted_body(s) + seq!['\'']);
    }
}

} // verus!
