//! The line that is typed at a prompt: editing it, quoting paths for it, and the directory that a
//! `cd` on it changes to.

use crate::text::{
    concat3, contains_char, has_prefix, is_alpha, is_white_space, replace_char, replaced, same,
    split_words, texts, trim_end, trimmed_end, words,
};
use vstd::prelude::*;
use vstd::string::*;

verus! {

/// The white space of ASCII.
pub open spec fn is_ascii_space(c: char) -> bool {
    c == ' ' || c == '\t' || c == '\n' || c == '\x0c' || c == '\r'
}

fn ascii_space(c: char) -> (r: bool)
    ensures
        r == is_ascii_space(c),
{
    c == ' ' || c == '\t' || c == '\n' || c == '\x0c' || c == '\r'
}

/// A text up to its last white space, or nothing where it has none.
pub open spec fn without_word(s: Seq<char>) -> Seq<char>
    decreases s.len(),
{
    if s.len() == 0 || is_ascii_space(s.last()) {
        s
    } else {
        without_word(s.drop_last())
    }
}

/// A text without the white space at its end.
pub open spec fn without_spaces(s: Seq<char>) -> Seq<char>
    decreases s.len(),
{
    if s.len() > 0 && is_ascii_space(s.last()) {
        without_spaces(s.drop_last())
    } else {
        s
    }
}

/// A line without its last word and the white space before it.
pub open spec fn without_last_word(line: Seq<char>) -> Seq<char> {
    without_spaces(without_word(trimmed_end(line)))
}

/// Takes the last word off a line, with the white space around it.
pub fn delete_last_word(line: &mut String)
    ensures
        final(line)@ == without_last_word(old(line)@),
{
    let kept = {
        let text = trim_end(line.as_str());
        let mut end: usize = text.unicode_len();
        assert(text@.take(end as int) =~= text@);
        while end > 0 && !ascii_space(text.get_char(end - 1))
            invariant
                end <= text@.len(),
                without_word(text@.take(end as int)) == without_word(text@),
            decreases end,
        {
            assert(text@.take(end as int).drop_last() =~= text@.take(end - 1));
            end = end - 1;
        }
        assert(without_word(text@.take(end as int)) == text@.take(end as int));
        while end > 0 && ascii_space(text.get_char(end - 1))
            invariant
                end <= text@.len(),
                without_spaces(text@.take(end as int)) == without_spaces(without_word(text@)),
            decreases end,
        {
            assert(text@.take(end as int).drop_last() =~= text@.take(end - 1));
            end = end - 1;
        }
        assert(without_spaces(text@.take(end as int)) == text@.take(end as int));
        assert(text@.subrange(0, end as int) =~= text@.take(end as int));
        text.substring_char(0, end).to_owned()
    };
    *line = kept;
}

/// A path in single quotes, as a POSIX shell reads them.
pub open spec fn single_quoted(path: Seq<char>) -> Seq<char> {
    "'"@ + replaced(path, '\'', "'\\''"@) + "'"@
}

/// A path in double quotes, as the shell of Windows reads them.
pub open spec fn double_quoted(path: Seq<char>) -> Seq<char> {
    "\""@ + replaced(path, '"', "\"\""@) + "\""@
}

pub fn shell_quote_path(path: &str) -> (r: String)
    ensures
        r@ == single_quoted(path@),
{
    concat3("'", replace_char(path, '\'', "'\\''").as_str(), "'")
}

pub fn shell_quote_path_for_windows(path: &str) -> (r: String)
    ensures
        r@ == double_quoted(path@),
{
    concat3("\"", replace_char(path, '"', "\"\"").as_str(), "\"")
}

/// How a POSIX shell reads a word: within single quotes all characters stand for themselves, and
/// outside of them a backslash makes the next one stand for itself. `None` for an open end.
pub open spec fn shell_reading(s: Seq<char>, quoted: bool) -> Option<Seq<char>>
    decreases s.len(),
{
    if s.len() == 0 {
        if quoted {
            None
        } else {
            Some(Seq::empty())
        }
    } else if s[0] == '\'' {
        shell_reading(s.drop_first(), !quoted)
    } else if !quoted && s[0] == '\\' {
        if s.len() == 1 {
            None
        } else {
            match shell_reading(s.skip(2), false) {
                Some(rest) => Some(seq![s[1]] + rest),
                None => None,
            }
        }
    } else {
        match shell_reading(s.drop_first(), quoted) {
            Some(rest) => Some(seq![s[0]] + rest),
            None => None,
        }
    }
}

proof fn lemma_replaced_first(s: Seq<char>, c: char, with: Seq<char>)
    requires
        s.len() > 0,
    ensures
        replaced(s, c, with) == (if s[0] == c {
            with
        } else {
            seq![s[0]]
        }) + replaced(s.drop_first(), c, with),
    decreases s.len(),
{
    if s.len() == 1 {
        assert(s.drop_last() =~= Seq::empty());
        assert(s.drop_first() =~= Seq::empty());
        assert(replaced(s.drop_last(), c, with) =~= Seq::empty());
        assert(replaced(s.drop_first(), c, with) =~= Seq::empty());
        assert(replaced(s, c, with) =~= (if s[0] == c {
            with
        } else {
            seq![s[0]]
        }) + replaced(s.drop_first(), c, with));
    } else {
        lemma_replaced_first(s.drop_last(), c, with);
        assert(s.drop_last().drop_first() =~= s.drop_first().drop_last());
        assert(s.drop_last()[0] == s[0]);
        assert(s.drop_first().last() == s.last());
        assert(replaced(s, c, with) =~= (if s[0] == c {
            with
        } else {
            seq![s[0]]
        }) + replaced(s.drop_first(), c, with));
    }
}

proof fn lemma_quoted_reading(path: Seq<char>)
    ensures
        shell_reading(replaced(path, '\'', "'\\''"@) + "'"@, true) == Some(path),
    decreases path.len(),
{
    reveal_strlit("'");
    reveal_strlit("'\\''");
    let escape = "'\\''"@;
    let body = replaced(path, '\'', escape) + "'"@;
    if path.len() == 0 {
        assert(body =~= "'"@);
        assert(body.drop_first() =~= Seq::<char>::empty());
        assert(shell_reading(body.drop_first(), false) == Some(Seq::<char>::empty()));
        assert(path =~= Seq::<char>::empty());
    } else {
        let rest = replaced(path.drop_first(), '\'', escape) + "'"@;
        lemma_replaced_first(path, '\'', escape);
        lemma_quoted_reading(path.drop_first());
        assert(seq![path[0]] + path.drop_first() =~= path);
        if path[0] == '\'' {
            assert(body =~= escape + rest);
            assert(body.drop_first().skip(2) =~= seq!['\''] + rest);
            let inner = seq!['\''] + rest;
            assert(inner.drop_first() =~= rest);
            assert(shell_reading(inner, false) == shell_reading(rest, true));
            assert(body[0] == '\'');
            assert(body.drop_first()[0] == '\\');
            assert(body.drop_first()[1] == '\'');
            assert(shell_reading(body.drop_first(), false) == Some(path));
        } else {
            assert(body =~= seq![path[0]] + rest);
            assert(body.drop_first() =~= rest);
        }
    }
}

/// A shell reads a quoted path as the path, whatever characters it holds.
pub proof fn law_quoted_path_reads_back(path: Seq<char>)
    ensures
        shell_reading(single_quoted(path), false) == Some(path),
{
    reveal_strlit("'");
    lemma_quoted_reading(path);
    let body = replaced(path, '\'', "'\\''"@) + "'"@;
    assert(single_quoted(path) =~= seq!['\''] + body);
    assert(single_quoted(path).drop_first() =~= body);
}

/// Whether a path of a remote machine starts at its root or at a drive.
pub open spec fn is_absolute_remote(path: Seq<char>) -> bool {
    ||| path.len() > 0 && path[0] == '/'
    ||| path.len() >= 3 && is_alpha(path[0]) && path[1] == ':' && (path[2] == '/' || path[2] == '\\')
}

pub fn looks_absolute_remote(path: &str) -> (r: bool)
    ensures
        r == is_absolute_remote(path@),
{
    let total: usize = path.unicode_len();
    if total > 0 && path.get_char(0) == '/' {
        return true;
    }
    if total < 3 {
        return false;
    }
    let drive = path.get_char(0);
    let letter = ('a' <= drive && drive <= 'z') || ('A' <= drive && drive <= 'Z');
    letter && path.get_char(1) == ':' && (path.get_char(2) == '/' || path.get_char(2) == '\\')
}

/// A path below a directory of a remote machine.
pub open spec fn remote_path(base: Seq<char>, name: Seq<char>) -> Seq<char> {
    if base.len() > 0 && base.last() == '/' {
        base + name
    } else {
        base + "/"@ + name
    }
}

/// A path below a directory starts with the directory and ends with the name, and exactly one slash
/// stands between them where the directory does not end in several.
pub proof fn law_joined_path_has_both_parts(base: Seq<char>, name: Seq<char>)
    ensures
        base.is_prefix_of(remote_path(base, name)),
        name.is_suffix_of(remote_path(base, name)),
        base.len() > 0 && base.last() == '/' ==> remote_path(base, name).len() == base.len()
            + name.len(),
        base.len() == 0 || base.last() != '/' ==> remote_path(base, name).len() == base.len() + 1
            + name.len() && remote_path(base, name)[base.len() as int] == '/',
{
    reveal_strlit("/");
    let path = remote_path(base, name);
    assert(path.subrange(0, base.len() as int) =~= base);
    assert(path.subrange(path.len() - name.len(), path.len() as int) =~= name);
}

/// Names a path below a directory: there is one slash between the two where the directory ends in
/// one or in none, and a name below the empty path is one below the root.
pub fn join_remote_path(base: &str, name: &str) -> (r: String)
    ensures
        r@ == remote_path(base@, name@),
{
    let total: usize = base.unicode_len();
    if total > 0 && base.get_char(total - 1) == '/' {
        crate::text::concat2(base, name)
    } else {
        concat3(base, "/", name)
    }
}

/// Whether a word holds a character that a shell reads in its own way.
pub open spec fn has_shell_syntax(s: Seq<char>) -> bool {
    ||| s.contains('&')
    ||| s.contains('|')
    ||| s.contains(';')
    ||| s.contains('<')
    ||| s.contains('>')
    ||| s.contains('"')
    ||| s.contains('\'')
    ||| s.contains('(')
    ||| s.contains(')')
    ||| s.contains('`')
}

fn holds_shell_syntax(s: &str) -> (r: bool)
    ensures
        r == has_shell_syntax(s@),
{
    contains_char(s, '&') || contains_char(s, '|') || contains_char(s, ';') || contains_char(s, '<')
        || contains_char(s, '>') || contains_char(s, '"') || contains_char(s, '\'')
        || contains_char(s, '(') || contains_char(s, ')') || contains_char(s, '`')
}

/// The directory that the argument of a `cd` names; `None` where only the remote shell can tell.
pub open spec fn cd_argument_target(
    target: Seq<char>,
    panel_cwd: Seq<char>,
    prev_cwd: Option<Seq<char>>,
) -> Option<Seq<char>> {
    if target == "-"@ {
        prev_cwd
    } else if "-"@.is_prefix_of(target) {
        None
    } else if target == "$HOME"@ {
        Some("~"@)
    } else if "$HOME/"@.is_prefix_of(target) {
        Some(remote_path("~"@, target.skip("$HOME/"@.len() as int)))
    } else if "$"@.is_prefix_of(target) || has_shell_syntax(target) {
        None
    } else if "~"@.is_prefix_of(target) || is_absolute_remote(target) {
        Some(target)
    } else {
        Some(remote_path(panel_cwd, target))
    }
}

/// The directory that a line changes to: that of its first argument where it is a `cd`, and the
/// home directory where that has none.
pub open spec fn cd_target(
    line: Seq<char>,
    panel_cwd: Seq<char>,
    prev_cwd: Option<Seq<char>>,
) -> Option<Seq<char>> {
    let parts = words(line);
    if parts.len() == 0 || parts[0] != "cd"@ {
        None
    } else if parts.len() == 1 {
        Some("~"@)
    } else {
        cd_argument_target(parts[1], panel_cwd, prev_cwd)
    }
}

pub fn resolve_cd_target(line: &str, panel_cwd: &str, prev_cwd: Option<&str>) -> (r: Option<String>)
    ensures
        match r {
            Some(target) => cd_target(
                line@,
                panel_cwd@,
                match prev_cwd {
                    Some(prev) => Some(prev@),
                    None => None,
                },
            ) == Some(target@),
            None => cd_target(
                line@,
                panel_cwd@,
                match prev_cwd {
                    Some(prev) => Some(prev@),
                    None => None,
                },
            ) is None,
        },
{
    let parts = split_words(line);
    if parts.len() == 0 {
        return None;
    }
    assert(texts(parts@)[0] == parts@[0]@);
    if !same(parts[0].as_str(), "cd") {
        return None;
    }
    if parts.len() == 1 {
        return Some("~".to_owned());
    }
    assert(texts(parts@)[1] == parts@[1]@);
    let target = parts[1].as_str();
    if same(target, "-") {
        return match prev_cwd {
            Some(prev) => Some(prev.to_owned()),
            None => None,
        };
    }
    if has_prefix(target, "-") {
        return None;
    }
    if same(target, "$HOME") {
        return Some("~".to_owned());
    }
    if has_prefix(target, "$HOME/") {
        let start: usize = "$HOME/".unicode_len();
        let end: usize = target.unicode_len();
        let rest = target.substring_char(start, end);
        assert(rest@ =~= target@.skip(start as int));
        return Some(join_remote_path("~", rest));
    }
    if has_prefix(target, "$") || holds_shell_syntax(target) {
        return None;
    }
    if has_prefix(target, "~") || looks_absolute_remote(target) {
        return Some(target.to_owned());
    }
    Some(join_remote_path(panel_cwd, target))
}

/// Deleting the last word of a line takes that word, the white space behind it and the white space
/// before it, and leaves all that comes before these.
pub proof fn law_last_word_is_deleted(
    head: Seq<char>,
    gap: Seq<char>,
    word: Seq<char>,
    tail: Seq<char>,
)
    requires
        head.len() == 0 || !is_ascii_space(head.last()),
        forall|i: int| 0 <= i < gap.len() ==> is_ascii_space(#[trigger] gap[i]),
        head.len() > 0 ==> gap.len() > 0,
        word.len() > 0,
        forall|i: int| 0 <= i < word.len() ==> !is_ascii_space(#[trigger] word[i]),
        !is_white_space(word.last()),
        forall|i: int| 0 <= i < tail.len() ==> is_white_space(#[trigger] tail[i]),
    ensures
        without_last_word(head + gap + word + tail) == head,
{
    lemma_tail_goes(head + gap + word, tail);
    lemma_word_goes(head + gap, word);
    lemma_gap_goes(head, gap);
}

proof fn lemma_tail_goes(s: Seq<char>, tail: Seq<char>)
    requires
        s.len() > 0,
        !is_white_space(s.last()),
        forall|i: int| 0 <= i < tail.len() ==> is_white_space(#[trigger] tail[i]),
    ensures
        trimmed_end(s + tail) == s,
    decreases tail.len(),
{
    if tail.len() == 0 {
        assert(s + tail =~= s);
    } else {
        assert((s + tail).drop_last() =~= s + tail.drop_last());
        assert((s + tail).last() == tail[tail.len() - 1]);
        lemma_tail_goes(s, tail.drop_last());
    }
}

proof fn lemma_word_goes(s: Seq<char>, word: Seq<char>)
    requires
        s.len() == 0 || is_ascii_space(s.last()),
        forall|i: int| 0 <= i < word.len() ==> !is_ascii_space(#[trigger] word[i]),
    ensures
        without_word(s + word) == s,
    decreases word.len(),
{
    if word.len() == 0 {
        assert(s + word =~= s);
    } else {
        assert((s + word).drop_last() =~= s + word.drop_last());
        assert((s + word).last() == word[word.len() - 1]);
        lemma_word_goes(s, word.drop_last());
    }
}

proof fn lemma_gap_goes(s: Seq<char>, gap: Seq<char>)
    requires
        s.len() == 0 || !is_ascii_space(s.last()),
        forall|i: int| 0 <= i < gap.len() ==> is_ascii_space(#[trigger] gap[i]),
    ensures
        without_spaces(s + gap) == s,
    decreases gap.len(),
{
    if gap.len() == 0 {
        assert(s + gap =~= s);
    } else {
        assert((s + gap).drop_last() =~= s + gap.drop_last());
        assert((s + gap).last() == gap[gap.len() - 1]);
        lemma_gap_goes(s, gap.drop_last());
    }
}

/// How the shell of Windows reads what stands between double quotes: two of them stand for one.
/// `None` for one that stands alone.
pub open spec fn windows_reading(s: Seq<char>) -> Option<Seq<char>>
    decreases s.len(),
{
    if s.len() == 0 {
        Some(Seq::empty())
    } else if s[0] == '"' {
        if s.len() > 1 && s[1] == '"' {
            match windows_reading(s.skip(2)) {
                Some(rest) => Some(seq!['"'] + rest),
                None => None,
            }
        } else {
            None
        }
    } else {
        match windows_reading(s.drop_first()) {
            Some(rest) => Some(seq![s[0]] + rest),
            None => None,
        }
    }
}

proof fn lemma_doubled_reading(path: Seq<char>)
    ensures
        windows_reading(replaced(path, '"', "\"\""@)) == Some(path),
    decreases path.len(),
{
    reveal_strlit("\"\"");
    let body = replaced(path, '"', "\"\""@);
    if path.len() == 0 {
        assert(body =~= Seq::empty());
        assert(path =~= Seq::empty());
    } else {
        let rest = replaced(path.drop_first(), '"', "\"\""@);
        lemma_replaced_first(path, '"', "\"\""@);
        lemma_doubled_reading(path.drop_first());
        assert(seq![path[0]] + path.drop_first() =~= path);
        if path[0] == '"' {
            assert(body.skip(2) =~= rest);
        } else {
            assert(body.drop_first() =~= rest);
        }
    }
}

/// The shell of Windows reads a quoted path as the path: it stands between double quotes, and what
/// is between them reads as the path, whatever characters it holds.
pub proof fn law_windows_path_reads_back(path: Seq<char>)
    ensures
        ({
            let quoted = double_quoted(path);
            &&& quoted.len() >= 2
            &&& quoted[0] == '"'
            &&& quoted.last() == '"'
            &&& windows_reading(quoted.subrange(1, quoted.len() - 1)) == Some(path)
        }),
{
    reveal_strlit("\"");
    lemma_doubled_reading(path);
    let quoted = double_quoted(path);
    assert(quoted.subrange(1, quoted.len() - 1) =~= replaced(path, '"', "\"\""@));
}

/// A path is absolute where it starts with a slash, or with a letter, a colon and a slash of either
/// kind, and only there.
pub proof fn law_absolute_paths_start_at_a_root(path: Seq<char>)
    ensures
        path.len() > 0 && path[0] == '/' ==> is_absolute_remote(path),
        path.len() >= 3 && ('a' <= path[0] <= 'z' || 'A' <= path[0] <= 'Z') && path[1] == ':' && (
        path[2] == '/' || path[2] == '\\') ==> is_absolute_remote(path),
        path.len() == 0 ==> !is_absolute_remote(path),
        path.len() > 0 && path[0] != '/' && !('a' <= path[0] <= 'z' || 'A' <= path[0] <= 'Z')
            ==> !is_absolute_remote(path),
        path.len() > 1 && path[0] != '/' && path[1] != ':' ==> !is_absolute_remote(path),
        path.len() > 2 && path[0] != '/' && path[2] != '/' && path[2] != '\\'
            ==> !is_absolute_remote(path),
        0 < path.len() < 3 && path[0] != '/' ==> !is_absolute_remote(path),
{
}

/// Only a line whose first word is `cd` goes anywhere; without an argument it goes home, and with
/// `-` to the directory before.
pub proof fn law_only_cd_changes_the_directory(
    line: Seq<char>,
    cwd: Seq<char>,
    previous: Option<Seq<char>>,
)
    ensures
        cd_target(line, cwd, previous) is Some ==> words(line).len() > 0 && words(line)[0] == seq![
            'c',
            'd',
        ],
        words(line) == seq![seq!['c', 'd']] ==> cd_target(line, cwd, previous) == Some(seq!['~']),
        words(line).len() > 1 && words(line)[0] == seq!['c', 'd'] && words(line)[1] == seq!['-']
            ==> cd_target(line, cwd, previous) == previous,
{
    reveal_strlit("cd");
    reveal_strlit("~");
    reveal_strlit("-");
    assert("cd"@ =~= seq!['c', 'd']);
    assert("~"@ =~= seq!['~']);
    assert("-"@ =~= seq!['-']);
}

/// An argument that is absolute, or that starts at a home directory, is where a `cd` goes; any other
/// that a shell takes as it stands is a path below the directory at hand. Options, variables but
/// for the home directory, and what a shell reads in its own way are left to the shell.
pub proof fn law_cd_goes_where_its_argument_says(
    argument: Seq<char>,
    cwd: Seq<char>,
    previous: Option<Seq<char>>,
)
    requires
        argument.len() > 0,
    ensures
        argument.len() > 1 && argument[0] == '-' ==> cd_argument_target(argument, cwd, previous)
            is None,
        has_shell_syntax(argument) && argument[0] != '-' && argument[0] != '$'
            ==> cd_argument_target(argument, cwd, previous) is None,
        argument[0] == '$' && !(seq!['$', 'H', 'O', 'M', 'E']).is_prefix_of(argument)
            ==> cd_argument_target(argument, cwd, previous) is None,
        argument == seq!['$', 'H', 'O', 'M', 'E'] ==> cd_argument_target(argument, cwd, previous)
            == Some(seq!['~']),
        (seq!['$', 'H', 'O', 'M', 'E', '/']).is_prefix_of(argument) ==> cd_argument_target(
            argument,
            cwd,
            previous,
        ) == Some(seq!['~', '/'] + argument.skip(6)),
        (argument[0] == '/' || argument[0] == '~') && !has_shell_syntax(argument)
            ==> cd_argument_target(argument, cwd, previous) == Some(argument),
        argument[0] != '-' && argument[0] != '$' && argument[0] != '~' && !has_shell_syntax(
            argument,
        ) && !is_absolute_remote(argument) ==> (cd_argument_target(
            argument,
            cwd,
            previous,
        ) matches Some(target) && cwd.is_prefix_of(target) && argument.is_suffix_of(target)
            && cwd.len() + argument.len() <= target.len() <= cwd.len() + 1 + argument.len()),
{
    reveal_strlit("-");
    reveal_strlit("$HOME");
    reveal_strlit("$HOME/");
    reveal_strlit("~");
    reveal_strlit("$");
    reveal_strlit("/");
    let home = seq!['$', 'H', 'O', 'M', 'E'];
    let below = seq!['$', 'H', 'O', 'M', 'E', '/'];
    assert("$HOME"@ =~= home);
    assert("$HOME/"@ =~= below);
    assert("~"@ =~= seq!['~']);
    assert("-"@.len() == 1 && "$"@.len() == 1 && "~"@.len() == 1);
    assert("-"@.is_prefix_of(argument) <==> argument[0] == '-') by {
        assert(argument[0] == '-' ==> argument.subrange(0, 1) =~= "-"@);
        assert("-"@.is_prefix_of(argument) ==> argument.subrange(0, 1)[0] == "-"@[0]);
    }
    assert("$"@.is_prefix_of(argument) <==> argument[0] == '$') by {
        assert(argument[0] == '$' ==> argument.subrange(0, 1) =~= "$"@);
        assert("$"@.is_prefix_of(argument) ==> argument.subrange(0, 1)[0] == "$"@[0]);
    }
    assert("~"@.is_prefix_of(argument) <==> argument[0] == '~') by {
        assert(argument[0] == '~' ==> argument.subrange(0, 1) =~= "~"@);
        assert("~"@.is_prefix_of(argument) ==> argument.subrange(0, 1)[0] == "~"@[0]);
    }
    assert(home.is_prefix_of(argument) ==> argument.subrange(0, 5)[0] == home[0]);
    assert(below.is_prefix_of(argument) ==> argument.subrange(0, 6)[0] == below[0]);
    if below.is_prefix_of(argument) {
        assert(argument.len() >= 6);
        assert(remote_path("~"@, argument.skip(6)) =~= seq!['~', '/'] + argument.skip(6));
        assert(home.is_prefix_of(argument)) by {
            assert(argument.subrange(0, 5) =~= argument.subrange(0, 6).subrange(0, 5));
            assert(below.subrange(0, 5) =~= home);
        }
    }
    law_joined_path_has_both_parts(cwd, argument);
}

} // verus!
