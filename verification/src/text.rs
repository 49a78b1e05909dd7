use vstd::prelude::*;
use vstd::std_specs::iter::IteratorSpec;
use vstd::string::StrSliceExecFns;

verus! {

/// Whether a carriage return, line feed pair starts at index `i` of `s`.
pub open spec fn crlf_at(s: Seq<char>, i: int) -> bool {
    0 <= i && i + 1 < s.len() && s[i] == '\r' && s[i + 1] == '\n'
}

/// The least index at or after `from` where a line break starts, or the
/// length of `s` when there is none.
pub open spec fn next_crlf(s: Seq<char>, from: int) -> int
    decreases s.len() - from,
{
    if from < 0 || from >= s.len() {
        s.len() as int
    } else if crlf_at(s, from) {
        from
    } else {
        next_crlf(s, from + 1)
    }
}

/// The lines of `s` that begin at index `start`: the text is cut at every
/// line break, scanning from the left, and the breaks themselves are dropped.
pub open spec fn lines_from(s: Seq<char>, start: int) -> Seq<Seq<char>>
    recommends
        0 <= start <= s.len(),
    decreases s.len() - start,
{
    let end = next_crlf(s, start);
    if 0 <= start <= end && crlf_at(s, end) {
        seq![s.subrange(start, end)] + lines_from(s, end + 2)
    } else {
        seq![s.subrange(start, s.len() as int)]
    }
}

/// The lines of `s`. There is always at least one; a text that ends in a line
/// break has an empty last line.
pub open spec fn lines_of(s: Seq<char>) -> Seq<Seq<char>> {
    lines_from(s, 0)
}

/// The least index at or after `from` that does not hold a space, or the
/// length of `s` when only spaces follow.
pub open spec fn skip_spaces(s: Seq<char>, from: int) -> int
    decreases s.len() - from,
{
    if from < 0 || from >= s.len() {
        s.len() as int
    } else if s[from] != ' ' {
        from
    } else {
        skip_spaces(s, from + 1)
    }
}

/// The least index at or after `from` that holds a space, or the length of
/// `s` when no space follows.
pub open spec fn token_end(s: Seq<char>, from: int) -> int
    decreases s.len() - from,
{
    if from < 0 || from >= s.len() {
        s.len() as int
    } else if s[from] == ' ' {
        from
    } else {
        token_end(s, from + 1)
    }
}

/// The tokens of `s` that begin at or after index `start`: the maximal runs
/// of characters other than the space, from left to right.
pub open spec fn tokens_from(s: Seq<char>, start: int) -> Seq<Seq<char>>
    recommends
        0 <= start <= s.len(),
    decreases s.len() - start,
{
    let begin = skip_spaces(s, start);
    let end = token_end(s, begin);
    if 0 <= start <= begin < end <= s.len() {
        seq![s.subrange(begin, end)] + tokens_from(s, end)
    } else {
        Seq::empty()
    }
}

/// The tokens of `s`. No token is empty and none holds a space.
pub open spec fn tokens_of(s: Seq<char>) -> Seq<Seq<char>> {
    tokens_from(s, 0)
}

/// Copies the characters of `s` into a vector, so that they can be indexed in
/// constant time.
pub fn to_chars(s: &str) -> (chars: Vec<char>)
    ensures
        chars@ == s@,
{
    let mut chars: Vec<char> = Vec::new();
    let source = s.chars();
    for c in it: source
        invariant
            chars@ == it.seq().take(it.index@ as int),
    {
        chars.push(c);
    }
    chars
}

/// Cuts `text` into its lines.
pub fn split_lines<'a>(text: &'a str) -> (lines: Vec<&'a str>)
    ensures
        lines.deep_view() == lines_of(text@),
        lines.len() > 0,
        forall|i: int| 0 <= i < lines.len() ==> is_line(#[trigger] lines[i]@),
{
    let chars = to_chars(text);
    let n = chars.len();
    let mut lines: Vec<&'a str> = Vec::new();
    let mut start: usize = 0;
    let mut i: usize = 0;
    while i < n
        invariant
            chars@ == text@,
            n == chars.len(),
            start <= i <= n,
            next_crlf(text@, start as int) == next_crlf(text@, i as int),
            lines.deep_view() + lines_from(text@, start as int) == lines_of(text@),
        decreases n - i,
    {
        if chars[i] == '\r' && i + 1 < n && chars[i + 1] == '\n' {
            let ghost before = lines.deep_view();
            lines.push(text.substring_char(start, i));
            assert(lines.deep_view() =~= before.push(text@.subrange(start as int, i as int)));
            assert(before.push(text@.subrange(start as int, i as int)) + lines_from(
                text@,
                i + 2,
            ) =~= before + lines_from(text@, start as int));
            i += 2;
            start = i;
        } else {
            i += 1;
        }
    }
    let ghost before = lines.deep_view();
    lines.push(text.substring_char(start, n));
    assert(lines.deep_view() =~= before.push(text@.subrange(start as int, n as int)));
    assert forall|i: int| 0 <= i < lines.len() implies is_line(#[trigger] lines[i]@) by {
        lemma_lines_are_lines(text@, 0);
        assert(lines[i]@ == lines.deep_view()[i]);
        assert(lines.deep_view()[i] == lines_from(text@, 0)[i]);
    }
    lines
}

/// Cuts `line` into its tokens.
pub fn split_tokens<'a>(line: &'a str) -> (tokens: Vec<&'a str>)
    ensures
        tokens.deep_view() == tokens_of(line@),
        forall|i: int| 0 <= i < tokens.len() ==> is_token(#[trigger] tokens[i]@),
{
    let chars = to_chars(line);
    let n = chars.len();
    let mut tokens: Vec<&'a str> = Vec::new();
    let mut i: usize = 0;
    while i < n
        invariant
            chars@ == line@,
            n == chars.len(),
            i <= n,
            tokens.deep_view() + tokens_from(line@, i as int) == tokens_of(line@),
        decreases n - i,
    {
        if chars[i] == ' ' {
            i += 1;
        } else {
            let begin = i;
            let mut j: usize = i + 1;
            while j < n && chars[j] != ' '
                invariant
                    chars@ == line@,
                    n == chars.len(),
                    begin < j <= n,
                    token_end(line@, begin as int) == token_end(line@, j as int),
                decreases n - j,
            {
                j += 1;
            }
            let ghost before = tokens.deep_view();
            tokens.push(line.substring_char(begin, j));
            assert(tokens.deep_view() =~= before.push(line@.subrange(begin as int, j as int)));
            assert(before.push(line@.subrange(begin as int, j as int)) + tokens_from(
                line@,
                j as int,
            ) =~= before + tokens_from(line@, begin as int));
            i = j;
        }
    }
    assert(tokens_from(line@, n as int) =~= Seq::<Seq<char>>::empty());
    assert forall|i: int| 0 <= i < tokens.len() implies is_token(#[trigger] tokens[i]@) by {
        lemma_tokens_are_tokens(line@, 0);
        assert(tokens[i]@ == tokens.deep_view()[i]);
        assert(tokens.deep_view()[i] == tokens_from(line@, 0)[i]);
    }
    tokens
}

/// Whether `s` holds no line break.
pub open spec fn is_line(s: Seq<char>) -> bool {
    forall|i: int| !crlf_at(s, i)
}

/// The text whose lines are `lines`: the lines in order, with a line break
/// between each two.
pub open spec fn join_lines(lines: Seq<Seq<char>>) -> Seq<char>
    decreases lines.len(),
{
    if lines.len() == 0 {
        Seq::empty()
    } else if lines.len() == 1 {
        lines[0]
    } else {
        lines[0] + seq!['\r', '\n'] + join_lines(lines.drop_first())
    }
}

/// `next_crlf` finds the first line break at or after `from`.
pub proof fn lemma_next_crlf(s: Seq<char>, from: int)
    requires
        0 <= from <= s.len(),
    ensures
        from <= next_crlf(s, from) <= s.len(),
        next_crlf(s, from) < s.len() ==> crlf_at(s, next_crlf(s, from)),
        forall|k: int| from <= k < next_crlf(s, from) ==> !crlf_at(s, k),
    decreases s.len() - from,
{
    if from < s.len() && !crlf_at(s, from) {
        lemma_next_crlf(s, from + 1);
    }
}

/// Where no line break starts in `from..end`, the search from `from` is the
/// search from `end`.
pub proof fn lemma_next_crlf_skip(s: Seq<char>, from: int, end: int)
    requires
        0 <= from <= end <= s.len(),
        forall|k: int| from <= k < end ==> !crlf_at(s, k),
    ensures
        next_crlf(s, from) == next_crlf(s, end),
    decreases end - from,
{
    if from < end {
        lemma_next_crlf_skip(s, from + 1, end);
    }
}

/// A text always has a first line.
pub proof fn lemma_lines_nonempty(s: Seq<char>, start: int)
    ensures
        lines_from(s, start).len() > 0,
{
}

/// The lines of a text after a prefix are the lines of what follows the
/// prefix, where a line starts right after it.
pub proof fn lemma_lines_shift(prefix: Seq<char>, rest: Seq<char>, k: int)
    requires
        0 <= k <= rest.len(),
    ensures
        lines_from(prefix + rest, prefix.len() + k) == lines_from(rest, k),
    decreases rest.len() - k,
{
    let s = prefix + rest;
    let p = prefix.len() as int;
    lemma_next_crlf(rest, k);
    let end = next_crlf(rest, k);
    assert forall|i: int| p <= i <= s.len() implies crlf_at(s, i) == crlf_at(rest, i - p) by {
        if i + 1 < s.len() {
            assert(s[i] == rest[i - p]);
            assert(s[i + 1] == rest[i - p + 1]);
        }
    }
    lemma_next_crlf_skip(s, p + k, p + end);
    assert(next_crlf(s, p + k) == p + end) by {
        if end < rest.len() {
            assert(crlf_at(s, p + end));
        }
    }
    if crlf_at(rest, end) {
        lemma_lines_shift(prefix, rest, end + 2);
        assert(s.subrange(p + k, p + end) =~= rest.subrange(k, end));
    } else {
        assert(s.subrange(p + k, s.len() as int) =~= rest.subrange(k, rest.len() as int));
    }
}

/// A line followed by a line break and more text is the first line of the
/// whole, and the lines of the rest follow it.
pub proof fn lemma_lines_cons(line: Seq<char>, rest: Seq<char>)
    requires
        is_line(line),
    ensures
        lines_of(line + seq!['\r', '\n'] + rest) == seq![line] + lines_of(rest),
{
    let head = line + seq!['\r', '\n'];
    let s = head + rest;
    let n = line.len() as int;
    assert forall|k: int| 0 <= k < n implies !crlf_at(s, k) by {
        if k + 1 < n {
            assert(s[k] == line[k] && s[k + 1] == line[k + 1]);
            assert(!crlf_at(line, k));
        } else {
            assert(s[k + 1] == '\r');
        }
    }
    lemma_next_crlf_skip(s, 0, n);
    assert(s[n] == '\r' && s[n + 1] == '\n');
    assert(crlf_at(s, n));
    assert(next_crlf(s, 0) == n);
    lemma_lines_shift(head, rest, 0);
    assert(s.subrange(0, n) =~= line);
}

/// A text without a line break is its own single line.
pub proof fn lemma_lines_single(line: Seq<char>)
    requires
        is_line(line),
    ensures
        lines_of(line) == seq![line],
{
    lemma_next_crlf_skip(line, 0, line.len() as int);
    assert(line.subrange(0, line.len() as int) =~= line);
}

/// Cutting a text into lines undoes joining them: where no line holds a line
/// break, the lines of the joined text are the lines that were joined, in
/// the same order and number.
pub proof fn lemma_lines_of_join(lines: Seq<Seq<char>>)
    requires
        lines.len() > 0,
        forall|i: int| 0 <= i < lines.len() ==> is_line(#[trigger] lines[i]),
    ensures
        lines_of(join_lines(lines)) == lines,
    decreases lines.len(),
{
    if lines.len() == 1 {
        lemma_lines_single(lines[0]);
        assert(seq![lines[0]] =~= lines);
    } else {
        let tail = lines.drop_first();
        assert forall|i: int| 0 <= i < tail.len() implies is_line(#[trigger] tail[i]) by {
            assert(tail[i] == lines[i + 1]);
        }
        lemma_lines_of_join(tail);
        lemma_lines_cons(lines[0], join_lines(tail));
        assert(seq![lines[0]] + tail =~= lines);
    }
}

/// Joining undoes cutting: the lines of a text from `start` on, joined, are
/// the text from `start` on.
pub proof fn lemma_join_of_lines_from(s: Seq<char>, start: int)
    requires
        0 <= start <= s.len(),
    ensures
        join_lines(lines_from(s, start)) == s.subrange(start, s.len() as int),
    decreases s.len() - start,
{
    lemma_next_crlf(s, start);
    let end = next_crlf(s, start);
    if crlf_at(s, end) {
        lemma_join_of_lines_from(s, end + 2);
        lemma_lines_nonempty(s, end + 2);
        let first = s.subrange(start, end);
        let others = lines_from(s, end + 2);
        let all = seq![first] + others;
        assert(all.drop_first() =~= others);
        assert(all[0] == first);
        assert(first + seq!['\r', '\n'] + s.subrange(end + 2, s.len() as int) =~= s.subrange(
            start,
            s.len() as int,
        ));
    }
}

/// Joining the lines of a text gives the text back.
pub proof fn lemma_join_of_lines(s: Seq<char>)
    ensures
        join_lines(lines_of(s)) == s,
{
    lemma_join_of_lines_from(s, 0);
    assert(s.subrange(0, s.len() as int) =~= s);
}

/// No line of a text holds a line break.
pub proof fn lemma_lines_are_lines(s: Seq<char>, start: int)
    requires
        0 <= start <= s.len(),
    ensures
        forall|i: int| 0 <= i < lines_from(s, start).len() ==> is_line(#[trigger] lines_from(s, start)[i]),
    decreases s.len() - start,
{
    lemma_next_crlf(s, start);
    let end = next_crlf(s, start);
    if crlf_at(s, end) {
        lemma_lines_are_lines(s, end + 2);
        let first = s.subrange(start, end);
        let others = lines_from(s, end + 2);
        assert forall|k: int| !crlf_at(first, k) by {
            if crlf_at(first, k) {
                assert(first[k] == s[start + k] && first[k + 1] == s[start + k + 1]);
                assert(crlf_at(s, start + k));
            }
        }
        assert forall|i: int| 0 <= i < lines_from(s, start).len() implies is_line(
            #[trigger] lines_from(s, start)[i],
        ) by {
            if i > 0 {
                assert(lines_from(s, start)[i] == others[i - 1]);
            }
        }
    } else {
        let first = s.subrange(start, s.len() as int);
        assert forall|k: int| !crlf_at(first, k) by {
            if crlf_at(first, k) {
                assert(first[k] == s[start + k] && first[k + 1] == s[start + k + 1]);
                assert(crlf_at(s, start + k));
            }
        }
    }
}

/// A token as the tokenizer yields it: not empty, and without a space.
pub open spec fn is_token(t: Seq<char>) -> bool {
    t.len() > 0 && forall|i: int| 0 <= i < t.len() ==> t[i] != ' '
}

/// `skip_spaces` passes over spaces only, and stops at the first character
/// that is none.
pub proof fn lemma_skip_spaces(s: Seq<char>, from: int)
    requires
        0 <= from <= s.len(),
    ensures
        from <= skip_spaces(s, from) <= s.len(),
        skip_spaces(s, from) < s.len() ==> s[skip_spaces(s, from)] != ' ',
        forall|k: int| from <= k < skip_spaces(s, from) ==> s[k] == ' ',
    decreases s.len() - from,
{
    if from < s.len() && s[from] == ' ' {
        lemma_skip_spaces(s, from + 1);
    }
}

/// `token_end` passes over no space, and stops at the first one.
pub proof fn lemma_token_end(s: Seq<char>, from: int)
    requires
        0 <= from <= s.len(),
    ensures
        from <= token_end(s, from) <= s.len(),
        token_end(s, from) < s.len() ==> s[token_end(s, from)] == ' ',
        forall|k: int| from <= k < token_end(s, from) ==> s[k] != ' ',
    decreases s.len() - from,
{
    if from < s.len() && s[from] != ' ' {
        lemma_token_end(s, from + 1);
    }
}

/// Where `from..end` holds spaces only, skipping from `from` is skipping
/// from `end`.
pub proof fn lemma_skip_spaces_skip(s: Seq<char>, from: int, end: int)
    requires
        0 <= from <= end <= s.len(),
        forall|k: int| from <= k < end ==> s[k] == ' ',
    ensures
        skip_spaces(s, from) == skip_spaces(s, end),
    decreases end - from,
{
    if from < end {
        lemma_skip_spaces_skip(s, from + 1, end);
    }
}

/// Where `from..end` holds no space, the token that starts at `from` ends
/// where the one that starts at `end` does.
pub proof fn lemma_token_end_skip(s: Seq<char>, from: int, end: int)
    requires
        0 <= from <= end <= s.len(),
        forall|k: int| from <= k < end ==> s[k] != ' ',
    ensures
        token_end(s, from) == token_end(s, end),
    decreases end - from,
{
    if from < end {
        lemma_token_end_skip(s, from + 1, end);
    }
}

/// Every token of a text is one: not empty, and without a space.
pub proof fn lemma_tokens_are_tokens(s: Seq<char>, start: int)
    requires
        0 <= start <= s.len(),
    ensures
        forall|i: int|
            0 <= i < tokens_from(s, start).len() ==> is_token(#[trigger] tokens_from(s, start)[i]),
    decreases s.len() - start,
{
    lemma_skip_spaces(s, start);
    let begin = skip_spaces(s, start);
    lemma_token_end(s, begin);
    let end = token_end(s, begin);
    if begin < end {
        lemma_tokens_are_tokens(s, end);
        let others = tokens_from(s, end);
        assert forall|i: int| 0 <= i < tokens_from(s, start).len() implies is_token(
            #[trigger] tokens_from(s, start)[i],
        ) by {
            if i > 0 {
                assert(tokens_from(s, start)[i] == others[i - 1]);
            }
        }
    }
}

/// The tokens of a text after a prefix are the tokens of what follows the
/// prefix, where the search starts at or after its end.
pub proof fn lemma_tokens_shift(prefix: Seq<char>, rest: Seq<char>, k: int)
    requires
        0 <= k <= rest.len(),
    ensures
        tokens_from(prefix + rest, prefix.len() + k) == tokens_from(rest, k),
    decreases rest.len() - k,
{
    let s = prefix + rest;
    let p = prefix.len() as int;
    assert forall|i: int| p <= i < s.len() implies s[i] == rest[i - p] by {}
    lemma_skip_spaces(rest, k);
    let begin = skip_spaces(rest, k);
    lemma_skip_spaces_skip(s, p + k, p + begin);
    assert(skip_spaces(s, p + k) == p + begin);
    lemma_token_end(rest, begin);
    let end = token_end(rest, begin);
    lemma_token_end_skip(s, p + begin, p + end);
    assert(token_end(s, p + begin) == p + end);
    if begin < end {
        lemma_tokens_shift(prefix, rest, end);
        assert(s.subrange(p + begin, p + end) =~= rest.subrange(begin, end));
    }
}

/// A token followed by a space and more text is the first token of the
/// whole, and the tokens of the rest follow it.
pub proof fn lemma_tokens_cons(token: Seq<char>, rest: Seq<char>)
    requires
        is_token(token),
    ensures
        tokens_of(token + seq![' '] + rest) == seq![token] + tokens_of(rest),
{
    let head = token + seq![' '];
    let s = head + rest;
    let n = token.len() as int;
    assert forall|k: int| 0 <= k < n implies s[k] != ' ' by {
        assert(s[k] == token[k]);
    }
    assert(s[n] == ' ');
    assert(skip_spaces(s, 0) == 0);
    lemma_token_end_skip(s, 0, n);
    assert(token_end(s, 0) == n);
    assert(s.subrange(0, n) =~= token);
    assert(skip_spaces(s, n) == skip_spaces(s, n + 1));
    assert(tokens_from(s, n) == tokens_from(s, n + 1)) by {
        lemma_skip_spaces(s, n + 1);
    }
    lemma_tokens_shift(head, rest, 0);
}

/// A token alone is the only token of its text.
pub proof fn lemma_tokens_single(token: Seq<char>)
    requires
        is_token(token),
    ensures
        tokens_of(token) == seq![token],
{
    let n = token.len() as int;
    assert(skip_spaces(token, 0) == 0);
    lemma_token_end_skip(token, 0, n);
    assert(token.subrange(0, n) =~= token);
    assert(tokens_from(token, n) =~= Seq::<Seq<char>>::empty());
}

} // verus!
