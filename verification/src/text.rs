use vstd::prelude::*;

verus! {

/// `needle` stands in `hay` at position `at`.
pub open spec fn occurs_at(hay: Seq<char>, needle: Seq<char>, at: int) -> bool {
    &&& 0 <= at
    &&& at + needle.len() <= hay.len()
    &&& hay.subrange(at, at + needle.len()) =~= needle
}

/// `needle` stands somewhere in `hay`.
pub open spec fn occurs(hay: Seq<char>, needle: Seq<char>) -> bool {
    exists|at: int| occurs_at(hay, needle, at)
}

/// The pieces between the occurrences of `sep` in `text`: one more piece than
/// there are separators, so the empty text is one empty piece.
pub open spec fn split(text: Seq<char>, sep: char) -> Seq<Seq<char>>
    decreases text.len(),
{
    if text.len() == 0 {
        seq![Seq::<char>::empty()]
    } else {
        let before = split(text.drop_last(), sep);
        if text.last() == sep {
            before.push(Seq::<char>::empty())
        } else {
            before.drop_last().push(before.last().push(text.last()))
        }
    }
}

/// `line` without one carriage return at its end.
pub open spec fn strip_cr(line: Seq<char>) -> Seq<char> {
    if line.len() > 0 && line.last() == '\r' {
        line.drop_last()
    } else {
        line
    }
}

/// The lines of `text`: its pieces between line feeds, each without the
/// carriage return that may end it.
pub open spec fn lines(text: Seq<char>) -> Seq<Seq<char>> {
    split(text, '\n').map_values(|line: Seq<char>| strip_cr(line))
}

/// `line` without the double quotes at its end.
pub open spec fn without_closing_quotes(line: Seq<char>) -> Seq<char>
    decreases line.len(),
{
    if line.len() > 0 && line.last() == '"' {
        without_closing_quotes(line.drop_last())
    } else {
        line
    }
}

/// The longest end of `line` that holds no double quote.
pub open spec fn unquoted_tail(line: Seq<char>) -> Seq<char>
    decreases line.len(),
{
    if line.len() == 0 || line.last() == '"' {
        Seq::<char>::empty()
    } else {
        unquoted_tail(line.drop_last()).push(line.last())
    }
}

/// The last piece of `line` between double quotes that is not empty: the
/// quotes at the end of the line do not count, and what stands after the
/// last quote that is left, or the whole rest where none is left, is the
/// piece. Empty only where the line holds nothing but quotes.
pub open spec fn last_quoted(line: Seq<char>) -> Seq<char> {
    unquoted_tail(without_closing_quotes(line))
}

/// What `char::is_whitespace` tells of `c`.
pub uninterp spec fn is_whitespace(c: char) -> bool;

/// Whether `c` is white space. The space, the line feed and the no-break
/// space are; of every other character `char::is_whitespace` tells.
pub open spec fn white_space(c: char) -> bool {
    c == ' ' || c == '\n' || c == '\u{a0}' || is_whitespace(c)
}

/// `text` without the white space at its end.
pub open spec fn trimmed_end(text: Seq<char>) -> Seq<char>
    decreases text.len(),
{
    if text.len() > 0 && white_space(text.last()) {
        trimmed_end(text.drop_last())
    } else {
        text
    }
}

/// `text` without the white space at its start.
pub open spec fn trimmed_start(text: Seq<char>) -> Seq<char>
    decreases text.len(),
{
    if text.len() > 0 && white_space(text.first()) {
        trimmed_start(text.drop_first())
    } else {
        text
    }
}

/// `text` without the white space at either end.
pub open spec fn trimmed(text: Seq<char>) -> Seq<char> {
    trimmed_start(trimmed_end(text))
}

/// The views of a vector of character vectors.
pub open spec fn char_views(pieces: Seq<Vec<char>>) -> Seq<Seq<char>> {
    pieces.map_values(|piece: Vec<char>| piece@)
}

/// The views of a vector of strings.
pub open spec fn string_views(strings: Seq<String>) -> Seq<Seq<char>> {
    strings.map_values(|s: String| s@)
}

/// The characters of `text`, in order.
pub fn chars_of(text: &str) -> (chars: Vec<char>)
    ensures
        chars@ == text@,
{
    broadcast use vstd::string::group_string_axioms;

    let mut chars: Vec<char> = Vec::new();
    for c in it: text.chars()
        invariant
            it.seq() == text@,
            chars@ == it.seq().take(it.index()),
    {
        chars.push(c);
        assert(it.seq().take(it.index() + 1) == it.seq().take(it.index()).push(c));
    }
    assert(text@.take(text@.len() as int) == text@);
    chars
}

/// `String::from_iter` over the characters of a vector: the string that holds
/// exactly those characters, in the same order.
#[verifier::external_body]
pub(crate) fn string_of(chars: &Vec<char>) -> (text: String)
    ensures
        text@ == chars@,
{
    String::from_iter(chars)
}

/// `char::is_whitespace`: whether `c` has the Unicode property White_Space.
/// The result is named. Of the space, the line feed and the no-break space,
/// the three characters that the function's documentation shows as white
/// space, the contract says that the result is true.
#[verifier::external_body]
pub(crate) fn whitespace(c: char) -> (white: bool)
    ensures
        white == is_whitespace(c),
        white == white_space(c),
{
    c.is_whitespace()
}

/// `text` without the white space at its end.
pub fn trim_end_of(text: &Vec<char>) -> (trimmed: Vec<char>)
    ensures
        trimmed@ == trimmed_end(text@),
{
    let mut end: usize = text.len();
    assert(text@.take(end as int) == text@);
    while end > 0 && whitespace(text[end - 1])
        invariant
            end <= text.len(),
            trimmed_end(text@) == trimmed_end(text@.take(end as int)),
        decreases end,
    {
        assert(text@.take(end as int).drop_last() == text@.take(end as int - 1));
        end -= 1;
    }
    let mut trimmed: Vec<char> = Vec::new();
    let mut i: usize = 0;
    while i < end
        invariant
            i <= end <= text.len(),
            trimmed@ == text@.take(i as int),
        decreases end - i,
    {
        trimmed.push(text[i]);
        assert(trimmed@ =~= text@.take(i as int + 1));
        i += 1;
    }
    trimmed
}

/// `text` without the white space at either end.
pub fn trim_of(text: &Vec<char>) -> (kept: Vec<char>)
    ensures
        kept@ == trimmed(text@),
{
    let body = trim_end_of(text);
    let mut start: usize = 0;
    assert(body@.skip(0) == body@);
    while start < body.len() && whitespace(body[start])
        invariant
            start <= body.len(),
            trimmed_start(body@) == trimmed_start(body@.skip(start as int)),
        decreases body.len() - start,
    {
        assert(body@.skip(start as int).drop_first() == body@.skip(start as int + 1));
        start += 1;
    }
    let mut kept: Vec<char> = Vec::new();
    let mut i: usize = start;
    while i < body.len()
        invariant
            start <= i <= body.len(),
            kept@ == body@.subrange(start as int, i as int),
        decreases body.len() - i,
    {
        kept.push(body[i]);
        assert(kept@ =~= body@.subrange(start as int, i as int + 1));
        i += 1;
    }
    assert(body@.subrange(start as int, body.len() as int) =~= body@.skip(start as int));
    kept
}

/// Turns each character vector into a string.
pub fn strings_of(pieces: &Vec<Vec<char>>) -> (strings: Vec<String>)
    ensures
        string_views(strings@) == char_views(pieces@),
{
    let mut strings: Vec<String> = Vec::new();
    let mut i: usize = 0;
    while i < pieces.len()
        invariant
            i <= pieces.len(),
            string_views(strings@) == char_views(pieces@.take(i as int)),
        decreases pieces.len() - i,
    {
        let s = string_of(&pieces[i]);
        let ghost before = string_views(strings@);
        strings.push(s);
        assert(string_views(strings@) =~= before.push(pieces@[i as int]@));
        assert(char_views(pieces@.take(i as int + 1)) =~= char_views(pieces@.take(i as int)).push(
            pieces@[i as int]@,
        ));
        i += 1;
    }
    assert(pieces@.take(pieces.len() as int) == pieces@);
    strings
}

/// Whether `needle` stands in `hay` at `at`.
pub fn matches_at(hay: &Vec<char>, needle: &Vec<char>, at: usize) -> (found: bool)
    ensures
        found == occurs_at(hay@, needle@, at as int),
{
    if needle.len() > hay.len() || at > hay.len() - needle.len() {
        return false;
    }
    let mut j: usize = 0;
    while j < needle.len()
        invariant
            j <= needle.len(),
            at + needle.len() <= hay.len(),
            forall|k: int| 0 <= k < j ==> hay@[at + k] == needle@[k],
        decreases needle.len() - j,
    {
        if hay[at + j] != needle[j] {
            assert(hay@.subrange(at as int, at + needle.len())[j as int] == hay@[at + j]);
            return false;
        }
        j += 1;
    }
    true
}

/// Whether `needle` stands somewhere in `hay`.
pub fn contains(hay: &Vec<char>, needle: &Vec<char>) -> (found: bool)
    ensures
        found == occurs(hay@, needle@),
{
    if needle.len() > hay.len() {
        return false;
    }
    let last: usize = hay.len() - needle.len();
    let mut at: usize = 0;
    loop
        invariant
            at <= last,
            last == hay.len() - needle.len(),
            forall|k: int| 0 <= k < at ==> !occurs_at(hay@, needle@, k),
        decreases last - at,
    {
        if matches_at(hay, needle, at) {
            return true;
        }
        if at == last {
            return false;
        }
        at += 1;
    }
}

/// Whether `text` begins with `prefix`.
pub fn starts_with(text: &Vec<char>, prefix: &Vec<char>) -> (found: bool)
    ensures
        found == prefix@.is_prefix_of(text@),
{
    let found = matches_at(text, prefix, 0);
    assert(found == prefix@.is_prefix_of(text@)) by {
        if prefix@.len() <= text@.len() {
            assert(text@.subrange(0, prefix@.len() as int) =~= text@.take(prefix@.len() as int));
        }
    }
    found
}

/// The pieces put together again, with `sep` between each two.
pub open spec fn joined_with(pieces: Seq<Seq<char>>, sep: char) -> Seq<char>
    decreases pieces.len(),
{
    if pieces.len() == 0 {
        Seq::<char>::empty()
    } else if pieces.len() == 1 {
        pieces[0]
    } else {
        joined_with(pieces.drop_last(), sep).push(sep) + pieces.last()
    }
}

/// Splitting loses nothing and cuts at every separator: the pieces, put
/// together again with the separator between them, are the text, and no piece
/// holds the separator.
pub proof fn lemma_split_is_exact(text: Seq<char>, sep: char)
    ensures
        split(text, sep).len() >= 1,
        joined_with(split(text, sep), sep) == text,
        forall|i: int, j: int|
            0 <= i < split(text, sep).len() && 0 <= j < split(text, sep)[i].len() ==> split(
                text,
                sep,
            )[i][j] != sep,
    decreases text.len(),
{
    if text.len() > 0 {
        let head = text.drop_last();
        let before = split(head, sep);
        lemma_split_is_exact(head, sep);
        let pieces = split(text, sep);
        if text.last() == sep {
            assert(pieces.drop_last() =~= before);
            assert(joined_with(pieces, sep) =~= head.push(sep));
            assert(head.push(sep) =~= text);
        } else {
            let last = before.last().push(text.last());
            assert(pieces.last() == last);
            if before.len() == 1 {
                assert(joined_with(pieces, sep) =~= head.push(text.last()));
            } else {
                assert(pieces.drop_last() =~= before.drop_last());
                assert(joined_with(pieces, sep) =~= joined_with(before, sep).push(text.last()));
            }
            assert(head.push(text.last()) =~= text);
            assert forall|i: int, j: int|
                0 <= i < pieces.len() && 0 <= j < pieces[i].len() implies pieces[i][j] != sep by {
                if i < pieces.len() - 1 {
                    assert(pieces[i] == before[i]);
                } else if j < before.last().len() {
                    assert(pieces[i][j] == before[before.len() - 1][j]);
                }
            }
        }
    }
}

/// What `last_quoted` picks: a part of the line that holds no quote, that
/// only quotes follow, and that the line's start or a quote precedes. It is
/// empty only where the whole line is quotes.
pub proof fn lemma_last_quoted_is_exact(line: Seq<char>)
    ensures
        exists|start: int, end: int|
            {
                &&& 0 <= start <= end <= line.len()
                &&& last_quoted(line) == #[trigger] line.subrange(start, end)
                &&& forall|j: int| start <= j < end ==> line[j] != '"'
                &&& forall|j: int| end <= j < line.len() ==> line[j] == '"'
                &&& (start == 0 || line[start - 1] == '"')
                &&& (start == end ==> end == 0)
            },
{
    lemma_without_closing_quotes(line);
    let body = without_closing_quotes(line);
    lemma_unquoted_tail(body);
    let end = body.len() as int;
    let start = end - unquoted_tail(body).len();
    assert(body.skip(start) =~= line.subrange(start, end));
    assert(last_quoted(line) == line.subrange(start, end));
    assert forall|j: int| start <= j < end implies line[j] != '"' by {
        assert(body[j] == line[j]);
    }
    if start > 0 {
        assert(body[start - 1] == line[start - 1]);
    }
    if start == end && end > 0 {
        assert(body.last() == body[end - 1]);
    }
}

/// `without_closing_quotes` takes a start of the line that does not end in a
/// quote, and leaves nothing but quotes.
pub proof fn lemma_without_closing_quotes(line: Seq<char>)
    ensures
        without_closing_quotes(line).len() <= line.len(),
        without_closing_quotes(line) == line.take(without_closing_quotes(line).len() as int),
        without_closing_quotes(line).len() > 0 ==> without_closing_quotes(line).last() != '"',
        forall|j: int| without_closing_quotes(line).len() <= j < line.len() ==> line[j] == '"',
    decreases line.len(),
{
    if line.len() > 0 && line.last() == '"' {
        let head = line.drop_last();
        lemma_without_closing_quotes(head);
        let n = without_closing_quotes(head).len() as int;
        assert(head.take(n) =~= line.take(n));
        assert forall|j: int| n <= j < line.len() implies line[j] == '"' by {
            if j < head.len() {
                assert(head[j] == line[j]);
            }
        }
    } else {
        assert(line.take(line.len() as int) =~= line);
    }
}

/// `unquoted_tail` takes an end of the line that holds no quote and that the
/// line's start or a quote precedes.
pub proof fn lemma_unquoted_tail(line: Seq<char>)
    ensures
        unquoted_tail(line).len() <= line.len(),
        unquoted_tail(line) == line.skip(line.len() - unquoted_tail(line).len()),
        forall|j: int| line.len() - unquoted_tail(line).len() <= j < line.len() ==> line[j] != '"',
        unquoted_tail(line).len() == line.len() || line[line.len() - unquoted_tail(line).len() - 1]
            == '"',
    decreases line.len(),
{
    if line.len() == 0 || line.last() == '"' {
        assert(line.skip(line.len() as int) =~= Seq::<char>::empty());
    } else {
        let head = line.drop_last();
        lemma_unquoted_tail(head);
        let n = unquoted_tail(head).len() as int;
        assert(head.skip(head.len() - n).push(line.last()) =~= line.skip(line.len() - (n + 1)));
        assert forall|j: int| line.len() - (n + 1) <= j < line.len() implies line[j] != '"' by {
            if j < head.len() {
                assert(head[j] == line[j]);
            }
        }
        if n < head.len() {
            assert(head[head.len() - n - 1] == line[line.len() - (n + 1) - 1]);
        }
    }
}

/// `trimmed_end` takes a start of the text that does not end in white space,
/// and leaves nothing but white space.
pub proof fn lemma_trimmed_end_is_exact(text: Seq<char>)
    ensures
        trimmed_end(text).len() <= text.len(),
        trimmed_end(text) == text.take(trimmed_end(text).len() as int),
        trimmed_end(text).len() > 0 ==> !white_space(trimmed_end(text).last()),
        forall|j: int| trimmed_end(text).len() <= j < text.len() ==> white_space(text[j]),
    decreases text.len(),
{
    if text.len() > 0 && white_space(text.last()) {
        let head = text.drop_last();
        lemma_trimmed_end_is_exact(head);
        let n = trimmed_end(head).len() as int;
        assert(head.take(n) =~= text.take(n));
        assert forall|j: int| n <= j < text.len() implies white_space(text[j]) by {
            if j < head.len() {
                assert(head[j] == text[j]);
            }
        }
    } else {
        assert(text.take(text.len() as int) =~= text);
    }
}

/// Every text splits into at least one piece.
pub proof fn lemma_split_nonempty(text: Seq<char>, sep: char)
    ensures
        split(text, sep).len() >= 1,
    decreases text.len(),
{
    if text.len() > 0 {
        lemma_split_nonempty(text.drop_last(), sep);
    }
}

/// Splits `text` at each `sep`.
pub fn split_at_each(text: &Vec<char>, sep: char) -> (pieces: Vec<Vec<char>>)
    ensures
        char_views(pieces@) == split(text@, sep),
{
    let mut done: Vec<Vec<char>> = Vec::new();
    let mut piece: Vec<char> = Vec::new();
    let mut i: usize = 0;
    assert(split(text@.take(0), sep) =~= char_views(done@).push(piece@));
    while i < text.len()
        invariant
            i <= text.len(),
            split(text@.take(i as int), sep) == char_views(done@).push(piece@),
        decreases text.len() - i,
    {
        let c = text[i];
        let ghost next = text@.take(i as int + 1);
        assert(next.drop_last() == text@.take(i as int));
        assert(next.last() == c);
        if c == sep {
            let ghost before = char_views(done@);
            done.push(piece);
            assert(char_views(done@) =~= before.push(piece@));
            piece = Vec::new();
        } else {
            let ghost before = char_views(done@).push(piece@);
            piece.push(c);
            assert(before.drop_last() =~= char_views(done@));
        }
        i += 1;
    }
    assert(text@.take(text.len() as int) == text@);
    let ghost before = char_views(done@);
    done.push(piece);
    assert(char_views(done@) =~= before.push(piece@));
    done
}

/// The lines of `text`.
pub fn lines_of(text: &Vec<char>) -> (found: Vec<Vec<char>>)
    ensures
        char_views(found@) == lines(text@),
{
    let raw = split_at_each(text, '\n');
    let mut found: Vec<Vec<char>> = Vec::new();
    let mut i: usize = 0;
    while i < raw.len()
        invariant
            i <= raw.len(),
            char_views(raw@) == split(text@, '\n'),
            char_views(found@) == lines(text@).take(i as int),
        decreases raw.len() - i,
    {
        let mut line = raw[i].clone();
        assert(line@ == raw@[i as int]@);
        assert(char_views(raw@)[i as int] == raw@[i as int]@);
        let n = line.len();
        if n > 0 && line[n - 1] == '\r' {
            line.pop();
        }
        let ghost before = char_views(found@);
        found.push(line);
        assert(line@ == strip_cr(split(text@, '\n')[i as int]));
        assert(char_views(found@) =~= before.push(line@));
        assert(lines(text@).take(i as int + 1) =~= lines(text@).take(i as int).push(
            lines(text@)[i as int],
        ));
        i += 1;
    }
    assert(lines(text@).take(raw.len() as int) == lines(text@));
    found
}

/// The last non-empty run of `line` that double quotes bound.
pub fn last_quoted_of(line: &Vec<char>) -> (run: Vec<char>)
    ensures
        run@ == last_quoted(line@),
{
    let mut end: usize = line.len();
    assert(line@.take(end as int) == line@);
    while end > 0 && line[end - 1] == '"'
        invariant
            end <= line.len(),
            without_closing_quotes(line@) == without_closing_quotes(line@.take(end as int)),
        decreases end,
    {
        assert(line@.take(end as int).drop_last() == line@.take(end as int - 1));
        end -= 1;
    }
    let mut start: usize = end;
    assert(line@.subrange(start as int, end as int) =~= Seq::<char>::empty());
    while start > 0 && line[start - 1] != '"'
        invariant
            start <= end <= line.len(),
            last_quoted(line@) == unquoted_tail(line@.take(end as int)),
            unquoted_tail(line@.take(end as int)) == unquoted_tail(line@.take(start as int))
                + line@.subrange(start as int, end as int),
        decreases start,
    {
        let ghost head = line@.take(start as int);
        assert(head.drop_last() == line@.take(start as int - 1));
        assert(unquoted_tail(head) == unquoted_tail(head.drop_last()).push(head.last()));
        assert(unquoted_tail(head.drop_last()).push(head.last()) + line@.subrange(
            start as int,
            end as int,
        ) =~= unquoted_tail(head.drop_last()) + line@.subrange(start as int - 1, end as int));
        start -= 1;
    }
    assert(unquoted_tail(line@.take(start as int)) =~= Seq::<char>::empty());
    let mut run: Vec<char> = Vec::new();
    let mut i: usize = start;
    while i < end
        invariant
            start <= i <= end <= line.len(),
            run@ == line@.subrange(start as int, i as int),
        decreases end - i,
    {
        run.push(line[i]);
        assert(run@ =~= line@.subrange(start as int, i as int + 1));
        i += 1;
    }
    run
}

} // verus!
