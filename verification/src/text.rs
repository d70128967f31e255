//! Character classification and string utilities shared across the analysis:
//! trimming, whitespace collapsing, lexicographic comparison, splitting and
//! joining on a separator character.
use vstd::prelude::*;
use vstd::string::*;

verus! {

/// What `char::is_whitespace` returns: whether the character has the
/// Unicode `White_Space` property.
pub uninterp spec fn is_space_char(c: char) -> bool;

/// Relies on `char::is_whitespace`: true exactly for characters with the
/// Unicode `White_Space` property. Among characters below U+0085 that
/// property holds for U+0009..U+000D and U+0020 and for nothing else.
#[verifier::external_body]
pub(crate) fn char_is_whitespace(c: char) -> (r: bool)
    ensures
        r == is_space_char(c),
        c == ' ' || c == '\t' || c == '\n' || c == '\r' ==> r,
        ' ' < c && c < '\u{85}' ==> !r,
        c < '\t' ==> !r,
{
    c.is_whitespace()
}

/// What `char::is_lowercase` returns: whether the character has the
/// Unicode `Lowercase` property.
pub uninterp spec fn is_lowercase_char(c: char) -> bool;

/// Relies on `char::is_lowercase`: true exactly for characters with the
/// Unicode `Lowercase` property; among ASCII characters that property holds
/// for 'a'..='z' and for nothing else.
#[verifier::external_body]
pub(crate) fn char_is_lowercase(c: char) -> (r: bool)
    ensures
        r == is_lowercase_char(c),
        'a' <= c && c <= 'z' ==> r,
        (c < 'a' || 'z' < c) && c < '\u{80}' ==> !r,
{
    c.is_lowercase()
}

/// Relies on `String::push`: appends one character at the end of the string.
#[verifier::external_body]
pub(crate) fn push_char(s: &mut String, c: char)
    ensures
        final(s)@ == old(s)@.push(c),
{
    s.push(c)
}

/// Whether two string slices hold the same characters.
pub fn str_eq(a: &str, b: &str) -> (r: bool)
    ensures
        r == (a@ == b@),
{
    let an: usize = a.unicode_len();
    let bn: usize = b.unicode_len();
    if an != bn {
        return false;
    }
    let mut i: usize = 0;
    while i < an
        invariant
            0 <= i <= an,
            an == a@.len(),
            an == b@.len(),
            forall|j: int| 0 <= j < i ==> a@[j] == b@[j],
        decreases an - i,
    {
        if a.get_char(i) != b.get_char(i) {
            return false;
        }
        i = i + 1;
    }
    proof {
        assert(a@ =~= b@);
    }
    true
}

/// Whether `prefix` is a prefix of `s`.
pub fn str_prefix_eq(s: &str, prefix: &str) -> (r: bool)
    ensures
        r == (s@.len() >= prefix@.len() && s@.subrange(0, prefix@.len() as int) == prefix@),
{
    let n: usize = s.unicode_len();
    let pn: usize = prefix.unicode_len();
    if pn > n {
        return false;
    }
    let mut i: usize = 0;
    while i < pn
        invariant
            0 <= i <= pn <= n,
            n == s@.len(),
            pn == prefix@.len(),
            forall|j: int| 0 <= j < i ==> s@[j] == prefix@[j],
        decreases pn - i,
    {
        if s.get_char(i) != prefix.get_char(i) {
            proof {
                assert(s@.subrange(0, pn as int)[i as int] != prefix@[i as int]);
            }
            return false;
        }
        i = i + 1;
    }
    proof {
        assert(s@.subrange(0, pn as int) =~= prefix@);
    }
    true
}

/// The parts joined with one separator character between neighbours; an
/// empty list joins to the empty string.
pub open spec fn join_spec(parts: Seq<Seq<char>>, sep: char) -> Seq<char>
    decreases parts.len(),
{
    if parts.len() == 0 {
        Seq::<char>::empty()
    } else if parts.len() == 1 {
        parts[0]
    } else {
        join_spec(parts.drop_last(), sep) + seq![sep] + parts.last()
    }
}

/// Join the parts with one separator character between neighbours.
pub fn join_char(parts: &Vec<String>, sep: char) -> (r: String)
    ensures
        r@ == join_spec(parts.deep_view(), sep),
{
    let mut out = String::new();
    let mut i: usize = 0;
    proof {
        assert(parts.deep_view().subrange(0, 0) =~= Seq::<Seq<char>>::empty());
    }
    while i < parts.len()
        invariant
            0 <= i <= parts.len(),
            parts.deep_view().len() == parts.len(),
            out@ == join_spec(parts.deep_view().subrange(0, i as int), sep),
        decreases parts.len() - i,
    {
        let ghost pre = parts.deep_view().subrange(0, i as int);
        let ghost post = parts.deep_view().subrange(0, i + 1);
        proof {
            assert(post.drop_last() =~= pre);
            assert(post.last() == parts.deep_view()[i as int]);
        }
        if i > 0 {
            push_char(&mut out, sep);
        }
        out.append(parts[i].as_str());
        proof {
            if i == 0 {
                assert(post.len() == 1);
                assert(out@ =~= post[0]);
            } else {
                assert(out@ =~= join_spec(pre, sep) + seq![sep] + post.last());
            }
        }
        i = i + 1;
    }
    proof {
        assert(parts.deep_view().subrange(0, parts.len() as int) =~= parts.deep_view());
    }
    out
}

/// Whether `sub` occurs contiguously inside `s`.
pub open spec fn contains_substring_spec(s: Seq<char>, sub: Seq<char>) -> bool {
    exists|i: int|
        0 <= i && i + sub.len() <= s.len() && #[trigger] s.subrange(i, i + sub.len() as int)
            == sub
}

/// Whether `sub` occurs contiguously inside `s`.
pub fn contains_substring(s: &str, sub: &str) -> (r: bool)
    ensures
        r == contains_substring_spec(s@, sub@),
{
    let n: usize = s.unicode_len();
    let subn: usize = sub.unicode_len();
    if subn > n {
        proof {
            assert(!contains_substring_spec(s@, sub@));
        }
        return false;
    }
    if subn == 0 {
        proof {
            assert(s@.subrange(0, 0 + sub@.len() as int) =~= sub@);
            assert(contains_substring_spec(s@, sub@));
        }
        return true;
    }
    let mut i: usize = 0;
    while i <= n - subn
        invariant
            0 <= i <= n - subn + 1,
            1 <= subn <= n,
            n == s@.len(),
            subn == sub@.len(),
            forall|k: int|
                0 <= k < i ==> #[trigger] s@.subrange(k, k + sub@.len() as int) != sub@,
        decreases n - subn + 1 - i,
    {
        let mut j: usize = 0;
        let mut matches = true;
        while j < subn && matches
            invariant
                0 <= j <= subn,
                i + subn <= n,
                n == s@.len(),
                subn == sub@.len(),
                matches ==> forall|k: int| 0 <= k < j ==> s@[i + k] == sub@[k],
                !matches ==> s@.subrange(i as int, i + sub@.len() as int) != sub@,
            decreases (if matches { 1int } else { 0int }), subn - j,
        {
            if s.get_char(i + j) != sub.get_char(j) {
                matches = false;
                proof {
                    assert(s@.subrange(i as int, i + sub@.len() as int)[j as int] != sub@[j as int]);
                }
            } else {
                j = j + 1;
            }
        }
        if matches {
            proof {
                assert(s@.subrange(i as int, i + sub@.len() as int) =~= sub@);
            }
            return true;
        }
        i = i + 1;
    }
    proof {
        assert forall|k: int| 0 <= k && k + sub@.len() <= s@.len() implies #[trigger] s@.subrange(
            k,
            k + sub@.len() as int,
        ) != sub@ by {
            assert(k < i);
        }
    }
    false
}

/// The leading whitespace removed.
pub open spec fn trim_start_spec(s: Seq<char>) -> Seq<char>
    decreases s.len(),
{
    if s.len() > 0 && is_space_char(s[0]) {
        trim_start_spec(s.drop_first())
    } else {
        s
    }
}

/// The trailing whitespace removed.
pub open spec fn trim_end_spec(s: Seq<char>) -> Seq<char>
    decreases s.len(),
{
    if s.len() > 0 && is_space_char(s.last()) {
        trim_end_spec(s.drop_last())
    } else {
        s
    }
}

/// Leading and trailing whitespace removed.
pub open spec fn trim_spec(s: Seq<char>) -> Seq<char> {
    trim_end_spec(trim_start_spec(s))
}

proof fn lemma_trim_start_is_suffix(s: Seq<char>, i: int)
    requires
        0 <= i <= s.len(),
        forall|j: int| 0 <= j < i ==> is_space_char(s[j]),
        i < s.len() ==> !is_space_char(s[i]),
    ensures
        trim_start_spec(s) == s.subrange(i, s.len() as int),
    decreases i,
{
    if i == 0 {
        assert(s.subrange(0, s.len() as int) =~= s);
    } else {
        assert(is_space_char(s[0]));
        let t = s.drop_first();
        assert(forall|j: int| 0 <= j < i - 1 ==> is_space_char(#[trigger] t[j]));
        lemma_trim_start_is_suffix(t, i - 1);
        assert(t.subrange(i - 1, t.len() as int) =~= s.subrange(i, s.len() as int));
    }
}

proof fn lemma_trim_end_is_prefix(s: Seq<char>, i: int)
    requires
        0 <= i <= s.len(),
        forall|j: int| i <= j < s.len() ==> is_space_char(s[j]),
        i > 0 ==> !is_space_char(s[i - 1]),
    ensures
        trim_end_spec(s) == s.subrange(0, i),
    decreases s.len() - i,
{
    if i == s.len() {
        assert(s.subrange(0, i) =~= s);
    } else {
        assert(is_space_char(s.last()));
        let t = s.drop_last();
        lemma_trim_end_is_prefix(t, i);
        assert(t.subrange(0, i) =~= s.subrange(0, i));
    }
}

/// Leading and trailing whitespace removed, as `str::trim` does.
pub fn trim(s: &str) -> (r: &str)
    ensures
        r@ == trim_spec(s@),
{
    let n: usize = s.unicode_len();
    let mut start: usize = 0;
    while start < n && char_is_whitespace(s.get_char(start))
        invariant
            0 <= start <= n,
            n == s@.len(),
            forall|j: int| 0 <= j < start ==> is_space_char(s@[j]),
        decreases n - start,
    {
        start = start + 1;
    }
    proof {
        lemma_trim_start_is_suffix(s@, start as int);
    }
    let ghost mid: Seq<char> = s@.subrange(start as int, n as int);
    let mut end: usize = n;
    while end > start && char_is_whitespace(s.get_char(end - 1))
        invariant
            start <= end <= n,
            n == s@.len(),
            mid == s@.subrange(start as int, n as int),
            forall|j: int| end <= j < n ==> is_space_char(s@[j]),
        decreases end,
    {
        end = end - 1;
    }
    proof {
        assert(forall|j: int| end - start <= j < mid.len() ==> is_space_char(#[trigger] mid[j]));
        lemma_trim_end_is_prefix(mid, end - start);
    }
    let r = s.substring_char(start, end);
    proof {
        assert(r@ =~= mid.subrange(0, end - start));
    }
    r
}

/// Whitespace runs collapsed to a single space; `prev_ws` says whether the
/// character just before `s` was itself part of a whitespace run.
pub open spec fn collapse_ws(s: Seq<char>, prev_ws: bool) -> Seq<char>
    decreases s.len(),
{
    if s.len() == 0 {
        Seq::<char>::empty()
    } else if is_space_char(s[0]) {
        if prev_ws {
            collapse_ws(s.drop_first(), true)
        } else {
            seq![' '] + collapse_ws(s.drop_first(), true)
        }
    } else {
        seq![s[0]] + collapse_ws(s.drop_first(), false)
    }
}

/// The text trimmed, with every interior whitespace run replaced by one space.
pub open spec fn normalize_text_spec(s: Seq<char>) -> Seq<char> {
    collapse_ws(trim_spec(s), false)
}

proof fn lemma_collapse_ws_step(s: Seq<char>, i: int, prev_ws: bool)
    requires
        0 <= i < s.len(),
    ensures
        collapse_ws(s.subrange(i, s.len() as int), prev_ws) == if is_space_char(s[i]) {
            if prev_ws {
                collapse_ws(s.subrange(i + 1, s.len() as int), true)
            } else {
                seq![' '] + collapse_ws(s.subrange(i + 1, s.len() as int), true)
            }
        } else {
            seq![s[i]] + collapse_ws(s.subrange(i + 1, s.len() as int), false)
        },
{
    let t = s.subrange(i, s.len() as int);
    assert(t[0] == s[i]);
    assert(t.drop_first() =~= s.subrange(i + 1, s.len() as int));
}

/// Trim the text and replace each interior run of whitespace by one space.
pub fn normalize_text(text: &str) -> (r: String)
    ensures
        r@ == normalize_text_spec(text@),
{
    let t = trim(text);
    let n: usize = t.unicode_len();
    let mut result = String::new();
    let mut prev_ws = false;
    let mut i: usize = 0;
    proof {
        assert(t@.subrange(0, n as int) =~= t@);
        assert(result@ + collapse_ws(t@, false) =~= collapse_ws(t@, false));
    }
    while i < n
        invariant
            0 <= i <= n,
            n == t@.len(),
            result@ + collapse_ws(t@.subrange(i as int, n as int), prev_ws) == collapse_ws(
                t@,
                false,
            ),
        decreases n - i,
    {
        let c = t.get_char(i);
        proof {
            lemma_collapse_ws_step(t@, i as int, prev_ws);
        }
        if char_is_whitespace(c) {
            if !prev_ws {
                push_char(&mut result, ' ');
                prev_ws = true;
            }
        } else {
            push_char(&mut result, c);
            prev_ws = false;
        }
        i = i + 1;
    }
    proof {
        assert(t@.subrange(n as int, n as int) =~= Seq::<char>::empty());
        assert(result@ =~= result@ + collapse_ws(t@.subrange(n as int, n as int), prev_ws));
    }
    result
}

/// The text split on a separator character: one more part than there are
/// separators, in order; an empty text splits into one empty part.
pub open spec fn split_spec(s: Seq<char>, sep: char) -> Seq<Seq<char>>
    decreases s.len(),
{
    if s.len() == 0 {
        seq![Seq::<char>::empty()]
    } else {
        let rest = split_spec(s.drop_last(), sep);
        if s.last() == sep {
            rest.push(Seq::<char>::empty())
        } else {
            rest.update(rest.len() - 1, rest.last().push(s.last()))
        }
    }
}

pub proof fn lemma_split_spec_len(s: Seq<char>, sep: char)
    ensures
        split_spec(s, sep).len() >= 1,
    decreases s.len(),
{
    if s.len() > 0 {
        lemma_split_spec_len(s.drop_last(), sep);
    }
}

/// Split the text on a separator character.
pub fn split_char(s: &str, sep: char) -> (r: Vec<String>)
    ensures
        r.deep_view() == split_spec(s@, sep),
{
    let n: usize = s.unicode_len();
    let mut out: Vec<String> = Vec::new();
    let mut cur = String::new();
    let mut i: usize = 0;
    proof {
        assert(s@.subrange(0, 0) =~= Seq::<char>::empty());
        assert(out.deep_view().push(cur@) =~= split_spec(s@.subrange(0, 0), sep));
    }
    while i < n
        invariant
            0 <= i <= n,
            n == s@.len(),
            out.deep_view().push(cur@) == split_spec(s@.subrange(0, i as int), sep),
        decreases n - i,
    {
        let c = s.get_char(i);
        let ghost pre = s@.subrange(0, i as int);
        let ghost post = s@.subrange(0, i + 1);
        proof {
            assert(post.drop_last() =~= pre);
            assert(post.last() == s@[i as int]);
            lemma_split_spec_len(pre, sep);
        }
        if c == sep {
            let ghost prev_out = out.deep_view();
            out.push(cur);
            cur = String::new();
            proof {
                assert(out.deep_view() =~= prev_out.push(split_spec(pre, sep).last()));
                assert(out.deep_view() =~= split_spec(pre, sep));
                assert(out.deep_view().push(cur@) =~= split_spec(post, sep));
            }
        } else {
            push_char(&mut cur, c);
            proof {
                let parts = split_spec(pre, sep);
                assert(split_spec(post, sep) == parts.update(
                    parts.len() - 1,
                    parts.last().push(s@[i as int]),
                ));
                assert(out.deep_view().push(cur@) =~= split_spec(post, sep));
            }
        }
        i = i + 1;
    }
    out.push(cur);
    proof {
        assert(s@.subrange(0, n as int) =~= s@);
    }
    out
}

/// The number of leading whitespace characters of a line.
pub open spec fn line_indent(line: Seq<char>) -> int {
    line.len() - trim_start_spec(line).len()
}

/// A line that holds nothing but whitespace.
pub open spec fn line_is_blank(line: Seq<char>) -> bool {
    trim_spec(line).len() == 0
}

/// The smallest indent among the given lines, blank lines not counted.
pub open spec fn min_indent_spec(lines: Seq<Seq<char>>) -> Option<int>
    decreases lines.len(),
{
    if lines.len() == 0 {
        None
    } else {
        let rest = min_indent_spec(lines.drop_first());
        if line_is_blank(lines[0]) {
            rest
        } else {
            match rest {
                None => Some(line_indent(lines[0])),
                Some(m) => if line_indent(lines[0]) < m {
                    Some(line_indent(lines[0]))
                } else {
                    Some(m)
                },
            }
        }
    }
}

/// One line with the common indent removed: blank lines stay as they are,
/// and a line shorter than the indent stays as it is.
pub open spec fn strip_indent(line: Seq<char>, indent: int) -> Seq<char> {
    if line_is_blank(line) {
        line
    } else if line.len() >= indent {
        line.subrange(indent, line.len() as int)
    } else {
        line
    }
}

/// The text with the common leading indentation of all lines after the first
/// removed: the first line is kept as it is, blank lines are kept as they
/// are, and every other line loses the smallest indent found among the
/// non-blank lines after the first.
pub open spec fn normalize_indentation_spec(s: Seq<char>) -> Seq<char> {
    let lines = split_spec(s, '\n');
    let tail = lines.drop_first();
    let indent = match min_indent_spec(tail) {
        None => 0int,
        Some(m) => m,
    };
    join_spec(seq![lines[0]] + tail.map_values(|line: Seq<char>| strip_indent(line, indent)), '\n')
}

proof fn lemma_trim_start_len(line: Seq<char>)
    ensures
        trim_start_spec(line).len() <= line.len(),
    decreases line.len(),
{
    if line.len() > 0 && is_space_char(line[0]) {
        lemma_trim_start_len(line.drop_first());
    }
}

/// The number of leading whitespace characters of a line.
fn count_indent(line: &str) -> (r: usize)
    ensures
        r == line_indent(line@),
{
    let n: usize = line.unicode_len();
    let mut i: usize = 0;
    while i < n && char_is_whitespace(line.get_char(i))
        invariant
            0 <= i <= n,
            n == line@.len(),
            forall|j: int| 0 <= j < i ==> is_space_char(line@[j]),
        decreases n - i,
    {
        i = i + 1;
    }
    proof {
        lemma_trim_start_is_suffix(line@, i as int);
    }
    i
}

/// Whether a line holds nothing but whitespace.
fn line_blank(line: &str) -> (r: bool)
    ensures
        r == line_is_blank(line@),
{
    let t = trim(line);
    t.unicode_len() == 0
}

/// Remove the common leading indentation of all lines after the first,
/// keeping the first line and blank lines as they are.
pub fn normalize_indentation(text: &str) -> (r: String)
    ensures
        r@ == normalize_indentation_spec(text@),
{
    let lines = split_char(text, '\n');
    proof {
        lemma_split_spec_len(text@, '\n');
    }
    let ghost tail = lines.deep_view().drop_first();
    let mut min_indent: Option<usize> = None;
    let mut i: usize = 1;
    proof {
        assert(tail.subrange(0, 0) =~= Seq::<Seq<char>>::empty());
    }
    while i < lines.len()
        invariant
            1 <= i <= lines.len(),
            lines.deep_view().len() == lines.len(),
            tail == lines.deep_view().drop_first(),
            (match min_indent {
                None => None::<int>,
                Some(m) => Some(m as int),
            }) == min_indent_spec(tail.subrange(0, i - 1)),
        decreases lines.len() - i,
    {
        let line = &lines[i];
        proof {
            assert(tail[i - 1] == lines.deep_view()[i as int]);
        }
        if !line_blank(line.as_str()) {
            let ind = count_indent(line.as_str());
            min_indent = match min_indent {
                None => Some(ind),
                Some(m) => if ind < m {
                    Some(ind)
                } else {
                    Some(m)
                },
            };
        }
        proof {
            lemma_min_indent_snoc(tail, i - 1);
        }
        i = i + 1;
    }
    proof {
        assert(tail.subrange(0, tail.len() as int) =~= tail);
    }
    let indent: usize = match min_indent {
        None => 0,
        Some(m) => m,
    };
    let mut parts: Vec<String> = Vec::new();
    parts.push(lines[0].clone());
    let ghost strip = |line: Seq<char>| strip_indent(line, indent as int);
    let mut k: usize = 1;
    proof {
        assert(parts.deep_view() =~= seq![lines.deep_view()[0]] + tail.subrange(0, 0).map_values(
            strip,
        ));
    }
    while k < lines.len()
        invariant
            1 <= k <= lines.len(),
            lines.deep_view().len() == lines.len(),
            tail == lines.deep_view().drop_first(),
            parts.deep_view() == seq![lines.deep_view()[0]] + tail.subrange(0, k - 1).map_values(
                strip,
            ),
            strip == (|line: Seq<char>| strip_indent(line, indent as int)),
        decreases lines.len() - k,
    {
        let line = &lines[k];
        let stripped: String;
        if line_blank(line.as_str()) {
            stripped = line.clone();
        } else {
            let len: usize = line.as_str().unicode_len();
            if len >= indent {
                stripped = line.as_str().substring_char(indent, len).to_owned();
            } else {
                stripped = line.clone();
            }
        }
        let ghost prev = parts.deep_view();
        parts.push(stripped);
        proof {
            assert(parts.deep_view() =~= prev.push(strip(tail[k - 1])));
            assert(tail.subrange(0, k as int) =~= tail.subrange(0, k - 1).push(tail[k - 1]));
            assert(tail.subrange(0, k - 1).map_values(strip).push(strip(tail[k - 1]))
                =~= tail.subrange(0, k as int).map_values(strip));
            assert(parts.deep_view() =~= seq![lines.deep_view()[0]] + tail.subrange(
                0,
                k as int,
            ).map_values(strip));
        }
        k = k + 1;
    }
    let joined = join_char(&parts, '\n');
    proof {
        assert(tail.subrange(0, tail.len() as int) =~= tail);
        assert(parts.deep_view() =~= seq![lines.deep_view()[0]] + tail.map_values(strip));
    }
    joined
}

/// Extending the scanned lines by one keeps the running minimum correct.
proof fn lemma_min_indent_snoc(tail: Seq<Seq<char>>, i: int)
    requires
        0 <= i < tail.len(),
    ensures
        min_indent_spec(tail.subrange(0, i + 1)) == (if line_is_blank(tail[i]) {
            min_indent_spec(tail.subrange(0, i))
        } else {
            match min_indent_spec(tail.subrange(0, i)) {
                None => Some(line_indent(tail[i])),
                Some(m) => if line_indent(tail[i]) < m {
                    Some(line_indent(tail[i]))
                } else {
                    Some(m)
                },
            }
        }),
    decreases i,
{
    let pre = tail.subrange(0, i);
    let post = tail.subrange(0, i + 1);
    if i == 0 {
        assert(pre =~= Seq::<Seq<char>>::empty());
        assert(post =~= seq![tail[0]]);
        assert(post.drop_first() =~= Seq::<Seq<char>>::empty());
    } else {
        let tail2 = tail.drop_first();
        lemma_min_indent_snoc(tail2, i - 1);
        assert(tail2.subrange(0, i - 1) =~= pre.drop_first());
        assert(tail2.subrange(0, i) =~= post.drop_first());
        assert(tail2[i - 1] == tail[i]);
        assert(pre.len() > 0 && pre[0] == tail[0]);
        assert(post[0] == tail[0]);
    }
}


/// Strict lexicographic order on character sequences, by code point.
pub open spec fn str_lt(a: Seq<char>, b: Seq<char>) -> bool
    decreases a.len(),
{
    if b.len() == 0 {
        false
    } else if a.len() == 0 {
        true
    } else if a[0] != b[0] {
        (a[0] as u32) < (b[0] as u32)
    } else {
        str_lt(a.drop_first(), b.drop_first())
    }
}

/// Lexicographic order, allowing equality.
pub open spec fn str_le(a: Seq<char>, b: Seq<char>) -> bool {
    str_lt(a, b) || a == b
}

/// Two characters with one code point are one character.
proof fn lemma_char_inj(c1: char, c2: char)
    ensures
        c1 as u32 == c2 as u32 ==> c1 == c2,
{
}

/// Any two sequences are ordered one way or the other.
pub proof fn lemma_str_lt_connected(a: Seq<char>, b: Seq<char>)
    ensures
        a != b ==> str_lt(a, b) || str_lt(b, a),
    decreases a.len(),
{
    if a.len() == 0 || b.len() == 0 {
        if a.len() == 0 && b.len() == 0 {
            assert(a =~= b);
        }
    } else if a[0] != b[0] {
        lemma_char_inj(a[0], b[0]);
        assert((a[0] as u32) != (b[0] as u32));
    } else {
        lemma_str_lt_connected(a.drop_first(), b.drop_first());
        if a != b {
            if a.drop_first() == b.drop_first() {
                assert(a.len() == b.len());
                assert forall|i: int| 0 <= i < a.len() implies a[i] == b[i] by {
                    if i >= 1 {
                        assert(a.drop_first() =~= a.subrange(1, a.len() as int));
                        assert(b.drop_first() =~= b.subrange(1, b.len() as int));
                        assert(a.subrange(1, a.len() as int)[i - 1] == a[i]);
                        assert(b.subrange(1, b.len() as int)[i - 1] == b[i]);
                    }
                }
                assert(a =~= b);
                assert(false);
            }
        }
    }
}

/// Strict lexicographic order is transitive.
pub proof fn lemma_str_lt_transitive(a: Seq<char>, b: Seq<char>, c: Seq<char>)
    ensures
        str_lt(a, b) && str_lt(b, c) ==> str_lt(a, c),
    decreases a.len(),
{
    if str_lt(a, b) && str_lt(b, c) {
        assert(b.len() > 0 && c.len() > 0);
        if a.len() == 0 {
        } else {
            lemma_char_inj(a[0], c[0]);
            lemma_char_inj(a[0], b[0]);
            lemma_char_inj(b[0], c[0]);
            if a[0] != b[0] {
                assert((a[0] as u32) < (c[0] as u32));
                assert(a[0] != c[0]);
            } else {
                if b[0] != c[0] {
                    assert((b[0] as u32) < (c[0] as u32));
                    assert((a[0] as u32) < (c[0] as u32));
                    assert(a[0] != c[0]);
                } else {
                    lemma_str_lt_transitive(a.drop_first(), b.drop_first(), c.drop_first());
                }
            }
        }
    }
}

proof fn lemma_str_lt_skip(a: Seq<char>, b: Seq<char>, i: int)
    requires
        0 <= i <= a.len(),
        i <= b.len(),
        forall|j: int| 0 <= j < i ==> a[j] == b[j],
    ensures
        str_lt(a, b) == str_lt(
            a.subrange(i, a.len() as int),
            b.subrange(i, b.len() as int),
        ),
    decreases i,
{
    if i == 0 {
        assert(a.subrange(0, a.len() as int) =~= a);
        assert(b.subrange(0, b.len() as int) =~= b);
    } else {
        assert(a.len() > 0 && b.len() > 0);
        assert(a[0] == b[0]);
        let a2 = a.drop_first();
        let b2 = b.drop_first();
        assert(forall|j: int| 0 <= j < i - 1 ==> #[trigger] a2[j] == b2[j]);
        lemma_str_lt_skip(a2, b2, i - 1);
        assert(a2.subrange(i - 1, a2.len() as int) =~= a.subrange(i, a.len() as int));
        assert(b2.subrange(i - 1, b2.len() as int) =~= b.subrange(i, b.len() as int));
    }
}

/// Decide the strict lexicographic order of two strings.
pub fn str_lt_exec(a: &str, b: &str) -> (r: bool)
    ensures
        r == str_lt(a@, b@),
{
    let an: usize = a.unicode_len();
    let bn: usize = b.unicode_len();
    let mut i: usize = 0;
    while i < an && i < bn
        invariant
            0 <= i <= an,
            0 <= i <= bn,
            an == a@.len(),
            bn == b@.len(),
            forall|j: int| 0 <= j < i ==> a@[j] == b@[j],
        decreases an - i,
    {
        let ca = a.get_char(i);
        let cb = b.get_char(i);
        if ca != cb {
            proof {
                lemma_str_lt_skip(a@, b@, i as int);
                let asuf = a@.subrange(i as int, an as int);
                let bsuf = b@.subrange(i as int, bn as int);
                assert(asuf.len() > 0 && bsuf.len() > 0);
                assert(asuf[0] == a@[i as int]);
                assert(bsuf[0] == b@[i as int]);
            }
            return (ca as u32) < (cb as u32);
        }
        i = i + 1;
    }
    proof {
        lemma_str_lt_skip(a@, b@, i as int);
        let asuf = a@.subrange(i as int, an as int);
        let bsuf = b@.subrange(i as int, bn as int);
        if i == an {
            assert(asuf.len() == 0);
        } else {
            assert(bsuf.len() == 0);
        }
    }
    an < bn
}

} // verus!

