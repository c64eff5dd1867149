//! Text as a sequence of characters: the vocabulary in which the rest of the
//! library says what a string is made of, and the operations on strings that
//! it needs.
use vstd::prelude::*;
use vstd::string::to_string_from_display_ensures;

verus! {

/// `String::push` of std: appends the given character to the end of the
/// string.
pub assume_specification[ String::push ](s: &mut String, ch: char)
    ensures
        final(s)@ == old(s)@.push(ch),
;

/// The contents of a list of strings.
pub open spec fn texts(v: Seq<String>) -> Seq<Seq<char>> {
    v.map_values(|s: String| s@)
}

/// The contents of a list of string slices.
pub open spec fn strs(v: Seq<&str>) -> Seq<Seq<char>> {
    v.map_values(|s: &str| s@)
}

/// The contents of an optional string.
pub open spec fn opt_text(o: Option<String>) -> Option<Seq<char>> {
    match o {
        Some(s) => Some(s@),
        None => None,
    }
}

/// The contents of an optional string slice.
pub open spec fn opt_str(o: Option<&str>) -> Option<Seq<char>> {
    match o {
        Some(s) => Some(s@),
        None => None,
    }
}

/// Whatever text `to_string` makes of a value, it is `text`.
pub open spec fn is_shown_as<T: std::fmt::Display>(value: T, text: Seq<char>) -> bool {
    forall|s: String| #[trigger] to_string_from_display_ensures(&value, s) ==> s@ == text
}

/// `part` stands somewhere in `t`, without a gap.
pub open spec fn occurs_in(part: Seq<char>, t: Seq<char>) -> bool {
    exists|i: int| occurs_at(part, t, i)
}

/// `part` stands in `t` at position `i`.
pub open spec fn occurs_at(part: Seq<char>, t: Seq<char>, i: int) -> bool {
    0 <= i <= t.len() - part.len() && t.subrange(i, i + part.len()) == part
}

/// The parts, with `sep` between each two of them.
pub open spec fn joined(parts: Seq<Seq<char>>, sep: Seq<char>) -> Seq<char>
    decreases parts.len(),
{
    if parts.len() == 0 {
        Seq::empty()
    } else if parts.len() == 1 {
        parts[0]
    } else {
        joined(parts.drop_last(), sep) + sep + parts.last()
    }
}

/// The characters with the Unicode property `White_Space`.
pub open spec fn is_space(c: char) -> bool {
    let n = c as u32;
    ||| 0x09 <= n <= 0x0d
    ||| n == 0x20
    ||| n == 0x85
    ||| n == 0xa0
    ||| n == 0x1680
    ||| 0x2000 <= n <= 0x200a
    ||| n == 0x2028
    ||| n == 0x2029
    ||| n == 0x202f
    ||| n == 0x205f
    ||| n == 0x3000
}

/// `t` without the white space at its start.
pub open spec fn trimmed_start(t: Seq<char>) -> Seq<char>
    decreases t.len(),
{
    if t.len() > 0 && is_space(t[0]) {
        trimmed_start(t.drop_first())
    } else {
        t
    }
}

/// `t` without the white space at its end.
pub open spec fn trimmed_end(t: Seq<char>) -> Seq<char>
    decreases t.len(),
{
    if t.len() > 0 && is_space(t.last()) {
        trimmed_end(t.drop_last())
    } else {
        t
    }
}

/// `t` without the white space at its two ends.
pub open spec fn trimmed(t: Seq<char>) -> Seq<char> {
    trimmed_end(trimmed_start(t))
}

/// The pieces of `t` between the occurrences of `sep`: one more than there are
/// occurrences.
pub open spec fn pieces(t: Seq<char>, sep: char) -> Seq<Seq<char>>
    decreases t.len(),
{
    if t.len() == 0 {
        seq![Seq::empty()]
    } else {
        let before = pieces(t.drop_last(), sep);
        if t.last() == sep {
            before.push(Seq::empty())
        } else {
            before.drop_last().push(before.last().push(t.last()))
        }
    }
}

/// The lines of `t`: what stands between line feeds, where a line feed at the
/// very end starts no further line.
pub open spec fn line_texts(t: Seq<char>) -> Seq<Seq<char>> {
    let all = pieces(t, '\n');
    if all.last().len() == 0 {
        all.drop_last()
    } else {
        all
    }
}

/// The first run of characters in `t` that are not white space.
pub open spec fn first_word_of(t: Seq<char>) -> Seq<char> {
    run_of_non_space(trimmed_start(t))
}

/// The characters at the start of `t`, up to the first white space.
pub open spec fn run_of_non_space(t: Seq<char>) -> Seq<char>
    decreases t.len(),
{
    if t.len() == 0 || is_space(t[0]) {
        Seq::empty()
    } else {
        seq![t[0]] + run_of_non_space(t.drop_first())
    }
}

/// `t` with each `c` replaced by `by`.
pub open spec fn with_replaced(t: Seq<char>, c: char, by: Seq<char>) -> Seq<char>
    decreases t.len(),
{
    if t.len() == 0 {
        Seq::empty()
    } else {
        with_replaced(t.drop_last(), c, by) + (if t.last() == c {
            by
        } else {
            seq![t.last()]
        })
    }
}

/// What stands in `t` before the first `c`; all of `t`, where there is none.
pub open spec fn before_first(t: Seq<char>, c: char) -> Seq<char>
    decreases t.len(),
{
    if t.len() == 0 || t[0] == c {
        Seq::empty()
    } else {
        seq![t[0]] + before_first(t.drop_first(), c)
    }
}

/// What stands in `t` before and after the last `c`.
pub open spec fn around_last(t: Seq<char>, c: char) -> Option<(Seq<char>, Seq<char>)>
    decreases t.len(),
{
    if t.len() == 0 {
        None
    } else if t.last() == c {
        Some((t.drop_last(), Seq::empty()))
    } else {
        match around_last(t.drop_last(), c) {
            Some((before, after)) => Some((before, after.push(t.last()))),
            None => None,
        }
    }
}

/// The decimal digit of `n`.
pub open spec fn digit(n: int) -> char {
    (n + 48) as char
}

/// `n` in decimal notation.
pub open spec fn decimal(n: nat) -> Seq<char>
    decreases n,
{
    if n < 10 {
        seq![digit(n as int)]
    } else {
        decimal(n / 10).push(digit((n % 10) as int))
    }
}

/// An integer in decimal notation, with a minus sign where it is negative.
pub open spec fn signed_decimal(n: int) -> Seq<char> {
    if n < 0 {
        "-"@ + decimal((-n) as nat)
    } else {
        decimal(n as nat)
    }
}

/// How an exit code, where there is one, is shown in messages.
pub open spec fn shown_code(code: Option<i32>) -> Seq<char> {
    match code {
        Some(n) => "Some("@ + signed_decimal(n as int) + ")"@,
        None => "None"@,
    }
}

/// The hexadecimal digit of `n`, in lower case.
pub open spec fn hex_digit(n: int) -> char {
    if n < 10 {
        (n + 48) as char
    } else {
        (n + 87) as char
    }
}

/// Each byte as two hexadecimal digits.
pub open spec fn hex_of(bytes: Seq<u8>) -> Seq<char>
    decreases bytes.len(),
{
    if bytes.len() == 0 {
        Seq::empty()
    } else {
        hex_of(bytes.drop_last()).push(hex_digit(bytes.last() as int / 16)).push(
            hex_digit(bytes.last() as int % 16),
        )
    }
}

/// Where a path `child` leads to, seen from `base`: an absolute `child` stands
/// for itself, any other one is appended, after a `/` where one is wanting.
pub open spec fn path_under(base: Seq<char>, child: Seq<char>) -> Seq<char> {
    if child.len() > 0 && child[0] == '/' {
        child
    } else if base.len() == 0 || base.last() == '/' {
        base + child
    } else {
        base.push('/') + child
    }
}

/// The last component of a path: the last piece between `/` that is not empty
/// and not `.`; none where it is `..` or where there is no such piece.
pub open spec fn file_name_of(path: Seq<char>) -> Option<Seq<char>> {
    last_component(pieces(path, '/'))
}

/// The last of `parts` that is not empty and not `.`, unless it is `..`.
pub open spec fn last_component(parts: Seq<Seq<char>>) -> Option<Seq<char>>
    decreases parts.len(),
{
    if parts.len() == 0 {
        None
    } else if parts.last().len() == 0 || parts.last() == seq!['.'] {
        last_component(parts.drop_last())
    } else if parts.last() == seq!['.', '.'] {
        None
    } else {
        Some(parts.last())
    }
}

/// The components of a path: the pieces between `/` that are not empty and not `.`,
/// and a `.` at the very start.
pub open spec fn components(path: Seq<char>) -> Seq<Seq<char>> {
    kept_pieces(pieces(path, '/'))
}

/// The `parts` that are not empty and not `.`, and the first one where it is `.`.
pub open spec fn kept_pieces(parts: Seq<Seq<char>>) -> Seq<Seq<char>>
    decreases parts.len(),
{
    if parts.len() == 0 {
        parts
    } else {
        let before = kept_pieces(parts.drop_last());
        if parts.last().len() == 0 || (parts.last() == seq!['.'] && parts.len() > 1) {
            before
        } else {
            before.push(parts.last())
        }
    }
}

/// A path starts at the root.
pub open spec fn is_absolute(path: Seq<char>) -> bool {
    path.len() > 0 && path[0] == '/'
}

/// Two paths are the same, component by component.
pub open spec fn same_components(a: Seq<char>, b: Seq<char>) -> bool {
    is_absolute(a) == is_absolute(b) && components(a) == components(b)
}

/// The characters of `s`, in order.
pub fn chars_of(s: &str) -> (r: Vec<char>)
    ensures
        r@ == s@,
{
    let mut r: Vec<char> = Vec::new();
    for c in it: s.chars()
        invariant
            r@ == it.seq().take(it.index() as int),
            it.seq() == s@,
    {
        r.push(c);
    }
    r
}

/// The text that the characters of `chars` make up.
pub fn text_of(chars: &[char]) -> (r: String)
    ensures
        r@ == chars@,
{
    let mut r = String::new();
    let mut i: usize = 0;
    while i < chars.len()
        invariant
            i <= chars@.len(),
            r@ == chars@.take(i as int),
        decreases chars@.len() - i,
    {
        r.push(chars[i]);
        i += 1;
    }
    r
}

/// Whether two texts hold the same characters.
pub fn same_text(a: &str, b: &str) -> (r: bool)
    ensures
        r == (a@ == b@),
{
    a.to_string() == b.to_string()
}

/// Whether `t` starts with `prefix`.
pub fn starts_with(t: &str, prefix: &str) -> (r: bool)
    ensures
        r == prefix@.is_prefix_of(t@),
{
    let ts = chars_of(t);
    let ps = chars_of(prefix);
    if ps.len() > ts.len() {
        return false;
    }
    let mut i: usize = 0;
    while i < ps.len()
        invariant
            i <= ps@.len() <= ts@.len(),
            ts@ == t@,
            ps@ == prefix@,
            ps@.take(i as int) == ts@.take(i as int),
        decreases ps@.len() - i,
    {
        if ps[i] != ts[i] {
            assert(prefix@[i as int] != t@.take(prefix@.len() as int)[i as int]);
            return false;
        }
        assert(ps@.take(i + 1) == ps@.take(i as int).push(ps@[i as int]));
        assert(ts@.take(i + 1) == ts@.take(i as int).push(ts@[i as int]));
        i += 1;
    }
    assert(ps@.take(i as int) == ps@);
    true
}

/// Whether `c` occurs in `t`.
pub fn has_char(t: &str, c: char) -> (r: bool)
    ensures
        r == t@.contains(c),
{
    let ts = chars_of(t);
    let mut i: usize = 0;
    while i < ts.len()
        invariant
            i <= ts@.len(),
            ts@ == t@,
            forall|j: int| 0 <= j < i ==> ts@[j] != c,
        decreases ts@.len() - i,
    {
        if ts[i] == c {
            return true;
        }
        i += 1;
    }
    false
}

/// Whether `part` stands in `t` at position `i`.
fn part_at(ts: &Vec<char>, ps: &Vec<char>, i: usize) -> (r: bool)
    requires
        i + ps@.len() <= ts@.len(),
    ensures
        r == occurs_at(ps@, ts@, i as int),
{
    let end: usize = ts.len();
    let mut j: usize = 0;
    while j < ps.len()
        invariant
            j <= ps@.len(),
            i + ps@.len() <= ts@.len(),
            end == ts@.len(),
            forall|k: int| 0 <= k < j ==> ps@[k] == ts@[i + k],
        decreases ps@.len() - j,
    {
        if ps[j] != ts[i + j] {
            assert(ts@.subrange(i as int, i + ps@.len())[j as int] != ps@[j as int]);
            return false;
        }
        j += 1;
    }
    assert(ts@.subrange(i as int, i + ps@.len()) == ps@);
    true
}

/// Whether `part` occurs in `t`.
pub fn has_text(t: &str, part: &str) -> (r: bool)
    ensures
        r == occurs_in(part@, t@),
{
    let ts = chars_of(t);
    let ps = chars_of(part);
    if ps.len() > ts.len() {
        return false;
    }
    let last: usize = ts.len() - ps.len();
    let mut i: usize = 0;
    while i <= last
        invariant
            i <= last + 1,
            last == ts@.len() - ps@.len(),
            ts@ == t@,
            ps@ == part@,
            forall|k: int| 0 <= k < i ==> !occurs_at(ps@, ts@, k),
        decreases last + 1 - i,
    {
        if part_at(&ts, &ps, i) {
            return true;
        }
        if i == last {
            return false;
        }
        i += 1;
    }
    false
}

/// `parts` with `sep` between each two of them.
pub fn join_texts(parts: &[String], sep: &str) -> (r: String)
    ensures
        r@ == joined(texts(parts@), sep@),
{
    let mut r = String::new();
    let mut i: usize = 0;
    let ghost all = texts(parts@);
    while i < parts.len()
        invariant
            i <= parts@.len(),
            all == texts(parts@),
            r@ == joined(all.take(i as int), sep@),
        decreases parts@.len() - i,
    {
        proof {
            assert(all.take(i + 1).drop_last() == all.take(i as int));
            assert(all.take(i + 1).last() == parts@[i as int]@);
        }
        if i > 0 {
            r.append(sep);
        }
        r.append(parts[i].as_str());
        i += 1;
    }
    assert(all.take(parts@.len() as int) == all);
    r
}

/// Whether `c` is white space.
pub fn is_whitespace(c: char) -> (r: bool)
    ensures
        r == is_space(c),
{
    let n: u32 = c as u32;
    (0x09 <= n && n <= 0x0d) || n == 0x20 || n == 0x85 || n == 0xa0 || n == 0x1680 || (0x2000 <= n
        && n <= 0x200a) || n == 0x2028 || n == 0x2029 || n == 0x202f || n == 0x205f || n == 0x3000
}

proof fn lemma_trimmed_start_skip(t: Seq<char>, n: int)
    requires
        0 <= n <= t.len(),
        forall|i: int| 0 <= i < n ==> is_space(#[trigger] t[i]),
        n < t.len() ==> !is_space(t[n]),
    ensures
        trimmed_start(t) == t.skip(n),
    decreases n,
{
    if n == 0 {
        assert(t.skip(0) == t);
    } else {
        lemma_trimmed_start_skip(t.drop_first(), n - 1);
        assert(t.drop_first().skip(n - 1) == t.skip(n));
    }
}

proof fn lemma_trimmed_end_take(t: Seq<char>, n: int)
    requires
        0 <= n <= t.len(),
        forall|i: int| n <= i < t.len() ==> is_space(#[trigger] t[i]),
        n > 0 ==> !is_space(t[n - 1]),
    ensures
        trimmed_end(t) == t.take(n),
    decreases t.len() - n,
{
    if n == t.len() {
        assert(t.take(n) == t);
    } else {
        lemma_trimmed_end_take(t.drop_last(), n);
        assert(t.drop_last().take(n) == t.take(n));
    }
}

/// The number of white-space characters at the start of `ts`.
fn leading_space(ts: &Vec<char>) -> (n: usize)
    ensures
        n <= ts@.len(),
        trimmed_start(ts@) == ts@.skip(n as int),
{
    let mut n: usize = 0;
    while n < ts.len() && is_whitespace(ts[n])
        invariant
            n <= ts@.len(),
            forall|i: int| 0 <= i < n ==> is_space(#[trigger] ts@[i]),
        decreases ts@.len() - n,
    {
        n += 1;
    }
    proof {
        lemma_trimmed_start_skip(ts@, n as int);
    }
    n
}

/// `t` without the white space at its two ends.
pub fn trim(t: &str) -> (r: String)
    ensures
        r@ == trimmed(t@),
{
    let ts = chars_of(t);
    let start = leading_space(&ts);
    let mut end: usize = ts.len();
    while end > start && is_whitespace(ts[end - 1])
        invariant
            start <= end <= ts@.len(),
            forall|i: int| end <= i < ts@.len() ==> is_space(#[trigger] ts@[i]),
        decreases end,
    {
        end -= 1;
    }
    let mut r = String::new();
    let mut i: usize = start;
    while i < end
        invariant
            start <= i <= end <= ts@.len(),
            r@ == ts@.subrange(start as int, i as int),
        decreases end - i,
    {
        r.push(ts[i]);
        i += 1;
    }
    proof {
        lemma_trimmed_end_take(ts@.skip(start as int), end - start);
        assert(ts@.skip(start as int).take(end - start) == ts@.subrange(start as int, end as int));
    }
    r
}

/// The first run of characters in `t` that are not white space; none where
/// `t` holds white space alone.
pub fn first_word(t: &str) -> (r: Option<String>)
    ensures
        r is None <==> first_word_of(t@).len() == 0,
        r matches Some(word) ==> word@ == first_word_of(t@),
{
    let ts = chars_of(t);
    let start = leading_space(&ts);
    let mut word = String::new();
    let mut i: usize = start;
    while i < ts.len() && !is_whitespace(ts[i])
        invariant
            start <= i <= ts@.len(),
            run_of_non_space(ts@.skip(start as int)) == word@ + run_of_non_space(
                ts@.skip(i as int),
            ),
            word@.len() == i - start,
        decreases ts@.len() - i,
    {
        assert(ts@.skip(i as int).drop_first() == ts@.skip(i + 1));
        word.push(ts[i]);
        i += 1;
    }
    assert(run_of_non_space(ts@.skip(i as int)) == Seq::<char>::empty());
    assert(word@ == first_word_of(t@));
    if i == start {
        None
    } else {
        Some(word)
    }
}

proof fn lemma_pieces_nonempty(t: Seq<char>, sep: char)
    ensures
        pieces(t, sep).len() > 0,
    decreases t.len(),
{
    if t.len() > 0 {
        lemma_pieces_nonempty(t.drop_last(), sep);
    }
}

/// A text without the separator is its own only piece.
pub proof fn lemma_one_piece(t: Seq<char>, sep: char)
    requires
        !t.contains(sep),
    ensures
        pieces(t, sep) == seq![t],
    decreases t.len(),
{
    if t.len() == 0 {
        assert(t == Seq::<char>::empty());
    } else {
        let init = t.drop_last();
        assert forall|i: int| 0 <= i < init.len() implies init[i] != sep by {
            assert(t.contains(t[i]));
        }
        lemma_one_piece(init, sep);
        assert(t.contains(t.last()));
        assert(init.push(t.last()) == t);
        assert(seq![init].drop_last().push(t) == seq![t]);
    }
}

/// The pieces of `t` between the occurrences of `sep`.
pub fn split_at_char(t: &str, sep: char) -> (r: Vec<String>)
    ensures
        texts(r@) == pieces(t@, sep),
        r@.len() > 0,
{
    let ts = chars_of(t);
    let mut done: Vec<String> = Vec::new();
    let mut current = String::new();
    let mut i: usize = 0;
    while i < ts.len()
        invariant
            i <= ts@.len(),
            ts@ == t@,
            pieces(ts@.take(i as int), sep) == texts(done@).push(current@),
        decreases ts@.len() - i,
    {
        assert(ts@.take(i + 1).drop_last() == ts@.take(i as int));
        let ghost before = texts(done@).push(current@);
        if ts[i] == sep {
            done.push(current);
            current = String::new();
            assert(texts(done@) == before);
        } else {
            current.push(ts[i]);
            assert(before.drop_last() == texts(done@));
        }
        i += 1;
    }
    assert(ts@.take(i as int) == ts@);
    done.push(current);
    assert(texts(done@) == pieces(t@, sep));
    done
}

/// The lines of `t`.
pub fn lines_of(t: &str) -> (r: Vec<String>)
    ensures
        texts(r@) == line_texts(t@),
{
    let mut all = split_at_char(t, '\n');
    let n: usize = all.len();
    assert(pieces(t@, '\n').last() == all@[n - 1]@);
    if all[n - 1].as_str().is_empty() {
        let ghost before = all@;
        let _last = all.pop();
        assert(texts(all@) == texts(before).drop_last());
    }
    all
}

/// `t` with each `c` replaced by `by`.
pub fn replace_char(t: &str, c: char, by: &str) -> (r: String)
    ensures
        r@ == with_replaced(t@, c, by@),
{
    let ts = chars_of(t);
    let mut r = String::new();
    let mut i: usize = 0;
    while i < ts.len()
        invariant
            i <= ts@.len(),
            ts@ == t@,
            r@ == with_replaced(ts@.take(i as int), c, by@),
        decreases ts@.len() - i,
    {
        assert(ts@.take(i + 1).drop_last() == ts@.take(i as int));
        if ts[i] == c {
            r.append(by);
        } else {
            let ghost before = r@;
            r.push(ts[i]);
            assert(r@ == before + seq![ts@[i as int]]);
        }
        i += 1;
    }
    assert(ts@.take(i as int) == ts@);
    r
}

/// What stands in `t` before the first `c`; all of `t`, where there is none.
pub fn prefix_before(t: &str, c: char) -> (r: String)
    ensures
        r@ == before_first(t@, c),
{
    let ts = chars_of(t);
    let mut r = String::new();
    let mut i: usize = 0;
    assert(ts@.skip(0) == ts@);
    while i < ts.len() && ts[i] != c
        invariant
            i <= ts@.len(),
            ts@ == t@,
            before_first(ts@, c) == r@ + before_first(ts@.skip(i as int), c),
        decreases ts@.len() - i,
    {
        assert(ts@.skip(i as int).drop_first() == ts@.skip(i + 1));
        r.push(ts[i]);
        i += 1;
    }
    assert(before_first(ts@.skip(i as int), c) == Seq::<char>::empty());
    r
}

/// What stands in `t` before and after the last `c`, where there is one.
pub fn split_at_last(t: &str, c: char) -> (r: Option<(String, String)>)
    ensures
        r is Some <==> around_last(t@, c) is Some,
        r matches Some(p) ==> around_last(t@, c) == Some((p.0@, p.1@)),
{
    let ts = chars_of(t);
    let mut found = false;
    let mut before = String::new();
    let mut after = String::new();
    let mut i: usize = 0;
    while i < ts.len()
        invariant
            i <= ts@.len(),
            ts@ == t@,
            found ==> around_last(ts@.take(i as int), c) == Some((before@, after@)),
            found ==> before@.push(c) + after@ == ts@.take(i as int),
            !found ==> around_last(ts@.take(i as int), c) is None,
            !found ==> after@ == ts@.take(i as int),
        decreases ts@.len() - i,
    {
        assert(ts@.take(i + 1).drop_last() == ts@.take(i as int));
        assert(ts@.take(i + 1) == ts@.take(i as int).push(ts@[i as int]));
        if ts[i] == c {
            if found {
                before.push(c);
                before.append(after.as_str());
            } else {
                before = after;
            }
            after = String::new();
            found = true;
        } else {
            after.push(ts[i]);
        }
        i += 1;
    }
    assert(ts@.take(i as int) == ts@);
    if found {
        Some((before, after))
    } else {
        None
    }
}

/// The decimal digit of `n`.
fn digit_char(n: u64) -> (c: char)
    requires
        n < 10,
    ensures
        c == digit(n as int),
{
    (n as u8 + 48) as char
}

/// `n` in decimal notation.
pub fn decimal_text(n: u64) -> (r: String)
    ensures
        r@ == decimal(n as nat),
    decreases n,
{
    if n < 10 {
        let mut r = String::new();
        r.push(digit_char(n));
        assert(r@ == seq![digit(n as int)]);
        r
    } else {
        let mut r = decimal_text(n / 10);
        r.push(digit_char(n % 10));
        r
    }
}

/// How an exit code, where there is one, is shown in messages.
pub fn code_text(code: Option<i32>) -> (r: String)
    ensures
        r@ == shown_code(code),
{
    match code {
        Some(n) => {
            let m: i64 = n as i64;
            let number = if m < 0 {
                "-".to_string().concat(decimal_text((-m) as u64).as_str())
            } else {
                decimal_text(m as u64)
            };
            "Some(".to_string().concat(number.as_str()).concat(")")
        },
        None => "None".to_string(),
    }
}

/// The hexadecimal digit of `n`.
fn hex_char(n: u8) -> (c: char)
    requires
        n < 16,
    ensures
        c == hex_digit(n as int),
{
    if n < 10 {
        (n + 48) as char
    } else {
        (n + 87) as char
    }
}

/// Each byte as two hexadecimal digits, in lower case.
pub fn hex_text(bytes: &[u8]) -> (r: String)
    ensures
        r@ == hex_of(bytes@),
{
    let mut r = String::new();
    let mut i: usize = 0;
    while i < bytes.len()
        invariant
            i <= bytes@.len(),
            r@ == hex_of(bytes@.take(i as int)),
        decreases bytes@.len() - i,
    {
        assert(bytes@.take(i + 1).drop_last() == bytes@.take(i as int));
        let b: u8 = bytes[i];
        r.push(hex_char(b / 16));
        r.push(hex_char(b % 16));
        i += 1;
    }
    assert(bytes@.take(i as int) == bytes@);
    r
}

/// Where the path `child` leads to, seen from `base`.
pub fn join_path(base: &str, child: &str) -> (r: String)
    ensures
        r@ == path_under(base@, child@),
{
    let bs = chars_of(base);
    let cs = chars_of(child);
    if cs.len() > 0 && cs[0] == '/' {
        child.to_string()
    } else if bs.len() == 0 || bs[bs.len() - 1] == '/' {
        base.to_string().concat(child)
    } else {
        let mut r = base.to_string();
        r.push('/');
        r.concat(child)
    }
}

/// The last component of `path`, where it has one that names a file.
pub fn file_name(path: &str) -> (r: Option<String>)
    ensures
        r is Some <==> file_name_of(path@) is Some,
        r matches Some(name) ==> file_name_of(path@) == Some(name@),
{
    let mut parts = split_at_char(path, '/');
    while parts.len() > 0
        invariant
            last_component(texts(parts@)) == file_name_of(path@),
        decreases parts@.len(),
    {
        let ghost before = texts(parts@);
        let n: usize = parts.len();
        let last = chars_of(parts[n - 1].as_str());
        assert(before.last() == last@);
        if last.len() == 2 && last[0] == '.' && last[1] == '.' {
            assert(last@ == seq!['.', '.']);
            return None;
        }
        if !(last.len() == 0 || (last.len() == 1 && last[0] == '.')) {
            assert(last@ != seq!['.'] && last@ != seq!['.', '.']) by {
                if last@ == seq!['.'] {
                    assert(last@[0] == '.');
                }
                if last@ == seq!['.', '.'] {
                    assert(last@[0] == '.' && last@[1] == '.');
                }
            }
            return Some(text_of(last.as_slice()));
        }
        assert(last@.len() == 0 || last@ == seq!['.']);
        let _last = parts.pop();
        assert(texts(parts@) == before.drop_last());
    }
    None
}

/// The components of a path.
fn path_components(path: &str) -> (r: Vec<String>)
    ensures
        texts(r@) == components(path@),
{
    let parts = split_at_char(path, '/');
    let ghost all = texts(parts@);
    let mut r: Vec<String> = Vec::new();
    let mut i: usize = 0;
    assert(texts(r@) == kept_pieces(all.take(0)));
    while i < parts.len()
        invariant
            i <= parts@.len(),
            all == texts(parts@),
            texts(r@) == kept_pieces(all.take(i as int)),
        decreases parts@.len() - i,
    {
        let ghost before = texts(r@);
        let part = chars_of(parts[i].as_str());
        let is_dot = part.len() == 1 && part[0] == '.';
        assert(is_dot == (part@ == seq!['.'])) by {
            if is_dot {
                assert(part@ =~= seq!['.']);
            }
        }
        assert(all.take(i + 1).drop_last() == all.take(i as int));
        assert(all.take(i + 1).last() == part@);
        if part.len() > 0 && !(is_dot && i > 0) {
            r.push(parts[i].clone());
            assert(texts(r@) == before.push(part@));
        }
        i += 1;
    }
    assert(all.take(i as int) == all);
    r
}

/// Whether a path starts at the root.
fn starts_at_root(path: &str) -> (r: bool)
    ensures
        r == is_absolute(path@),
{
    let cs = chars_of(path);
    cs.len() > 0 && cs[0] == '/'
}

/// Whether two paths are the same, component by component.
pub fn same_path(a: &str, b: &str) -> (r: bool)
    ensures
        r == same_components(a@, b@),
{
    let xs = path_components(a);
    let ys = path_components(b);
    if starts_at_root(a) != starts_at_root(b) || xs.len() != ys.len() {
        assert(texts(xs@).len() == xs@.len() && texts(ys@).len() == ys@.len());
        return false;
    }
    let mut i: usize = 0;
    while i < xs.len()
        invariant
            i <= xs@.len() == ys@.len(),
            texts(xs@) == components(a@),
            texts(ys@) == components(b@),
            forall|j: int| 0 <= j < i ==> texts(xs@)[j] == texts(ys@)[j],
        decreases xs@.len() - i,
    {
        if !same_text(xs[i].as_str(), ys[i].as_str()) {
            assert(texts(xs@)[i as int] != texts(ys@)[i as int]);
            return false;
        }
        i += 1;
    }
    assert(texts(xs@) =~= texts(ys@));
    true
}

/// A copy of a list of texts.
pub fn clone_texts(v: &[String]) -> (r: Vec<String>)
    ensures
        r@ == v@,
{
    let mut r: Vec<String> = Vec::new();
    let mut i: usize = 0;
    while i < v.len()
        invariant
            i <= v@.len(),
            r@ == v@.take(i as int),
        decreases v@.len() - i,
    {
        r.push(v[i].clone());
        i += 1;
    }
    r
}

/// A copy of an optional text.
pub fn clone_opt_text(o: &Option<String>) -> (r: Option<String>)
    ensures
        r == *o,
{
    match o {
        Some(text) => Some(text.clone()),
        None => None,
    }
}

/// The texts without those that have come before.
pub open spec fn distinct(parts: Seq<Seq<char>>) -> Seq<Seq<char>>
    decreases parts.len(),
{
    if parts.len() == 0 {
        parts
    } else {
        let before = distinct(parts.drop_last());
        if before.contains(parts.last()) {
            before
        } else {
            before.push(parts.last())
        }
    }
}

/// No text is left twice, each text is left, and none is added.
pub proof fn law_distinct(parts: Seq<Seq<char>>)
    ensures
        distinct(parts).no_duplicates(),
        forall|t: Seq<char>| distinct(parts).contains(t) <==> parts.contains(t),
    decreases parts.len(),
{
    if parts.len() > 0 {
        let init = parts.drop_last();
        let before = distinct(init);
        law_distinct(init);
        assert forall|t: Seq<char>| distinct(parts).contains(t) <==> parts.contains(t) by {
            if parts.contains(t) {
                let i = choose|i: int| 0 <= i < parts.len() && parts[i] == t;
                if i < init.len() {
                    assert(init[i] == t);
                    assert(init.contains(t));
                    assert(before.contains(t));
                }
                if !before.contains(parts.last()) {
                    assert(distinct(parts).last() == parts.last());
                    if before.contains(t) {
                        let k = choose|k: int| 0 <= k < before.len() && before[k] == t;
                        assert(distinct(parts)[k] == t);
                    }
                }
            }
            if distinct(parts).contains(t) {
                let k = choose|k: int| 0 <= k < distinct(parts).len() && distinct(parts)[k] == t;
                if k < before.len() {
                    assert(before[k] == t);
                    assert(init.contains(t));
                    let i = choose|i: int| 0 <= i < init.len() && init[i] == t;
                    assert(parts[i] == t);
                } else {
                    assert(parts[parts.len() - 1] == t);
                }
            }
        }
    }
}

/// Each byte takes two digits.
pub proof fn law_hex_length(bytes: Seq<u8>)
    ensures
        hex_of(bytes).len() == 2 * bytes.len(),
    decreases bytes.len(),
{
    if bytes.len() > 0 {
        law_hex_length(bytes.drop_last());
    }
}

proof fn lemma_hex_digit(n: int)
    requires
        0 <= n < 16,
    ensures
        hex_digit(n) as int == (if n < 10 {
            n + 48
        } else {
            n + 87
        }),
        !is_space(hex_digit(n)),
{
}

/// Different bytes are written differently.
pub proof fn law_hex_is_injective(a: Seq<u8>, b: Seq<u8>)
    requires
        hex_of(a) == hex_of(b),
    ensures
        a == b,
    decreases a.len(),
{
    law_hex_length(a);
    law_hex_length(b);
    if a.len() > 0 {
        let x = a.last();
        let y = b.last();
        let n = hex_of(a).len();
        assert(hex_of(a)[n - 1] == hex_digit(x as int % 16));
        assert(hex_of(b)[n - 1] == hex_digit(y as int % 16));
        assert(hex_of(a)[n - 2] == hex_digit(x as int / 16));
        assert(hex_of(b)[n - 2] == hex_digit(y as int / 16));
        lemma_hex_digit(x as int / 16);
        lemma_hex_digit(y as int / 16);
        lemma_hex_digit(x as int % 16);
        lemma_hex_digit(y as int % 16);
        assert(x == y);
        assert(hex_of(a).take(n - 2) =~= hex_of(a.drop_last()));
        assert(hex_of(b).take(n - 2) =~= hex_of(b.drop_last()));
        law_hex_is_injective(a.drop_last(), b.drop_last());
        assert(a =~= a.drop_last().push(x));
        assert(b =~= b.drop_last().push(y));
    } else {
        assert(a =~= b);
    }
}

/// No digit is white space.
pub proof fn law_hex_has_no_space(bytes: Seq<u8>)
    ensures
        forall|i: int| 0 <= i < hex_of(bytes).len() ==> !is_space(#[trigger] hex_of(bytes)[i]),
    decreases bytes.len(),
{
    if bytes.len() > 0 {
        let last = bytes.last() as int;
        law_hex_has_no_space(bytes.drop_last());
        lemma_hex_digit(last / 16);
        lemma_hex_digit(last % 16);
        let before = hex_of(bytes.drop_last());
        assert forall|i: int| 0 <= i < hex_of(bytes).len() implies !is_space(
            #[trigger] hex_of(bytes)[i],
        ) by {
            if i < before.len() {
                assert(hex_of(bytes)[i] == before[i]);
            }
        }
    }
}

/// A text without white space at its ends comes back when white space that was
/// put behind it is taken off again.
pub proof fn law_trimmed_line(text: Seq<char>, end: Seq<char>)
    requires
        text.len() > 0 ==> !is_space(text[0]) && !is_space(text.last()),
        forall|i: int| 0 <= i < end.len() ==> is_space(#[trigger] end[i]),
    ensures
        trimmed(text + end) == text,
{
    let all = text + end;
    if text.len() == 0 {
        assert(all =~= end);
        lemma_trimmed_start_skip(end, end.len() as int);
        assert(end.skip(end.len() as int) =~= Seq::<char>::empty());
        assert(text =~= Seq::<char>::empty());
    } else {
        lemma_trimmed_start_skip(all, 0);
        assert(all.skip(0) =~= all);
        assert forall|i: int| text.len() <= i < all.len() implies is_space(#[trigger] all[i]) by {
            assert(is_space(end[i - text.len()]));
        }
        lemma_trimmed_end_take(all, text.len() as int);
        assert(all.take(text.len() as int) =~= text);
    }
}

proof fn lemma_joined_longer(parts: Seq<Seq<char>>, sep: Seq<char>, c: char)
    requires
        parts.len() > 0,
    ensures
        joined(parts.drop_last().push(parts.last().push(c)), sep) == joined(parts, sep).push(c),
{
    let longer = parts.drop_last().push(parts.last().push(c));
    assert(longer.drop_last() =~= parts.drop_last());
    if parts.len() > 1 {
        assert(joined(longer, sep) =~= joined(parts, sep).push(c));
    }
}

/// The pieces of a text, put together with the separator between each two of them,
/// are the text again, and no piece holds the separator.
pub proof fn law_pieces_are_put_together(t: Seq<char>, sep: char)
    ensures
        joined(pieces(t, sep), seq![sep]) == t,
        pieces(t, sep).len() > 0,
        forall|i: int| 0 <= i < pieces(t, sep).len() ==> !(#[trigger] pieces(t, sep)[i]).contains(
            sep,
        ),
    decreases t.len(),
{
    let all = pieces(t, sep);
    if t.len() == 0 {
        assert(t =~= Seq::<char>::empty());
    } else {
        let init = t.drop_last();
        let before = pieces(init, sep);
        law_pieces_are_put_together(init, sep);
        if t.last() == sep {
            assert(all.drop_last() =~= before);
            assert(joined(all, seq![sep]) =~= init + seq![sep]);
            assert(init + seq![sep] =~= t);
        } else {
            lemma_joined_longer(before, seq![sep], t.last());
            assert(init.push(t.last()) =~= t);
            assert forall|i: int| 0 <= i < all.len() implies !(#[trigger] all[i]).contains(sep) by {
                if i < before.len() - 1 {
                    assert(all[i] == before[i]);
                } else {
                    let last = before[before.len() - 1];
                    assert(!last.contains(sep));
                    assert forall|k: int| 0 <= k < all[i].len() implies all[i][k] != sep by {
                        if k < last.len() {
                            assert(last.contains(last[k]));
                        }
                    }
                }
            }
        }
    }
}

/// What follows in a text without the separator belongs to its last piece.
proof fn lemma_pieces_grow(t: Seq<char>, more: Seq<char>, sep: char)
    requires
        !more.contains(sep),
    ensures
        pieces(t + more, sep) == pieces(t, sep).drop_last().push(pieces(t, sep).last() + more),
        pieces(t, sep).len() > 0,
    decreases more.len(),
{
    lemma_pieces_nonempty(t, sep);
    let all = pieces(t, sep);
    if more.len() == 0 {
        assert(t + more =~= t);
        assert(all.last() + more =~= all.last());
        assert(all.drop_last().push(all.last()) =~= all);
    } else {
        let init = more.drop_last();
        assert forall|i: int| 0 <= i < init.len() implies init[i] != sep by {
            assert(more.contains(more[i]));
        }
        lemma_pieces_grow(t, init, sep);
        assert((t + more).drop_last() =~= t + init);
        assert(more.contains(more.last()));
        let before = pieces(t + init, sep);
        assert(before.drop_last() =~= all.drop_last());
        assert((all.last() + init).push(more.last()) =~= all.last() + more);
    }
}

/// A line without line feeds that stands behind the last line feed of what comes
/// before it is the last line of a text, however many lines there are.
pub proof fn law_last_line_is_found(before: Seq<char>, line: Seq<char>, ended: bool)
    requires
        before.len() == 0 || before.last() == '\n',
        !line.contains('\n'),
        line.len() > 0 || ended,
    ensures
        ({
            let t = before + line + (if ended {
                seq!['\n']
            } else {
                Seq::<char>::empty()
            });
            line_texts(t).len() > 0 && line_texts(t).last() == line
        }),
{
    let t = before + line;
    let all = pieces(t, '\n');
    lemma_pieces_grow(before, line, '\n');
    assert(pieces(before, '\n').last() =~= Seq::<char>::empty());
    assert(Seq::<char>::empty() + line =~= line);
    assert(all.last() == line);
    if ended {
        let whole = t + seq!['\n'];
        assert(whole.drop_last() =~= t);
        assert(pieces(whole, '\n') == all.push(Seq::empty()));
        assert(pieces(whole, '\n').drop_last() =~= all);
    } else {
        assert(t + Seq::<char>::empty() =~= t);
    }
}

/// Lines, each with a line feed behind it.
pub open spec fn ended_lines(lines: Seq<Seq<char>>) -> Seq<char>
    decreases lines.len(),
{
    if lines.len() == 0 {
        Seq::empty()
    } else {
        ended_lines(lines.drop_last()) + lines.last() + seq!['\n']
    }
}

/// Lines that are written one after the other are read back, all of them and in
/// order.
pub proof fn law_lines_are_read_back(lines: Seq<Seq<char>>)
    requires
        forall|i: int| 0 <= i < lines.len() ==> !(#[trigger] lines[i]).contains('\n'),
    ensures
        line_texts(ended_lines(lines)) == lines,
{
    lemma_ended_pieces(lines);
    assert(lines.push(Seq::<char>::empty()).drop_last() =~= lines);
}

proof fn lemma_ended_pieces(lines: Seq<Seq<char>>)
    requires
        forall|i: int| 0 <= i < lines.len() ==> !(#[trigger] lines[i]).contains('\n'),
    ensures
        pieces(ended_lines(lines), '\n') == lines.push(Seq::empty()),
    decreases lines.len(),
{
    if lines.len() == 0 {
        assert(seq![Seq::<char>::empty()] =~= lines.push(Seq::<char>::empty()));
    } else {
        let init = lines.drop_last();
        let last = lines.last();
        let before = ended_lines(init);
        assert forall|i: int| 0 <= i < init.len() implies !(#[trigger] init[i]).contains('\n') by {
            assert(!lines[i].contains('\n'));
        }
        assert(!lines[lines.len() - 1].contains('\n'));
        lemma_ended_pieces(init);
        lemma_pieces_grow(before, last, '\n');
        assert(init.push(Seq::<char>::empty()).drop_last() =~= init);
        assert(Seq::<char>::empty() + last =~= last);
        assert(init.push(last) =~= lines);
        let t = before + last + seq!['\n'];
        assert(t.drop_last() =~= before + last);
    }
}

/// A word between white space is the first word of a text.
pub proof fn law_first_word_is_found(lead: Seq<char>, word: Seq<char>, rest: Seq<char>)
    requires
        forall|i: int| 0 <= i < lead.len() ==> is_space(#[trigger] lead[i]),
        word.len() > 0,
        forall|i: int| 0 <= i < word.len() ==> !is_space(#[trigger] word[i]),
        rest.len() == 0 || is_space(rest[0]),
    ensures
        first_word_of(lead + word + rest) == word,
{
    let t = lead + word + rest;
    assert(t[lead.len() as int] == word[0]);
    assert forall|i: int| 0 <= i < lead.len() implies is_space(#[trigger] t[i]) by {
        assert(t[i] == lead[i]);
    }
    lemma_trimmed_start_skip(t, lead.len() as int);
    assert(t.skip(lead.len() as int) =~= word + rest);
    lemma_run_is_word(word, rest);
}

proof fn lemma_run_is_word(word: Seq<char>, rest: Seq<char>)
    requires
        forall|i: int| 0 <= i < word.len() ==> !is_space(#[trigger] word[i]),
        rest.len() == 0 || is_space(rest[0]),
    ensures
        run_of_non_space(word + rest) == word,
    decreases word.len(),
{
    if word.len() == 0 {
        assert(word + rest =~= rest);
        assert(word =~= Seq::<char>::empty());
    } else {
        let tail = word.drop_first();
        assert(!is_space(word[0]));
        assert forall|i: int| 0 <= i < tail.len() implies !is_space(#[trigger] tail[i]) by {
            assert(!is_space(word[i + 1]));
        }
        lemma_run_is_word(tail, rest);
        assert((word + rest).drop_first() =~= tail + rest);
        assert(seq![word[0]] + tail =~= word);
    }
}

/// A text that holds white space alone has no first word.
pub proof fn law_blank_text_has_no_word(t: Seq<char>)
    requires
        forall|i: int| 0 <= i < t.len() ==> is_space(#[trigger] t[i]),
    ensures
        first_word_of(t) == Seq::<char>::empty(),
        trimmed(t) == Seq::<char>::empty(),
{
    lemma_trimmed_start_skip(t, t.len() as int);
    assert(t.skip(t.len() as int) =~= Seq::<char>::empty());
}

/// Exactly the white space at the two ends of a text is taken off.
pub proof fn law_only_ends_are_trimmed(lead: Seq<char>, text: Seq<char>, end: Seq<char>)
    requires
        forall|i: int| 0 <= i < lead.len() ==> is_space(#[trigger] lead[i]),
        text.len() > 0 ==> !is_space(text[0]) && !is_space(text.last()),
        forall|i: int| 0 <= i < end.len() ==> is_space(#[trigger] end[i]),
    ensures
        trimmed(lead + text + end) == text,
{
    let t = lead + text + end;
    if text.len() == 0 {
        assert forall|i: int| 0 <= i < t.len() implies is_space(#[trigger] t[i]) by {
            if i < lead.len() {
                assert(t[i] == lead[i]);
            } else {
                assert(t[i] == end[i - lead.len()]);
            }
        }
        law_blank_text_has_no_word(t);
        assert(text =~= Seq::<char>::empty());
    } else {
        assert forall|i: int| 0 <= i < lead.len() implies is_space(#[trigger] t[i]) by {
            assert(t[i] == lead[i]);
        }
        assert(t[lead.len() as int] == text[0]);
        lemma_trimmed_start_skip(t, lead.len() as int);
        assert(t.skip(lead.len() as int) =~= text + end);
        law_trimmed_line(text, end);
        lemma_trimmed_start_skip(text + end, 0);
        assert((text + end).skip(0) =~= text + end);
    }
}

/// What stands before the first of several separators is found, and a text without
/// one stands for itself.
pub proof fn law_prefix_ends_at_the_first(before: Seq<char>, c: char, after: Seq<char>)
    requires
        !before.contains(c),
    ensures
        before_first(before + seq![c] + after, c) == before,
        before_first(before, c) == before,
    decreases before.len(),
{
    let t = before + seq![c] + after;
    if before.len() == 0 {
        assert(t[0] == c);
        assert(before =~= Seq::<char>::empty());
    } else {
        let tail = before.drop_first();
        assert(before.contains(before[0]));
        assert forall|i: int| 0 <= i < tail.len() implies tail[i] != c by {
            assert(before.contains(before[i + 1]));
        }
        law_prefix_ends_at_the_first(tail, c, after);
        assert(t[0] == before[0]);
        assert(t.drop_first() =~= tail + seq![c] + after);
        assert(seq![before[0]] + tail =~= before);
    }
}

/// A text is taken apart at the last of several separators, and not at all where it
/// has none.
pub proof fn law_text_is_split_at_the_last(before: Seq<char>, c: char, after: Seq<char>)
    requires
        !after.contains(c),
    ensures
        around_last(before + seq![c] + after, c) == Some((before, after)),
        around_last(after, c) is None,
    decreases after.len(),
{
    let t = before + seq![c] + after;
    if after.len() == 0 {
        assert(t.drop_last() =~= before);
        assert(after =~= Seq::<char>::empty());
    } else {
        let init = after.drop_last();
        assert(after.contains(after.last()));
        assert forall|i: int| 0 <= i < init.len() implies init[i] != c by {
            assert(after.contains(after[i]));
        }
        law_text_is_split_at_the_last(before, c, init);
        assert(t.drop_last() =~= before + seq![c] + init);
        assert(init.push(after.last()) =~= after);
    }
}

/// Characters are replaced one by one: what a text becomes is what its parts become,
/// and only the character that is meant becomes something else.
pub proof fn law_characters_are_replaced_one_by_one(
    t: Seq<char>,
    more: Seq<char>,
    c: char,
    by: Seq<char>,
    other: char,
)
    ensures
        with_replaced(t + more, c, by) == with_replaced(t, c, by) + with_replaced(more, c, by),
        with_replaced(seq![c], c, by) == by,
        other != c ==> with_replaced(seq![other], c, by) == seq![other],
    decreases more.len(),
{
    assert(seq![c].drop_last() =~= Seq::<char>::empty());
    assert(seq![other].drop_last() =~= Seq::<char>::empty());
    assert(with_replaced(Seq::empty(), c, by) =~= Seq::empty());
    assert(with_replaced(seq![c], c, by) =~= by);
    assert(other != c ==> with_replaced(seq![other], c, by) =~= seq![other]);
    if more.len() == 0 {
        assert(t + more =~= t);
        assert(with_replaced(t, c, by) + with_replaced(more, c, by) =~= with_replaced(t, c, by));
    } else {
        let init = more.drop_last();
        law_characters_are_replaced_one_by_one(t, init, c, by, other);
        assert((t + more).drop_last() =~= t + init);
        assert((t + more).last() == more.last());
        assert(with_replaced(t + more, c, by) =~= with_replaced(t, c, by) + with_replaced(
            more,
            c,
            by,
        ));
    }
}

/// A path that is not absolute leads to below the one that it is seen from, with one
/// `/` between the two; an absolute one leads to the same place from everywhere.
pub proof fn law_paths_are_joined(base: Seq<char>, child: Seq<char>)
    ensures
        child.len() > 0 && child[0] == '/' ==> path_under(base, child) == child,
        !(child.len() > 0 && child[0] == '/') ==> {
            &&& base.len() > 0 && base.last() != '/' ==> path_under(base, child) == base + "/"@
                + child
            &&& path_under(base + "/"@, child) == base + "/"@ + child
        },
{
    reveal_strlit("/");
    assert(base.push('/') =~= base + "/"@);
}

/// The name of a file is what stands behind the last `/` of its path, whatever
/// directory it is in.
pub proof fn law_file_name_is_the_last_component(dir: Seq<char>, name: Seq<char>)
    requires
        dir.len() == 0 || dir.last() == '/',
        !name.contains('/'),
        name.len() > 0,
        name != "."@,
        name != ".."@,
    ensures
        file_name_of(dir + name) == Some(name),
        file_name_of(dir + name + "/"@) == Some(name),
{
    reveal_strlit(".");
    reveal_strlit("..");
    reveal_strlit("/");
    assert("."@ =~= seq!['.']);
    assert(".."@ =~= seq!['.', '.']);
    lemma_pieces_grow(dir, name, '/');
    assert(pieces(dir, '/').last() =~= Seq::<char>::empty());
    assert(Seq::<char>::empty() + name =~= name);
    let t = dir + name;
    assert((t + "/"@).drop_last() =~= t);
    assert(pieces(t + "/"@, '/') == pieces(t, '/').push(Seq::empty()));
    assert(pieces(t + "/"@, '/').drop_last() =~= pieces(t, '/'));
}

/// A number is written with its digits in order.
pub proof fn law_digits_stand_in_order(n: nat, last: nat)
    requires
        n > 0,
        last < 10,
    ensures
        decimal(10 * n + last) == decimal(n) + decimal(last),
        decimal(last).len() == 1,
        decimal(last)[0] as int == '0' as int + last,
{
    assert((10 * n + last) / 10 == n);
    assert((10 * n + last) % 10 == last as int);
    assert(decimal(10 * n + last) =~= decimal(n) + decimal(last));
}

/// Names are kept in the order in which they come first.
pub proof fn law_distinct_keeps_the_order(parts: Seq<Seq<char>>, more: Seq<Seq<char>>)
    ensures
        distinct(parts).is_prefix_of(distinct(parts + more)),
        parts.no_duplicates() ==> distinct(parts) == parts,
    decreases parts.len() + more.len(),
{
    if more.len() > 0 {
        let init = more.drop_last();
        law_distinct_keeps_the_order(parts, init);
        assert((parts + more).drop_last() =~= parts + init);
        let before = distinct(parts + init);
        let n = distinct(parts).len() as int;
        assert(before.push(more.last()).subrange(0, n) =~= before.subrange(0, n));
    } else {
        assert(parts + more =~= parts);
        assert(distinct(parts).subrange(0, distinct(parts).len() as int) =~= distinct(parts));
    }
    if parts.len() > 0 && parts.no_duplicates() {
        let init = parts.drop_last();
        law_distinct_keeps_the_order(init, Seq::empty());
        assert(init.no_duplicates());
        assert(!init.contains(parts.last())) by {
            if init.contains(parts.last()) {
                let i = choose|i: int| 0 <= i < init.len() && init[i] == parts.last();
                assert(parts[i] == parts[parts.len() - 1]);
            }
        }
        assert(init.push(parts.last()) =~= parts);
    }
}

/// An exit code is shown with its sign and its digits, and a missing one as missing.
pub proof fn law_codes_are_shown_in_decimal(code: Option<i32>, r: String)
    requires
        call_ensures(code_text, (code,), r),
    ensures
        code is None ==> r@ == "None"@,
        code matches Some(n) && n >= 0 ==> r@ == "Some("@ + decimal(code->0 as nat) + ")"@,
        code matches Some(n) && n < 0 ==> r@ == "Some(-"@ + decimal((-(code->0)) as nat) + ")"@,
{
    reveal_strlit("Some(");
    reveal_strlit("Some(-");
    reveal_strlit("-");
    assert("Some("@ + "-"@ =~= "Some(-"@);
    if code is Some && code->0 < 0 {
        let digits = decimal((-(code->0)) as nat);
        assert("Some("@ + ("-"@ + digits) =~= "Some(-"@ + digits);
    }
}

/// The pieces of two texts with the separator between them are those of the one and of
/// the other.
pub proof fn law_pieces_of_both_sides(t: Seq<char>, sep: char, more: Seq<char>)
    ensures
        pieces(t + seq![sep] + more, sep) == pieces(t, sep) + pieces(more, sep),
    decreases more.len(),
{
    let all = t + seq![sep] + more;
    lemma_pieces_nonempty(t, sep);
    if more.len() == 0 {
        assert(all.drop_last() =~= t);
        assert(pieces(t, sep).push(Seq::<char>::empty()) =~= pieces(t, sep) + pieces(more, sep));
    } else {
        let init = more.drop_last();
        law_pieces_of_both_sides(t, sep, init);
        lemma_pieces_nonempty(init, sep);
        assert(all.drop_last() =~= t + seq![sep] + init);
        let before = pieces(t, sep) + pieces(init, sep);
        assert(before.last() == pieces(init, sep).last());
        assert(before.drop_last() =~= pieces(t, sep) + pieces(init, sep).drop_last());
        assert(pieces(all, sep) =~= pieces(t, sep) + pieces(more, sep));
    }
}

proof fn lemma_kept_behind(front: Seq<Seq<char>>, back: Seq<Seq<char>>, other: Seq<Seq<char>>)
    requires
        front.len() > 0,
        other.len() > 0,
        kept_pieces(front) == kept_pieces(other),
    ensures
        kept_pieces(front + back) == kept_pieces(other + back),
    decreases back.len(),
{
    if back.len() == 0 {
        assert(front + back =~= front);
        assert(other + back =~= other);
    } else {
        let init = back.drop_last();
        lemma_kept_behind(front, init, other);
        assert((front + back).drop_last() =~= front + init);
        assert((other + back).drop_last() =~= other + init);
    }
}

/// How often a `/` is written, and a `.` between two of them or at the end, does not
/// matter for a path; a last name that differs does.
pub proof fn law_paths_are_the_same_by_their_names(
    dir: Seq<char>,
    rest: Seq<char>,
    name: Seq<char>,
    other: Seq<char>,
)
    requires
        dir.len() > 0,
        !name.contains('/') && name.len() > 0 && name != "."@,
        !other.contains('/') && other.len() > 0 && other != "."@,
    ensures
        same_components(dir + seq!['/'] + rest, dir + seq!['/', '/'] + rest),
        same_components(dir + seq!['/'] + rest, dir + seq!['/', '.', '/'] + rest),
        same_components(dir, dir + seq!['/']),
        same_components(dir, dir + seq!['/', '.']),
        same_components(dir + seq!['/'] + name, dir + seq!['/'] + other) <==> name == other,
{
    reveal_strlit(".");
    assert("."@ =~= seq!['.']);
    let none = Seq::<char>::empty();
    let front = pieces(dir, '/');
    lemma_pieces_nonempty(dir, '/');
    assert(pieces(none, '/') =~= seq![none]);
    lemma_one_piece(seq!['.'], '/');
    let with_slash = dir + seq!['/'];
    law_pieces_of_both_sides(dir, '/', none);
    assert(with_slash + none =~= with_slash);
    assert((front + seq![none]).drop_last() =~= front);
    assert(kept_pieces(front + seq![none]) == kept_pieces(front));
    law_pieces_of_both_sides(with_slash, '/', rest);
    law_pieces_of_both_sides(dir, '/', rest);
    assert(dir + seq!['/', '/'] + rest =~= with_slash + seq!['/'] + rest);
    lemma_kept_behind(front, pieces(rest, '/'), front + seq![none]);
    let with_dot = dir + seq!['/', '.'];
    law_pieces_of_both_sides(dir, '/', seq!['.']);
    assert(dir + seq!['/'] + seq!['.'] =~= with_dot);
    assert((front + seq![seq!['.']]).drop_last() =~= front);
    assert(kept_pieces(front + seq![seq!['.']]) == kept_pieces(front));
    law_pieces_of_both_sides(with_dot, '/', rest);
    assert(dir + seq!['/', '.', '/'] + rest =~= with_dot + seq!['/'] + rest);
    lemma_kept_behind(front, pieces(rest, '/'), front + seq![seq!['.']]);
    lemma_one_piece(name, '/');
    lemma_one_piece(other, '/');
    law_pieces_of_both_sides(dir, '/', name);
    law_pieces_of_both_sides(dir, '/', other);
    assert((front + seq![name]).drop_last() =~= front);
    assert((front + seq![other]).drop_last() =~= front);
    let a = kept_pieces(front + seq![name]);
    let b = kept_pieces(front + seq![other]);
    assert(a == kept_pieces(front).push(name));
    assert(b == kept_pieces(front).push(other));
    assert(a.last() == name && b.last() == other);
    assert((dir + seq!['/'] + name)[0] == dir[0]);
}

/// A path that starts at the root is never the same as one that does not.
pub proof fn law_absolute_paths_differ_from_others(a: &str, b: &str, r: bool)
    requires
        call_ensures(same_path, (a, b), r),
        a@.len() > 0 && a@[0] == '/',
        !(b@.len() > 0 && b@[0] == '/'),
    ensures
        !r,
{
}

/// What is put behind a text is how the whole of it ends.
pub proof fn lemma_ends_in(end: Seq<char>)
    ensures
        forall|front: Seq<char>| end.is_suffix_of(#[trigger] (front + end)),
{
    assert forall|front: Seq<char>| end.is_suffix_of(#[trigger] (front + end)) by {
        let all = front + end;
        assert(end =~= all.subrange(all.len() - end.len(), all.len() as int));
    }
}

/// What is put behind a text part by part is how the whole of it ends.
pub proof fn lemma_ends_in_parts(a: Seq<char>, b: Seq<char>, c: Seq<char>)
    ensures
        forall|front: Seq<char>| (a + b + c).is_suffix_of(#[trigger] (front + a + b + c)),
        forall|front: Seq<char>| (a + b).is_suffix_of(#[trigger] (front + a + b)),
{
    assert forall|front: Seq<char>| (a + b + c).is_suffix_of(#[trigger] (front + a + b + c)) by {
        lemma_ends_in(a + b + c);
        assert(front + a + b + c =~= front + (a + b + c));
    }
    assert forall|front: Seq<char>| (a + b).is_suffix_of(#[trigger] (front + a + b)) by {
        lemma_ends_in(a + b);
        assert(front + a + b =~= front + (a + b));
    }
}

/// White space of every kind is white space, and no visible ASCII character is.
pub proof fn law_white_space_is_known(c: char)
    ensures
        c == ' ' || c == '\t' || c == '\n' || c == '\r' || c == '\u{b}' || c == '\u{c}'
            ==> is_space(c),
        c == '\u{85}' || c == '\u{a0}' || c == '\u{1680}' || ('\u{2000}' <= c && c <= '\u{200a}')
            || c == '\u{2028}' || c == '\u{2029}' || c == '\u{202f}' || c == '\u{205f}' || c
            == '\u{3000}' ==> is_space(c),
        '!' <= c && c <= '~' ==> !is_space(c),
        c > '\u{3000}' ==> !is_space(c),
{
}

} // verus!
